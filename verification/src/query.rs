//! Query parameter assembly: the instant and range query descriptions, the
//! per-endpoint parameter builders with their validation, and the transport
//! status check. Everything here is pure; the one outbound network call per
//! operation is made by the caller with what these functions hand back.

use vstd::prelude::*;
use crate::duration::{duration_error_reason, is_valid_duration, validate_duration};
use crate::error::{Error, ErrorSpec};
use crate::response::pairs_view;
use crate::selector::{render_selector, Selector};
use crate::text::{chars_to_string, dec_int, dec_nat, i64_to_string, push_str_chars, u64_to_string};

verus! {

/// A `(key, value)` entry for an optional parameter: nothing when absent.
pub open spec fn opt_entry(key: Seq<char>, v: Option<Seq<char>>) -> Seq<(Seq<char>, Seq<char>)> {
    match v {
        Some(x) => seq![(key, x)],
        None => Seq::empty(),
    }
}

/// The decimal rendering of an optional timestamp.
pub open spec fn time_view(t: Option<i64>) -> Option<Seq<char>> {
    match t {
        Some(x) => Some(dec_int(x as int)),
        None => None,
    }
}

/// An optional duration is acceptable when absent or valid.
pub open spec fn opt_duration_ok(s: Option<Seq<char>>) -> bool {
    match s {
        Some(t) => is_valid_duration(t),
        None => true,
    }
}

/// The rule an optional duration broke, where it is present and invalid.
pub open spec fn opt_duration_reason(s: Option<Seq<char>>) -> Seq<char> {
    match s {
        Some(t) => duration_error_reason(t),
        None => Seq::empty(),
    }
}

/// The view of an optional borrowed string.
pub open spec fn opt_str_view(s: Option<&str>) -> Option<Seq<char>> {
    match s {
        Some(x) => Some(x@),
        None => None,
    }
}

/// The mathematical model of an [`InstantQuery`].
pub struct InstantQuerySpec {
    pub query: Seq<char>,
    pub time: Option<Seq<char>>,
    pub timeout: Option<Seq<char>>,
}

/// An instant query description: the expression text and its optional
/// evaluation timestamp and timeout, as they go on the wire.
#[derive(Debug, Clone)]
pub struct InstantQuery {
    pub query: String,
    pub time: Option<String>,
    pub timeout: Option<String>,
}

impl View for InstantQuery {
    type V = InstantQuerySpec;

    open spec fn view(&self) -> InstantQuerySpec {
        InstantQuerySpec {
            query: self.query@,
            time: match self.time {
                Some(ref t) => Some(t@),
                None => None,
            },
            timeout: match self.timeout {
                Some(ref t) => Some(t@),
                None => None,
            },
        }
    }
}

/// The exact parameter list of an instant query: `query`, then `time` and
/// `timeout` where present.
pub open spec fn instant_query_params_spec(q: InstantQuerySpec) -> Seq<(Seq<char>, Seq<char>)> {
    seq![("query"@, q.query)] + opt_entry("time"@, q.time) + opt_entry("timeout"@, q.timeout)
}

impl InstantQuery {
    /// The key/value parameters this query serializes to.
    pub fn get_query_params(&self) -> (ps: Vec<(String, String)>)
        ensures
            pairs_view(ps@) == instant_query_params_spec(self@),
    {
        let mut ps: Vec<(String, String)> = Vec::new();
        ps.push((String::from_str("query"), self.query.clone()));
        match &self.time {
            Some(t) => ps.push((String::from_str("time"), t.clone())),
            None => (),
        }
        match &self.timeout {
            Some(t) => ps.push((String::from_str("timeout"), t.clone())),
            None => (),
        }
        proof {
            assert(pairs_view(ps@) =~= instant_query_params_spec(self@));
        }
        ps
    }
}

/// The mathematical model of a [`RangeQuery`].
pub struct RangeQuerySpec {
    pub query: Seq<char>,
    pub start: Seq<char>,
    pub end: Seq<char>,
    pub step: Seq<char>,
    pub timeout: Option<Seq<char>>,
}

/// A range query description: the expression text, the required window
/// bounds and step, and the optional timeout, as they go on the wire.
#[derive(Debug, Clone)]
pub struct RangeQuery {
    pub query: String,
    pub start: String,
    pub end: String,
    pub step: String,
    pub timeout: Option<String>,
}

impl View for RangeQuery {
    type V = RangeQuerySpec;

    open spec fn view(&self) -> RangeQuerySpec {
        RangeQuerySpec {
            query: self.query@,
            start: self.start@,
            end: self.end@,
            step: self.step@,
            timeout: match self.timeout {
                Some(ref t) => Some(t@),
                None => None,
            },
        }
    }
}

/// The exact parameter list of a range query: `query`, `start`, `end`,
/// `step`, then `timeout` where present.
pub open spec fn range_query_params_spec(q: RangeQuerySpec) -> Seq<(Seq<char>, Seq<char>)> {
    seq![("query"@, q.query), ("start"@, q.start), ("end"@, q.end), ("step"@, q.step)] + opt_entry(
        "timeout"@,
        q.timeout,
    )
}

impl RangeQuery {
    /// The key/value parameters this query serializes to.
    pub fn get_query_params(&self) -> (ps: Vec<(String, String)>)
        ensures
            pairs_view(ps@) == range_query_params_spec(self@),
    {
        let mut ps: Vec<(String, String)> = Vec::new();
        ps.push((String::from_str("query"), self.query.clone()));
        ps.push((String::from_str("start"), self.start.clone()));
        ps.push((String::from_str("end"), self.end.clone()));
        ps.push((String::from_str("step"), self.step.clone()));
        match &self.timeout {
            Some(t) => ps.push((String::from_str("timeout"), t.clone())),
            None => (),
        }
        proof {
            assert(pairs_view(ps@) =~= range_query_params_spec(self@));
        }
        ps
    }
}

/// Validate and serialize the parameters of an instant query: `query`, an
/// optional `time` rendered in decimal, and an optional `timeout` that must
/// be a valid duration.
pub fn query_params(query: &str, time: Option<i64>, timeout: Option<&str>) -> (r: Result<
    Vec<(String, String)>,
    Error,
>)
    ensures
        !opt_duration_ok(opt_str_view(timeout)) ==> (r matches Err(e) && e@
            == (ErrorSpec::InvalidDuration {
            reason: opt_duration_reason(opt_str_view(timeout)),
        })),
        opt_duration_ok(opt_str_view(timeout)) ==> (r matches Ok(ps) && pairs_view(
            ps@,
        ) == instant_query_params_spec(
            InstantQuerySpec {
                query: query@,
                time: time_view(time),
                timeout: opt_str_view(timeout),
            },
        )),
{
    let mut ps: Vec<(String, String)> = Vec::new();
    ps.push((String::from_str("query"), String::from_str(query)));
    match time {
        Some(t) => ps.push((String::from_str("time"), i64_to_string(t))),
        None => (),
    }
    match timeout {
        Some(t) => {
            match validate_duration(t) {
                Ok(()) => ps.push((String::from_str("timeout"), String::from_str(t))),
                Err(e) => {
                    return Err(e);
                },
            }
        },
        None => (),
    }
    proof {
        assert(pairs_view(ps@) =~= instant_query_params_spec(
            InstantQuerySpec {
                query: query@,
                time: time_view(time),
                timeout: opt_str_view(timeout),
            },
        ));
    }
    Ok(ps)
}

/// Validate and serialize the parameters of a range query. The window must
/// satisfy `start <= end`; `step` is required and, like the optional
/// `timeout`, must be a valid duration.
pub fn query_range_params(
    query: &str,
    start: i64,
    end: i64,
    step: &str,
    timeout: Option<&str>,
) -> (r: Result<Vec<(String, String)>, Error>)
    ensures
        start > end ==> (r matches Err(e) && e@ == (ErrorSpec::InvalidFunctionArgument {
            message: "a range query requires start <= end"@,
        })),
        start <= end && !is_valid_duration(step@) ==> (r matches Err(e) && e@
            == (ErrorSpec::InvalidDuration { reason: duration_error_reason(step@) })),
        start <= end && is_valid_duration(step@) && !opt_duration_ok(opt_str_view(timeout)) ==> (
        r matches Err(e) && e@ == (ErrorSpec::InvalidDuration {
            reason: opt_duration_reason(opt_str_view(timeout)),
        })),
        start <= end && is_valid_duration(step@) && opt_duration_ok(opt_str_view(timeout)) ==> (
        r matches Ok(ps) && pairs_view(ps@)
            == range_query_params_spec(
            RangeQuerySpec {
                query: query@,
                start: dec_int(start as int),
                end: dec_int(end as int),
                step: step@,
                timeout: opt_str_view(timeout),
            },
        )),
{
    if start > end {
        return Err(
            Error::InvalidFunctionArgument {
                message: String::from_str("a range query requires start <= end"),
            },
        );
    }
    match validate_duration(step) {
        Ok(()) => (),
        Err(e) => {
            return Err(e);
        },
    }
    let mut ps: Vec<(String, String)> = Vec::new();
    ps.push((String::from_str("query"), String::from_str(query)));
    ps.push((String::from_str("start"), i64_to_string(start)));
    ps.push((String::from_str("end"), i64_to_string(end)));
    ps.push((String::from_str("step"), String::from_str(step)));
    match timeout {
        Some(t) => {
            match validate_duration(t) {
                Ok(()) => ps.push((String::from_str("timeout"), String::from_str(t))),
                Err(e) => {
                    return Err(e);
                },
            }
        },
        None => (),
    }
    proof {
        assert(pairs_view(ps@) =~= range_query_params_spec(
            RangeQuerySpec {
                query: query@,
                start: dec_int(start as int),
                end: dec_int(end as int),
                step: step@,
                timeout: opt_str_view(timeout),
            },
        ));
    }
    Ok(ps)
}

/// One `match[]` entry per selector, each rendered structurally from that
/// selector alone: the text never carries a range or offset suffix, and no
/// selector's entry depends on the others.
pub open spec fn selector_entries(sels: Seq<Selector>) -> Seq<(Seq<char>, Seq<char>)> {
    Seq::new(sels.len(), |i: int| ("match[]"@, render_selector(sels[i]@)))
}

/// Validate and serialize the parameters of a series lookup: the optional
/// window, then one `match[]` entry per selector. An empty selector list is
/// rejected with `InvalidFunctionArgument` before any request is made.
pub fn series_params(selectors: &Vec<Selector>, start: Option<i64>, end: Option<i64>) -> (r:
    Result<Vec<(String, String)>, Error>)
    ensures
        selectors@.len() == 0 ==> (r matches Err(e) && e@ == (ErrorSpec::InvalidFunctionArgument {
            message:
                "at least one match[] argument (Selector) must be provided in order to query the series endpoint"@,
        })),
        selectors@.len() > 0 ==> (r matches Ok(ps) && pairs_view(ps@) == opt_entry(
            "start"@,
            time_view(start),
        ) + opt_entry("end"@, time_view(end)) + selector_entries(selectors@)),
{
    if selectors.len() == 0 {
        return Err(
            Error::InvalidFunctionArgument {
                message: String::from_str(
                    "at least one match[] argument (Selector) must be provided in order to query the series endpoint",
                ),
            },
        );
    }
    let ps = match_params(Some(selectors), start, end);
    Ok(ps)
}

/// Serialize the shared discovery parameters: the optional window, then one
/// `match[]` entry per selector of the optional list.
pub fn match_params(selectors: Option<&Vec<Selector>>, start: Option<i64>, end: Option<i64>) -> (
    ps: Vec<(String, String)>
)
    ensures
        pairs_view(ps@) == opt_entry("start"@, time_view(start)) + opt_entry(
            "end"@,
            time_view(end),
        ) + (match selectors {
            Some(sels) => selector_entries(sels@),
            None => Seq::empty(),
        }),
{
    let mut ps: Vec<(String, String)> = Vec::new();
    match start {
        Some(t) => ps.push((String::from_str("start"), i64_to_string(t))),
        None => (),
    }
    match end {
        Some(t) => ps.push((String::from_str("end"), i64_to_string(t))),
        None => (),
    }
    let ghost prefix = opt_entry("start"@, time_view(start)) + opt_entry("end"@, time_view(end));
    proof {
        assert(pairs_view(ps@) =~= prefix);
    }
    match selectors {
        Some(sels) => {
            let n = sels.len();
            let mut i: usize = 0;
            while i < n
                invariant
                    n == sels@.len(),
                    i <= n,
                    pairs_view(ps@) == prefix + selector_entries(sels@).take(i as int),
                decreases n - i,
            {
                let text = sels[i].render();
                let key = String::from_str("match[]");
                let ghost prevp = ps@;
                let ghost entry = ("match[]"@, render_selector(sels@[i as int]@));
                ps.push((key, text));
                proof {
                    let se = selector_entries(sels@);
                    assert(se[i as int] == entry);
                    assert(se.take(i + 1) =~= se.take(i as int).push(entry));
                    assert(pairs_view(prevp).len() == prevp.len());
                    assert(se.take(i as int).len() == i);
                    assert(pairs_view(prevp).len() == prefix.len() + se.take(i as int).len());
                    assert(prevp.len() == prefix.len() + i);
                    let rhs = prefix + se.take(i + 1);
                    assert forall|j: int| 0 <= j < ps@.len() implies #[trigger] pairs_view(
                        ps@,
                    )[j] == rhs[j] by {
                        assert(pairs_view(ps@)[j] == (ps@[j].0@, ps@[j].1@));
                        if j < prevp.len() {
                            assert(ps@[j] == prevp[j]);
                            assert(pairs_view(prevp)[j] == (prevp[j].0@, prevp[j].1@));
                            if j < prefix.len() {
                                assert(rhs[j] == prefix[j]);
                                assert((prefix + se.take(i as int))[j] == prefix[j]);
                            } else {
                                assert(rhs[j] == se.take(i + 1)[j - prefix.len()]);
                                assert(se.take(i + 1)[j - prefix.len()] == se[j - prefix.len()]);
                                assert((prefix + se.take(i as int))[j] == se.take(
                                    i as int,
                                )[j - prefix.len()]);
                                assert(se.take(i as int)[j - prefix.len()] == se[j
                                    - prefix.len()]);
                            }
                        } else {
                            assert(j == prevp.len());
                            assert(ps@[j].0@ == "match[]"@);
                            assert(ps@[j].1@ == render_selector(sels@[i as int]@));
                            assert(rhs[j] == se.take(i + 1)[i as int]);
                            assert(se.take(i + 1)[i as int] == se[i as int]);
                        }
                    }
                    assert(pairs_view(ps@) =~= rhs);
                }
                i = i + 1;
            }
            proof {
                assert(selector_entries(sels@).take(n as int) =~= selector_entries(sels@));
            }
        },
        None => (),
    }
    ps
}

/// In a discovery request that combines several selectors, each `match[]`
/// entry is rendered from its own selector alone: two requests agreeing on
/// the selector at one position carry the same entry there, whatever else
/// they hold, and the entry's text always closes with the brace of the
/// matcher set, never a trailing range or offset suffix.
pub proof fn lemma_match_entry_independent(a: Seq<Selector>, b: Seq<Selector>, i: int)
    requires
        0 <= i < a.len(),
        0 <= i < b.len(),
        a[i]@ == b[i]@,
    ensures
        selector_entries(a)[i] == selector_entries(b)[i],
        selector_entries(a)[i].1 == render_selector(a[i]@),
        selector_entries(a)[i].1.len() > 0,
        selector_entries(a)[i].1.last() == '}',
{
    let s = a[i]@;
    let r = render_selector(s);
    let rm = crate::selector::render_matchers(s.matchers);
    assert(rm.len() >= 2);
    assert(rm[rm.len() - 1] == '}');
    assert(r[r.len() - 1] == rm[rm.len() - 1]);
}

/// The recognized rule kinds of the rules endpoint.
#[derive(Debug, Clone, Copy, PartialEq, Eq, Structural)]
pub enum RuleType {
    Alert,
    Record,
}

/// The rule kind's wire token.
pub open spec fn rule_type_text(t: RuleType) -> Seq<char> {
    match t {
        RuleType::Alert => "alert"@,
        RuleType::Record => "record"@,
    }
}

impl RuleType {
    /// The wire token of this rule kind.
    pub fn as_str(&self) -> (s: &'static str)
        ensures
            s@ == rule_type_text(*self),
    {
        match self {
            RuleType::Alert => "alert",
            RuleType::Record => "record",
        }
    }
}

/// The recognized target states of the targets endpoint.
#[derive(Debug, Clone, Copy, PartialEq, Eq, Structural)]
pub enum TargetState {
    Active,
    Dropped,
    Any,
}

/// The target state's wire token.
pub open spec fn target_state_text(t: TargetState) -> Seq<char> {
    match t {
        TargetState::Active => "active"@,
        TargetState::Dropped => "dropped"@,
        TargetState::Any => "any"@,
    }
}

impl TargetState {
    /// The wire token of this target state.
    pub fn as_str(&self) -> (s: &'static str)
        ensures
            s@ == target_state_text(*self),
    {
        match self {
            TargetState::Active => "active",
            TargetState::Dropped => "dropped",
            TargetState::Any => "any",
        }
    }
}

/// Serialize the targets endpoint's optional state filter.
pub fn targets_params(state: Option<TargetState>) -> (ps: Vec<(String, String)>)
    ensures
        pairs_view(ps@) == opt_entry(
            "state"@,
            match state {
                Some(s) => Some(target_state_text(s)),
                None => None,
            },
        ),
{
    let mut ps: Vec<(String, String)> = Vec::new();
    match state {
        Some(s) => ps.push((String::from_str("state"), String::from_str(s.as_str()))),
        None => (),
    }
    proof {
        assert(pairs_view(ps@) =~= opt_entry(
            "state"@,
            match state {
                Some(s) => Some(target_state_text(s)),
                None => None,
            },
        ));
    }
    ps
}

/// Serialize the rules endpoint's optional type filter.
pub fn rules_params(rule_type: Option<RuleType>) -> (ps: Vec<(String, String)>)
    ensures
        pairs_view(ps@) == opt_entry(
            "type"@,
            match rule_type {
                Some(t) => Some(rule_type_text(t)),
                None => None,
            },
        ),
{
    let mut ps: Vec<(String, String)> = Vec::new();
    match rule_type {
        Some(t) => ps.push((String::from_str("type"), String::from_str(t.as_str()))),
        None => (),
    }
    proof {
        assert(pairs_view(ps@) =~= opt_entry(
            "type"@,
            match rule_type {
                Some(t) => Some(rule_type_text(t)),
                None => None,
            },
        ));
    }
    ps
}

/// Serialize the target-metadata parameters: the optional metric name, the
/// optional target selector (rendered structurally), and the optional
/// entry limit.
pub fn target_metadata_params(
    metric: Option<&str>,
    match_target: Option<&Selector>,
    limit: Option<u64>,
) -> (ps: Vec<(String, String)>)
    ensures
        pairs_view(ps@) == opt_entry("metric"@, opt_str_view(metric)) + opt_entry(
            "match_target"@,
            match match_target {
                Some(s) => Some(render_selector(s@)),
                None => None,
            },
        ) + opt_entry(
            "limit"@,
            match limit {
                Some(l) => Some(dec_nat(l as nat)),
                None => None,
            },
        ),
{
    let mut ps: Vec<(String, String)> = Vec::new();
    match metric {
        Some(m) => ps.push((String::from_str("metric"), String::from_str(m))),
        None => (),
    }
    match match_target {
        Some(s) => ps.push((String::from_str("match_target"), s.render())),
        None => (),
    }
    match limit {
        Some(l) => ps.push((String::from_str("limit"), u64_to_string(l))),
        None => (),
    }
    proof {
        assert(pairs_view(ps@) =~= opt_entry("metric"@, opt_str_view(metric)) + opt_entry(
            "match_target"@,
            match match_target {
                Some(s) => Some(render_selector(s@)),
                None => None,
            },
        ) + opt_entry(
            "limit"@,
            match limit {
                Some(l) => Some(dec_nat(l as nat)),
                None => None,
            },
        ));
    }
    ps
}

/// Serialize the metric-metadata parameters: the optional metric name and
/// the optional entry limit.
pub fn metric_metadata_params(metric: Option<&str>, limit: Option<u64>) -> (ps: Vec<
    (String, String),
>)
    ensures
        pairs_view(ps@) == opt_entry("metric"@, opt_str_view(metric)) + opt_entry(
            "limit"@,
            match limit {
                Some(l) => Some(dec_nat(l as nat)),
                None => None,
            },
        ),
{
    let mut ps: Vec<(String, String)> = Vec::new();
    match metric {
        Some(m) => ps.push((String::from_str("metric"), String::from_str(m))),
        None => (),
    }
    match limit {
        Some(l) => ps.push((String::from_str("limit"), u64_to_string(l))),
        None => (),
    }
    proof {
        assert(pairs_view(ps@) =~= opt_entry("metric"@, opt_str_view(metric)) + opt_entry(
            "limit"@,
            match limit {
                Some(l) => Some(dec_nat(l as nat)),
                None => None,
            },
        ));
    }
    ps
}

/// The URL path of the label-values endpoint for one label name.
pub fn label_values_path(label: &str) -> (p: String)
    ensures
        p@ == "/label/"@ + label@ + "/values"@,
{
    let mut out: Vec<char> = Vec::new();
    push_str_chars(&mut out, "/label/");
    push_str_chars(&mut out, label);
    push_str_chars(&mut out, "/values");
    proof {
        assert(out@ =~= "/label/"@ + label@ + "/values"@);
    }
    chars_to_string(&out)
}

/// Gate envelope decoding on the transport status: any non-2xx status is a
/// transport error, surfaced before the body is looked at.
pub fn check_status(status: u16) -> (r: Result<(), Error>)
    ensures
        r is Ok <==> 200 <= status < 300,
        r matches Err(e) ==> e@ == (ErrorSpec::TransportError { status }),
{
    if 200 <= status && status < 300 {
        Ok(())
    } else {
        Err(Error::TransportError { status })
    }
}

} // verus!
