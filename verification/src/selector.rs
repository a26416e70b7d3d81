//! Label-matcher selectors: an ordered matcher set with an optional bare
//! metric name, rendered structurally into matcher syntax, and a parser that
//! reads matcher text back into label/operator/value triples.

use vstd::prelude::*;
use crate::is_label_char;
use crate::text::{chars_to_string, push_str_chars};

verus! {

/// The four matcher operators of the selector grammar.
#[derive(Debug, Clone, Copy, PartialEq, Eq, Structural)]
pub enum MatchOp {
    /// `label="value"`
    Equal,
    /// `label!="value"`
    NotEqual,
    /// `label=~"pattern"`
    RegexMatch,
    /// `label!~"pattern"`
    RegexNoMatch,
}

/// The mathematical model of a [`Matcher`].
pub struct MatcherSpec {
    pub label: Seq<char>,
    pub op: MatchOp,
    pub value: Seq<char>,
}

/// One label matcher: a label name, an operator, and a value or pattern.
#[derive(Debug, Clone)]
pub struct Matcher {
    pub label: String,
    pub op: MatchOp,
    pub value: String,
}

impl View for Matcher {
    type V = MatcherSpec;

    open spec fn view(&self) -> MatcherSpec {
        MatcherSpec { label: self.label@, op: self.op, value: self.value@ }
    }
}

/// The view of a matcher vector: the sequence of matcher models.
pub open spec fn matchers_view(v: Seq<Matcher>) -> Seq<MatcherSpec> {
    Seq::new(v.len(), |i: int| v[i]@)
}

/// A well-formed label: non-empty, made of identifier characters.
pub open spec fn wf_label(l: Seq<char>) -> bool {
    l.len() > 0 && forall|j: int| 0 <= j < l.len() ==> is_label_char(#[trigger] l[j])
}

/// A matcher whose rendering can be read back: its label is well-formed.
/// Values need no restriction; they are escaped.
pub open spec fn wf_matcher(m: MatcherSpec) -> bool {
    wf_label(m.label)
}

/// The operator's matcher-syntax text.
pub open spec fn op_text(op: MatchOp) -> Seq<char> {
    match op {
        MatchOp::Equal => seq!['='],
        MatchOp::NotEqual => seq!['!', '='],
        MatchOp::RegexMatch => seq!['=', '~'],
        MatchOp::RegexNoMatch => seq!['!', '~'],
    }
}

/// How one character of a value is written inside quotes: backslashes and
/// double quotes get a backslash escape, everything else stands as itself.
pub open spec fn esc_char(c: char) -> Seq<char> {
    if c == '\\' || c == '"' {
        seq!['\\', c]
    } else {
        seq![c]
    }
}

/// The escaped form of a value.
pub open spec fn escape_seq(s: Seq<char>) -> Seq<char>
    decreases s.len(),
{
    if s.len() == 0 {
        Seq::empty()
    } else {
        esc_char(s[0]) + escape_seq(s.drop_first())
    }
}

/// The rendering of one matcher: `label`, operator, quoted escaped value.
pub open spec fn render_matcher(m: MatcherSpec) -> Seq<char> {
    m.label + op_text(m.op) + seq!['"'] + escape_seq(m.value) + seq!['"']
}

/// The comma-joined rendering of a matcher list, without braces.
pub open spec fn render_matcher_list(ms: Seq<MatcherSpec>) -> Seq<char>
    decreases ms.len(),
{
    if ms.len() == 0 {
        Seq::empty()
    } else if ms.len() == 1 {
        render_matcher(ms[0])
    } else {
        render_matcher(ms[0]) + seq![','] + render_matcher_list(ms.drop_first())
    }
}

/// The matcher text of a set: the joined matchers inside braces. This text
/// is produced structurally from the set alone, so it never carries a
/// trailing range or offset suffix.
pub open spec fn render_matchers(ms: Seq<MatcherSpec>) -> Seq<char> {
    seq!['{'] + render_matcher_list(ms) + seq!['}']
}

/// The mathematical model of a [`Selector`].
pub struct SelectorSpec {
    pub metric: Option<Seq<char>>,
    pub matchers: Seq<MatcherSpec>,
}

/// The full selector text: the bare metric name, if any, followed by the
/// matcher text.
pub open spec fn render_selector(s: SelectorSpec) -> Seq<char> {
    (match s.metric {
        Some(name) => name,
        None => Seq::empty(),
    }) + render_matchers(s.matchers)
}

/// An ordered matcher set plus an optional bare metric name. Built fluently;
/// rendering is pure and repeatable.
#[derive(Debug, Clone)]
pub struct Selector {
    metric: Option<String>,
    matchers: Vec<Matcher>,
}

impl View for Selector {
    type V = SelectorSpec;

    closed spec fn view(&self) -> SelectorSpec {
        SelectorSpec {
            metric: match self.metric {
                Some(name) => Some(name@),
                None => None,
            },
            matchers: matchers_view(self.matchers@),
        }
    }
}

impl Selector {
    /// An empty selector: no metric name, no matchers.
    pub fn new() -> (s: Selector)
        ensures
            s@.metric is None,
            s@.matchers == Seq::<MatcherSpec>::empty(),
    {
        let s = Selector { metric: None, matchers: Vec::new() };
        proof {
            assert(s@.matchers =~= Seq::<MatcherSpec>::empty());
        }
        s
    }

    /// Set the bare metric name; equivalent to matching `__name__`.
    pub fn metric(self, name: &str) -> (s: Selector)
        ensures
            s@.metric == Some(name@),
            s@.matchers == self@.matchers,
    {
        let s = Selector { metric: Some(String::from_str(name)), matchers: self.matchers };
        proof {
            assert(s@.matchers =~= self@.matchers);
        }
        s
    }

    /// Append an equality matcher `label="value"`.
    pub fn with(self, label: &str, value: &str) -> (s: Selector)
        ensures
            s@.metric == self@.metric,
            s@.matchers == self@.matchers.push(
                MatcherSpec { label: label@, op: MatchOp::Equal, value: value@ },
            ),
    {
        self.push_matcher(label, MatchOp::Equal, value)
    }

    /// Append a negated equality matcher `label!="value"`.
    pub fn without(self, label: &str, value: &str) -> (s: Selector)
        ensures
            s@.metric == self@.metric,
            s@.matchers == self@.matchers.push(
                MatcherSpec { label: label@, op: MatchOp::NotEqual, value: value@ },
            ),
    {
        self.push_matcher(label, MatchOp::NotEqual, value)
    }

    /// Append a regex matcher `label=~"pattern"`.
    pub fn regex_match(self, label: &str, pattern: &str) -> (s: Selector)
        ensures
            s@.metric == self@.metric,
            s@.matchers == self@.matchers.push(
                MatcherSpec { label: label@, op: MatchOp::RegexMatch, value: pattern@ },
            ),
    {
        self.push_matcher(label, MatchOp::RegexMatch, pattern)
    }

    /// Append a negated regex matcher `label!~"pattern"`.
    pub fn regex_no_match(self, label: &str, pattern: &str) -> (s: Selector)
        ensures
            s@.metric == self@.metric,
            s@.matchers == self@.matchers.push(
                MatcherSpec { label: label@, op: MatchOp::RegexNoMatch, value: pattern@ },
            ),
    {
        self.push_matcher(label, MatchOp::RegexNoMatch, pattern)
    }

    fn push_matcher(self, label: &str, op: MatchOp, value: &str) -> (s: Selector)
        ensures
            s@.metric == self@.metric,
            s@.matchers == self@.matchers.push(
                MatcherSpec { label: label@, op: op, value: value@ },
            ),
    {
        let mut matchers = self.matchers;
        let ghost prev = matchers_view(matchers@);
        matchers.push(
            Matcher { label: String::from_str(label), op, value: String::from_str(value) },
        );
        let s = Selector { metric: self.metric, matchers };
        proof {
            assert(s@.matchers =~= prev.push(
                MatcherSpec { label: label@, op: op, value: value@ },
            ));
        }
        s
    }

    /// True when the selector has neither a metric name nor any matcher;
    /// such a selector renders as the degenerate `{}`.
    pub fn is_empty(&self) -> (r: bool)
        ensures
            r == (self@.metric is None && self@.matchers.len() == 0),
    {
        self.metric.is_none() && self.matchers.len() == 0
    }

    /// The number of matchers in the set.
    pub fn matcher_count(&self) -> (n: usize)
        ensures
            n == self@.matchers.len(),
    {
        self.matchers.len()
    }

    /// The matcher set, for inspection.
    pub fn matchers(&self) -> (ms: &Vec<Matcher>)
        ensures
            matchers_view(ms@) == self@.matchers,
    {
        &self.matchers
    }

    /// Render the full selector text: metric name, then matcher text.
    /// Rendering is pure: equal selectors always yield identical text.
    pub fn render(&self) -> (s: String)
        ensures
            s@ == render_selector(self@),
    {
        let mut out: Vec<char> = Vec::new();
        match &self.metric {
            Some(name) => push_str_chars(&mut out, name.as_str()),
            None => (),
        }
        push_matchers(&mut out, &self.matchers);
        chars_to_string(&out)
    }

    /// Render the matcher text alone: the braced matcher list, with no
    /// metric name and, by construction, no range or offset suffix.
    pub fn matcher_text(&self) -> (s: String)
        ensures
            s@ == render_matchers(self@.matchers),
    {
        let mut out: Vec<char> = Vec::new();
        push_matchers(&mut out, &self.matchers);
        chars_to_string(&out)
    }
}

proof fn lemma_escape_append(a: Seq<char>, b: Seq<char>)
    ensures
        escape_seq(a + b) == escape_seq(a) + escape_seq(b),
    decreases a.len(),
{
    if a.len() == 0 {
        assert(a + b =~= b);
        assert(escape_seq(a) + escape_seq(b) =~= escape_seq(b));
    } else {
        assert((a + b).drop_first() =~= a.drop_first() + b);
        lemma_escape_append(a.drop_first(), b);
        assert(esc_char(a[0]) + (escape_seq(a.drop_first()) + escape_seq(b)) =~= (esc_char(a[0])
            + escape_seq(a.drop_first())) + escape_seq(b));
    }
}

proof fn lemma_escape_single(c: char)
    ensures
        escape_seq(seq![c]) == esc_char(c),
{
    reveal_with_fuel(escape_seq, 2);
    assert(seq![c].drop_first() =~= Seq::<char>::empty());
    assert(escape_seq(seq![c].drop_first()) == Seq::<char>::empty());
    assert(escape_seq(seq![c]) =~= esc_char(c));
}

fn push_escaped(out: &mut Vec<char>, s: &str)
    ensures
        final(out)@ == old(out)@ + escape_seq(s@),
{
    let n = s.unicode_len();
    let mut i: usize = 0;
    while i < n
        invariant
            n == s@.len(),
            i <= n,
            out@ == old(out)@ + escape_seq(s@.take(i as int)),
        decreases n - i,
    {
        let c = s.get_char(i);
        if c == '\\' || c == '"' {
            out.push('\\');
            out.push(c);
        } else {
            out.push(c);
        }
        proof {
            assert(s@.take(i + 1) =~= s@.take(i as int) + seq![s@[i as int]]);
            lemma_escape_append(s@.take(i as int), seq![s@[i as int]]);
            lemma_escape_single(s@[i as int]);
            assert(out@ =~= old(out)@ + escape_seq(s@.take(i + 1)));
        }
        i = i + 1;
    }
    proof {
        assert(s@.take(n as int) =~= s@);
    }
}

fn push_matcher(out: &mut Vec<char>, m: &Matcher)
    ensures
        final(out)@ == old(out)@ + render_matcher(m@),
{
    push_str_chars(out, m.label.as_str());
    match m.op {
        MatchOp::Equal => out.push('='),
        MatchOp::NotEqual => {
            out.push('!');
            out.push('=');
        },
        MatchOp::RegexMatch => {
            out.push('=');
            out.push('~');
        },
        MatchOp::RegexNoMatch => {
            out.push('!');
            out.push('~');
        },
    }
    out.push('"');
    push_escaped(out, m.value.as_str());
    out.push('"');
    proof {
        assert(out@ =~= old(out)@ + render_matcher(m@));
    }
}

/// Appending one matcher to a non-empty list renders as the list, a comma,
/// and the new matcher.
proof fn lemma_render_list_snoc(ms: Seq<MatcherSpec>, m: MatcherSpec)
    requires
        ms.len() >= 1,
    ensures
        render_matcher_list(ms.push(m)) == render_matcher_list(ms) + seq![','] + render_matcher(m),
    decreases ms.len(),
{
    if ms.len() == 1 {
        assert(ms.push(m).drop_first() =~= seq![m]);
        assert(ms.push(m)[0] == ms[0]);
        assert(render_matcher_list(seq![m]) == render_matcher(seq![m][0]));
        assert(seq![m][0] == m);
        assert(render_matcher_list(ms.push(m)) =~= render_matcher(ms[0]) + seq![',']
            + render_matcher(m));
        assert(render_matcher_list(ms) + seq![','] + render_matcher(m) =~= render_matcher(ms[0])
            + seq![','] + render_matcher(m));
    } else {
        assert(ms.push(m).drop_first() =~= ms.drop_first().push(m));
        lemma_render_list_snoc(ms.drop_first(), m);
        assert(render_matcher_list(ms.push(m)) =~= render_matcher_list(ms) + seq![',']
            + render_matcher(m));
    }
}

fn push_matchers(out: &mut Vec<char>, ms: &Vec<Matcher>)
    ensures
        final(out)@ == old(out)@ + render_matchers(matchers_view(ms@)),
{
    out.push('{');
    let n = ms.len();
    let mut i: usize = 0;
    while i < n
        invariant
            n == ms@.len(),
            i <= n,
            out@ == old(out)@ + seq!['{'] + render_matcher_list(matchers_view(ms@).take(i as int)),
        decreases n - i,
    {
        let ghost before = matchers_view(ms@).take(i as int);
        if i > 0 {
            out.push(',');
        }
        push_matcher(out, &ms[i]);
        proof {
            assert(matchers_view(ms@).take(i + 1) =~= before.push(ms@[i as int]@));
            if i > 0 {
                lemma_render_list_snoc(before, ms@[i as int]@);
            } else {
                assert(before.len() == 0);
                assert(render_matcher_list(before.push(ms@[i as int]@)) == render_matcher(
                    ms@[i as int]@,
                ));
            }
            assert(out@ =~= old(out)@ + seq!['{'] + render_matcher_list(
                matchers_view(ms@).take(i + 1),
            ));
        }
        i = i + 1;
    }
    out.push('}');
    proof {
        assert(matchers_view(ms@).take(n as int) =~= matchers_view(ms@));
        assert(out@ =~= old(out)@ + render_matchers(matchers_view(ms@)));
    }
}

/// First index at or after `i` whose character is not a label character.
pub open spec fn label_end(s: Seq<char>, i: int) -> int
    decreases s.len() - i,
        when 0 <= i <= s.len()
{
    if i >= s.len() {
        i
    } else if is_label_char(s[i]) {
        label_end(s, i + 1)
    } else {
        i
    }
}

/// Parse the matcher operator at `i`: `=`, `!=`, `=~` or `!~`. A `=` is an
/// equality unless a `~` follows.
pub open spec fn parse_op(s: Seq<char>, i: int) -> Option<(MatchOp, int)> {
    if i < s.len() && s[i] == '=' {
        if i + 1 < s.len() && s[i + 1] == '~' {
            Some((MatchOp::RegexMatch, i + 2))
        } else {
            Some((MatchOp::Equal, i + 1))
        }
    } else if i < s.len() && s[i] == '!' {
        if i + 1 < s.len() && s[i + 1] == '=' {
            Some((MatchOp::NotEqual, i + 2))
        } else if i + 1 < s.len() && s[i + 1] == '~' {
            Some((MatchOp::RegexNoMatch, i + 2))
        } else {
            None
        }
    } else {
        None
    }
}

/// Parse a quoted value's body from `i` (just after the opening quote) up to
/// and past the closing quote, undoing backslash escapes.
pub open spec fn parse_quoted(s: Seq<char>, i: int) -> Option<(Seq<char>, int)>
    decreases s.len() - i,
        when 0 <= i <= s.len()
{
    if i >= s.len() {
        None
    } else if s[i] == '"' {
        Some((Seq::empty(), i + 1))
    } else if s[i] == '\\' {
        if i + 1 < s.len() {
            match parse_quoted(s, i + 2) {
                Some(r) => Some((seq![s[i + 1]] + r.0, r.1)),
                None => None,
            }
        } else {
            None
        }
    } else {
        match parse_quoted(s, i + 1) {
            Some(r) => Some((seq![s[i]] + r.0, r.1)),
            None => None,
        }
    }
}

/// Parse one matcher at `i`: a non-empty label, an operator, and a quoted
/// value.
pub open spec fn parse_matcher_at(s: Seq<char>, i: int) -> Option<(MatcherSpec, int)> {
    let e = label_end(s, i);
    if e == i {
        None
    } else {
        match parse_op(s, e) {
            Some(op_r) => {
                if op_r.1 < s.len() && s[op_r.1] == '"' {
                    match parse_quoted(s, op_r.1 + 1) {
                        Some(v_r) => Some(
                            (
                                MatcherSpec {
                                    label: s.subrange(i, e),
                                    op: op_r.0,
                                    value: v_r.0,
                                },
                                v_r.1,
                            ),
                        ),
                        None => None,
                    }
                } else {
                    None
                }
            },
            None => None,
        }
    }
}

/// Parse a comma-joined matcher list starting at `i`; stops before the first
/// character after a matcher that is not a comma.
pub open spec fn parse_list_at(s: Seq<char>, i: int) -> Option<(Seq<MatcherSpec>, int)>
    decreases s.len() - i,
        when 0 <= i <= s.len()
{
    match parse_matcher_at(s, i) {
        Some(m_r) => {
            if i < m_r.1 && m_r.1 < s.len() && s[m_r.1] == ',' {
                match parse_list_at(s, m_r.1 + 1) {
                    Some(l_r) => Some((seq![m_r.0] + l_r.0, l_r.1)),
                    None => None,
                }
            } else {
                Some((seq![m_r.0], m_r.1))
            }
        },
        None => None,
    }
}

/// Parse matcher text: a braced, comma-joined matcher list. `{}` is the
/// empty set.
pub open spec fn parse_matchers_spec(s: Seq<char>) -> Option<Seq<MatcherSpec>> {
    if s.len() >= 2 && s[0] == '{' {
        if s.len() == 2 && s[1] == '}' {
            Some(Seq::empty())
        } else {
            match parse_list_at(s, 1) {
                Some(l_r) => {
                    if l_r.1 == s.len() - 1 && s[l_r.1] == '}' {
                        Some(l_r.0)
                    } else {
                        None
                    }
                },
                None => None,
            }
        }
    } else {
        None
    }
}

fn is_label_char_exec(c: char) -> (r: bool)
    ensures
        r == is_label_char(c),
{
    ('a' <= c && c <= 'z') || ('A' <= c && c <= 'Z') || ('0' <= c && c <= '9') || c == '_'
}

fn label_end_exec(s: &str, i: usize, n: usize) -> (e: usize)
    requires
        n == s@.len(),
        i <= n,
    ensures
        e == label_end(s@, i as int),
        i <= e <= n,
    decreases n - i,
{
    if i < n {
        let c = s.get_char(i);
        if is_label_char_exec(c) {
            return label_end_exec(s, i + 1, n);
        }
    }
    i
}

fn parse_op_exec(s: &str, i: usize, n: usize) -> (r: Option<(MatchOp, usize)>)
    requires
        n == s@.len(),
        i <= n,
    ensures
        match r {
            Some(p) => parse_op(s@, i as int) == Some((p.0, p.1 as int)) && p.1 <= n,
            None => parse_op(s@, i as int) is None,
        },
{
    if i < n {
        let c = s.get_char(i);
        if c == '=' {
            if i + 1 < n && s.get_char(i + 1) == '~' {
                return Some((MatchOp::RegexMatch, i + 2));
            }
            return Some((MatchOp::Equal, i + 1));
        }
        if c == '!' {
            if i + 1 < n {
                let c1 = s.get_char(i + 1);
                if c1 == '=' {
                    return Some((MatchOp::NotEqual, i + 2));
                }
                if c1 == '~' {
                    return Some((MatchOp::RegexNoMatch, i + 2));
                }
            }
            return None;
        }
    }
    None
}

fn parse_quoted_exec(s: &str, i: usize, n: usize) -> (r: Option<(Vec<char>, usize)>)
    requires
        n == s@.len(),
        i <= n,
    ensures
        match r {
            Some(p) => parse_quoted(s@, i as int) == Some((p.0@, p.1 as int)) && p.1 <= n,
            None => parse_quoted(s@, i as int) is None,
        },
    decreases n - i,
{
    if i >= n {
        return None;
    }
    let c = s.get_char(i);
    if c == '"' {
        let v: Vec<char> = Vec::new();
        proof {
            assert(v@ =~= Seq::<char>::empty());
        }
        return Some((v, i + 1));
    }
    if c == '\\' {
        if i + 1 < n {
            let c1 = s.get_char(i + 1);
            match parse_quoted_exec(s, i + 2, n) {
                Some(p) => {
                    let mut v = p.0;
                    let ghost rest = v@;
                    v.insert(0, c1);
                    proof {
                        assert(v@ =~= seq![s@[i + 1]] + rest);
                    }
                    return Some((v, p.1));
                },
                None => {
                    return None;
                },
            }
        }
        return None;
    }
    match parse_quoted_exec(s, i + 1, n) {
        Some(p) => {
            let mut v = p.0;
            let ghost rest = v@;
            v.insert(0, c);
            proof {
                assert(v@ =~= seq![s@[i as int]] + rest);
            }
            Some((v, p.1))
        },
        None => None,
    }
}

fn parse_matcher_exec(s: &str, i: usize, n: usize) -> (r: Option<(Matcher, usize)>)
    requires
        n == s@.len(),
        i <= n,
    ensures
        match r {
            Some(p) => parse_matcher_at(s@, i as int) == Some((p.0@, p.1 as int)) && i < p.1 <= n,
            None => parse_matcher_at(s@, i as int) is None,
        },
{
    let e = label_end_exec(s, i, n);
    if e == i {
        return None;
    }
    let mut lab: Vec<char> = Vec::new();
    let mut k: usize = i;
    while k < e
        invariant
            n == s@.len(),
            i <= k <= e <= n,
            lab@ == s@.subrange(i as int, k as int),
        decreases e - k,
    {
        lab.push(s.get_char(k));
        proof {
            assert(s@.subrange(i as int, k + 1) =~= s@.subrange(i as int, k as int).push(
                s@[k as int],
            ));
        }
        k = k + 1;
    }
    let label = chars_to_string(&lab);
    match parse_op_exec(s, e, n) {
        Some(op_r) => {
            if op_r.1 < n && s.get_char(op_r.1) == '"' {
                match parse_quoted_exec(s, op_r.1 + 1, n) {
                    Some(v_r) => {
                        proof {
                            lemma_parse_quoted_bounds(s@, op_r.1 + 1);
                        }
                        let value = chars_to_string(&v_r.0);
                        let m = Matcher { label, op: op_r.0, value };
                        Some((m, v_r.1))
                    },
                    None => None,
                }
            } else {
                None
            }
        },
        None => None,
    }
}

fn parse_list_exec(s: &str, i: usize, n: usize) -> (r: Option<(Vec<Matcher>, usize)>)
    requires
        n == s@.len(),
        i <= n,
    ensures
        match r {
            Some(p) => parse_list_at(s@, i as int) == Some((matchers_view(p.0@), p.1 as int))
                && p.1 <= n,
            None => parse_list_at(s@, i as int) is None,
        },
    decreases n - i,
{
    match parse_matcher_exec(s, i, n) {
        Some(m_r) => {
            let j = m_r.1;
            if j < n && s.get_char(j) == ',' {
                match parse_list_exec(s, j + 1, n) {
                    Some(l_r) => {
                        let mut v = l_r.0;
                        let ghost rest = matchers_view(v@);
                        v.insert(0, m_r.0);
                        proof {
                            assert(matchers_view(v@) =~= seq![m_r.0@] + rest);
                        }
                        Some((v, l_r.1))
                    },
                    None => None,
                }
            } else {
                let mut v: Vec<Matcher> = Vec::new();
                v.push(m_r.0);
                proof {
                    assert(matchers_view(v@) =~= seq![m_r.0@]);
                }
                Some((v, j))
            }
        },
        None => None,
    }
}

/// Parse matcher text (a braced matcher list, as [`Selector::matcher_text`]
/// renders it) back into label/operator/value triples. Returns `None` when
/// the text is not valid matcher syntax.
pub fn parse_matchers(text: &str) -> (r: Option<Vec<Matcher>>)
    ensures
        match r {
            Some(v) => parse_matchers_spec(text@) == Some(matchers_view(v@)),
            None => parse_matchers_spec(text@) is None,
        },
{
    let n = text.unicode_len();
    if n < 2 || text.get_char(0) != '{' {
        return None;
    }
    if n == 2 && text.get_char(1) == '}' {
        let v: Vec<Matcher> = Vec::new();
        proof {
            assert(matchers_view(v@) =~= Seq::<MatcherSpec>::empty());
        }
        return Some(v);
    }
    match parse_list_exec(text, 1, n) {
        Some(l_r) => {
            if l_r.1 == n - 1 && text.get_char(l_r.1) == '}' {
                Some(l_r.0)
            } else {
                None
            }
        },
        None => None,
    }
}

proof fn lemma_parse_quoted_bounds(s: Seq<char>, i: int)
    requires
        0 <= i <= s.len(),
    ensures
        parse_quoted(s, i) matches Some(r) ==> i < r.1 <= s.len(),
    decreases s.len() - i,
{
    if i >= s.len() {
    } else if s[i] == '"' {
    } else if s[i] == '\\' {
        if i + 1 < s.len() {
            lemma_parse_quoted_bounds(s, i + 2);
        }
    } else {
        lemma_parse_quoted_bounds(s, i + 1);
    }
}

/// If `s` carries a well-formed label at `i` followed by a non-label
/// character, the label scan stops exactly at its end.
proof fn lemma_label_end_of_render(s: Seq<char>, i: int, lab: Seq<char>)
    requires
        0 <= i,
        i + lab.len() < s.len(),
        forall|j: int| 0 <= j < lab.len() ==> is_label_char(#[trigger] lab[j]),
        forall|j: int| 0 <= j < lab.len() ==> s[i + j] == lab[j],
        !is_label_char(s[i + lab.len()]),
    ensures
        label_end(s, i) == i + lab.len(),
    decreases lab.len(),
{
    if lab.len() == 0 {
    } else {
        assert(s[i + 0] == lab[0]);
        lemma_label_end_of_render(s, i + 1, lab.drop_first());
    }
}

/// Parsing a quoted body undoes the escaping: if `s` carries the escaped
/// form of `v` at `i` followed by a closing quote, the parse returns `v` and
/// stops just past the quote.
proof fn lemma_parse_quoted_of_escape(s: Seq<char>, i: int, v: Seq<char>)
    requires
        0 <= i,
        i + escape_seq(v).len() + 1 <= s.len(),
        forall|j: int| 0 <= j < escape_seq(v).len() ==> s[i + j] == escape_seq(v)[j],
        s[i + escape_seq(v).len()] == '"',
    ensures
        parse_quoted(s, i) == Some((v, i + escape_seq(v).len() + 1)),
    decreases v.len(),
{
    if v.len() == 0 {
        assert(escape_seq(v).len() == 0);
        assert(s[i] == '"');
        assert(parse_quoted(s, i) == Some((Seq::<char>::empty(), i + 1)));
        assert(Seq::<char>::empty() =~= v);
    } else {
        let e0 = esc_char(v[0]);
        let rest = escape_seq(v.drop_first());
        assert(escape_seq(v) == e0 + rest);
        assert forall|j: int| 0 <= j < rest.len() implies s[(i + e0.len()) + j] == rest[j] by {
            assert(s[i + (e0.len() + j)] == escape_seq(v)[e0.len() + j]);
            assert(escape_seq(v)[e0.len() + j] == rest[j]);
        }
        assert(s[(i + e0.len()) + rest.len()] == '"');
        lemma_parse_quoted_of_escape(s, i + e0.len(), v.drop_first());
        if v[0] == '\\' || v[0] == '"' {
            assert(e0 == seq!['\\', v[0]]);
            assert(s[i + 0] == escape_seq(v)[0]);
            assert(escape_seq(v)[0] == '\\');
            assert(s[i + 1] == escape_seq(v)[1]);
            assert(escape_seq(v)[1] == v[0]);
            assert(parse_quoted(s, i + 2) == Some(
                (v.drop_first(), i + 2 + rest.len() + 1),
            ));
            assert(seq![s[i + 1]] + v.drop_first() =~= v);
        } else {
            assert(e0 == seq![v[0]]);
            assert(s[i + 0] == escape_seq(v)[0]);
            assert(escape_seq(v)[0] == v[0]);
            assert(s[i] != '"' && s[i] != '\\');
            assert(parse_quoted(s, i + 1) == Some(
                (v.drop_first(), i + 1 + rest.len() + 1),
            ));
            assert(seq![s[i]] + v.drop_first() =~= v);
        }
    }
}

/// The rendered form of one matcher, followed by a comma or closing brace,
/// parses back to exactly that matcher.
proof fn lemma_parse_matcher_of_render(s: Seq<char>, i: int, m: MatcherSpec)
    requires
        0 <= i,
        wf_matcher(m),
        i + render_matcher(m).len() < s.len(),
        forall|j: int|
            0 <= j < render_matcher(m).len() ==> s[i + j] == #[trigger] render_matcher(m)[j],
        s[i + render_matcher(m).len()] == ',' || s[i + render_matcher(m).len()] == '}',
    ensures
        parse_matcher_at(s, i) == Some((m, i + render_matcher(m).len())),
{
    let r = render_matcher(m);
    let lab = m.label;
    let op = op_text(m.op);
    let esc = escape_seq(m.value);
    let ll = lab.len() as int;
    let ol = op.len() as int;
    let el = esc.len() as int;
    assert(r == lab + op + seq!['"'] + esc + seq!['"']);
    assert(r.len() == ll + ol + 1 + el + 1);
    assert forall|j: int| 0 <= j < ll implies s[i + j] == lab[j] by {
        assert(r[j] == lab[j]);
    }
    assert forall|j: int| 0 <= j < ol implies s[(i + ll) + j] == op[j] by {
        assert(s[i + (ll + j)] == r[ll + j]);
        assert(r[ll + j] == op[j]);
    }
    assert(s[i + (ll + ol)] == r[ll + ol]);
    assert(r[ll + ol] == '"');
    assert forall|j: int| 0 <= j < el implies s[(i + ll + ol + 1) + j] == esc[j] by {
        assert(s[i + (ll + ol + 1 + j)] == r[ll + ol + 1 + j]);
        assert(r[ll + ol + 1 + j] == esc[j]);
    }
    assert(s[i + (ll + ol + 1 + el)] == r[ll + ol + 1 + el]);
    assert(r[ll + ol + 1 + el] == '"');
    // the label scan stops at the operator, whose first character is never a
    // label character
    assert(!is_label_char(op[0]));
    assert(s[i + ll] == op[0]);
    lemma_label_end_of_render(s, i, lab);
    let e = label_end(s, i);
    assert(e == i + ll);
    assert(e != i);
    // the operator parses to m.op and stops at the opening quote
    let q0 = i + ll + ol;
    assert(s[q0] == '"');
    match m.op {
        MatchOp::Equal => {
            assert(s[e] == '=');
            assert(s[e + 1] == '"');
            assert(parse_op(s, e) == Some((MatchOp::Equal, e + 1)));
        },
        MatchOp::NotEqual => {
            assert(s[e] == '!');
            assert(s[e + 1] == '=');
            assert(parse_op(s, e) == Some((MatchOp::NotEqual, e + 2)));
        },
        MatchOp::RegexMatch => {
            assert(s[e] == '=');
            assert(s[e + 1] == '~');
            assert(parse_op(s, e) == Some((MatchOp::RegexMatch, e + 2)));
        },
        MatchOp::RegexNoMatch => {
            assert(s[e] == '!');
            assert(s[e + 1] == '~');
            assert(parse_op(s, e) == Some((MatchOp::RegexNoMatch, e + 2)));
        },
    }
    lemma_parse_quoted_of_escape(s, q0 + 1, m.value);
    assert(s.subrange(i, e) =~= lab);
    assert(parse_matcher_at(s, i) == Some((m, i + r.len())));
}

proof fn lemma_render_matcher_len(m: MatcherSpec)
    ensures
        render_matcher(m).len() == m.label.len() + op_text(m.op).len() + 2 + escape_seq(
            m.value,
        ).len(),
        render_matcher(m).len() >= 3,
{
}

/// The rendered form of a non-empty matcher list, followed by a closing
/// brace, parses back to exactly that list.
proof fn lemma_parse_list_of_render(s: Seq<char>, i: int, ms: Seq<MatcherSpec>)
    requires
        0 <= i,
        ms.len() >= 1,
        forall|k: int| 0 <= k < ms.len() ==> wf_matcher(#[trigger] ms[k]),
        i + render_matcher_list(ms).len() < s.len(),
        forall|j: int|
            0 <= j < render_matcher_list(ms).len() ==> s[i + j] == #[trigger] render_matcher_list(
                ms,
            )[j],
        s[i + render_matcher_list(ms).len()] == '}',
    ensures
        parse_list_at(s, i) == Some((ms, i + render_matcher_list(ms).len())),
    decreases ms.len(),
{
    let rl = render_matcher_list(ms);
    let r0 = render_matcher(ms[0]);
    lemma_render_matcher_len(ms[0]);
    if ms.len() == 1 {
        assert(rl == r0);
        lemma_parse_matcher_of_render(s, i, ms[0]);
        let j = i + r0.len();
        assert(s[j] == '}');
        assert(parse_list_at(s, i) == Some((seq![ms[0]], j)));
        assert(seq![ms[0]] =~= ms);
    } else {
        let tail = render_matcher_list(ms.drop_first());
        assert(rl == r0 + seq![','] + tail);
        assert(rl.len() == r0.len() + 1 + tail.len());
        assert forall|j: int| 0 <= j < r0.len() implies s[i + j] == r0[j] by {
            assert(s[i + j] == rl[j]);
            assert(rl[j] == r0[j]);
        }
        assert(s[i + r0.len()] == rl[r0.len() as int]);
        assert(rl[r0.len() as int] == ',');
        lemma_parse_matcher_of_render(s, i, ms[0]);
        let j = i + r0.len();
        let t0 = j + 1;
        assert forall|j2: int| 0 <= j2 < tail.len() implies s[t0 + j2] == tail[j2] by {
            assert(s[i + (r0.len() + 1 + j2)] == rl[r0.len() + 1 + j2]);
            assert(rl[r0.len() + 1 + j2] == tail[j2]);
        }
        assert(s[t0 + tail.len()] == '}');
        assert forall|k: int| 0 <= k < ms.drop_first().len() implies wf_matcher(
            #[trigger] ms.drop_first()[k],
        ) by {
            assert(ms.drop_first()[k] == ms[k + 1]);
        }
        lemma_parse_list_of_render(s, t0, ms.drop_first());
        assert(parse_list_at(s, i) == Some((seq![ms[0]] + ms.drop_first(), t0 + tail.len())));
        assert(seq![ms[0]] + ms.drop_first() =~= ms);
    }
}

/// Rendering a non-empty matcher set with well-formed labels and then
/// re-parsing the matcher text yields the original label/operator/value
/// triples: parsing undoes rendering, escaping included.
pub proof fn lemma_matcher_round_trip(ms: Seq<MatcherSpec>)
    requires
        ms.len() > 0,
        forall|k: int| 0 <= k < ms.len() ==> wf_matcher(#[trigger] ms[k]),
    ensures
        parse_matchers_spec(render_matchers(ms)) == Some(ms),
{
    let s = render_matchers(ms);
    let rl = render_matcher_list(ms);
    lemma_render_matcher_len(ms[0]);
    assert(rl.len() >= 3) by {
        if ms.len() == 1 {
        } else {
            assert(rl == render_matcher(ms[0]) + seq![','] + render_matcher_list(
                ms.drop_first(),
            ));
        }
    }
    assert(s.len() == rl.len() + 2);
    assert(s[0] == '{');
    assert forall|j: int| 0 <= j < rl.len() implies s[1 + j] == #[trigger] rl[j] by {
        assert(s[1 + j] == (seq!['{'] + rl + seq!['}'])[1 + j]);
    }
    assert(s[1 + rl.len() as int] == '}');
    lemma_parse_list_of_render(s, 1, ms);
    assert(parse_matchers_spec(s) == Some(ms));
}

} // verus!
