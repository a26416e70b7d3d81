//! The expression builder: composes selectors and prior expressions into
//! nested expression text, each step producing a new immutable expression
//! tagged with its logical kind.

use vstd::prelude::*;
use crate::duration::{duration_error_reason, is_valid_duration, validate_duration};
use crate::error::{Error, ErrorSpec};
use crate::selector::{render_selector, Selector, SelectorSpec};
use crate::text::{chars_to_string, dec_int, i64_to_chars, push_str_chars};

verus! {

/// The logical kind of a rendered expression.
#[derive(Debug, Clone, Copy, PartialEq, Eq, Structural)]
pub enum ExprKind {
    /// One value per matching series at a single instant.
    InstantVector,
    /// A window of values per matching series.
    RangeVector,
    /// A single unlabeled number.
    Scalar,
    /// A vector produced by an aggregation wrapper.
    AggregatedVector,
}

/// The mathematical model of an [`Expression`].
pub struct ExpressionSpec {
    pub text: Seq<char>,
    pub kind: ExprKind,
}

/// Opaque rendered expression text with its kind tag. Every composition
/// step produces a new value and never mutates its inputs.
#[derive(Debug, Clone)]
pub struct Expression {
    text: String,
    kind: ExprKind,
}

impl View for Expression {
    type V = ExpressionSpec;

    closed spec fn view(&self) -> ExpressionSpec {
        ExpressionSpec { text: self.text@, kind: self.kind }
    }
}

impl Expression {
    /// The rendered expression text.
    pub fn text(&self) -> (t: &str)
        ensures
            t@ == self@.text,
    {
        self.text.as_str()
    }

    /// The expression's kind tag.
    pub fn kind(&self) -> (k: ExprKind)
        ensures
            k == self@.kind,
    {
        self.kind
    }
}

/// A selector can stand as an expression when it constrains something: a
/// metric name or at least one matcher.
pub open spec fn selector_valid(s: SelectorSpec) -> bool {
    s.metric is Some || s.matchers.len() > 0
}

/// Turn a selector into an instant-vector expression. Fails with
/// `InvalidSelector` exactly when the selector is structurally empty, which
/// would render as the degenerate `{}`.
pub fn instant_vector(s: &Selector) -> (r: Result<Expression, Error>)
    ensures
        selector_valid(s@) ==> (r matches Ok(e) && e@ == (ExpressionSpec {
            text: render_selector(s@),
            kind: ExprKind::InstantVector,
        })),
        !selector_valid(s@) ==> (r matches Err(e) && e@ == ErrorSpec::InvalidSelector),
{
    if s.is_empty() {
        Err(Error::InvalidSelector)
    } else {
        Ok(Expression { text: s.render(), kind: ExprKind::InstantVector })
    }
}

/// Turn an instant-vector expression into a range vector by appending a
/// bracketed range, e.g. `[5m]`. The range must be a valid duration; any
/// other expression kind is rejected.
pub fn range_vector(e: &Expression, range: &str) -> (r: Result<Expression, Error>)
    ensures
        e@.kind != ExprKind::InstantVector ==> (r matches Err(err) && err@
            == (ErrorSpec::InvalidFunctionArgument {
            message: "range selection requires an instant vector expression"@,
        })),
        e@.kind == ExprKind::InstantVector && !is_valid_duration(range@) ==> (r matches Err(err)
            && err@ == (ErrorSpec::InvalidDuration { reason: duration_error_reason(range@) })),
        e@.kind == ExprKind::InstantVector && is_valid_duration(range@) ==> (r matches Ok(out)
            && out@ == (ExpressionSpec {
            text: e@.text + seq!['['] + range@ + seq![']'],
            kind: ExprKind::RangeVector,
        })),
{
    if !matches!(e.kind, ExprKind::InstantVector) {
        return Err(
            Error::InvalidFunctionArgument {
                message: String::from_str(
                    "range selection requires an instant vector expression",
                ),
            },
        );
    }
    match validate_duration(range) {
        Err(err) => Err(err),
        Ok(()) => {
            let mut out: Vec<char> = Vec::new();
            push_str_chars(&mut out, e.text());
            out.push('[');
            push_str_chars(&mut out, range);
            out.push(']');
            proof {
                assert(out@ =~= e@.text + seq!['['] + range@ + seq![']']);
            }
            Ok(Expression { text: chars_to_string(&out), kind: ExprKind::RangeVector })
        },
    }
}

/// A scalar literal expression.
pub fn scalar(value: i64) -> (e: Expression)
    ensures
        e@ == (ExpressionSpec { text: dec_int(value as int), kind: ExprKind::Scalar }),
{
    let v = i64_to_chars(value);
    Expression { text: chars_to_string(&v), kind: ExprKind::Scalar }
}

/// The aggregation operators.
#[derive(Debug, Clone, Copy, PartialEq, Eq, Structural)]
pub enum AggregateOp {
    Sum,
    Avg,
    Count,
    Min,
    Max,
}

/// The operator's name in expression text.
pub open spec fn agg_op_text(op: AggregateOp) -> Seq<char> {
    match op {
        AggregateOp::Sum => "sum"@,
        AggregateOp::Avg => "avg"@,
        AggregateOp::Count => "count"@,
        AggregateOp::Min => "min"@,
        AggregateOp::Max => "max"@,
    }
}

/// The mathematical model of an [`Aggregate`] clause.
pub enum AggregateSpec {
    By(Seq<Seq<char>>),
    Without(Seq<Seq<char>>),
}

/// An aggregation grouping clause: `by` or `without` a label list.
#[derive(Debug, Clone)]
pub enum Aggregate {
    By(Vec<String>),
    Without(Vec<String>),
}

/// The view of a label-name vector: the sequence of label models.
pub open spec fn labels_view(v: Seq<String>) -> Seq<Seq<char>> {
    Seq::new(v.len(), |i: int| v[i]@)
}

impl View for Aggregate {
    type V = AggregateSpec;

    open spec fn view(&self) -> AggregateSpec {
        match self {
            Aggregate::By(ls) => AggregateSpec::By(labels_view(ls@)),
            Aggregate::Without(ls) => AggregateSpec::Without(labels_view(ls@)),
        }
    }
}

/// The comma-joined rendering of a label list.
pub open spec fn join_labels(ls: Seq<Seq<char>>) -> Seq<char>
    decreases ls.len(),
{
    if ls.len() == 0 {
        Seq::empty()
    } else if ls.len() == 1 {
        ls[0]
    } else {
        ls[0] + seq![','] + join_labels(ls.drop_first())
    }
}

/// The grouping clause's rendering: nothing, ` by (...)`, or ` without (...)`.
pub open spec fn clause_text(c: Option<AggregateSpec>) -> Seq<char> {
    match c {
        None => Seq::empty(),
        Some(AggregateSpec::By(ls)) => " by ("@ + join_labels(ls) + ")"@,
        Some(AggregateSpec::Without(ls)) => " without ("@ + join_labels(ls) + ")"@,
    }
}

/// The view of an optional clause reference.
pub open spec fn opt_clause_view(c: Option<&Aggregate>) -> Option<AggregateSpec> {
    match c {
        Some(a) => Some(a@),
        None => None,
    }
}

proof fn lemma_join_labels_snoc(ls: Seq<Seq<char>>, l: Seq<char>)
    requires
        ls.len() >= 1,
    ensures
        join_labels(ls.push(l)) == join_labels(ls) + seq![','] + l,
    decreases ls.len(),
{
    if ls.len() == 1 {
        assert(ls.push(l).drop_first() =~= seq![l]);
        assert(ls.push(l)[0] == ls[0]);
        assert(join_labels(seq![l]) == seq![l][0]);
        assert(seq![l][0] == l);
        assert(join_labels(ls.push(l)) =~= ls[0] + seq![','] + l);
        assert(join_labels(ls) + seq![','] + l =~= ls[0] + seq![','] + l);
    } else {
        assert(ls.push(l).drop_first() =~= ls.drop_first().push(l));
        lemma_join_labels_snoc(ls.drop_first(), l);
        assert(join_labels(ls.push(l)) =~= join_labels(ls) + seq![','] + l);
    }
}

fn push_labels(out: &mut Vec<char>, ls: &Vec<String>)
    ensures
        final(out)@ == old(out)@ + join_labels(labels_view(ls@)),
{
    let n = ls.len();
    let mut i: usize = 0;
    while i < n
        invariant
            n == ls@.len(),
            i <= n,
            out@ == old(out)@ + join_labels(labels_view(ls@).take(i as int)),
        decreases n - i,
    {
        let ghost before = labels_view(ls@).take(i as int);
        if i > 0 {
            out.push(',');
        }
        push_str_chars(out, ls[i].as_str());
        proof {
            assert(labels_view(ls@).take(i + 1) =~= before.push(ls@[i as int]@));
            if i > 0 {
                lemma_join_labels_snoc(before, ls@[i as int]@);
            } else {
                assert(before.len() == 0);
                assert(join_labels(before.push(ls@[i as int]@)) == ls@[i as int]@);
            }
            assert(out@ =~= old(out)@ + join_labels(labels_view(ls@).take(i + 1)));
        }
        i = i + 1;
    }
    proof {
        assert(labels_view(ls@).take(n as int) =~= labels_view(ls@));
    }
}

/// True for the kinds an aggregation can wrap.
pub open spec fn vector_kind(k: ExprKind) -> bool {
    k == ExprKind::InstantVector || k == ExprKind::AggregatedVector
}

/// Wrap a vector expression in an aggregation operator with an optional
/// grouping clause: `<op>(<inner>)`, `<op>(<inner>) by (<labels>)` or
/// `<op>(<inner>) without (<labels>)`. Aggregating a non-vector expression
/// fails with `InvalidFunctionArgument`.
pub fn aggregate(op: AggregateOp, e: &Expression, clause: Option<&Aggregate>) -> (r: Result<
    Expression,
    Error,
>)
    ensures
        vector_kind(e@.kind) ==> (r matches Ok(out) && out@ == (ExpressionSpec {
            text: agg_op_text(op) + seq!['('] + e@.text + seq![')'] + clause_text(
                opt_clause_view(clause),
            ),
            kind: ExprKind::AggregatedVector,
        })),
        !vector_kind(e@.kind) ==> (r matches Err(err) && err@
            == (ErrorSpec::InvalidFunctionArgument {
            message: "aggregation requires a vector expression"@,
        })),
{
    let is_vector = matches!(e.kind(), ExprKind::InstantVector | ExprKind::AggregatedVector);
    if !is_vector {
        return Err(
            Error::InvalidFunctionArgument {
                message: String::from_str("aggregation requires a vector expression"),
            },
        );
    }
    let mut out: Vec<char> = Vec::new();
    match op {
        AggregateOp::Sum => push_str_chars(&mut out, "sum"),
        AggregateOp::Avg => push_str_chars(&mut out, "avg"),
        AggregateOp::Count => push_str_chars(&mut out, "count"),
        AggregateOp::Min => push_str_chars(&mut out, "min"),
        AggregateOp::Max => push_str_chars(&mut out, "max"),
    }
    out.push('(');
    push_str_chars(&mut out, e.text());
    out.push(')');
    match clause {
        None => (),
        Some(a) => {
            match a {
                Aggregate::By(ls) => {
                    push_str_chars(&mut out, " by (");
                    push_labels(&mut out, ls);
                    push_str_chars(&mut out, ")");
                },
                Aggregate::Without(ls) => {
                    push_str_chars(&mut out, " without (");
                    push_labels(&mut out, ls);
                    push_str_chars(&mut out, ")");
                },
            }
        },
    }
    proof {
        assert(out@ =~= agg_op_text(op) + seq!['('] + e@.text + seq![')'] + clause_text(
            opt_clause_view(clause),
        ));
    }
    Ok(Expression { text: chars_to_string(&out), kind: ExprKind::AggregatedVector })
}

/// `sum` over a vector expression.
pub fn sum(e: &Expression, clause: Option<&Aggregate>) -> (r: Result<Expression, Error>)
    ensures
        vector_kind(e@.kind) ==> (r matches Ok(out) && out@ == (ExpressionSpec {
            text: agg_op_text(AggregateOp::Sum) + seq!['('] + e@.text + seq![')'] + clause_text(
                opt_clause_view(clause),
            ),
            kind: ExprKind::AggregatedVector,
        })),
        !vector_kind(e@.kind) ==> (r matches Err(err) && err@
            == (ErrorSpec::InvalidFunctionArgument {
            message: "aggregation requires a vector expression"@,
        })),
{
    aggregate(AggregateOp::Sum, e, clause)
}

/// `avg` over a vector expression.
pub fn avg(e: &Expression, clause: Option<&Aggregate>) -> (r: Result<Expression, Error>)
    ensures
        vector_kind(e@.kind) ==> (r matches Ok(out) && out@ == (ExpressionSpec {
            text: agg_op_text(AggregateOp::Avg) + seq!['('] + e@.text + seq![')'] + clause_text(
                opt_clause_view(clause),
            ),
            kind: ExprKind::AggregatedVector,
        })),
        !vector_kind(e@.kind) ==> (r matches Err(err) && err@
            == (ErrorSpec::InvalidFunctionArgument {
            message: "aggregation requires a vector expression"@,
        })),
{
    aggregate(AggregateOp::Avg, e, clause)
}

/// `count` over a vector expression.
pub fn count(e: &Expression, clause: Option<&Aggregate>) -> (r: Result<Expression, Error>)
    ensures
        vector_kind(e@.kind) ==> (r matches Ok(out) && out@ == (ExpressionSpec {
            text: agg_op_text(AggregateOp::Count) + seq!['('] + e@.text + seq![')'] + clause_text(
                opt_clause_view(clause),
            ),
            kind: ExprKind::AggregatedVector,
        })),
        !vector_kind(e@.kind) ==> (r matches Err(err) && err@
            == (ErrorSpec::InvalidFunctionArgument {
            message: "aggregation requires a vector expression"@,
        })),
{
    aggregate(AggregateOp::Count, e, clause)
}

} // verus!
