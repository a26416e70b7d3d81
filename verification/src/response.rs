//! The layered response decoder: envelope unwrapping (status, data, error
//! classification) and tag-driven dispatch of the query result payload into
//! one of the typed, mutually exclusive result shapes.

use vstd::prelude::*;
use crate::error::{Error, ErrorSpec};
use crate::json::{
    fields_view, items_view, json_of, lemma_view_arr, lemma_view_obj, obj_get, obj_lookup,
    parse_json, JsonSpec, JsonValue,
};
use crate::text::str_eq;

verus! {

/// The envelope's status token.
#[derive(Debug, Clone, Copy, PartialEq, Eq, Structural)]
pub enum Status {
    /// The envelope carries a data payload.
    Success,
    /// The envelope carries an error type and message.
    Error,
}

/// The recognized result-type tags of the query endpoints.
#[derive(Debug, Clone, Copy, PartialEq, Eq, Structural)]
pub enum ResultType {
    Matrix,
    Vector,
    Scalar,
    String,
}

/// The status token's wire form.
pub open spec fn status_token(s: Status) -> Seq<char> {
    match s {
        Status::Success => "success"@,
        Status::Error => "error"@,
    }
}

impl Status {
    /// The wire token of this status.
    pub fn as_str(&self) -> (t: &'static str)
        ensures
            t@ == status_token(*self),
    {
        match self {
            Status::Success => "success",
            Status::Error => "error",
        }
    }

    /// Classify a wire token; anything outside the recognized set is `None`.
    pub fn from_token(t: &str) -> (r: Option<Status>)
        ensures
            r == (if t@ == "success"@ {
                Some(Status::Success)
            } else if t@ == "error"@ {
                Some(Status::Error)
            } else {
                None::<Status>
            }),
    {
        if str_eq(t, "success") {
            Some(Status::Success)
        } else if str_eq(t, "error") {
            Some(Status::Error)
        } else {
            None
        }
    }
}

/// The result-type tag's wire form.
pub open spec fn result_type_token(t: ResultType) -> Seq<char> {
    match t {
        ResultType::Matrix => "matrix"@,
        ResultType::Vector => "vector"@,
        ResultType::Scalar => "scalar"@,
        ResultType::String => "string"@,
    }
}

impl ResultType {
    /// The wire token of this result type.
    pub fn as_str(&self) -> (t: &'static str)
        ensures
            t@ == result_type_token(*self),
    {
        match self {
            ResultType::Matrix => "matrix",
            ResultType::Vector => "vector",
            ResultType::Scalar => "scalar",
            ResultType::String => "string",
        }
    }

    /// Classify a wire tag; anything outside the recognized set is `None`.
    pub fn from_token(t: &str) -> (r: Option<ResultType>)
        ensures
            r == (if t@ == "matrix"@ {
                Some(ResultType::Matrix)
            } else if t@ == "vector"@ {
                Some(ResultType::Vector)
            } else if t@ == "scalar"@ {
                Some(ResultType::Scalar)
            } else if t@ == "string"@ {
                Some(ResultType::String)
            } else {
                None::<ResultType>
            }),
    {
        if str_eq(t, "matrix") {
            Some(ResultType::Matrix)
        } else if str_eq(t, "vector") {
            Some(ResultType::Vector)
        } else if str_eq(t, "scalar") {
            Some(ResultType::Scalar)
        } else if str_eq(t, "string") {
            Some(ResultType::String)
        } else {
            None
        }
    }
}

/// The mathematical model of a [`Sample`].
pub struct SampleSpec {
    pub timestamp: Seq<char>,
    pub value: Seq<char>,
}

/// One sampled point: the timestamp as its literal number text, and the
/// value as the string the wire carries (which preserves special float
/// encodings such as `NaN` and `+Inf`).
#[derive(Debug, Clone, PartialEq)]
pub struct Sample {
    pub timestamp: String,
    pub value: String,
}

impl View for Sample {
    type V = SampleSpec;

    open spec fn view(&self) -> SampleSpec {
        SampleSpec { timestamp: self.timestamp@, value: self.value@ }
    }
}

/// The mathematical model of a [`Metric`].
pub struct MetricSpec {
    pub labels: Seq<(Seq<char>, Seq<char>)>,
    pub value: SampleSpec,
}

/// One instant-vector member: a label set and its sample.
#[derive(Debug, Clone, PartialEq)]
pub struct Metric {
    pub labels: Vec<(String, String)>,
    pub value: Sample,
}

/// The view of a label-pair vector.
pub open spec fn pairs_view(s: Seq<(String, String)>) -> Seq<(Seq<char>, Seq<char>)> {
    Seq::new(s.len(), |i: int| (s[i].0@, s[i].1@))
}

impl View for Metric {
    type V = MetricSpec;

    open spec fn view(&self) -> MetricSpec {
        MetricSpec { labels: pairs_view(self.labels@), value: self.value@ }
    }
}

/// The mathematical model of a [`RangeVectorSeries`].
pub struct RangeSeriesSpec {
    pub labels: Seq<(Seq<char>, Seq<char>)>,
    pub samples: Seq<SampleSpec>,
}

/// One range-vector member: a label set and its ordered samples.
#[derive(Debug, Clone, PartialEq)]
pub struct RangeVectorSeries {
    pub labels: Vec<(String, String)>,
    pub samples: Vec<Sample>,
}

/// The view of a sample vector.
pub open spec fn samples_view(s: Seq<Sample>) -> Seq<SampleSpec> {
    Seq::new(s.len(), |i: int| s[i]@)
}

impl View for RangeVectorSeries {
    type V = RangeSeriesSpec;

    open spec fn view(&self) -> RangeSeriesSpec {
        RangeSeriesSpec { labels: pairs_view(self.labels@), samples: samples_view(self.samples@) }
    }
}

/// The mathematical model of a [`QueryResultType`].
pub enum QueryResultSpec {
    Vector(Seq<MetricSpec>),
    Matrix(Seq<RangeSeriesSpec>),
    Scalar(SampleSpec),
}

/// The view of a metric vector.
pub open spec fn metrics_view(s: Seq<Metric>) -> Seq<MetricSpec> {
    Seq::new(s.len(), |i: int| s[i]@)
}

/// The view of a series vector.
pub open spec fn series_view(s: Seq<RangeVectorSeries>) -> Seq<RangeSeriesSpec> {
    Seq::new(s.len(), |i: int| s[i]@)
}

/// The typed result of a query: exactly one of the mutually exclusive
/// shapes, chosen by the result-type tag.
#[derive(Debug, Clone, PartialEq)]
pub enum QueryResultType {
    Vector(Vec<Metric>),
    Matrix(Vec<RangeVectorSeries>),
    Scalar(Sample),
}

impl View for QueryResultType {
    type V = QueryResultSpec;

    open spec fn view(&self) -> QueryResultSpec {
        match self {
            QueryResultType::Vector(ms) => QueryResultSpec::Vector(metrics_view(ms@)),
            QueryResultType::Matrix(ss) => QueryResultSpec::Matrix(series_view(ss@)),
            QueryResultType::Scalar(s) => QueryResultSpec::Scalar(s@),
        }
    }
}

/// Decode a sample: a two-element array of a number and a string.
pub open spec fn sample_spec_of(j: JsonSpec) -> Result<SampleSpec, ErrorSpec> {
    match j {
        JsonSpec::Arr(items) => {
            if items.len() == 2 && items[0] is Num && items[1] is Str {
                Ok(SampleSpec { timestamp: items[0]->Num_0, value: items[1]->Str_0 })
            } else {
                Err(ErrorSpec::DecodeError)
            }
        },
        _ => Err(ErrorSpec::DecodeError),
    }
}

/// Decode a label set: an object whose values are all strings.
pub open spec fn labels_spec_of(j: JsonSpec) -> Result<Seq<(Seq<char>, Seq<char>)>, ErrorSpec> {
    match j {
        JsonSpec::Obj(fields) => {
            if forall|i: int| 0 <= i < fields.len() ==> (#[trigger] fields[i].1) is Str {
                Ok(Seq::new(fields.len(), |i: int| (fields[i].0, fields[i].1->Str_0)))
            } else {
                Err(ErrorSpec::DecodeError)
            }
        },
        _ => Err(ErrorSpec::DecodeError),
    }
}

fn decode_sample(v: &JsonValue) -> (r: Result<Sample, Error>)
    ensures
        match r {
            Ok(s) => sample_spec_of(v@) == Ok::<SampleSpec, ErrorSpec>(s@),
            Err(e) => sample_spec_of(v@) == Err::<SampleSpec, ErrorSpec>(e@),
        },
{
    match v {
        JsonValue::Arr(items) => {
            proof {
                lemma_view_arr(*items);
            }
            if items.len() == 2 {
                match (&items[0], &items[1]) {
                    (JsonValue::Num(ts), JsonValue::Str(sv)) => Ok(
                        Sample { timestamp: ts.clone(), value: sv.clone() },
                    ),
                    _ => Err(Error::DecodeError),
                }
            } else {
                Err(Error::DecodeError)
            }
        },
        _ => Err(Error::DecodeError),
    }
}

/// Decode an object-of-strings payload: a label set, or the flags map.
pub fn decode_labels(v: &JsonValue) -> (r: Result<Vec<(String, String)>, Error>)
    ensures
        match r {
            Ok(ls) => labels_spec_of(v@) == Ok::<Seq<(Seq<char>, Seq<char>)>, ErrorSpec>(
                pairs_view(ls@),
            ),
            Err(e) => labels_spec_of(v@) == Err::<Seq<(Seq<char>, Seq<char>)>, ErrorSpec>(e@),
        },
{
    match v {
        JsonValue::Obj(fields) => {
            proof {
                lemma_view_obj(*fields);
            }
            let n = fields.len();
            let mut out: Vec<(String, String)> = Vec::new();
            let mut i: usize = 0;
            while i < n
                invariant
                    *v == JsonValue::Obj(*fields),
                    v@ == JsonSpec::Obj(fields_view(fields@)),
                    n == fields@.len(),
                    i <= n,
                    out@.len() == i,
                    forall|j: int| 0 <= j < i ==> (#[trigger] fields_view(fields@)[j].1) is Str,
                    forall|j: int|
                        0 <= j < i ==> #[trigger] pairs_view(out@)[j] == (
                            fields_view(fields@)[j].0,
                            fields_view(fields@)[j].1->Str_0,
                        ),
                decreases n - i,
            {
                let ghost fv = fields_view(fields@);
                match &fields[i].1 {
                    JsonValue::Str(sv) => {
                        let ghost prev = out@;
                        out.push((fields[i].0.clone(), sv.clone()));
                        proof {
                            assert forall|j: int| 0 <= j < i + 1 implies #[trigger] pairs_view(
                                out@,
                            )[j] == (fv[j].0, fv[j].1->Str_0) by {
                                if j < i {
                                    assert(out@[j] == prev[j]);
                                    assert(pairs_view(prev)[j] == (fv[j].0, fv[j].1->Str_0));
                                    assert(pairs_view(prev)[j] == (prev[j].0@, prev[j].1@));
                                    assert(pairs_view(out@)[j] == (out@[j].0@, out@[j].1@));
                                } else {
                                    assert(fv[j] == (fields@[j].0@, fields@[j].1@));
                                    assert(fields@[j].1@ == JsonSpec::Str(sv@));
                                    assert(pairs_view(out@)[j] == (out@[j].0@, out@[j].1@));
                                }
                            }
                        }
                    },
                    _ => {
                        proof {
                            let x = fields@[i as int].1;
                            assert(!(x is Str));
                            assert(!(x@ is Str));
                            assert(!(forall|k: int|
                                0 <= k < fv.len() ==> (#[trigger] fv[k].1) is Str)) by {
                                assert(0 <= i < fv.len() && !(fv[i as int].1 is Str));
                            }
                        }
                        return Err(Error::DecodeError);
                    },
                }
                i = i + 1;
            }
            proof {
                let fv = fields_view(fields@);
                assert(pairs_view(out@) =~= Seq::new(fv.len(), |i: int| (fv[i].0, fv[i].1->Str_0)));
            }
            Ok(out)
        },
        _ => Err(Error::DecodeError),
    }
}

/// Decode one vector member: an object with a `metric` label set and a
/// `value` sample.
pub open spec fn metric_spec_of(j: JsonSpec) -> Result<MetricSpec, ErrorSpec> {
    match j {
        JsonSpec::Obj(fields) => match obj_get(fields, "metric"@) {
            None => Err(ErrorSpec::MissingField),
            Some(lj) => match labels_spec_of(lj) {
                Err(e) => Err(e),
                Ok(ls) => match obj_get(fields, "value"@) {
                    None => Err(ErrorSpec::MissingField),
                    Some(vj) => match sample_spec_of(vj) {
                        Err(e) => Err(e),
                        Ok(s) => Ok(MetricSpec { labels: ls, value: s }),
                    },
                },
            },
        },
        _ => Err(ErrorSpec::DecodeError),
    }
}

/// Decode the items of a vector result from `i` on; the first failure wins.
pub open spec fn metrics_spec_from(items: Seq<JsonSpec>, i: int) -> Result<
    Seq<MetricSpec>,
    ErrorSpec,
>
    decreases items.len() - i,
        when 0 <= i <= items.len()
{
    if i >= items.len() {
        Ok(Seq::empty())
    } else {
        match metric_spec_of(items[i]) {
            Err(e) => Err(e),
            Ok(m) => match metrics_spec_from(items, i + 1) {
                Err(e) => Err(e),
                Ok(rest) => Ok(seq![m] + rest),
            },
        }
    }
}

/// Decode the samples of one series from `i` on; the first failure wins.
pub open spec fn samples_spec_from(items: Seq<JsonSpec>, i: int) -> Result<
    Seq<SampleSpec>,
    ErrorSpec,
>
    decreases items.len() - i,
        when 0 <= i <= items.len()
{
    if i >= items.len() {
        Ok(Seq::empty())
    } else {
        match sample_spec_of(items[i]) {
            Err(e) => Err(e),
            Ok(s) => match samples_spec_from(items, i + 1) {
                Err(e) => Err(e),
                Ok(rest) => Ok(seq![s] + rest),
            },
        }
    }
}

/// Decode one matrix member: an object with a `metric` label set and a
/// `values` array of samples.
pub open spec fn series_spec_of(j: JsonSpec) -> Result<RangeSeriesSpec, ErrorSpec> {
    match j {
        JsonSpec::Obj(fields) => match obj_get(fields, "metric"@) {
            None => Err(ErrorSpec::MissingField),
            Some(lj) => match labels_spec_of(lj) {
                Err(e) => Err(e),
                Ok(ls) => match obj_get(fields, "values"@) {
                    None => Err(ErrorSpec::MissingField),
                    Some(vj) => match vj {
                        JsonSpec::Arr(items) => match samples_spec_from(items, 0) {
                            Err(e) => Err(e),
                            Ok(ss) => Ok(RangeSeriesSpec { labels: ls, samples: ss }),
                        },
                        _ => Err(ErrorSpec::DecodeError),
                    },
                },
            },
        },
        _ => Err(ErrorSpec::DecodeError),
    }
}

/// Decode the items of a matrix result from `i` on; the first failure wins.
pub open spec fn series_spec_from(items: Seq<JsonSpec>, i: int) -> Result<
    Seq<RangeSeriesSpec>,
    ErrorSpec,
>
    decreases items.len() - i,
        when 0 <= i <= items.len()
{
    if i >= items.len() {
        Ok(Seq::empty())
    } else {
        match series_spec_of(items[i]) {
            Err(e) => Err(e),
            Ok(s) => match series_spec_from(items, i + 1) {
                Err(e) => Err(e),
                Ok(rest) => Ok(seq![s] + rest),
            },
        }
    }
}

/// A vector result: an array of vector members.
pub open spec fn vector_spec_of(j: JsonSpec) -> Result<Seq<MetricSpec>, ErrorSpec> {
    match j {
        JsonSpec::Arr(items) => metrics_spec_from(items, 0),
        _ => Err(ErrorSpec::DecodeError),
    }
}

/// A matrix result: an array of matrix members.
pub open spec fn matrix_spec_of(j: JsonSpec) -> Result<Seq<RangeSeriesSpec>, ErrorSpec> {
    match j {
        JsonSpec::Arr(items) => series_spec_from(items, 0),
        _ => Err(ErrorSpec::DecodeError),
    }
}

fn decode_metric(v: &JsonValue) -> (r: Result<Metric, Error>)
    ensures
        match r {
            Ok(m) => metric_spec_of(v@) == Ok::<MetricSpec, ErrorSpec>(m@),
            Err(e) => metric_spec_of(v@) == Err::<MetricSpec, ErrorSpec>(e@),
        },
{
    match v {
        JsonValue::Obj(fields) => {
            proof {
                lemma_view_obj(*fields);
            }
            let lj = match obj_lookup(fields, "metric") {
                Some(x) => x,
                None => {
                    return Err(Error::MissingField);
                },
            };
            let labels = match decode_labels(lj) {
                Ok(ls) => ls,
                Err(e) => {
                    return Err(e);
                },
            };
            let vj = match obj_lookup(fields, "value") {
                Some(x) => x,
                None => {
                    return Err(Error::MissingField);
                },
            };
            let sample = match decode_sample(vj) {
                Ok(s) => s,
                Err(e) => {
                    return Err(e);
                },
            };
            Ok(Metric { labels, value: sample })
        },
        _ => Err(Error::DecodeError),
    }
}

fn decode_metrics_from(items: &Vec<JsonValue>, i: usize) -> (r: Result<Vec<Metric>, Error>)
    requires
        i <= items@.len(),
    ensures
        match r {
            Ok(ms) => metrics_spec_from(items_view(items@), i as int) == Ok::<
                Seq<MetricSpec>,
                ErrorSpec,
            >(metrics_view(ms@)),
            Err(e) => metrics_spec_from(items_view(items@), i as int) == Err::<
                Seq<MetricSpec>,
                ErrorSpec,
            >(e@),
        },
    decreases items@.len() - i,
{
    if i >= items.len() {
        let ms: Vec<Metric> = Vec::new();
        proof {
            assert(metrics_view(ms@) =~= Seq::<MetricSpec>::empty());
        }
        return Ok(ms);
    }
    match decode_metric(&items[i]) {
        Err(e) => Err(e),
        Ok(m) => match decode_metrics_from(items, i + 1) {
            Err(e) => Err(e),
            Ok(mut ms) => {
                let ghost rest = metrics_view(ms@);
                ms.insert(0, m);
                proof {
                    assert(metrics_view(ms@) =~= seq![m@] + rest);
                }
                Ok(ms)
            },
        },
    }
}

fn decode_samples_from(items: &Vec<JsonValue>, i: usize) -> (r: Result<Vec<Sample>, Error>)
    requires
        i <= items@.len(),
    ensures
        match r {
            Ok(ss) => samples_spec_from(items_view(items@), i as int) == Ok::<
                Seq<SampleSpec>,
                ErrorSpec,
            >(samples_view(ss@)),
            Err(e) => samples_spec_from(items_view(items@), i as int) == Err::<
                Seq<SampleSpec>,
                ErrorSpec,
            >(e@),
        },
    decreases items@.len() - i,
{
    if i >= items.len() {
        let ss: Vec<Sample> = Vec::new();
        proof {
            assert(samples_view(ss@) =~= Seq::<SampleSpec>::empty());
        }
        return Ok(ss);
    }
    match decode_sample(&items[i]) {
        Err(e) => Err(e),
        Ok(s) => match decode_samples_from(items, i + 1) {
            Err(e) => Err(e),
            Ok(mut ss) => {
                let ghost rest = samples_view(ss@);
                ss.insert(0, s);
                proof {
                    assert(samples_view(ss@) =~= seq![s@] + rest);
                }
                Ok(ss)
            },
        },
    }
}

fn decode_one_series(v: &JsonValue) -> (r: Result<RangeVectorSeries, Error>)
    ensures
        match r {
            Ok(s) => series_spec_of(v@) == Ok::<RangeSeriesSpec, ErrorSpec>(s@),
            Err(e) => series_spec_of(v@) == Err::<RangeSeriesSpec, ErrorSpec>(e@),
        },
{
    match v {
        JsonValue::Obj(fields) => {
            proof {
                lemma_view_obj(*fields);
            }
            let lj = match obj_lookup(fields, "metric") {
                Some(x) => x,
                None => {
                    return Err(Error::MissingField);
                },
            };
            let labels = match decode_labels(lj) {
                Ok(ls) => ls,
                Err(e) => {
                    return Err(e);
                },
            };
            let vj = match obj_lookup(fields, "values") {
                Some(x) => x,
                None => {
                    return Err(Error::MissingField);
                },
            };
            match vj {
                JsonValue::Arr(items) => {
                    proof {
                        lemma_view_arr(*items);
                    }
                    match decode_samples_from(items, 0) {
                        Ok(samples) => Ok(RangeVectorSeries { labels, samples }),
                        Err(e) => Err(e),
                    }
                },
                _ => Err(Error::DecodeError),
            }
        },
        _ => Err(Error::DecodeError),
    }
}

fn decode_series_from(items: &Vec<JsonValue>, i: usize) -> (r: Result<
    Vec<RangeVectorSeries>,
    Error,
>)
    requires
        i <= items@.len(),
    ensures
        match r {
            Ok(ss) => series_spec_from(items_view(items@), i as int) == Ok::<
                Seq<RangeSeriesSpec>,
                ErrorSpec,
            >(series_view(ss@)),
            Err(e) => series_spec_from(items_view(items@), i as int) == Err::<
                Seq<RangeSeriesSpec>,
                ErrorSpec,
            >(e@),
        },
    decreases items@.len() - i,
{
    if i >= items.len() {
        let ss: Vec<RangeVectorSeries> = Vec::new();
        proof {
            assert(series_view(ss@) =~= Seq::<RangeSeriesSpec>::empty());
        }
        return Ok(ss);
    }
    match decode_one_series(&items[i]) {
        Err(e) => Err(e),
        Ok(s) => match decode_series_from(items, i + 1) {
            Err(e) => Err(e),
            Ok(mut ss) => {
                let ghost rest = series_view(ss@);
                ss.insert(0, s);
                proof {
                    assert(series_view(ss@) =~= seq![s@] + rest);
                }
                Ok(ss)
            },
        },
    }
}

/// Dispatch a query result payload on its `resultType` tag. The tag is
/// trusted exclusively: an unrecognized tag fails closed with
/// `UnsupportedResultType`, never with a best-effort parse.
pub open spec fn dispatch_spec(data: JsonSpec) -> Result<QueryResultSpec, ErrorSpec> {
    match data {
        JsonSpec::Obj(fields) => match obj_get(fields, "resultType"@) {
            None => Err(ErrorSpec::MissingField),
            Some(tj) => {
                if !(tj is Str) {
                    Err(ErrorSpec::DecodeError)
                } else {
                    match obj_get(fields, "result"@) {
                        None => Err(ErrorSpec::MissingField),
                        Some(rj) => {
                            if tj->Str_0 == "vector"@ {
                                match vector_spec_of(rj) {
                                    Ok(ms) => Ok(QueryResultSpec::Vector(ms)),
                                    Err(e) => Err(e),
                                }
                            } else if tj->Str_0 == "matrix"@ {
                                match matrix_spec_of(rj) {
                                    Ok(ss) => Ok(QueryResultSpec::Matrix(ss)),
                                    Err(e) => Err(e),
                                }
                            } else if tj->Str_0 == "scalar"@ {
                                match sample_spec_of(rj) {
                                    Ok(s) => Ok(QueryResultSpec::Scalar(s)),
                                    Err(e) => Err(e),
                                }
                            } else {
                                Err(ErrorSpec::UnsupportedResultType { raw: tj->Str_0 })
                            }
                        },
                    }
                }
            },
        },
        _ => Err(ErrorSpec::DecodeError),
    }
}

/// Decode a query result payload by its `resultType` tag into the matching
/// typed shape; fails closed on an unrecognized tag.
pub fn dispatch(data: &JsonValue) -> (r: Result<QueryResultType, Error>)
    ensures
        match r {
            Ok(q) => dispatch_spec(data@) == Ok::<QueryResultSpec, ErrorSpec>(q@),
            Err(e) => dispatch_spec(data@) == Err::<QueryResultSpec, ErrorSpec>(e@),
        },
{
    match data {
        JsonValue::Obj(fields) => {
            proof {
                lemma_view_obj(*fields);
            }
            let tj = match obj_lookup(fields, "resultType") {
                Some(x) => x,
                None => {
                    return Err(Error::MissingField);
                },
            };
            let tag = match tj {
                JsonValue::Str(t) => t,
                _ => {
                    return Err(Error::DecodeError);
                },
            };
            let rj = match obj_lookup(fields, "result") {
                Some(x) => x,
                None => {
                    return Err(Error::MissingField);
                },
            };
            if str_eq(tag.as_str(), "vector") {
                match rj {
                    JsonValue::Arr(items) => {
                        proof {
                            lemma_view_arr(*items);
                        }
                        match decode_metrics_from(items, 0) {
                            Ok(ms) => Ok(QueryResultType::Vector(ms)),
                            Err(e) => Err(e),
                        }
                    },
                    _ => Err(Error::DecodeError),
                }
            } else if str_eq(tag.as_str(), "matrix") {
                match rj {
                    JsonValue::Arr(items) => {
                        proof {
                            lemma_view_arr(*items);
                        }
                        match decode_series_from(items, 0) {
                            Ok(ss) => Ok(QueryResultType::Matrix(ss)),
                            Err(e) => Err(e),
                        }
                    },
                    _ => Err(Error::DecodeError),
                }
            } else if str_eq(tag.as_str(), "scalar") {
                match decode_sample(rj) {
                    Ok(s) => Ok(QueryResultType::Scalar(s)),
                    Err(e) => Err(e),
                }
            } else {
                Err(Error::UnsupportedResultType { raw: tag.clone() })
            }
        },
        _ => Err(Error::DecodeError),
    }
}

/// Unwrap the response envelope. `status=success` yields the `data`
/// payload; `status=error` yields `ApiError` with the server's `errorType`
/// and `error` verbatim; any other status token yields `UnknownStatus`; a
/// required field that is absent yields `MissingField`.
pub open spec fn envelope_spec(j: JsonSpec) -> Result<JsonSpec, ErrorSpec> {
    match j {
        JsonSpec::Obj(fields) => match obj_get(fields, "status"@) {
            None => Err(ErrorSpec::MissingField),
            Some(sj) => {
                if !(sj is Str) {
                    Err(ErrorSpec::DecodeError)
                } else if sj->Str_0 == "success"@ {
                    match obj_get(fields, "data"@) {
                        Some(d) => Ok(d),
                        None => Err(ErrorSpec::MissingField),
                    }
                } else if sj->Str_0 == "error"@ {
                    match obj_get(fields, "errorType"@) {
                        None => Err(ErrorSpec::MissingField),
                        Some(kj) => {
                            if !(kj is Str) {
                                Err(ErrorSpec::DecodeError)
                            } else {
                                match obj_get(fields, "error"@) {
                                    None => Err(ErrorSpec::MissingField),
                                    Some(mj) => {
                                        if !(mj is Str) {
                                            Err(ErrorSpec::DecodeError)
                                        } else {
                                            Err(
                                                ErrorSpec::ApiError {
                                                    kind: kj->Str_0,
                                                    message: mj->Str_0,
                                                },
                                            )
                                        }
                                    },
                                }
                            }
                        },
                    }
                } else {
                    Err(ErrorSpec::UnknownStatus { raw: sj->Str_0 })
                }
            },
        },
        _ => Err(ErrorSpec::DecodeError),
    }
}

/// The full decode of a query response envelope: unwrap, then dispatch.
/// An envelope error is classified and returned before any result-type
/// dispatch is attempted.
pub open spec fn query_response_spec(j: JsonSpec) -> Result<QueryResultSpec, ErrorSpec> {
    match envelope_spec(j) {
        Ok(d) => dispatch_spec(d),
        Err(e) => Err(e),
    }
}

/// Unwrap the response envelope of an already-parsed body, returning the
/// `data` payload by reference.
pub fn decode_envelope<'a>(v: &'a JsonValue) -> (r: Result<&'a JsonValue, Error>)
    ensures
        match r {
            Ok(d) => envelope_spec(v@) == Ok::<JsonSpec, ErrorSpec>(d@),
            Err(e) => envelope_spec(v@) == Err::<JsonSpec, ErrorSpec>(e@),
        },
{
    match v {
        JsonValue::Obj(fields) => {
            proof {
                lemma_view_obj(*fields);
            }
            let sj = match obj_lookup(fields, "status") {
                Some(x) => x,
                None => {
                    return Err(Error::MissingField);
                },
            };
            let st = match sj {
                JsonValue::Str(t) => t,
                _ => {
                    return Err(Error::DecodeError);
                },
            };
            if str_eq(st.as_str(), "success") {
                match obj_lookup(fields, "data") {
                    Some(d) => Ok(d),
                    None => Err(Error::MissingField),
                }
            } else if str_eq(st.as_str(), "error") {
                let kj = match obj_lookup(fields, "errorType") {
                    Some(x) => x,
                    None => {
                        return Err(Error::MissingField);
                    },
                };
                let ks = match kj {
                    JsonValue::Str(t) => t,
                    _ => {
                        return Err(Error::DecodeError);
                    },
                };
                let mj = match obj_lookup(fields, "error") {
                    Some(x) => x,
                    None => {
                        return Err(Error::MissingField);
                    },
                };
                let ms = match mj {
                    JsonValue::Str(t) => t,
                    _ => {
                        return Err(Error::DecodeError);
                    },
                };
                Err(Error::ApiError { kind: ks.clone(), message: ms.clone() })
            } else {
                Err(Error::UnknownStatus { raw: st.clone() })
            }
        },
        _ => Err(Error::DecodeError),
    }
}

/// Decode a full query response from an already-parsed body: unwrap the
/// envelope, then dispatch on the result-type tag. A server-reported error
/// comes back as `ApiError` and the dispatcher is never consulted.
pub fn decode_query_response(v: &JsonValue) -> (r: Result<QueryResultType, Error>)
    ensures
        match r {
            Ok(q) => query_response_spec(v@) == Ok::<QueryResultSpec, ErrorSpec>(q@),
            Err(e) => query_response_spec(v@) == Err::<QueryResultSpec, ErrorSpec>(e@),
        },
{
    match decode_envelope(v) {
        Ok(d) => dispatch(d),
        Err(e) => Err(e),
    }
}

/// Decode a full query response from raw body text. A body that is not
/// valid JSON yields `DecodeError`; otherwise the result is exactly the
/// envelope-then-dispatch decode of the parsed value.
pub fn decode_query_body(body: &str) -> (r: Result<QueryResultType, Error>)
    ensures
        json_of(body@) is None ==> (r matches Err(e) && e@ == ErrorSpec::DecodeError),
        json_of(body@) matches Some(j) ==> (match r {
            Ok(q) => query_response_spec(j) == Ok::<QueryResultSpec, ErrorSpec>(q@),
            Err(e) => query_response_spec(j) == Err::<QueryResultSpec, ErrorSpec>(e@),
        }),
{
    match parse_json(body) {
        None => Err(Error::DecodeError),
        Some(v) => decode_query_response(&v),
    }
}

/// Unwrap the envelope of raw body text and hand the `data` payload back
/// as an owned value, for the endpoints that carry an untyped payload.
pub fn decode_data_body(body: &str) -> (r: Result<JsonValue, Error>)
    ensures
        json_of(body@) is None ==> (r matches Err(e) && e@ == ErrorSpec::DecodeError),
        json_of(body@) matches Some(j) ==> (match r {
            Ok(d) => envelope_spec(j) == Ok::<JsonSpec, ErrorSpec>(d@),
            Err(e) => envelope_spec(j) == Err::<JsonSpec, ErrorSpec>(e@),
        }),
{
    match parse_json(body) {
        None => Err(Error::DecodeError),
        Some(v) => match decode_envelope(&v) {
            Ok(d) => Ok(d.clone()),
            Err(e) => Err(e),
        },
    }
}

/// The field of an object payload, for the endpoints whose payload nests
/// the list one level down. A missing key yields `MissingField`; a
/// non-object yields `DecodeError`.
pub open spec fn obj_field_spec(j: JsonSpec, key: Seq<char>) -> Result<JsonSpec, ErrorSpec> {
    match j {
        JsonSpec::Obj(fields) => match obj_get(fields, key) {
            Some(d) => Ok(d),
            None => Err(ErrorSpec::MissingField),
        },
        _ => Err(ErrorSpec::DecodeError),
    }
}

/// Read one field of an object payload.
pub fn obj_field<'a>(v: &'a JsonValue, key: &str) -> (r: Result<&'a JsonValue, Error>)
    ensures
        match r {
            Ok(d) => obj_field_spec(v@, key@) == Ok::<JsonSpec, ErrorSpec>(d@),
            Err(e) => obj_field_spec(v@, key@) == Err::<JsonSpec, ErrorSpec>(e@),
        },
{
    match v {
        JsonValue::Obj(fields) => {
            proof {
                lemma_view_obj(*fields);
            }
            match obj_lookup(fields, key) {
                Some(d) => Ok(d),
                None => Err(Error::MissingField),
            }
        },
        _ => Err(Error::DecodeError),
    }
}

/// The view of a string vector.
pub open spec fn strings_view(s: Seq<String>) -> Seq<Seq<char>> {
    Seq::new(s.len(), |i: int| s[i]@)
}

/// Decode an array of strings, as the label-name and label-value
/// endpoints return in their payload.
pub open spec fn string_array_spec(j: JsonSpec) -> Result<Seq<Seq<char>>, ErrorSpec> {
    match j {
        JsonSpec::Arr(items) => {
            if forall|i: int| 0 <= i < items.len() ==> (#[trigger] items[i]) is Str {
                Ok(Seq::new(items.len(), |i: int| items[i]->Str_0))
            } else {
                Err(ErrorSpec::DecodeError)
            }
        },
        _ => Err(ErrorSpec::DecodeError),
    }
}

/// Decode an array-of-strings payload.
pub fn decode_string_array(v: &JsonValue) -> (r: Result<Vec<String>, Error>)
    ensures
        match r {
            Ok(ss) => string_array_spec(v@) == Ok::<Seq<Seq<char>>, ErrorSpec>(strings_view(ss@)),
            Err(e) => string_array_spec(v@) == Err::<Seq<Seq<char>>, ErrorSpec>(e@),
        },
{
    match v {
        JsonValue::Arr(items) => {
            proof {
                lemma_view_arr(*items);
            }
            let n = items.len();
            let mut out: Vec<String> = Vec::new();
            let mut i: usize = 0;
            while i < n
                invariant
                    *v == JsonValue::Arr(*items),
                    v@ == JsonSpec::Arr(items_view(items@)),
                    n == items@.len(),
                    i <= n,
                    out@.len() == i,
                    forall|j: int| 0 <= j < i ==> (#[trigger] items_view(items@)[j]) is Str,
                    forall|j: int|
                        0 <= j < i ==> #[trigger] strings_view(out@)[j] == items_view(
                            items@,
                        )[j]->Str_0,
                decreases n - i,
            {
                let ghost iv = items_view(items@);
                match &items[i] {
                    JsonValue::Str(sv) => {
                        let ghost prev = out@;
                        out.push(sv.clone());
                        proof {
                            assert forall|j: int| 0 <= j < i + 1 implies #[trigger] strings_view(
                                out@,
                            )[j] == iv[j]->Str_0 by {
                                if j < i {
                                    assert(out@[j] == prev[j]);
                                    assert(strings_view(prev)[j] == iv[j]->Str_0);
                                    assert(strings_view(prev)[j] == prev[j]@);
                                    assert(strings_view(out@)[j] == out@[j]@);
                                } else {
                                    assert(iv[j] == items@[j]@);
                                    assert(items@[j]@ == JsonSpec::Str(sv@));
                                    assert(strings_view(out@)[j] == out@[j]@);
                                }
                            }
                        }
                    },
                    _ => {
                        proof {
                            let x = items@[i as int];
                            assert(!(x is Str));
                            assert(!(x@ is Str));
                            assert(!(forall|k: int|
                                0 <= k < iv.len() ==> (#[trigger] iv[k]) is Str)) by {
                                assert(0 <= i < iv.len() && !(iv[i as int] is Str));
                            }
                        }
                        return Err(Error::DecodeError);
                    },
                }
                i = i + 1;
            }
            proof {
                let iv = items_view(items@);
                assert(strings_view(out@) =~= Seq::new(iv.len(), |i: int| iv[i]->Str_0));
            }
            Ok(out)
        },
        _ => Err(Error::DecodeError),
    }
}

/// The view of a label-set vector.
pub open spec fn label_sets_view(s: Seq<Vec<(String, String)>>) -> Seq<
    Seq<(Seq<char>, Seq<char>)>,
> {
    Seq::new(s.len(), |i: int| pairs_view(s[i]@))
}

/// Decode the series payload from `i` on: an array of label sets; the
/// first failure wins.
pub open spec fn label_sets_spec_from(items: Seq<JsonSpec>, i: int) -> Result<
    Seq<Seq<(Seq<char>, Seq<char>)>>,
    ErrorSpec,
>
    decreases items.len() - i,
        when 0 <= i <= items.len()
{
    if i >= items.len() {
        Ok(Seq::empty())
    } else {
        match labels_spec_of(items[i]) {
            Err(e) => Err(e),
            Ok(ls) => match label_sets_spec_from(items, i + 1) {
                Err(e) => Err(e),
                Ok(rest) => Ok(seq![ls] + rest),
            },
        }
    }
}

/// Decode the series payload: an array of label sets.
pub open spec fn label_sets_spec(j: JsonSpec) -> Result<
    Seq<Seq<(Seq<char>, Seq<char>)>>,
    ErrorSpec,
> {
    match j {
        JsonSpec::Arr(items) => label_sets_spec_from(items, 0),
        _ => Err(ErrorSpec::DecodeError),
    }
}

fn decode_label_sets_from(items: &Vec<JsonValue>, i: usize) -> (r: Result<
    Vec<Vec<(String, String)>>,
    Error,
>)
    requires
        i <= items@.len(),
    ensures
        match r {
            Ok(ls) => label_sets_spec_from(items_view(items@), i as int) == Ok::<
                Seq<Seq<(Seq<char>, Seq<char>)>>,
                ErrorSpec,
            >(label_sets_view(ls@)),
            Err(e) => label_sets_spec_from(items_view(items@), i as int) == Err::<
                Seq<Seq<(Seq<char>, Seq<char>)>>,
                ErrorSpec,
            >(e@),
        },
    decreases items@.len() - i,
{
    if i >= items.len() {
        let ls: Vec<Vec<(String, String)>> = Vec::new();
        proof {
            assert(label_sets_view(ls@) =~= Seq::<Seq<(Seq<char>, Seq<char>)>>::empty());
        }
        return Ok(ls);
    }
    match decode_labels(&items[i]) {
        Err(e) => Err(e),
        Ok(l) => match decode_label_sets_from(items, i + 1) {
            Err(e) => Err(e),
            Ok(mut ls) => {
                let ghost rest = label_sets_view(ls@);
                let ghost lv = pairs_view(l@);
                ls.insert(0, l);
                proof {
                    assert(label_sets_view(ls@) =~= seq![lv] + rest);
                }
                Ok(ls)
            },
        },
    }
}

/// Decode a series payload: an array of label sets.
pub fn decode_label_sets(v: &JsonValue) -> (r: Result<Vec<Vec<(String, String)>>, Error>)
    ensures
        match r {
            Ok(ls) => label_sets_spec(v@) == Ok::<Seq<Seq<(Seq<char>, Seq<char>)>>, ErrorSpec>(
                label_sets_view(ls@),
            ),
            Err(e) => label_sets_spec(v@) == Err::<Seq<Seq<(Seq<char>, Seq<char>)>>, ErrorSpec>(
                e@,
            ),
        },
{
    match v {
        JsonValue::Arr(items) => {
            proof {
                lemma_view_arr(*items);
            }
            decode_label_sets_from(items, 0)
        },
        _ => Err(Error::DecodeError),
    }
}

/// Decode the `url` fields of a discovery list from `i` on: each item is
/// an object whose `url` field is a string; the first failure wins.
pub open spec fn url_list_spec_from(items: Seq<JsonSpec>, i: int) -> Result<
    Seq<Seq<char>>,
    ErrorSpec,
>
    decreases items.len() - i,
        when 0 <= i <= items.len()
{
    if i >= items.len() {
        Ok(Seq::empty())
    } else {
        match obj_field_spec(items[i], "url"@) {
            Err(e) => Err(e),
            Ok(uj) => {
                if !(uj is Str) {
                    Err(ErrorSpec::DecodeError)
                } else {
                    match url_list_spec_from(items, i + 1) {
                        Err(e) => Err(e),
                        Ok(rest) => Ok(seq![uj->Str_0] + rest),
                    }
                }
            },
        }
    }
}

/// Decode the `url` fields of a discovery list, as the alertmanager
/// endpoint returns under its active and dropped keys.
pub open spec fn url_list_spec(j: JsonSpec) -> Result<Seq<Seq<char>>, ErrorSpec> {
    match j {
        JsonSpec::Arr(items) => url_list_spec_from(items, 0),
        _ => Err(ErrorSpec::DecodeError),
    }
}

fn decode_url_list_from(items: &Vec<JsonValue>, i: usize) -> (r: Result<Vec<String>, Error>)
    requires
        i <= items@.len(),
    ensures
        match r {
            Ok(us) => url_list_spec_from(items_view(items@), i as int) == Ok::<
                Seq<Seq<char>>,
                ErrorSpec,
            >(strings_view(us@)),
            Err(e) => url_list_spec_from(items_view(items@), i as int) == Err::<
                Seq<Seq<char>>,
                ErrorSpec,
            >(e@),
        },
    decreases items@.len() - i,
{
    if i >= items.len() {
        let us: Vec<String> = Vec::new();
        proof {
            assert(strings_view(us@) =~= Seq::<Seq<char>>::empty());
        }
        return Ok(us);
    }
    let uj = match obj_field(&items[i], "url") {
        Ok(x) => x,
        Err(e) => {
            return Err(e);
        },
    };
    let u = match uj {
        JsonValue::Str(s) => s,
        _ => {
            return Err(Error::DecodeError);
        },
    };
    match decode_url_list_from(items, i + 1) {
        Err(e) => Err(e),
        Ok(mut us) => {
            let ghost rest = strings_view(us@);
            us.insert(0, u.clone());
            proof {
                assert(strings_view(us@) =~= seq![u@] + rest);
            }
            Ok(us)
        },
    }
}

/// Decode a discovery list's `url` fields.
pub fn decode_url_list(v: &JsonValue) -> (r: Result<Vec<String>, Error>)
    ensures
        match r {
            Ok(us) => url_list_spec(v@) == Ok::<Seq<Seq<char>>, ErrorSpec>(strings_view(us@)),
            Err(e) => url_list_spec(v@) == Err::<Seq<Seq<char>>, ErrorSpec>(e@),
        },
{
    match v {
        JsonValue::Arr(items) => {
            proof {
                lemma_view_arr(*items);
            }
            decode_url_list_from(items, 0)
        },
        _ => Err(Error::DecodeError),
    }
}

/// The envelope's optional `warnings`: absent, or an array of strings,
/// under either status.
pub open spec fn warnings_spec(j: JsonSpec) -> Result<Option<Seq<Seq<char>>>, ErrorSpec> {
    match j {
        JsonSpec::Obj(fields) => match obj_get(fields, "warnings"@) {
            None => Ok(None),
            Some(wj) => match string_array_spec(wj) {
                Ok(ws) => Ok(Some(ws)),
                Err(e) => Err(e),
            },
        },
        _ => Err(ErrorSpec::DecodeError),
    }
}

/// Read the envelope's optional `warnings`.
pub fn decode_warnings(v: &JsonValue) -> (r: Result<Option<Vec<String>>, Error>)
    ensures
        match r {
            Ok(Some(ws)) => warnings_spec(v@) == Ok::<Option<Seq<Seq<char>>>, ErrorSpec>(
                Some(strings_view(ws@)),
            ),
            Ok(None) => warnings_spec(v@) == Ok::<Option<Seq<Seq<char>>>, ErrorSpec>(None),
            Err(e) => warnings_spec(v@) == Err::<Option<Seq<Seq<char>>>, ErrorSpec>(e@),
        },
{
    match v {
        JsonValue::Obj(fields) => {
            proof {
                lemma_view_obj(*fields);
            }
            match obj_lookup(fields, "warnings") {
                None => Ok(None),
                Some(wj) => match decode_string_array(wj) {
                    Ok(ws) => Ok(Some(ws)),
                    Err(e) => Err(e),
                },
            }
        },
        _ => Err(Error::DecodeError),
    }
}

/// A server-reported error envelope is always classified as `ApiError`,
/// carrying the server's kind and message verbatim, and the result-type
/// dispatch is never reached: the full query decode returns that same
/// error, whatever the payload would have held.
pub proof fn lemma_error_envelope_classified(j: JsonSpec, kind: Seq<char>, message: Seq<char>)
    requires
        j is Obj,
        obj_get(j->Obj_0, "status"@) == Some(JsonSpec::Str("error"@)),
        obj_get(j->Obj_0, "errorType"@) == Some(JsonSpec::Str(kind)),
        obj_get(j->Obj_0, "error"@) == Some(JsonSpec::Str(message)),
    ensures
        envelope_spec(j) == Err::<JsonSpec, ErrorSpec>(ErrorSpec::ApiError { kind, message }),
        query_response_spec(j) == Err::<QueryResultSpec, ErrorSpec>(
            ErrorSpec::ApiError { kind, message },
        ),
{
    reveal_strlit("success");
    reveal_strlit("error");
    assert("error"@ != "success"@) by {
        assert("error"@.len() == 5);
        assert("success"@.len() == 7);
    }
}

} // verus!
