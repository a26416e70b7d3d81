use prometheus_http_query::error::Error;
use prometheus_http_query::expression::{
    aggregate, avg, count, instant_vector, range_vector, scalar, sum, Aggregate, AggregateOp,
    ExprKind,
};
use prometheus_http_query::selector::Selector;

#[test]
fn instant_vector_renders_the_selector() {
    let s = Selector::new().metric("up").with("job", "prometheus");
    let v = instant_vector(&s).expect("valid selector");
    assert_eq!(v.text(), "up{job=\"prometheus\"}");
    assert!(matches!(v.kind(), ExprKind::InstantVector));
}

#[test]
fn instant_vector_rejects_an_empty_selector() {
    let s = Selector::new();
    match instant_vector(&s) {
        Err(Error::InvalidSelector) => {}
        other => panic!("expected InvalidSelector, got {:?}", other),
    }
}

#[test]
fn sum_by_renders_exactly() {
    let s = Selector::new().with("job", "x");
    let v = instant_vector(&s).unwrap();
    let clause = Aggregate::By(vec![String::from("job")]);
    let e = sum(&v, Some(&clause)).unwrap();
    assert_eq!(e.text(), "sum({job=\"x\"}) by (job)");
    assert!(matches!(e.kind(), ExprKind::AggregatedVector));
}

#[test]
fn aggregation_without_clause_renders_bare() {
    let s = Selector::new().with("job", "x");
    let v = instant_vector(&s).unwrap();
    let e = avg(&v, None).unwrap();
    assert_eq!(e.text(), "avg({job=\"x\"})");
}

#[test]
fn aggregation_without_grouping_renders_label_list() {
    let s = Selector::new().metric("up");
    let v = instant_vector(&s).unwrap();
    let clause = Aggregate::Without(vec![String::from("cpu"), String::from("mode")]);
    let e = count(&v, Some(&clause)).unwrap();
    assert_eq!(e.text(), "count(up{}) without (cpu,mode)");
}

#[test]
fn aggregations_nest() {
    let s = Selector::new().with("job", "x");
    let v = instant_vector(&s).unwrap();
    let inner = sum(&v, None).unwrap();
    let outer = aggregate(AggregateOp::Max, &inner, None).unwrap();
    assert_eq!(outer.text(), "max(sum({job=\"x\"}))");
}

#[test]
fn composition_does_not_mutate_inputs() {
    let s = Selector::new().with("job", "x");
    let v = instant_vector(&s).unwrap();
    let _a = sum(&v, None).unwrap();
    let _b = avg(&v, None).unwrap();
    assert_eq!(v.text(), "{job=\"x\"}");
}

#[test]
fn range_vector_appends_the_range() {
    let s = Selector::new().metric("up");
    let v = instant_vector(&s).unwrap();
    let r = range_vector(&v, "5m").unwrap();
    assert_eq!(r.text(), "up{}[5m]");
    assert!(matches!(r.kind(), ExprKind::RangeVector));
}

#[test]
fn range_vector_rejects_a_bad_duration() {
    let s = Selector::new().metric("up");
    let v = instant_vector(&s).unwrap();
    match range_vector(&v, "5x") {
        Err(Error::InvalidDuration { .. }) => {}
        other => panic!("expected InvalidDuration, got {:?}", other),
    }
}

#[test]
fn range_vector_rejects_a_non_instant_vector() {
    let s = Selector::new().metric("up");
    let v = instant_vector(&s).unwrap();
    let r = range_vector(&v, "5m").unwrap();
    match range_vector(&r, "5m") {
        Err(Error::InvalidFunctionArgument { .. }) => {}
        other => panic!("expected InvalidFunctionArgument, got {:?}", other),
    }
}

#[test]
fn aggregation_rejects_a_scalar() {
    let e = scalar(42);
    assert_eq!(e.text(), "42");
    match sum(&e, None) {
        Err(Error::InvalidFunctionArgument { message }) => {
            assert_eq!(message, "aggregation requires a vector expression");
        }
        other => panic!("expected InvalidFunctionArgument, got {:?}", other),
    }
}

#[test]
fn aggregation_rejects_a_range_vector() {
    let s = Selector::new().metric("up");
    let v = instant_vector(&s).unwrap();
    let r = range_vector(&v, "1h").unwrap();
    assert!(matches!(
        sum(&r, None),
        Err(Error::InvalidFunctionArgument { .. })
    ));
}

#[test]
fn scalar_renders_negative_values() {
    assert_eq!(scalar(-7).text(), "-7");
    assert_eq!(scalar(0).text(), "0");
    assert_eq!(scalar(i64::MIN).text(), "-9223372036854775808");
}
