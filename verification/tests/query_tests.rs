use prometheus_http_query::error::Error;
use prometheus_http_query::query::{
    check_status, label_values_path, match_params, metric_metadata_params, query_params,
    query_range_params, rules_params, series_params, target_metadata_params, targets_params,
    InstantQuery, RangeQuery, RuleType, TargetState,
};
use prometheus_http_query::selector::Selector;

fn pairs(ps: &[(String, String)]) -> Vec<(&str, &str)> {
    ps.iter().map(|p| (p.0.as_str(), p.1.as_str())).collect()
}

#[test]
fn instant_query_serializes_all_parameters() {
    let q = InstantQuery {
        query: String::from("up"),
        time: Some(String::from("1617960600")),
        timeout: Some(String::from("30s")),
    };
    assert_eq!(
        pairs(&q.get_query_params()),
        vec![("query", "up"), ("time", "1617960600"), ("timeout", "30s")]
    );
}

#[test]
fn instant_query_omits_absent_parameters() {
    let q = InstantQuery { query: String::from("up"), time: None, timeout: None };
    assert_eq!(pairs(&q.get_query_params()), vec![("query", "up")]);
}

#[test]
fn range_query_serializes_all_parameters() {
    let q = RangeQuery {
        query: String::from("up"),
        start: String::from("1"),
        end: String::from("2"),
        step: String::from("15s"),
        timeout: None,
    };
    assert_eq!(
        pairs(&q.get_query_params()),
        vec![("query", "up"), ("start", "1"), ("end", "2"), ("step", "15s")]
    );
}

#[test]
fn query_params_renders_time_in_decimal() {
    let ps = query_params("up", Some(-5), Some("1m")).unwrap();
    assert_eq!(
        pairs(&ps),
        vec![("query", "up"), ("time", "-5"), ("timeout", "1m")]
    );
    let ps = query_params("up", None, None).unwrap();
    assert_eq!(pairs(&ps), vec![("query", "up")]);
}

#[test]
fn query_params_rejects_a_bad_timeout() {
    assert!(matches!(
        query_params("up", None, Some("30")),
        Err(Error::InvalidDuration { .. })
    ));
}

#[test]
fn query_range_params_serializes_the_window() {
    let ps = query_range_params("up", 1617960600, 1617960900, "15s", Some("30s")).unwrap();
    assert_eq!(
        pairs(&ps),
        vec![
            ("query", "up"),
            ("start", "1617960600"),
            ("end", "1617960900"),
            ("step", "15s"),
            ("timeout", "30s"),
        ]
    );
}

#[test]
fn query_range_params_rejects_a_reversed_window() {
    match query_range_params("up", 10, 5, "15s", None) {
        Err(Error::InvalidFunctionArgument { message }) => {
            assert_eq!(message, "a range query requires start <= end");
        }
        other => panic!("expected InvalidFunctionArgument, got {:?}", other),
    }
}

#[test]
fn query_range_params_rejects_bad_durations() {
    assert!(matches!(
        query_range_params("up", 1, 2, "0s", None),
        Err(Error::InvalidDuration { .. })
    ));
    assert!(matches!(
        query_range_params("up", 1, 2, "15s", Some("x")),
        Err(Error::InvalidDuration { .. })
    ));
}

#[test]
fn series_params_requires_a_selector() {
    let none: Vec<Selector> = Vec::new();
    match series_params(&none, None, None) {
        Err(Error::InvalidFunctionArgument { message }) => {
            assert!(message.contains("match[]"));
        }
        other => panic!("expected InvalidFunctionArgument, got {:?}", other),
    }
}

#[test]
fn series_params_renders_each_selector_independently() {
    let s1 = Selector::new().with("handler", "/api/v1/query");
    let s2 = Selector::new().with("job", "node").regex_match("mode", ".+");
    let ps = series_params(&vec![s1, s2], Some(1), Some(2)).unwrap();
    assert_eq!(
        pairs(&ps),
        vec![
            ("start", "1"),
            ("end", "2"),
            ("match[]", "{handler=\"/api/v1/query\"}"),
            ("match[]", "{job=\"node\",mode=~\".+\"}"),
        ]
    );
}

#[test]
fn series_entries_carry_no_range_suffix() {
    // a selector renders structurally: its matcher text closes with the
    // brace, and nothing of any surrounding expression can follow it
    let s = Selector::new().metric("up").with("job", "node");
    let ps = series_params(&vec![s], None, None).unwrap();
    assert_eq!(pairs(&ps), vec![("match[]", "up{job=\"node\"}")]);
    assert!(ps[0].1.ends_with('}'));
}

#[test]
fn match_params_accepts_an_absent_selector_list() {
    let ps = match_params(None, Some(7), None);
    assert_eq!(pairs(&ps), vec![("start", "7")]);
}

#[test]
fn targets_and_rules_params_render_their_filters() {
    assert_eq!(
        pairs(&targets_params(Some(TargetState::Active))),
        vec![("state", "active")]
    );
    assert_eq!(
        pairs(&targets_params(Some(TargetState::Dropped))),
        vec![("state", "dropped")]
    );
    assert_eq!(pairs(&targets_params(Some(TargetState::Any))), vec![("state", "any")]);
    assert!(targets_params(None).is_empty());
    assert_eq!(
        pairs(&rules_params(Some(RuleType::Alert))),
        vec![("type", "alert")]
    );
    assert_eq!(
        pairs(&rules_params(Some(RuleType::Record))),
        vec![("type", "record")]
    );
    assert!(rules_params(None).is_empty());
}

#[test]
fn metadata_params_render_metric_selector_and_limit() {
    let s = Selector::new().with("job", "prometheus");
    let ps = target_metadata_params(Some("go_routines"), Some(&s), Some(10));
    assert_eq!(
        pairs(&ps),
        vec![
            ("metric", "go_routines"),
            ("match_target", "{job=\"prometheus\"}"),
            ("limit", "10"),
        ]
    );
    let ps = metric_metadata_params(None, Some(3));
    assert_eq!(pairs(&ps), vec![("limit", "3")]);
}

#[test]
fn label_values_path_embeds_the_label() {
    assert_eq!(label_values_path("job"), "/label/job/values");
}

#[test]
fn check_status_accepts_exactly_2xx() {
    assert!(check_status(200).is_ok());
    assert!(check_status(204).is_ok());
    assert!(check_status(299).is_ok());
    for code in [199u16, 300, 404, 500] {
        match check_status(code) {
            Err(Error::TransportError { status }) => assert_eq!(status, code),
            other => panic!("expected TransportError, got {:?}", other),
        }
    }
}

#[test]
fn error_kinds_have_stable_names() {
    assert_eq!(Error::MissingField.kind_name(), "missing field");
    assert_eq!(Error::DecodeError.kind_name(), "decode error");
    assert_eq!(
        Error::UnknownStatus { raw: String::from("x") }.kind_name(),
        "unknown response status"
    );
}
