use prometheus_http_query::selector::{parse_matchers, MatchOp, Selector};

#[test]
fn renders_empty_selector_as_bare_braces() {
    let s = Selector::new();
    assert_eq!(s.render(), "{}");
    assert!(s.is_empty());
}

#[test]
fn renders_metric_before_braces() {
    let s = Selector::new().metric("node_cpu_seconds_total");
    assert_eq!(s.render(), "node_cpu_seconds_total{}");
    assert!(!s.is_empty());
}

#[test]
fn renders_all_four_operators() {
    let s = Selector::new()
        .with("a", "1")
        .without("b", "2")
        .regex_match("c", "3.*")
        .regex_no_match("d", "4.+");
    assert_eq!(s.render(), "{a=\"1\",b!=\"2\",c=~\"3.*\",d!~\"4.+\"}");
}

#[test]
fn escapes_quotes_and_backslashes_in_values() {
    let s = Selector::new().with("path", "C:\\dir\\\"x\"");
    assert_eq!(s.render(), "{path=\"C:\\\\dir\\\\\\\"x\\\"\"}");
}

#[test]
fn matcher_text_leaves_the_metric_name_out() {
    let s = Selector::new().metric("up").with("job", "prometheus");
    assert_eq!(s.matcher_text(), "{job=\"prometheus\"}");
    assert_eq!(s.render(), "up{job=\"prometheus\"}");
}

#[test]
fn parses_rendered_matcher_text_back() {
    let s = Selector::new()
        .with("job", "node")
        .regex_match("mode", ".+")
        .without("cpu", "0");
    let text = s.matcher_text();
    let parsed = parse_matchers(&text).expect("matcher text parses");
    assert_eq!(parsed.len(), 3);
    assert_eq!(parsed[0].label, "job");
    assert!(matches!(parsed[0].op, MatchOp::Equal));
    assert_eq!(parsed[0].value, "node");
    assert_eq!(parsed[1].label, "mode");
    assert!(matches!(parsed[1].op, MatchOp::RegexMatch));
    assert_eq!(parsed[1].value, ".+");
    assert_eq!(parsed[2].label, "cpu");
    assert!(matches!(parsed[2].op, MatchOp::NotEqual));
    assert_eq!(parsed[2].value, "0");
}

#[test]
fn parses_escaped_values_back_to_the_original() {
    let s = Selector::new().with("path", "a\\b\"c,}");
    let text = s.matcher_text();
    let parsed = parse_matchers(&text).expect("escaped value parses");
    assert_eq!(parsed.len(), 1);
    assert_eq!(parsed[0].label, "path");
    assert_eq!(parsed[0].value, "a\\b\"c,}");
}

#[test]
fn parses_empty_matcher_set() {
    let parsed = parse_matchers("{}").expect("empty set parses");
    assert!(parsed.is_empty());
}

#[test]
fn rejects_malformed_matcher_text() {
    assert!(parse_matchers("").is_none());
    assert!(parse_matchers("up").is_none());
    assert!(parse_matchers("{a=}").is_none());
    assert!(parse_matchers("{a=\"1\"").is_none());
    assert!(parse_matchers("{a=\"1\"}junk").is_none());
    assert!(parse_matchers("{=\"1\"}").is_none());
    assert!(parse_matchers("{a!\"1\"}").is_none());
}

#[test]
fn fluent_chaining_keeps_order() {
    let s = Selector::new().with("z", "1").with("a", "2");
    assert_eq!(s.render(), "{z=\"1\",a=\"2\"}");
    assert_eq!(s.matcher_count(), 2);
}

#[test]
fn rendering_is_repeatable() {
    let s = Selector::new().metric("up").with("job", "x");
    assert_eq!(s.render(), s.render());
}
