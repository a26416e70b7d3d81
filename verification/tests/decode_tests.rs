use prometheus_http_query::error::Error;
use prometheus_http_query::json::JsonValue;
use prometheus_http_query::response::{
    decode_data_body, decode_label_sets, decode_labels, decode_query_body, decode_string_array,
    decode_url_list, decode_warnings, obj_field, QueryResultType, ResultType, Status,
};

#[test]
fn alertmanager_lists_decode_to_urls() {
    let body = r#"{"status":"success","data":{"activeAlertmanagers":[{"url":"http://a:9093/api/v1/alerts"}],"droppedAlertmanagers":[]}}"#;
    let data = decode_data_body(body).expect("success envelope");
    let active = decode_url_list(obj_field(&data, "activeAlertmanagers").unwrap()).unwrap();
    assert_eq!(active, vec!["http://a:9093/api/v1/alerts"]);
    let dropped = decode_url_list(obj_field(&data, "droppedAlertmanagers").unwrap()).unwrap();
    assert!(dropped.is_empty());
}

#[test]
fn alertmanager_entry_without_url_is_rejected() {
    let body = r#"{"status":"success","data":{"activeAlertmanagers":[{"address":"x"}]}}"#;
    let data = decode_data_body(body).expect("success envelope");
    let active = obj_field(&data, "activeAlertmanagers").unwrap();
    assert!(matches!(decode_url_list(active), Err(Error::MissingField)));
}

#[test]
fn scalar_result_decodes() {
    let body = r#"{"status":"success","data":{"resultType":"scalar","result":[1617960600,"1"]}}"#;
    match decode_query_body(body) {
        Ok(QueryResultType::Scalar(s)) => {
            assert_eq!(s.timestamp, "1617960600");
            assert_eq!(s.value, "1");
        }
        other => panic!("expected a scalar result, got {:?}", other),
    }
}

#[test]
fn test_deserialize() {
    // A successful vector envelope with one member carrying three labels
    // and the sample [1617960600, "1"].
    let body = r#"{"status":"success","data":{"resultType":"vector","result":[{"metric":{"instance":"localhost:9090","__name__":"up","job":"prometheus"},"value":[1617960600,"1"]}]}}"#;
    match decode_query_body(body) {
        Ok(QueryResultType::Vector(ms)) => {
            assert_eq!(ms.len(), 1);
            // object keys arrive sorted
            assert_eq!(
                ms[0].labels,
                vec![
                    (String::from("__name__"), String::from("up")),
                    (String::from("instance"), String::from("localhost:9090")),
                    (String::from("job"), String::from("prometheus")),
                ]
            );
            assert_eq!(ms[0].value.timestamp, "1617960600");
            assert_eq!(ms[0].value.value, "1");
        }
        other => panic!("expected a vector result, got {:?}", other),
    }
}

#[test]
fn matrix_result_decodes() {
    let body = r#"{"status":"success","data":{"resultType":"matrix","result":[{"metric":{"job":"node"},"values":[[1,"0.5"],[2,"0.75"]]}]}}"#;
    match decode_query_body(body) {
        Ok(QueryResultType::Matrix(ss)) => {
            assert_eq!(ss.len(), 1);
            assert_eq!(ss[0].labels, vec![(String::from("job"), String::from("node"))]);
            assert_eq!(ss[0].samples.len(), 2);
            assert_eq!(ss[0].samples[0].timestamp, "1");
            assert_eq!(ss[0].samples[0].value, "0.5");
            assert_eq!(ss[0].samples[1].timestamp, "2");
            assert_eq!(ss[0].samples[1].value, "0.75");
        }
        other => panic!("expected a matrix result, got {:?}", other),
    }
}

#[test]
fn error_envelope_is_classified_as_api_error() {
    let body = r#"{"status":"error","errorType":"bad_data","error":"invalid query"}"#;
    match decode_query_body(body) {
        Err(Error::ApiError { kind, message }) => {
            assert_eq!(kind, "bad_data");
            assert_eq!(message, "invalid query");
        }
        other => panic!("expected ApiError, got {:?}", other),
    }
    // the envelope-unwrapping path of every other operation classifies it
    // the same way, without ever looking for a result type
    match decode_data_body(body) {
        Err(Error::ApiError { kind, message }) => {
            assert_eq!(kind, "bad_data");
            assert_eq!(message, "invalid query");
        }
        other => panic!("expected ApiError, got {:?}", other),
    }
}

#[test]
fn unsupported_result_type_fails_closed() {
    let body = r#"{"status":"success","data":{"resultType":"histogram","result":{}}}"#;
    match decode_query_body(body) {
        Err(Error::UnsupportedResultType { raw }) => {
            assert_eq!(raw, "histogram");
        }
        other => panic!("expected UnsupportedResultType, got {:?}", other),
    }
}

#[test]
fn string_result_type_is_not_dispatched() {
    let body = r#"{"status":"success","data":{"resultType":"string","result":[1,"x"]}}"#;
    assert!(matches!(
        decode_query_body(body),
        Err(Error::UnsupportedResultType { .. })
    ));
}

#[test]
fn unknown_status_is_reported_verbatim() {
    let body = r#"{"status":"pending"}"#;
    match decode_query_body(body) {
        Err(Error::UnknownStatus { raw }) => {
            assert_eq!(raw, "pending");
        }
        other => panic!("expected UnknownStatus, got {:?}", other),
    }
}

#[test]
fn missing_envelope_fields_are_reported() {
    assert!(matches!(
        decode_query_body(r#"{"data":{}}"#),
        Err(Error::MissingField)
    ));
    assert!(matches!(
        decode_query_body(r#"{"status":"success"}"#),
        Err(Error::MissingField)
    ));
    assert!(matches!(
        decode_query_body(r#"{"status":"error","error":"x"}"#),
        Err(Error::MissingField)
    ));
    assert!(matches!(
        decode_query_body(r#"{"status":"error","errorType":"x"}"#),
        Err(Error::MissingField)
    ));
}

#[test]
fn missing_result_fields_are_reported() {
    assert!(matches!(
        decode_query_body(r#"{"status":"success","data":{"result":[]}}"#),
        Err(Error::MissingField)
    ));
    assert!(matches!(
        decode_query_body(r#"{"status":"success","data":{"resultType":"vector"}}"#),
        Err(Error::MissingField)
    ));
}

#[test]
fn malformed_bodies_are_decode_errors() {
    assert!(matches!(decode_query_body("not json"), Err(Error::DecodeError)));
    assert!(matches!(decode_query_body("[1,2]"), Err(Error::DecodeError)));
    assert!(matches!(
        decode_query_body(r#"{"status":42}"#),
        Err(Error::DecodeError)
    ));
    assert!(matches!(
        decode_query_body(r#"{"status":"success","data":7}"#),
        Err(Error::DecodeError)
    ));
    assert!(matches!(
        decode_query_body(
            r#"{"status":"success","data":{"resultType":"scalar","result":["x","1"]}}"#
        ),
        Err(Error::DecodeError)
    ));
    assert!(matches!(
        decode_query_body(
            r#"{"status":"success","data":{"resultType":"vector","result":[{"metric":{},"value":[1,2]}]}}"#
        ),
        Err(Error::DecodeError)
    ));
}

#[test]
fn series_payload_decodes_to_label_sets() {
    let body = r#"{"status":"success","data":[{"__name__":"up","job":"node"},{"handler":"/api/v1/query"}]}"#;
    let data = decode_data_body(body).expect("success envelope");
    let sets = decode_label_sets(&data).expect("label sets");
    assert_eq!(sets.len(), 2);
    assert_eq!(
        sets[0],
        vec![
            (String::from("__name__"), String::from("up")),
            (String::from("job"), String::from("node")),
        ]
    );
    assert_eq!(
        sets[1],
        vec![(String::from("handler"), String::from("/api/v1/query"))]
    );
}

#[test]
fn label_names_payload_decodes_to_strings() {
    let body = r#"{"status":"success","data":["__name__","instance","job"]}"#;
    let data = decode_data_body(body).expect("success envelope");
    let names = decode_string_array(&data).expect("string array");
    assert_eq!(names, vec!["__name__", "instance", "job"]);
}

#[test]
fn flags_payload_decodes_to_a_string_map() {
    let body = r#"{"status":"success","data":{"alertmanager.notification-queue-capacity":"10000"}}"#;
    let data = decode_data_body(body).expect("success envelope");
    let flags = decode_labels(&data).expect("string map");
    assert_eq!(
        flags,
        vec![(
            String::from("alertmanager.notification-queue-capacity"),
            String::from("10000")
        )]
    );
}

#[test]
fn nested_payload_fields_are_reachable() {
    let body = r#"{"status":"success","data":{"groups":[]}}"#;
    let data = decode_data_body(body).expect("success envelope");
    assert!(obj_field(&data, "groups").is_ok());
    assert!(matches!(obj_field(&data, "alerts"), Err(Error::MissingField)));
    let arr_body = r#"{"status":"success","data":[1]}"#;
    let arr = decode_data_body(arr_body).expect("success envelope");
    assert!(matches!(obj_field(&arr, "groups"), Err(Error::DecodeError)));
}

#[test]
fn mixed_type_string_array_is_rejected() {
    let body = r#"{"status":"success","data":["job",7]}"#;
    let data = decode_data_body(body).expect("success envelope");
    assert!(matches!(decode_string_array(&data), Err(Error::DecodeError)));
}

#[test]
fn warnings_are_read_when_present() {
    let body = r#"{"status":"success","data":[],"warnings":["w1","w2"]}"#;
    // warnings sit beside data in the envelope itself
    let envelope = JsonValue::Obj(vec![
        (String::from("warnings"), JsonValue::Arr(vec![
            JsonValue::Str(String::from("w1")),
            JsonValue::Str(String::from("w2")),
        ])),
    ]);
    assert_eq!(
        decode_warnings(&envelope).unwrap(),
        Some(vec![String::from("w1"), String::from("w2")])
    );
    let none = JsonValue::Obj(Vec::new());
    assert_eq!(decode_warnings(&none).unwrap(), None);
    // a warnings-carrying success envelope still unwraps to its data
    assert!(decode_data_body(body).is_ok());
}

#[test]
fn status_tokens_round_trip() {
    assert_eq!(Status::Success.as_str(), "success");
    assert_eq!(Status::Error.as_str(), "error");
    assert!(matches!(Status::from_token("success"), Some(Status::Success)));
    assert!(matches!(Status::from_token("error"), Some(Status::Error)));
    assert!(Status::from_token("pending").is_none());
}

#[test]
fn result_type_tokens_round_trip() {
    assert_eq!(ResultType::Matrix.as_str(), "matrix");
    assert_eq!(ResultType::Vector.as_str(), "vector");
    assert_eq!(ResultType::Scalar.as_str(), "scalar");
    assert_eq!(ResultType::String.as_str(), "string");
    assert!(matches!(
        ResultType::from_token("vector"),
        Some(ResultType::Vector)
    ));
    assert!(ResultType::from_token("histogram").is_none());
}
