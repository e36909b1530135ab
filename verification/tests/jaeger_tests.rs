use jaeger_mcp::config::Config;
use jaeger_mcp::jaeger::{
    classify_status, decode_body, find_traces_plan, is_valid_trace_id, operations_plan, trace_plan,
    ClientError, FindTracesQuery, JaegerClient, JaegerError, JsonBody, ResponseStep, Timestamp,
    MAX_TIMESTAMP_SECS, MIN_TIMESTAMP_SECS,
};

fn pairs(params: &[(String, String)]) -> Vec<(&str, &str)> {
    params.iter().map(|(k, v)| (k.as_str(), v.as_str())).collect()
}

fn client() -> JaegerClient {
    let config = Config { url: "http://localhost".to_string(), port: 16686, authorization_header: None };
    JaegerClient::new(config).unwrap()
}

#[test]
fn valid_trace_id_accepts_32_hex() {
    assert!(is_valid_trace_id("a1b2c3d4e5f6a7b8c9d0e1f2a3b4c5d6"));
}

#[test]
fn invalid_trace_id_rejects_short() {
    assert!(!is_valid_trace_id("abc123"));
}

#[test]
fn invalid_trace_id_rejects_non_hex() {
    assert!(!is_valid_trace_id("zzzzzzzzzzzzzzzzzzzzzzzzzzzzzzzz"));
}

#[test]
fn invalid_trace_id_rejects_empty() {
    assert!(!is_valid_trace_id(""));
}

#[test]
fn trace_id_accepts_upper_case_and_rejects_33_or_unicode() {
    assert!(is_valid_trace_id("A1B2C3D4E5F6A7B8C9D0E1F2A3B4C5D6"));
    assert!(!is_valid_trace_id("a1b2c3d4e5f6a7b8c9d0e1f2a3b4c5d6a"));
    assert!(!is_valid_trace_id("a1b2c3d4e5f6a7b8c9d0e1f2a3b4c5dé"));
    assert!(!is_valid_trace_id("g1b2c3d4e5f6a7b8c9d0e1f2a3b4c5d6"));
}

#[test]
fn client_base_url_and_header() {
    let config = Config {
        url: "https://jaeger.example.com".to_string(),
        port: 443,
        authorization_header: Some("Bearer abc\tdef".to_string()),
    };
    let c = JaegerClient::new(config).unwrap();
    assert_eq!(c.base_url(), "https://jaeger.example.com:443");
    assert_eq!(c.authorization_header().as_deref(), Some("Bearer abc\tdef"));
}

#[test]
fn client_rejects_invalid_header_value() {
    for bad in ["Bearer\nx", "a\u{7f}b", "\u{1}"] {
        let config = Config { url: "http://h".to_string(), port: 1, authorization_header: Some(bad.to_string()) };
        assert!(matches!(JaegerClient::new(config), Err(ClientError::InvalidAuthorizationHeader)));
    }
}

#[test]
fn client_accepts_non_ascii_header_value() {
    let config = Config { url: "http://h".to_string(), port: 1, authorization_header: Some("Bearer é".to_string()) };
    assert!(JaegerClient::new(config).is_ok());
}

#[test]
fn services_request_url() {
    let r = client().services_request();
    assert_eq!(r.url, "http://localhost:16686/api/v3/services");
    assert!(r.params.is_empty());
}

#[test]
fn operations_request_lowercases_span_kind() {
    let r = client().operations_request("frontend", Some("SERVER"));
    assert_eq!(r.url, "http://localhost:16686/api/v3/operations");
    assert_eq!(pairs(&r.params), vec![("service", "frontend"), ("span_kind", "server")]);
    let r = client().operations_request("frontend", None);
    assert_eq!(pairs(&r.params), vec![("service", "frontend")]);
}

#[test]
fn operations_plan_keeps_given_kind() {
    let r = operations_plan("http://h:1", "svc", Some("Client".to_string()));
    assert_eq!(r.url, "http://h:1/api/v3/operations");
    assert_eq!(pairs(&r.params), vec![("service", "svc"), ("span_kind", "Client")]);
}

#[test]
fn trace_request_rejects_invalid_id() {
    let r = client().trace_request("abc", None, None);
    assert!(matches!(r, Err(JaegerError::InvalidTraceId)));
}

#[test]
fn trace_request_with_bounds_in_rfc3339() {
    let start = Timestamp::new(0, 0).unwrap();
    let end = Timestamp::new(1_784_678_400, 500_000_000).unwrap();
    let r = client()
        .trace_request("a1b2c3d4e5f6a7b8c9d0e1f2a3b4c5d6", Some(start), Some(end))
        .unwrap();
    assert_eq!(r.url, "http://localhost:16686/api/v3/traces/a1b2c3d4e5f6a7b8c9d0e1f2a3b4c5d6");
    assert_eq!(
        pairs(&r.params),
        vec![("startTime", "1970-01-01T00:00:00+00:00"), ("endTime", "2026-07-22T00:00:00.500+00:00")]
    );
}

#[test]
fn trace_plan_without_bounds() {
    let r = trace_plan("b", "00000000000000000000000000000000", None, Some("t".to_string())).unwrap();
    assert_eq!(r.url, "b/api/v3/traces/00000000000000000000000000000000");
    assert_eq!(pairs(&r.params), vec![("endTime", "t")]);
    assert!(matches!(trace_plan("b", "0", None, None), Err(JaegerError::InvalidTraceId)));
}

#[test]
fn timestamp_range_follows_chrono() {
    assert!(Timestamp::new(MIN_TIMESTAMP_SECS, 0).is_some());
    assert!(Timestamp::new(MIN_TIMESTAMP_SECS - 1, 999_999_999).is_none());
    assert!(Timestamp::new(MAX_TIMESTAMP_SECS, 1_999_999_999).is_some());
    assert!(Timestamp::new(MAX_TIMESTAMP_SECS + 1, 0).is_none());
    assert!(Timestamp::new(59, 1_500_000_000).is_some());
    assert!(Timestamp::new(58, 1_500_000_000).is_none());
    assert!(Timestamp::new(-1, 1_000_000_000).is_some());
    assert!(Timestamp::new(0, 2_000_000_000).is_none());
    for (secs, nanos) in [
        (MIN_TIMESTAMP_SECS, 0u32),
        (MIN_TIMESTAMP_SECS - 1, 0),
        (MAX_TIMESTAMP_SECS, 999_999_999),
        (MAX_TIMESTAMP_SECS + 1, 0),
        (59, 1_500_000_000),
        (58, 1_500_000_000),
        (-61, 1_000_000_000),
    ] {
        assert_eq!(
            Timestamp::new(secs, nanos).is_some(),
            chrono::DateTime::from_timestamp(secs, nanos).is_some(),
            "{secs} {nanos}"
        );
    }
    let t = Timestamp::new(-5, 7).unwrap();
    assert_eq!((t.secs(), t.nanos()), (-5, 7));
}

#[test]
fn timestamp_formats_leap_second() {
    let t = Timestamp::new(59, 1_000_000_000).unwrap();
    assert_eq!(t.to_rfc3339(), "1970-01-01T00:00:60+00:00");
}

fn query() -> FindTracesQuery {
    FindTracesQuery {
        service_name: "frontend".to_string(),
        operation_name: Some("GET /".to_string()),
        attributes: Some(vec![
            ("http.status_code".to_string(), "200".to_string()),
            ("error".to_string(), "true".to_string()),
        ]),
        start_time_min: Timestamp::new(1_784_678_400, 0).unwrap(),
        start_time_max: Timestamp::new(1_784_682_000, 0).unwrap(),
        duration_min: Some("0.100s".to_string()),
        duration_max: None,
        search_depth: Some(20),
    }
}

#[test]
fn find_traces_request_params_in_order() {
    let r = client().find_traces_request(&query());
    assert_eq!(r.url, "http://localhost:16686/api/v3/traces");
    assert_eq!(
        pairs(&r.params),
        vec![
            ("query.service_name", "frontend"),
            ("query.start_time_min", "2026-07-22T00:00:00+00:00"),
            ("query.start_time_max", "2026-07-22T01:00:00+00:00"),
            ("query.operation_name", "GET /"),
            ("query.duration_min", "0.100s"),
            ("query.search_depth", "20"),
            ("query.attributes[http.status_code]", "200"),
            ("query.attributes[error]", "true"),
        ]
    );
}

#[test]
fn find_traces_plan_minimal() {
    let mut q = query();
    q.operation_name = None;
    q.attributes = None;
    q.duration_min = None;
    q.search_depth = None;
    let r = find_traces_plan("b", &q, "x".to_string(), "y".to_string());
    assert_eq!(r.url, "b/api/v3/traces");
    assert_eq!(
        pairs(&r.params),
        vec![("query.service_name", "frontend"), ("query.start_time_min", "x"), ("query.start_time_max", "y")]
    );
}

#[test]
fn classify_status_cases() {
    assert_eq!(classify_status(404), ResponseStep::EmptyObject);
    assert_eq!(classify_status(200), ResponseStep::ReadJson);
    assert_eq!(classify_status(204), ResponseStep::ReadJson);
    assert_eq!(classify_status(299), ResponseStep::ReadJson);
    assert_eq!(classify_status(300), ResponseStep::Failure);
    assert_eq!(classify_status(199), ResponseStep::Failure);
    assert_eq!(classify_status(500), ResponseStep::Failure);
}

#[test]
fn decode_body_cases() {
    assert!(matches!(decode_body(""), Ok(JsonBody::EmptyObject)));
    match decode_body("{\"result\": [1, 2]}") {
        Ok(JsonBody::Json(v)) => assert_eq!(v.to_string(), "{\"result\":[1,2]}"),
        other => panic!("unexpected {other:?}"),
    }
    assert!(matches!(decode_body("not json"), Err(JaegerError::ParseError(_))));
    assert!(matches!(decode_body(" "), Err(JaegerError::ParseError(_))));
}

#[test]
fn json_body_from_parsed_keeps_value_or_error() {
    let ok = serde_json::from_str::<serde_json::Value>("[true]");
    match jaeger_mcp::jaeger::json_body_from_parsed(ok) {
        Ok(JsonBody::Json(v)) => assert_eq!(v, serde_json::Value::Array(vec![serde_json::Value::Bool(true)])),
        other => panic!("unexpected {other:?}"),
    }
    let bad = serde_json::from_str::<serde_json::Value>("[");
    assert!(matches!(jaeger_mcp::jaeger::json_body_from_parsed(bad), Err(JaegerError::ParseError(_))));
}

#[test]
fn request_failed_carries_status_and_body() {
    match jaeger_mcp::jaeger::request_failed(500, Some("boom".to_string())) {
        JaegerError::RequestFailed { status, body } => {
            assert_eq!(status, 500);
            assert_eq!(body, "boom");
        }
        other => panic!("unexpected {other:?}"),
    }
    match jaeger_mcp::jaeger::request_failed(503, None) {
        JaegerError::RequestFailed { status, body } => {
            assert_eq!(status, 503);
            assert_eq!(body, "");
        }
        other => panic!("unexpected {other:?}"),
    }
}
