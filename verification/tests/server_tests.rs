use jaeger_mcp::jaeger::{FindTracesQuery, Timestamp};
use jaeger_mcp::server::{
    find_traces_query, json_scalar_to_string, AttributeValue, FindTracesArgs, GetOperationsArgs,
    GetTraceArgs, DEFAULT_SEARCH_DEPTH,
};

fn args(depth: Option<u32>) -> FindTracesArgs {
    FindTracesArgs {
        service_name: "frontend".to_string(),
        operation_name: None,
        attributes: Some(vec![
            ("a".to_string(), AttributeValue::String("x".to_string())),
            ("b".to_string(), AttributeValue::Number("1.5".to_string())),
            ("c".to_string(), AttributeValue::Bool(true)),
            ("d".to_string(), AttributeValue::Null),
            ("e".to_string(), AttributeValue::Composite("[1,2]".to_string())),
        ]),
        start_time_min: Timestamp::new(0, 0).unwrap(),
        start_time_max: Timestamp::new(60, 0).unwrap(),
        duration_min: None,
        duration_max: Some("1.500s".to_string()),
        search_depth: depth,
    }
}

#[test]
fn json_scalar_to_string_cases() {
    assert_eq!(json_scalar_to_string(&AttributeValue::String("x y".to_string())), "x y");
    assert_eq!(json_scalar_to_string(&AttributeValue::Bool(false)), "false");
    assert_eq!(json_scalar_to_string(&AttributeValue::Bool(true)), "true");
    assert_eq!(json_scalar_to_string(&AttributeValue::Null), "null");
    assert_eq!(json_scalar_to_string(&AttributeValue::Number("42".to_string())), "42");
    assert_eq!(json_scalar_to_string(&AttributeValue::Composite("{\"k\":1}".to_string())), "{\"k\":1}");
}

#[test]
fn search_depth_defaults_to_20() {
    let q: FindTracesQuery = find_traces_query(&args(None));
    assert_eq!(q.search_depth, Some(20));
    assert_eq!(DEFAULT_SEARCH_DEPTH, 20);
    let q = find_traces_query(&args(Some(5)));
    assert_eq!(q.search_depth, Some(5));
}

#[test]
fn find_traces_query_stringifies_attributes() {
    let q = find_traces_query(&args(None));
    assert_eq!(q.service_name, "frontend");
    assert_eq!(q.operation_name, None);
    assert_eq!(q.duration_max.as_deref(), Some("1.500s"));
    assert_eq!(q.start_time_max.secs(), 60);
    let attrs: Vec<(&str, &str)> =
        q.attributes.as_ref().unwrap().iter().map(|(k, v)| (k.as_str(), v.as_str())).collect();
    assert_eq!(attrs, vec![("a", "x"), ("b", "1.5"), ("c", "true"), ("d", "null"), ("e", "[1,2]")]);
    let mut none = args(None);
    none.attributes = None;
    assert!(find_traces_query(&none).attributes.is_none());
}

#[test]
fn tool_argument_types_hold_their_fields() {
    let a = GetOperationsArgs { service: "s".to_string(), span_kind: Some("client".to_string()) };
    assert_eq!(a.service, "s");
    let t = GetTraceArgs { trace_id: "0".repeat(32), start_time: None, end_time: Timestamp::new(1, 0) };
    assert_eq!(t.end_time.unwrap().secs(), 1);
}

#[test]
fn tool_search_sends_depth_and_attributes() {
    let config = jaeger_mcp::config::Config {
        url: "http://localhost".to_string(),
        port: 16686,
        authorization_header: None,
    };
    let client = jaeger_mcp::jaeger::JaegerClient::new(config).unwrap();
    let q = find_traces_query(&args(None));
    let r = client.find_traces_request(&q);
    let params: Vec<(&str, &str)> = r.params.iter().map(|(k, v)| (k.as_str(), v.as_str())).collect();
    assert!(params.contains(&("query.search_depth", "20")));
    assert!(params.contains(&("query.attributes[a]", "x")));
    assert!(params.contains(&("query.attributes[c]", "true")));
    assert!(params.contains(&("query.attributes[e]", "[1,2]")));
    assert!(params.contains(&("query.duration_max", "1.500s")));
    assert!(params.contains(&("query.start_time_min", "1970-01-01T00:00:00+00:00")));
    assert!(params.contains(&("query.start_time_max", "1970-01-01T00:01:00+00:00")));
}

#[test]
fn distinct_keys_stay_distinct_in_the_search() {
    let q = find_traces_query(&args(None));
    let client = jaeger_mcp::jaeger::JaegerClient::new(jaeger_mcp::config::Config {
        url: "http://h".to_string(),
        port: 1,
        authorization_header: None,
    })
    .unwrap();
    let r = client.find_traces_request(&q);
    let mut names: Vec<&str> = r
        .params
        .iter()
        .map(|(k, _)| k.as_str())
        .filter(|k| k.starts_with("query.attributes["))
        .collect();
    assert_eq!(names.len(), 5);
    names.sort();
    names.dedup();
    assert_eq!(names.len(), 5);
}
