//! The arguments of the MCP tools and the search that `find_traces` makes
//! of them.
use vstd::prelude::*;

use crate::jaeger::{
    attribute_param_name, law_find_traces_params_fields, find_traces_params, keys_distinct, optional_param, query_attributes, FindTracesQuery,
    Timestamp,
};
use crate::text::{decimal, opt_chars};

verus! {

/// Arguments of the `get_operations` tool.
#[derive(Debug)]
pub struct GetOperationsArgs {
    /// Filters operations by service name.
    pub service: String,
    /// Filters operations by OpenTelemetry span kind (`server`, `client`,
    /// `producer`, `consumer`, `internal`).
    pub span_kind: Option<String>,
}

/// Arguments of the `get_trace` tool.
#[derive(Debug)]
pub struct GetTraceArgs {
    /// OpenTelemetry-compatible trace id, 32-character hex string.
    pub trace_id: String,
    /// Start time bound (optional).
    pub start_time: Option<Timestamp>,
    /// End time bound (optional).
    pub end_time: Option<Timestamp>,
}

/// A JSON value given as an attribute filter.
#[derive(Debug)]
pub enum AttributeValue {
    /// `null`.
    Null,
    /// `true` or `false`.
    Bool(bool),
    /// A number, with its JSON text.
    Number(String),
    /// A string.
    String(String),
    /// An array or an object, with its JSON text.
    Composite(String),
}

/// Arguments of the `find_traces` tool.
#[derive(Debug)]
pub struct FindTracesArgs {
    /// Filters spans by service name.
    pub service_name: String,
    /// Filters spans by operation / span name (optional).
    pub operation_name: Option<String>,
    /// Attribute equality filters, in the order in which they are sent.
    /// Scalar values are stringified.
    pub attributes: Option<Vec<(String, AttributeValue)>>,
    /// Start of the interval (inclusive).
    pub start_time_min: Timestamp,
    /// End of the interval (exclusive).
    pub start_time_max: Timestamp,
    /// Minimum span duration, as `google.protobuf.Duration` JSON text
    /// (optional).
    pub duration_min: Option<String>,
    /// Maximum span duration, as `google.protobuf.Duration` JSON text
    /// (optional).
    pub duration_max: Option<String>,
    /// Maximum number of traces to return. Defaults to 20 when omitted.
    pub search_depth: Option<u32>,
}

/// The number of traces a search returns at most when the caller names no
/// bound.
pub const DEFAULT_SEARCH_DEPTH: u32 = 20;

/// The text an attribute value is sent as: a string as it is, anything else
/// as its JSON text.
pub open spec fn scalar_text(v: AttributeValue) -> Seq<char> {
    match v {
        AttributeValue::Null => "null"@,
        AttributeValue::Bool(true) => "true"@,
        AttributeValue::Bool(false) => "false"@,
        AttributeValue::Number(t) => t@,
        AttributeValue::String(s) => s@,
        AttributeValue::Composite(t) => t@,
    }
}

/// The attributes of the tool arguments, each value stringified.
pub open spec fn stringified_attributes(args: FindTracesArgs) -> Seq<(Seq<char>, Seq<char>)> {
    match args.attributes {
        Some(a) => a@.map_values(|p: (String, AttributeValue)| (p.0@, scalar_text(p.1))),
        None => seq![],
    }
}

/// Whether no attribute key of `args` occurs twice (as in the JSON object the
/// tool receives).
pub open spec fn attribute_keys_distinct(args: FindTracesArgs) -> bool {
    keys_distinct(stringified_attributes(args))
}

/// The search depth a search from `args` carries: the given one, else 20.
pub open spec fn effective_search_depth(args: FindTracesArgs) -> u32 {
    match args.search_depth {
        Some(d) => d,
        None => DEFAULT_SEARCH_DEPTH,
    }
}

/// Whether `q` is the search that the `find_traces` tool makes of `args`.
pub open spec fn query_from_args(args: FindTracesArgs, q: FindTracesQuery) -> bool {
    &&& q.service_name@ == args.service_name@
    &&& opt_chars(q.operation_name) == opt_chars(args.operation_name)
    &&& (q.attributes is Some <==> args.attributes is Some)
    &&& query_attributes(q) == stringified_attributes(args)
    &&& q.start_time_min@ == args.start_time_min@
    &&& q.start_time_max@ == args.start_time_max@
    &&& opt_chars(q.duration_min) == opt_chars(args.duration_min)
    &&& opt_chars(q.duration_max) == opt_chars(args.duration_max)
    &&& q.search_depth == Some(effective_search_depth(args))
}

/// The text sent for an attribute value: strings as they are, other values
/// as their JSON text.
pub fn json_scalar_to_string(v: &AttributeValue) -> (r: String)
    ensures
        r@ == scalar_text(*v),
{
    match v {
        AttributeValue::Null => String::from_str("null"),
        AttributeValue::Bool(b) => if *b {
            String::from_str("true")
        } else {
            String::from_str("false")
        },
        AttributeValue::Number(t) => t.clone(),
        AttributeValue::String(s) => s.clone(),
        AttributeValue::Composite(t) => t.clone(),
    }
}

/// The attributes with their values stringified.
fn stringify_attributes(attrs: &Vec<(String, AttributeValue)>) -> (r: Vec<(String, String)>)
    ensures
        r.deep_view() == attrs@.map_values(|p: (String, AttributeValue)| (p.0@, scalar_text(p.1))),
{
    let ghost f = |p: (String, AttributeValue)| (p.0@, scalar_text(p.1));
    let mut r: Vec<(String, String)> = Vec::new();
    let n = attrs.len();
    let mut i: usize = 0;
    while i < n
        invariant
            n == attrs@.len(),
            i <= n,
            f == (|p: (String, AttributeValue)| (p.0@, scalar_text(p.1))),
            r.deep_view() == attrs@.take(i as int).map_values(f),
        decreases n - i,
    {
        let (key, value) = &attrs[i];
        let text = json_scalar_to_string(value);
        let ghost before = r.deep_view();
        r.push((key.clone(), text));
        proof {
            assert(attrs@[i as int] == (*key, *value));
            assert(attrs@.take(i + 1) =~= attrs@.take(i as int).push((*key, *value)));
            assert(r.deep_view() =~= before.push((key@, scalar_text(*value))));
            assert(attrs@.take(i + 1).map_values(f) =~= attrs@.take(i as int).map_values(f).push(f((*key, *value))));
        }
        i = i + 1;
    }
    assert(attrs@.take(n as int) =~= attrs@);
    r
}

/// The search that the `find_traces` tool makes of its arguments: attribute
/// values stringified, and the search depth 20 when none is given.
pub fn find_traces_query(args: &FindTracesArgs) -> (q: FindTracesQuery)
    ensures
        query_from_args(*args, q),
        attribute_keys_distinct(*args) ==> keys_distinct(query_attributes(q)),
        q.service_name@ == args.service_name@,
        opt_chars(q.duration_min) == opt_chars(args.duration_min),
        opt_chars(q.duration_max) == opt_chars(args.duration_max),
        q.start_time_min@ == args.start_time_min@,
        q.start_time_max@ == args.start_time_max@,
{
    let attributes = match &args.attributes {
        Some(a) => Some(stringify_attributes(a)),
        None => None,
    };
    let search_depth = match args.search_depth {
        Some(d) => Some(d),
        None => Some(DEFAULT_SEARCH_DEPTH),
    };
    FindTracesQuery {
        service_name: args.service_name.clone(),
        operation_name: args.operation_name.clone(),
        attributes,
        start_time_min: args.start_time_min,
        start_time_max: args.start_time_max,
        duration_min: args.duration_min.clone(),
        duration_max: args.duration_max.clone(),
        search_depth,
    }
}

/// The position of the first attribute parameter in a trace search.
spec fn attributes_start(q: FindTracesQuery) -> int {
    3int + optional_param("query.operation_name"@, opt_chars(q.operation_name)).len()
        + optional_param("query.duration_min"@, opt_chars(q.duration_min)).len()
        + optional_param("query.duration_max"@, opt_chars(q.duration_max)).len()
        + optional_param("query.search_depth"@, crate::jaeger::search_depth_text(q.search_depth)).len()
}

/// Every search that the `find_traces` tool makes bounds the number of
/// traces: it sends `query.search_depth`, 20 when the caller gave none.
pub proof fn law_tool_search_sends_depth(
    args: FindTracesArgs,
    q: FindTracesQuery,
    start_time_min: Seq<char>,
    start_time_max: Seq<char>,
)
    requires
        query_from_args(args, q),
    ensures
        find_traces_params(q, start_time_min, start_time_max).contains(
            ("query.search_depth"@, decimal(effective_search_depth(args) as nat)),
        ),
{
    let params = find_traces_params(q, start_time_min, start_time_max);
    let k = attributes_start(q) - 1;
    assert(params[k] == ("query.search_depth"@, decimal(effective_search_depth(args) as nat)));
}

/// The search that the `find_traces` tool makes sends the service name as
/// given, and each duration bound the caller gave under its own name with its
/// value; a bound the caller did not give is not sent.
pub proof fn law_tool_search_keeps_service_and_durations(
    args: FindTracesArgs,
    q: FindTracesQuery,
    start_time_min: Seq<char>,
    start_time_max: Seq<char>,
)
    requires
        query_from_args(args, q),
    ensures
        find_traces_params(q, start_time_min, start_time_max)[0] == ("query.service_name"@, args.service_name@),
        args.duration_min matches Some(d) ==> find_traces_params(q, start_time_min, start_time_max).contains(
            ("query.duration_min"@, d@),
        ),
        args.duration_max matches Some(d) ==> find_traces_params(q, start_time_min, start_time_max).contains(
            ("query.duration_max"@, d@),
        ),
        args.duration_min is None ==> forall|i: int| 0 <= i < find_traces_params(q, start_time_min, start_time_max).len()
            ==> #[trigger] find_traces_params(q, start_time_min, start_time_max)[i].0 != "query.duration_min"@,
        args.duration_max is None ==> forall|i: int| 0 <= i < find_traces_params(q, start_time_min, start_time_max).len()
            ==> #[trigger] find_traces_params(q, start_time_min, start_time_max)[i].0 != "query.duration_max"@,
{
    law_find_traces_params_fields(q, start_time_min, start_time_max);
    assert(q.duration_min is Some <==> args.duration_min is Some);
    assert(q.duration_max is Some <==> args.duration_max is Some);
    if let Some(d) = args.duration_min {
        assert(q.duration_min->0@ == d@);
    }
    if let Some(d) = args.duration_max {
        assert(q.duration_max->0@ == d@);
    }
}

/// The `find_traces` tool forwards every attribute filter: the search sends
/// `query.attributes[key]` with the value stringified.
pub proof fn law_tool_search_forwards_attributes(
    args: FindTracesArgs,
    q: FindTracesQuery,
    start_time_min: Seq<char>,
    start_time_max: Seq<char>,
    i: int,
)
    requires
        query_from_args(args, q),
        args.attributes is Some,
        0 <= i < args.attributes->0@.len(),
    ensures
        find_traces_params(q, start_time_min, start_time_max).contains(
            (
                attribute_param_name(args.attributes->0@[i].0@),
                scalar_text(args.attributes->0@[i].1),
            ),
        ),
{
    let params = find_traces_params(q, start_time_min, start_time_max);
    let k = attributes_start(q) + i;
    assert(stringified_attributes(args)[i] == (args.attributes->0@[i].0@, scalar_text(args.attributes->0@[i].1)));
    assert(params[k] == (attribute_param_name(args.attributes->0@[i].0@), scalar_text(args.attributes->0@[i].1)));
}

} // verus!
