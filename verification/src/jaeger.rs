//! The requests made to the Jaeger v3 HTTP API and the reading of its replies.
//!
//! Notes on the wire format:
//! * Timestamps map to `google.protobuf.Timestamp` and are sent as RFC 3339
//!   strings (`2026-07-22T00:00:00+00:00`); raw milliseconds are refused.
//! * Durations map to `google.protobuf.Duration`, whose JSON form is seconds
//!   with an `s` suffix (`1.500s`).
//! * Map fields (like `attributes`) are encoded as repeated
//!   `query.attributes[key]=value` query parameters.
use vstd::prelude::*;

use crate::config::Config;
use crate::text::{chars_of, decimal, decimal_string, opt_chars};

verus! {

#[verifier::external_type_specification]
#[verifier::external_body]
pub struct ExJsonValue(serde_json::Value);

#[verifier::external_type_specification]
#[verifier::external_body]
pub struct ExJsonError(serde_json::Error);

/// Path of the services endpoint.
pub const API_SERVICES: &'static str = "/api/v3/services";
/// Path of the operations endpoint.
pub const API_OPERATIONS: &'static str = "/api/v3/operations";
/// Path of the traces endpoint.
pub const API_TRACES: &'static str = "/api/v3/traces";

/// Whether `serde_json::from_str::<serde_json::Value>` accepts `text` as a
/// JSON document.
pub uninterp spec fn json_text_is_valid(text: Seq<char>) -> bool;

/// The text that chrono's `DateTime::<Utc>::to_rfc3339` writes for the
/// instant `secs` seconds and `nanos` nanoseconds after the Unix epoch.
pub uninterp spec fn rfc3339_text(secs: int, nanos: int) -> Seq<char>;

/// What std's `str::to_lowercase` gives for `s`.
pub uninterp spec fn lowercase(s: Seq<char>) -> Seq<char>;

/// Whether a character may stand in an HTTP header value: every byte of its
/// UTF-8 encoding is a tab or at least 32 and not 127 (DEL). Characters from
/// U+0080 on are encoded in bytes from 0x80 on, which all pass.
pub open spec fn header_value_char_ok(c: char) -> bool {
    ((c as u32) >= 32 && (c as u32) != 127) || (c as u32) == 9
}

/// Whether `s` is accepted as an HTTP header value.
pub open spec fn header_value_text_ok(s: Seq<char>) -> bool {
    forall|i: int| 0 <= i < s.len() ==> header_value_char_ok(#[trigger] s[i])
}

/// Calls `reqwest::header::HeaderValue::from_str` (http's `HeaderValue`) and
/// tells whether it succeeded. Its source refuses exactly the strings holding
/// a byte below 32 other than tab, or the byte 127; the contract states that.
/// The value it builds is dropped here and built again from the same text
/// where the HTTP client is made.
#[verifier::external_body]
fn header_value_accepts(s: &str) -> (ok: bool)
    ensures
        ok == header_value_text_ok(s@),
{
    reqwest::header::HeaderValue::from_str(s).is_ok()
}

/// Calls std's `str::to_lowercase`. Its result is named by `lowercase`:
/// Unicode lowercasing is not stated here.
#[verifier::external_body]
fn to_lowercase(s: &str) -> (r: String)
    ensures
        r@ == lowercase(s@),
{
    s.to_lowercase()
}

/// Makes chrono's `DateTime::<Utc>` for the instant with
/// `DateTime::from_timestamp` and formats it with `to_rfc3339`. The text is
/// named by `rfc3339_text`; the calendar arithmetic is not stated here. The
/// `requires` is the range in which chrono's source builds the instant.
#[verifier::external_body]
fn format_rfc3339(secs: i64, nanos: u32) -> (r: String)
    requires
        chrono_representable(secs as int, nanos as int),
    ensures
        r@ == rfc3339_text(secs as int, nanos as int),
{
    match chrono::DateTime::from_timestamp(secs, nanos) {
        Some(t) => t.to_rfc3339(),
        None => String::new(),
    }
}

/// Calls `serde_json::from_str::<serde_json::Value>`. Whether it succeeds is
/// named by `json_text_is_valid`; the value and the error are opaque here,
/// so nothing is stated of what they hold.
#[verifier::external_body]
fn parse_json(text: &str) -> (r: Result<serde_json::Value, serde_json::Error>)
    ensures
        r is Ok <==> json_text_is_valid(text@),
{
    serde_json::from_str(text)
}

/// Earliest second chrono's `DateTime<Utc>` can hold: -262143-01-01T00:00:00.
pub const MIN_TIMESTAMP_SECS: i64 = -8_334_601_228_800;
/// Latest second chrono's `DateTime<Utc>` can hold: +262142-12-31T23:59:59.
pub const MAX_TIMESTAMP_SECS: i64 = 8_210_266_876_799;

/// Whether chrono's `DateTime::<Utc>::from_timestamp(secs, nanos)` builds an
/// instant: the seconds lie in its range, and the nanoseconds are below one
/// second, or below two seconds on the last second of a minute (a leap second).
pub open spec fn chrono_representable(secs: int, nanos: int) -> bool {
    &&& MIN_TIMESTAMP_SECS <= secs <= MAX_TIMESTAMP_SECS
    &&& 0 <= nanos < 2_000_000_000
    &&& (nanos < 1_000_000_000 || secs % 60 == 59)
}

/// An instant in UTC: seconds and nanoseconds since the Unix epoch, always
/// within the range of chrono's `DateTime<Utc>`.
#[derive(Debug, Clone, Copy)]
pub struct Timestamp {
    secs: i64,
    nanos: u32,
}

impl View for Timestamp {
    type V = (int, int);

    closed spec fn view(&self) -> (int, int) {
        (self.secs as int, self.nanos as int)
    }
}

impl Timestamp {
    #[verifier::type_invariant]
    closed spec fn representable(self) -> bool {
        chrono_representable(self.secs as int, self.nanos as int)
    }

    /// The instant `secs` seconds and `nanos` nanoseconds after the epoch,
    /// when chrono can represent it.
    pub fn new(secs: i64, nanos: u32) -> (r: Option<Timestamp>)
        ensures
            r is Some <==> chrono_representable(secs as int, nanos as int),
            r matches Some(t) ==> t@ == (secs as int, nanos as int),
    {
        if secs < MIN_TIMESTAMP_SECS || secs > MAX_TIMESTAMP_SECS || nanos >= 2_000_000_000 {
            return None;
        }
        let offset: u64 = (secs - MIN_TIMESTAMP_SECS) as u64;
        let last_second = offset % 60 == 59;
        proof {
            assert(MIN_TIMESTAMP_SECS % 60 == 0);
            assert((secs - MIN_TIMESTAMP_SECS) % 60 == secs % 60) by (nonlinear_arith)
                requires
                    MIN_TIMESTAMP_SECS % 60 == 0,
            ;
        }
        if nanos >= 1_000_000_000 && !last_second {
            return None;
        }
        Some(Timestamp { secs, nanos })
    }

    /// Seconds since the Unix epoch.
    pub fn secs(&self) -> (r: i64)
        ensures
            r == self@.0,
    {
        self.secs
    }

    /// Nanoseconds past `secs`.
    pub fn nanos(&self) -> (r: u32)
        ensures
            r == self@.1,
    {
        self.nanos
    }

    /// The RFC 3339 text of the instant, as chrono writes it.
    pub fn to_rfc3339(&self) -> (r: String)
        ensures
            r@ == rfc3339_text(self@.0, self@.1),
    {
        proof {
            use_type_invariant(self);
        }
        format_rfc3339(self.secs, self.nanos)
    }
}

/// Whether `c` is an ASCII hexadecimal digit.
pub open spec fn is_hex_digit(c: char) -> bool {
    ||| (48 <= (c as u32) && (c as u32) <= 57)
    ||| (97 <= (c as u32) && (c as u32) <= 102)
    ||| (65 <= (c as u32) && (c as u32) <= 70)
}

/// Whether `s` is a trace id: 32 ASCII hexadecimal digits.
pub open spec fn valid_trace_id(s: Seq<char>) -> bool {
    s.len() == 32 && forall|i: int| 0 <= i < s.len() ==> is_hex_digit(#[trigger] s[i])
}

/// Whether `trace_id` is a 32-character hex string.
pub fn is_valid_trace_id(trace_id: &str) -> (b: bool)
    ensures
        b == valid_trace_id(trace_id@),
{
    let v = chars_of(trace_id);
    if v.len() != 32 {
        return false;
    }
    let mut i: usize = 0;
    while i < v.len()
        invariant
            v@ == trace_id@,
            i <= v@.len(),
            forall|j: int| 0 <= j < i ==> is_hex_digit(#[trigger] v@[j]),
        decreases v@.len() - i,
    {
        let c = v[i] as u32;
        if !((c >= 48 && c <= 57) || (c >= 97 && c <= 102) || (c >= 65 && c <= 70)) {
            return false;
        }
        i = i + 1;
    }
    true
}

/// A query parameter: its name and its value.
pub type QueryParam = (String, String);

/// A GET request to the Jaeger API: the URL and the query parameters, in the
/// order in which they are sent.
#[derive(Debug)]
pub struct ApiRequest {
    pub url: String,
    pub params: Vec<QueryParam>,
}

/// A parameter `name` with the value `value`, when there is a value.
pub open spec fn optional_param(name: Seq<char>, value: Option<Seq<char>>) -> Seq<(Seq<char>, Seq<char>)> {
    match value {
        Some(v) => seq![(name, v)],
        None => seq![],
    }
}

/// Appends the parameter `(name, value)` to `params`.
fn push_param(params: &mut Vec<QueryParam>, name: &str, value: String)
    ensures
        final(params).deep_view() == old(params).deep_view().push((name@, value@)),
{
    params.push((String::from_str(name), value));
    assert(params.deep_view() =~= old(params).deep_view().push((name@, value@)));
}

/// Appends the parameter `(name, value)` when there is a value.
fn push_optional_param(params: &mut Vec<QueryParam>, name: &str, value: Option<String>)
    ensures
        final(params).deep_view() == old(params).deep_view() + optional_param(name@, opt_chars(value)),
{
    match value {
        Some(v) => push_param(params, name, v),
        None => {
            assert(params.deep_view() =~= old(params).deep_view() + Seq::<(Seq<char>, Seq<char>)>::empty());
        },
    }
}

/// The text `base` followed by `tail`.
fn joined(base: &str, tail: &str) -> (r: String)
    ensures
        r@ == base@ + tail@,
{
    let mut r = String::from_str(base);
    r.append(tail);
    r
}

/// The request that lists the services.
pub open spec fn services_url(base_url: Seq<char>) -> Seq<char> {
    base_url + API_SERVICES@
}

/// The URL of the operations request.
pub open spec fn operations_url(base_url: Seq<char>) -> Seq<char> {
    base_url + API_OPERATIONS@
}

/// The parameters of the operations request, given the span kind already
/// lowercased.
pub open spec fn operations_params(service: Seq<char>, span_kind: Option<Seq<char>>) -> Seq<(Seq<char>, Seq<char>)> {
    seq![("service"@, service)] + optional_param("span_kind"@, span_kind)
}

/// The URL of the request for the trace `trace_id`.
pub open spec fn trace_url(base_url: Seq<char>, trace_id: Seq<char>) -> Seq<char> {
    base_url + API_TRACES@ + "/"@ + trace_id
}

/// The parameters of the trace request, given the time bounds already
/// written in RFC 3339.
pub open spec fn trace_params(start_time: Option<Seq<char>>, end_time: Option<Seq<char>>) -> Seq<(Seq<char>, Seq<char>)> {
    optional_param("startTime"@, start_time) + optional_param("endTime"@, end_time)
}

/// The request for the operations of `service`, with the span kind already
/// lowercased.
pub fn operations_plan(base_url: &str, service: &str, span_kind: Option<String>) -> (r: ApiRequest)
    ensures
        r.url@ == operations_url(base_url@),
        r.params.deep_view() == operations_params(service@, opt_chars(span_kind)),
        r.params.deep_view()[0] == ("service"@, service@),
{
    let mut params: Vec<QueryParam> = Vec::new();
    push_param(&mut params, "service", String::from_str(service));
    push_optional_param(&mut params, "span_kind", span_kind);
    assert(params.deep_view() =~= operations_params(service@, opt_chars(span_kind)));
    ApiRequest { url: joined(base_url, API_OPERATIONS), params }
}

/// The request for the trace `trace_id`, with the time bounds already written
/// in RFC 3339; an error, and no request, when `trace_id` is not 32 hex digits.
pub fn trace_plan(base_url: &str, trace_id: &str, start_time: Option<String>, end_time: Option<String>) -> (r: Result<ApiRequest, JaegerError>)
    ensures
        !valid_trace_id(trace_id@) ==> r matches Err(JaegerError::InvalidTraceId),
        valid_trace_id(trace_id@) ==> (r matches Ok(req)
            && req.url@ == trace_url(base_url@, trace_id@)
            && req.params.deep_view() == trace_params(opt_chars(start_time), opt_chars(end_time))),
{
    if !is_valid_trace_id(trace_id) {
        return Err(JaegerError::InvalidTraceId);
    }
    let mut url = joined(base_url, API_TRACES);
    url.append("/");
    url.append(trace_id);
    let mut params: Vec<QueryParam> = Vec::new();
    push_optional_param(&mut params, "startTime", start_time);
    push_optional_param(&mut params, "endTime", end_time);
    assert(params.deep_view() =~= trace_params(opt_chars(start_time), opt_chars(end_time)));
    Ok(ApiRequest { url, params })
}

/// The search that `find_traces` sends.
#[derive(Debug)]
pub struct FindTracesQuery {
    /// Service whose spans are searched.
    pub service_name: String,
    /// Operation (span name) to match, if any.
    pub operation_name: Option<String>,
    /// Attributes that the spans must carry, as `(key, value)` pairs in the
    /// order in which they are sent.
    pub attributes: Option<Vec<(String, String)>>,
    /// Start of the interval (inclusive).
    pub start_time_min: Timestamp,
    /// End of the interval (exclusive).
    pub start_time_max: Timestamp,
    /// Minimum span duration, as `google.protobuf.Duration` JSON text (`1.500s`).
    pub duration_min: Option<String>,
    /// Maximum span duration, as `google.protobuf.Duration` JSON text.
    pub duration_max: Option<String>,
    /// Maximum number of traces to return.
    pub search_depth: Option<u32>,
}

/// The URL of the trace search.
pub open spec fn find_traces_url(base_url: Seq<char>) -> Seq<char> {
    base_url + API_TRACES@
}

/// The parameter name under which the attribute `key` is sent.
pub open spec fn attribute_param_name(key: Seq<char>) -> Seq<char> {
    "query.attributes["@ + key + "]"@
}

/// The parameters that carry the attributes `attrs`, one per pair, in order.
pub open spec fn attribute_params(attrs: Seq<(Seq<char>, Seq<char>)>) -> Seq<(Seq<char>, Seq<char>)> {
    attrs.map_values(|p: (Seq<char>, Seq<char>)| (attribute_param_name(p.0), p.1))
}

/// Whether no key occurs twice among the pairs, as in a map.
pub open spec fn keys_distinct(attrs: Seq<(Seq<char>, Seq<char>)>) -> bool {
    forall|i: int, j: int|
        0 <= i < attrs.len() && 0 <= j < attrs.len() && i != j ==> #[trigger] attrs[i].0 != #[trigger] attrs[j].0
}

/// Distinct attribute keys are sent under distinct parameter names.
pub proof fn law_attribute_param_names_distinct(attrs: Seq<(Seq<char>, Seq<char>)>)
    requires
        keys_distinct(attrs),
    ensures
        keys_distinct(attribute_params(attrs)),
{
    let ps = attribute_params(attrs);
    assert forall|i: int, j: int|
        0 <= i < ps.len() && 0 <= j < ps.len() && i != j implies #[trigger] ps[i].0 != #[trigger] ps[j].0 by {
        let k1 = attrs[i].0;
        let k2 = attrs[j].0;
        let open = "query.attributes["@;
        let close = "]"@;
        if attribute_param_name(k1) == attribute_param_name(k2) {
            let n1 = attribute_param_name(k1);
            assert(n1.len() == open.len() + k1.len() + close.len());
            assert(attribute_param_name(k2).len() == open.len() + k2.len() + close.len());
            assert(n1.subrange(open.len() as int, open.len() + k1.len() as int) =~= k1);
            assert(attribute_param_name(k2).subrange(open.len() as int, open.len() + k2.len() as int) =~= k2);
        }
    }
}

/// The attributes of a query, as pairs of texts (none when absent).
pub open spec fn query_attributes(q: FindTracesQuery) -> Seq<(Seq<char>, Seq<char>)> {
    match q.attributes {
        Some(a) => a.deep_view(),
        None => seq![],
    }
}

/// The search depth of a query, in decimal.
pub open spec fn search_depth_text(depth: Option<u32>) -> Option<Seq<char>> {
    match depth {
        Some(d) => Some(decimal(d as nat)),
        None => None,
    }
}

/// The parameters of the trace search, given the interval bounds already
/// written in RFC 3339.
pub open spec fn find_traces_params(q: FindTracesQuery, start_time_min: Seq<char>, start_time_max: Seq<char>) -> Seq<(Seq<char>, Seq<char>)> {
    seq![
        ("query.service_name"@, q.service_name@),
        ("query.start_time_min"@, start_time_min),
        ("query.start_time_max"@, start_time_max),
    ]
        + optional_param("query.operation_name"@, opt_chars(q.operation_name))
        + optional_param("query.duration_min"@, opt_chars(q.duration_min))
        + optional_param("query.duration_max"@, opt_chars(q.duration_max))
        + optional_param("query.search_depth"@, search_depth_text(q.search_depth))
        + attribute_params(query_attributes(q))
}

/// Appends one parameter per attribute, named `query.attributes[key]`.
fn push_attribute_params(params: &mut Vec<QueryParam>, attrs: &Vec<(String, String)>)
    ensures
        final(params).deep_view() == old(params).deep_view() + attribute_params(attrs.deep_view()),
{
    let ghost start = params.deep_view();
    let n = attrs.len();
    let mut i: usize = 0;
    while i < n
        invariant
            n == attrs@.len(),
            i <= n,
            params.deep_view() == start + attribute_params(attrs.deep_view().take(i as int)),
        decreases n - i,
    {
        let (key, value) = &attrs[i];
        let mut name = String::from_str("query.attributes[");
        name.append(key.as_str());
        name.append("]");
        assert(name@ == attribute_param_name(key@));
        let ghost before = params.deep_view();
        let v = value.clone();
        params.push((name, v));
        proof {
            assert(params.deep_view() =~= before.push((attribute_param_name(key@), value@)));
            assert(attrs.deep_view()[i as int] == (key@, value@));
            assert(attrs.deep_view().take(i + 1) =~= attrs.deep_view().take(i as int).push((key@, value@)));
            assert(attribute_params(attrs.deep_view().take(i + 1)) =~= attribute_params(attrs.deep_view().take(i as int)).push((attribute_param_name(key@), value@)));
            assert(params.deep_view() =~= start + attribute_params(attrs.deep_view().take(i + 1)));
        }
        i = i + 1;
    }
    assert(attrs.deep_view().take(n as int) =~= attrs.deep_view());
}

/// The trace search for `q`, with the interval bounds already written in RFC 3339.
pub fn find_traces_plan(base_url: &str, q: &FindTracesQuery, start_time_min: String, start_time_max: String) -> (r: ApiRequest)
    ensures
        r.url@ == find_traces_url(base_url@),
        r.params.deep_view() == find_traces_params(*q, start_time_min@, start_time_max@),
        r.params.deep_view()[0] == ("query.service_name"@, q.service_name@),
        r.params.deep_view()[1] == ("query.start_time_min"@, start_time_min@),
        r.params.deep_view()[2] == ("query.start_time_max"@, start_time_max@),
{
    let mut params: Vec<QueryParam> = Vec::new();
    push_param(&mut params, "query.service_name", q.service_name.clone());
    push_param(&mut params, "query.start_time_min", start_time_min);
    push_param(&mut params, "query.start_time_max", start_time_max);
    push_optional_param(&mut params, "query.operation_name", q.operation_name.clone());
    push_optional_param(&mut params, "query.duration_min", q.duration_min.clone());
    push_optional_param(&mut params, "query.duration_max", q.duration_max.clone());
    let depth = match q.search_depth {
        Some(d) => Some(decimal_string(d as u64)),
        None => None,
    };
    push_optional_param(&mut params, "query.search_depth", depth);
    match &q.attributes {
        Some(attrs) => push_attribute_params(&mut params, attrs),
        None => {},
    }
    assert(params.deep_view() =~= find_traces_params(*q, start_time_min@, start_time_max@));
    ApiRequest { url: joined(base_url, API_TRACES), params }
}

/// The operations request names the service exactly as given, first, and
/// then the span kind when there is one, and nothing else.
pub proof fn law_operations_params_keep_service(service: Seq<char>, span_kind: Option<Seq<char>>)
    ensures
        operations_params(service, span_kind)[0] == ("service"@, service),
        span_kind is None ==> operations_params(service, span_kind).len() == 1,
        span_kind matches Some(k) ==> (operations_params(service, span_kind).len() == 2
            && operations_params(service, span_kind)[1] == ("span_kind"@, k)),
{
}

/// The trace request carries each time bound that is given, under its own
/// name and with its value, and no bound that is not given.
pub proof fn law_trace_params_carry_given_bounds(start_time: Option<Seq<char>>, end_time: Option<Seq<char>>)
    ensures
        start_time matches Some(t) ==> trace_params(start_time, end_time).contains(("startTime"@, t)),
        end_time matches Some(t) ==> trace_params(start_time, end_time).contains(("endTime"@, t)),
        start_time is None ==> forall|i: int| 0 <= i < trace_params(start_time, end_time).len()
            ==> #[trigger] trace_params(start_time, end_time)[i].0 != "startTime"@,
        end_time is None ==> forall|i: int| 0 <= i < trace_params(start_time, end_time).len()
            ==> #[trigger] trace_params(start_time, end_time)[i].0 != "endTime"@,
        trace_params(start_time, end_time).len()
            == (if start_time is Some { 1int } else { 0int }) + (if end_time is Some { 1int } else { 0int }),
{
    reveal_strlit("startTime");
    reveal_strlit("endTime");
    let p = trace_params(start_time, end_time);
    assert("startTime"@.len() != "endTime"@.len());
    if let Some(t) = start_time {
        assert(p[0] == ("startTime"@, t));
    }
    if let Some(t) = end_time {
        assert(p[p.len() - 1] == ("endTime"@, t));
    }
}

/// Every attribute parameter name starts `query.a`.
proof fn lemma_attribute_param_name_start(key: Seq<char>)
    ensures
        attribute_param_name(key).len() > 6,
        attribute_param_name(key)[6] == 'a',
{
    reveal_strlit("query.attributes[");
    assert(attribute_param_name(key)[6] == "query.attributes["@[6]);
}

/// The trace search sends the service name exactly as given, then the time
/// window, and each duration bound exactly when it is given, with its value.
pub proof fn law_find_traces_params_fields(q: FindTracesQuery, start_time_min: Seq<char>, start_time_max: Seq<char>)
    ensures
        find_traces_params(q, start_time_min, start_time_max)[0] == ("query.service_name"@, q.service_name@),
        find_traces_params(q, start_time_min, start_time_max)[1] == ("query.start_time_min"@, start_time_min),
        find_traces_params(q, start_time_min, start_time_max)[2] == ("query.start_time_max"@, start_time_max),
        q.duration_min matches Some(d) ==> find_traces_params(q, start_time_min, start_time_max).contains(
            ("query.duration_min"@, d@),
        ),
        q.duration_max matches Some(d) ==> find_traces_params(q, start_time_min, start_time_max).contains(
            ("query.duration_max"@, d@),
        ),
        q.duration_min is None ==> forall|i: int| 0 <= i < find_traces_params(q, start_time_min, start_time_max).len()
            ==> #[trigger] find_traces_params(q, start_time_min, start_time_max)[i].0 != "query.duration_min"@,
        q.duration_max is None ==> forall|i: int| 0 <= i < find_traces_params(q, start_time_min, start_time_max).len()
            ==> #[trigger] find_traces_params(q, start_time_min, start_time_max)[i].0 != "query.duration_max"@,
{
    reveal_strlit("query.service_name");
    reveal_strlit("query.start_time_min");
    reveal_strlit("query.start_time_max");
    reveal_strlit("query.operation_name");
    reveal_strlit("query.duration_min");
    reveal_strlit("query.duration_max");
    reveal_strlit("query.search_depth");
    let p = find_traces_params(q, start_time_min, start_time_max);
    let fixed = seq![
        ("query.service_name"@, q.service_name@),
        ("query.start_time_min"@, start_time_min),
        ("query.start_time_max"@, start_time_max),
    ];
    let op = optional_param("query.operation_name"@, opt_chars(q.operation_name));
    let dmin = optional_param("query.duration_min"@, opt_chars(q.duration_min));
    let dmax = optional_param("query.duration_max"@, opt_chars(q.duration_max));
    let depth = optional_param("query.search_depth"@, search_depth_text(q.search_depth));
    let attrs = attribute_params(query_attributes(q));
    assert(p == fixed + op + dmin + dmax + depth + attrs);
    let a: int = fixed.len() as int + op.len();
    let b: int = a + dmin.len();
    let c: int = b + dmax.len();
    let e: int = c + depth.len();
    if let Some(d) = q.duration_min {
        assert(p[a] == ("query.duration_min"@, d@));
    }
    if let Some(d) = q.duration_max {
        assert(p[b] == ("query.duration_max"@, d@));
    }
    assert forall|i: int| 0 <= i < p.len() && !(a <= i < b) implies #[trigger] p[i].0 != "query.duration_min"@ by {
        if i >= e {
            lemma_attribute_param_name_start(query_attributes(q)[i - e].0);
            assert(p[i] == attrs[i - e]);
            assert(p[i].0[6] != "query.duration_min"@[6]);
        } else if i >= c {
            assert(p[i].0[6] != "query.duration_min"@[6]);
        } else if i >= b {
            assert(p[i].0[16] != "query.duration_min"@[16]);
        } else if i < a {
            assert(p[i].0[6] != "query.duration_min"@[6]);
        }
    }
    assert forall|i: int| 0 <= i < p.len() && !(b <= i < c) implies #[trigger] p[i].0 != "query.duration_max"@ by {
        if i >= e {
            lemma_attribute_param_name_start(query_attributes(q)[i - e].0);
            assert(p[i] == attrs[i - e]);
            assert(p[i].0[6] != "query.duration_max"@[6]);
        } else if i >= c {
            assert(p[i].0[6] != "query.duration_max"@[6]);
        } else if i >= a {
            assert(p[i].0[16] != "query.duration_max"@[16]);
        } else {
            assert(p[i].0[6] != "query.duration_max"@[6]);
        }
    }
}

/// Errors produced by Jaeger API operations.
#[derive(Debug)]
pub enum JaegerError {
    /// The HTTP response has a status outside 2xx (and not 404), and this body.
    RequestFailed { status: u16, body: String },
    /// The response could not be parsed as JSON.
    ParseError(serde_json::Error),
    /// The trace ID is not a valid 32-character hex string.
    InvalidTraceId,
}

/// Errors produced when making the client.
#[derive(Debug)]
pub enum ClientError {
    /// `JAEGER_AUTHORIZATION_HEADER` holds a character that no HTTP header
    /// value may hold.
    InvalidAuthorizationHeader,
}

/// Client of the Jaeger v3 HTTP API: where its requests go and the
/// `Authorization` header that goes with every one of them.
#[derive(Debug)]
pub struct JaegerClient {
    base_url: String,
    authorization_header: Option<String>,
}

impl View for JaegerClient {
    /// The base URL and the `Authorization` header value.
    type V = (Seq<char>, Option<Seq<char>>);

    closed spec fn view(&self) -> (Seq<char>, Option<Seq<char>>) {
        (self.base_url@, opt_chars(self.authorization_header))
    }
}

impl JaegerClient {
    #[verifier::type_invariant]
    closed spec fn header_accepted(self) -> bool {
        self.authorization_header matches Some(a) ==> header_value_text_ok(a@)
    }

    /// Makes the client for `config`: requests go to its base URL, and carry
    /// its `Authorization` value, which must be a valid header value.
    pub fn new(config: Config) -> (r: Result<JaegerClient, ClientError>)
        ensures
            (config.authorization_header matches Some(a) && !header_value_text_ok(a@))
                ==> r matches Err(ClientError::InvalidAuthorizationHeader),
            !(config.authorization_header matches Some(a) && !header_value_text_ok(a@))
                ==> (r matches Ok(c) && c@ == (config.base_url_text(), opt_chars(config.authorization_header))),
    {
        if let Some(auth) = &config.authorization_header {
            if !header_value_accepts(auth.as_str()) {
                return Err(ClientError::InvalidAuthorizationHeader);
            }
        }
        let base_url = config.base_url();
        Ok(JaegerClient { base_url, authorization_header: config.authorization_header })
    }

    /// The base URL, `<scheme>://<host>:<port>`.
    pub fn base_url(&self) -> (r: &String)
        ensures
            r@ == self@.0,
    {
        &self.base_url
    }

    /// The value of the `Authorization` header sent with every request; it
    /// is a valid header value.
    pub fn authorization_header(&self) -> (r: &Option<String>)
        ensures
            opt_chars(*r) == self@.1,
            r matches Some(a) ==> header_value_text_ok(a@),
    {
        proof {
            use_type_invariant(self);
        }
        &self.authorization_header
    }

    /// The request that lists the services.
    pub fn services_request(&self) -> (r: ApiRequest)
        ensures
            r.url@ == services_url(self@.0),
            r.params@.len() == 0,
    {
        ApiRequest { url: joined(self.base_url.as_str(), API_SERVICES), params: Vec::new() }
    }

    /// The request for the operations of `service`, optionally of one span
    /// kind, which is sent lowercased.
    pub fn operations_request(&self, service: &str, span_kind: Option<&str>) -> (r: ApiRequest)
        ensures
            r.url@ == operations_url(self@.0),
            r.params.deep_view() == operations_params(service@, match span_kind {
                Some(k) => Some(lowercase(k@)),
                None => None,
            }),
            r.params.deep_view()[0] == ("service"@, service@),
    {
        let kind = match span_kind {
            Some(k) => Some(to_lowercase(k)),
            None => None,
        };
        operations_plan(self.base_url.as_str(), service, kind)
    }

    /// The request for the trace `trace_id`, optionally bounded in time; an
    /// error, and no request, when `trace_id` is not 32 hex digits.
    pub fn trace_request(&self, trace_id: &str, start_time: Option<Timestamp>, end_time: Option<Timestamp>) -> (r: Result<ApiRequest, JaegerError>)
        ensures
            !valid_trace_id(trace_id@) ==> r matches Err(JaegerError::InvalidTraceId),
            valid_trace_id(trace_id@) ==> (r matches Ok(req)
                && req.url@ == trace_url(self@.0, trace_id@)
                && req.params.deep_view() == trace_params(rfc3339_of(start_time), rfc3339_of(end_time))),
    {
        let start = match start_time {
            Some(t) => Some(t.to_rfc3339()),
            None => None,
        };
        let end = match end_time {
            Some(t) => Some(t.to_rfc3339()),
            None => None,
        };
        trace_plan(self.base_url.as_str(), trace_id, start, end)
    }

    /// The trace search for `q`.
    pub fn find_traces_request(&self, q: &FindTracesQuery) -> (r: ApiRequest)
        ensures
            r.url@ == find_traces_url(self@.0),
            r.params.deep_view() == find_traces_params(
                *q,
                rfc3339_text(q.start_time_min@.0, q.start_time_min@.1),
                rfc3339_text(q.start_time_max@.0, q.start_time_max@.1),
            ),
    {
        let min = q.start_time_min.to_rfc3339();
        let max = q.start_time_max.to_rfc3339();
        find_traces_plan(self.base_url.as_str(), q, min, max)
    }
}

impl Clone for JaegerClient {
    fn clone(&self) -> (r: JaegerClient)
        ensures
            r@ == self@,
    {
        proof {
            use_type_invariant(self);
        }
        JaegerClient {
            base_url: self.base_url.clone(),
            authorization_header: self.authorization_header.clone(),
        }
    }
}

/// The RFC 3339 text of an optional instant.
pub open spec fn rfc3339_of(t: Option<Timestamp>) -> Option<Seq<char>> {
    match t {
        Some(t) => Some(rfc3339_text(t@.0, t@.1)),
        None => None,
    }
}

/// The error for a response of status `status` outside 2xx (and not 404),
/// carrying its body, or the empty text when the body cannot be read.
pub fn request_failed(status: u16, body: Option<String>) -> (e: JaegerError)
    ensures
        e matches JaegerError::RequestFailed { status: s, body: b } && s == status
            && b@ == match body {
                Some(t) => t@,
                None => Seq::<char>::empty(),
            },
{
    let body = match body {
        Some(t) => t,
        None => String::new(),
    };
    JaegerError::RequestFailed { status, body }
}

/// What to do with a response, given its status.
#[derive(Debug, Clone, Copy, PartialEq, Eq, Structural)]
pub enum ResponseStep {
    /// 404: the answer is the empty JSON object; the body is not read.
    EmptyObject,
    /// Any other status outside 2xx: the request failed; the body (or the
    /// empty text, when it cannot be read) goes into the error.
    Failure,
    /// 2xx: the body is read and decoded with `decode_body`.
    ReadJson,
}

/// What to do with a response of status `status`.
pub fn classify_status(status: u16) -> (r: ResponseStep)
    ensures
        status == 404 ==> r == ResponseStep::EmptyObject,
        status != 404 && !(200 <= status <= 299) ==> r == ResponseStep::Failure,
        200 <= status <= 299 ==> r == ResponseStep::ReadJson,
{
    if status == 404 {
        ResponseStep::EmptyObject
    } else if status < 200 || status > 299 {
        ResponseStep::Failure
    } else {
        ResponseStep::ReadJson
    }
}

/// A JSON answer of the Jaeger API.
#[derive(Debug)]
pub enum JsonBody {
    /// The empty object `{}`.
    EmptyObject,
    /// The parsed body.
    Json(serde_json::Value),
}

/// The answer made of what `serde_json::from_str` gave for a non-empty body:
/// the parsed value, or a parse error.
pub fn json_body_from_parsed(parsed: Result<serde_json::Value, serde_json::Error>) -> (r: Result<JsonBody, JaegerError>)
    ensures
        parsed is Ok <==> r matches Ok(JsonBody::Json(_)),
        parsed is Err <==> r matches Err(JaegerError::ParseError(_)),
        parsed matches Ok(v) ==> (r matches Ok(JsonBody::Json(w)) && w == v),
        parsed matches Err(e) ==> (r matches Err(JaegerError::ParseError(f)) && f == e),
{
    match parsed {
        Ok(v) => Ok(JsonBody::Json(v)),
        Err(e) => Err(JaegerError::ParseError(e)),
    }
}

/// Decodes the body of a successful response: the empty text stands for
/// `{}`; anything else must be a JSON document.
pub fn decode_body(text: &str) -> (r: Result<JsonBody, JaegerError>)
    ensures
        text@.len() == 0 ==> r matches Ok(JsonBody::EmptyObject),
        text@.len() > 0 && json_text_is_valid(text@) ==> r matches Ok(JsonBody::Json(_)),
        text@.len() > 0 && !json_text_is_valid(text@) ==> r matches Err(JaegerError::ParseError(_)),
{
    if text.is_empty() {
        return Ok(JsonBody::EmptyObject);
    }
    json_body_from_parsed(parse_json(text))
}

} // verus!
