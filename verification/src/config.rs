//! Runtime configuration: the Jaeger base URL, its port and an optional
//! `Authorization` header value, resolved from the values of the
//! `JAEGER_URL`, `JAEGER_PORT` and `JAEGER_AUTHORIZATION_HEADER` variables.
use vstd::prelude::*;

use crate::text::{chars_of, decimal, digit_value, is_ascii_digit, opt_chars, push_decimal};

verus! {

/// Runtime configuration.
#[derive(Debug, Clone)]
pub struct Config {
    /// Normalized base URL, e.g. `http://localhost` or `https://jaeger.example.com`.
    pub url: String,
    /// Port for the Jaeger v3 HTTP API.
    pub port: u16,
    /// Optional value for the `Authorization` header on every request.
    pub authorization_header: Option<String>,
}

/// Why a port text is not a `u16`, as `str::parse::<u16>` tells it.
#[derive(Debug, Clone, Copy, PartialEq, Eq, Structural)]
pub enum PortErrorKind {
    /// The text is empty.
    Empty,
    /// The text holds a character that is not a decimal digit
    /// (after an optional leading `+`).
    InvalidDigit,
    /// The number is larger than 65535.
    PosOverflow,
}

/// Errors produced when resolving the configuration.
#[derive(Debug)]
pub enum ConfigError {
    /// `JAEGER_URL` is not set.
    MissingUrl,
    /// `JAEGER_PORT` holds the given text, which is not a `u16`.
    InvalidPort(String, PortErrorKind),
}

/// The text `://`.
pub open spec fn scheme_separator() -> Seq<char> {
    seq![':', '/', '/']
}

/// The text `http://`.
pub open spec fn http_prefix() -> Seq<char> {
    seq!['h', 't', 't', 'p', ':', '/', '/']
}

/// The text `https://`.
pub open spec fn https_prefix() -> Seq<char> {
    seq!['h', 't', 't', 'p', 's', ':', '/', '/']
}

/// Whether `://` stands in `s` at position `i`.
pub open spec fn separator_at(s: Seq<char>, i: int) -> bool {
    0 <= i && i + 3 <= s.len() && s.subrange(i, i + 3) == scheme_separator()
}

/// Whether `s` contains `://`.
pub open spec fn has_scheme_separator(s: Seq<char>) -> bool {
    exists|i: int| #[trigger] separator_at(s, i)
}

/// The position of the first `://` in `s` from position `i` on, or the
/// length of `s` when there is none.
pub open spec fn first_separator_from(s: Seq<char>, i: int) -> int
    decreases s.len() - i,
{
    if i < 0 || i + 3 > s.len() {
        s.len() as int
    } else if separator_at(s, i) {
        i
    } else {
        first_separator_from(s, i + 1)
    }
}

/// Where the scheme of `s` ends: just after its first `://`.
pub open spec fn scheme_end(s: Seq<char>) -> int {
    first_separator_from(s, 0) + 3
}

/// `s` without its trailing `/` characters.
pub open spec fn trim_trailing_slashes(s: Seq<char>) -> Seq<char>
    decreases s.len(),
{
    if s.len() > 0 && s.last() == '/' {
        trim_trailing_slashes(s.drop_last())
    } else {
        s
    }
}

/// The normalized form of a base URL. When the text holds `://`, its
/// trailing slashes are stripped, but never into its first `://`: the scheme
/// prefix stays. Otherwise `http://` is put in front of the text without its
/// trailing slashes.
pub open spec fn normalized_url(s: Seq<char>) -> Seq<char> {
    if has_scheme_separator(s) {
        let keep = trim_trailing_slashes(s).len() as int;
        s.take(if keep >= scheme_end(s) { keep } else { scheme_end(s) })
    } else {
        http_prefix() + trim_trailing_slashes(s)
    }
}

/// The default Jaeger port for a URL: 443 for `https://`, else 16686.
pub open spec fn default_port_for(url: Seq<char>) -> u16 {
    if https_prefix().is_prefix_of(url) {
        443
    } else {
        16686
    }
}

/// Reads the decimal digits `ds` from left to right after the value `acc`,
/// stopping at the first character that is not a digit, or at the first
/// digit that takes the value past 65535.
pub open spec fn read_digits(ds: Seq<char>, acc: nat) -> Result<u16, PortErrorKind>
    decreases ds.len(),
{
    if ds.len() == 0 {
        Ok(acc as u16)
    } else if !is_ascii_digit(ds[0]) {
        Err(PortErrorKind::InvalidDigit)
    } else if acc * 10 + digit_value(ds[0]) > 65535 {
        Err(PortErrorKind::PosOverflow)
    } else {
        read_digits(ds.drop_first(), (acc * 10 + digit_value(ds[0])) as nat)
    }
}

/// What `s.parse::<u16>()` gives: an error for the empty text; a lone sign is
/// an invalid digit; one leading `+` is skipped; then the digits are read.
pub open spec fn parsed_port(s: Seq<char>) -> Result<u16, PortErrorKind> {
    if s.len() == 0 {
        Err(PortErrorKind::Empty)
    } else if s.len() == 1 && (s[0] == '+' || s[0] == '-') {
        Err(PortErrorKind::InvalidDigit)
    } else if s[0] == '+' {
        read_digits(s.drop_first(), 0)
    } else {
        read_digits(s, 0)
    }
}

/// The port the configuration takes: the parsed `JAEGER_PORT` when it is
/// set, else the default port of the normalized URL.
pub open spec fn resolved_port(url: Seq<char>, port: Option<Seq<char>>) -> Result<u16, PortErrorKind> {
    match port {
        Some(p) => parsed_port(p),
        None => Ok(default_port_for(normalized_url(url))),
    }
}

/// The position of the first `://` in `url`, or its length when there is none.
fn first_scheme_separator(url: &Vec<char>) -> (f: usize)
    ensures
        f == first_separator_from(url@, 0),
{
    let n = url.len();
    let mut i: usize = 0;
    while i < n && n - i >= 3
        invariant
            n == url@.len(),
            i <= n,
            first_separator_from(url@, i as int) == first_separator_from(url@, 0),
        decreases n - i,
    {
        if url[i] == ':' && url[i + 1] == '/' && url[i + 2] == '/' {
            assert(url@.subrange(i as int, i + 3) =~= scheme_separator());
            return i;
        }
        assert(url@.subrange(i as int, i + 3)[0] == url@[i as int]);
        assert(url@.subrange(i as int, i + 3)[1] == url@[i + 1]);
        assert(url@.subrange(i as int, i + 3)[2] == url@[i + 2]);
        i = i + 1;
    }
    n
}

/// The number of characters of `v` that remain once its trailing `/` are stripped.
fn trimmed_len(v: &Vec<char>) -> (k: usize)
    ensures
        k <= v@.len(),
        v@.take(k as int) == trim_trailing_slashes(v@),
{
    let mut k = v.len();
    assert(v@.take(k as int) =~= v@);
    while k > 0 && v[k - 1] == '/'
        invariant
            k <= v@.len(),
            trim_trailing_slashes(v@.take(k as int)) == trim_trailing_slashes(v@),
        decreases k,
    {
        assert(v@.take(k as int).drop_last() =~= v@.take(k - 1));
        k = k - 1;
    }
    k
}

/// Strips trailing slashes and ensures a scheme prefix.
pub fn normalize_url(url: &str) -> (r: String)
    ensures
        r@ == normalized_url(url@),
{
    let v = chars_of(url);
    let keep = trimmed_len(&v);
    let first = first_scheme_separator(&v);
    proof {
        lemma_first_separator_from(url@, 0);
    }
    if first < v.len() {
        let end = first + 3;
        let len = if keep >= end { keep } else { end };
        let kept = url.substring_char(0, len);
        assert(kept@ =~= url@.take(len as int));
        String::from_str(kept)
    } else {
        let trimmed = url.substring_char(0, keep);
        let mut r = String::from_str("http://");
        proof {
            reveal_strlit("http://");
            assert("http://"@ =~= http_prefix());
        }
        r.append(trimmed);
        r
    }
}

/// Returns the default Jaeger port for a given URL scheme.
pub fn default_port(url: &str) -> (port: u16)
    ensures
        port == default_port_for(url@),
{
    let v = chars_of(url);
    let https = "https://";
    proof {
        reveal_strlit("https://");
        assert(https@ =~= https_prefix());
    }
    let p = chars_of(https);
    if v.len() < p.len() {
        return 16686;
    }
    let mut i: usize = 0;
    while i < p.len()
        invariant
            p@ == https_prefix(),
            v@ == url@,
            p@.len() <= v@.len(),
            i <= p@.len(),
            forall|j: int| 0 <= j < i ==> v@[j] == p@[j],
        decreases p@.len() - i,
    {
        if v[i] != p[i] {
            assert(v@.subrange(0, p@.len() as int)[i as int] == v@[i as int]);
            return 16686;
        }
        i = i + 1;
    }
    443
}

/// Parses a port number exactly as `s.parse::<u16>()` does.
pub fn parse_port(s: &str) -> (r: Result<u16, PortErrorKind>)
    ensures
        r == parsed_port(s@),
{
    let v = chars_of(s);
    let n = v.len();
    if n == 0 {
        return Err(PortErrorKind::Empty);
    }
    if n == 1 && (v[0] == '+' || v[0] == '-') {
        return Err(PortErrorKind::InvalidDigit);
    }
    let start: usize = if v[0] == '+' { 1 } else { 0 };
    let ghost digits = v@.skip(start as int);
    proof {
        assert(v@.drop_first() =~= v@.skip(1));
        assert(v@ =~= v@.skip(0));
    }
    assert(parsed_port(s@) == read_digits(digits, 0));
    let mut acc: u32 = 0;
    let mut i: usize = start;
    while i < n
        invariant
            n == v@.len(),
            parsed_port(s@) == read_digits(digits, 0),
            start <= i <= n,
            acc <= 65535,
            read_digits(digits, 0) == read_digits(v@.skip(i as int), acc as nat),
        decreases n - i,
    {
        let c = v[i];
        proof {
            assert(v@.skip(i as int)[0] == c);
            assert(v@.skip(i as int).drop_first() =~= v@.skip(i + 1));
        }
        if !((c as u32) >= 48 && (c as u32) <= 57) {
            return Err(PortErrorKind::InvalidDigit);
        }
        let next = acc * 10 + ((c as u32) - 48);
        if next > 65535 {
            return Err(PortErrorKind::PosOverflow);
        }
        acc = next;
        i = i + 1;
    }
    proof {
        assert(v@.skip(n as int).len() == 0);
    }
    Ok(acc as u16)
}

impl Config {
    /// Resolves the configuration from the values of `JAEGER_URL`,
    /// `JAEGER_PORT` and `JAEGER_AUTHORIZATION_HEADER` (`None` where a
    /// variable is not set).
    pub fn from_vars(url: Option<String>, port: Option<String>, authorization_header: Option<String>) -> (r: Result<Config, ConfigError>)
        ensures
            url is None ==> r matches Err(ConfigError::MissingUrl),
            url matches Some(u) ==> match resolved_port(u@, opt_chars(port)) {
                Ok(p) => r matches Ok(c) && c.url@ == normalized_url(u@) && c.port == p
                    && c.authorization_header == authorization_header,
                Err(kind) => r matches Err(ConfigError::InvalidPort(text, k)) && port matches Some(t)
                    && text@ == t@ && k == kind,
            },
            url is Some ==> (port matches Some(t) ==> (parsed_port(t@) matches Ok(n)
                ==> (r matches Ok(c) && c.port == n))),
            url matches Some(u) ==> (port is None
                ==> (r matches Ok(c) && c.port == default_port_for(normalized_url(u@)))),
    {
        let raw_url = match url {
            Some(u) => u,
            None => return Err(ConfigError::MissingUrl),
        };
        let url = normalize_url(raw_url.as_str());
        let port = match port {
            Some(text) => match parse_port(text.as_str()) {
                Ok(p) => p,
                Err(kind) => return Err(ConfigError::InvalidPort(text, kind)),
            },
            None => default_port(url.as_str()),
        };
        Ok(Config { url, port, authorization_header })
    }

    /// The text `<scheme>://<host>:<port>`.
    pub open spec fn base_url_text(&self) -> Seq<char> {
        self.url@ + seq![':'] + decimal(self.port as nat)
    }

    /// Returns `<scheme>://<host>:<port>`.
    pub fn base_url(&self) -> (r: String)
        ensures
            r@ == self.base_url_text(),
    {
        let mut r = self.url.clone();
        let colon = ":";
        proof {
            reveal_strlit(":");
        }
        r.append(colon);
        push_decimal(&mut r, self.port as u64);
        assert(r@ =~= self.base_url_text());
        r
    }
}

/// Reading the decimal text of a number up to 65535 gives that number back,
/// whatever follows it.
proof fn lemma_read_decimal(n: nat, rest: Seq<char>)
    requires
        n <= 65535,
    ensures
        read_digits(decimal(n) + rest, 0) == read_digits(rest, n),
    decreases n,
{
    let d = n % 10;
    let dc = crate::text::digit_char(d as int);
    assert(is_ascii_digit(dc) && digit_value(dc) == d);
    let tail = seq![dc] + rest;
    assert(tail[0] == dc);
    assert(tail.drop_first() =~= rest);
    if n < 10 {
        assert(decimal(n) + rest =~= tail);
    } else {
        lemma_read_decimal(n / 10, tail);
        assert(decimal(n) + rest =~= decimal(n / 10) + tail);
    }
}

/// Port text round trip: every port, written in decimal, parses back to itself.
pub proof fn law_port_text_round_trip(port: u16)
    ensures
        parsed_port(decimal(port as nat)) == Ok::<u16, PortErrorKind>(port),
{
    lemma_read_decimal(port as nat, Seq::empty());
    assert(decimal(port as nat) + Seq::<char>::empty() =~= decimal(port as nat));
    let t = decimal(port as nat);
    assert(t.len() >= 1 && is_ascii_digit(t[0])) by {
        lemma_decimal_starts_with_digit(port as nat);
    }
}

/// The decimal text of a number is not empty and starts with a digit.
proof fn lemma_decimal_starts_with_digit(n: nat)
    ensures
        decimal(n).len() >= 1,
        is_ascii_digit(decimal(n)[0]),
    decreases n,
{
    if n >= 10 {
        lemma_decimal_starts_with_digit(n / 10);
        assert((decimal(n / 10) + seq![crate::text::digit_char((n % 10) as int)])[0] == decimal(n / 10)[0]);
    }
}

/// Setting `JAEGER_PORT` to the decimal text of the default port of the URL
/// resolves to the same port as leaving it unset.
pub proof fn law_explicit_default_port(url: Seq<char>)
    ensures
        resolved_port(url, Some(decimal(default_port_for(normalized_url(url)) as nat)))
            == resolved_port(url, None),
{
    law_port_text_round_trip(default_port_for(normalized_url(url)));
}

/// What `first_separator_from` finds: a `://` at the position it gives,
/// none before it, and none at all when it gives the length.
proof fn lemma_first_separator_from(s: Seq<char>, i: int)
    requires
        0 <= i <= s.len(),
    ensures
        i <= first_separator_from(s, i) <= s.len(),
        first_separator_from(s, i) < s.len() ==> separator_at(s, first_separator_from(s, i)),
        forall|j: int| i <= j < first_separator_from(s, i) ==> !separator_at(s, j),
        first_separator_from(s, i) == s.len() ==> forall|j: int| i <= j ==> !separator_at(s, j),
        i == 0 ==> (has_scheme_separator(s) <==> first_separator_from(s, i) < s.len()),
    decreases s.len() - i,
{
    if i + 3 > s.len() {
    } else if separator_at(s, i) {
    } else {
        lemma_first_separator_from(s, i + 1);
    }
    if i == 0 && has_scheme_separator(s) {
        let j = choose|j: int| #[trigger] separator_at(s, j);
        assert(separator_at(s, j));
    }
}

/// A prefix of `s` that reaches past its first `://` has that `://` first too.
proof fn lemma_first_separator_of_prefix(s: Seq<char>, m: int)
    requires
        has_scheme_separator(s),
        scheme_end(s) <= m <= s.len(),
    ensures
        first_separator_from(s.take(m), 0) == first_separator_from(s, 0),
{
    lemma_first_separator_from(s, 0);
    let f = first_separator_from(s, 0);
    let t = s.take(m);
    lemma_first_separator_from(t, 0);
    assert(t.subrange(f, f + 3) =~= s.subrange(f, f + 3));
    assert(separator_at(t, f));
    let g = first_separator_from(t, 0);
    if g < f {
        assert(t.subrange(g, g + 3) =~= s.subrange(g, g + 3));
        assert(separator_at(s, g));
    }
}

/// An explicit port wins whatever the URL: setting `JAEGER_PORT` to the
/// decimal text of a port gives that port, for every URL scheme.
pub proof fn law_explicit_port_is_used(url: Seq<char>, port: u16)
    ensures
        resolved_port(url, Some(decimal(port as nat))) == Ok::<u16, PortErrorKind>(port),
{
    law_port_text_round_trip(port);
}

/// Stripping trailing slashes keeps a prefix of length `L` that is empty or
/// ends with another character, and drops only slashes.
proof fn lemma_trim_shape(s: Seq<char>)
    ensures
        trim_trailing_slashes(s).len() <= s.len(),
        trim_trailing_slashes(s) == s.take(trim_trailing_slashes(s).len() as int),
        trim_trailing_slashes(s).len() == 0 || s[trim_trailing_slashes(s).len() - 1] != '/',
        forall|j: int| trim_trailing_slashes(s).len() <= j < s.len() ==> s[j] == '/',
    decreases s.len(),
{
    if s.len() > 0 && s.last() == '/' {
        lemma_trim_shape(s.drop_last());
        let l = trim_trailing_slashes(s).len() as int;
        assert(s.drop_last().take(l) =~= s.take(l));
        assert forall|j: int| l <= j < s.len() implies s[j] == '/' by {
            if j < s.len() - 1 {
                assert(s.drop_last()[j] == s[j]);
            }
        }
    } else {
        assert(s.take(s.len() as int) =~= s);
    }
}

/// Stripping the trailing slashes of a prefix that still holds all the
/// characters kept from `s` keeps the same characters.
proof fn lemma_trim_of_prefix(s: Seq<char>, m: int)
    requires
        trim_trailing_slashes(s).len() <= m <= s.len(),
    ensures
        trim_trailing_slashes(s.take(m)) == trim_trailing_slashes(s),
    decreases m,
{
    lemma_trim_shape(s);
    let l = trim_trailing_slashes(s).len() as int;
    if m == l {
        let t = s.take(m);
        if l > 0 {
            assert(t.last() == s[l - 1]);
        }
    } else {
        let t = s.take(m);
        assert(t.last() == s[m - 1]);
        assert(t.drop_last() =~= s.take(m - 1));
        lemma_trim_of_prefix(s, m - 1);
    }
}

/// Normalizing keeps the scheme: when the text holds `://`, the result starts
/// with the text up to and including its first `://`, and what follows does
/// not end with `/`; otherwise the result starts with `http://` and what
/// follows does not end with `/`.
pub proof fn law_normalized_url_keeps_scheme(url: Seq<char>)
    ensures
        has_scheme_separator(url) ==> {
            let n = normalized_url(url);
            &&& url.take(scheme_end(url)).is_prefix_of(n)
            &&& (n.len() == scheme_end(url) || n.last() != '/')
        },
        !has_scheme_separator(url) ==> {
            let n = normalized_url(url);
            &&& http_prefix().is_prefix_of(n)
            &&& (n.len() == http_prefix().len() || n.last() != '/')
        },
{
    lemma_first_separator_from(url, 0);
    lemma_trim_shape(url);
    let n = normalized_url(url);
    if has_scheme_separator(url) {
        let e = scheme_end(url);
        assert(n.subrange(0, e) =~= url.take(e));
        let l = trim_trailing_slashes(url).len() as int;
        if l > e {
            assert(n.last() == url[l - 1]);
        }
    } else {
        let t = trim_trailing_slashes(url);
        assert(n.subrange(0, 7) =~= http_prefix());
        if t.len() > 0 {
            assert(n.last() == t.last());
            assert(t.last() == url[t.len() - 1]);
        }
    }
}

/// Normalizing is idempotent: a normalized URL normalizes to itself.
pub proof fn law_normalize_url_idempotent(url: Seq<char>)
    ensures
        normalized_url(normalized_url(url)) == normalized_url(url),
{
    lemma_first_separator_from(url, 0);
    lemma_trim_shape(url);
    let n = normalized_url(url);
    if has_scheme_separator(url) {
        let e = scheme_end(url);
        let l = trim_trailing_slashes(url).len() as int;
        let m = if l >= e { l } else { e };
        lemma_first_separator_of_prefix(url, m);
        lemma_first_separator_from(n, 0);
        let f = first_separator_from(url, 0);
        assert(separator_at(n, f)) by {
            assert(n.subrange(f, f + 3) =~= url.subrange(f, f + 3));
        }
        assert(has_scheme_separator(n));
        lemma_trim_of_prefix(url, m);
        assert(n.take(m) =~= n);
    } else {
        let t = trim_trailing_slashes(url);
        let p = http_prefix();
        assert(n.subrange(4, 7) =~= scheme_separator());
        assert(separator_at(n, 4));
        assert(has_scheme_separator(n));
        lemma_first_separator_from(n, 0);
        assert forall|j: int| 0 <= j < 4 implies !separator_at(n, j) by {
            assert(n.subrange(j, j + 3)[0] == n[j]);
            assert(n.subrange(j, j + 3)[1] == n[j + 1]);
            assert(n.subrange(j, j + 3)[2] == n[j + 2]);
        }
        assert(first_separator_from(n, 0) == 4);
        lemma_trim_shape(n);
        if t.len() > 0 {
            lemma_trim_shape(t);
            lemma_trimmed_tail(url);
            assert(n.last() == t.last());
            assert(trim_trailing_slashes(n) == n);
            assert(n.take(n.len() as int) =~= n);
        } else {
            assert(n =~= p);
            let p1 = p.drop_last();
            let p2 = p1.drop_last();
            assert(p1.last() == '/');
            assert(p2.last() == ':');
            assert(trim_trailing_slashes(p2) == p2);
            assert(trim_trailing_slashes(p) == p2);
            assert(n.take(7) =~= n);
        }
    }
}

/// Stripping trailing slashes leaves none at the end.
proof fn lemma_trimmed_tail(s: Seq<char>)
    ensures
        trim_trailing_slashes(s).len() == 0 || trim_trailing_slashes(s).last() != '/',
    decreases s.len(),
{
    if s.len() > 0 && s.last() == '/' {
        lemma_trimmed_tail(s.drop_last());
    }
}

} // verus!
