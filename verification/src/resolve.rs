//! Endpoint resolution, minus the network: building the assignment request
//! URI, deriving the relay host from the base URL, and turning the relay's
//! JSON response into a [`TunnelServerInfo`].

use vstd::prelude::*;
use vstd::string::StrSliceExecFns;
use vstd::string::StringExecFns;

verus! {

/// Relay used when the caller names none.
pub const AD4M_PROXY_SERVER: &'static str = "http://proxy.ad4m.dev";

/// Local host used when the caller names none.
pub const LOCAL_HOST: &'static str = "127.0.0.1";

/// Wildcard subdomain token: asks the relay to assign any free subdomain.
pub const WILDCARD_SUBDOMAIN: &'static str = "?new";

/// The base URL to resolve against: the one given, or the default relay.
pub fn effective_server<'a>(server: Option<&'a str>) -> (s: &'a str)
    ensures
        s@ == (match server {
            Some(v) => v@,
            None => AD4M_PROXY_SERVER@,
        }),
{
    match server {
        Some(v) => v,
        None => AD4M_PROXY_SERVER,
    }
}

/// The path requested from the relay: the base URL, a slash, and the
/// requested subdomain or the wildcard token.
pub fn assignment_uri(server: &str, subdomain: Option<&str>) -> (uri: String)
    ensures
        uri@ == server@ + "/"@ + (match subdomain {
            Some(d) => d@,
            None => WILDCARD_SUBDOMAIN@,
        }),
{
    let mut uri = server.to_owned();
    uri.append("/");
    match subdomain {
        Some(d) => uri.append(d),
        None => uri.append(WILDCARD_SUBDOMAIN),
    }
    uri
}

/// Index just after the first `//` in `s`, scanning from `i`.
pub open spec fn host_start(s: Seq<char>, i: int) -> Option<int>
    decreases s.len() - i when 0 <= i <= s.len()
{
    if i + 2 > s.len() {
        None
    } else if s[i] == '/' && s[i + 1] == '/' {
        Some(i + 2)
    } else {
        host_start(s, i + 1)
    }
}

proof fn lemma_host_start_bounds(s: Seq<char>, i: int)
    requires
        0 <= i <= s.len(),
    ensures
        (host_start(s, i) matches Some(j) ==> i + 2 <= j <= s.len()),
    decreases s.len() - i,
{
    if i + 2 <= s.len() && !(s[i] == '/' && s[i + 1] == '/') {
        lemma_host_start_bounds(s, i + 1);
    }
}

/// The relay host named by a base URL: the substring after the first `//`,
/// or nothing when the URL has no scheme separator.
pub open spec fn spec_relay_host(s: Seq<char>) -> Option<Seq<char>> {
    match host_start(s, 0) {
        Some(j) => Some(s.subrange(j, s.len() as int)),
        None => None,
    }
}

fn host_start_exec(s: &str, i: usize) -> (r: Option<usize>)
    requires
        i <= s@.len(),
    ensures
        (r matches Some(j) ==> host_start(s@, i as int) == Some(j as int) && j <= s@.len()),
        r is None ==> host_start(s@, i as int) is None,
    decreases s@.len() - i,
{
    proof {
        lemma_host_start_bounds(s@, i as int);
    }
    let n = s.unicode_len();
    if i >= n || n - i < 2 {
        None
    } else if s.get_char(i) == '/' && s.get_char(i + 1) == '/' {
        Some(i + 2)
    } else {
        host_start_exec(s, i + 1)
    }
}

/// Strip the scheme from a base URL: everything after the first `//`.
pub fn relay_host(server: &str) -> (r: Option<String>)
    ensures
        (r matches Some(h) ==> spec_relay_host(server@) == Some(h@)),
        r is None ==> spec_relay_host(server@) is None,
{
    match host_start_exec(server, 0) {
        Some(j) => {
            let n = server.unicode_len();
            let h = server.substring_char(j, n).to_owned();
            Some(h)
        },
        None => None,
    }
}

// --- Tokens of the relay's JSON response -------------------------------
//
// The response body is a flat JSON object whose values are strings and
// unsigned integers, as the assignment endpoint sends it. The parser below
// covers exactly that: object punctuation, whitespace, quoted strings
// without escape sequences, and unsigned decimal numbers of at most five
// digits (enough for any port). Anything else is rejected as malformed.

/// JSON insignificant whitespace.
pub open spec fn is_json_ws(c: char) -> bool {
    c == ' ' || c == '\t' || c == '\n' || c == '\r'
}

/// A character that may stand unescaped inside a JSON string.
pub open spec fn is_string_char(c: char) -> bool {
    c != '"' && c != '\\' && c as int >= 32
}

/// A decimal digit.
pub open spec fn is_json_digit(c: char) -> bool {
    '0' <= c && c <= '9'
}

/// First index at or after `i` holding no whitespace.
pub open spec fn skip_ws(s: Seq<char>, i: int) -> int
    decreases s.len() - i when 0 <= i <= s.len()
{
    if i < s.len() && is_json_ws(s[i]) {
        skip_ws(s, i + 1)
    } else {
        i
    }
}

proof fn lemma_skip_ws_bounds(s: Seq<char>, i: int)
    requires
        0 <= i <= s.len(),
    ensures
        i <= skip_ws(s, i) <= s.len(),
    decreases s.len() - i,
{
    if i < s.len() && is_json_ws(s[i]) {
        lemma_skip_ws_bounds(s, i + 1);
    }
}

fn is_json_ws_exec(c: char) -> (b: bool)
    ensures
        b == is_json_ws(c),
{
    c == ' ' || c == '\t' || c == '\n' || c == '\r'
}

fn skip_ws_exec(s: &str, i: usize) -> (j: usize)
    requires
        i <= s@.len(),
    ensures
        j as int == skip_ws(s@, i as int),
        i <= j <= s@.len(),
    decreases s@.len() - i,
{
    proof {
        lemma_skip_ws_bounds(s@, i as int);
    }
    let n = s.unicode_len();
    if i < n && is_json_ws_exec(s.get_char(i)) {
        skip_ws_exec(s, i + 1)
    } else {
        i
    }
}

/// Index of the closing quote of a string whose content starts at `i`, if
/// every character before it may stand in a string.
pub open spec fn string_end(s: Seq<char>, i: int) -> Option<int>
    decreases s.len() - i when 0 <= i <= s.len()
{
    if i >= s.len() {
        None
    } else if s[i] == '"' {
        Some(i)
    } else if is_string_char(s[i]) {
        string_end(s, i + 1)
    } else {
        None
    }
}

proof fn lemma_string_end_bounds(s: Seq<char>, i: int)
    requires
        0 <= i <= s.len(),
    ensures
        (string_end(s, i) matches Some(e) ==> i <= e < s.len()),
    decreases s.len() - i,
{
    if i < s.len() && s[i] != '"' && is_string_char(s[i]) {
        lemma_string_end_bounds(s, i + 1);
    }
}

fn is_string_char_exec(c: char) -> (b: bool)
    ensures
        b == is_string_char(c),
{
    c != '"' && c != '\\' && c as u32 >= 32
}

fn string_end_exec(s: &str, i: usize) -> (r: Option<usize>)
    requires
        i <= s@.len(),
    ensures
        (r matches Some(e) ==> string_end(s@, i as int) == Some(e as int) && i <= e
            && e < s@.len()),
        r is None ==> string_end(s@, i as int) is None,
    decreases s@.len() - i,
{
    proof {
        lemma_string_end_bounds(s@, i as int);
    }
    let n = s.unicode_len();
    if i >= n {
        None
    } else {
        let c = s.get_char(i);
        if c == '"' {
            Some(i)
        } else if is_string_char_exec(c) {
            string_end_exec(s, i + 1)
        } else {
            None
        }
    }
}

/// A quoted string starting at `i`: its content and the index just past the
/// closing quote.
pub open spec fn parse_string(s: Seq<char>, i: int) -> Option<(Seq<char>, int)> {
    if 0 <= i < s.len() && s[i] == '"' {
        match string_end(s, i + 1) {
            Some(e) => Some((s.subrange(i + 1, e), e + 1)),
            None => None,
        }
    } else {
        None
    }
}

fn parse_string_exec(s: &str, i: usize) -> (r: Option<(String, usize)>)
    requires
        i <= s@.len(),
    ensures
        (r matches Some(p) ==> parse_string(s@, i as int) == Some((p.0@, p.1 as int)) && i < p.1
            <= s@.len()),
        r is None ==> parse_string(s@, i as int) is None,
{
    let n = s.unicode_len();
    if i < n && s.get_char(i) == '"' {
        match string_end_exec(s, i + 1) {
            Some(e) => {
                let content = s.substring_char(i + 1, e).to_owned();
                Some((content, e + 1))
            },
            None => None,
        }
    } else {
        None
    }
}

/// First index at or after `i` holding no digit.
pub open spec fn digits_end(s: Seq<char>, i: int) -> int
    decreases s.len() - i when 0 <= i <= s.len()
{
    if i < s.len() && is_json_digit(s[i]) {
        digits_end(s, i + 1)
    } else {
        i
    }
}

proof fn lemma_digits_end_bounds(s: Seq<char>, i: int)
    requires
        0 <= i <= s.len(),
    ensures
        i <= digits_end(s, i) <= s.len(),
        forall|k: int| i <= k < digits_end(s, i) ==> is_json_digit(#[trigger] s[k]),
    decreases s.len() - i,
{
    if i < s.len() && is_json_digit(s[i]) {
        lemma_digits_end_bounds(s, i + 1);
    }
}

/// The value of the digit run `s[i..e)` read as a decimal number.
pub open spec fn digits_val(s: Seq<char>, i: int, e: int) -> int
    decreases e - i,
{
    if i < e {
        digits_val(s, i, e - 1) * 10 + (s[e - 1] as int - 48)
    } else {
        0
    }
}

proof fn lemma_digits_val_bound(s: Seq<char>, i: int, e: int)
    requires
        0 <= i <= e <= s.len(),
        forall|k: int| i <= k < e ==> is_json_digit(#[trigger] s[k]),
        e - i <= 5,
    ensures
        0 <= digits_val(s, i, e) < 100000,
        e - i <= 4 ==> digits_val(s, i, e) < 10000,
        e - i <= 3 ==> digits_val(s, i, e) < 1000,
        e - i <= 2 ==> digits_val(s, i, e) < 100,
        e - i <= 1 ==> digits_val(s, i, e) < 10,
    decreases e - i,
{
    if i < e {
        lemma_digits_val_bound(s, i, e - 1);
        assert(is_json_digit(s[e - 1]));
        assert(0 <= s[e - 1] as int - 48 <= 9);
    }
}

/// An unsigned decimal number starting at `i`: its value and the index just
/// past its digits. Rejected when empty, longer than five digits, or with a
/// leading zero.
pub open spec fn parse_number(s: Seq<char>, i: int) -> Option<(int, int)> {
    let e = digits_end(s, i);
    if e == i {
        None
    } else if e - i > 5 {
        None
    } else if e - i > 1 && s[i] == '0' {
        None
    } else {
        Some((digits_val(s, i, e), e))
    }
}

fn digits_end_exec(s: &str, i: usize) -> (e: usize)
    requires
        i <= s@.len(),
    ensures
        e as int == digits_end(s@, i as int),
        i <= e <= s@.len(),
    decreases s@.len() - i,
{
    proof {
        lemma_digits_end_bounds(s@, i as int);
    }
    let n = s.unicode_len();
    if i < n {
        let c = s.get_char(i);
        if '0' <= c && c <= '9' {
            return digits_end_exec(s, i + 1);
        }
    }
    i
}

fn parse_number_exec(s: &str, i: usize) -> (r: Option<(u32, usize)>)
    requires
        i <= s@.len(),
    ensures
        (r matches Some(p) ==> parse_number(s@, i as int) == Some((p.0 as int, p.1 as int))
            && i < p.1 <= s@.len()),
        r is None ==> parse_number(s@, i as int) is None,
{
    let e = digits_end_exec(s, i);
    proof {
        lemma_digits_end_bounds(s@, i as int);
    }
    if e == i {
        None
    } else if e - i > 5 {
        None
    } else if e - i > 1 && s.get_char(i) == '0' {
        None
    } else {
        let mut v: u32 = 0;
        let mut j: usize = i;
        while j < e
            invariant
                i <= j <= e,
                e as int == digits_end(s@, i as int),
                e <= s@.len(),
                e - i <= 5,
                forall|k: int| i <= k < e ==> is_json_digit(#[trigger] s@[k]),
                v as int == digits_val(s@, i as int, j as int),
            decreases e - j,
        {
            proof {
                lemma_digits_val_bound(s@, i as int, j as int);
                assert(is_json_digit(s@[j as int]));
            }
            let c = s.get_char(j);
            let d: u32 = c as u32 - 48;
            v = v * 10 + d;
            j = j + 1;
        }
        Some((v, e))
    }
}

// --- The response object ------------------------------------------------

/// The fields of the assignment response, as mathematical values.
pub ghost struct SpecResponse {
    pub id: Seq<char>,
    pub port: int,
    pub max_conn_count: int,
    pub url: Seq<char>,
}

/// Fields collected so far while walking the members of the object.
pub ghost struct SpecFields {
    pub id: Option<Seq<char>>,
    pub port: Option<int>,
    pub max_conn_count: Option<int>,
    pub url: Option<Seq<char>>,
}

pub open spec fn empty_fields() -> SpecFields {
    SpecFields { id: None, port: None, max_conn_count: None, url: None }
}

/// Step over one value of an unknown member: a string or a number.
pub open spec fn skip_value(s: Seq<char>, i: int) -> Option<int> {
    match parse_string(s, i) {
        Some(p) => Some(p.1),
        None => match parse_number(s, i) {
            Some(q) => Some(q.1),
            None => None,
        },
    }
}

/// Consume the value of the member named `key`, starting at `i`, and record
/// it. A known key must carry a value of its type, in range, and may not
/// repeat; an unknown key may carry any string or number, which is ignored.
pub open spec fn apply_member(f: SpecFields, key: Seq<char>, s: Seq<char>, i: int) -> Option<
    (SpecFields, int),
> {
    if key == "id"@ {
        if f.id is Some {
            None
        } else {
            match parse_string(s, i) {
                Some(p) => Some((SpecFields { id: Some(p.0), ..f }, p.1)),
                None => None,
            }
        }
    } else if key == "url"@ {
        if f.url is Some {
            None
        } else {
            match parse_string(s, i) {
                Some(p) => Some((SpecFields { url: Some(p.0), ..f }, p.1)),
                None => None,
            }
        }
    } else if key == "port"@ {
        if f.port is Some {
            None
        } else {
            match parse_number(s, i) {
                Some(p) => if p.0 <= 65535 {
                    Some((SpecFields { port: Some(p.0), ..f }, p.1))
                } else {
                    None
                },
                None => None,
            }
        }
    } else if key == "max_conn_count"@ {
        if f.max_conn_count is Some {
            None
        } else {
            match parse_number(s, i) {
                Some(p) => if p.0 <= 255 {
                    Some((SpecFields { max_conn_count: Some(p.0), ..f }, p.1))
                } else {
                    None
                },
                None => None,
            }
        }
    } else {
        match skip_value(s, i) {
            Some(j) => Some((f, j)),
            None => None,
        }
    }
}

/// The members of the object, from the first key at `i` to the closing
/// brace: collects the fields and returns the index just past the brace.
/// `fuel` bounds the recursion; one unit is spent per member, and each
/// member is at least one character long, so fuel of the text's length is
/// always enough.
pub open spec fn parse_members(s: Seq<char>, i: int, f: SpecFields, fuel: nat) -> Option<
    (SpecFields, int),
>
    decreases fuel,
{
    if fuel == 0 {
        None
    } else {
        match parse_string(s, i) {
            None => None,
            Some(kp) => {
                let j = skip_ws(s, kp.1);
                if j < s.len() && s[j] == ':' {
                    let v = skip_ws(s, j + 1);
                    match apply_member(f, kp.0, s, v) {
                        None => None,
                        Some(fp) => {
                            let w = skip_ws(s, fp.1);
                            if w < s.len() && s[w] == ',' {
                                parse_members(s, skip_ws(s, w + 1), fp.0, (fuel - 1) as nat)
                            } else if w < s.len() && s[w] == '}' {
                                Some((fp.0, w + 1))
                            } else {
                                None
                            }
                        },
                    }
                } else {
                    None
                }
            },
        }
    }
}

/// The whole response: one object, nothing but whitespace around it, all
/// four required fields present.
pub open spec fn spec_parse_response(s: Seq<char>) -> Option<SpecResponse> {
    let i = skip_ws(s, 0);
    if i < s.len() && s[i] == '{' {
        let j = skip_ws(s, i + 1);
        match parse_members(s, j, empty_fields(), s.len()) {
            Some(r) => if skip_ws(s, r.1) == s.len() {
                match (r.0.id, r.0.port, r.0.max_conn_count, r.0.url) {
                    (Some(id), Some(port), Some(mcc), Some(url)) => Some(
                        SpecResponse { id, port, max_conn_count: mcc, url },
                    ),
                    _ => None,
                }
            } else {
                None
            },
            None => None,
        }
    } else {
        None
    }
}

struct PartialFields {
    id: Option<String>,
    port: Option<u16>,
    max_conn_count: Option<u8>,
    url: Option<String>,
}

spec fn pf_view(f: PartialFields) -> SpecFields {
    SpecFields {
        id: match f.id {
            Some(x) => Some(x@),
            None => None,
        },
        port: match f.port {
            Some(x) => Some(x as int),
            None => None,
        },
        max_conn_count: match f.max_conn_count {
            Some(x) => Some(x as int),
            None => None,
        },
        url: match f.url {
            Some(x) => Some(x@),
            None => None,
        },
    }
}

fn skip_value_exec(s: &str, i: usize) -> (r: Option<usize>)
    requires
        i <= s@.len(),
    ensures
        (r matches Some(j) ==> skip_value(s@, i as int) == Some(j as int) && i < j <= s@.len()),
        r is None ==> skip_value(s@, i as int) is None,
{
    match parse_string_exec(s, i) {
        Some((_, j)) => Some(j),
        None => match parse_number_exec(s, i) {
            Some((_, j)) => Some(j),
            None => None,
        },
    }
}

fn apply_member_exec(f: PartialFields, key: String, s: &str, i: usize) -> (r: Option<
    (PartialFields, usize),
>)
    requires
        i <= s@.len(),
    ensures
        (r matches Some(p) ==> apply_member(pf_view(f), key@, s@, i as int) == Some(
            (pf_view(p.0), p.1 as int),
        ) && i < p.1 <= s@.len()),
        r is None ==> apply_member(pf_view(f), key@, s@, i as int) is None,
{
    let id_lit: String = "id".to_owned();
    let url_lit: String = "url".to_owned();
    let port_lit: String = "port".to_owned();
    let mcc_lit: String = "max_conn_count".to_owned();
    if key == id_lit {
        if f.id.is_some() {
            None
        } else {
            match parse_string_exec(s, i) {
                Some((val, next)) => Some((PartialFields { id: Some(val), ..f }, next)),
                None => None,
            }
        }
    } else if key == url_lit {
        if f.url.is_some() {
            None
        } else {
            match parse_string_exec(s, i) {
                Some((val, next)) => Some((PartialFields { url: Some(val), ..f }, next)),
                None => None,
            }
        }
    } else if key == port_lit {
        if f.port.is_some() {
            None
        } else {
            match parse_number_exec(s, i) {
                Some((v, next)) => if v <= 65535 {
                    Some((PartialFields { port: Some(v as u16), ..f }, next))
                } else {
                    None
                },
                None => None,
            }
        }
    } else if key == mcc_lit {
        if f.max_conn_count.is_some() {
            None
        } else {
            match parse_number_exec(s, i) {
                Some((v, next)) => if v <= 255 {
                    Some((PartialFields { max_conn_count: Some(v as u8), ..f }, next))
                } else {
                    None
                },
                None => None,
            }
        }
    } else {
        match skip_value_exec(s, i) {
            Some(j) => Some((f, j)),
            None => None,
        }
    }
}

fn parse_members_exec(s: &str, i: usize, f: PartialFields, fuel: usize) -> (r: Option<
    (PartialFields, usize),
>)
    requires
        i <= s@.len(),
    ensures
        (r matches Some(p) ==> parse_members(s@, i as int, pf_view(f), fuel as nat) == Some(
            (pf_view(p.0), p.1 as int),
        ) && p.1 <= s@.len()),
        r is None ==> parse_members(s@, i as int, pf_view(f), fuel as nat) is None,
    decreases fuel,
{
    if fuel == 0 {
        return None;
    }
    let n = s.unicode_len();
    match parse_string_exec(s, i) {
        None => None,
        Some((key, after_key)) => {
            let j = skip_ws_exec(s, after_key);
            if j < n && s.get_char(j) == ':' {
                let v = skip_ws_exec(s, j + 1);
                match apply_member_exec(f, key, s, v) {
                    None => None,
                    Some((f2, next)) => {
                        let w = skip_ws_exec(s, next);
                        if w < n && s.get_char(w) == ',' {
                            let k2 = skip_ws_exec(s, w + 1);
                            parse_members_exec(s, k2, f2, fuel - 1)
                        } else if w < n && s.get_char(w) == '}' {
                            Some((f2, w + 1))
                        } else {
                            None
                        }
                    },
                }
            } else {
                None
            }
        },
    }
}

/// The parsed assignment response, as the original's response struct had it.
pub struct ProxyResponse {
    pub id: String,
    pub port: u16,
    pub max_conn_count: u8,
    pub url: String,
}

/// The mathematical value a parsed response stands for.
pub open spec fn response_view(t: ProxyResponse) -> SpecResponse {
    SpecResponse {
        id: t.id@,
        port: t.port as int,
        max_conn_count: t.max_conn_count as int,
        url: t.url@,
    }
}

/// Parse the relay's JSON assignment response. Returns the fields exactly
/// when the body is one well-formed object carrying all of `id`, `port`,
/// `max_conn_count` and `url` with values of the right type and range.
pub fn parse_proxy_response(body: &str) -> (r: Option<ProxyResponse>)
    ensures
        (r matches Some(t) ==> spec_parse_response(body@) == Some(response_view(t))),
        r is None ==> spec_parse_response(body@) is None,
{
    let n = body.unicode_len();
    let i = skip_ws_exec(body, 0);
    if i < n && body.get_char(i) == '{' {
        let j = skip_ws_exec(body, i + 1);
        let f0 = PartialFields { id: None, port: None, max_conn_count: None, url: None };
        match parse_members_exec(body, j, f0, n) {
            Some((f, next)) => {
                let t = skip_ws_exec(body, next);
                if t == n {
                    match (f.id, f.port, f.max_conn_count, f.url) {
                        (Some(id), Some(port), Some(mcc), Some(url)) => Some(
                            ProxyResponse { id, port, max_conn_count: mcc, url },
                        ),
                        _ => None,
                    }
                } else {
                    None
                }
            },
            None => None,
        }
    } else {
        None
    }
}

// --- Resolution outcome -------------------------------------------------

/// Why endpoint resolution failed. All three are fatal to the resolve call;
/// there is no retry.
#[derive(Clone, Copy, PartialEq, Eq, Structural, Debug)]
pub enum ResolveError {
    /// The transport failed before any response arrived.
    NetworkError,
    /// The relay answered with a non-success status.
    ProtocolError,
    /// The body was missing or its fields invalid.
    MalformedResponse,
}

impl ResolveError {
    /// A short description, for logs.
    pub fn describe(&self) -> (m: &'static str)
        ensures
            (match self {
                ResolveError::NetworkError => m@ == "network error during endpoint resolution"@,
                ResolveError::ProtocolError => m@ == "relay returned a non-success status"@,
                ResolveError::MalformedResponse => m@
                    == "relay response body missing or invalid"@,
            }),
    {
        match self {
            ResolveError::NetworkError => "network error during endpoint resolution",
            ResolveError::ProtocolError => "relay returned a non-success status",
            ResolveError::MalformedResponse => "relay response body missing or invalid",
        }
    }
}

/// The resolved tunnel endpoint: relay host and port to connect to, the
/// concurrency cap, and the public URL assigned to this tunnel. Immutable
/// once resolved.
#[derive(Clone, Debug)]
pub struct TunnelServerInfo {
    pub host: String,
    pub port: u16,
    pub max_conn_count: u8,
    pub url: String,
}

/// Turn the relay's answer into the endpoint: a non-success status is a
/// protocol error, an unparsable body a malformed response; otherwise the
/// host comes from the base URL and the rest from the body.
///
/// The base URL must carry a scheme separator; a caller that cannot
/// guarantee that checks with [`relay_host`] first.
pub fn endpoint_from_response(server: &str, status_ok: bool, body: &str) -> (r: Result<
    TunnelServerInfo,
    ResolveError,
>)
    requires
        spec_relay_host(server@) is Some,
    ensures
        !status_ok ==> r == Err::<TunnelServerInfo, ResolveError>(ResolveError::ProtocolError),
        status_ok && spec_parse_response(body@) is None ==> r == Err::<
            TunnelServerInfo,
            ResolveError,
        >(ResolveError::MalformedResponse),
        status_ok ==> (spec_parse_response(body@) matches Some(resp) ==> (r matches Ok(info)
            && Some(info.host@) == spec_relay_host(server@) && info.port as int == resp.port
            && info.max_conn_count as int == resp.max_conn_count && info.url@ == resp.url)),
{
    if !status_ok {
        return Err(ResolveError::ProtocolError);
    }
    match parse_proxy_response(body) {
        None => Err(ResolveError::MalformedResponse),
        Some(p) => {
            match relay_host(server) {
                Some(h) => Ok(
                    TunnelServerInfo {
                        host: h,
                        port: p.port,
                        max_conn_count: p.max_conn_count,
                        url: p.url,
                    },
                ),
                None => {
                    proof {
                        assert(false);
                    }
                    Err(ResolveError::MalformedResponse)
                },
            }
        },
    }
}

} // verus!
