//! Per-request configuration: read from query parameters and control
//! headers, with the headers taking precedence, and the control headers
//! taken out of the header set.
use vstd::prelude::*;
use crate::headers::{
    lemma_without_keeps_absent, lemma_without_removes, lookup, same_name_absent, without,
    HeaderEntries, Headers,
};
use crate::json::opt_view;
use crate::text::same_text;

verus! {

/// The cache lifetime used when none is given, in seconds.
pub const DEFAULT_EXPIRATION: i32 = 600;

/// The effective options of one request.
#[derive(Debug, Clone)]
pub struct GracheConfig {
    /// How long a response is cached, in seconds; zero or less bypasses the cache.
    pub expiration: i32,
    /// Leaves the session cookies out of the cache key.
    pub ignore_auth: bool,
    /// Lets GraphQL mutations be cached, not just queries.
    pub cache_mutations: bool,
    /// Where requests are forwarded to.
    pub url: String,
}

pub open spec fn expiration_header() -> Seq<char> {
    "Grache-Expiration"@
}

pub open spec fn ignore_auth_header() -> Seq<char> {
    "Grache-Ignore-Auth"@
}

pub open spec fn cache_mutations_header() -> Seq<char> {
    "Grache-Cache-Mutations"@
}

pub open spec fn url_header() -> Seq<char> {
    "Grache-Url"@
}

/// The header set with all four control headers taken out.
pub open spec fn without_control(h: HeaderEntries) -> HeaderEntries {
    without(
        without(without(without(h, ignore_auth_header()), expiration_header()), cache_mutations_header()),
        url_header(),
    )
}

/// The value of the first query parameter named `name`.
pub open spec fn param(qs: Seq<(Seq<char>, Seq<char>)>, name: Seq<char>) -> Option<Seq<char>>
    decreases qs.len(),
{
    if qs.len() == 0 {
        None
    } else if qs[0].0 == name {
        Some(qs[0].1)
    } else {
        param(qs.drop_first(), name)
    }
}

/// A header value is readable as text when it holds only visible ASCII and tabs.
pub open spec fn visible_ascii(s: Seq<char>) -> bool {
    forall|i: int|
        0 <= i < s.len() ==> (32 <= (#[trigger] s[i] as u32) && (s[i] as u32) < 127) || s[i] == '\t'
}

/// The readable first value of header `name`.
pub open spec fn header_text(h: HeaderEntries, name: Seq<char>) -> Option<Seq<char>> {
    match lookup(h, name) {
        Some(v) => if visible_ascii(v) {
            Some(v)
        } else {
            None
        },
        None => None,
    }
}

pub open spec fn digit_value(c: char) -> int {
    (c as u32) as int - 48
}

pub open spec fn all_digits(s: Seq<char>) -> bool {
    s.len() > 0 && forall|i: int| 0 <= i < s.len() ==> 48 <= (#[trigger] s[i] as u32) <= 57
}

/// The number that a string of decimal digits denotes.
pub open spec fn digits_value(s: Seq<char>) -> int
    decreases s.len(),
{
    if s.len() == 0 {
        0
    } else {
        digits_value(s.drop_last()) * 10 + digit_value(s.last())
    }
}

/// The integer that `s` denotes: an optional `+` or `-` and one or more digits.
pub open spec fn integer_of(s: Seq<char>) -> Option<int> {
    if s.len() > 0 && s[0] == '-' && all_digits(s.drop_first()) {
        Some(-digits_value(s.drop_first()))
    } else if s.len() > 0 && s[0] == '+' && all_digits(s.drop_first()) {
        Some(digits_value(s.drop_first()))
    } else if all_digits(s) {
        Some(digits_value(s))
    } else {
        None
    }
}

/// The `i32` that `s` denotes, when it is in range.
pub open spec fn i32_of(s: Seq<char>) -> Option<i32> {
    match integer_of(s) {
        Some(v) => if i32::MIN <= v <= i32::MAX {
            Some(v as i32)
        } else {
            None
        },
        None => None,
    }
}

/// The boolean that `s` spells.
pub open spec fn bool_of(s: Seq<char>) -> Option<bool> {
    if s == "true"@ {
        Some(true)
    } else if s == "false"@ {
        Some(false)
    } else {
        None
    }
}

/// Picks the header's value, else the parameter's, else the default.
pub open spec fn pick<T>(from_header: Option<T>, from_param: Option<T>, default: T) -> T {
    match from_header {
        Some(v) => v,
        None => match from_param {
            Some(v) => v,
            None => default,
        },
    }
}

pub open spec fn opt_i32(s: Option<Seq<char>>) -> Option<i32> {
    match s {
        Some(t) => i32_of(t),
        None => None,
    }
}

pub open spec fn opt_bool(s: Option<Seq<char>>) -> Option<bool> {
    match s {
        Some(t) => bool_of(t),
        None => None,
    }
}

pub open spec fn params_view(qs: Seq<(String, String)>) -> Seq<(Seq<char>, Seq<char>)> {
    qs.map_values(|p: (String, String)| (p.0@, p.1@))
}

/// Relies on `str::parse::<i32>`, whose documented form is an optional `+`
/// or `-` followed by decimal digits, in range.
#[verifier::external_body]
fn parse_i32(s: &str) -> (r: Option<i32>)
    ensures
        r == i32_of(s@),
{
    s.parse::<i32>().ok()
}

fn parse_bool(s: &str) -> (r: Option<bool>)
    ensures
        r == bool_of(s@),
{
    if same_text(s, "true") {
        Some(true)
    } else if same_text(s, "false") {
        Some(false)
    } else {
        None
    }
}

fn is_visible_ascii(s: &str) -> (r: bool)
    ensures
        r == visible_ascii(s@),
{
    let n = s.unicode_len();
    let mut i: usize = 0;
    while i < n
        invariant
            n == s@.len(),
            i <= n,
            forall|j: int|
                0 <= j < i ==> (32 <= (#[trigger] s@[j] as u32) && (s@[j] as u32) < 127) || s@[j]
                    == '\t',
        decreases n - i,
    {
        let c = s.get_char(i);
        if !((32 <= (c as u32) && (c as u32) < 127) || c == '\t') {
            return false;
        }
        i = i + 1;
    }
    true
}

fn find_param(qs: &Vec<(String, String)>, name: &str) -> (r: Option<String>)
    ensures
        opt_view(r) == param(params_view(qs@), name@),
{
    let ghost all = params_view(qs@);
    let mut i: usize = 0;
    assert(all.subrange(0, all.len() as int) =~= all);
    while i < qs.len()
        invariant
            i <= qs@.len(),
            all == params_view(qs@),
            param(all, name@) == param(all.subrange(i as int, all.len() as int), name@),
        decreases qs@.len() - i,
    {
        let ghost rest = all.subrange(i as int, all.len() as int);
        assert(rest.drop_first() =~= all.subrange(i + 1, all.len() as int));
        assert(rest[0] == (qs@[i as int].0@, qs@[i as int].1@));
        if same_text(qs[i].0.as_str(), name) {
            return Some(qs[i].1.clone());
        }
        i = i + 1;
    }
    None
}

/// The raw values of one option, from the query parameter and from the
/// header; the header is taken out of `headers` either way.
fn take_option(headers: &mut Headers, qs: &Vec<(String, String)>, header: &str, name: &str) -> (r: (
    Option<String>,
    Option<String>,
))
    ensures
        opt_view(r.0) == param(params_view(qs@), name@),
        opt_view(r.1) == header_text(old(headers)@, header@),
        final(headers)@ == without(old(headers)@, header@),
{
    let from_param = find_param(qs, name);
    let from_header = match headers.get(header) {
        Some(v) => if is_visible_ascii(v.as_str()) {
            Some(v)
        } else {
            None
        },
        None => None,
    };
    headers.remove(header);
    (from_param, from_header)
}

impl GracheConfig {
    /// Resolves the options of a request. For each option a readable,
    /// well-formed control header wins over the query parameter, which wins
    /// over the default; the four control headers are taken out of `headers`.
    pub fn new(headers: &mut Headers, query_params: &Vec<(String, String)>, default_url: String) -> (r: GracheConfig)
        ensures
            ({
                let h = old(headers)@;
                let qs = params_view(query_params@);
                let h1 = without(h, ignore_auth_header());
                let h2 = without(h1, expiration_header());
                let h3 = without(h2, cache_mutations_header());
                &&& r.ignore_auth == pick(
                    opt_bool(header_text(h, ignore_auth_header())),
                    opt_bool(param(qs, "ignoreAuth"@)),
                    false,
                )
                &&& r.expiration == pick(
                    opt_i32(header_text(h1, expiration_header())),
                    opt_i32(param(qs, "expiration"@)),
                    DEFAULT_EXPIRATION,
                )
                &&& r.cache_mutations == pick(
                    opt_bool(header_text(h2, cache_mutations_header())),
                    opt_bool(param(qs, "cacheMutations"@)),
                    false,
                )
                &&& r.url@ == pick(header_text(h3, url_header()), param(qs, "url"@), default_url@)
            }),
            final(headers)@ == without_control(old(headers)@),
    {
        let (q, h) = take_option(headers, query_params, "Grache-Ignore-Auth", "ignoreAuth");
        let ignore_auth = GracheConfig::resolve_bool(h, q, false);
        let (q, h) = take_option(headers, query_params, "Grache-Expiration", "expiration");
        let expiration = GracheConfig::resolve_i32(h, q, DEFAULT_EXPIRATION);
        let (q, h) = take_option(headers, query_params, "Grache-Cache-Mutations", "cacheMutations");
        let cache_mutations = GracheConfig::resolve_bool(h, q, false);
        let (q, h) = take_option(headers, query_params, "Grache-Url", "url");
        let url = match h {
            Some(v) => v,
            None => match q {
                Some(v) => v,
                None => default_url,
            },
        };
        GracheConfig { expiration, ignore_auth, cache_mutations, url }
    }

    fn resolve_bool(from_header: Option<String>, from_param: Option<String>, default: bool) -> (r: bool)
        ensures
            r == pick(opt_bool(opt_view(from_header)), opt_bool(opt_view(from_param)), default),
    {
        if let Some(v) = &from_header {
            if let Some(b) = parse_bool(v.as_str()) {
                return b;
            }
        }
        if let Some(v) = &from_param {
            if let Some(b) = parse_bool(v.as_str()) {
                return b;
            }
        }
        default
    }

    fn resolve_i32(from_header: Option<String>, from_param: Option<String>, default: i32) -> (r: i32)
        ensures
            r == pick(opt_i32(opt_view(from_header)), opt_i32(opt_view(from_param)), default),
    {
        if let Some(v) = &from_header {
            if let Some(n) = parse_i32(v.as_str()) {
                return n;
            }
        }
        if let Some(v) = &from_param {
            if let Some(n) = parse_i32(v.as_str()) {
                return n;
            }
        }
        default
    }
}

/// After resolution no control header is left in the header set.
pub proof fn lemma_control_headers_stripped(h: HeaderEntries)
    ensures
        same_name_absent(without_control(h), ignore_auth_header()),
        same_name_absent(without_control(h), expiration_header()),
        same_name_absent(without_control(h), cache_mutations_header()),
        same_name_absent(without_control(h), url_header()),
{
    let h1 = without(h, ignore_auth_header());
    let h2 = without(h1, expiration_header());
    let h3 = without(h2, cache_mutations_header());
    lemma_without_removes(h, ignore_auth_header());
    lemma_without_keeps_absent(h1, expiration_header(), ignore_auth_header());
    lemma_without_keeps_absent(h2, cache_mutations_header(), ignore_auth_header());
    lemma_without_keeps_absent(h3, url_header(), ignore_auth_header());
    lemma_without_removes(h1, expiration_header());
    lemma_without_keeps_absent(h2, cache_mutations_header(), expiration_header());
    lemma_without_keeps_absent(h3, url_header(), expiration_header());
    lemma_without_removes(h2, cache_mutations_header());
    lemma_without_keeps_absent(h3, url_header(), cache_mutations_header());
    lemma_without_removes(h3, url_header());
}

} // verus!
