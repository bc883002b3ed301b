//! A request with its classified body, auth identifiers, options and the
//! header set to forward; the sanitising of headers for the upstream origin
//! and the derivation of the cache key.
use vstd::prelude::*;
use crate::body::{BodyModel, GQLType, RequestBody};
use crate::config::{
    cache_mutations_header, expiration_header, ignore_auth_header, lemma_control_headers_stripped,
    url_header, without_control, GracheConfig,
};
use crate::headers::{
    lemma_replaced_keeps_absent, lemma_without_keeps_absent, replaced, same_name_absent, without,
    HeaderEntries, Headers,
};
use crate::text::same_name;
use crate::json::opt_view;

verus! {

/// Why a header set could not be prepared for the upstream origin.
#[derive(Debug, Clone, Copy, PartialEq, Eq, Structural)]
pub enum HeaderError {
    /// The upstream URL does not parse or has no host.
    InvalidUpstreamUrl,
    /// The host cannot stand in a header value.
    InvalidHeaderValue,
}

/// The host of the URL `s`, if it parses and has one.
pub uninterp spec fn url_host_of(s: Seq<char>) -> Option<Seq<char>>;

/// Relies on `url::Url::parse` and `Url::host_str` for the host of a URL.
#[verifier::external_body]
fn url_host(s: &str) -> (r: Option<String>)
    ensures
        opt_view(r) == url_host_of(s@),
{
    url::Url::parse(s).ok().and_then(|u| u.host_str().map(|h| h.to_string()))
}

/// A 64-bit hash of a text, the same for the same text in every run.
pub uninterp spec fn key_hash_of(s: Seq<char>) -> u64;

/// Relies on `BuildHasher::hash_one` with the unkeyed std `DefaultHasher`,
/// which hashes a string by its bytes and a terminator.
#[verifier::external_body]
fn hash_text(s: &str) -> (r: u64)
    ensures
        r == key_hash_of(s@),
{
    std::hash::BuildHasher::hash_one(
        &std::hash::BuildHasherDefault::<std::collections::hash_map::DefaultHasher>::default(),
        s,
    )
}

/// A header value may hold any character but the controls other than tab.
pub open spec fn valid_header_value(s: Seq<char>) -> bool {
    forall|i: int|
        0 <= i < s.len() ==> ((32 <= (#[trigger] s[i] as u32) && (s[i] as u32) != 127) || s[i]
            == '\t')
}

/// The header set to send to an upstream origin whose host is `host`.
pub open spec fn sanitized(h: HeaderEntries, host: Seq<char>) -> HeaderEntries {
    replaced(
        without(replaced(without_control(h), "Host"@, host), "Content-Length"@),
        "Accept-Encoding"@,
        "gzip"@,
    )
}

/// The outcome of sanitising `h` for the upstream URL `url`.
pub open spec fn sanitize_result(h: HeaderEntries, url: Seq<char>) -> Result<HeaderEntries, HeaderError> {
    match url_host_of(url) {
        Some(host) => if valid_header_value(host) {
            Ok(sanitized(h, host))
        } else {
            Err(HeaderError::InvalidHeaderValue)
        },
        None => Err(HeaderError::InvalidUpstreamUrl),
    }
}

pub open spec fn headers_result(r: Result<Headers, HeaderError>) -> Result<HeaderEntries, HeaderError> {
    match r {
        Ok(h) => Ok(h@),
        Err(e) => Err(e),
    }
}

/// The header set actually forwarded: sanitised where that succeeds,
/// otherwise the inbound one unchanged.
pub open spec fn outbound(h: HeaderEntries, url: Seq<char>) -> HeaderEntries {
    match url_host_of(url) {
        Some(host) => if valid_header_value(host) {
            sanitized(h, host)
        } else {
            h
        },
        None => h,
    }
}

pub open spec fn auth_view(a: Option<(String, String)>) -> Option<(Seq<char>, Seq<char>)> {
    match a {
        Some(p) => Some((p.0@, p.1@)),
        None => None,
    }
}

/// What the auth identifiers add to the key: both, in order, unless auth is
/// ignored or they are missing.
pub open spec fn auth_parts(ignore_auth: bool, auth: Option<(Seq<char>, Seq<char>)>) -> Seq<Seq<char>> {
    match auth {
        Some(p) => if ignore_auth {
            seq![]
        } else {
            seq![p.0, p.1]
        },
        None => seq![],
    }
}

/// What the body adds to the key. A mutation adds nothing unless mutations
/// are cached.
pub open spec fn body_parts(b: BodyModel, cache_mutations: bool) -> Seq<Seq<char>> {
    match b {
        BodyModel::Gql(g, k) => if k == GQLType::Query || cache_mutations {
            seq![g.0, g.2]
        } else {
            seq![]
        },
        BodyModel::Json(t) => seq![t],
        BodyModel::Text(t) => seq![t],
        BodyModel::Unknown => seq![],
    }
}

/// The values a cache key is made of, in order: upstream URL, auth, body.
pub open spec fn key_parts(
    url: Seq<char>,
    ignore_auth: bool,
    cache_mutations: bool,
    auth: Option<(Seq<char>, Seq<char>)>,
    body: BodyModel,
) -> Seq<Seq<char>> {
    seq![url] + auth_parts(ignore_auth, auth) + body_parts(body, cache_mutations)
}

pub open spec fn digit_seq(d: nat) -> Seq<char> {
    if d == 0 {
        seq!['0']
    } else if d == 1 {
        seq!['1']
    } else if d == 2 {
        seq!['2']
    } else if d == 3 {
        seq!['3']
    } else if d == 4 {
        seq!['4']
    } else if d == 5 {
        seq!['5']
    } else if d == 6 {
        seq!['6']
    } else if d == 7 {
        seq!['7']
    } else if d == 8 {
        seq!['8']
    } else {
        seq!['9']
    }
}

/// The decimal digits of `n`.
pub open spec fn decimal(n: nat) -> Seq<char>
    decreases n,
{
    if n < 10 {
        digit_seq(n)
    } else {
        decimal(n / 10) + digit_seq(n % 10)
    }
}

/// The parts as one text, each written as its length, a colon and itself.
pub open spec fn framed(parts: Seq<Seq<char>>) -> Seq<char>
    decreases parts.len(),
{
    if parts.len() == 0 {
        seq![]
    } else {
        framed(parts.drop_last()) + decimal(parts.last().len()) + seq![':'] + parts.last()
    }
}

/// The cache key of a request.
pub open spec fn cache_key_of(
    url: Seq<char>,
    ignore_auth: bool,
    cache_mutations: bool,
    auth: Option<(Seq<char>, Seq<char>)>,
    body: BodyModel,
) -> u64 {
    key_hash_of(framed(key_parts(url, ignore_auth, cache_mutations, auth, body)))
}

fn digit_str(d: usize) -> (r: &'static str)
    requires
        d < 10,
    ensures
        r@ == digit_seq(d as nat),
{
    proof {
        reveal_strlit("0");
        reveal_strlit("1");
        reveal_strlit("2");
        reveal_strlit("3");
        reveal_strlit("4");
        reveal_strlit("5");
        reveal_strlit("6");
        reveal_strlit("7");
        reveal_strlit("8");
        reveal_strlit("9");
    }
    if d == 0 {
        "0"
    } else if d == 1 {
        "1"
    } else if d == 2 {
        "2"
    } else if d == 3 {
        "3"
    } else if d == 4 {
        "4"
    } else if d == 5 {
        "5"
    } else if d == 6 {
        "6"
    } else if d == 7 {
        "7"
    } else if d == 8 {
        "8"
    } else {
        "9"
    }
}

fn push_decimal(out: &mut String, n: usize)
    ensures
        final(out)@ == old(out)@ + decimal(n as nat),
    decreases n,
{
    if n >= 10 {
        push_decimal(out, n / 10);
    }
    out.append(digit_str(n % 10));
    assert(final(out)@ =~= old(out)@ + decimal(n as nat));
}

fn push_part(out: &mut String, part: &str)
    ensures
        final(out)@ == old(out)@ + decimal(part@.len()) + seq![':'] + part@,
{
    push_decimal(out, part.unicode_len());
    proof {
        reveal_strlit(":");
    }
    out.append(":");
    out.append(part);
}

fn frame(parts: &Vec<String>) -> (r: String)
    ensures
        r@ == framed(parts@.map_values(|s: String| s@)),
{
    let ghost ps = parts@.map_values(|s: String| s@);
    let mut out = String::new();
    let mut i: usize = 0;
    while i < parts.len()
        invariant
            i <= parts@.len(),
            ps == parts@.map_values(|s: String| s@),
            out@ == framed(ps.take(i as int)),
        decreases parts@.len() - i,
    {
        assert(ps.take(i + 1).drop_last() =~= ps.take(i as int));
        push_part(&mut out, parts[i].as_str());
        assert(out@ =~= framed(ps.take(i + 1)));
        i = i + 1;
    }
    assert(ps.take(i as int) =~= ps);
    out
}

fn is_valid_header_value(s: &str) -> (r: bool)
    ensures
        r == valid_header_value(s@),
{
    let n = s.unicode_len();
    let mut i: usize = 0;
    while i < n
        invariant
            n == s@.len(),
            i <= n,
            forall|j: int|
                0 <= j < i ==> ((32 <= (#[trigger] s@[j] as u32) && (s@[j] as u32) != 127) || s@[j]
                    == '\t'),
        decreases n - i,
    {
        let c = s.get_char(i);
        if !((32 <= (c as u32) && (c as u32) != 127) || c == '\t') {
            return false;
        }
        i = i + 1;
    }
    true
}

/// Prepares an inbound header set for the upstream origin at `upstream_url`:
/// control headers out, `Host` set to the upstream host, `Content-Length`
/// out, `Accept-Encoding` set to `gzip`.
pub fn sanitize_headers(inbound: &Headers, upstream_url: &str) -> (r: Result<Headers, HeaderError>)
    ensures
        headers_result(r) == sanitize_result(inbound@, upstream_url@),
{
    let host = match url_host(upstream_url) {
        Some(h) => h,
        None => {
            return Err(HeaderError::InvalidUpstreamUrl);
        },
    };
    if !is_valid_header_value(host.as_str()) {
        return Err(HeaderError::InvalidHeaderValue);
    }
    let mut h = inbound.clone_headers();
    h.remove("Grache-Ignore-Auth");
    h.remove("Grache-Expiration");
    h.remove("Grache-Cache-Mutations");
    h.remove("Grache-Url");
    h.insert("Host", host.as_str());
    h.remove("Content-Length");
    h.insert("Accept-Encoding", "gzip");
    Ok(h)
}

/// A sanitised header set holds none of the four control headers.
pub proof fn lemma_sanitized_has_no_control_header(h: HeaderEntries, host: Seq<char>, m: Seq<char>)
    requires
        m == ignore_auth_header() || m == expiration_header() || m == cache_mutations_header() || m
            == url_header(),
    ensures
        same_name_absent(sanitized(h, host), m),
{
    reveal_strlit("Host");
    reveal_strlit("Content-Length");
    reveal_strlit("Accept-Encoding");
    reveal_strlit("Grache-Ignore-Auth");
    reveal_strlit("Grache-Expiration");
    reveal_strlit("Grache-Cache-Mutations");
    reveal_strlit("Grache-Url");
    lemma_control_headers_stripped(h);
    let s0 = without_control(h);
    assert(!same_name("Host"@, m));
    lemma_replaced_keeps_absent(s0, "Host"@, host, m);
    let s1 = replaced(s0, "Host"@, host);
    lemma_without_keeps_absent(s1, "Content-Length"@, m);
    let s2 = without(s1, "Content-Length"@);
    assert(!same_name("Accept-Encoding"@, m));
    lemma_replaced_keeps_absent(s2, "Accept-Encoding"@, "gzip"@, m);
}

/// Once the options are resolved, the header set forwarded upstream holds
/// none of the four control headers, whether sanitising succeeded or not.
pub proof fn lemma_outbound_has_no_control_header(h: HeaderEntries, url: Seq<char>, m: Seq<char>)
    requires
        m == ignore_auth_header() || m == expiration_header() || m == cache_mutations_header() || m
            == url_header(),
    ensures
        same_name_absent(outbound(without_control(h), url), m),
{
    lemma_control_headers_stripped(h);
    if let Some(host) = url_host_of(url) {
        if valid_header_value(host) {
            lemma_sanitized_has_no_control_header(without_control(h), host, m);
        }
    }
}

/// A request on its way through the proxy.
#[derive(Debug, Clone)]
pub struct RequestContext {
    pub body: RequestBody,
    /// The session identifiers: session token and session signature.
    pub auth: Option<(String, String)>,
    pub config: GracheConfig,
    /// The header set to forward upstream.
    pub headers: Headers,
}

impl RequestContext {
    /// Builds the context of a request; its headers are sanitised for the
    /// upstream origin, or kept as they came where that fails.
    pub fn new(body: RequestBody, auth: Option<(String, String)>, config: GracheConfig, headers: Headers) -> (r: RequestContext)
        ensures
            r.body == body,
            r.auth == auth,
            r.config == config,
            r.headers@ == outbound(headers@, config.url@),
    {
        let mut context = RequestContext { body, auth, config, headers: Headers::new() };
        match context.set_headers(&headers) {
            Ok(()) => {},
            Err(_) => {
                context.headers = headers;
            },
        }
        context
    }

    /// Sets the forwarded headers to the sanitised form of `headers`; on
    /// failure the context is left as it was.
    pub fn set_headers(&mut self, headers: &Headers) -> (r: Result<(), HeaderError>)
        ensures
            final(self).body == old(self).body,
            final(self).auth == old(self).auth,
            final(self).config == old(self).config,
            r is Ok ==> final(self).headers@ == outbound(headers@, old(self).config.url@),
            r is Ok <==> (url_host_of(old(self).config.url@) matches Some(host) && valid_header_value(host)),
            r is Err ==> final(self).headers == old(self).headers,
    {
        let h = sanitize_headers(headers, self.config.url.as_str())?;
        self.headers = h;
        Ok(())
    }

    /// The values the cache key is made of.
    pub fn key_material(&self) -> (r: Vec<String>)
        ensures
            r@.map_values(|s: String| s@) == key_parts(
                self.config.url@,
                self.config.ignore_auth,
                self.config.cache_mutations,
                auth_view(self.auth),
                self.body@,
            ),
    {
        let mut parts: Vec<String> = Vec::new();
        parts.push(self.config.url.clone());
        if !self.config.ignore_auth {
            if let Some((session, session_sig)) = &self.auth {
                parts.push(session.clone());
                parts.push(session_sig.clone());
            }
        }
        match &self.body {
            RequestBody::GQL(g, k) => {
                if self.config.cache_mutations || matches!(k, GQLType::Query) {
                    parts.push(g.query.clone());
                    parts.push(g.variables.clone());
                }
            },
            RequestBody::JSON(t) => {
                parts.push(t.clone());
            },
            RequestBody::Text(t) => {
                parts.push(t.clone());
            },
            RequestBody::Unknown => {},
        }
        assert(parts@.map_values(|s: String| s@) =~= key_parts(
            self.config.url@,
            self.config.ignore_auth,
            self.config.cache_mutations,
            auth_view(self.auth),
            self.body@,
        ));
        parts
    }

    /// The cache key of the request.
    pub fn cache_key(&self) -> (r: u64)
        ensures
            r == cache_key_of(
                self.config.url@,
                self.config.ignore_auth,
                self.config.cache_mutations,
                auth_view(self.auth),
                self.body@,
            ),
    {
        let parts = self.key_material();
        let text = frame(&parts);
        hash_text(text.as_str())
    }
}

} // verus!
