//! The decisions of the request flow: whether to consult the cache, when a
//! cached response is served, when a forwarded response is stored, and how
//! the reply is assembled. The I/O itself is done by the caller, who hands
//! each outcome back as an event.
use vstd::prelude::*;
use crate::body::{BodyModel, GQLType, RequestBody};
use crate::context::{auth_parts, auth_view, cache_key_of, key_parts, RequestContext};
use crate::cache::Response;
use crate::headers::{cache_hit_header, pair_view, pairs_of, replaced};

verus! {

/// What the flow decided about caching one request.
#[derive(Debug, Clone, Copy, PartialEq, Eq, Structural)]
pub struct CachePlan {
    pub key: u64,
    /// Whether the cache may be read for, and written with, this request.
    pub cacheable: bool,
    pub expiration: i32,
}

/// What happened last.
#[derive(Debug, Clone, Copy, PartialEq, Eq, Structural)]
pub enum Event {
    /// The request has been classified and configured.
    Started,
    /// The cache lookup came back, with an entry or without one (a failed
    /// lookup counts as without).
    CacheAnswered(bool),
    /// The upstream response came back, with this status.
    UpstreamAnswered(u16),
    /// The cache write was attempted.
    Stored,
}

/// What to do next.
#[derive(Debug, Clone, Copy, PartialEq, Eq, Structural)]
pub enum Step {
    /// Read the cache under this key.
    LookUp(u64),
    /// Send the request upstream.
    Forward,
    /// Write the upstream response under this key, expiring after these seconds.
    Store(u64, i32),
    /// Reply to the client; `true` when the reply comes from the cache.
    Respond(bool),
}

/// The status that allows a response to be cached.
pub const STATUS_OK: u16 = 200;

/// A request may use the cache unless the cache is bypassed by a lifetime
/// of zero or less, or it is a GraphQL mutation and mutations are not cached.
pub open spec fn cacheable(expiration: i32, cache_mutations: bool, body: BodyModel) -> bool {
    &&& expiration > 0
    &&& match body {
        BodyModel::Gql(_, k) => k == GQLType::Query || cache_mutations,
        _ => true,
    }
}

pub open spec fn plan_of(ctx: RequestContext) -> CachePlan {
    CachePlan {
        key: cache_key_of(
            ctx.config.url@,
            ctx.config.ignore_auth,
            ctx.config.cache_mutations,
            auth_view(ctx.auth),
            ctx.body@,
        ),
        cacheable: cacheable(ctx.config.expiration, ctx.config.cache_mutations, ctx.body@),
        expiration: ctx.config.expiration,
    }
}

/// The step that follows an event.
pub open spec fn step_of(p: CachePlan, e: Event) -> Step {
    match e {
        Event::Started => if p.cacheable {
            Step::LookUp(p.key)
        } else {
            Step::Forward
        },
        Event::CacheAnswered(found) => if p.cacheable && found {
            Step::Respond(true)
        } else {
            Step::Forward
        },
        Event::UpstreamAnswered(status) => if p.cacheable && status == STATUS_OK {
            Step::Store(p.key, p.expiration)
        } else {
            Step::Respond(false)
        },
        Event::Stored => Step::Respond(false),
    }
}

/// Decides how a request uses the cache.
pub fn plan(ctx: &RequestContext) -> (r: CachePlan)
    ensures
        r == plan_of(*ctx),
{
    let key = ctx.cache_key();
    let mutation_blocked = match &ctx.body {
        RequestBody::GQL(_, k) => matches!(k, GQLType::Mutation) && !ctx.config.cache_mutations,
        _ => false,
    };
    CachePlan {
        key,
        cacheable: ctx.config.expiration > 0 && !mutation_blocked,
        expiration: ctx.config.expiration,
    }
}

/// The next step of the flow after `event`.
pub fn next_step(p: &CachePlan, event: Event) -> (r: Step)
    ensures
        r == step_of(*p, event),
{
    match event {
        Event::Started => if p.cacheable {
            Step::LookUp(p.key)
        } else {
            Step::Forward
        },
        Event::CacheAnswered(found) => if p.cacheable && found {
            Step::Respond(true)
        } else {
            Step::Forward
        },
        Event::UpstreamAnswered(status) => if p.cacheable && status == STATUS_OK {
            Step::Store(p.key, p.expiration)
        } else {
            Step::Respond(false)
        },
        Event::Stored => Step::Respond(false),
    }
}

/// The headers and body sent to the client: the response's headers marked
/// with whether it came from the cache, without `Transfer-Encoding`.
pub fn reply(res: Response, cache_hit: bool) -> (r: (Vec<(String, String)>, String))
    ensures
        r.0@.map_values(|p: (String, String)| pair_view(p)) == pairs_of(
            replaced(res.headers@, cache_hit_header(), if cache_hit { "true"@ } else { "false"@ }),
            true,
        ),
        r.1 == res.content,
{
    let mut headers = res.headers;
    headers.set_cache_hit(cache_hit);
    (headers.to_response_headers(), res.content)
}

/// The cache key is a function of the upstream URL, the auth identifiers,
/// the options that shape the key and the body: two requests that agree on
/// these get the same key, whatever their lifetime or other headers.
pub proof fn lemma_key_deterministic(a: RequestContext, b: RequestContext)
    requires
        a.config.url@ == b.config.url@,
        a.config.ignore_auth == b.config.ignore_auth,
        a.config.cache_mutations == b.config.cache_mutations,
        auth_view(a.auth) == auth_view(b.auth),
        a.body@ == b.body@,
    ensures
        plan_of(a).key == plan_of(b).key,
{
}

/// With auth taken into account, two requests that differ only in their
/// session identifiers are keyed from different values; with auth ignored
/// they get the same key.
pub proof fn lemma_auth_sensitivity(
    url: Seq<char>,
    cache_mutations: bool,
    body: BodyModel,
    auth1: (Seq<char>, Seq<char>),
    auth2: (Seq<char>, Seq<char>),
)
    requires
        auth1 != auth2,
    ensures
        key_parts(url, false, cache_mutations, Some(auth1), body) != key_parts(
            url,
            false,
            cache_mutations,
            Some(auth2),
            body,
        ),
        cache_key_of(url, true, cache_mutations, Some(auth1), body) == cache_key_of(
            url,
            true,
            cache_mutations,
            Some(auth2),
            body,
        ),
{
    let k1 = key_parts(url, false, cache_mutations, Some(auth1), body);
    let k2 = key_parts(url, false, cache_mutations, Some(auth2), body);
    assert(k1[1] == auth1.0 && k1[2] == auth1.1);
    assert(k2[1] == auth2.0 && k2[2] == auth2.1);
    assert(auth_parts(true, Some(auth1)) == auth_parts(true, Some(auth2)));
}

/// A GraphQL mutation, while mutations are not cached, never reads the
/// cache, is never answered from it and is never stored in it: it is
/// forwarded every time.
pub proof fn lemma_mutation_never_cached(ctx: RequestContext, e: Event)
    requires
        ctx.body@ matches BodyModel::Gql(_, k) && k == GQLType::Mutation,
        !ctx.config.cache_mutations,
    ensures
        step_of(plan_of(ctx), Event::Started) == Step::Forward,
        step_of(plan_of(ctx), e) != Step::Respond(true),
        !(step_of(plan_of(ctx), e) is Store),
        !(step_of(plan_of(ctx), e) is LookUp),
{
}

} // verus!
