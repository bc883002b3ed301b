use grache::body::{GQLRequest, GQLType, RequestBody};
use grache::cache::Response;
use grache::config::GracheConfig;
use grache::context::{sanitize_headers, HeaderError, RequestContext};
use grache::flow::{next_step, plan, reply, Event, Step};
use grache::headers::Headers;
use std::collections::HashMap;

fn headers_of(pairs: &[(&str, &str)]) -> Headers {
    let v: Vec<(String, String)> = pairs.iter().map(|(k, v)| (k.to_string(), v.to_string())).collect();
    Headers::from_pairs(&v)
}

fn params_of(pairs: &[(&str, &str)]) -> Vec<(String, String)> {
    pairs.iter().map(|(k, v)| (k.to_string(), v.to_string())).collect()
}

fn body_of(s: &str) -> RequestBody {
    RequestBody::new(&Some(s.to_string())).unwrap()
}

fn context(
    body: &str,
    auth: Option<(&str, &str)>,
    headers: &[(&str, &str)],
    params: &[(&str, &str)],
) -> RequestContext {
    let mut h = headers_of(headers);
    let config = GracheConfig::new(&mut h, &params_of(params), "https://upstream.example/graphql".to_string());
    let auth = auth.map(|(a, b)| (a.to_string(), b.to_string()));
    RequestContext::new(body_of(body), auth, config, h)
}

#[test]
fn is_gql_query() {
    let rq = RequestBody::new(
        &String::from(
            r#"
        {
            "query": "query MyQuery { field1, field2 }",
            "operationName": "MyQuery",
            "variables": {}
        }
        "#,
        )
        .into(),
    );
    let rq = rq.unwrap();
    let is_query = match rq {
        RequestBody::GQL(_, t) => match t {
            GQLType::Query => true,
            _ => false,
        },
        _ => {
            panic!("Not a GQL context, got {:?} instead", rq);
        }
    };
    assert_eq!(is_query, true)
}

#[test]
fn graphql_query_takes_precedence_over_json() {
    let b = body_of(r#"{"query": "query Q { f }", "operationName": "Q", "variables": {}}"#);
    match b {
        RequestBody::GQL(g, k) => {
            assert_eq!(k, GQLType::Query);
            assert_eq!(g.query, "query Q { f }");
            assert_eq!(g.operation_name, Some("Q".to_string()));
            assert_eq!(g.variables, "{}");
        }
        other => panic!("expected GraphQL, got {:?}", other),
    }
}

#[test]
fn graphql_mutation_is_classified() {
    let b = body_of(r#"{"query": "mutation M { f }", "operationName": "M", "variables": {"x": 1}}"#);
    match b {
        RequestBody::GQL(g, k) => {
            assert_eq!(k, GQLType::Mutation);
            assert_eq!(g.variables, r#"{"x":1}"#);
        }
        other => panic!("expected GraphQL, got {:?}", other),
    }
}

#[test]
fn shorthand_query_is_a_query() {
    let b = body_of(r#"{"query": "{ ping }"}"#);
    match b {
        RequestBody::GQL(g, k) => {
            assert_eq!(k, GQLType::Query);
            assert_eq!(g.operation_name, None);
            assert_eq!(g.variables, "null");
        }
        other => panic!("expected GraphQL, got {:?}", other),
    }
}

#[test]
fn subscription_and_bad_query_fall_back_to_json() {
    for s in [r#"{"query":"subscription S { f }"}"#, r#"{"query":"query {"}"#, r#"{"query":5}"#] {
        match body_of(s) {
            RequestBody::JSON(_) => {}
            other => panic!("expected JSON, got {:?}", other),
        }
    }
}

#[test]
fn plain_json_is_json() {
    match body_of(r#"{ "a" : 1 }"#) {
        RequestBody::JSON(t) => assert_eq!(t, r#"{"a":1}"#),
        other => panic!("expected JSON, got {:?}", other),
    }
}

#[test]
fn non_json_is_text_verbatim() {
    let s = "hello, {not json} \u{e9}\n";
    match body_of(s) {
        RequestBody::Text(t) => assert_eq!(t, s),
        other => panic!("expected text, got {:?}", other),
    }
}

#[test]
fn missing_body_is_none_and_empty_body_is_text() {
    assert!(RequestBody::new(&None).is_none());
    match body_of("") {
        RequestBody::Text(t) => assert_eq!(t, ""),
        other => panic!("expected text, got {:?}", other),
    }
}

#[test]
fn wire_form_of_bodies() {
    let g = RequestBody::GQL(
        GQLRequest {
            query: "query Q { f(a: \"x\") }".to_string(),
            operation_name: Some("Q".to_string()),
            variables: "{}".to_string(),
        },
        GQLType::Query,
    );
    assert_eq!(
        g.to_string(),
        Some(r#"{"query":"query Q { f(a: \"x\") }","operationName":"Q","variables":{}}"#.to_string())
    );
    let anon = RequestBody::GQL(
        GQLRequest { query: "{ f }".to_string(), operation_name: None, variables: "null".to_string() },
        GQLType::Query,
    );
    assert_eq!(anon.to_string(), Some(r#"{"query":"{ f }","operationName":null,"variables":null}"#.to_string()));
    assert_eq!(body_of("plain").to_string(), Some("plain".to_string()));
    assert_eq!(body_of("[1, 2]").to_string(), Some("[1,2]".to_string()));
    assert_eq!(RequestBody::Unknown.to_string(), None);
}

#[test]
fn config_defaults() {
    let mut h = headers_of(&[("accept", "*/*")]);
    let c = GracheConfig::new(&mut h, &params_of(&[]), "https://d.example/".to_string());
    assert_eq!(c.expiration, 600);
    assert!(!c.ignore_auth);
    assert!(!c.cache_mutations);
    assert_eq!(c.url, "https://d.example/");
}

#[test]
fn config_header_overrides_param_overrides_default() {
    let mut h = headers_of(&[("grache-expiration", "5"), ("Grache-Ignore-Auth", "true")]);
    let p = params_of(&[("expiration", "50"), ("cacheMutations", "true"), ("url", "https://p.example/")]);
    let c = GracheConfig::new(&mut h, &p, "https://d.example/".to_string());
    assert_eq!(c.expiration, 5);
    assert!(c.ignore_auth);
    assert!(c.cache_mutations);
    assert_eq!(c.url, "https://p.example/");
}

#[test]
fn config_unparseable_values_fall_back() {
    let mut h = headers_of(&[("Grache-Expiration", "soon"), ("Grache-Cache-Mutations", "yes")]);
    let p = params_of(&[("expiration", "-7"), ("cacheMutations", "maybe")]);
    let c = GracheConfig::new(&mut h, &p, "https://d.example/".to_string());
    assert_eq!(c.expiration, -7);
    assert!(!c.cache_mutations);
    let mut h = headers_of(&[("Grache-Expiration", "99999999999")]);
    let c = GracheConfig::new(&mut h, &params_of(&[("expiration", "+42")]), "u".to_string());
    assert_eq!(c.expiration, 42);
}

#[test]
fn control_headers_are_stripped() {
    let mut h = headers_of(&[
        ("Grache-Expiration", "5"),
        ("grache-ignore-auth", "true"),
        ("GRACHE-CACHE-MUTATIONS", "false"),
        ("Grache-Url", "https://h.example/"),
        ("x-other", "1"),
    ]);
    let c = GracheConfig::new(&mut h, &params_of(&[]), "https://d.example/".to_string());
    assert_eq!(c.url, "https://h.example/");
    for n in ["Grache-Expiration", "Grache-Ignore-Auth", "Grache-Cache-Mutations", "Grache-Url"] {
        assert_eq!(h.get(n), None);
    }
    assert_eq!(h.to_pairs(), vec![("x-other".to_string(), "1".to_string())]);
    let mut none = headers_of(&[("a", "b")]);
    GracheConfig::new(&mut none, &params_of(&[]), "u".to_string());
    assert_eq!(none.to_pairs(), vec![("a".to_string(), "b".to_string())]);
}

#[test]
fn sanitize_rewrites_for_upstream() {
    let h = headers_of(&[
        ("host", "proxy.local"),
        ("content-length", "12"),
        ("accept-encoding", "br, deflate"),
        ("grache-url", "x"),
        ("cookie", "a=b"),
    ]);
    let s = sanitize_headers(&h, "https://api.example.org:8443/graphql").unwrap();
    assert_eq!(
        s.to_pairs(),
        vec![
            ("cookie".to_string(), "a=b".to_string()),
            ("Host".to_string(), "api.example.org".to_string()),
            ("Accept-Encoding".to_string(), "gzip".to_string()),
        ]
    );
    assert_eq!(h.get("Content-Length"), Some("12".to_string()));
}

#[test]
fn sanitize_rejects_url_without_host() {
    let h = headers_of(&[("a", "b")]);
    assert_eq!(sanitize_headers(&h, "not a url").unwrap_err(), HeaderError::InvalidUpstreamUrl);
    assert_eq!(sanitize_headers(&h, "unix:/run/foo.socket").unwrap_err(), HeaderError::InvalidUpstreamUrl);
    let ctx = context("x", None, &[("a", "b"), ("content-length", "1")], &[("url", "data:text/plain,x")]);
    assert_eq!(ctx.headers.get("content-length"), Some("1".to_string()));
}

#[test]
fn headers_group_and_compare_without_case() {
    let mut h = headers_of(&[("Set-Cookie", "a"), ("x", "1"), ("set-cookie", "b")]);
    assert_eq!(h.get("SET-COOKIE"), Some("a".to_string()));
    assert_eq!(
        h.to_pairs(),
        vec![
            ("Set-Cookie".to_string(), "a".to_string()),
            ("Set-Cookie".to_string(), "b".to_string()),
            ("x".to_string(), "1".to_string()),
        ]
    );
    h.insert("X", "2");
    assert_eq!(h.get("x"), Some("2".to_string()));
    h.remove("set-cookie");
    assert_eq!(h.get("Set-Cookie"), None);
}

#[test]
fn set_cache_hit_replaces_marker() {
    let mut h = headers_of(&[("grache-cache-hit", "false"), ("a", "1")]);
    h.set_cache_hit(true);
    assert_eq!(
        h.to_pairs(),
        vec![
            ("a".to_string(), "1".to_string()),
            ("Grache-Cache-Hit".to_string(), "true".to_string()),
        ]
    );
    h.set_cache_hit(false);
    assert_eq!(h.get("Grache-Cache-Hit"), Some("false".to_string()));
}

#[test]
fn response_headers_drop_transfer_encoding() {
    let h = headers_of(&[("Transfer-Encoding", "chunked"), ("content-type", "application/json")]);
    assert_eq!(
        h.to_response_headers(),
        vec![("content-type".to_string(), "application/json".to_string())]
    );
}

#[test]
fn key_is_deterministic() {
    let body = r#"{"query":"query{ping}","variables":{}}"#;
    let a = context(body, Some(("s", "sig")), &[("Grache-Expiration", "5")], &[]);
    let b = context(body, Some(("s", "sig")), &[("x-trace", "9")], &[]);
    assert_eq!(a.cache_key(), b.cache_key());
    assert_eq!(a.cache_key(), a.cache_key());
}

#[test]
fn key_depends_on_auth_unless_ignored() {
    let body = r#"{"query":"query{ping}","variables":{}}"#;
    let a = context(body, Some(("alice", "s1")), &[], &[]);
    let b = context(body, Some(("bob", "s2")), &[], &[]);
    assert_ne!(a.cache_key(), b.cache_key());
    let a = context(body, Some(("alice", "s1")), &[], &[("ignoreAuth", "true")]);
    let b = context(body, Some(("bob", "s2")), &[], &[("ignoreAuth", "true")]);
    assert_eq!(a.cache_key(), b.cache_key());
    let anon = context(body, None, &[], &[]);
    let half = context(body, None, &[], &[]);
    assert_eq!(anon.cache_key(), half.cache_key());
}

#[test]
fn key_depends_on_url_and_body() {
    let a = context("one", None, &[], &[]);
    let b = context("two", None, &[], &[]);
    let c = context("one", None, &[], &[("url", "https://other.example/")]);
    assert_ne!(a.cache_key(), b.cache_key());
    assert_ne!(a.cache_key(), c.cache_key());
    let q1 = context(r#"{"query":"query{a}","variables":{"v":1}}"#, None, &[], &[]);
    let q2 = context(r#"{"query":"query{a}","variables":{"v":2}}"#, None, &[], &[]);
    assert_ne!(q1.cache_key(), q2.cache_key());
}

#[test]
fn key_material_frames_each_value() {
    let a = context("one", Some(("s", "sig")), &[], &[]);
    let parts = a.key_material();
    assert_eq!(parts, vec!["https://upstream.example/graphql".to_string(), "s".to_string(), "sig".to_string(), "one".to_string()]);
    let m1 = context(r#"{"query":"mutation{a}"}"#, None, &[], &[]);
    assert_eq!(m1.key_material(), vec!["https://upstream.example/graphql".to_string()]);
}

#[test]
fn mutations_never_touch_the_cache() {
    let m = context(r#"{"query":"mutation M { f }"}"#, None, &[], &[]);
    let p = plan(&m);
    assert!(!p.cacheable);
    assert_eq!(next_step(&p, Event::Started), Step::Forward);
    assert_eq!(next_step(&p, Event::CacheAnswered(true)), Step::Forward);
    assert_eq!(next_step(&p, Event::UpstreamAnswered(200)), Step::Respond(false));
    let allowed = context(r#"{"query":"mutation M { f }"}"#, None, &[], &[("cacheMutations", "true")]);
    assert!(plan(&allowed).cacheable);
}

#[test]
fn zero_lifetime_bypasses_cache() {
    let c = context("x", None, &[("Grache-Expiration", "0")], &[]);
    let p = plan(&c);
    assert!(!p.cacheable);
    assert_eq!(next_step(&p, Event::Started), Step::Forward);
}

#[test]
fn only_ok_status_is_stored() {
    let c = context("x", None, &[("Grache-Expiration", "30")], &[]);
    let p = plan(&c);
    assert_eq!(next_step(&p, Event::Started), Step::LookUp(p.key));
    assert_eq!(next_step(&p, Event::UpstreamAnswered(200)), Step::Store(p.key, 30));
    assert_eq!(next_step(&p, Event::UpstreamAnswered(201)), Step::Respond(false));
    assert_eq!(next_step(&p, Event::Stored), Step::Respond(false));
    assert_eq!(next_step(&p, Event::CacheAnswered(true)), Step::Respond(true));
    assert_eq!(next_step(&p, Event::CacheAnswered(false)), Step::Forward);
}

#[test]
fn cache_entry_round_trip() {
    let r = Response {
        status: Some(200),
        content: "{\"data\":\"\u{e9}\\n\"}\n".to_string(),
        headers: headers_of(&[("content-type", "application/json"), ("set-cookie", "a"), ("set-cookie", "b"), ("transfer-encoding", "chunked")]),
    };
    let text = r.to_string().unwrap();
    let back = Response::from_cached(&text).unwrap();
    assert_eq!(back.status, None);
    assert_eq!(back.content, r.content);
    assert_eq!(back.headers.to_pairs(), r.headers.to_pairs());
    let (pairs, body) = reply(back, true);
    assert_eq!(body, r.content);
    assert_eq!(
        pairs,
        vec![
            ("content-type".to_string(), "application/json".to_string()),
            ("set-cookie".to_string(), "a".to_string()),
            ("set-cookie".to_string(), "b".to_string()),
            ("Grache-Cache-Hit".to_string(), "true".to_string()),
        ]
    );
}

#[test]
fn cache_entry_text_format() {
    let r = Response { status: None, content: "hi".to_string(), headers: headers_of(&[("a", "1"), ("a", "2"), ("b", "3")]) };
    assert_eq!(r.to_string().unwrap(), r#"{"content":"hi","headers":{"inner":{"a":["1","2"],"b":["3"]}}}"#);
    let empty = Response { status: None, content: String::new(), headers: Headers::new() };
    assert_eq!(empty.to_string().unwrap(), r#"{"content":"","headers":{"inner":{}}}"#);
    assert!(Response::from_cached("nonsense").is_none());
    assert!(Response::from_cached(r#"{"content":1,"headers":{"inner":{}}}"#).is_none());
    assert!(Response::from_cached(r#"{"content":"x","headers":{"inner":{"a":[1]}}}"#).is_none());
}

struct Upstream {
    calls: u32,
}

/// Runs one request through the flow against an in-memory cache.
fn serve(
    cache: &mut HashMap<u64, String>,
    ttls: &mut Vec<i32>,
    up: &mut Upstream,
    headers: &[(&str, &str)],
    body: &str,
) -> (Vec<(String, String)>, String) {
    let ctx = context(body, Some(("sess", "sig")), headers, &[]);
    let p = plan(&ctx);
    let mut event = Event::Started;
    let mut res: Option<Response> = None;
    loop {
        match next_step(&p, event) {
            Step::LookUp(k) => {
                res = cache.get(&k).and_then(|t| Response::from_cached(t));
                event = Event::CacheAnswered(res.is_some());
            }
            Step::Forward => {
                up.calls += 1;
                let content = format!("{{\"data\":{{\"n\":{}}}}}", up.calls);
                let r = Response { status: Some(200), content, headers: headers_of(&[("transfer-encoding", "chunked"), ("content-type", "application/json")]) };
                res = Some(r);
                event = Event::UpstreamAnswered(200);
            }
            Step::Store(k, ttl) => {
                cache.insert(k, res.as_ref().unwrap().to_string().unwrap());
                ttls.push(ttl);
                event = Event::Stored;
            }
            Step::Respond(hit) => return reply(res.take().unwrap(), hit),
        }
    }
}

fn header<'a>(pairs: &'a [(String, String)], name: &str) -> Option<&'a str> {
    pairs.iter().find(|(k, _)| k.eq_ignore_ascii_case(name)).map(|(_, v)| v.as_str())
}

#[test]
fn end_to_end_miss_hit_and_mutation() {
    let mut cache = HashMap::new();
    let mut ttls = Vec::new();
    let mut up = Upstream { calls: 0 };
    let q = r#"{"query":"query{ping}","variables":{}}"#;

    let (h1, b1) = serve(&mut cache, &mut ttls, &mut up, &[("Grache-Expiration", "5")], q);
    assert_eq!(up.calls, 1);
    assert_eq!(ttls, vec![5]);
    assert_eq!(header(&h1, "Grache-Cache-Hit"), Some("false"));
    assert_eq!(header(&h1, "transfer-encoding"), None);

    let (h2, b2) = serve(&mut cache, &mut ttls, &mut up, &[("Grache-Expiration", "5")], q);
    assert_eq!(up.calls, 1);
    assert_eq!(header(&h2, "Grache-Cache-Hit"), Some("true"));
    assert_eq!(b2, b1);

    let m = r#"{"query":"mutation{ping}","variables":{}}"#;
    for n in 0..3u32 {
        let (h3, _) = serve(&mut cache, &mut ttls, &mut up, &[], m);
        assert_eq!(up.calls, 2 + n);
        assert_eq!(header(&h3, "Grache-Cache-Hit"), Some("false"));
    }
    assert_eq!(cache.len(), 1);
}
