//! Responses as kept in the cache: the content and the headers, written as
//! `{"content":"...","headers":{"inner":{"name":["value",...],...}}}`.
//! The status is not kept.
use vstd::prelude::*;
use crate::body::member;
use crate::headers::{entry_view, HeaderEntries, Headers};
use crate::json::{
    json_elements, json_elements_of, json_members, json_members_of, json_quote, json_quoted_of,
    json_string, json_string_of, members_view, opt_view,
};

verus! {

/// A response, as received from upstream or read back from the cache.
#[derive(Debug, Clone)]
pub struct Response {
    pub status: Option<u16>,
    pub content: String,
    pub headers: Headers,
}

/// The quoted values, separated by commas.
pub open spec fn values_text(vs: Seq<Seq<char>>) -> Seq<char>
    decreases vs.len(),
{
    if vs.len() == 0 {
        seq![]
    } else if vs.len() == 1 {
        json_quoted_of(vs[0])
    } else {
        values_text(vs.drop_last()) + seq![','] + json_quoted_of(vs.last())
    }
}

/// One header entry as an object member: its quoted name and an array of
/// its quoted values.
pub open spec fn member_text(e: (Seq<char>, Seq<Seq<char>>)) -> Seq<char> {
    json_quoted_of(e.0) + seq![':', '['] + values_text(e.1) + seq![']']
}

/// The header entries as object members, separated by commas.
pub open spec fn members_text(s: HeaderEntries) -> Seq<char>
    decreases s.len(),
{
    if s.len() == 0 {
        seq![]
    } else if s.len() == 1 {
        member_text(s[0])
    } else {
        members_text(s.drop_last()) + seq![','] + member_text(s.last())
    }
}

/// The text under which a response with this content and these headers is cached.
pub open spec fn entry_text(content: Seq<char>, headers: HeaderEntries) -> Seq<char> {
    "{\"content\":"@ + json_quoted_of(content) + ",\"headers\":{\"inner\":{"@ + members_text(headers)
        + "}}}"@
}

/// The strings that JSON string literals denote, if each is one.
pub open spec fn strings_of(ts: Seq<Seq<char>>) -> Option<Seq<Seq<char>>>
    decreases ts.len(),
{
    if ts.len() == 0 {
        Some(seq![])
    } else {
        match strings_of(ts.drop_last()) {
            Some(a) => match json_string_of(ts.last()) {
                Some(b) => Some(a.push(b)),
                None => None,
            },
            None => None,
        }
    }
}

/// Header entries from object members whose values are arrays of strings.
pub open spec fn decoded_entries(ms: Seq<(Seq<char>, Seq<char>)>) -> Option<HeaderEntries>
    decreases ms.len(),
{
    if ms.len() == 0 {
        Some(seq![])
    } else {
        match decoded_entries(ms.drop_last()) {
            Some(es) => match json_elements_of(ms.last().1) {
                Some(arr) => match strings_of(arr) {
                    Some(vs) => Some(es.push((ms.last().0, vs))),
                    None => None,
                },
                None => None,
            },
            None => None,
        }
    }
}

/// The content and headers of a cached text, if it is well-formed.
pub open spec fn entry_of(text: Seq<char>) -> Option<(Seq<char>, HeaderEntries)> {
    match json_members_of(text) {
        None => None,
        Some(ms) => match member(ms, "content"@) {
            None => None,
            Some(ct) => match json_string_of(ct) {
                None => None,
                Some(c) => match member(ms, "headers"@) {
                    None => None,
                    Some(ht) => match json_members_of(ht) {
                        None => None,
                        Some(hm) => match member(hm, "inner"@) {
                            None => None,
                            Some(it) => match json_members_of(it) {
                                None => None,
                                Some(im) => match decoded_entries(im) {
                                    None => None,
                                    Some(es) => Some((c, es)),
                                },
                            },
                        },
                    },
                },
            },
        },
    }
}

fn push_values(out: &mut String, vals: &Vec<String>)
    ensures
        final(out)@ == old(out)@ + values_text(vals@.map_values(|s: String| s@)),
{
    let ghost vs = vals@.map_values(|s: String| s@);
    let ghost start = out@;
    let mut i: usize = 0;
    while i < vals.len()
        invariant
            i <= vals@.len(),
            vs == vals@.map_values(|s: String| s@),
            out@ == start + values_text(vs.take(i as int)),
        decreases vals@.len() - i,
    {
        assert(vs.take(i + 1).drop_last() =~= vs.take(i as int));
        if i > 0 {
            out.append(",");
        }
        let q = json_quote(vals[i].as_str());
        out.append(q.as_str());
        proof {
            reveal_strlit(",");
            if i == 0 {
                assert(vs.take(1) =~= seq![vs[0]]);
            }
        }
        assert(out@ =~= start + values_text(vs.take(i + 1)));
        i = i + 1;
    }
    assert(vs.take(i as int) =~= vs);
}

fn push_members(out: &mut String, entries: &Vec<(String, Vec<String>)>)
    ensures
        final(out)@ == old(out)@ + members_text(
            entries@.map_values(|e: (String, Vec<String>)| entry_view(e)),
        ),
{
    let ghost es = entries@.map_values(|e: (String, Vec<String>)| entry_view(e));
    let ghost start = out@;
    let mut i: usize = 0;
    while i < entries.len()
        invariant
            i <= entries@.len(),
            es == entries@.map_values(|e: (String, Vec<String>)| entry_view(e)),
            out@ == start + members_text(es.take(i as int)),
        decreases entries@.len() - i,
    {
        assert(es.take(i + 1).drop_last() =~= es.take(i as int));
        let ghost before = out@;
        if i > 0 {
            out.append(",");
        }
        let ghost mid = out@;
        let q = json_quote(entries[i].0.as_str());
        out.append(q.as_str());
        out.append(":[");
        push_values(out, &entries[i].1);
        out.append("]");
        proof {
            reveal_strlit(",");
            reveal_strlit(":[");
            reveal_strlit("]");
            assert(es[i as int] == entry_view(entries@[i as int]));
            assert(out@ =~= mid + member_text(es[i as int]));
            if i == 0 {
                assert(es.take(1) =~= seq![es[0]]);
            }
        }
        assert(out@ =~= start + members_text(es.take(i + 1)));
        i = i + 1;
    }
    assert(es.take(i as int) =~= es);
}

fn decode_strings(ts: &Vec<String>) -> (r: Option<Vec<String>>)
    ensures
        r matches Some(v) ==> strings_of(ts@.map_values(|s: String| s@)) == Some(
            v@.map_values(|s: String| s@),
        ),
        r is None ==> strings_of(ts@.map_values(|s: String| s@)) is None,
{
    let ghost tv = ts@.map_values(|s: String| s@);
    let mut out: Vec<String> = Vec::new();
    let mut i: usize = 0;
    while i < ts.len()
        invariant
            i <= ts@.len(),
            tv == ts@.map_values(|s: String| s@),
            strings_of(tv.take(i as int)) == Some(out@.map_values(|s: String| s@)),
        decreases ts@.len() - i,
    {
        assert(tv.take(i + 1).drop_last() =~= tv.take(i as int));
        match json_string(ts[i].as_str()) {
            Some(s) => {
                let ghost prev = out@;
                out.push(s);
                assert(out@.map_values(|s: String| s@) =~= prev.map_values(|s: String| s@).push(
                    s@,
                ));
            },
            None => {
                proof {
                    lemma_strings_of_prefix(tv, i as int + 1);
                }
                return None;
            },
        }
        i = i + 1;
    }
    assert(tv.take(i as int) =~= tv);
    Some(out)
}

/// A failure on a prefix is a failure on the whole.
proof fn lemma_strings_of_prefix(ts: Seq<Seq<char>>, n: int)
    requires
        0 <= n <= ts.len(),
        strings_of(ts.take(n)) is None,
    ensures
        strings_of(ts) is None,
    decreases ts.len() - n,
{
    if n < ts.len() {
        assert(ts.take(n + 1).drop_last() =~= ts.take(n));
        lemma_strings_of_prefix(ts, n + 1);
    } else {
        assert(ts.take(n) =~= ts);
    }
}

/// A failure on a prefix is a failure on the whole.
proof fn lemma_entries_prefix(ms: Seq<(Seq<char>, Seq<char>)>, n: int)
    requires
        0 <= n <= ms.len(),
        decoded_entries(ms.take(n)) is None,
    ensures
        decoded_entries(ms) is None,
    decreases ms.len() - n,
{
    if n < ms.len() {
        assert(ms.take(n + 1).drop_last() =~= ms.take(n));
        lemma_entries_prefix(ms, n + 1);
    } else {
        assert(ms.take(n) =~= ms);
    }
}

fn decode_entries(ms: &Vec<(String, String)>) -> (r: Option<Headers>)
    ensures
        r matches Some(h) ==> decoded_entries(ms@.map_values(|p: (String, String)| (p.0@, p.1@)))
            == Some(h@),
        r is None ==> decoded_entries(ms@.map_values(|p: (String, String)| (p.0@, p.1@))) is None,
{
    let ghost mv = ms@.map_values(|p: (String, String)| (p.0@, p.1@));
    let mut out: Vec<(String, Vec<String>)> = Vec::new();
    let mut i: usize = 0;
    while i < ms.len()
        invariant
            i <= ms@.len(),
            mv == ms@.map_values(|p: (String, String)| (p.0@, p.1@)),
            decoded_entries(mv.take(i as int)) == Some(
                out@.map_values(|e: (String, Vec<String>)| entry_view(e)),
            ),
        decreases ms@.len() - i,
    {
        assert(mv.take(i + 1).drop_last() =~= mv.take(i as int));
        assert(mv.take(i + 1).last() == mv[i as int]);
        let arr = match json_elements(ms[i].1.as_str()) {
            Some(a) => a,
            None => {
                proof {
                    lemma_entries_prefix(mv, i as int + 1);
                }
                return None;
            },
        };
        let vals = match decode_strings(&arr) {
            Some(v) => v,
            None => {
                proof {
                    lemma_entries_prefix(mv, i as int + 1);
                }
                return None;
            },
        };
        let ghost prev = out@;
        let e = (ms[i].0.clone(), vals);
        assert(entry_view(e) == (mv[i as int].0, vals@.map_values(|s: String| s@)));
        out.push(e);
        assert(out@.map_values(|e: (String, Vec<String>)| entry_view(e)) =~= prev.map_values(
            |e: (String, Vec<String>)| entry_view(e),
        ).push(entry_view(e)));
        i = i + 1;
    }
    assert(mv.take(i as int) =~= mv);
    Some(Headers::from_entries(out))
}

fn member_of(ms: &Vec<(String, String)>, key: &str) -> (r: Option<String>)
    ensures
        opt_view(r) == member(ms@.map_values(|p: (String, String)| (p.0@, p.1@)), key@),
{
    crate::body::find_member(ms, key)
}

fn members_of(s: &str) -> (r: Option<Vec<(String, String)>>)
    ensures
        r matches Some(v) ==> json_members_of(s@) == Some(
            v@.map_values(|p: (String, String)| (p.0@, p.1@)),
        ),
        r is None ==> json_members_of(s@) is None,
{
    let r = json_members(s);
    proof {
        if r is Some {
            assert(members_view(r) == Some(r->0@.map_values(|p: (String, String)| (p.0@, p.1@))));
        }
    }
    r
}

impl Response {
    /// The text under which the response is cached; writing it cannot fail.
    pub fn to_string(&self) -> (r: Option<String>)
        ensures
            r matches Some(t) && t@ == entry_text(self.content@, self.headers@),
    {
        let mut out = "{\"content\":".to_string();
        let q = json_quote(self.content.as_str());
        out.append(q.as_str());
        out.append(",\"headers\":{\"inner\":{");
        push_members(&mut out, self.headers.entries());
        out.append("}}}");
        assert(out@ =~= entry_text(self.content@, self.headers@));
        Some(out)
    }

    /// Reads a cached response back; it carries no status.
    pub fn from_cached(text: &str) -> (r: Option<Response>)
        ensures
            entry_of(text@) matches Some((c, h)) ==> r matches Some(res) && res.status is None
                && res.content@ == c && res.headers@ == h,
            entry_of(text@) is None ==> r is None,
    {
        let ms = match members_of(text) {
            Some(m) => m,
            None => {
                return None;
            },
        };
        let content = match member_of(&ms, "content") {
            Some(ct) => match json_string(ct.as_str()) {
                Some(c) => c,
                None => {
                    return None;
                },
            },
            None => {
                return None;
            },
        };
        let hm = match member_of(&ms, "headers") {
            Some(ht) => match members_of(ht.as_str()) {
                Some(hm) => hm,
                None => {
                    return None;
                },
            },
            None => {
                return None;
            },
        };
        let im = match member_of(&hm, "inner") {
            Some(it) => match members_of(it.as_str()) {
                Some(im) => im,
                None => {
                    return None;
                },
            },
            None => {
                return None;
            },
        };
        match decode_entries(&im) {
            Some(headers) => Some(Response { status: None, content, headers }),
            None => None,
        }
    }
}

} // verus!
