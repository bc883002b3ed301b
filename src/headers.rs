//! An ordered header multimap: names compare without regard to ASCII case,
//! each name keeps its values in the order they were added.
use vstd::prelude::*;
use crate::text::{names_match, same_name};

verus! {

/// The abstract content of a header set: its entries in order, each a name
/// with its values in order.
pub type HeaderEntries = Seq<(Seq<char>, Seq<Seq<char>>)>;

pub open spec fn entry_view(e: (String, Vec<String>)) -> (Seq<char>, Seq<Seq<char>>) {
    (e.0@, e.1@.map_values(|s: String| s@))
}

/// Index of the first entry whose name matches `n`.
pub open spec fn first_match(s: HeaderEntries, n: Seq<char>) -> Option<int>
    decreases s.len(),
{
    if s.len() == 0 {
        None
    } else if same_name(s[0].0, n) {
        Some(0)
    } else {
        match first_match(s.drop_first(), n) {
            Some(i) => Some(i + 1),
            None => None,
        }
    }
}

/// The first value stored under `n`, if any.
pub open spec fn lookup(s: HeaderEntries, n: Seq<char>) -> Option<Seq<char>> {
    match first_match(s, n) {
        Some(i) => if s[i].1.len() > 0 {
            Some(s[i].1[0])
        } else {
            None
        },
        None => None,
    }
}

/// The entries with every entry named `n` taken out, the rest in order.
pub open spec fn without(s: HeaderEntries, n: Seq<char>) -> HeaderEntries
    decreases s.len(),
{
    if s.len() == 0 {
        s
    } else {
        let r = without(s.drop_last(), n);
        if same_name(s.last().0, n) {
            r
        } else {
            r.push(s.last())
        }
    }
}

/// Adds value `v` under `n`: to the first entry of that name, else as a new entry.
pub open spec fn appended(s: HeaderEntries, n: Seq<char>, v: Seq<char>) -> HeaderEntries {
    match first_match(s, n) {
        Some(i) => s.update(i, (s[i].0, s[i].1.push(v))),
        None => s.push((n, seq![v])),
    }
}

/// The entries with `n` replaced by the single value `v`, placed last.
pub open spec fn replaced(s: HeaderEntries, n: Seq<char>, v: Seq<char>) -> HeaderEntries {
    without(s, n).push((n, seq![v]))
}

pub open spec fn is_transfer_encoding(n: Seq<char>) -> bool {
    same_name(n, "transfer-encoding"@)
}

/// Each name/value pair in order; with `skip`, entries named
/// `Transfer-Encoding` are left out.
pub open spec fn pairs_of(s: HeaderEntries, skip: bool) -> Seq<(Seq<char>, Seq<char>)>
    decreases s.len(),
{
    if s.len() == 0 {
        seq![]
    } else {
        let r = pairs_of(s.drop_last(), skip);
        if skip && is_transfer_encoding(s.last().0) {
            r
        } else {
            r + s.last().1.map_values(|v: Seq<char>| (s.last().0, v))
        }
    }
}

/// The name of the header that tells whether a response came from the cache.
pub open spec fn cache_hit_header() -> Seq<char> {
    "Grache-Cache-Hit"@
}

/// The header set built by adding each pair in turn.
pub open spec fn grouped(ps: Seq<(Seq<char>, Seq<char>)>) -> HeaderEntries
    decreases ps.len(),
{
    if ps.len() == 0 {
        seq![]
    } else {
        appended(grouped(ps.drop_last()), ps.last().0, ps.last().1)
    }
}

pub open spec fn pair_view(p: (String, String)) -> (Seq<char>, Seq<char>) {
    (p.0@, p.1@)
}

pub proof fn lemma_first_match_bounds(s: HeaderEntries, n: Seq<char>)
    ensures
        match first_match(s, n) {
            Some(i) => 0 <= i < s.len() && same_name(s[i].0, n) && forall|j: int|
                0 <= j < i ==> !same_name(#[trigger] s[j].0, n),
            None => forall|j: int| 0 <= j < s.len() ==> !same_name(#[trigger] s[j].0, n),
        },
    decreases s.len(),
{
    if s.len() > 0 && !same_name(s[0].0, n) {
        let t = s.drop_first();
        lemma_first_match_bounds(t, n);
        assert forall|j: int| 1 <= j < s.len() implies s[j] == #[trigger] t[j - 1] by {}
        match first_match(t, n) {
            Some(i) => {
                assert forall|j: int| 0 <= j < i + 1 implies !same_name(#[trigger] s[j].0, n) by {
                    if j > 0 {
                        assert(s[j] == t[j - 1]);
                    }
                }
            },
            None => {
                assert forall|j: int| 0 <= j < s.len() implies !same_name(#[trigger] s[j].0, n) by {
                    if j > 0 {
                        assert(s[j] == t[j - 1]);
                    }
                }
            },
        }
    }
}

/// No entry of `s` is named `n`.
pub open spec fn same_name_absent(s: HeaderEntries, n: Seq<char>) -> bool {
    forall|j: int| 0 <= j < s.len() ==> !same_name(#[trigger] s[j].0, n)
}

/// No entry named `n` is left after removing `n`.
pub proof fn lemma_without_removes(s: HeaderEntries, n: Seq<char>)
    ensures
        same_name_absent(without(s, n), n),
    decreases s.len(),
{
    if s.len() > 0 {
        lemma_without_removes(s.drop_last(), n);
        let r = without(s.drop_last(), n);
        if !same_name(s.last().0, n) {
            assert forall|j: int| 0 <= j < r.len() + 1 implies !same_name(
                #[trigger] r.push(s.last())[j].0,
                n,
            ) by {
                if j < r.len() {
                    assert(r.push(s.last())[j] == r[j]);
                }
            }
        }
    }
}

/// Removing one name keeps any other name absent.
pub proof fn lemma_without_keeps_absent(s: HeaderEntries, n: Seq<char>, m: Seq<char>)
    requires
        same_name_absent(s, m),
    ensures
        same_name_absent(without(s, n), m),
    decreases s.len(),
{
    if s.len() > 0 {
        let t = s.drop_last();
        assert(same_name_absent(t, m)) by {
            assert forall|j: int| 0 <= j < t.len() implies !same_name(#[trigger] t[j].0, m) by {
                assert(t[j] == s[j]);
            }
        }
        lemma_without_keeps_absent(t, n, m);
        let r = without(t, n);
        assert(!same_name(s[s.len() - 1].0, m));
        if !same_name(s.last().0, n) {
            assert forall|j: int| 0 <= j < r.len() + 1 implies !same_name(
                #[trigger] r.push(s.last())[j].0,
                m,
            ) by {
                if j < r.len() {
                    assert(r.push(s.last())[j] == r[j]);
                }
            }
        }
    }
}

/// Replacing a name keeps any other name absent.
pub proof fn lemma_replaced_keeps_absent(s: HeaderEntries, n: Seq<char>, v: Seq<char>, m: Seq<char>)
    requires
        same_name_absent(s, m),
        !same_name(n, m),
    ensures
        same_name_absent(replaced(s, n, v), m),
{
    lemma_without_keeps_absent(s, n, m);
    let r = without(s, n);
    assert forall|j: int| 0 <= j < r.len() + 1 implies !same_name(
        #[trigger] r.push((n, seq![v]))[j].0,
        m,
    ) by {
        if j < r.len() {
            assert(r.push((n, seq![v]))[j] == r[j]);
        }
    }
}

/// A header set, as an ordered multimap of names to values. Any sequence of
/// entries is a valid header set: where two entries share a name, lookups
/// see the first, and removal takes out both.
#[derive(Debug, Clone)]
pub struct Headers {
    inner: Vec<(String, Vec<String>)>,
}

impl View for Headers {
    type V = HeaderEntries;

    closed spec fn view(&self) -> HeaderEntries {
        self.inner@.map_values(|e: (String, Vec<String>)| entry_view(e))
    }
}

impl Headers {
    pub fn new() -> (r: Headers)
        ensures
            r@ == Seq::<(Seq<char>, Seq<Seq<char>>)>::empty(),
    {
        let r = Headers { inner: Vec::new() };
        assert(r@ =~= Seq::<(Seq<char>, Seq<Seq<char>>)>::empty());
        r
    }

    /// A copy of the header set.
    pub fn clone_headers(&self) -> (r: Headers)
        ensures
            r@ == self@,
    {
        let mut inner: Vec<(String, Vec<String>)> = Vec::new();
        let mut i: usize = 0;
        while i < self.inner.len()
            invariant
                i <= self.inner@.len(),
                inner@.len() == i,
                forall|j: int| 0 <= j < i ==> entry_view(#[trigger] inner@[j]) == entry_view(self.inner@[j]),
            decreases self.inner@.len() - i,
        {
            let vals = self.inner[i].1.clone();
            assert(vals@.map_values(|s: String| s@) =~= self.inner@[i as int].1@.map_values(|s: String| s@));
            inner.push((self.inner[i].0.clone(), vals));
            i = i + 1;
        }
        let r = Headers { inner };
        assert(r@ =~= self@);
        r
    }

    /// A header set with exactly these entries.
    pub fn from_entries(entries: Vec<(String, Vec<String>)>) -> (r: Headers)
        ensures
            r@ == entries@.map_values(|e: (String, Vec<String>)| entry_view(e)),
    {
        Headers { inner: entries }
    }

    /// The entries, in order.
    pub fn entries(&self) -> (r: &Vec<(String, Vec<String>)>)
        ensures
            r@.map_values(|e: (String, Vec<String>)| entry_view(e)) == self@,
    {
        &self.inner
    }

    fn find(&self, name: &str) -> (r: Option<usize>)
        ensures
            r matches Some(i) ==> first_match(self@, name@) == Some(i as int) && i < self@.len(),
            r is None ==> first_match(self@, name@) is None,
    {
        proof {
            lemma_first_match_bounds(self@, name@);
        }
        let mut i: usize = 0;
        while i < self.inner.len()
            invariant
                i <= self.inner@.len(),
                self@.len() == self.inner@.len(),
                forall|j: int| 0 <= j < i ==> !same_name(#[trigger] self@[j].0, name@),
                match first_match(self@, name@) {
                    Some(k) => 0 <= k < self@.len() && same_name(self@[k].0, name@) && forall|j: int|
                        0 <= j < k ==> !same_name(#[trigger] self@[j].0, name@),
                    None => forall|j: int|
                        0 <= j < self@.len() ==> !same_name(#[trigger] self@[j].0, name@),
                },
            decreases self.inner@.len() - i,
        {
            if names_match(self.inner[i].0.as_str(), name) {
                assert(self@[i as int].0 == self.inner@[i as int].0@);
                return Some(i);
            }
            assert(self@[i as int].0 == self.inner@[i as int].0@);
            i = i + 1;
        }
        None
    }

    /// The first value stored under `name`, compared without regard to case.
    pub fn get(&self, name: &str) -> (r: Option<String>)
        ensures
            r matches Some(v) ==> lookup(self@, name@) == Some(v@),
            r is None ==> lookup(self@, name@) is None,
    {
        match self.find(name) {
            Some(i) => {
                assert(first_match(self@, name@) == Some(i as int));
                let vals = &self.inner[i].1;
                assert(self@[i as int].1 == vals@.map_values(|s: String| s@));
                if vals.len() > 0 {
                    assert(self@[i as int].1[0] == vals@[0]@);
                    Some(vals[0].clone())
                } else {
                    None
                }
            },
            None => None,
        }
    }

    /// Adds `value` under `name`, after the values already there.
    pub fn append(&mut self, name: String, value: String)
        ensures
            final(self)@ == appended(old(self)@, name@, value@),
    {
        match self.find(name.as_str()) {
            Some(i) => {
                assert(first_match(old(self)@, name@) == Some(i as int));
                let ghost old_inner = self.inner@;
                let mut e = self.inner.remove(i);
                let ghost before = e.1@;
                e.1.push(value);
                self.inner.insert(i, e);
                assert(self.inner@ =~= old_inner.update(i as int, e));
                assert(entry_view(e) == (old(self)@[i as int].0, old(self)@[i as int].1.push(value@)));
                assert(e.1@.map_values(|s: String| s@) =~= before.map_values(|s: String| s@).push(
                    value@,
                ));
                assert(self@ =~= appended(old(self)@, name@, value@));
            },
            None => {
                let ghost nv = name@;
                let ghost vv = value@;
                let vals = vec![value];
                assert(vals@.map_values(|s: String| s@) =~= seq![vv]);
                self.inner.push((name, vals));
                assert(self@ =~= appended(old(self)@, nv, vv));
            },
        }
    }

    /// Takes out every entry named `name`.
    pub fn remove(&mut self, name: &str)
        ensures
            final(self)@ == without(old(self)@, name@),
    {
        let ghost s = self@;
        let mut kept: Vec<(String, Vec<String>)> = Vec::new();
        let mut rest: Vec<(String, Vec<String>)> = Vec::new();
        std::mem::swap(&mut rest, &mut self.inner);
        assert(rest@.map_values(|e: (String, Vec<String>)| entry_view(e)) =~= s.subrange(0, s.len() as int));
        let ghost n: int = s.len() as int;
        let ghost mut i: int = 0;
        while rest.len() > 0
            invariant
                n == s.len(),
                0 <= i <= n,
                rest@.len() == n - i,
                rest@.map_values(|e: (String, Vec<String>)| entry_view(e)) == s.subrange(i, n),
                kept@.map_values(|e: (String, Vec<String>)| entry_view(e)) == without(
                    s.take(i),
                    name@,
                ),
            decreases rest@.len(),
        {
            assert(s.take(i + 1).drop_last() =~= s.take(i));
            assert(s.subrange(i, n)[0] == s[i]);
            let ghost r0 = rest@;
            let e = rest.remove(0);
            assert(entry_view(e) == s[i]);
            assert(rest@ =~= r0.subrange(1, r0.len() as int));
            assert forall|k: int| 0 <= k < rest@.len() implies entry_view(#[trigger] rest@[k]) == s[i + 1 + k] by {
                assert(rest@[k] == r0[k + 1]);
                assert(r0.map_values(|e: (String, Vec<String>)| entry_view(e))[k + 1] == s.subrange(i, n)[k + 1]);
            }
            assert(rest@.map_values(|e: (String, Vec<String>)| entry_view(e)) =~= s.subrange(i + 1, n));
            if !names_match(e.0.as_str(), name) {
                kept.push(e);
            }
            proof {
                i = i + 1;
            }
            assert(kept@.map_values(|e: (String, Vec<String>)| entry_view(e)) =~= without(s.take(i), name@));
        }
        assert(s.take(n) =~= s);
        self.inner = kept;
    }

    /// Replaces whatever is stored under `name` with the single value `value`.
    pub fn insert(&mut self, name: &str, value: &str)
        ensures
            final(self)@ == replaced(old(self)@, name@, value@),
    {
        self.remove(name);
        let ghost mid = self@;
        let vals = vec![value.to_string()];
        assert(vals@.map_values(|s: String| s@) =~= seq![value@]);
        self.inner.push((name.to_string(), vals));
        assert(self@ =~= mid.push((name@, seq![value@])));
    }

    /// Marks the header set with whether the response came from the cache.
    pub fn set_cache_hit(&mut self, cache_hit: bool)
        ensures
            final(self)@ == replaced(
                old(self)@,
                cache_hit_header(),
                if cache_hit { "true"@ } else { "false"@ },
            ),
    {
        if cache_hit {
            self.insert("Grache-Cache-Hit", "true");
        } else {
            self.insert("Grache-Cache-Hit", "false");
        }
    }

    fn collect_pairs(&self, skip: bool) -> (r: Vec<(String, String)>)
        ensures
            r@.map_values(|p: (String, String)| pair_view(p)) == pairs_of(self@, skip),
    {
        let mut out: Vec<(String, String)> = Vec::new();
        let mut i: usize = 0;
        let n = self.inner.len();
        while i < n
            invariant
                n == self.inner@.len(),
                n == self@.len(),
                i <= n,
                out@.map_values(|p: (String, String)| pair_view(p)) == pairs_of(
                    self@.take(i as int),
                    skip,
                ),
            decreases n - i,
        {
            let ghost before = out@.map_values(|p: (String, String)| pair_view(p));
            assert(self@.take(i + 1).drop_last() =~= self@.take(i as int));
            let name = &self.inner[i].0;
            let vals = &self.inner[i].1;
            let ghost e = self@[i as int];
            assert(e == entry_view(self.inner@[i as int]));
            assert(self@.take(i + 1).last() == e);
            if !(skip && names_match(name.as_str(), "transfer-encoding")) {
                let mut j: usize = 0;
                while j < vals.len()
                    invariant
                        e.0 == name@,
                        e.1 == vals@.map_values(|s: String| s@),
                        j <= vals@.len(),
                        out@.map_values(|p: (String, String)| pair_view(p)) == before
                            + e.1.take(j as int).map_values(|v: Seq<char>| (e.0, v)),
                    decreases vals@.len() - j,
                {
                    let ghost prev = out@;
                    let pair = (name.clone(), vals[j].clone());
                    assert(pair_view(pair) == (e.0, e.1[j as int]));
                    out.push(pair);
                    assert(out@.map_values(|p: (String, String)| pair_view(p)) =~= prev.map_values(
                        |p: (String, String)| pair_view(p),
                    ).push(pair_view(pair)));
                    assert(e.1.take(j + 1).map_values(|v: Seq<char>| (e.0, v)) =~= e.1.take(
                        j as int,
                    ).map_values(|v: Seq<char>| (e.0, v)).push((e.0, vals@[j as int]@)));
                    assert(out@.map_values(|p: (String, String)| pair_view(p)) =~= before
                        + e.1.take(j + 1).map_values(|v: Seq<char>| (e.0, v)));
                    j = j + 1;
                }
                assert(e.1.take(j as int) =~= e.1);
            } else {
                assert(out@.map_values(|p: (String, String)| pair_view(p)) =~= before);
            }
            i = i + 1;
        }
        assert(self@.take(n as int) =~= self@);
        out
    }

    /// Every name/value pair, in order.
    pub fn to_pairs(&self) -> (r: Vec<(String, String)>)
        ensures
            r@.map_values(|p: (String, String)| pair_view(p)) == pairs_of(self@, false),
    {
        self.collect_pairs(false)
    }

    /// The pairs to hand back to a client: all but `Transfer-Encoding`.
    pub fn to_response_headers(&self) -> (r: Vec<(String, String)>)
        ensures
            r@.map_values(|p: (String, String)| pair_view(p)) == pairs_of(self@, true),
    {
        self.collect_pairs(true)
    }

    /// Builds a header set from name/value pairs, grouping values by name.
    pub fn from_pairs(pairs: &Vec<(String, String)>) -> (r: Headers)
        ensures
            r@ == grouped(pairs@.map_values(|p: (String, String)| pair_view(p))),
    {
        let mut h = Headers::new();
        let mut i: usize = 0;
        while i < pairs.len()
            invariant
                i <= pairs@.len(),
                h@ == grouped(pairs@.map_values(|p: (String, String)| pair_view(p)).take(i as int)),
            decreases pairs@.len() - i,
        {
            let ghost ps = pairs@.map_values(|p: (String, String)| pair_view(p));
            assert(ps.take(i + 1).drop_last() =~= ps.take(i as int));
            h.append(pairs[i].0.clone(), pairs[i].1.clone());
            i = i + 1;
        }
        assert(pairs@.map_values(|p: (String, String)| pair_view(p)).take(i as int) =~= pairs@.map_values(|p: (String, String)| pair_view(p)));
        h
    }
}

} // verus!
