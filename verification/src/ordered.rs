//! Ordered maps keyed by integers and by text. Both keep their entries in a
//! vector sorted by key, so walking them gives the entries in key order, as a
//! `BTreeMap` does.
use crate::text::{compare_text, lemma_lex_asymmetric, lemma_lex_irreflexive, lemma_lex_total,
    lemma_lex_transitive, lex_lt, Cmp};
use vstd::prelude::*;

verus! {

// ---------------------------------------------------------------------------
// Integer keys
// ---------------------------------------------------------------------------
/// Keys strictly increase along the sequence.
pub open spec fn ids_increasing<V>(s: Seq<(u64, V)>) -> bool {
    forall|i: int, j: int| 0 <= i < j < s.len() ==> s[i].0 < s[j].0
}

/// Position of key `k` in `s`, when it is there.
pub open spec fn id_pos<V>(s: Seq<(u64, V)>, k: u64) -> int {
    choose|i: int| 0 <= i < s.len() && s[i].0 == k
}

pub open spec fn id_present<V>(s: Seq<(u64, V)>, k: u64) -> bool {
    exists|i: int| 0 <= i < s.len() && s[i].0 == k
}

/// The map that a sequence of entries stands for.
pub open spec fn id_map_of<V>(s: Seq<(u64, V)>) -> Map<u64, V> {
    Map::new(|k: u64| id_present(s, k), |k: u64| s[id_pos(s, k)].1)
}

/// The values of `s`, in key order.
pub open spec fn id_values<V>(s: Seq<(u64, V)>) -> Seq<V> {
    s.map_values(|e: (u64, V)| e.1)
}

pub proof fn lemma_id_entry<V>(s: Seq<(u64, V)>, i: int)
    requires
        ids_increasing(s),
        0 <= i < s.len(),
    ensures
        id_present(s, s[i].0),
        id_pos(s, s[i].0) == i,
        id_map_of(s).dom().contains(s[i].0),
        id_map_of(s)[s[i].0] == s[i].1,
{
    assert(id_present(s, s[i].0));
    let j = id_pos(s, s[i].0);
    if j < i {
        assert(s[j].0 < s[i].0);
    } else if j > i {
        assert(s[i].0 < s[j].0);
    }
}

pub proof fn lemma_id_map_all<V>(s: Seq<(u64, V)>)
    requires
        ids_increasing(s),
    ensures
        forall|i: int|
            #![trigger s[i]]
            0 <= i < s.len() ==> id_map_of(s).dom().contains(s[i].0) && id_map_of(s)[s[i].0]
                == s[i].1 && id_pos(s, s[i].0) == i,
        forall|k: u64| #[trigger]
            id_map_of(s).dom().contains(k) ==> 0 <= id_pos(s, k) < s.len() && s[id_pos(s, k)].0
                == k,
{
    assert forall|i: int|
        #![trigger s[i]]
        0 <= i < s.len() implies id_map_of(s).dom().contains(s[i].0) && id_map_of(s)[s[i].0]
        == s[i].1 && id_pos(s, s[i].0) == i by {
        lemma_id_entry(s, i);
    }
}

/// Entries with increasing keys stand for a finite map with one key per entry.
pub proof fn lemma_id_len<V>(s: Seq<(u64, V)>)
    requires
        ids_increasing(s),
    ensures
        id_map_of(s).dom().finite(),
        id_map_of(s).dom().len() == s.len(),
    decreases s.len(),
{
    if s.len() == 0 {
        assert(id_map_of(s).dom() =~= Set::<u64>::empty());
    } else {
        let t = s.drop_last();
        let k = s.last().0;
        lemma_id_len(t);
        assert forall|x: u64| #[trigger] id_map_of(s).dom().contains(x) <==> id_map_of(t).dom().insert(
            k,
        ).contains(x) by {
            if id_present(s, x) {
                let i = choose|i: int| 0 <= i < s.len() && s[i].0 == x;
                if i < s.len() - 1 {
                    assert(t[i].0 == x);
                }
            }
            if id_present(t, x) {
                let i = choose|i: int| 0 <= i < t.len() && t[i].0 == x;
                assert(s[i].0 == x);
            }
            if x == k {
                assert(s[s.len() - 1].0 == x);
            }
        }
        assert(id_map_of(s).dom() =~= id_map_of(t).dom().insert(k));
        if id_present(t, k) {
            let i = choose|i: int| 0 <= i < t.len() && t[i].0 == k;
            assert(s[i].0 < s[s.len() - 1].0);
        }
    }
}

/// `s` lists the entries of `m`, each once, in ascending key order.
pub open spec fn id_listing<W>(s: Seq<(u64, W)>, m: Map<u64, W>) -> bool {
    &&& m.dom().finite()
    &&& s.len() == m.dom().len()
    &&& forall|i: int, j: int| 0 <= i < j < s.len() ==> s[i].0 < s[j].0
    &&& forall|i: int|
        #![trigger s[i]]
        0 <= i < s.len() ==> m.dom().contains(s[i].0) && m[s[i].0] == s[i].1
    &&& forall|k: u64| #[trigger] m.dom().contains(k) ==> exists|i: int| 0 <= i < s.len() && s[i].0 == k
}

/// `s` lists the entries of `m`, each once, in ascending text order.
pub open spec fn text_listing<W>(s: Seq<(Seq<char>, W)>, m: Map<Seq<char>, W>) -> bool {
    &&& m.dom().finite()
    &&& s.len() == m.dom().len()
    &&& forall|i: int, j: int| 0 <= i < j < s.len() ==> lex_lt(s[i].0, s[j].0)
    &&& forall|i: int|
        #![trigger s[i]]
        0 <= i < s.len() ==> m.dom().contains(s[i].0) && m[s[i].0] == s[i].1
    &&& forall|k: Seq<char>| #[trigger] m.dom().contains(k) ==> exists|i: int|
        0 <= i < s.len() && s[i].0 == k
}

/// A map from integer keys to values that walks in key order.
#[derive(Debug)]
pub struct IdMap<V> {
    items: Vec<(u64, V)>,
}

impl<V> IdMap<V> {
    /// The entries, in key order.
    pub closed spec fn items(&self) -> Seq<(u64, V)> {
        self.items@
    }

    pub closed spec fn wf(&self) -> bool {
        ids_increasing(self.items@)
    }

    pub open spec fn view(&self) -> Map<u64, V> {
        id_map_of(self.items())
    }

    pub open spec fn spec_get(&self, k: u64) -> Option<V> {
        if self@.dom().contains(k) {
            Some(self@[k])
        } else {
            None
        }
    }

    pub proof fn lemma_items(&self)
        requires
            self.wf(),
        ensures
            ids_increasing(self.items()),
            forall|i: int|
                #![trigger self.items()[i]]
                0 <= i < self.items().len() ==> self@.dom().contains(self.items()[i].0)
                    && self@[self.items()[i].0] == self.items()[i].1,
            forall|k: u64| #[trigger]
                self@.dom().contains(k) ==> exists|i: int|
                    0 <= i < self.items().len() && self.items()[i].0 == k,
    {
        lemma_id_map_all(self.items@);
        assert forall|k: u64| #[trigger] self@.dom().contains(k) implies exists|i: int|
            0 <= i < self.items().len() && self.items()[i].0 == k by {
            let i = id_pos(self.items@, k);
            assert(0 <= i < self.items().len() && self.items()[i].0 == k);
        }
    }

    /// Walking the map, with each value seen through `f`, lists the map seen
    /// through `f`.
    pub proof fn lemma_listing<W>(&self, f: spec_fn(V) -> W)
        requires
            self.wf(),
        ensures
            id_listing(self.items().map_values(|e: (u64, V)| (e.0, f(e.1))), self@.map_values(f)),
    {
        self.lemma_items();
        lemma_id_len(self.items@);
        let s = self.items().map_values(|e: (u64, V)| (e.0, f(e.1)));
        let m = self@.map_values(f);
        assert(m.dom() =~= self@.dom());
        assert forall|i: int| #![trigger s[i]] 0 <= i < s.len() implies m.dom().contains(s[i].0)
            && m[s[i].0] == s[i].1 by {
            assert(self.items()[i].0 == s[i].0);
        }
        assert forall|k: u64| #[trigger] m.dom().contains(k) implies exists|i: int|
            0 <= i < s.len() && s[i].0 == k by {
            let i = choose|i: int| 0 <= i < self.items().len() && self.items()[i].0 == k;
            assert(s[i].0 == k);
        }
    }

    pub fn new() -> (m: Self)
        ensures
            m.wf(),
            m@ == Map::<u64, V>::empty(),
            m.items() == Seq::<(u64, V)>::empty(),
    {
        let m = IdMap { items: Vec::new() };
        assert(m@ =~= Map::<u64, V>::empty());
        m
    }

    pub fn len(&self) -> (n: usize)
        ensures
            n == self.items().len(),
            self.wf() ==> n == self@.dom().len(),
    {
        proof {
            if self.wf() {
                lemma_id_len(self.items@);
            }
        }
        self.items.len()
    }

    /// The key of the entry at position `i` in key order.
    pub fn key_at(&self, i: usize) -> (k: u64)
        requires
            i < self.items().len(),
        ensures
            k == self.items()[i as int].0,
    {
        self.items[i].0
    }

    /// The value of the entry at position `i` in key order.
    pub fn value_at(&self, i: usize) -> (v: &V)
        requires
            i < self.items().len(),
        ensures
            *v == self.items()[i as int].1,
    {
        &self.items[i].1
    }

    /// Position of the first entry whose key is not below `k`.
    fn lower_bound(&self, k: u64) -> (p: usize)
        requires
            self.wf(),
        ensures
            p <= self.items().len(),
            forall|j: int| 0 <= j < p ==> self.items()[j].0 < k,
            p < self.items().len() ==> self.items()[p as int].0 >= k,
    {
        let mut p: usize = 0;
        while p < self.items.len() && self.items[p].0 < k
            invariant
                p <= self.items@.len(),
                forall|j: int| 0 <= j < p ==> self.items@[j].0 < k,
            decreases self.items@.len() - p,
        {
            p = p + 1;
        }
        p
    }

    /// Position of key `k`, if present.
    pub fn find(&self, k: u64) -> (r: Option<usize>)
        requires
            self.wf(),
        ensures
            r.is_some() <==> self@.dom().contains(k),
            r matches Some(i) ==> i < self.items().len() && self.items()[i as int].0 == k,
    {
        proof {
            lemma_id_map_all(self.items@);
        }
        let p = self.lower_bound(k);
        if p < self.items.len() && self.items[p].0 == k {
            Some(p)
        } else {
            proof {
                if self@.dom().contains(k) {
                    let i = id_pos(self.items@, k);
                    if i < p {
                    } else if i > p {
                        assert(self.items@[p as int].0 < self.items@[i].0);
                    }
                }
            }
            None
        }
    }

    pub fn contains_key(&self, k: u64) -> (b: bool)
        requires
            self.wf(),
        ensures
            b == self@.dom().contains(k),
    {
        self.find(k).is_some()
    }

    pub fn get(&self, k: u64) -> (r: Option<&V>)
        requires
            self.wf(),
        ensures
            r matches Some(v) ==> self@.dom().contains(k) && *v == self@[k],
            r is None ==> !self@.dom().contains(k),
    {
        proof {
            lemma_id_map_all(self.items@);
        }
        match self.find(k) {
            Some(i) => Some(&self.items[i].1),
            None => None,
        }
    }

    /// Inserts or replaces the value for `k`; gives back the value it replaced.
    pub fn insert(&mut self, k: u64, v: V) -> (old_v: Option<V>)
        requires
            old(self).wf(),
        ensures
            final(self).wf(),
            final(self)@ == old(self)@.insert(k, v),
            old_v == old(self).spec_get(k),
    {
        proof {
            lemma_id_map_all(self.items@);
        }
        let ghost s = self.items@;
        let p = self.lower_bound(k);
        if p < self.items.len() && self.items[p].0 == k {
            let (_, prev) = self.items.remove(p);
            self.items.insert(p, (k, v));
            proof {
                assert(self.items@ =~= s.update(p as int, (k, v)));
                lemma_id_entry(s, p as int);
                lemma_id_update(s, p as int, k, v);
            }
            Some(prev)
        } else {
            self.items.insert(p, (k, v));
            proof {
                assert forall|j: int| p <= j < s.len() implies s[j].0 > k by {
                    if j > p {
                        assert(s[p as int].0 < s[j].0);
                    }
                }
                lemma_id_insert_new(s, p as int, k, v);
            }
            None
        }
    }

    /// Removes the entry for `k`, giving back its value.
    pub fn remove(&mut self, k: u64) -> (old_v: Option<V>)
        requires
            old(self).wf(),
        ensures
            final(self).wf(),
            final(self)@ == old(self)@.remove(k),
            old_v == old(self).spec_get(k),
    {
        proof {
            lemma_id_map_all(self.items@);
        }
        let ghost s = self.items@;
        match self.find(k) {
            Some(p) => {
                let (_, prev) = self.items.remove(p);
                proof {
                    lemma_id_entry(s, p as int);
                    lemma_id_remove(s, p as int);
                }
                Some(prev)
            },
            None => {
                proof {
                    assert(id_map_of(s) =~= id_map_of(s).remove(k));
                }
                None
            },
        }
    }
}

proof fn lemma_id_update<V>(s: Seq<(u64, V)>, p: int, k: u64, v: V)
    requires
        ids_increasing(s),
        0 <= p < s.len(),
        s[p].0 == k,
    ensures
        ids_increasing(s.update(p, (k, v))),
        id_map_of(s.update(p, (k, v))) == id_map_of(s).insert(k, v),
{
    let t = s.update(p, (k, v));
    assert(ids_increasing(t)) by {
        assert forall|i: int, j: int| 0 <= i < j < t.len() implies t[i].0 < t[j].0 by {
            assert(s[i].0 < s[j].0);
        }
    }
    lemma_id_map_all(s);
    lemma_id_map_all(t);
    assert forall|x: u64| #[trigger]
        id_map_of(t).dom().contains(x) <==> id_map_of(s).insert(k, v).dom().contains(x) by {
        if id_map_of(t).dom().contains(x) {
            let i = id_pos(t, x);
            if i != p {
                assert(s[i] == t[i]);
            }
        }
        if id_map_of(s).dom().contains(x) {
            let i = id_pos(s, x);
            assert(t[i].0 == x);
        }
        if x == k {
            assert(t[p].0 == x);
        }
    }
    assert forall|x: u64| #[trigger]
        id_map_of(t).dom().contains(x) implies id_map_of(t)[x] == id_map_of(s).insert(k, v)[x] by {
        let i = id_pos(t, x);
        if i != p {
            assert(s[i] == t[i]);
        }
    }
    assert(id_map_of(t) =~= id_map_of(s).insert(k, v));
}

proof fn lemma_id_insert_new<V>(s: Seq<(u64, V)>, p: int, k: u64, v: V)
    requires
        ids_increasing(s),
        0 <= p <= s.len(),
        forall|j: int| 0 <= j < p ==> s[j].0 < k,
        forall|j: int| p <= j < s.len() ==> s[j].0 > k,
    ensures
        ids_increasing(s.insert(p, (k, v))),
        id_map_of(s.insert(p, (k, v))) == id_map_of(s).insert(k, v),
        !id_map_of(s).dom().contains(k),
{
    let t = s.insert(p, (k, v));
    lemma_id_map_all(s);
    if id_map_of(s).dom().contains(k) {
        let i = id_pos(s, k);
        assert(s[i].0 == k);
    }
    assert(ids_increasing(t)) by {
        assert forall|i: int, j: int| 0 <= i < j < t.len() implies t[i].0 < t[j].0 by {
            if j < p {
                assert(t[i] == s[i] && t[j] == s[j]);
            } else if j == p {
                assert(t[i] == s[i]);
            } else if i < p {
                assert(t[i] == s[i] && t[j] == s[j - 1]);
            } else if i == p {
                assert(t[j] == s[j - 1]);
            } else {
                assert(t[i] == s[i - 1] && t[j] == s[j - 1]);
            }
        }
    }
    lemma_id_map_all(t);
    assert forall|x: u64| #[trigger]
        id_map_of(t).dom().contains(x) <==> id_map_of(s).insert(k, v).dom().contains(x) by {
        if id_map_of(t).dom().contains(x) {
            let i = id_pos(t, x);
            if i < p {
                assert(s[i] == t[i]);
            } else if i > p {
                assert(s[i - 1] == t[i]);
            }
        }
        if id_map_of(s).dom().contains(x) {
            let i = id_pos(s, x);
            if i < p {
                assert(t[i] == s[i]);
            } else {
                assert(t[i + 1] == s[i]);
            }
        }
        if x == k {
            assert(t[p].0 == x);
        }
    }
    assert forall|x: u64| #[trigger]
        id_map_of(t).dom().contains(x) implies id_map_of(t)[x] == id_map_of(s).insert(k, v)[x] by {
        let i = id_pos(t, x);
        if i < p {
            assert(s[i] == t[i]);
        } else if i > p {
            assert(s[i - 1] == t[i]);
        }
    }
    assert(id_map_of(t) =~= id_map_of(s).insert(k, v));
}

proof fn lemma_id_remove<V>(s: Seq<(u64, V)>, p: int)
    requires
        ids_increasing(s),
        0 <= p < s.len(),
    ensures
        ids_increasing(s.remove(p)),
        id_map_of(s.remove(p)) == id_map_of(s).remove(s[p].0),
{
    let t = s.remove(p);
    let k = s[p].0;
    assert(ids_increasing(t)) by {
        assert forall|i: int, j: int| 0 <= i < j < t.len() implies t[i].0 < t[j].0 by {
            if j < p {
                assert(t[i] == s[i] && t[j] == s[j]);
            } else if i < p {
                assert(t[i] == s[i] && t[j] == s[j + 1]);
            } else {
                assert(t[i] == s[i + 1] && t[j] == s[j + 1]);
            }
        }
    }
    lemma_id_map_all(s);
    lemma_id_map_all(t);
    assert forall|x: u64| #[trigger]
        id_map_of(t).dom().contains(x) <==> id_map_of(s).remove(k).dom().contains(x) by {
        if id_map_of(t).dom().contains(x) {
            let i = id_pos(t, x);
            if i < p {
                assert(s[i] == t[i]);
                assert(s[i].0 < s[p].0);
            } else {
                assert(s[i + 1] == t[i]);
                assert(s[p].0 < s[i + 1].0);
            }
        }
        if id_map_of(s).remove(k).dom().contains(x) {
            let i = id_pos(s, x);
            if i < p {
                assert(t[i] == s[i]);
            } else if i > p {
                assert(t[i - 1] == s[i]);
            }
        }
    }
    assert forall|x: u64| #[trigger]
        id_map_of(t).dom().contains(x) implies id_map_of(t)[x] == id_map_of(s).remove(k)[x] by {
        let i = id_pos(t, x);
        if i < p {
            assert(s[i] == t[i]);
        } else {
            assert(s[i + 1] == t[i]);
        }
    }
    assert(id_map_of(t) =~= id_map_of(s).remove(k));
}

// ---------------------------------------------------------------------------
// Text keys
// ---------------------------------------------------------------------------
/// Keys strictly increase, in the order of `String`, along the sequence.
pub open spec fn texts_increasing<V>(s: Seq<(String, V)>) -> bool {
    forall|i: int, j: int| 0 <= i < j < s.len() ==> lex_lt(s[i].0@, s[j].0@)
}

pub open spec fn text_pos<V>(s: Seq<(String, V)>, k: Seq<char>) -> int {
    choose|i: int| 0 <= i < s.len() && s[i].0@ == k
}

pub open spec fn text_present<V>(s: Seq<(String, V)>, k: Seq<char>) -> bool {
    exists|i: int| 0 <= i < s.len() && s[i].0@ == k
}

pub open spec fn text_map_of<V>(s: Seq<(String, V)>) -> Map<Seq<char>, V> {
    Map::new(|k: Seq<char>| text_present(s, k), |k: Seq<char>| s[text_pos(s, k)].1)
}

pub proof fn lemma_text_entry<V>(s: Seq<(String, V)>, i: int)
    requires
        texts_increasing(s),
        0 <= i < s.len(),
    ensures
        text_present(s, s[i].0@),
        text_pos(s, s[i].0@) == i,
        text_map_of(s).dom().contains(s[i].0@),
        text_map_of(s)[s[i].0@] == s[i].1,
{
    assert(text_present(s, s[i].0@));
    let j = text_pos(s, s[i].0@);
    if j < i {
        assert(lex_lt(s[j].0@, s[i].0@));
        lemma_lex_irreflexive(s[i].0@);
    } else if j > i {
        assert(lex_lt(s[i].0@, s[j].0@));
        lemma_lex_irreflexive(s[i].0@);
    }
}

pub proof fn lemma_text_map_all<V>(s: Seq<(String, V)>)
    requires
        texts_increasing(s),
    ensures
        forall|i: int|
            #![trigger s[i]]
            0 <= i < s.len() ==> text_map_of(s).dom().contains(s[i].0@) && text_map_of(s)[s[i].0@]
                == s[i].1 && text_pos(s, s[i].0@) == i,
        forall|k: Seq<char>| #[trigger]
            text_map_of(s).dom().contains(k) ==> 0 <= text_pos(s, k) < s.len() && s[text_pos(
                s,
                k,
            )].0@ == k,
{
    assert forall|i: int|
        #![trigger s[i]]
        0 <= i < s.len() implies text_map_of(s).dom().contains(s[i].0@) && text_map_of(s)[s[i].0@]
        == s[i].1 && text_pos(s, s[i].0@) == i by {
        lemma_text_entry(s, i);
    }
}

/// A map from text keys to values that walks in key order.
#[derive(Debug)]
pub struct TextMap<V> {
    items: Vec<(String, V)>,
}

/// Entries with increasing keys stand for a finite map with one key per entry.
pub proof fn lemma_text_len<V>(s: Seq<(String, V)>)
    requires
        texts_increasing(s),
    ensures
        text_map_of(s).dom().finite(),
        text_map_of(s).dom().len() == s.len(),
    decreases s.len(),
{
    if s.len() == 0 {
        assert(text_map_of(s).dom() =~= Set::<Seq<char>>::empty());
    } else {
        let t = s.drop_last();
        let k = s.last().0@;
        lemma_text_len(t);
        assert forall|x: Seq<char>| #[trigger] text_map_of(s).dom().contains(x) <==> text_map_of(
            t,
        ).dom().insert(k).contains(x) by {
            if text_present(s, x) {
                let i = choose|i: int| 0 <= i < s.len() && s[i].0@ == x;
                if i < s.len() - 1 {
                    assert(t[i].0@ == x);
                }
            }
            if text_present(t, x) {
                let i = choose|i: int| 0 <= i < t.len() && t[i].0@ == x;
                assert(s[i].0@ == x);
            }
            if x == k {
                assert(s[s.len() - 1].0@ == x);
            }
        }
        assert(text_map_of(s).dom() =~= text_map_of(t).dom().insert(k));
        if text_present(t, k) {
            let i = choose|i: int| 0 <= i < t.len() && t[i].0@ == k;
            assert(lex_lt(s[i].0@, s[s.len() - 1].0@));
            lemma_lex_irreflexive(k);
        }
    }
}

impl<V> TextMap<V> {
    pub closed spec fn items(&self) -> Seq<(String, V)> {
        self.items@
    }

    pub closed spec fn wf(&self) -> bool {
        texts_increasing(self.items@)
    }

    pub open spec fn view(&self) -> Map<Seq<char>, V> {
        text_map_of(self.items())
    }

    pub proof fn lemma_items(&self)
        requires
            self.wf(),
        ensures
            texts_increasing(self.items()),
            forall|i: int|
                #![trigger self.items()[i]]
                0 <= i < self.items().len() ==> self@.dom().contains(self.items()[i].0@)
                    && self@[self.items()[i].0@] == self.items()[i].1,
            forall|k: Seq<char>| #[trigger]
                self@.dom().contains(k) ==> exists|i: int|
                    0 <= i < self.items().len() && self.items()[i].0@ == k,
    {
        lemma_text_map_all(self.items@);
        assert forall|k: Seq<char>| #[trigger] self@.dom().contains(k) implies exists|i: int|
            0 <= i < self.items().len() && self.items()[i].0@ == k by {
            let i = text_pos(self.items@, k);
            assert(0 <= i < self.items().len() && self.items()[i].0@ == k);
        }
    }

    /// Walking the map, with each value seen through `f`, lists the map seen
    /// through `f`.
    pub proof fn lemma_listing<W>(&self, f: spec_fn(V) -> W)
        requires
            self.wf(),
        ensures
            text_listing(
                self.items().map_values(|e: (String, V)| (e.0@, f(e.1))),
                self@.map_values(f),
            ),
    {
        self.lemma_items();
        lemma_text_len(self.items@);
        let s = self.items().map_values(|e: (String, V)| (e.0@, f(e.1)));
        let m = self@.map_values(f);
        assert(m.dom() =~= self@.dom());
        assert forall|i: int| #![trigger s[i]] 0 <= i < s.len() implies m.dom().contains(s[i].0)
            && m[s[i].0] == s[i].1 by {
            assert(self.items()[i].0@ == s[i].0);
        }
        assert forall|k: Seq<char>| #[trigger] m.dom().contains(k) implies exists|i: int|
            0 <= i < s.len() && s[i].0 == k by {
            let i = choose|i: int| 0 <= i < self.items().len() && self.items()[i].0@ == k;
            assert(s[i].0 == k);
        }
    }

    pub fn new() -> (m: Self)
        ensures
            m.wf(),
            m@ == Map::<Seq<char>, V>::empty(),
            m.items() == Seq::<(String, V)>::empty(),
    {
        let m = TextMap { items: Vec::new() };
        assert(m@ =~= Map::<Seq<char>, V>::empty());
        m
    }

    pub fn len(&self) -> (n: usize)
        ensures
            n == self.items().len(),
            self.wf() ==> n == self@.dom().len(),
    {
        proof {
            if self.wf() {
                lemma_text_len(self.items@);
            }
        }
        self.items.len()
    }

    pub fn key_at(&self, i: usize) -> (k: &String)
        requires
            i < self.items().len(),
        ensures
            *k == self.items()[i as int].0,
    {
        &self.items[i].0
    }

    pub fn value_at(&self, i: usize) -> (v: &V)
        requires
            i < self.items().len(),
        ensures
            *v == self.items()[i as int].1,
    {
        &self.items[i].1
    }

    fn lower_bound(&self, k: &str) -> (p: usize)
        requires
            self.wf(),
        ensures
            p <= self.items().len(),
            forall|j: int| 0 <= j < p ==> lex_lt(self.items()[j].0@, k@),
            p < self.items().len() ==> !lex_lt(self.items()[p as int].0@, k@),
    {
        let mut p: usize = 0;
        while p < self.items.len() && compare_text(self.items[p].0.as_str(), k) == Cmp::Less
            invariant
                p <= self.items@.len(),
                forall|j: int| 0 <= j < p ==> lex_lt(self.items@[j].0@, k@),
            decreases self.items@.len() - p,
        {
            p = p + 1;
        }
        p
    }

    proof fn lemma_absent_at_bound(s: Seq<(String, V)>, k: Seq<char>, p: int)
        requires
            texts_increasing(s),
            0 <= p <= s.len(),
            forall|j: int| 0 <= j < p ==> lex_lt(s[j].0@, k),
            p < s.len() ==> !lex_lt(s[p].0@, k),
            p < s.len() ==> s[p].0@ != k,
        ensures
            !text_present(s, k),
            forall|j: int| p <= j < s.len() ==> lex_lt(k, s[j].0@),
    {
        assert forall|j: int| p <= j < s.len() implies lex_lt(k, s[j].0@) by {
            lemma_lex_total(k, s[p].0@);
            if j > p {
                lemma_lex_transitive(k, s[p].0@, s[j].0@);
            }
        }
        if text_present(s, k) {
            let i = choose|i: int| 0 <= i < s.len() && s[i].0@ == k;
            if i < p {
                lemma_lex_irreflexive(k);
            } else {
                lemma_lex_irreflexive(k);
            }
        }
    }

    pub fn find(&self, k: &str) -> (r: Option<usize>)
        requires
            self.wf(),
        ensures
            r.is_some() <==> self@.dom().contains(k@),
            r matches Some(i) ==> i < self.items().len() && self.items()[i as int].0@ == k@,
    {
        let p = self.lower_bound(k);
        if p < self.items.len() && compare_text(self.items[p].0.as_str(), k) == Cmp::Equal {
            proof {
                lemma_text_entry(self.items@, p as int);
            }
            Some(p)
        } else {
            proof {
                Self::lemma_absent_at_bound(self.items@, k@, p as int);
            }
            None
        }
    }

    pub fn contains_key(&self, k: &str) -> (b: bool)
        requires
            self.wf(),
        ensures
            b == self@.dom().contains(k@),
    {
        self.find(k).is_some()
    }

    pub fn get(&self, k: &str) -> (r: Option<&V>)
        requires
            self.wf(),
        ensures
            r matches Some(v) ==> self@.dom().contains(k@) && *v == self@[k@],
            r is None ==> !self@.dom().contains(k@),
    {
        match self.find(k) {
            Some(i) => {
                proof {
                    lemma_text_entry(self.items@, i as int);
                }
                Some(&self.items[i].1)
            },
            None => None,
        }
    }

    /// Inserts or replaces the value for `k`.
    pub fn insert(&mut self, k: String, v: V)
        requires
            old(self).wf(),
        ensures
            final(self).wf(),
            final(self)@ == old(self)@.insert(k@, v),
    {
        proof {
            lemma_text_map_all(self.items@);
        }
        let ghost s = self.items@;
        let ghost kv = k@;
        let p = self.lower_bound(k.as_str());
        if p < self.items.len() && compare_text(self.items[p].0.as_str(), k.as_str()) == Cmp::Equal {
            self.items.remove(p);
            self.items.insert(p, (k, v));
            proof {
                let t = self.items@;
                assert(t =~= s.update(p as int, (t[p as int].0, v)));
                lemma_text_entry(s, p as int);
                assert(texts_increasing(t)) by {
                    assert forall|i: int, j: int| 0 <= i < j < t.len() implies lex_lt(
                        t[i].0@,
                        t[j].0@,
                    ) by {
                        assert(lex_lt(s[i].0@, s[j].0@));
                    }
                }
                lemma_text_map_all(t);
                assert(text_map_of(t) =~= text_map_of(s).insert(kv, v)) by {
                    assert forall|x: Seq<char>| #[trigger]
                        text_map_of(t).dom().contains(x) <==> text_map_of(s).insert(
                            kv,
                            v,
                        ).dom().contains(x) by {
                        if text_map_of(t).dom().contains(x) {
                            let i = text_pos(t, x);
                            if i != p {
                                assert(s[i] == t[i]);
                            }
                        }
                        if text_map_of(s).dom().contains(x) {
                            let i = text_pos(s, x);
                            assert(t[i].0@ == x);
                        }
                    }
                    assert forall|x: Seq<char>| #[trigger]
                        text_map_of(t).dom().contains(x) implies text_map_of(t)[x] == text_map_of(
                        s,
                    ).insert(kv, v)[x] by {
                        let i = text_pos(t, x);
                        if i != p {
                            assert(s[i] == t[i]);
                            lemma_text_entry(s, i);
                        }
                    }
                }
            }
        } else {
            self.items.insert(p, (k, v));
            proof {
                let t = self.items@;
                assert(t =~= s.insert(p as int, (t[p as int].0, v)));
                Self::lemma_absent_at_bound(s, kv, p as int);
                assert(texts_increasing(t)) by {
                    assert forall|i: int, j: int| 0 <= i < j < t.len() implies lex_lt(
                        t[i].0@,
                        t[j].0@,
                    ) by {
                        if j < p {
                            assert(t[i] == s[i] && t[j] == s[j]);
                        } else if j == p {
                            assert(t[i] == s[i]);
                        } else if i < p {
                            assert(t[i] == s[i] && t[j] == s[j - 1]);
                            lemma_lex_transitive(s[i].0@, kv, s[j - 1].0@);
                        } else if i == p {
                            assert(t[j] == s[j - 1]);
                        } else {
                            assert(t[i] == s[i - 1] && t[j] == s[j - 1]);
                        }
                    }
                }
                lemma_text_map_all(t);
                assert(text_map_of(t) =~= text_map_of(s).insert(kv, v)) by {
                    assert forall|x: Seq<char>| #[trigger]
                        text_map_of(t).dom().contains(x) <==> text_map_of(s).insert(
                            kv,
                            v,
                        ).dom().contains(x) by {
                        if text_map_of(t).dom().contains(x) {
                            let i = text_pos(t, x);
                            if i < p {
                                assert(s[i] == t[i]);
                            } else if i > p {
                                assert(s[i - 1] == t[i]);
                            }
                        }
                        if text_map_of(s).dom().contains(x) {
                            let i = text_pos(s, x);
                            if i < p {
                                assert(t[i] == s[i]);
                            } else {
                                assert(t[i + 1] == s[i]);
                            }
                        }
                    }
                    assert forall|x: Seq<char>| #[trigger]
                        text_map_of(t).dom().contains(x) implies text_map_of(t)[x] == text_map_of(
                        s,
                    ).insert(kv, v)[x] by {
                        let i = text_pos(t, x);
                        if i < p {
                            assert(s[i] == t[i]);
                            lemma_text_entry(s, i);
                        } else if i > p {
                            assert(s[i - 1] == t[i]);
                            lemma_text_entry(s, i - 1);
                        }
                    }
                }
            }
        }
    }

    /// Replaces the value of the entry at position `i`.
    pub fn set_value_at(&mut self, i: usize, v: V)
        requires
            old(self).wf(),
            i < old(self).items().len(),
        ensures
            final(self).wf(),
            final(self)@ == old(self)@.insert(old(self).items()[i as int].0@, v),
            final(self).items().len() == old(self).items().len(),
    {
        let ghost s = self.items@;
        let (k, _) = self.items.remove(i);
        self.items.insert(i, (k, v));
        proof {
            let t = self.items@;
            let kv = s[i as int].0@;
            assert(t =~= s.update(i as int, (t[i as int].0, v)));
            lemma_text_map_all(s);
            assert(texts_increasing(t)) by {
                assert forall|a: int, b: int| 0 <= a < b < t.len() implies lex_lt(
                    t[a].0@,
                    t[b].0@,
                ) by {
                    assert(lex_lt(s[a].0@, s[b].0@));
                }
            }
            lemma_text_map_all(t);
            assert(text_map_of(t) =~= text_map_of(s).insert(kv, v)) by {
                assert forall|x: Seq<char>| #[trigger]
                    text_map_of(t).dom().contains(x) <==> text_map_of(s).insert(
                        kv,
                        v,
                    ).dom().contains(x) by {
                    if text_map_of(t).dom().contains(x) {
                        let j = text_pos(t, x);
                        if j != i {
                            assert(s[j] == t[j]);
                        }
                    }
                    if text_map_of(s).dom().contains(x) {
                        let j = text_pos(s, x);
                        assert(t[j].0@ == x);
                    }
                }
                assert forall|x: Seq<char>| #[trigger]
                    text_map_of(t).dom().contains(x) implies text_map_of(t)[x] == text_map_of(
                    s,
                ).insert(kv, v)[x] by {
                    let j = text_pos(t, x);
                    if j != i {
                        assert(s[j] == t[j]);
                        lemma_text_entry(s, j);
                    }
                }
            }
        }
    }

    /// Removes the entry for `k`, giving back its key and value.
    pub fn remove(&mut self, k: &str) -> (removed: Option<(String, V)>)
        requires
            old(self).wf(),
        ensures
            final(self).wf(),
            final(self)@ == old(self)@.remove(k@),
            removed is Some == old(self)@.dom().contains(k@),
            removed matches Some(e) ==> e.0@ == k@ && e.1 == old(self)@[k@],
    {
        let ghost s = self.items@;
        match self.find(k) {
            Some(p) => {
                let e = self.items.remove(p);
                proof {
                    let t = self.items@;
                    lemma_text_entry(s, p as int);
                    assert(t =~= s.remove(p as int));
                    assert(texts_increasing(t)) by {
                        assert forall|i: int, j: int| 0 <= i < j < t.len() implies lex_lt(
                            t[i].0@,
                            t[j].0@,
                        ) by {
                            if j < p {
                                assert(t[i] == s[i] && t[j] == s[j]);
                            } else if i < p {
                                assert(t[i] == s[i] && t[j] == s[j + 1]);
                            } else {
                                assert(t[i] == s[i + 1] && t[j] == s[j + 1]);
                            }
                        }
                    }
                    lemma_text_map_all(t);
                    lemma_text_map_all(s);
                    assert(text_map_of(t) =~= text_map_of(s).remove(k@)) by {
                        assert forall|x: Seq<char>| #[trigger]
                            text_map_of(t).dom().contains(x) <==> text_map_of(s).remove(
                                k@,
                            ).dom().contains(x) by {
                            if text_map_of(t).dom().contains(x) {
                                let i = text_pos(t, x);
                                if i < p {
                                    assert(s[i] == t[i]);
                                    assert(lex_lt(s[i].0@, s[p as int].0@));
                                    lemma_lex_irreflexive(x);
                                } else {
                                    assert(s[i + 1] == t[i]);
                                    assert(lex_lt(s[p as int].0@, s[i + 1].0@));
                                    lemma_lex_irreflexive(x);
                                }
                            }
                            if text_map_of(s).remove(k@).dom().contains(x) {
                                let i = text_pos(s, x);
                                if i < p {
                                    assert(t[i] == s[i]);
                                } else if i > p {
                                    assert(t[i - 1] == s[i]);
                                }
                            }
                        }
                        assert forall|x: Seq<char>| #[trigger]
                            text_map_of(t).dom().contains(x) implies text_map_of(t)[x]
                            == text_map_of(s).remove(k@)[x] by {
                            let i = text_pos(t, x);
                            if i < p {
                                assert(s[i] == t[i]);
                                lemma_text_entry(s, i);
                            } else {
                                assert(s[i + 1] == t[i]);
                                lemma_text_entry(s, i + 1);
                            }
                        }
                    }
                }
                Some(e)
            },
            None => {
                proof {
                    assert(text_map_of(s) =~= text_map_of(s).remove(k@));
                }
                None
            },
        }
    }
}

} // verus!
