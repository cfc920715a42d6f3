//! A string-to-string map kept in ascending key order.

use vstd::prelude::*;

use crate::text::{lex_lt, lemma_lex_total, lemma_lex_transitive, str_eq, str_lt};

verus! {

/// The position of key `k`, if it occurs (the first such position).
pub open spec fn key_index<V>(es: Seq<(Seq<char>, V)>, k: Seq<char>) -> Option<int> {
    if exists|i: int| 0 <= i < es.len() && es[i].0 == k && (forall|j: int| 0 <= j < i ==> es[j].0 != k) {
        Some(choose|i: int| 0 <= i < es.len() && es[i].0 == k && (forall|j: int| 0 <= j < i ==> es[j].0 != k))
    } else {
        None
    }
}

pub open spec fn key_get<V>(es: Seq<(Seq<char>, V)>, k: Seq<char>) -> Option<V> {
    match key_index(es, k) {
        Some(i) => Some(es[i].1),
        None => None,
    }
}

pub open spec fn pair_keys_sorted<V>(es: Seq<(Seq<char>, V)>) -> bool {
    forall|i: int, j: int| 0 <= i < j < es.len() ==> lex_lt(#[trigger] es[i].0, #[trigger] es[j].0)
}

/// `es` with `(k, v)` stored: replaced in place when `k` occurs,
/// otherwise inserted at its ordered position.
pub open spec fn key_insert<V>(es: Seq<(Seq<char>, V)>, k: Seq<char>, v: V) -> Seq<(Seq<char>, V)> {
    match key_index(es, k) {
        Some(i) => es.update(i, (k, v)),
        None => {
            let p = Seq::new(es.len(), |i: int| i).filter(|i: int| lex_lt(es[i].0, k)).len();
            es.take(p as int).push((k, v)) + es.skip(p as int)
        },
    }
}

pub proof fn lemma_key_index_found<V>(es: Seq<(Seq<char>, V)>, k: Seq<char>, i: int)
    requires
        0 <= i < es.len(),
        es[i].0 == k,
        forall|j: int| 0 <= j < i ==> es[j].0 != k,
    ensures
        key_index(es, k) == Some(i),
{
    let w = choose|w: int| 0 <= w < es.len() && es[w].0 == k && (forall|j: int| 0 <= j < w ==> es[j].0 != k);
    assert(0 <= w < es.len() && es[w].0 == k && (forall|j: int| 0 <= j < w ==> es[j].0 != k));
    if w < i {
        assert(es[w].0 != k);
    }
    if i < w {
        assert(es[i].0 != k);
    }
}

pub proof fn lemma_key_index_facts<V>(es: Seq<(Seq<char>, V)>, k: Seq<char>)
    ensures
        key_index(es, k) matches Some(i) ==> 0 <= i < es.len() && es[i].0 == k && (forall|j: int| 0 <= j < i ==> es[j].0 != k),
        key_index(es, k) is None ==> forall|j: int| 0 <= j < es.len() ==> es[j].0 != k,
{
    if key_index(es, k) is None {
        assert forall|j: int| 0 <= j < es.len() implies es[j].0 != k by {
            if es[j].0 == k {
                lemma_least_key(es, k, j);
            }
        }
    }
}

proof fn lemma_least_key<V>(es: Seq<(Seq<char>, V)>, k: Seq<char>, j: int)
    requires
        0 <= j < es.len(),
        es[j].0 == k,
    ensures
        exists|i: int| 0 <= i < es.len() && es[i].0 == k && (forall|m: int| 0 <= m < i ==> es[m].0 != k),
    decreases j,
{
    if exists|m: int| 0 <= m < j && es[m].0 == k {
        let m = choose|m: int| 0 <= m < j && es[m].0 == k;
        lemma_least_key(es, k, m);
    } else {
        assert(0 <= j < es.len() && es[j].0 == k && (forall|m: int| 0 <= m < j ==> es[m].0 != k));
    }
}

/// A stored key reads back as the stored value.
pub proof fn lemma_key_insert_get<V>(es: Seq<(Seq<char>, V)>, k: Seq<char>, v: V)
    ensures
        key_get(key_insert(es, k, v), k) == Some(v),
{
    lemma_key_index_facts(es, k);
    match key_index(es, k) {
        Some(i) => {
            lemma_key_index_found(es.update(i, (k, v)), k, i);
        },
        None => {
            let idx = Seq::new(es.len(), |i: int| i);
            let f = |i: int| lex_lt(es[i].0, k);
            idx.lemma_filter_len(f);
            let p = idx.filter(f).len() as int;
            let r = es.take(p).push((k, v)) + es.skip(p);
            assert(r[p] == (k, v));
            assert forall|j: int| 0 <= j < p implies r[j].0 != k by {
                assert(r[j] == es[j]);
            }
            lemma_key_index_found(r, k, p);
        },
    }
}

/// In a key-sorted sequence, a key occurs at most once.
pub proof fn lemma_sorted_unique<V>(es: Seq<(Seq<char>, V)>, i: int)
    requires
        pair_keys_sorted(es),
        0 <= i < es.len(),
    ensures
        key_index(es, es[i].0) == Some(i),
{
    assert forall|j: int| 0 <= j < i implies es[j].0 != es[i].0 by {
        crate::text::lemma_lex_irreflexive(es[i].0);
    }
    lemma_key_index_found(es, es[i].0, i);
}

/// Entries with each value mapped through `f`.
pub open spec fn map_entries<V, W>(es: Seq<(Seq<char>, V)>, f: spec_fn(V) -> W) -> Seq<(Seq<char>, W)> {
    es.map_values(|p: (Seq<char>, V)| (p.0, f(p.1)))
}

proof fn lemma_filter_agree(s: Seq<int>, f1: spec_fn(int) -> bool, f2: spec_fn(int) -> bool)
    requires
        forall|j: int| 0 <= j < s.len() ==> f1(#[trigger] s[j]) == f2(s[j]),
    ensures
        s.filter(f1) == s.filter(f2),
    decreases s.len(),
{
    reveal(Seq::filter);
    if s.len() > 0 {
        lemma_filter_agree(s.drop_last(), f1, f2);
    }
}

/// Mapping the values keeps every key where it was.
pub proof fn lemma_map_entries_index<V, W>(es: Seq<(Seq<char>, V)>, f: spec_fn(V) -> W, k: Seq<char>)
    ensures
        key_index(map_entries(es, f), k) == key_index(es, k),
{
    let ms = map_entries(es, f);
    assert forall|i: int| 0 <= i < es.len() implies ms[i].0 == es[i].0 by {}
    lemma_key_index_facts(es, k);
    lemma_key_index_facts(ms, k);
    match key_index(es, k) {
        Some(i) => lemma_key_index_found(ms, k, i),
        None => {},
    }
}

/// Mapping the values commutes with storing an entry.
pub proof fn lemma_key_insert_map<V, W>(es: Seq<(Seq<char>, V)>, k: Seq<char>, v: V, f: spec_fn(V) -> W)
    ensures
        map_entries(key_insert(es, k, v), f) == key_insert(map_entries(es, f), k, f(v)),
{
    let ms = map_entries(es, f);
    assert forall|i: int| 0 <= i < es.len() implies ms[i].0 == es[i].0 by {}
    lemma_key_index_facts(es, k);
    lemma_key_index_facts(ms, k);
    match key_index(es, k) {
        Some(i) => {
            lemma_key_index_found(ms, k, i);
            assert(map_entries(es.update(i, (k, v)), f) =~= ms.update(i, (k, f(v))));
        },
        None => {
            let f1 = |i: int| lex_lt(es[i].0, k);
            let f2 = |i: int| lex_lt(ms[i].0, k);
            let idx = Seq::new(es.len(), |i: int| i);
            assert(idx =~= Seq::new(ms.len(), |i: int| i));
            lemma_filter_agree(idx, f1, f2);
            let p = idx.filter(f1).len();
            assert(map_entries(es.take(p as int).push((k, v)) + es.skip(p as int), f)
                =~= ms.take(p as int).push((k, f(v))) + ms.skip(p as int));
        },
    }
}

/// A map from strings to strings, in ascending key order.
#[derive(Debug, PartialEq)]
pub struct StrMap {
    entries: Vec<(String, String)>,
}

impl StrMap {
    #[verifier::type_invariant]
    spec fn sorted(self) -> bool {
        forall|i: int, j: int|
            0 <= i < j < self.entries.len() ==> lex_lt(#[trigger] self.entries[i].0@, #[trigger] self.entries[j].0@)
    }

    /// The entries in key order.
    pub closed spec fn view_pairs(self) -> Seq<(Seq<char>, Seq<char>)> {
        self.entries@.map_values(|e: (String, String)| (e.0@, e.1@))
    }

    /// An empty map.
    pub fn new() -> (m: StrMap)
        ensures
            m.view_pairs() == Seq::<(Seq<char>, Seq<char>)>::empty(),
    {
        let m = StrMap { entries: Vec::new() };
        assert(m.view_pairs() =~= Seq::<(Seq<char>, Seq<char>)>::empty());
        m
    }

    /// Number of entries; the keys are in ascending order.
    pub fn len(&self) -> (n: usize)
        ensures
            n == self.view_pairs().len(),
            pair_keys_sorted(self.view_pairs()),
    {
        proof {
            use_type_invariant(self);
        }
        self.entries.len()
    }

    /// The key of entry `i`.
    pub fn key_at(&self, i: usize) -> (k: &String)
        requires
            i < self.view_pairs().len(),
        ensures
            k@ == self.view_pairs()[i as int].0,
    {
        &self.entries[i].0
    }

    /// The value of entry `i`.
    pub fn value_at(&self, i: usize) -> (v: &String)
        requires
            i < self.view_pairs().len(),
        ensures
            v@ == self.view_pairs()[i as int].1,
    {
        &self.entries[i].1
    }

    /// The position of `key`, if present.
    pub fn index_of(&self, key: &str) -> (r: Option<usize>)
        ensures
            r matches Some(i) ==> key_index(self.view_pairs(), key@) == Some(i as int),
            r is None ==> key_index(self.view_pairs(), key@) is None,
    {
        let mut i: usize = 0;
        while i < self.entries.len()
            invariant
                i <= self.entries.len(),
                forall|j: int| 0 <= j < i ==> self.view_pairs()[j].0 != key@,
            decreases self.entries.len() - i,
        {
            if str_eq(self.entries[i].0.as_str(), key) {
                proof {
                    lemma_key_index_found(self.view_pairs(), key@, i as int);
                }
                return Some(i);
            }
            i = i + 1;
        }
        None
    }

    /// The value under `key`, if present.
    pub fn get(&self, key: &str) -> (r: Option<&String>)
        ensures
            key_get(self.view_pairs(), key@) matches Some(v) ==> r matches Some(x) && x@ == v,
            key_get(self.view_pairs(), key@) is None ==> r is None,
    {
        match self.index_of(key) {
            Some(i) => Some(&self.entries[i].1),
            None => None,
        }
    }

    /// Whether `key` is present.
    pub fn contains_key(&self, key: &str) -> (r: bool)
        ensures
            r == (key_index(self.view_pairs(), key@) is Some),
    {
        self.index_of(key).is_some()
    }

    /// A copy of this map.
    pub fn copy(&self) -> (r: StrMap)
        ensures
            r.view_pairs() == self.view_pairs(),
    {
        proof {
            use_type_invariant(self);
        }
        let mut out: Vec<(String, String)> = Vec::new();
        let mut i: usize = 0;
        while i < self.entries.len()
            invariant
                i <= self.entries.len(),
                out.len() == i,
                forall|j: int| 0 <= j < i ==> (#[trigger] out[j]).0@ == self.entries[j].0@ && out[j].1@ == self.entries[j].1@,
            decreases self.entries.len() - i,
        {
            out.push((self.entries[i].0.clone(), self.entries[i].1.clone()));
            i = i + 1;
        }
        let r = StrMap { entries: out };
        assert(r.view_pairs() =~= self.view_pairs());
        r
    }

    /// Stores `value` under `key`, replacing any previous value.
    pub fn insert(&mut self, key: String, value: String)
        ensures
            final(self).view_pairs() == key_insert(old(self).view_pairs(), key@, value@),
    {
        proof {
            use_type_invariant(&*self);
        }
        let ghost old_view = self.view_pairs();
        match self.index_of(key.as_str()) {
            Some(i) => {
                let ghost kv = (key@, value@);
                let mut entries = Vec::new();
                std::mem::swap(&mut entries, &mut self.entries);
                entries.set(i, (key, value));
                self.entries = entries;
                assert(self.view_pairs() =~= old_view.update(i as int, kv));
            },
            None => {
                proof {
                    lemma_key_index_facts(old_view, key@);
                }
                let mut p: usize = self.entries.len();
                while p > 0 && str_lt(key.as_str(), self.entries[p - 1].0.as_str())
                    invariant
                        p <= self.entries.len(),
                        old_view == self.view_pairs(),
                        self.sorted(),
                        forall|j: int| p <= j < self.entries.len() ==> lex_lt(key@, #[trigger] self.entries[j].0@),
                    decreases p,
                {
                    p = p - 1;
                }
                assert forall|j: int| 0 <= j < p implies lex_lt(#[trigger] self.entries[j].0@, key@) by {
                    let q = p - 1;
                    assert(old_view[q as int].0 == self.entries[q as int].0@);
                    lemma_lex_total(key@, self.entries[q as int].0@);
                    if j < q {
                        lemma_lex_transitive(self.entries[j].0@, self.entries[q as int].0@, key@);
                    }
                }
                let ghost pp = p as int;
                let ghost kv = (key@, value@);
                proof {
                    let idx = Seq::new(old_view.len(), |i: int| i);
                    let f = |i: int| lex_lt(old_view[i].0, key@);
                    assert forall|i: int| pp <= i < idx.len() implies !#[trigger] f(i) by {
                        lemma_lex_total(key@, old_view[i].0);
                    }
                    assert forall|i: int| 0 <= i < pp implies #[trigger] f(i) by {
                        assert(old_view[i].0 == self.entries[i].0@);
                    }
                    crate::json::lemma_filter_prefix(idx, f, pp);
                }
                let mut entries = Vec::new();
                std::mem::swap(&mut entries, &mut self.entries);
                entries.insert(p, (key, value));
                self.entries = entries;
                assert(self.view_pairs() =~= old_view.take(pp).push(kv) + old_view.skip(pp));
            },
        }
    }
}


/// A map from strings to values, in ascending key order.
#[derive(Debug)]
pub struct KeyMap<V> {
    entries: Vec<(String, V)>,
}

impl<V> KeyMap<V> {
    #[verifier::type_invariant]
    spec fn sorted(self) -> bool {
        forall|i: int, j: int|
            0 <= i < j < self.entries.len() ==> lex_lt(#[trigger] self.entries[i].0@, #[trigger] self.entries[j].0@)
    }

    /// The entries in key order.
    pub closed spec fn pairs(self) -> Seq<(Seq<char>, V)> {
        self.entries@.map_values(|e: (String, V)| (e.0@, e.1))
    }

    /// An empty map.
    pub fn new() -> (m: KeyMap<V>)
        ensures
            m.pairs() == Seq::<(Seq<char>, V)>::empty(),
    {
        let m = KeyMap { entries: Vec::new() };
        assert(m.pairs() =~= Seq::<(Seq<char>, V)>::empty());
        m
    }

    /// Number of entries; the keys are in ascending order.
    pub fn len(&self) -> (n: usize)
        ensures
            n == self.pairs().len(),
            pair_keys_sorted(self.pairs()),
    {
        proof {
            use_type_invariant(self);
        }
        self.entries.len()
    }

    /// The key of entry `i`.
    pub fn key_at(&self, i: usize) -> (k: &String)
        requires
            i < self.pairs().len(),
        ensures
            k@ == self.pairs()[i as int].0,
    {
        &self.entries[i].0
    }

    /// The value of entry `i`.
    pub fn value_at(&self, i: usize) -> (v: &V)
        requires
            i < self.pairs().len(),
        ensures
            *v == self.pairs()[i as int].1,
    {
        &self.entries[i].1
    }

    fn index_of(&self, key: &str) -> (r: Option<usize>)
        ensures
            r matches Some(i) ==> key_index(self.pairs(), key@) == Some(i as int) && i < self.entries.len(),
            r is None ==> key_index(self.pairs(), key@) is None,
    {
        let mut i: usize = 0;
        while i < self.entries.len()
            invariant
                i <= self.entries.len(),
                forall|j: int| 0 <= j < i ==> self.pairs()[j].0 != key@,
            decreases self.entries.len() - i,
        {
            assert(self.pairs()[i as int].0 == self.entries[i as int].0@);
            if str_eq(self.entries[i].0.as_str(), key) {
                proof {
                    lemma_key_index_found(self.pairs(), key@, i as int);
                }
                return Some(i);
            }
            i = i + 1;
        }
        proof {
            if key_index(self.pairs(), key@) is Some {
                lemma_key_index_facts(self.pairs(), key@);
            }
        }
        None
    }

    /// The value under `key`, if present.
    pub fn get(&self, key: &str) -> (r: Option<&V>)
        ensures
            key_get(self.pairs(), key@) matches Some(v) ==> r matches Some(x) && *x == v,
            key_get(self.pairs(), key@) is None ==> r is None,
    {
        match self.index_of(key) {
            Some(i) => Some(&self.entries[i].1),
            None => None,
        }
    }

    /// Whether `key` is present.
    pub fn contains_key(&self, key: &str) -> (r: bool)
        ensures
            r == (key_index(self.pairs(), key@) is Some),
    {
        self.index_of(key).is_some()
    }

    /// The entries in key order, as owned pairs.
    pub fn into_entries(self) -> (v: Vec<(String, V)>)
        ensures
            v@.map_values(|e: (String, V)| (e.0@, e.1)) == self.pairs(),
            pair_keys_sorted(self.pairs()),
    {
        proof {
            use_type_invariant(&self);
        }
        let KeyMap { entries } = self;
        entries
    }

    /// Removes `key`'s entry, handing its value back.
    pub fn take(&mut self, key: &str) -> (r: Option<V>)
        ensures
            match key_index(old(self).pairs(), key@) {
                Some(i) => r == Some(old(self).pairs()[i].1) && final(self).pairs() == old(self).pairs().remove(i),
                None => r is None && final(self).pairs() == old(self).pairs(),
            },
    {
        proof {
            use_type_invariant(&*self);
        }
        match self.index_of(key) {
            None => None,
            Some(i) => {
                let ghost old_view = self.pairs();
                let ghost old_entries = self.entries@;
                let mut entries = Vec::new();
                std::mem::swap(&mut entries, &mut self.entries);
                let (_, v) = entries.remove(i);
                proof {
                    assert(entries@ == old_entries.remove(i as int));
                    assert forall|a: int, b: int| 0 <= a < b < entries.len() implies lex_lt(
                        #[trigger] entries[a].0@,
                        #[trigger] entries[b].0@,
                    ) by {
                        let oa = if a < i { a } else { a + 1 };
                        let ob = if b < i { b } else { b + 1 };
                        assert(entries[a] == old_entries[oa]);
                        assert(entries[b] == old_entries[ob]);
                        assert(oa < ob);
                    }
                }
                self.entries = entries;
                assert(self.pairs() =~= old_view.remove(i as int));
                Some(v)
            },
        }
    }

    /// Stores `value` under `key`, replacing any previous value.
    pub fn insert(&mut self, key: String, value: V)
        ensures
            final(self).pairs() == key_insert(old(self).pairs(), key@, value),
    {
        proof {
            use_type_invariant(&*self);
        }
        let ghost old_view = self.pairs();
        let ghost kv = (key@, value);
        match self.index_of(key.as_str()) {
            Some(i) => {
                let mut entries = Vec::new();
                std::mem::swap(&mut entries, &mut self.entries);
                entries.set(i, (key, value));
                self.entries = entries;
                assert(self.pairs() =~= old_view.update(i as int, kv));
            },
            None => {
                proof {
                    lemma_key_index_facts(old_view, key@);
                }
                let mut p: usize = self.entries.len();
                while p > 0 && str_lt(key.as_str(), self.entries[p - 1].0.as_str())
                    invariant
                        p <= self.entries.len(),
                        old_view == self.pairs(),
                        self.sorted(),
                        forall|j: int| p <= j < self.entries.len() ==> lex_lt(key@, #[trigger] self.entries[j].0@),
                    decreases p,
                {
                    p = p - 1;
                }
                assert forall|j: int| 0 <= j < p implies lex_lt(#[trigger] self.entries[j].0@, key@) by {
                    let q = p - 1;
                    assert(old_view[q as int].0 == self.entries[q as int].0@);
                    lemma_lex_total(key@, self.entries[q as int].0@);
                    if j < q {
                        lemma_lex_transitive(self.entries[j].0@, self.entries[q as int].0@, key@);
                    }
                }
                let ghost pp = p as int;
                proof {
                    let idx = Seq::new(old_view.len(), |i: int| i);
                    let f = |i: int| lex_lt(old_view[i].0, key@);
                    assert forall|i: int| pp <= i < idx.len() implies !#[trigger] f(i) by {
                        lemma_lex_total(key@, old_view[i].0);
                    }
                    assert forall|i: int| 0 <= i < pp implies #[trigger] f(i) by {
                        assert(old_view[i].0 == self.entries[i].0@);
                    }
                    crate::json::lemma_filter_prefix(idx, f, pp);
                }
                let mut entries = Vec::new();
                std::mem::swap(&mut entries, &mut self.entries);
                entries.insert(p, (key, value));
                self.entries = entries;
                assert(self.pairs() =~= old_view.take(pp).push(kv) + old_view.skip(pp));
            },
        }
    }
}

} // verus!
