use vstd::prelude::*;

use crate::text::{lex_lt, str_eq, str_lt, lemma_lex_irreflexive, lemma_lex_total, lemma_lex_transitive};

verus! {

/// A JSON number in one of the three shapes a JSON document carries: a
/// non-negative integer, a negative integer, or any other number, kept as
/// its shortest decimal text.
#[derive(Debug, PartialEq)]
pub enum JsonNumber {
    PosInt(u64),
    NegInt(i64),
    Float(String),
}

/// A JSON value.
#[derive(Debug, PartialEq)]
pub enum Json {
    Null,
    Bool(bool),
    Number(JsonNumber),
    String(String),
    Array(Vec<Json>),
    Object(JsonMap),
}

/// A JSON object: string keys, each once, kept in ascending key order.
#[derive(Debug, PartialEq)]
pub struct JsonMap {
    entries: Vec<(String, Json)>,
}

/// Mathematical model of a [`JsonNumber`].
pub enum NumberV {
    PosInt(u64),
    NegInt(i64),
    Float(Seq<char>),
}

/// Mathematical model of a [`Json`] value; objects are their entry
/// sequences in key order.
pub enum JsonV {
    Null,
    Bool(bool),
    Number(NumberV),
    String(Seq<char>),
    Array(Seq<JsonV>),
    Object(Seq<(Seq<char>, JsonV)>),
}

pub open spec fn number_view(n: JsonNumber) -> NumberV {
    match n {
        JsonNumber::PosInt(u) => NumberV::PosInt(u),
        JsonNumber::NegInt(i) => NumberV::NegInt(i),
        JsonNumber::Float(s) => NumberV::Float(s@),
    }
}

pub open spec fn json_view(j: Json) -> JsonV
    decreases j, 1int,
{
    match j {
        Json::Null => JsonV::Null,
        Json::Bool(b) => JsonV::Bool(b),
        Json::Number(n) => JsonV::Number(number_view(n)),
        Json::String(s) => JsonV::String(s@),
        Json::Array(items) => JsonV::Array(array_view(items)),
        Json::Object(m) => JsonV::Object(map_view(m)),
    }
}

pub open spec fn array_view(items: Vec<Json>) -> Seq<JsonV>
    decreases items, 0int,
{
    Seq::new(
        items.len() as nat,
        |i: int|
            if 0 <= i < items.len() {
                json_view(items[i])
            } else {
                JsonV::Null
            },
    )
}

pub closed spec fn map_view(m: JsonMap) -> Seq<(Seq<char>, JsonV)>
    decreases m, 0int,
{
    Seq::new(
        m.entries.len() as nat,
        |i: int|
            if 0 <= i < m.entries.len() {
                (m.entries[i].0@, json_view(m.entries[i].1))
            } else {
                (Seq::empty(), JsonV::Null)
            },
    )
}

/// Keys in strictly ascending order (hence each key once).
pub open spec fn keys_sorted(es: Seq<(Seq<char>, JsonV)>) -> bool {
    forall|i: int, j: int| 0 <= i < j < es.len() ==> lex_lt(#[trigger] es[i].0, #[trigger] es[j].0)
}

/// The position of key `k` in an entry sequence, if it occurs.
pub open spec fn entry_index(es: Seq<(Seq<char>, JsonV)>, k: Seq<char>) -> Option<int> {
    if exists|i: int| 0 <= i < es.len() && es[i].0 == k && (forall|j: int| 0 <= j < i ==> es[j].0 != k) {
        Some(choose|i: int| 0 <= i < es.len() && es[i].0 == k && (forall|j: int| 0 <= j < i ==> es[j].0 != k))
    } else {
        None
    }
}

/// The value stored under key `k`, if any.
pub open spec fn entry_get(es: Seq<(Seq<char>, JsonV)>, k: Seq<char>) -> Option<JsonV> {
    match entry_index(es, k) {
        Some(i) => Some(es[i].1),
        None => None,
    }
}

pub open spec fn entry_keys(es: Seq<(Seq<char>, JsonV)>) -> Seq<Seq<char>> {
    es.map_values(|e: (Seq<char>, JsonV)| e.0)
}

/// The entries of `es` with `(k, v)` stored: replaced in place when `k`
/// occurs, otherwise inserted at its ordered position.
pub open spec fn entries_insert(es: Seq<(Seq<char>, JsonV)>, k: Seq<char>, v: JsonV) -> Seq<(Seq<char>, JsonV)> {
    match entry_index(es, k) {
        Some(i) => es.update(i, (k, v)),
        None => {
            let p = Seq::new(es.len(), |i: int| i).filter(|i: int| lex_lt(es[i].0, k)).len();
            es.take(p as int).push((k, v)) + es.skip(p as int)
        },
    }
}

pub proof fn lemma_entry_index_found(es: Seq<(Seq<char>, JsonV)>, k: Seq<char>, i: int)
    requires
        0 <= i < es.len(),
        es[i].0 == k,
        forall|j: int| 0 <= j < i ==> es[j].0 != k,
    ensures
        entry_index(es, k) == Some(i),
{
    let w = choose|w: int| 0 <= w < es.len() && es[w].0 == k && (forall|j: int| 0 <= j < w ==> es[j].0 != k);
    assert(0 <= w < es.len() && es[w].0 == k && (forall|j: int| 0 <= j < w ==> es[j].0 != k));
    if w < i {
        assert(es[w].0 != k);
    }
    if i < w {
        assert(es[i].0 != k);
    }
}

pub proof fn lemma_entry_index_absent(es: Seq<(Seq<char>, JsonV)>, k: Seq<char>)
    requires
        forall|j: int| 0 <= j < es.len() ==> es[j].0 != k,
    ensures
        entry_index(es, k) is None,
{
}

pub proof fn lemma_entry_index_facts(es: Seq<(Seq<char>, JsonV)>, k: Seq<char>)
    ensures
        entry_index(es, k) matches Some(i) ==> 0 <= i < es.len() && es[i].0 == k,
        entry_index(es, k) is None ==> forall|j: int| 0 <= j < es.len() ==> es[j].0 != k,
{
    if entry_index(es, k) is None {
        assert forall|j: int| 0 <= j < es.len() implies es[j].0 != k by {
            if es[j].0 == k {
                // the least such index witnesses the existential
                let mut m = j;
                lemma_least_index(es, k, j);
            }
        }
    }
}

/// A key stored in an entry sequence reads back as the stored value.
pub proof fn lemma_entries_insert_get(es: Seq<(Seq<char>, JsonV)>, k: Seq<char>, v: JsonV)
    ensures
        entry_get(entries_insert(es, k, v), k) == Some(v),
{
    match entry_index(es, k) {
        Some(i) => {
            assert(0 <= i < es.len() && es[i].0 == k && (forall|j: int| 0 <= j < i ==> es[j].0 != k));
            lemma_entry_index_found(es.update(i, (k, v)), k, i);
        },
        None => {
            lemma_entry_index_facts(es, k);
            let idx = Seq::new(es.len(), |i: int| i);
            let f = |i: int| lex_lt(es[i].0, k);
            idx.lemma_filter_len(f);
            let p = idx.filter(f).len() as int;
            let r = es.take(p).push((k, v)) + es.skip(p);
            assert(r[p] == (k, v));
            assert forall|j: int| 0 <= j < p implies r[j].0 != k by {
                assert(r[j] == es[j]);
            }
            lemma_entry_index_found(r, k, p);
        },
    }
}

/// Storing under one key leaves what every other key reads unchanged.
pub proof fn lemma_entries_insert_other(es: Seq<(Seq<char>, JsonV)>, k: Seq<char>, v: JsonV, k2: Seq<char>)
    requires
        k != k2,
    ensures
        entry_get(entries_insert(es, k, v), k2) == entry_get(es, k2),
{
    lemma_entry_index_facts(es, k2);
    match entry_index(es, k) {
        Some(i) => {
            assert(0 <= i < es.len() && es[i].0 == k);
            let r = es.update(i, (k, v));
            match entry_index(es, k2) {
                Some(j) => {
                    assert(0 <= j < es.len() && es[j].0 == k2 && (forall|m: int| 0 <= m < j ==> es[m].0 != k2));
                    assert forall|m: int| 0 <= m < j implies r[m].0 != k2 by {
                        if m != i {
                            assert(r[m] == es[m]);
                        }
                    }
                    lemma_entry_index_found(r, k2, j);
                },
                None => {
                    assert forall|m: int| 0 <= m < r.len() implies r[m].0 != k2 by {
                        if m != i {
                            assert(r[m] == es[m]);
                        }
                    }
                    lemma_entry_index_absent(r, k2);
                },
            }
        },
        None => {
            let idx = Seq::new(es.len(), |i: int| i);
            let f = |i: int| lex_lt(es[i].0, k);
            idx.lemma_filter_len(f);
            let p = idx.filter(f).len() as int;
            let r = es.take(p).push((k, v)) + es.skip(p);
            assert(r.len() == es.len() + 1);
            assert forall|m: int| 0 <= m < p implies r[m] == es[m] by {}
            assert forall|m: int| p < m < r.len() implies r[m] == es[m - 1] by {}
            assert(r[p] == (k, v));
            match entry_index(es, k2) {
                Some(j) => {
                    assert(0 <= j < es.len() && es[j].0 == k2 && (forall|m: int| 0 <= m < j ==> es[m].0 != k2));
                    if j < p {
                        assert forall|m: int| 0 <= m < j implies r[m].0 != k2 by {
                            assert(r[m] == es[m]);
                        }
                        lemma_entry_index_found(r, k2, j);
                    } else {
                        assert(r[j + 1] == es[j]);
                        assert forall|m: int| 0 <= m < j + 1 implies r[m].0 != k2 by {
                            if m < p {
                                assert(r[m] == es[m]);
                            } else if m > p {
                                assert(r[m] == es[m - 1]);
                            }
                        }
                        lemma_entry_index_found(r, k2, j + 1);
                    }
                },
                None => {
                    assert forall|m: int| 0 <= m < r.len() implies r[m].0 != k2 by {
                        if m < p {
                            assert(r[m] == es[m]);
                        } else if m > p {
                            assert(r[m] == es[m - 1]);
                        }
                    }
                    lemma_entry_index_absent(r, k2);
                },
            }
        },
    }
}

proof fn lemma_least_index(es: Seq<(Seq<char>, JsonV)>, k: Seq<char>, j: int)
    requires
        0 <= j < es.len(),
        es[j].0 == k,
    ensures
        exists|i: int| 0 <= i < es.len() && es[i].0 == k && (forall|m: int| 0 <= m < i ==> es[m].0 != k),
    decreases j,
{
    if exists|m: int| 0 <= m < j && es[m].0 == k {
        let m = choose|m: int| 0 <= m < j && es[m].0 == k;
        lemma_least_index(es, k, m);
    } else {
        assert(0 <= j < es.len() && es[j].0 == k && (forall|m: int| 0 <= m < j ==> es[m].0 != k));
    }
}

impl JsonMap {
    #[verifier::type_invariant]
    spec fn sorted(self) -> bool {
        forall|i: int, j: int|
            0 <= i < j < self.entries.len() ==> lex_lt(#[trigger] self.entries[i].0@, #[trigger] self.entries[j].0@)
    }

    proof fn lemma_view(&self)
        ensures
            map_view(*self).len() == self.entries.len(),
            forall|i: int|
                0 <= i < self.entries.len() ==> #[trigger] map_view(*self)[i] == (
                self.entries[i].0@,
                json_view(self.entries[i].1),
            ),
    {
    }

    /// An empty object.
    pub fn new() -> (m: JsonMap)
        ensures
            map_view(m) == Seq::<(Seq<char>, JsonV)>::empty(),
    {
        let m = JsonMap { entries: Vec::new() };
        assert(map_view(m) =~= Seq::<(Seq<char>, JsonV)>::empty());
        m
    }

    /// Number of entries.
    pub fn len(&self) -> (n: usize)
        ensures
            n == map_view(*self).len(),
            keys_sorted(map_view(*self)),
    {
        proof {
            use_type_invariant(self);
            self.lemma_view();
        }
        self.entries.len()
    }

    /// The key of entry `i` (entries are in key order).
    pub fn key_at(&self, i: usize) -> (k: &String)
        requires
            i < map_view(*self).len(),
        ensures
            k@ == map_view(*self)[i as int].0,
    {
        proof {
            self.lemma_view();
        }
        &self.entries[i].0
    }

    /// The value of entry `i`.
    pub fn value_at(&self, i: usize) -> (v: &Json)
        requires
            i < map_view(*self).len(),
        ensures
            json_view(*v) == map_view(*self)[i as int].1,
    {
        proof {
            self.lemma_view();
        }
        &self.entries[i].1
    }

    /// The position of `key`, if present.
    pub fn index_of(&self, key: &str) -> (r: Option<usize>)
        ensures
            r matches Some(i) ==> entry_index(map_view(*self), key@) == Some(i as int),
            r is None ==> entry_index(map_view(*self), key@) is None,
    {
        proof {
            self.lemma_view();
        }
        let mut i: usize = 0;
        while i < self.entries.len()
            invariant
                i <= self.entries.len(),
                map_view(*self).len() == self.entries.len(),
                forall|j: int| 0 <= j < i ==> map_view(*self)[j].0 != key@,
                forall|j: int|
                    0 <= j < self.entries.len() ==> #[trigger] map_view(*self)[j] == (
                    self.entries[j].0@,
                    json_view(self.entries[j].1),
                ),
            decreases self.entries.len() - i,
        {
            if str_eq(self.entries[i].0.as_str(), key) {
                proof {
                    lemma_entry_index_found(map_view(*self), key@, i as int);
                }
                return Some(i);
            }
            i = i + 1;
        }
        None
    }

    /// The value under `key`, if present.
    pub fn get(&self, key: &str) -> (r: Option<&Json>)
        ensures
            entry_get(map_view(*self), key@) matches Some(v) ==> r matches Some(x) && json_view(*x) == v,
            entry_get(map_view(*self), key@) is None ==> r is None,
    {
        match self.index_of(key) {
            Some(i) => {
                proof {
                    self.lemma_view();
                }
                Some(&self.entries[i].1)
            },
            None => None,
        }
    }

    /// Whether `key` is present.
    pub fn contains_key(&self, key: &str) -> (r: bool)
        ensures
            r == (entry_index(map_view(*self), key@) is Some),
    {
        self.index_of(key).is_some()
    }

    /// Appends an entry whose key sorts after every key present.
    pub fn push_last(&mut self, key: String, value: Json)
        requires
            forall|i: int| 0 <= i < map_view(*old(self)).len() ==> lex_lt(#[trigger] map_view(*old(self))[i].0, key@),
        ensures
            map_view(*final(self)) == map_view(*old(self)).push((key@, json_view(value))),
    {
        proof {
            use_type_invariant(&*self);
            self.lemma_view();
        }
        let ghost old_view = map_view(*self);
        let mut entries = Vec::new();
        std::mem::swap(&mut entries, &mut self.entries);
        entries.push((key, value));
        proof {
            assert forall|i: int, j: int| 0 <= i < j < entries.len() implies lex_lt(
                #[trigger] entries[i].0@,
                #[trigger] entries[j].0@,
            ) by {
                if j == entries.len() - 1 {
                    assert(old_view[i].0 == entries[i].0@);
                }
            }
        }
        self.entries = entries;
        proof {
            self.lemma_view();
            assert(map_view(*self) =~= old_view.push((key@, json_view(value))));
        }
    }

    /// Stores `value` under `key`, replacing any previous value.
    pub fn insert(&mut self, key: String, value: Json)
        ensures
            map_view(*final(self)) == entries_insert(map_view(*old(self)), key@, json_view(value)),
    {
        proof {
            use_type_invariant(&*self);
            self.lemma_view();
        }
        let ghost old_view = map_view(*self);
        match self.index_of(key.as_str()) {
            Some(i) => {
                let mut entries = Vec::new();
                std::mem::swap(&mut entries, &mut self.entries);
                entries.set(i, (key, value));
                self.entries = entries;
                proof {
                    self.lemma_view();
                    assert(map_view(*self) =~= old_view.update(i as int, (key@, json_view(value))));
                }
            },
            None => {
                proof {
                    lemma_entry_index_facts(old_view, key@);
                }
                let mut p: usize = self.entries.len();
                while p > 0 && str_lt(key.as_str(), self.entries[p - 1].0.as_str())
                    invariant
                        p <= self.entries.len(),
                        old_view == map_view(*self),
                        old_view.len() == self.entries.len(),
                        forall|j: int| 0 <= j < self.entries.len() ==> #[trigger] old_view[j] == (self.entries[j].0@, json_view(self.entries[j].1)),
                        forall|j: int| p <= j < self.entries.len() ==> lex_lt(key@, #[trigger] self.entries[j].0@),
                        forall|i: int, j: int| 0 <= i < j < self.entries.len() ==> lex_lt(#[trigger] self.entries[i].0@, #[trigger] self.entries[j].0@),
                    decreases p,
                {
                    p = p - 1;
                }
                // every key before p sorts before `key`
                assert forall|j: int| 0 <= j < p implies lex_lt(#[trigger] self.entries[j].0@, key@) by {
                    if p > 0 {
                        let q = p - 1;
                        assert(!lex_lt(key@, self.entries[q as int].0@));
                        assert(old_view[q as int].0 != key@);
                        lemma_lex_total(key@, self.entries[q as int].0@);
                        if j < q {
                            lemma_lex_transitive(self.entries[j].0@, self.entries[q as int].0@, key@);
                        }
                    }
                }
                let ghost pp = p as int;
                proof {
                    let idx = Seq::new(old_view.len(), |i: int| i);
                    let f = |i: int| lex_lt(old_view[i].0, key@);
                    assert forall|i: int| pp <= i < idx.len() implies !#[trigger] f(i) by {
                        lemma_lex_total(key@, old_view[i].0);
                    }
                    assert(idx.filter(f) =~= idx.take(pp)) by {
                        lemma_filter_prefix(idx, f, pp);
                    }
                }
                let mut entries = Vec::new();
                std::mem::swap(&mut entries, &mut self.entries);
                entries.insert(p, (key, value));
                self.entries = entries;
                proof {
                    self.lemma_view();
                    assert(map_view(*self) =~= old_view.take(pp).push((key@, json_view(value))) + old_view.skip(pp));
                }
            },
        }
    }
}

pub proof fn lemma_filter_prefix(idx: Seq<int>, f: spec_fn(int) -> bool, p: int)
    requires
        0 <= p <= idx.len(),
        forall|i: int| 0 <= i < idx.len() ==> idx[i] == i,
        forall|i: int| 0 <= i < p ==> #[trigger] f(i),
        forall|i: int| p <= i < idx.len() ==> !#[trigger] f(i),
    ensures
        idx.filter(f) == idx.take(p),
    decreases idx.len(),
{
    reveal(Seq::filter);
    if idx.len() > 0 {
        let last = idx.len() - 1;
        if p == idx.len() {
            lemma_filter_prefix(idx.drop_last(), f, last);
            assert(idx.drop_last().take(last) =~= idx.drop_last());
            assert(idx.take(p) =~= idx.drop_last().push(idx.last()));
        } else {
            lemma_filter_prefix(idx.drop_last(), f, p);
            assert(idx.drop_last().take(p) =~= idx.take(p));
        }
    }
}


impl JsonNumber {
    /// A copy of this number.
    pub fn copy(&self) -> (r: JsonNumber)
        ensures
            number_view(r) == number_view(*self),
    {
        match self {
            JsonNumber::PosInt(u) => JsonNumber::PosInt(*u),
            JsonNumber::NegInt(i) => JsonNumber::NegInt(*i),
            JsonNumber::Float(s) => JsonNumber::Float(s.clone()),
        }
    }

    /// Whether two numbers are the same JSON number.
    pub fn equals(&self, other: &JsonNumber) -> (r: bool)
        ensures
            r == (number_view(*self) == number_view(*other)),
    {
        match (self, other) {
            (JsonNumber::PosInt(a), JsonNumber::PosInt(b)) => *a == *b,
            (JsonNumber::NegInt(a), JsonNumber::NegInt(b)) => *a == *b,
            (JsonNumber::Float(a), JsonNumber::Float(b)) => str_eq(a.as_str(), b.as_str()),
            _ => false,
        }
    }
}

impl Json {
    /// A deep copy of this value.
    pub fn deep_clone(&self) -> (r: Json)
        ensures
            json_view(r) == json_view(*self),
        decreases *self, 1int,
    {
        match self {
            Json::Null => Json::Null,
            Json::Bool(b) => Json::Bool(*b),
            Json::Number(n) => Json::Number(n.copy()),
            Json::String(s) => Json::String(s.clone()),
            Json::Array(items) => Json::Array(clone_items(items)),
            Json::Object(m) => Json::Object(m.deep_clone()),
        }
    }

    /// Whether two values are the same JSON value (objects compare as
    /// key-ordered entry lists, which makes key order irrelevant).
    pub fn equals(&self, other: &Json) -> (r: bool)
        ensures
            r == (json_view(*self) == json_view(*other)),
        decreases *self, 1int,
    {
        match (self, other) {
            (Json::Null, Json::Null) => true,
            (Json::Bool(a), Json::Bool(b)) => *a == *b,
            (Json::Number(a), Json::Number(b)) => a.equals(b),
            (Json::String(a), Json::String(b)) => str_eq(a.as_str(), b.as_str()),
            (Json::Array(a), Json::Array(b)) => {
                let r = items_equal(a, b);
                proof {
                    if r {
                        assert(array_view(*a) =~= array_view(*b));
                    }
                }
                r
            },
            (Json::Object(a), Json::Object(b)) => a.equals(b),
            _ => false,
        }
    }
}

/// A deep copy of an item list.
pub fn clone_items(items: &Vec<Json>) -> (r: Vec<Json>)
    ensures
        array_view(r) == array_view(*items),
    decreases *items, 0int,
{
    let mut out: Vec<Json> = Vec::new();
    let mut i: usize = 0;
    while i < items.len()
        invariant
            i <= items.len(),
            out.len() == i,
            forall|j: int| 0 <= j < i ==> json_view(#[trigger] out[j]) == json_view(items[j]),
        decreases items.len() - i,
    {
        proof {
            vstd::std_specs::vec::axiom_vec_index_decreases(*items, i as int);
        }
        out.push(items[i].deep_clone());
        i = i + 1;
    }
    assert(array_view(out) =~= array_view(*items));
    out
}

/// Whether two item lists are equal element by element.
pub fn items_equal(a: &Vec<Json>, b: &Vec<Json>) -> (r: bool)
    ensures
        r == (array_view(*a) == array_view(*b)),
    decreases *a, 0int,
{
    if a.len() != b.len() {
        assert(array_view(*a).len() != array_view(*b).len());
        return false;
    }
    let mut i: usize = 0;
    while i < a.len()
        invariant
            i <= a.len(),
            a.len() == b.len(),
            forall|j: int| 0 <= j < i ==> json_view(#[trigger] a[j]) == json_view(b[j]),
        decreases a.len() - i,
    {
        proof {
            vstd::std_specs::vec::axiom_vec_index_decreases(*a, i as int);
        }
        if !a[i].equals(&b[i]) {
            assert(array_view(*a)[i as int] != array_view(*b)[i as int]);
            return false;
        }
        i = i + 1;
    }
    assert(array_view(*a) =~= array_view(*b));
    true
}

impl JsonMap {
    /// A deep copy of this object.
    pub fn deep_clone(&self) -> (r: JsonMap)
        ensures
            map_view(r) == map_view(*self),
        decreases *self, 0int,
    {
        proof {
            use_type_invariant(self);
        }
        let mut out: Vec<(String, Json)> = Vec::new();
        let mut i: usize = 0;
        while i < self.entries.len()
            invariant
                i <= self.entries.len(),
                out.len() == i,
                forall|j: int| 0 <= j < i ==> (#[trigger] out[j]).0@ == self.entries[j].0@ && json_view(out[j].1) == json_view(self.entries[j].1),
            decreases self.entries.len() - i,
        {
            proof {
                vstd::std_specs::vec::axiom_vec_index_decreases(self.entries, i as int);
            }
            let v = self.entries[i].1.deep_clone();
            out.push((self.entries[i].0.clone(), v));
            i = i + 1;
        }
        let r = JsonMap { entries: out };
        assert(map_view(r) =~= map_view(*self));
        r
    }

    /// Whether two objects hold the same entries.
    pub fn equals(&self, other: &JsonMap) -> (r: bool)
        ensures
            r == (map_view(*self) == map_view(*other)),
        decreases *self, 0int,
    {
        if self.entries.len() != other.entries.len() {
            assert(map_view(*self).len() != map_view(*other).len());
            return false;
        }
        let mut i: usize = 0;
        while i < self.entries.len()
            invariant
                i <= self.entries.len(),
                self.entries.len() == other.entries.len(),
                forall|j: int| 0 <= j < i ==> #[trigger] map_view(*self)[j] == map_view(*other)[j],
            decreases self.entries.len() - i,
        {
            proof {
                vstd::std_specs::vec::axiom_vec_index_decreases(self.entries, i as int);
            }
            if !str_eq(self.entries[i].0.as_str(), other.entries[i].0.as_str()) || !self.entries[i].1.equals(&other.entries[i].1) {
                assert(map_view(*self)[i as int] != map_view(*other)[i as int]);
                return false;
            }
            i = i + 1;
        }
        assert(map_view(*self) =~= map_view(*other));
        true
    }
}


#[verifier::external_type_specification]
#[verifier::external_body]
pub struct ExSerdeValue(serde_json::Value);

/// The compact text `serde_json::to_string` writes for a value.
pub uninterp spec fn json_text(v: JsonV) -> Seq<char>;

/// Converts a number into a `serde_json::Value`: the number text of a
/// non-integer is read back with `serde_json::Number`'s parser. Nothing is
/// stated of the result.
#[verifier::external_body]
fn number_to_serde(n: &JsonNumber) -> serde_json::Value {
    match n {
        JsonNumber::PosInt(u) => serde_json::Value::from(*u),
        JsonNumber::NegInt(i) => serde_json::Value::from(*i),
        JsonNumber::Float(t) => t.parse::<serde_json::Number>().map_or(serde_json::Value::Null, serde_json::Value::Number),
    }
}

/// Converts a value into a `serde_json::Value`, one variant for one.
/// Nothing is stated of the result.
#[verifier::external_body]
fn to_serde_value(j: &Json) -> serde_json::Value {
    match j {
        Json::Null => serde_json::Value::Null,
        Json::Bool(b) => serde_json::Value::Bool(*b),
        Json::Number(n) => number_to_serde(n),
        Json::String(s) => serde_json::Value::String(s.clone()),
        Json::Array(items) => serde_json::Value::Array(items.iter().map(to_serde_value).collect()),
        Json::Object(m) => serde_json::Value::Object(m.entries.iter().map(|(k, v)| (k.clone(), to_serde_value(v))).collect()),
    }
}

/// `serde_json::to_string` on the value: its compact JSON text. The
/// contract names the result and says nothing of its characters.
#[verifier::external_body]
pub fn to_json_text(j: &Json) -> (s: String)
    ensures
        s@ == json_text(json_view(*j)),
{
    serde_json::to_string(&to_serde_value(j)).unwrap_or_default()
}
} // verus!
