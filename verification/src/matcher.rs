//! The vector matching engine:
//!
//! - objects match by subset (additive envelope evolution)
//! - arrays match element-wise with exact length
//! - expected event lists match actual lists exactly in count and order
//! - directives: `$bind`, `$ref`, `$exact`, `$keys`, `$absent`

use vstd::prelude::*;
use vstd::relations::{sorted_by, total_ordering};

use crate::envelope::strs_view;
use crate::registry::{strings_debug, strings_debug_text};
use crate::json::{
    array_view, clone_items, entry_get, entry_keys, entries_insert, json_text, json_view, keys_sorted, lemma_entries_insert_get, map_view,
    to_json_text, Json, JsonMap, JsonV,
};
use crate::text::{
    chars_of, concat2, concat3, decimal, lemma_lex_irreflexive, lemma_lex_total, lemma_lex_transitive, lex_lt,
    push_decimal, push_str, str_eq, str_lt,
};

verus! {

/// Values captured by `$bind`, referenced by `$ref`.
#[derive(Debug)]
pub struct Bindings {
    values: JsonMap,
}

impl Bindings {
    /// The bound names and their values, in name order.
    pub closed spec fn bound(self) -> Seq<(Seq<char>, JsonV)> {
        map_view(self.values)
    }

    /// Nothing bound.
    pub fn new() -> (b: Bindings)
        ensures
            b.bound() == Seq::<(Seq<char>, JsonV)>::empty(),
    {
        Bindings { values: JsonMap::new() }
    }

    /// The value bound to `name`, if any.
    pub fn get(&self, name: &str) -> (r: Option<&Json>)
        ensures
            entry_get(self.bound(), name@) matches Some(v) ==> r matches Some(x) && json_view(*x) == v,
            entry_get(self.bound(), name@) is None ==> r is None,
    {
        self.values.get(name)
    }

    fn bind(&mut self, name: String, value: Json)
        ensures
            final(self).bound() == entries_insert(old(self).bound(), name@, json_view(value)),
    {
        self.values.insert(name, value);
    }
}

impl Default for Bindings {
    /// Nothing bound.
    fn default() -> (b: Bindings)
        ensures
            b.bound() == Seq::<(Seq<char>, JsonV)>::empty(),
    {
        Bindings::new()
    }
}

/// The name of a `{"$ref": "NAME"}` object.
pub open spec fn ref_name(es: Seq<(Seq<char>, JsonV)>) -> Option<Seq<char>> {
    if es.len() == 1 && es[0].0 == "$ref"@ {
        match es[0].1 {
            JsonV::String(name) => Some(name),
            _ => None,
        }
    } else {
        None
    }
}

/// Every `$ref` in a payload names a bound value.
pub open spec fn refs_bound(p: JsonV, b: Seq<(Seq<char>, JsonV)>) -> bool
    decreases p,
{
    match p {
        JsonV::Object(es) => match ref_name(es) {
            Some(name) => entry_get(b, name) is Some,
            None => forall|i: int| 0 <= i < es.len() ==> refs_bound(#[trigger] es[i].1, b),
        },
        JsonV::Array(items) => forall|i: int| 0 <= i < items.len() ==> refs_bound(#[trigger] items[i], b),
        _ => true,
    }
}

/// A payload with each `{"$ref": "NAME"}` replaced by the value bound to NAME.
pub open spec fn substituted(p: JsonV, b: Seq<(Seq<char>, JsonV)>) -> JsonV
    decreases p,
{
    match p {
        JsonV::Object(es) => match ref_name(es) {
            Some(name) => entry_get(b, name).unwrap(),
            None => JsonV::Object(
                Seq::new(
                    es.len(),
                    |i: int|
                        if 0 <= i < es.len() {
                            (es[i].0, substituted(es[i].1, b))
                        } else {
                            (Seq::empty(), JsonV::Null)
                        },
                ),
            ),
        },
        JsonV::Array(items) => JsonV::Array(
            Seq::new(
                items.len(),
                |i: int|
                    if 0 <= i < items.len() {
                        substituted(items[i], b)
                    } else {
                        JsonV::Null
                    },
            ),
        ),
        _ => p,
    }
}

fn is_ref_object(m: &JsonMap) -> (r: Option<&String>)
    ensures
        match ref_name(map_view(*m)) {
            Some(name) => r matches Some(s) && s@ == name,
            None => r is None,
        },
{
    if m.len() != 1 {
        return None;
    }
    if !str_eq(m.key_at(0).as_str(), "$ref") {
        return None;
    }
    match m.value_at(0) {
        Json::String(name) => Some(name),
        _ => None,
    }
}

/// Replaces every `{"$ref": "NAME"}` in an outbound payload with the bound
/// value, so vectors stay independent of implementation ID formats. Every
/// referenced name must be bound (a vector-authoring error otherwise).
pub fn substitute(payload: &Json, bindings: &Bindings) -> (r: Json)
    requires
        refs_bound(json_view(*payload), bindings.bound()),
    ensures
        json_view(r) == substituted(json_view(*payload), bindings.bound()),
    decreases json_view(*payload),
{
    match payload {
        Json::Object(map) => {
            match is_ref_object(map) {
                Some(name) => {
                    let ghost es = map_view(*map);
                    assert(json_view(*payload) == JsonV::Object(es));
                    assert(entry_get(bindings.bound(), name@) is Some);
                    match bindings.get(name.as_str()) {
                        Some(v) => {
                            let r = v.deep_clone();
                            assert(json_view(r) == substituted(JsonV::Object(es), bindings.bound()));
                            assert(json_view(r) == substituted(json_view(*payload), bindings.bound()));
                            r
                        },
                        None => {
                            assert(false);
                            Json::Null
                        },
                    }
                },
                None => {
                    let ghost es = map_view(*map);
                    let n = map.len();
                    let mut out = JsonMap::new();
                    let mut i: usize = 0;
                    while i < n
                        invariant
                            i <= n,
                            n == es.len(),
                            es == map_view(*map),
                            keys_sorted(es),
                            json_view(*payload) == JsonV::Object(es),
                            ref_name(es) is None,
                            refs_bound(json_view(*payload), bindings.bound()),
                            map_view(out) == Seq::new(i as nat, |j: int| (es[j].0, substituted(es[j].1, bindings.bound()))),
                        decreases n - i,
                    {
                        let key = map.key_at(i).clone();
                        proof {
                            let p = JsonV::Object(es);
                            assert(decreases_to!(p => p->Object_0));
                            assert(decreases_to!(es => es[i as int]));
                            let t = es[i as int];
                            assert(decreases_to!(t => t.1));
                            assert(refs_bound(es[i as int].1, bindings.bound()));
                        }
                        let v = substitute(map.value_at(i), bindings);
                        let ghost before = map_view(out);
                        out.push_last(key, v);
                        assert(map_view(out) =~= Seq::new((i + 1) as nat, |j: int| (es[j].0, substituted(es[j].1, bindings.bound()))));
                        i = i + 1;
                    }
                    let ghost want = Seq::new(
                        es.len(),
                        |j: int|
                            if 0 <= j < es.len() {
                                (es[j].0, substituted(es[j].1, bindings.bound()))
                            } else {
                                (Seq::<char>::empty(), JsonV::Null)
                            },
                    );
                    assert(map_view(out) =~= want);
                    assert forall|j: int| 0 <= j < es.len() implies decreases_to!(JsonV::Object(es) => es[j].1) by {
                        let p = JsonV::Object(es);
                        assert(decreases_to!(p => p->Object_0));
                        assert(decreases_to!(es => es[j]));
                        let t = es[j];
                        assert(decreases_to!(t => t.1));
                    }
                    let ghost sv = substituted(JsonV::Object(es), bindings.bound());
                    assert(sv is Object);
                    assert(sv->Object_0 =~= want);
                    let r = Json::Object(out);
                    assert(json_view(r) == sv);
                    assert(json_view(*payload) == JsonV::Object(es));
                    assert(json_view(r) == substituted(json_view(*payload), bindings.bound()));
                    r
                },
            }
        },
        Json::Array(items) => {
            let ghost vs = array_view(*items);
            let mut out: Vec<Json> = Vec::new();
            let mut i: usize = 0;
            while i < items.len()
                invariant
                    i <= items.len(),
                    vs == array_view(*items),
                    json_view(*payload) == JsonV::Array(vs),
                    refs_bound(json_view(*payload), bindings.bound()),
                    out.len() == i,
                    forall|j: int| 0 <= j < i ==> json_view(#[trigger] out[j]) == substituted(vs[j], bindings.bound()),
                decreases items.len() - i,
            {
                let item = &items[i];
                proof {
                    assert(vs[i as int] == json_view(*item));
                    assert(vs.len() == items.len());
                    let ghost p = JsonV::Array(vs);
                    assert(decreases_to!(p => p->Array_0));
                    assert(decreases_to!(vs => vs[i as int]));
                    assert(refs_bound(vs[i as int], bindings.bound()));
                }
                out.push(substitute(item, bindings));
                i = i + 1;
            }
            let r = Json::Array(out);
            assert forall|j: int| 0 <= j < vs.len() implies decreases_to!(JsonV::Array(vs) => vs[j]) by {
                let p = JsonV::Array(vs);
                assert(decreases_to!(p => p->Array_0));
                assert(decreases_to!(vs => vs[j]));
            }
            let ghost sv = substituted(JsonV::Array(vs), bindings.bound());
            assert(sv is Array);
            assert(sv->Array_0 =~= array_view(out));
            assert(array_view(out) =~= Seq::new(
                vs.len(),
                |j: int|
                    if 0 <= j < vs.len() {
                        substituted(vs[j], bindings.bound())
                    } else {
                        JsonV::Null
                    },
            ));
            r
        },
        _ => payload.deep_clone(),
    }
}

/// Whether every `$ref` in a payload names a bound value, so that
/// [`substitute`] may be called on it.
pub fn refs_are_bound(payload: &Json, bindings: &Bindings) -> (r: bool)
    ensures
        r == refs_bound(json_view(*payload), bindings.bound()),
    decreases json_view(*payload),
{
    match payload {
        Json::Object(map) => {
            match is_ref_object(map) {
                Some(name) => bindings.get(name.as_str()).is_some(),
                None => {
                    let ghost es = map_view(*map);
                    let n = map.len();
                    let mut i: usize = 0;
                    while i < n
                        invariant
                            i <= n,
                            n == es.len(),
                            es == map_view(*map),
                            json_view(*payload) == JsonV::Object(es),
                            ref_name(es) is None,
                            forall|j: int| 0 <= j < i ==> refs_bound(#[trigger] es[j].1, bindings.bound()),
                        decreases n - i,
                    {
                        proof {
                            let p = JsonV::Object(es);
                            assert(decreases_to!(p => p->Object_0));
                            assert(decreases_to!(es => es[i as int]));
                            let t = es[i as int];
                            assert(decreases_to!(t => t.1));
                        }
                        if !refs_are_bound(map.value_at(i), bindings) {
                            return false;
                        }
                        i = i + 1;
                    }
                    true
                },
            }
        },
        Json::Array(items) => {
            let ghost vs = array_view(*items);
            let mut i: usize = 0;
            while i < items.len()
                invariant
                    i <= items.len(),
                    vs == array_view(*items),
                    json_view(*payload) == JsonV::Array(vs),
                    forall|j: int| 0 <= j < i ==> refs_bound(#[trigger] vs[j], bindings.bound()),
                decreases items.len() - i,
            {
                let item = &items[i];
                proof {
                    assert(vs[i as int] == json_view(*item));
                    let ghost p = JsonV::Array(vs);
                    assert(decreases_to!(p => p->Array_0));
                    assert(decreases_to!(vs => vs[i as int]));
                }
                if !refs_are_bound(item, bindings) {
                    return false;
                }
                i = i + 1;
            }
            true
        },
        _ => true,
    }
}

} // verus!

verus! {

/// Key order: lexicographic, equal keys included.
pub open spec fn key_le(a: Seq<char>, b: Seq<char>) -> bool {
    a == b || lex_lt(a, b)
}

pub open spec fn key_order() -> spec_fn(Seq<char>, Seq<char>) -> bool {
    |a: Seq<char>, b: Seq<char>| key_le(a, b)
}

/// Key order is a total order.
pub proof fn lemma_key_order_total()
    ensures
        total_ordering(key_order()),
{
    let f = key_order();
    assert forall|x: Seq<char>| #[trigger] f(x, x) by {}
    assert forall|x: Seq<char>, y: Seq<char>| #[trigger] f(x, y) && #[trigger] f(y, x) implies x == y by {
        lemma_lex_total(x, y);
    }
    assert forall|x: Seq<char>, y: Seq<char>, z: Seq<char>| #[trigger] f(x, y) && #[trigger] f(y, z) implies f(x, z) by {
        if x != y && y != z {
            lemma_lex_transitive(x, y, z);
        }
    }
    assert forall|x: Seq<char>, y: Seq<char>| #[trigger] f(x, y) || #[trigger] f(y, x) by {
        lemma_lex_total(x, y);
    }
}

/// Strings in key order, equal strings kept.
pub fn sort_strings(v: Vec<String>) -> (r: Vec<String>)
    ensures
        strs_view(r@) == strs_view(v@).sort_by(key_order()),
{
    let ghost vv = strs_view(v@);
    let mut out: Vec<String> = Vec::new();
    let mut i: usize = 0;
    proof {
        lemma_key_order_total();
        assert(strs_view(out@) =~= Seq::<Seq<char>>::empty());
        assert(vv.take(0) =~= Seq::<Seq<char>>::empty());
    }
    while i < v.len()
        invariant
            i <= v.len(),
            vv == strs_view(v@),
            total_ordering(key_order()),
            sorted_by(strs_view(out@), key_order()),
            strs_view(out@).to_multiset() == vv.take(i as int).to_multiset(),
        decreases v.len() - i,
    {
        let x = v[i].clone();
        let ghost s = strs_view(out@);
        let mut p: usize = 0;
        while p < out.len() && !str_lt(x.as_str(), out[p].as_str())
            invariant
                p <= out.len(),
                s == strs_view(out@),
                forall|k: int| 0 <= k < p ==> !lex_lt(x@, #[trigger] s[k]),
            decreases out.len() - p,
        {
            p = p + 1;
        }
        out.insert(p, x);
        proof {
            let ns = strs_view(out@);
            let f = key_order();
            assert(ns =~= s.take(p as int) + seq![x@] + s.skip(p as int));
            assert forall|a: int, b: int| 0 <= a < b < ns.len() implies #[trigger] f(ns[a], ns[b]) by {
                if b < p {
                    assert(f(s[a], s[b]));
                } else if a < p && b == p {
                    lemma_lex_total(x@, s[a]);
                } else if a < p && b > p {
                    assert(f(s[a], s[b - 1]));
                } else if a == p {
                    // x sorts before s[p], which sorts before or equals every later entry
                    if p < s.len() {
                        assert(lex_lt(x@, s[p as int]));
                        if b - 1 > p {
                            assert(f(s[p as int], s[b - 1]));
                            if s[p as int] != s[b - 1] {
                                lemma_lex_transitive(x@, s[p as int], s[b - 1]);
                            }
                        }
                    }
                } else {
                    assert(f(s[a - 1], s[b - 1]));
                }
            }
            broadcast use vstd::seq_lib::group_to_multiset_ensures;
            vstd::seq_lib::lemma_multiset_commutative(s.take(p as int) + seq![x@], s.skip(p as int));
            vstd::seq_lib::lemma_multiset_commutative(s.take(p as int), seq![x@]);
            vstd::seq_lib::lemma_multiset_commutative(s.take(p as int), s.skip(p as int));
            assert(s =~= s.take(p as int) + s.skip(p as int));
            assert(seq![x@] =~= Seq::<Seq<char>>::empty().push(x@));
            assert(vv.take(i + 1) =~= vv.take(i as int).push(x@));
            assert(ns.to_multiset() =~= s.to_multiset().insert(x@));
        }
        i = i + 1;
    }
    proof {
        assert(vv.take(i as int) =~= vv);
        vv.lemma_sort_by_ensures(key_order());
        vstd::seq_lib::lemma_sorted_unique(strs_view(out@), vv.sort_by(key_order()), key_order());
    }
    out
}

} // verus!

verus! {

/// The `(directive, argument)` of a single-entry object whose key starts
/// with `$`.
pub open spec fn directive_of(e: JsonV) -> Option<(Seq<char>, JsonV)> {
    match e {
        JsonV::Object(es) => if es.len() == 1 && es[0].0.len() > 0 && es[0].0[0] == '$' {
            Some(es[0])
        } else {
            None
        },
        _ => None,
    }
}

/// `{"$absent": true}`.
pub open spec fn absent_directive(v: JsonV) -> bool {
    match v {
        JsonV::Object(es) => es.len() == 1 && es[0].0 == "$absent"@ && es[0].1 == JsonV::Bool(true),
        _ => false,
    }
}

/// The strings of a list, in order, skipping other values.
pub open spec fn string_items(items: Seq<JsonV>) -> Seq<Seq<char>>
    decreases items.len(),
{
    if items.len() == 0 {
        Seq::empty()
    } else {
        let rest = string_items(items.drop_last());
        match items.last() {
            JsonV::String(s) => rest.push(s),
            _ => rest,
        }
    }
}

/// The outcome of a matching call: `None` for a match, else the report.
pub open spec fn outcome(r: Result<(), String>) -> Option<Seq<char>> {
    match r {
        Ok(_) => None,
        Err(m) => Some(m@),
    }
}

/// A directive applied to an actual value: the bindings after it and the
/// mismatch report, if any.
pub open spec fn directive_match(
    key: Seq<char>,
    arg: JsonV,
    a: JsonV,
    b: Seq<(Seq<char>, JsonV)>,
    path: Seq<char>,
) -> (Seq<(Seq<char>, JsonV)>, Option<Seq<char>>) {
    if key == "$bind"@ {
        match arg {
            JsonV::String(name) => (entries_insert(b, name, a), None),
            _ => (b, Some(path + ": $bind takes a name string"@)),
        }
    } else if key == "$ref"@ {
        match arg {
            JsonV::String(name) => match entry_get(b, name) {
                None => (b, Some(path + ": $ref to unbound name `"@ + name + "`"@)),
                Some(v) => if v == a {
                    (b, None)
                } else {
                    (b, Some(path + ": expected bound `"@ + name + "` = "@ + json_text(v) + ", got "@ + json_text(a)))
                },
            },
            _ => (b, Some(path + ": $ref takes a name string"@)),
        }
    } else if key == "$exact"@ {
        if arg == a {
            (b, None)
        } else {
            (b, Some(path + ": expected exactly "@ + json_text(arg) + ", got "@ + json_text(a)))
        }
    } else if key == "$keys"@ {
        match arg {
            JsonV::Array(items) => match a {
                JsonV::Object(got) => {
                    let want = string_items(items).sort_by(key_order());
                    let have = entry_keys(got).sort_by(key_order());
                    if want == have {
                        (b, None)
                    } else {
                        (b, Some(path + ": expected keys "@ + strings_debug_text(want) + ", got "@ + strings_debug_text(have)))
                    }
                },
                _ => (b, Some(path + ": $keys expects an object, got "@ + json_text(a))),
            },
            _ => (b, Some(path + ": $keys takes an array"@)),
        }
    } else if key == "$absent"@ {
        if a == JsonV::Null {
            (b, None)
        } else {
            (b, Some(path + ": expected absent, got "@ + json_text(a)))
        }
    } else {
        (b, Some(path + ": unknown directive `"@ + key + "`"@))
    }
}

/// Plain values match when equal.
pub open spec fn plain_match(e: JsonV, a: JsonV, b: Seq<(Seq<char>, JsonV)>, path: Seq<char>) -> (
    Seq<(Seq<char>, JsonV)>,
    Option<Seq<char>>,
) {
    if e == a {
        (b, None)
    } else {
        (b, Some(path + ": expected "@ + json_text(e) + ", got "@ + json_text(a)))
    }
}

/// Matching `e` against `a` at `path`, starting from bindings `b`: the
/// bindings afterwards, and the report of the first mismatch, if any.
/// A directive object applies its directive; objects match by subset;
/// arrays element-wise with equal lengths; anything else by equality.
pub open spec fn value_match(e: JsonV, a: JsonV, b: Seq<(Seq<char>, JsonV)>, path: Seq<char>) -> (
    Seq<(Seq<char>, JsonV)>,
    Option<Seq<char>>,
)
    decreases e, 0int,
{
    match directive_of(e) {
        Some(d) => directive_match(d.0, d.1, a, b, path),
        None => match e {
            JsonV::Object(want) => match a {
                JsonV::Object(got) => {
                    proof {
                        assert(decreases_to!(e => e->Object_0));
                    }
                    fields_match(want, got, b, path, 0)
                },
                _ => plain_match(e, a, b, path),
            },
            JsonV::Array(want) => match a {
                JsonV::Array(got) => if want.len() != got.len() {
                    (
                        b,
                        Some(
                            path + ": expected "@ + decimal(want.len()) + " element(s), got "@ + decimal(got.len()),
                        ),
                    )
                } else {
                    proof {
                        assert(decreases_to!(e => e->Array_0));
                    }
                    items_match(want, got, b, path, 0)
                },
                _ => plain_match(e, a, b, path),
            },
            _ => plain_match(e, a, b, path),
        },
    }
}

/// The expected fields from position `i` on, matched in key order: a field
/// expected absent may be missing or null; any other must be present and
/// match.
pub open spec fn fields_match(
    want: Seq<(Seq<char>, JsonV)>,
    got: Seq<(Seq<char>, JsonV)>,
    b: Seq<(Seq<char>, JsonV)>,
    path: Seq<char>,
    i: int,
) -> (Seq<(Seq<char>, JsonV)>, Option<Seq<char>>)
    decreases want, want.len() - i,
{
    if 0 <= i < want.len() {
        let key = want[i].0;
        let wv = want[i].1;
        let fp = path + "."@ + key;
        if absent_directive(wv) {
            match entry_get(got, key) {
                Some(v) => if v != JsonV::Null {
                    (b, Some(fp + ": expected absent, got "@ + json_text(v)))
                } else {
                    fields_match(want, got, b, path, i + 1)
                },
                None => fields_match(want, got, b, path, i + 1),
            }
        } else {
            match entry_get(got, key) {
                None => (b, Some(fp + ": missing"@)),
                Some(gv) => {
                    proof {
                        assert(decreases_to!(want => want[i]));
                        let t = want[i];
                        assert(decreases_to!(t => t.1));
                    }
                    let r = value_match(wv, gv, b, fp);
                    if r.1 is Some {
                        r
                    } else {
                        fields_match(want, got, r.0, path, i + 1)
                    }
                },
            }
        }
    } else {
        (b, None)
    }
}

/// The elements from position `i` on, matched pairwise.
pub open spec fn items_match(
    want: Seq<JsonV>,
    got: Seq<JsonV>,
    b: Seq<(Seq<char>, JsonV)>,
    path: Seq<char>,
    i: int,
) -> (Seq<(Seq<char>, JsonV)>, Option<Seq<char>>)
    decreases want, want.len() - i,
{
    if 0 <= i < want.len() {
        proof {
            assert(decreases_to!(want => want[i]));
        }
        let r = value_match(want[i], got[i], b, path + "["@ + decimal(i as nat) + "]"@);
        if r.1 is Some {
            r
        } else {
            items_match(want, got, r.0, path, i + 1)
        }
    } else {
        (b, None)
    }
}

/// The expected events from position `i` on, matched pairwise.
pub open spec fn events_from(
    expected: Seq<JsonV>,
    actual: Seq<JsonV>,
    b: Seq<(Seq<char>, JsonV)>,
    i: int,
) -> (Seq<(Seq<char>, JsonV)>, Option<Seq<char>>)
    decreases expected.len() - i,
{
    if 0 <= i < expected.len() {
        let r = value_match(expected[i], actual[i], b, "event["@ + decimal(i as nat) + "]"@);
        if r.1 is Some {
            r
        } else {
            events_from(expected, actual, r.0, i + 1)
        }
    } else {
        (b, None)
    }
}

/// An expected event list against the actual events: the same count, then
/// each pair in order.
pub open spec fn events_match(expected: Seq<JsonV>, actual: Seq<JsonV>, b: Seq<(Seq<char>, JsonV)>) -> (
    Seq<(Seq<char>, JsonV)>,
    Option<Seq<char>>,
) {
    if expected.len() != actual.len() {
        (
            b,
            Some(
                "expected "@ + decimal(expected.len()) + " event(s), got "@ + decimal(actual.len()) + ": "@ + json_text(
                    JsonV::Array(actual),
                ),
            ),
        )
    } else {
        events_from(expected, actual, b, 0)
    }
}

} // verus!

verus! {

fn text_of(j: &Json) -> (s: String)
    ensures
        s@ == json_text(json_view(*j)),
{
    to_json_text(j)
}

fn decimal_text(n: usize) -> (s: String)
    ensures
        s@ == decimal(n as nat),
{
    let mut s = String::new();
    push_decimal(&mut s, n as u64);
    s
}

/// The strings of a list, in order.
fn strings_of(items: &Vec<Json>) -> (r: Vec<String>)
    ensures
        strs_view(r@) == string_items(array_view(*items)),
{
    let ghost vs = array_view(*items);
    let mut out: Vec<String> = Vec::new();
    let mut i: usize = 0;
    assert(vs.take(0) =~= Seq::<JsonV>::empty());
    assert(strs_view(out@) =~= Seq::<Seq<char>>::empty());
    while i < items.len()
        invariant
            i <= items.len(),
            vs == array_view(*items),
            vs.len() == items.len(),
            strs_view(out@) == string_items(vs.take(i as int)),
        decreases items.len() - i,
    {
        assert(vs.take(i + 1).drop_last() =~= vs.take(i as int));
        assert(vs.take(i + 1).last() == json_view(items[i as int]));
        let ghost before = strs_view(out@);
        match &items[i] {
            Json::String(s) => {
                out.push(s.clone());
                assert(strs_view(out@) =~= before.push(s@));
            },
            _ => {},
        }
        i = i + 1;
    }
    assert(vs.take(i as int) =~= vs);
    out
}

/// The keys of an object, in order.
fn keys_of(m: &JsonMap) -> (r: Vec<String>)
    ensures
        strs_view(r@) == entry_keys(map_view(*m)),
{
    let n = m.len();
    let mut out: Vec<String> = Vec::new();
    let mut i: usize = 0;
    while i < n
        invariant
            i <= n,
            n == map_view(*m).len(),
            out.len() == i,
            forall|j: int| 0 <= j < i ==> (#[trigger] out[j])@ == map_view(*m)[j].0,
        decreases n - i,
    {
        out.push(m.key_at(i).clone());
        i = i + 1;
    }
    assert(strs_view(out@) =~= entry_keys(map_view(*m)));
    out
}

fn strings_equal(a: &Vec<String>, b: &Vec<String>) -> (r: bool)
    ensures
        r == (strs_view(a@) == strs_view(b@)),
{
    if a.len() != b.len() {
        assert(strs_view(a@).len() != strs_view(b@).len());
        return false;
    }
    let mut i: usize = 0;
    while i < a.len()
        invariant
            i <= a.len(),
            a.len() == b.len(),
            forall|j: int| 0 <= j < i ==> a[j]@ == b[j]@,
        decreases a.len() - i,
    {
        if !str_eq(a[i].as_str(), b[i].as_str()) {
            assert(strs_view(a@)[i as int] != strs_view(b@)[i as int]);
            return false;
        }
        i = i + 1;
    }
    assert(strs_view(a@) =~= strs_view(b@));
    true
}

/// Object keys are already in key order.
proof fn lemma_keys_sorted_fixed(es: Seq<(Seq<char>, JsonV)>)
    requires
        keys_sorted(es),
    ensures
        entry_keys(es).sort_by(key_order()) == entry_keys(es),
{
    let k = entry_keys(es);
    lemma_key_order_total();
    assert(sorted_by(k, key_order())) by {
        assert forall|i: int, j: int| 0 <= i < j < k.len() implies #[trigger] (key_order())(k[i], k[j]) by {
            assert(lex_lt(es[i].0, es[j].0));
        }
    }
    k.lemma_sort_by_ensures(key_order());
    vstd::seq_lib::lemma_sorted_unique(k, k.sort_by(key_order()), key_order());
}

fn keys_directive(arg: &Json, actual: &Json, bindings: &Bindings, path: &str) -> (r: Result<(), String>)
    ensures
        outcome(r) == directive_match("$keys"@, json_view(*arg), json_view(*actual), bindings.bound(), path@).1,
{
    proof {
        reveal_strlit("$keys");
        reveal_strlit("$bind");
        reveal_strlit("$ref");
        reveal_strlit("$exact");
        assert("$keys"@[1] != "$bind"@[1]);
        assert("$keys"@.len() != "$ref"@.len());
        assert("$keys"@ != "$exact"@);
    }
    let items = match arg {
        Json::Array(items) => items,
        _ => return Err(concat2(path, ": $keys takes an array")),
    };
    let got = match actual {
        Json::Object(m) => m,
        _ => {
            let mut m = concat2(path, ": $keys expects an object, got ");
            push_str(&mut m, text_of(actual).as_str());
            return Err(m);
        },
    };
    let want = sort_strings(strings_of(items));
    let have = keys_of(got);
    let _ = got.len();
    proof {
        lemma_keys_sorted_fixed(map_view(*got));
    }
    if strings_equal(&want, &have) {
        Ok(())
    } else {
        let mut m = concat2(path, ": expected keys ");
        push_str(&mut m, strings_debug(&want).as_str());
        push_str(&mut m, ", got ");
        push_str(&mut m, strings_debug(&have).as_str());
        Err(m)
    }
}

/// Applies a directive to an actual value.
fn directive(key: &str, arg: &Json, actual: &Json, bindings: &mut Bindings, path: &str) -> (r: Result<(), String>)
    ensures
        (final(bindings).bound(), outcome(r)) == directive_match(key@, json_view(*arg), json_view(*actual), old(bindings).bound(), path@),
{
    if str_eq(key, "$bind") {
        match arg {
            Json::String(name) => {
                bindings.bind(name.clone(), actual.deep_clone());
                Ok(())
            },
            _ => Err(concat2(path, ": $bind takes a name string")),
        }
    } else if str_eq(key, "$ref") {
        match arg {
            Json::String(name) => match bindings.get(name.as_str()) {
                None => {
                    let mut m = concat2(path, ": $ref to unbound name `");
                    push_str(&mut m, name.as_str());
                    push_str(&mut m, "`");
                    Err(m)
                },
                Some(bound) => if bound.equals(actual) {
                    Ok(())
                } else {
                    let mut m = concat2(path, ": expected bound `");
                    push_str(&mut m, name.as_str());
                    push_str(&mut m, "` = ");
                    push_str(&mut m, text_of(bound).as_str());
                    push_str(&mut m, ", got ");
                    push_str(&mut m, text_of(actual).as_str());
                    Err(m)
                },
            },
            _ => Err(concat2(path, ": $ref takes a name string")),
        }
    } else if str_eq(key, "$exact") {
        if arg.equals(actual) {
            Ok(())
        } else {
            let mut m = concat2(path, ": expected exactly ");
            push_str(&mut m, text_of(arg).as_str());
            push_str(&mut m, ", got ");
            push_str(&mut m, text_of(actual).as_str());
            Err(m)
        }
    } else if str_eq(key, "$keys") {
        keys_directive(arg, actual, bindings, path)
    } else if str_eq(key, "$absent") {
        match actual {
            Json::Null => Ok(()),
            _ => {
                let mut m = concat2(path, ": expected absent, got ");
                push_str(&mut m, text_of(actual).as_str());
                Err(m)
            },
        }
    } else {
        let mut m = concat2(path, ": unknown directive `");
        push_str(&mut m, key);
        push_str(&mut m, "`");
        Err(m)
    }
}

} // verus!

verus! {

fn plain(expected: &Json, actual: &Json, path: &str) -> (r: Result<(), String>)
    ensures
        outcome(r) == plain_match(json_view(*expected), json_view(*actual), Seq::empty(), path@).1,
{
    if expected.equals(actual) {
        Ok(())
    } else {
        let mut m = concat2(path, ": expected ");
        push_str(&mut m, text_of(expected).as_str());
        push_str(&mut m, ", got ");
        push_str(&mut m, text_of(actual).as_str());
        Err(m)
    }
}

/// Matches `expected` against `actual` at `path`, binding `$bind` names
/// along the way; the error is a mismatch report naming the path.
pub fn match_value(expected: &Json, actual: &Json, bindings: &mut Bindings, path: &str) -> (r: Result<(), String>)
    ensures
        (final(bindings).bound(), outcome(r)) == value_match(
            json_view(*expected),
            json_view(*actual),
            old(bindings).bound(),
            path@,
        ),
    decreases json_view(*expected),
{
    let ghost e = json_view(*expected);
    let ghost a = json_view(*actual);
    let ghost b0 = bindings.bound();
    if let Json::Object(map) = expected {
        if map.len() == 1 {
            let key = map.key_at(0);
            let cs = chars_of(key.as_str());
            if cs.len() > 0 && cs[0] == '$' {
                assert(directive_of(e) == Some(map_view(*map)[0]));
                return directive(key.as_str(), map.value_at(0), actual, bindings, path);
            }
            assert(directive_of(e) is None);
        }
    }
    assert(directive_of(e) is None);
    match expected {
        Json::Object(want) => match actual {
            Json::Object(got) => {
                let ghost w = map_view(*want);
                let ghost g = map_view(*got);
                let n = want.len();
                let mut i: usize = 0;
                while i < n
                    invariant
                        i <= n,
                        n == w.len(),
                        w == map_view(*want),
                        g == map_view(*got),
                        e == json_view(*expected),
                        e == JsonV::Object(w),
                        a == JsonV::Object(g),
                        a == json_view(*actual),
                        b0 == old(bindings).bound(),
                        directive_of(e) is None,
                        fields_match(w, g, bindings.bound(), path@, i as int) == value_match(e, a, b0, path@),
                    decreases n - i,
                {
                    let key = want.key_at(i);
                    let want_value = want.value_at(i);
                    let field_path = concat3(path, ".", key.as_str());
                    let ghost bi = bindings.bound();
                    let absent = match want_value {
                        Json::Object(d) => d.len() == 1 && str_eq(d.key_at(0).as_str(), "$absent") && match d.value_at(0) {
                            Json::Bool(t) => *t,
                            _ => false,
                        },
                        _ => false,
                    };
                    assert(absent == absent_directive(w[i as int].1));
                    if absent {
                        match got.get(key.as_str()) {
                            Some(v) => {
                                if !matches!(v, Json::Null) {
                                    let mut m = concat2(field_path.as_str(), ": expected absent, got ");
                                    push_str(&mut m, text_of(v).as_str());
                                    return Err(m);
                                }
                            },
                            None => {},
                        }
                    } else {
                        match got.get(key.as_str()) {
                            None => {
                                return Err(concat2(field_path.as_str(), ": missing"));
                            },
                            Some(gv) => {
                                proof {
                                    let p = e;
                                    assert(decreases_to!(p => p->Object_0));
                                    assert(decreases_to!(w => w[i as int]));
                                    let t = w[i as int];
                                    assert(decreases_to!(t => t.1));
                                }
                                let r = match_value(want_value, gv, bindings, field_path.as_str());
                                if r.is_err() {
                                    return r;
                                }
                            },
                        }
                    }
                    i = i + 1;
                }
                Ok(())
            },
            _ => plain(expected, actual, path),
        },
        Json::Array(want) => match actual {
            Json::Array(got) => {
                let ghost w = array_view(*want);
                let ghost g = array_view(*got);
                if want.len() != got.len() {
                    let mut m = concat2(path, ": expected ");
                    push_str(&mut m, decimal_text(want.len()).as_str());
                    push_str(&mut m, " element(s), got ");
                    push_str(&mut m, decimal_text(got.len()).as_str());
                    return Err(m);
                }
                let mut i: usize = 0;
                while i < want.len()
                    invariant
                        i <= want.len(),
                        want.len() == got.len(),
                        w == array_view(*want),
                        g == array_view(*got),
                        w.len() == want.len(),
                        g.len() == got.len(),
                        e == json_view(*expected),
                        e == JsonV::Array(w),
                        a == JsonV::Array(g),
                        a == json_view(*actual),
                        b0 == old(bindings).bound(),
                        directive_of(e) is None,
                        items_match(w, g, bindings.bound(), path@, i as int) == value_match(e, a, b0, path@),
                    decreases want.len() - i,
                {
                    let mut item_path = concat2(path, "[");
                    push_str(&mut item_path, decimal_text(i).as_str());
                    push_str(&mut item_path, "]");
                    let item = &want[i];
                    proof {
                        assert(w[i as int] == json_view(*item));
                        assert(g[i as int] == json_view(got[i as int]));
                        let p = e;
                        assert(decreases_to!(p => p->Array_0));
                        assert(decreases_to!(w => w[i as int]));
                    }
                    let r = match_value(item, &got[i], bindings, item_path.as_str());
                    if r.is_err() {
                        return r;
                    }
                    i = i + 1;
                }
                Ok(())
            },
            _ => plain(expected, actual, path),
        },
        _ => plain(expected, actual, path),
    }
}

/// Matches an expected event list against actual events, exactly in count
/// and order, binding `$bind` names along the way; the error is a mismatch
/// report with the matcher path.
pub fn match_events(expected: &Vec<Json>, actual: &Vec<Json>, bindings: &mut Bindings) -> (r: Result<(), String>)
    ensures
        (final(bindings).bound(), outcome(r)) == events_match(array_view(*expected), array_view(*actual), old(bindings).bound()),
{
    let ghost ev = array_view(*expected);
    let ghost av = array_view(*actual);
    if expected.len() != actual.len() {
        let mut m = "expected ".to_string();
        push_str(&mut m, decimal_text(expected.len()).as_str());
        push_str(&mut m, " event(s), got ");
        push_str(&mut m, decimal_text(actual.len()).as_str());
        push_str(&mut m, ": ");
        let listed = Json::Array(clone_items(actual));
        push_str(&mut m, text_of(&listed).as_str());
        return Err(m);
    }
    let ghost b0 = bindings.bound();
    let mut i: usize = 0;
    while i < expected.len()
        invariant
            i <= expected.len(),
            expected.len() == actual.len(),
            ev == array_view(*expected),
            av == array_view(*actual),
            ev.len() == expected.len(),
            av.len() == actual.len(),
            events_from(ev, av, bindings.bound(), i as int) == events_match(ev, av, b0),
            b0 == old(bindings).bound(),
        decreases expected.len() - i,
    {
        let mut p = "event[".to_string();
        push_str(&mut p, decimal_text(i).as_str());
        push_str(&mut p, "]");
        assert(ev[i as int] == json_view(expected[i as int]));
        assert(av[i as int] == json_view(actual[i as int]));
        let r = match_value(&expected[i], &actual[i], bindings, p.as_str());
        if r.is_err() {
            return r;
        }
        i = i + 1;
    }
    Ok(())
}

} // verus!

verus! {

/// A single-entry object `{key: value}`.
pub open spec fn single(key: Seq<char>, value: JsonV) -> JsonV {
    JsonV::Object(seq![(key, value)])
}

/// A value captured with `{"$bind": NAME}` is matched again by
/// `{"$ref": NAME}`, and substituting `{"$ref": NAME}` gives it back.
pub proof fn law_bind_then_ref(name: Seq<char>, v: JsonV, b: Seq<(Seq<char>, JsonV)>, p: Seq<char>, q: Seq<char>)
    ensures
        value_match(single("$bind"@, JsonV::String(name)), v, b, p).1 is None,
        value_match(
            single("$ref"@, JsonV::String(name)),
            v,
            value_match(single("$bind"@, JsonV::String(name)), v, b, p).0,
            q,
        ) == (value_match(single("$bind"@, JsonV::String(name)), v, b, p).0, None::<Seq<char>>),
        substituted(single("$ref"@, JsonV::String(name)), value_match(single("$bind"@, JsonV::String(name)), v, b, p).0)
            == v,
{
    reveal_strlit("$bind");
    reveal_strlit("$ref");
    assert("$bind"@[0] == '$');
    assert("$ref"@[0] == '$');
    assert("$ref"@.len() != "$bind"@.len());
    let b1 = entries_insert(b, name, v);
    lemma_entries_insert_get(b, name, v);
    assert(directive_of(single("$bind"@, JsonV::String(name))) == Some(("$bind"@, JsonV::String(name))));
    assert(value_match(single("$bind"@, JsonV::String(name)), v, b, p) == (b1, None::<Seq<char>>));
    assert(directive_of(single("$ref"@, JsonV::String(name))) == Some(("$ref"@, JsonV::String(name))));
    assert(ref_name(seq![("$ref"@, JsonV::String(name))]) == Some(name));
}

/// A reference to a bound name matches exactly the bound value: any other
/// actual value is a mismatch, and matching binds nothing new.
pub proof fn law_ref_matches_only_the_bound_value(
    name: Seq<char>,
    v: JsonV,
    a: JsonV,
    b: Seq<(Seq<char>, JsonV)>,
    p: Seq<char>,
)
    requires
        entry_get(b, name) == Some(v),
    ensures
        value_match(single("$ref"@, JsonV::String(name)), a, b, p).1 is None <==> a == v,
        value_match(single("$ref"@, JsonV::String(name)), a, b, p).0 == b,
{
    reveal_strlit("$ref");
    reveal_strlit("$bind");
    assert("$ref"@[0] == '$');
    assert("$ref"@.len() != "$bind"@.len());
    assert(directive_of(single("$ref"@, JsonV::String(name))) == Some(("$ref"@, JsonV::String(name))));
}

/// `{"$exact": x}` matches exactly the value `x`, binding nothing.
pub proof fn law_exact_matches_only_that_value(x: JsonV, a: JsonV, b: Seq<(Seq<char>, JsonV)>, p: Seq<char>)
    ensures
        value_match(single("$exact"@, x), a, b, p).1 is None <==> a == x,
        value_match(single("$exact"@, x), a, b, p).0 == b,
{
    reveal_strlit("$exact");
    reveal_strlit("$ref");
    reveal_strlit("$bind");
    assert("$exact"@[0] == '$');
    assert("$exact"@.len() != "$bind"@.len());
    assert("$exact"@.len() != "$ref"@.len());
    assert(directive_of(single("$exact"@, x)) == Some(("$exact"@, x)));
}

/// A plain expected value (null, boolean, number or string) matches exactly
/// an equal actual value, binding nothing.
pub proof fn law_plain_values_match_by_equality(e: JsonV, a: JsonV, b: Seq<(Seq<char>, JsonV)>, p: Seq<char>)
    requires
        !(e is Object) && !(e is Array),
    ensures
        value_match(e, a, b, p).1 is None <==> a == e,
        value_match(e, a, b, p).0 == b,
{
}

/// A single expected field that is not `$absent` fails on an object that
/// lacks it, and otherwise matches exactly when the field's value matches.
pub proof fn law_expected_field_must_be_present(key: Seq<char>, w: JsonV, got: Seq<(Seq<char>, JsonV)>, b: Seq<(Seq<char>, JsonV)>, p: Seq<char>)
    requires
        key.len() == 0 || key[0] != '$',
        !absent_directive(w),
    ensures
        entry_get(got, key) is None ==> value_match(single(key, w), JsonV::Object(got), b, p).1 is Some,
        entry_get(got, key) matches Some(g) ==> (value_match(single(key, w), JsonV::Object(got), b, p).1 is None
            <==> value_match(w, g, b, p + "."@ + key).1 is None),
{
    let want = seq![(key, w)];
    assert(directive_of(JsonV::Object(want)) is None);
    if let Some(g) = entry_get(got, key) {
        let r = value_match(w, g, b, p + "."@ + key);
        assert(fields_match(want, got, r.0, p, 1) == (r.0, None::<Seq<char>>));
    }
}

/// Arrays of different lengths never match.
pub proof fn law_arrays_need_equal_length(w: Seq<JsonV>, g: Seq<JsonV>, b: Seq<(Seq<char>, JsonV)>, p: Seq<char>)
    requires
        w.len() != g.len(),
    ensures
        value_match(JsonV::Array(w), JsonV::Array(g), b, p).1 is Some,
{
}

/// Event lists of different lengths never match.
pub proof fn law_event_counts_must_agree(e: Seq<JsonV>, a: Seq<JsonV>, b: Seq<(Seq<char>, JsonV)>)
    requires
        e.len() != a.len(),
    ensures
        events_match(e, a, b).1 is Some,
{
}

/// A field expected absent matches an object that lacks it or holds null
/// there, and does not match one that holds anything else.
pub proof fn law_absent_field(key: Seq<char>, got: Seq<(Seq<char>, JsonV)>, b: Seq<(Seq<char>, JsonV)>, p: Seq<char>)
    requires
        key.len() == 0 || key[0] != '$',
    ensures
        value_match(single(key, single("$absent"@, JsonV::Bool(true))), JsonV::Object(got), b, p).1 is None
            <==> (entry_get(got, key) is None || entry_get(got, key) == Some(JsonV::Null)),
{
    reveal_strlit("$absent");
    let want = seq![(key, single("$absent"@, JsonV::Bool(true)))];
    assert(directive_of(JsonV::Object(want)) is None);
    assert(absent_directive(want[0].1));
    assert(fields_match(want, got, b, p, 1) == (b, None::<Seq<char>>));
}

} // verus!
