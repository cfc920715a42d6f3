//! What the host-language bindings share: assembling a registry from a
//! declarative document and the host's callback maps, with coverage errors
//! that name the offending action or map entry.

use vstd::prelude::*;

use crate::error::{lemma_registry_error_text, reg_err_text};
use crate::registry::{build_outcome, same_elements, ActionDefV, AttachV, Binding, RegV, Registry, RegistryBuilder};
use crate::schema::{RegistrySchema, SchemaError, SchemaV};
use crate::strmap::{key_get, key_index, lemma_key_index_facts, lemma_sorted_unique, pair_keys_sorted, KeyMap};
use crate::text::{concat3, str_eq};

verus! {

/// Construction-time errors surfaced to the host.
#[derive(Debug)]
pub enum FfiError {
    /// The registry document failed to parse or version-gate.
    Schema(SchemaError),
    /// The registry document and the callback maps disagree.
    Registry(String),
    /// The model-provider selection is unusable.
    Llm(String),
}

impl FfiError {
    /// The error's message.
    pub fn message(&self) -> (s: String)
        ensures
            self matches FfiError::Registry(m) ==> s@ == m@,
            self matches FfiError::Llm(m) ==> s@ == "llm spec: "@ + m@,
    {
        match self {
            FfiError::Schema(e) => e.message(),
            FfiError::Registry(m) => m.clone(),
            FfiError::Llm(m) => crate::text::concat2("llm spec: ", m.as_str()),
        }
    }
}

/// Where a host binding's model comes from: a declarative provider spec,
/// or a callable the host supplies.
#[derive(Debug)]
pub enum ModelSource<S, C> {
    Spec(S),
    Callable(C),
}

/// The host gives exactly one of a provider spec or a model callable;
/// giving both or neither is refused.
pub fn model_source<S, C>(spec: Option<S>, callable: Option<C>) -> (r: Result<ModelSource<S, C>, String>)
    ensures
        match (spec, callable) {
            (Some(s), None) => r matches Ok(ModelSource::Spec(x)) && x == s,
            (None, Some(c)) => r matches Ok(ModelSource::Callable(x)) && x == c,
            _ => r matches Err(m) && m@ == "provide exactly one of llm spec or llm callable"@,
        },
{
    match (spec, callable) {
        (Some(s), None) => Ok(ModelSource::Spec(s)),
        (None, Some(c)) => Ok(ModelSource::Callable(c)),
        _ => Err("provide exactly one of llm spec or llm callable".to_owned()),
    }
}

/// Whether an earlier schema action (before position `i`) claimed `k`.
pub open spec fn taken_before(defs: Seq<ActionDefV>, i: int, k: Seq<char>) -> bool {
    exists|m: int| 0 <= m < i && defs[m].id == k
}

/// Whether a callback map still offers `k` to schema action `i`: present,
/// and not claimed by an earlier action.
pub open spec fn offered<V>(m: Seq<(Seq<char>, V)>, defs: Seq<ActionDefV>, i: int, k: Seq<char>) -> bool {
    key_index(m, k) is Some && !taken_before(defs, i, k)
}

/// The first coverage failure from schema action `i` on: no handler, a
/// dry run for an action that does not mutate, or a mutating action
/// without one.
pub open spec fn def_failure<H, D>(
    defs: Seq<ActionDefV>,
    hs: Seq<(Seq<char>, H)>,
    ds: Seq<(Seq<char>, D)>,
    i: int,
) -> Option<Seq<char>>
    decreases defs.len() - i,
{
    if 0 <= i < defs.len() {
        let d = defs[i];
        if !offered(hs, defs, i, d.id) {
            Some("no handler registered for action `"@ + d.id + "`"@)
        } else if !d.mutates && offered(ds, defs, i, d.id) {
            Some(
                "action `"@ + d.id + "` does not mutate; its dry_run would never be called "@
                    + "(set mutates: true or remove the dry_run)"@,
            )
        } else if d.mutates && !offered(ds, defs, i, d.id) {
            Some("action `"@ + d.id + "` mutates but has no dry_run registered"@)
        } else {
            def_failure(defs, hs, ds, i + 1)
        }
    } else {
        None
    }
}

/// The first (in key order) map entry no schema action claims.
pub open spec fn leftover<V>(m: Seq<(Seq<char>, V)>, defs: Seq<ActionDefV>) -> Option<Seq<char>> {
    if exists|q: int|
        0 <= q < m.len() && !taken_before(defs, defs.len() as int, m[q].0) && (forall|r: int|
            0 <= r < q ==> taken_before(defs, defs.len() as int, m[r].0)) {
        Some(
            m[choose|q: int|
                0 <= q < m.len() && !taken_before(defs, defs.len() as int, m[q].0) && (forall|r: int|
                    0 <= r < q ==> taken_before(defs, defs.len() as int, m[r].0))].0,
        )
    } else {
        None
    }
}

/// The attachments assembly makes: each schema action with the dry run
/// and slot builder its maps still offer.
pub open spec fn assembly_attachments<D, S>(
    defs: Seq<ActionDefV>,
    ds: Seq<(Seq<char>, D)>,
    ss: Seq<(Seq<char>, S)>,
) -> Seq<AttachV> {
    Seq::new(
        defs.len(),
        |i: int|
            AttachV {
                id: defs[i].id,
                has_dry_run: offered(ds, defs, i, defs[i].id),
                has_slot_builder: offered(ss, defs, i, defs[i].id),
            },
    )
}

/// A registration binds what the callback maps hold under its action ID:
/// the handler, and the dry run and slot builder when the maps have one.
pub open spec fn bound_from_maps<H, D, S>(
    b: Binding<H, D, S>,
    hs: Seq<(Seq<char>, H)>,
    ds: Seq<(Seq<char>, D)>,
    ss: Seq<(Seq<char>, S)>,
) -> bool {
    &&& key_get(hs, b.0) == Some(b.1)
    &&& b.2 == key_get(ds, b.0)
    &&& b.3 == key_get(ss, b.0)
}

pub open spec fn unclaimed_text(prefix: Seq<char>, k: Seq<char>) -> Seq<char> {
    prefix + k + "` matches no action in the registry document"@
}

/// Assembly of a document with callback maps: the coverage failures in
/// schema order, then unclaimed entries (handlers, dry runs, slot
/// builders), then the registry's own build check.
pub open spec fn assembly_outcome<H, D, S>(
    schema: SchemaV,
    hs: Seq<(Seq<char>, H)>,
    ds: Seq<(Seq<char>, D)>,
    ss: Seq<(Seq<char>, S)>,
) -> Result<Seq<RegV>, Seq<char>> {
    match def_failure(schema.actions, hs, ds, 0) {
        Some(m) => Err(m),
        None => match leftover(hs, schema.actions) {
            Some(k) => Err(unclaimed_text("handlers entry `"@, k)),
            None => match leftover(ds, schema.actions) {
                Some(k) => Err(unclaimed_text("dry_runs entry `"@, k)),
                None => match leftover(ss, schema.actions) {
                    Some(k) => Err(unclaimed_text("slot_builders entry `"@, k)),
                    None => match build_outcome(
                        Seq::empty(),
                        schema.blocks,
                        schema.actions,
                        assembly_attachments(schema.actions, ds, ss),
                    ) {
                        Err(e) => Err(reg_err_text(e)),
                        Ok(acts) => Ok(acts),
                    },
                },
            },
        },
    }
}

pub open spec fn slot_keys<V>(v: Seq<(String, Option<V>)>) -> Seq<Seq<char>> {
    v.map_values(|e: (String, Option<V>)| e.0@)
}

/// A callback table after claims: its keys as the map had them, each
/// value present exactly while no action before `i` claimed its key.
pub open spec fn slots_track<V>(v: Seq<(String, Option<V>)>, m: Seq<(Seq<char>, V)>, defs: Seq<ActionDefV>, i: int) -> bool {
    &&& v.len() == m.len()
    &&& pair_keys_sorted(m)
    &&& forall|j: int| 0 <= j < v.len() ==> (#[trigger] v[j]).0@ == m[j].0
    &&& forall|j: int| 0 <= j < v.len() ==> ((#[trigger] v[j]).1 is Some <==> !taken_before(defs, i, m[j].0))
    &&& forall|j: int| 0 <= j < v.len() ==> ((#[trigger] v[j]).1 matches Some(x) ==> x == m[j].1)
}

fn slots_of<V>(map: KeyMap<V>) -> (v: Vec<(String, Option<V>)>)
    ensures
        v@.len() == map.pairs().len(),
        pair_keys_sorted(map.pairs()),
        forall|j: int| 0 <= j < v.len() ==> (#[trigger] v[j]).0@ == map.pairs()[j].0 && v[j].1 == Some(map.pairs()[j].1),
{
    let ghost m = map.pairs();
    let mut entries = map.into_entries();
    let ghost ev = entries@;
    assert(ev.map_values(|e: (String, V)| (e.0@, e.1)) == m);
    let mut out: Vec<(String, Option<V>)> = Vec::new();
    while entries.len() > 0
        invariant
            out.len() + entries.len() == m.len(),
            ev.len() == m.len(),
            entries@ == ev.skip(out.len() as int),
            forall|j: int| 0 <= j < m.len() ==> ev[j].0@ == m[j].0 && ev[j].1 == m[j].1,
            forall|j: int| 0 <= j < out.len() ==> (#[trigger] out[j]).0@ == m[j].0 && out[j].1 == Some(m[j].1),
        decreases entries.len(),
    {
        let ghost k = out.len() as int;
        let (key, value) = entries.remove(0);
        assert(key == ev[k].0 && value == ev[k].1);
        out.push((key, Some(value)));
        assert(entries@ =~= ev.skip(out.len() as int));
    }
    out
}

/// A table's keys, in a form the key lookups read.
pub open spec fn slot_key_seq<V>(v: Seq<(String, Option<V>)>) -> Seq<(Seq<char>, int)> {
    Seq::new(v.len(), |j: int| (v[j].0@, 0int))
}

fn find_slot<V>(slots: &Vec<(String, Option<V>)>, key: &str) -> (r: Option<usize>)
    ensures
        r matches Some(j) ==> key_index(slot_key_seq(slots@), key@) == Some(j as int) && j < slots@.len(),
        r is None ==> key_index(slot_key_seq(slots@), key@) is None,
{
    let ghost ks = slot_key_seq(slots@);
    let mut i: usize = 0;
    while i < slots.len()
        invariant
            i <= slots.len(),
            ks == slot_key_seq(slots@),
            forall|j: int| 0 <= j < i ==> ks[j].0 != key@,
        decreases slots.len() - i,
    {
        if str_eq(slots[i].0.as_str(), key) {
            proof {
                crate::strmap::lemma_key_index_found(ks, key@, i as int);
            }
            return Some(i);
        }
        i = i + 1;
    }
    proof {
        lemma_key_index_facts(ks, key@);
    }
    None
}

/// Under tracking, the table position of key `k` is the map's.
proof fn lemma_track_index<V>(v: Seq<(String, Option<V>)>, m: Seq<(Seq<char>, V)>, defs: Seq<ActionDefV>, i: int, k: Seq<char>)
    requires
        slots_track(v, m, defs, i),
    ensures
        key_index(slot_key_seq(v), k) == key_index(m, k),
{
    let ks = slot_key_seq(v);
    assert forall|j: int| 0 <= j < ks.len() implies ks[j].0 == m[j].0 by {}
    lemma_key_index_facts(ks, k);
    lemma_key_index_facts(m, k);
    match key_index(m, k) {
        Some(j) => {
            assert forall|q: int| 0 <= q < j implies ks[q].0 != k by {
                assert(ks[q].0 == m[q].0);
            }
            crate::strmap::lemma_key_index_found(ks, k, j);
        },
        None => {
            assert forall|q: int| 0 <= q < ks.len() implies ks[q].0 != k by {
                assert(ks[q].0 == m[q].0);
            }
        },
    }
}

/// Claims key `k` for schema action `i`: hands back what the table offers
/// and marks it claimed.
fn claim<V>(
    slots: &mut Vec<(String, Option<V>)>,
    key: &String,
    Ghost(m): Ghost<Seq<(Seq<char>, V)>>,
    Ghost(defs): Ghost<Seq<ActionDefV>>,
    Ghost(i): Ghost<int>,
) -> (r: Option<V>)
    requires
        slots_track(old(slots)@, m, defs, i),
        0 <= i < defs.len(),
        defs[i].id == key@,
    ensures
        slots_track(final(slots)@, m, defs, i + 1),
        offered(m, defs, i, key@) ==> r == Some(key_get_v(m, key@)),
        !offered(m, defs, i, key@) ==> r is None,
{
    proof {
        lemma_track_index(old(slots)@, m, defs, i, key@);
        lemma_key_index_facts(m, key@);
    }
    let found = find_slot(slots, key.as_str());
    match found {
        None => {
            proof {
                assert forall|j: int| 0 <= j < slots@.len() implies ((#[trigger] slots@[j]).1 is Some <==> !taken_before(
                    defs,
                    i + 1,
                    m[j].0,
                )) by {
                    assert(m[j].0 != key@);
                    if taken_before(defs, i + 1, m[j].0) {
                        let w = choose|w: int| 0 <= w < i + 1 && defs[w].id == m[j].0;
                        assert(w != i);
                    }
                }
            }
            None
        },
        Some(j) => {
            let ghost old_slots = slots@;
            assert(key_index(slot_key_seq(old_slots), key@) == Some(j as int));
            assert(key_index(m, key@) == Some(j as int));
            assert(m[j as int].0 == key@);
            let (k, v) = slots.remove(j);
            slots.insert(j, (k, None));
            proof {
                assert(slots@ == old_slots.update(j as int, (k, None)));
                assert forall|q: int| 0 <= q < slots@.len() implies ((#[trigger] slots@[q]).1 is Some <==> !taken_before(
                    defs,
                    i + 1,
                    m[q].0,
                )) by {
                    if q == j {
                        assert(taken_before(defs, i + 1, m[q].0)) by {
                            assert(defs[i].id == m[q].0);
                        }
                    } else {
                        lemma_sorted_unique(m, j as int);
                        lemma_sorted_unique(m, q);
                        assert(m[q].0 != key@);
                        if taken_before(defs, i + 1, m[q].0) {
                            let w = choose|w: int| 0 <= w < i + 1 && defs[w].id == m[q].0;
                            assert(w != i);
                            assert(taken_before(defs, i, m[q].0));
                        }
                    }
                }
            }
            v
        },
    }
}

/// The value under `k` in a map that holds it.
pub open spec fn key_get_v<V>(m: Seq<(Seq<char>, V)>, k: Seq<char>) -> V {
    m[key_index(m, k).unwrap()].1
}

fn still_offered<V>(
    slots: &Vec<(String, Option<V>)>,
    key: &String,
    Ghost(m): Ghost<Seq<(Seq<char>, V)>>,
    Ghost(defs): Ghost<Seq<ActionDefV>>,
    Ghost(i): Ghost<int>,
) -> (r: bool)
    requires
        slots_track(slots@, m, defs, i),
    ensures
        r == offered(m, defs, i, key@),
{
    proof {
        lemma_track_index(slots@, m, defs, i, key@);
        lemma_key_index_facts(m, key@);
    }
    match find_slot(slots, key.as_str()) {
        None => false,
        Some(j) => slots[j].1.is_some(),
    }
}

fn first_unclaimed<V>(
    slots: &Vec<(String, Option<V>)>,
    Ghost(m): Ghost<Seq<(Seq<char>, V)>>,
    Ghost(defs): Ghost<Seq<ActionDefV>>,
) -> (r: Option<String>)
    requires
        slots_track(slots@, m, defs, defs.len() as int),
    ensures
        match leftover(m, defs) {
            Some(k) => r matches Some(x) && x@ == k,
            None => r is None,
        },
{
    let mut q: usize = 0;
    while q < slots.len()
        invariant
            q <= slots.len(),
            slots_track(slots@, m, defs, defs.len() as int),
            forall|r: int| 0 <= r < q ==> taken_before(defs, defs.len() as int, m[r].0),
        decreases slots.len() - q,
    {
        if slots[q].1.is_some() {
            proof {
                let w = choose|w: int|
                    0 <= w < m.len() && !taken_before(defs, defs.len() as int, m[w].0) && (forall|r: int|
                        0 <= r < w ==> taken_before(defs, defs.len() as int, m[r].0));
                assert(0 <= w < m.len() && !taken_before(defs, defs.len() as int, m[w].0));
                if w < q {
                    assert(taken_before(defs, defs.len() as int, m[w].0));
                }
                if q < w {
                    assert(taken_before(defs, defs.len() as int, m[q as int].0));
                }
            }
            return Some(slots[q].0.clone());
        }
        q = q + 1;
    }
    None
}

/// Assembles a registry from a document and the host's callback maps (by
/// action ID). Every schema action needs a handler; a dry run must come
/// exactly with the mutating actions; an entry no action claims is
/// refused; then the registry's own invariants are checked.
pub fn assemble_registry<H, D, S>(
    schema: RegistrySchema,
    handlers: KeyMap<H>,
    dry_runs: KeyMap<D>,
    slot_builders: KeyMap<S>,
) -> (r: Result<Registry<H, D, S>, FfiError>)
    ensures
        match assembly_outcome(schema@, handlers.pairs(), dry_runs.pairs(), slot_builders.pairs()) {
            Err(m) => r matches Err(FfiError::Registry(x)) && x@ == m,
            Ok(acts) => r matches Ok(reg) && same_elements(reg.actions_view(), acts)
                && same_elements(reg.blocks_list(), schema@.blocks) && reg.context_view() == schema@.context_params,
        },
        r matches Ok(reg) ==> forall|i: int| 0 <= i < reg.bindings().len() ==>
            bound_from_maps(#[trigger] reg.bindings()[i], handlers.pairs(), dry_runs.pairs(), slot_builders.pairs()),
{
    let ghost sv = schema@;
    let ghost defs = sv.actions;
    let ghost hs = handlers.pairs();
    let ghost ds = dry_runs.pairs();
    let ghost ss = slot_builders.pairs();
    let mut hslots = slots_of(handlers);
    let mut dslots = slots_of(dry_runs);
    let mut sslots = slots_of(slot_builders);
    proof {
        assert(slots_track(hslots@, hs, defs, 0));
        assert(slots_track(dslots@, ds, defs, 0));
        assert(slots_track(sslots@, ss, defs, 0));
    }
    let mut seams: Vec<(String, H, Option<D>, Option<S>)> = Vec::new();
    let n = schema.actions.len();
    let mut i: usize = 0;
    while i < n
        invariant
            i <= n,
            n == defs.len(),
            sv == schema@,
            defs == sv.actions,
            hs == handlers.pairs(),
            ds == dry_runs.pairs(),
            ss == slot_builders.pairs(),
            slots_track(hslots@, hs, defs, i as int),
            slots_track(dslots@, ds, defs, i as int),
            slots_track(sslots@, ss, defs, i as int),
            def_failure(defs, hs, ds, 0) == def_failure(defs, hs, ds, i as int),
            seams.len() == i,
            forall|j: int| 0 <= j < i ==> {
                let s = #[trigger] seams[j];
                &&& s.0@ == defs[j].id
                &&& (s.2 is Some) == offered(ds, defs, j, defs[j].id)
                &&& (s.3 is Some) == offered(ss, defs, j, defs[j].id)
                &&& bound_from_maps((s.0@, s.1, s.2, s.3), hs, ds, ss)
            },
        decreases n - i,
    {
        let id = schema.actions[i].id.clone();
        let mutates = schema.actions[i].mutates;
        assert(defs[i as int].id == id@ && defs[i as int].mutates == mutates);
        let handler = match claim(&mut hslots, &id, Ghost(hs), Ghost(defs), Ghost(i as int)) {
            Some(h) => h,
            None => {
                assert(!offered(hs, defs, i as int, id@));
                assert(def_failure(defs, hs, ds, i as int) == Some("no handler registered for action `"@ + id@ + "`"@));
                return Err(FfiError::Registry(concat3("no handler registered for action `", id.as_str(), "`")));
            },
        };
        if !mutates && still_offered(&dslots, &id, Ghost(ds), Ghost(defs), Ghost(i as int)) {
            let mut m = concat3("action `", id.as_str(), "` does not mutate; its dry_run would never be called ");
            crate::text::push_str(&mut m, "(set mutates: true or remove the dry_run)");
            assert(offered(hs, defs, i as int, id@));
            assert(def_failure(defs, hs, ds, i as int) == Some(m@));
            return Err(FfiError::Registry(m));
        }
        let dry_run = claim(&mut dslots, &id, Ghost(ds), Ghost(defs), Ghost(i as int));
        if mutates && dry_run.is_none() {
            return Err(FfiError::Registry(concat3("action `", id.as_str(), "` mutates but has no dry_run registered")));
        }
        let slots = claim(&mut sslots, &id, Ghost(ss), Ghost(defs), Ghost(i as int));
        proof {
            lemma_key_index_facts(hs, id@);
            lemma_key_index_facts(ds, id@);
            lemma_key_index_facts(ss, id@);
            assert(bound_from_maps((id@, handler, dry_run, slots), hs, ds, ss));
        }
        seams.push((id, handler, dry_run, slots));
        i = i + 1;
    }
    assert(def_failure(defs, hs, ds, n as int) is None);
    if let Some(k) = first_unclaimed(&hslots, Ghost(hs), Ghost(defs)) {
        return Err(FfiError::Registry(concat3("handlers entry `", k.as_str(), "` matches no action in the registry document")));
    }
    if let Some(k) = first_unclaimed(&dslots, Ghost(ds), Ghost(defs)) {
        return Err(FfiError::Registry(concat3("dry_runs entry `", k.as_str(), "` matches no action in the registry document")));
    }
    if let Some(k) = first_unclaimed(&sslots, Ghost(ss), Ghost(defs)) {
        return Err(
            FfiError::Registry(concat3("slot_builders entry `", k.as_str(), "` matches no action in the registry document")),
        );
    }
    let mut builder: RegistryBuilder<H, D, S> = RegistryBuilder::from_schema(schema);
    let ghost atts = assembly_attachments(defs, ds, ss);
    let mut k: usize = 0;
    let ghost total = seams.len();
    while seams.len() > 0
        invariant
            k + seams.len() == total,
            total == n,
            n == defs.len(),
            atts == assembly_attachments(defs, ds, ss),
            forall|j: int| 0 <= j < seams.len() ==> {
                let s = #[trigger] seams[j];
                &&& s.0@ == defs[k + j].id
                &&& (s.2 is Some) == offered(ds, defs, k + j, defs[k + j].id)
                &&& (s.3 is Some) == offered(ss, defs, k + j, defs[k + j].id)
            },
            builder.actions_view().len() == 0,
            builder.blocks_list() == sv.blocks,
            builder.pending_view() == defs,
            builder.context_view() == sv.context_params,
            builder.attachments_view() == atts.take(k as int),
            forall|j: int| 0 <= j < seams.len() ==> {
                let s = #[trigger] seams[j];
                bound_from_maps((s.0@, s.1, s.2, s.3), hs, ds, ss)
            },
            builder.action_bindings().len() == 0,
            forall|j: int| 0 <= j < builder.attached_bindings().len() ==>
                bound_from_maps(#[trigger] builder.attached_bindings()[j], hs, ds, ss),
        decreases seams.len(),
    {
        let ghost before = seams@;
        let (id, handler, dry_run, slots) = seams.remove(0);
        assert forall|j: int| 0 <= j < seams.len() implies {
            let s = #[trigger] seams[j];
            &&& s.0@ == defs[k + 1 + j].id
            &&& (s.2 is Some) == offered(ds, defs, k + 1 + j, defs[k + 1 + j].id)
            &&& (s.3 is Some) == offered(ss, defs, k + 1 + j, defs[k + 1 + j].id)
        } by {
            assert(seams[j] == before[j + 1]);
        }
        assert forall|j: int| 0 <= j < seams.len() implies {
            let s = #[trigger] seams[j];
            bound_from_maps((s.0@, s.1, s.2, s.3), hs, ds, ss)
        } by {
            assert(seams[j] == before[j + 1]);
        }
        assert(bound_from_maps((id@, handler, dry_run, slots), hs, ds, ss)) by {
            assert(before[0] == (id, handler, dry_run, slots));
        }
        builder = builder.attach(id, handler, dry_run, slots);
        assert(atts.take(k + 1) =~= atts.take(k as int).push(atts[k as int]));
        k = k + 1;
    }
    assert(atts.take(k as int) =~= atts);
    assert(builder.actions_view() =~= Seq::<RegV>::empty());
    let ghost offers = builder.attached_bindings();
    match builder.build() {
        Ok(reg) => {
            assert forall|i: int| 0 <= i < reg.bindings().len() implies bound_from_maps(
                #[trigger] reg.bindings()[i],
                hs,
                ds,
                ss,
            ) by {
                let j = choose|j: int| 0 <= j < offers.len() && offers[j] == reg.bindings()[i];
            }
            Ok(reg)
        },
        Err(e) => {
            proof {
                lemma_registry_error_text(e);
            }
            Err(FfiError::Registry(e.message()))
        },
    }
}

} // verus!
