//! Declarative encodings of seams that hosts configure as data: slot tables
//! and scripted model output.

use vstd::prelude::*;

use crate::envelope::{DryRunPreview, PreviewV, opt_preview_view};
use crate::json::{
    entries_insert, entry_get, json_view, lemma_entries_insert_get, lemma_entries_insert_other, map_view, Json, JsonMap,
    JsonV,
};
use crate::seams::{CompletionItem, ItemV, SlotBuilder};
use crate::strmap::{key_index, key_insert, lemma_key_index_facts, lemma_key_index_found};
use crate::text::{lex_lt, lemma_lex_total, lemma_lex_transitive, str_eq, str_lt};

verus! {

/// One declarative slot source.
#[derive(Debug)]
pub enum SlotScript {
    /// A fixed value.
    Const(Json),
    /// Copy a filled param.
    Param(String),
    /// Copy a dry-run preview field (`"summary"`); omitted when the preview
    /// or the field is absent.
    Preview(String),
}

/// Model of a [`SlotScript`].
pub enum ScriptV {
    Const(JsonV),
    Param(Seq<char>),
    Preview(Seq<char>),
}

impl View for SlotScript {
    type V = ScriptV;

    open spec fn view(&self) -> ScriptV {
        match self {
            SlotScript::Const(v) => ScriptV::Const(json_view(*v)),
            SlotScript::Param(p) => ScriptV::Param(p@),
            SlotScript::Preview(f) => ScriptV::Preview(f@),
        }
    }
}

impl SlotScript {
    /// A copy of this source.
    pub fn copy(&self) -> (r: SlotScript)
        ensures
            r@ == self@,
    {
        match self {
            SlotScript::Const(v) => SlotScript::Const(v.deep_clone()),
            SlotScript::Param(p) => SlotScript::Param(p.clone()),
            SlotScript::Preview(f) => SlotScript::Preview(f.clone()),
        }
    }
}

/// The value a source yields, if any.
pub open spec fn script_value(s: ScriptV, params: Seq<(Seq<char>, JsonV)>, preview: Option<PreviewV>) -> Option<JsonV> {
    match s {
        ScriptV::Const(v) => Some(v),
        ScriptV::Param(p) => entry_get(params, p),
        ScriptV::Preview(f) => if f == "summary"@ {
            match preview {
                Some(p) => match p.summary {
                    Some(t) => Some(JsonV::String(t)),
                    None => None,
                },
                None => None,
            }
        } else {
            None
        },
    }
}

/// The slots a table builds: each slot (in name order) whose source
/// yields a value.
pub open spec fn built_slots(
    table: Seq<(Seq<char>, ScriptV)>,
    params: Seq<(Seq<char>, JsonV)>,
    preview: Option<PreviewV>,
) -> Seq<(Seq<char>, JsonV)>
    decreases table.len(),
{
    if table.len() == 0 {
        Seq::empty()
    } else {
        let rest = built_slots(table.drop_last(), params, preview);
        match script_value(table.last().1, params, preview) {
            Some(v) => entries_insert(rest, table.last().0, v),
            None => rest,
        }
    }
}

/// Every slot name occurs once in the table.
pub open spec fn slot_names_unique(table: Seq<(Seq<char>, ScriptV)>) -> bool {
    forall|i: int, j: int| 0 <= i < j < table.len() ==> #[trigger] table[i].0 != #[trigger] table[j].0
}

proof fn lemma_built_slot(
    table: Seq<(Seq<char>, ScriptV)>,
    params: Seq<(Seq<char>, JsonV)>,
    preview: Option<PreviewV>,
    k: Seq<char>,
)
    requires
        slot_names_unique(table),
    ensures
        forall|i: int| 0 <= i < table.len() && table[i].0 == k ==> entry_get(built_slots(table, params, preview), k)
            == script_value(#[trigger] table[i].1, params, preview),
        (forall|i: int| 0 <= i < table.len() ==> table[i].0 != k) ==> entry_get(built_slots(table, params, preview), k) is None,
    decreases table.len(),
{
    if table.len() == 0 {
        assert(built_slots(table, params, preview) =~= Seq::<(Seq<char>, JsonV)>::empty());
        assert(entry_get(Seq::<(Seq<char>, JsonV)>::empty(), k) is None) by {
            crate::json::lemma_entry_index_facts(Seq::<(Seq<char>, JsonV)>::empty(), k);
        }
    } else {
        let init = table.drop_last();
        let last = table.last();
        let n = table.len() - 1;
        assert(slot_names_unique(init)) by {
            assert forall|i: int, j: int| 0 <= i < j < init.len() implies #[trigger] init[i].0 != #[trigger] init[j].0 by {
                assert(init[i] == table[i] && init[j] == table[j]);
            }
        }
        lemma_built_slot(init, params, preview, k);
        let rest = built_slots(init, params, preview);
        if k == last.0 {
            assert forall|i: int| 0 <= i < init.len() implies init[i].0 != k by {
                assert(init[i] == table[i]);
                assert(table[i].0 != table[n].0);
            }
            match script_value(last.1, params, preview) {
                Some(v) => lemma_entries_insert_get(rest, k, v),
                None => {},
            }
            assert forall|i: int| 0 <= i < table.len() && table[i].0 == k implies entry_get(built_slots(table, params, preview), k)
                == script_value(#[trigger] table[i].1, params, preview) by {
                if i < n {
                    assert(table[i].0 != table[n].0);
                }
            }
        } else {
            match script_value(last.1, params, preview) {
                Some(v) => lemma_entries_insert_other(rest, last.0, v, k),
                None => {},
            }
            assert forall|i: int| 0 <= i < table.len() && table[i].0 == k implies entry_get(built_slots(table, params, preview), k)
                == script_value(#[trigger] table[i].1, params, preview) by {
                assert(i < n);
                assert(init[i] == table[i]);
            }
            if forall|i: int| 0 <= i < table.len() ==> table[i].0 != k {
                assert forall|i: int| 0 <= i < init.len() implies init[i].0 != k by {
                    assert(init[i] == table[i]);
                }
            }
        }
    }
}

/// What the built slots hold, slot by slot, for a table naming each slot
/// once: a constant source gives its value, a param source the filled
/// param's value (the slot is left out when the param is not filled), and a
/// slot the table does not name is never built.
pub proof fn law_slots_follow_their_sources(
    table: Seq<(Seq<char>, ScriptV)>,
    params: Seq<(Seq<char>, JsonV)>,
    preview: Option<PreviewV>,
    i: int,
    k: Seq<char>,
)
    requires
        slot_names_unique(table),
        0 <= i < table.len(),
    ensures
        table[i].1 matches ScriptV::Param(p) ==> entry_get(built_slots(table, params, preview), table[i].0) == entry_get(params, p),
        table[i].1 matches ScriptV::Const(v) ==> entry_get(built_slots(table, params, preview), table[i].0) == Some(v),
        table[i].1 == ScriptV::Preview("summary"@) ==> entry_get(built_slots(table, params, preview), table[i].0) == match preview {
            Some(pv) => match pv.summary {
                Some(t) => Some(JsonV::String(t)),
                None => None::<JsonV>,
            },
            None => None::<JsonV>,
        },
        (forall|j: int| 0 <= j < table.len() ==> table[j].0 != k) ==> entry_get(built_slots(table, params, preview), k) is None,
{
    lemma_built_slot(table, params, preview, table[i].0);
    lemma_built_slot(table, params, preview, k);
}

/// A slot builder over a slot-name to source table, in name order.
#[derive(Debug)]
pub struct DeclarativeSlots {
    entries: Vec<(String, SlotScript)>,
}

impl DeclarativeSlots {
    #[verifier::type_invariant]
    spec fn sorted(self) -> bool {
        forall|i: int, j: int|
            0 <= i < j < self.entries.len() ==> lex_lt(#[trigger] self.entries[i].0@, #[trigger] self.entries[j].0@)
    }

    /// The table, in slot-name order.
    pub closed spec fn table(self) -> Seq<(Seq<char>, ScriptV)> {
        self.entries@.map_values(|e: (String, SlotScript)| (e.0@, e.1@))
    }

    /// An empty table.
    pub fn new() -> (t: DeclarativeSlots)
        ensures
            t.table() == Seq::<(Seq<char>, ScriptV)>::empty(),
    {
        let t = DeclarativeSlots { entries: Vec::new() };
        assert(t.table() =~= Seq::<(Seq<char>, ScriptV)>::empty());
        t
    }

    /// Number of slots in the table.
    pub fn len(&self) -> (n: usize)
        ensures
            n == self.table().len(),
            slot_names_unique(self.table()),
    {
        proof {
            use_type_invariant(self);
            assert forall|i: int, j: int| 0 <= i < j < self.table().len() implies #[trigger] self.table()[i].0
                != #[trigger] self.table()[j].0 by {
                assert(lex_lt(self.entries[i].0@, self.entries[j].0@));
                crate::text::lemma_lex_irreflexive(self.entries[i].0@);
            }
        }
        self.entries.len()
    }

    /// The slot name at position `i`.
    pub fn name_at(&self, i: usize) -> (k: &String)
        requires
            i < self.table().len(),
        ensures
            k@ == self.table()[i as int].0,
    {
        &self.entries[i].0
    }

    fn index_of(&self, key: &str) -> (r: Option<usize>)
        ensures
            r matches Some(i) ==> key_index(self.table(), key@) == Some(i as int) && i < self.entries.len(),
            r is None ==> key_index(self.table(), key@) is None,
    {
        let mut i: usize = 0;
        while i < self.entries.len()
            invariant
                i <= self.entries.len(),
                forall|j: int| 0 <= j < i ==> self.table()[j].0 != key@,
            decreases self.entries.len() - i,
        {
            assert(self.table()[i as int].0 == self.entries[i as int].0@);
            if str_eq(self.entries[i].0.as_str(), key) {
                proof {
                    lemma_key_index_found(self.table(), key@, i as int);
                }
                return Some(i);
            }
            i = i + 1;
        }
        proof {
            if key_index(self.table(), key@) is Some {
                lemma_key_index_facts(self.table(), key@);
            }
        }
        None
    }

    /// Whether the table names the slot.
    pub fn contains_key(&self, key: &str) -> (r: bool)
        ensures
            r == (key_index(self.table(), key@) is Some),
    {
        self.index_of(key).is_some()
    }

    /// Sets the source of a slot, replacing any previous one.
    pub fn insert(&mut self, key: String, script: SlotScript)
        ensures
            final(self).table() == key_insert(old(self).table(), key@, script@),
    {
        proof {
            use_type_invariant(&*self);
        }
        let ghost old_view = self.table();
        let ghost kv = (key@, script@);
        match self.index_of(key.as_str()) {
            Some(i) => {
                let mut entries = Vec::new();
                std::mem::swap(&mut entries, &mut self.entries);
                entries.set(i, (key, script));
                self.entries = entries;
                assert(self.table() =~= old_view.update(i as int, kv));
            },
            None => {
                proof {
                    lemma_key_index_facts(old_view, key@);
                }
                let mut p: usize = self.entries.len();
                while p > 0 && str_lt(key.as_str(), self.entries[p - 1].0.as_str())
                    invariant
                        p <= self.entries.len(),
                        old_view == self.table(),
                        self.sorted(),
                        forall|j: int| p <= j < self.entries.len() ==> lex_lt(key@, #[trigger] self.entries[j].0@),
                    decreases p,
                {
                    p = p - 1;
                }
                assert forall|j: int| 0 <= j < p implies lex_lt(#[trigger] self.entries[j].0@, key@) by {
                    let q = p - 1;
                    assert(old_view[q as int].0 == self.entries[q as int].0@);
                    lemma_lex_total(key@, self.entries[q as int].0@);
                    if j < q {
                        lemma_lex_transitive(self.entries[j].0@, self.entries[q as int].0@, key@);
                    }
                }
                let ghost pp = p as int;
                proof {
                    let idx = Seq::new(old_view.len(), |i: int| i);
                    let f = |i: int| lex_lt(old_view[i].0, key@);
                    assert forall|i: int| pp <= i < idx.len() implies !#[trigger] f(i) by {
                        lemma_lex_total(key@, old_view[i].0);
                    }
                    assert forall|i: int| 0 <= i < pp implies #[trigger] f(i) by {
                        assert(old_view[i].0 == self.entries[i].0@);
                    }
                    crate::json::lemma_filter_prefix(idx, f, pp);
                }
                let mut entries = Vec::new();
                std::mem::swap(&mut entries, &mut self.entries);
                entries.insert(p, (key, script));
                self.entries = entries;
                assert(self.table() =~= old_view.take(pp).push(kv) + old_view.skip(pp));
            },
        }
    }

    /// A copy of this table.
    pub fn copy(&self) -> (r: DeclarativeSlots)
        ensures
            r.table() == self.table(),
    {
        proof {
            use_type_invariant(self);
        }
        let mut entries: Vec<(String, SlotScript)> = Vec::new();
        let mut i: usize = 0;
        while i < self.entries.len()
            invariant
                i <= self.entries.len(),
                entries.len() == i,
                self.sorted(),
                forall|j: int| 0 <= j < i ==> (#[trigger] entries[j]).0@ == self.entries[j].0@ && entries[j].1@ == self.entries[j].1@,
            decreases self.entries.len() - i,
        {
            entries.push((self.entries[i].0.clone(), self.entries[i].1.copy()));
            i = i + 1;
        }
        let r = DeclarativeSlots { entries };
        assert(r.table() =~= self.table());
        r
    }
}

impl SlotBuilder for DeclarativeSlots {
    fn build(&self, params: &JsonMap, preview: Option<&DryRunPreview>) -> (r: JsonMap)
        ensures
            map_view(r) == built_slots(
                self.table(),
                map_view(*params),
                match preview {
                    Some(p) => Some(p@),
                    None => None,
                },
            ),
    {
        let ghost pv: Option<PreviewV> = match preview {
            Some(p) => Some(p@),
            None => None,
        };
        let ghost t = self.table();
        let mut slots = JsonMap::new();
        let mut i: usize = 0;
        while i < self.entries.len()
            invariant
                i <= self.entries.len(),
                t == self.table(),
                pv == (match preview {
                    Some(p) => Some(p@),
                    None => None::<PreviewV>,
                }),
                map_view(slots) == built_slots(t.take(i as int), map_view(*params), pv),
            decreases self.entries.len() - i,
        {
            let (name, script) = (&self.entries[i].0, &self.entries[i].1);
            proof {
                let tk = t.take(i + 1);
                assert(tk.drop_last() =~= t.take(i as int));
                assert(tk.last() == (name@, script@));
            }
            let value: Option<Json> = match script {
                SlotScript::Const(v) => Some(v.deep_clone()),
                SlotScript::Param(p) => match params.get(p.as_str()) {
                    Some(v) => Some(v.deep_clone()),
                    None => None,
                },
                SlotScript::Preview(field) => {
                    if str_eq(field.as_str(), "summary") {
                        match preview {
                            Some(p) => match &p.summary {
                                Some(s) => Some(Json::String(s.clone())),
                                None => None,
                            },
                            None => None,
                        }
                    } else {
                        None
                    }
                },
            };
            match value {
                Some(v) => slots.insert(name.clone(), v),
                None => {},
            }
            i = i + 1;
        }
        assert(t.take(i as int) =~= t);
        slots
    }
}

/// One scripted model-output item.
#[derive(Debug)]
pub enum LlmItem {
    /// Assistant prose.
    Text(String),
    /// A tool call.
    ToolCall { name: String, arguments: JsonMap },
}

impl View for LlmItem {
    type V = ItemV;

    open spec fn view(&self) -> ItemV {
        match self {
            LlmItem::Text(t) => ItemV::Text(t@),
            LlmItem::ToolCall { name, arguments } => ItemV::ToolCall(name@, map_view(*arguments)),
        }
    }
}

pub open spec fn script_view(s: Seq<Vec<LlmItem>>) -> Seq<Seq<ItemV>> {
    s.map_values(|turn: Vec<LlmItem>| turn@.map_values(|i: LlmItem| i@))
}

/// A copy of a scripted item list.
pub fn copy_items(items: &Vec<LlmItem>) -> (r: Vec<LlmItem>)
    ensures
        r@.map_values(|i: LlmItem| i@) == items@.map_values(|i: LlmItem| i@),
{
    let mut out: Vec<LlmItem> = Vec::new();
    let mut i: usize = 0;
    while i < items.len()
        invariant
            i <= items.len(),
            out.len() == i,
            forall|j: int| 0 <= j < i ==> (#[trigger] out[j])@ == items[j]@,
        decreases items.len() - i,
    {
        out.push(items[i].copy());
        i = i + 1;
    }
    assert(out@.map_values(|i: LlmItem| i@) =~= items@.map_values(|i: LlmItem| i@));
    out
}

/// A copy of a script (one item list per model turn).
pub fn copy_script(script: &Vec<Vec<LlmItem>>) -> (r: Vec<Vec<LlmItem>>)
    ensures
        script_view(r@) == script_view(script@),
{
    let mut out: Vec<Vec<LlmItem>> = Vec::new();
    let mut i: usize = 0;
    while i < script.len()
        invariant
            i <= script.len(),
            out.len() == i,
            forall|j: int| 0 <= j < i ==> (#[trigger] out[j])@.map_values(|x: LlmItem| x@) == script[j]@.map_values(|x: LlmItem| x@),
        decreases script.len() - i,
    {
        out.push(copy_items(&script[i]));
        i = i + 1;
    }
    assert(script_view(out@) =~= script_view(script@));
    out
}

impl LlmItem {
    /// A copy of this item.
    pub fn copy(&self) -> (r: LlmItem)
        ensures
            r@ == self@,
    {
        match self {
            LlmItem::Text(t) => LlmItem::Text(t.clone()),
            LlmItem::ToolCall { name, arguments } => LlmItem::ToolCall { name: name.clone(), arguments: arguments.deep_clone() },
        }
    }

    /// The completion item this script item stands for.
    pub fn into_item(self) -> (c: CompletionItem)
        ensures
            c@ == self@,
    {
        match self {
            LlmItem::Text(text) => CompletionItem::Text(text),
            LlmItem::ToolCall { name, arguments } => CompletionItem::ToolCall { name, arguments },
        }
    }
}

} // verus!
