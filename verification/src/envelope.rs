//! Message shapes exchanged between the app frontend and the agent.

use vstd::prelude::*;

use crate::json::{array_view, entries_insert, entry_get, lemma_entries_insert_get, lemma_entries_insert_other, json_view, map_view, Json, JsonMap, JsonNumber, JsonV, NumberV};
use crate::proposal::ProposalState;

verus! {

pub open spec fn opt_str_view(o: Option<String>) -> Option<Seq<char>> {
    match o {
        Some(s) => Some(s@),
        None => None,
    }
}

pub open spec fn strs_view(v: Seq<String>) -> Seq<Seq<char>> {
    v.map_values(|s: String| s@)
}

pub fn copy_opt_string(o: &Option<String>) -> (r: Option<String>)
    ensures
        opt_str_view(r) == opt_str_view(*o),
{
    match o {
        Some(s) => Some(s.clone()),
        None => None,
    }
}

pub fn copy_strings(v: &Vec<String>) -> (r: Vec<String>)
    ensures
        strs_view(r@) == strs_view(v@),
{
    let mut out: Vec<String> = Vec::new();
    let mut i: usize = 0;
    while i < v.len()
        invariant
            i <= v.len(),
            out.len() == i,
            forall|j: int| 0 <= j < i ==> (#[trigger] out[j])@ == v[j]@,
        decreases v.len() - i,
    {
        out.push(v[i].clone());
        i = i + 1;
    }
    assert(strs_view(out@) =~= strs_view(v@));
    out
}

/// A context snapshot, app to agent: the only channel through which
/// context-sourced params are filled.
#[derive(Debug)]
pub struct Context {
    /// Current app route.
    pub route: String,
    /// Route or view parameters.
    pub params: JsonMap,
    /// Current selection, if any.
    pub selected_record_id: Option<String>,
    /// View kind, e.g. `"detail"`.
    pub view_type: Option<String>,
    /// App-defined additions.
    pub extensions: JsonMap,
}

/// Mathematical model of a [`Context`].
pub struct ContextV {
    pub route: Seq<char>,
    pub params: Seq<(Seq<char>, JsonV)>,
    pub selected_record_id: Option<Seq<char>>,
    pub view_type: Option<Seq<char>>,
    pub extensions: Seq<(Seq<char>, JsonV)>,
}

impl View for Context {
    type V = ContextV;

    open spec fn view(&self) -> ContextV {
        ContextV {
            route: self.route@,
            params: map_view(self.params),
            selected_record_id: opt_str_view(self.selected_record_id),
            view_type: opt_str_view(self.view_type),
            extensions: map_view(self.extensions),
        }
    }
}

impl Context {
    /// The empty snapshot: empty route, nothing selected.
    pub fn empty() -> (c: Context)
        ensures
            c.route@ == Seq::<char>::empty(),
            map_view(c.params).len() == 0,
            c.selected_record_id is None,
            c.view_type is None,
            map_view(c.extensions).len() == 0,
    {
        Context {
            route: String::new(),
            params: JsonMap::new(),
            selected_record_id: None,
            view_type: None,
            extensions: JsonMap::new(),
        }
    }
}

/// Mathematical model of a [`DryRunPreview`].
pub struct PreviewV {
    pub affected_count: u64,
    pub sample_ids: Seq<Seq<char>>,
    pub summary: Option<Seq<char>>,
    pub extensions: Seq<(Seq<char>, JsonV)>,
}

/// Permission-correct preview of what a mutating action would do.
#[derive(Debug)]
pub struct DryRunPreview {
    /// How many records the action would touch.
    pub affected_count: u64,
    /// A bounded sample of affected record identifiers.
    pub sample_ids: Vec<String>,
    /// Optional human-readable one-liner.
    pub summary: Option<String>,
    /// App-defined preview payload.
    pub extensions: JsonMap,
}

impl View for DryRunPreview {
    type V = PreviewV;

    open spec fn view(&self) -> PreviewV {
        PreviewV {
            affected_count: self.affected_count,
            sample_ids: strs_view(self.sample_ids@),
            summary: opt_str_view(self.summary),
            extensions: map_view(self.extensions),
        }
    }
}

impl DryRunPreview {
    /// An empty preview (nothing affected).
    pub fn empty() -> (p: DryRunPreview)
        ensures
            p.affected_count == 0,
            p@.sample_ids.len() == 0,
            p.summary is None,
            map_view(p.extensions).len() == 0,
    {
        let p = DryRunPreview { affected_count: 0, sample_ids: Vec::new(), summary: None, extensions: JsonMap::new() };
        assert(strs_view(p.sample_ids@) =~= Seq::<Seq<char>>::empty());
        p
    }

    /// A copy of this preview.
    pub fn copy(&self) -> (r: DryRunPreview)
        ensures
            r@ == self@,
    {
        DryRunPreview {
            affected_count: self.affected_count,
            sample_ids: copy_strings(&self.sample_ids),
            summary: copy_opt_string(&self.summary),
            extensions: self.extensions.deep_clone(),
        }
    }
}

pub open spec fn opt_preview_view(p: Option<DryRunPreview>) -> Option<PreviewV> {
    match p {
        Some(p) => Some(p@),
        None => None,
    }
}

pub fn copy_opt_preview(p: &Option<DryRunPreview>) -> (r: Option<DryRunPreview>)
    ensures
        opt_preview_view(r) == opt_preview_view(*p),
{
    match p {
        Some(p) => Some(p.copy()),
        None => None,
    }
}

/// Mathematical model of an [`ActionProposal`].
pub struct ProposalV {
    pub proposal_id: Seq<char>,
    pub action_id: Seq<char>,
    pub params: Seq<(Seq<char>, JsonV)>,
    pub block_type: Seq<char>,
    pub slots: Seq<(Seq<char>, JsonV)>,
    pub preview: Option<PreviewV>,
    pub context_seq: u64,
    pub turn_msg_id: Option<Seq<char>>,
}

/// A validated proposal, ready to render. Immutable once emitted.
#[derive(Debug)]
pub struct ActionProposal {
    /// Agent-generated, opaque, unique per session.
    pub proposal_id: String,
    /// A registered action ID.
    pub action_id: String,
    /// Fully filled params.
    pub params: JsonMap,
    /// A registered block type.
    pub block_type: String,
    /// Typed slot values for that block.
    pub slots: JsonMap,
    /// Required for mutating actions.
    pub preview: Option<DryRunPreview>,
    /// The context snapshot this proposal was built against.
    pub context_seq: u64,
    /// Correlates to the chat turn that produced it.
    pub turn_msg_id: Option<String>,
}

impl View for ActionProposal {
    type V = ProposalV;

    open spec fn view(&self) -> ProposalV {
        ProposalV {
            proposal_id: self.proposal_id@,
            action_id: self.action_id@,
            params: map_view(self.params),
            block_type: self.block_type@,
            slots: map_view(self.slots),
            preview: opt_preview_view(self.preview),
            context_seq: self.context_seq,
            turn_msg_id: opt_str_view(self.turn_msg_id),
        }
    }
}

impl ActionProposal {
    /// A copy of this proposal.
    pub fn copy(&self) -> (r: ActionProposal)
        ensures
            r@ == self@,
    {
        ActionProposal {
            proposal_id: self.proposal_id.clone(),
            action_id: self.action_id.clone(),
            params: self.params.deep_clone(),
            block_type: self.block_type.clone(),
            slots: self.slots.deep_clone(),
            preview: copy_opt_preview(&self.preview),
            context_seq: self.context_seq,
            turn_msg_id: copy_opt_string(&self.turn_msg_id),
        }
    }
}

/// Messages from the app frontend to the agent.
#[derive(Debug)]
pub enum ClientEvent {
    /// Opens the session; must be the first message on a stream.
    Init { spec_version: String, context: Context },
    /// Replaces the current context snapshot.
    ContextUpdate { context: Context, context_seq: u64 },
    /// A user chat turn.
    UserMessage { text: String, client_msg_id: String },
    /// The user confirms a proposal.
    ConfirmAction { proposal_id: String },
    /// The user declines a proposal.
    RejectAction { proposal_id: String, reason: Option<String> },
}

impl ClientEvent {
    /// The wire tag of this event.
    pub fn kind(&self) -> (k: &'static str)
        ensures
            k@ == client_event_kind(*self),
    {
        match self {
            ClientEvent::Init { .. } => "init",
            ClientEvent::ContextUpdate { .. } => "context_update",
            ClientEvent::UserMessage { .. } => "user_message",
            ClientEvent::ConfirmAction { .. } => "confirm_action",
            ClientEvent::RejectAction { .. } => "reject_action",
        }
    }
}

pub open spec fn client_event_kind(e: ClientEvent) -> Seq<char> {
    match e {
        ClientEvent::Init { .. } => "init"@,
        ClientEvent::ContextUpdate { .. } => "context_update"@,
        ClientEvent::UserMessage { .. } => "user_message"@,
        ClientEvent::ConfirmAction { .. } => "confirm_action"@,
        ClientEvent::RejectAction { .. } => "reject_action"@,
    }
}

/// Messages from the agent to the app frontend.
#[derive(Debug)]
pub enum ServerEvent {
    /// Assistant prose.
    ChatMessage { msg_id: String, text: String, done: bool },
    /// A validated proposal, ready to render.
    ActionProposal(ActionProposal),
    /// Lifecycle transition after emission.
    ProposalStateChanged {
        proposal_id: String,
        state: ProposalState,
        reason: Option<String>,
        result: Option<Json>,
    },
    /// Stream- or turn-level errors that are not proposal state changes.
    Error { code: String, message: String, recoverable: bool },
}

pub open spec fn server_event_kind(e: ServerEvent) -> Seq<char> {
    match e {
        ServerEvent::ChatMessage { .. } => "chat_message"@,
        ServerEvent::ActionProposal(_) => "action_proposal"@,
        ServerEvent::ProposalStateChanged { .. } => "proposal_state_changed"@,
        ServerEvent::Error { .. } => "error"@,
    }
}

impl ServerEvent {
    /// The wire tag of this event.
    pub fn kind(&self) -> (k: &'static str)
        ensures
            k@ == server_event_kind(*self),
    {
        match self {
            ServerEvent::ChatMessage { .. } => "chat_message",
            ServerEvent::ActionProposal(_) => "action_proposal",
            ServerEvent::ProposalStateChanged { .. } => "proposal_state_changed",
            ServerEvent::Error { .. } => "error",
        }
    }
}

pub open spec fn opt_json_view(o: Option<Json>) -> Option<JsonV> {
    match o {
        Some(j) => Some(json_view(j)),
        None => None,
    }
}


/// A preview's JSON form: `{"affected_count", "extensions", "sample_ids",
/// "summary"}`, an absent summary as `null`.
pub open spec fn preview_value(p: PreviewV) -> JsonV {
    JsonV::Object(
        entries_insert(
            entries_insert(
                entries_insert(
                    entries_insert(Seq::empty(), "affected_count"@, JsonV::Number(NumberV::PosInt(p.affected_count))),
                    "sample_ids"@,
                    JsonV::Array(p.sample_ids.map_values(|x: Seq<char>| JsonV::String(x))),
                ),
                "summary"@,
                match p.summary {
                    Some(s) => JsonV::String(s),
                    None => JsonV::Null,
                },
            ),
            "extensions"@,
            JsonV::Object(p.extensions),
        ),
    )
}

fn string_items(v: &Vec<String>) -> (r: Vec<Json>)
    ensures
        array_view(r) == strs_view(v@).map_values(|x: Seq<char>| JsonV::String(x)),
{
    let mut r: Vec<Json> = Vec::new();
    let mut i: usize = 0;
    while i < v.len()
        invariant
            i <= v.len(),
            r.len() == i,
            forall|j: int| 0 <= j < i ==> json_view(#[trigger] r[j]) == JsonV::String(v[j]@),
        decreases v.len() - i,
    {
        r.push(Json::String(v[i].clone()));
        i = i + 1;
    }
    assert(array_view(r) =~= strs_view(v@).map_values(|x: Seq<char>| JsonV::String(x)));
    r
}

/// A preview as its JSON form.
pub fn preview_to_json(p: &DryRunPreview) -> (j: Json)
    ensures
        json_view(j) == preview_value(p@),
{
    let mut m = JsonMap::new();
    m.insert("affected_count".to_owned(), Json::Number(JsonNumber::PosInt(p.affected_count)));
    m.insert("sample_ids".to_owned(), Json::Array(string_items(&p.sample_ids)));
    m.insert(
        "summary".to_owned(),
        match &p.summary {
            Some(s) => Json::String(s.clone()),
            None => Json::Null,
        },
    );
    m.insert("extensions".to_owned(), Json::Object(p.extensions.deep_clone()));
    Json::Object(m)
}

/// A count field: a non-negative integer.
pub open spec fn count_of(v: JsonV) -> Option<u64> {
    match v {
        JsonV::Number(NumberV::PosInt(u)) => Some(u),
        _ => None,
    }
}

/// A list of strings.
pub open spec fn strings_of(v: JsonV) -> Option<Seq<Seq<char>>> {
    match v {
        JsonV::Array(items) => if forall|i: int| 0 <= i < items.len() ==> #[trigger] items[i] is String {
            Some(items.map_values(|x: JsonV| x->String_0))
        } else {
            None
        },
        _ => None,
    }
}

/// An optional string: `null` or a string.
pub open spec fn opt_string_of(v: JsonV) -> Option<Option<Seq<char>>> {
    match v {
        JsonV::Null => Some(None),
        JsonV::String(s) => Some(Some(s)),
        _ => None,
    }
}

/// An object's entries.
pub open spec fn object_of(v: JsonV) -> Option<Seq<(Seq<char>, JsonV)>> {
    match v {
        JsonV::Object(es) => Some(es),
        _ => None,
    }
}

/// A preview read from its four parts; `None` where a part has the wrong
/// shape or the count is missing.
pub open spec fn preview_parts(
    count: Option<JsonV>,
    ids: Option<JsonV>,
    summary: Option<JsonV>,
    extensions: Option<JsonV>,
) -> Option<PreviewV> {
    match count {
        None => None,
        Some(c) => match (
            count_of(c),
            match ids {
                Some(v) => strings_of(v),
                None => Some(Seq::empty()),
            },
            match summary {
                Some(v) => opt_string_of(v),
                None => Some(None),
            },
            match extensions {
                Some(v) => object_of(v),
                None => Some(Seq::empty()),
            },
        ) {
            (Some(n), Some(ids), Some(summary), Some(extensions)) => Some(
                PreviewV { affected_count: n, sample_ids: ids, summary, extensions },
            ),
            _ => None,
        },
    }
}

pub open spec fn item_at(items: Seq<JsonV>, i: int) -> Option<JsonV> {
    if 0 <= i < items.len() {
        Some(items[i])
    } else {
        None
    }
}

/// A preview read from JSON: an object by field name (unknown fields
/// ignored, all but the count defaulted), or an array of one to four
/// parts in field order.
pub open spec fn preview_decoded(v: JsonV) -> Option<PreviewV> {
    match v {
        JsonV::Object(es) => preview_parts(
            entry_get(es, "affected_count"@),
            entry_get(es, "sample_ids"@),
            entry_get(es, "summary"@),
            entry_get(es, "extensions"@),
        ),
        JsonV::Array(items) => if items.len() > 4 {
            None
        } else {
            preview_parts(item_at(items, 0), item_at(items, 1), item_at(items, 2), item_at(items, 3))
        },
        _ => None,
    }
}

fn strings_from(v: &Json) -> (r: Option<Vec<String>>)
    ensures
        match strings_of(json_view(*v)) {
            Some(s) => r matches Some(x) && strs_view(x@) == s,
            None => r is None,
        },
{
    match v {
        Json::Array(items) => {
            let ghost iv = array_view(*items);
            assert(json_view(*v) == JsonV::Array(iv));
            let mut out: Vec<String> = Vec::new();
            let mut i: usize = 0;
            while i < items.len()
                invariant
                    i <= items.len(),
                    iv == array_view(*items),
                    json_view(*v) == JsonV::Array(iv),
                    iv.len() == items.len(),
                    out.len() == i,
                    forall|j: int| 0 <= j < i ==> (#[trigger] iv[j]) is String && out[j]@ == iv[j]->String_0,
                decreases items.len() - i,
            {
                assert(iv[i as int] == json_view(items[i as int]));
                match &items[i] {
                    Json::String(s) => out.push(s.clone()),
                    _ => {
                        assert(!(iv[i as int] is String));
                        return None;
                    },
                }
                i = i + 1;
            }
            assert(strs_view(out@) =~= iv.map_values(|x: JsonV| x->String_0));
            Some(out)
        },
        _ => None,
    }
}

fn preview_from_parts(
    count: Option<&Json>,
    ids: Option<&Json>,
    summary: Option<&Json>,
    extensions: Option<&Json>,
) -> (r: Option<DryRunPreview>)
    ensures
        match preview_parts(
            match count { Some(j) => Some(json_view(*j)), None => None },
            match ids { Some(j) => Some(json_view(*j)), None => None },
            match summary { Some(j) => Some(json_view(*j)), None => None },
            match extensions { Some(j) => Some(json_view(*j)), None => None },
        ) {
            Some(p) => r matches Some(x) && x@ == p,
            None => r is None,
        },
{
    let affected_count = match count {
        Some(Json::Number(JsonNumber::PosInt(n))) => *n,
        _ => return None,
    };
    let sample_ids = match ids {
        None => Vec::new(),
        Some(v) => match strings_from(v) {
            Some(x) => x,
            None => return None,
        },
    };
    let summary = match summary {
        None => None,
        Some(Json::Null) => None,
        Some(Json::String(s)) => Some(s.clone()),
        Some(_) => return None,
    };
    let extensions = match extensions {
        None => JsonMap::new(),
        Some(Json::Object(m)) => m.deep_clone(),
        Some(_) => return None,
    };
    let p = DryRunPreview { affected_count, sample_ids, summary, extensions };
    assert(ids is None ==> p@.sample_ids =~= Seq::<Seq<char>>::empty());
    Some(p)
}

/// A preview read from its JSON form; `None` when the value does not
/// encode one.
pub fn preview_from_json(j: &Json) -> (r: Option<DryRunPreview>)
    ensures
        match preview_decoded(json_view(*j)) {
            Some(p) => r matches Some(x) && x@ == p,
            None => r is None,
        },
{
    match j {
        Json::Object(m) => preview_from_parts(
            m.get("affected_count"),
            m.get("sample_ids"),
            m.get("summary"),
            m.get("extensions"),
        ),
        Json::Array(items) => {
            if items.len() > 4 {
                return None;
            }
            let ghost iv = array_view(*items);
            proof {
                assert forall|i: int| 0 <= i < items.len() implies iv[i] == json_view(#[trigger] items[i]) by {}
            }
            preview_from_parts(
                if items.len() > 0 { Some(&items[0]) } else { None },
                if items.len() > 1 { Some(&items[1]) } else { None },
                if items.len() > 2 { Some(&items[2]) } else { None },
                if items.len() > 3 { Some(&items[3]) } else { None },
            )
        },
        _ => None,
    }
}


/// Reading a preview's JSON form gives the preview back.
pub proof fn law_preview_round_trip(p: PreviewV)
    ensures
        preview_decoded(preview_value(p)) == Some(p),
{
    let e0: Seq<(Seq<char>, JsonV)> = Seq::empty();
    let c = JsonV::Number(NumberV::PosInt(p.affected_count));
    let ids = JsonV::Array(p.sample_ids.map_values(|x: Seq<char>| JsonV::String(x)));
    let sm = match p.summary {
        Some(s) => JsonV::String(s),
        None => JsonV::Null,
    };
    let ex = JsonV::Object(p.extensions);
    let e1 = entries_insert(e0, "affected_count"@, c);
    let e2 = entries_insert(e1, "sample_ids"@, ids);
    let e3 = entries_insert(e2, "summary"@, sm);
    let e4 = entries_insert(e3, "extensions"@, ex);
    reveal_strlit("affected_count");
    reveal_strlit("sample_ids");
    reveal_strlit("summary");
    reveal_strlit("extensions");
    assert("affected_count"@ != "sample_ids"@ && "affected_count"@ != "summary"@ && "affected_count"@ != "extensions"@
        && "sample_ids"@ != "summary"@ && "sample_ids"@ != "extensions"@ && "summary"@ != "extensions"@) by {
        assert("affected_count"@[0] != "sample_ids"@[0]);
        assert("affected_count"@[0] != "summary"@[0]);
        assert("affected_count"@[0] != "extensions"@[0]);
        assert("sample_ids"@[1] != "summary"@[1]);
        assert("sample_ids"@[0] != "extensions"@[0]);
        assert("summary"@[0] != "extensions"@[0]);
    }
    lemma_entries_insert_get(e3, "extensions"@, ex);
    lemma_entries_insert_get(e2, "summary"@, sm);
    lemma_entries_insert_other(e3, "extensions"@, ex, "summary"@);
    lemma_entries_insert_get(e1, "sample_ids"@, ids);
    lemma_entries_insert_other(e2, "summary"@, sm, "sample_ids"@);
    lemma_entries_insert_other(e3, "extensions"@, ex, "sample_ids"@);
    lemma_entries_insert_get(e0, "affected_count"@, c);
    lemma_entries_insert_other(e1, "sample_ids"@, ids, "affected_count"@);
    lemma_entries_insert_other(e2, "summary"@, sm, "affected_count"@);
    lemma_entries_insert_other(e3, "extensions"@, ex, "affected_count"@);
    let items = p.sample_ids.map_values(|x: Seq<char>| JsonV::String(x));
    assert(items.map_values(|x: JsonV| x->String_0) =~= p.sample_ids);
}

} // verus!
