//! The shapes an application plugs into the agent: authorization decisions,
//! context resolution, slot building, and the model-provider messages.

use vstd::prelude::*;

use crate::envelope::{opt_json_view, Context, ContextV, DryRunPreview};
use crate::json::{json_view, map_view, Json, JsonMap, JsonV};
use crate::registry::{ParamSpec, ParamSpecV};

verus! {

/// Outcome of an authorization check.
#[derive(Debug, PartialEq, Eq)]
pub enum AuthzDecision {
    /// The principal may perform the action.
    Allow,
    /// Denied, with a user-presentable reason.
    Deny(String),
}

/// Fills context-sourced params from the app's context snapshot. `None`
/// means "cannot resolve"; validation then fails a required param.
pub trait ContextParamResolver {
    /// Whether `r` is the resolver's answer for this action, param and
    /// context snapshot.
    spec fn resolves(&self, action_id: Seq<char>, param: ParamSpecV, context: ContextV, r: Option<JsonV>) -> bool;

    fn resolve(&self, action_id: &str, param: &ParamSpec, context: &Context) -> (r: Option<Json>)
        ensures
            self.resolves(action_id@, param@, context@, opt_json_view(r)),
    ;
}

/// Builds a block's slot map from the validated params and, for mutating
/// actions, the dry-run preview.
pub trait SlotBuilder {
    fn build(&self, params: &JsonMap, preview: Option<&DryRunPreview>) -> JsonMap;
}

/// A builder that renders the same slots for every proposal.
pub struct StaticSlots {
    slots: JsonMap,
}

impl StaticSlots {
    pub closed spec fn slots_view(self) -> Seq<(Seq<char>, JsonV)> {
        map_view(self.slots)
    }
}

/// A slot builder that always yields `slots`.
pub fn static_slots(slots: JsonMap) -> (b: StaticSlots)
    ensures
        b.slots_view() == map_view(slots),
{
    StaticSlots { slots }
}

impl SlotBuilder for StaticSlots {
    fn build(&self, params: &JsonMap, preview: Option<&DryRunPreview>) -> (r: JsonMap)
        ensures
            map_view(r) == self.slots_view(),
    {
        self.slots.deep_clone()
    }
}

/// A tool definition as presented to the model.
#[derive(Debug)]
pub struct ToolDef {
    /// The action ID.
    pub name: String,
    /// Intent-matching description.
    pub description: String,
    /// JSON Schema of the utterance-sourced params.
    pub parameters: Json,
}

/// Model of a [`ToolDef`].
pub struct ToolDefV {
    pub name: Seq<char>,
    pub description: Seq<char>,
    pub parameters: JsonV,
}

impl View for ToolDef {
    type V = ToolDefV;

    open spec fn view(&self) -> ToolDefV {
        ToolDefV { name: self.name@, description: self.description@, parameters: json_view(self.parameters) }
    }
}

/// Who spoke a chat turn.
#[derive(Debug, Clone, Copy, PartialEq, Eq, Structural)]
pub enum ChatRole {
    System,
    User,
    Assistant,
    /// Framework-authored notes about tool calls (validation outcomes,
    /// proposal results).
    Tool,
}

/// One turn of model-facing conversation history.
#[derive(Debug)]
pub struct ChatTurn {
    /// The speaker.
    pub role: ChatRole,
    /// The turn text.
    pub content: String,
}

/// Model of a [`ChatTurn`].
pub struct TurnV {
    pub role: ChatRole,
    pub content: Seq<char>,
}

impl View for ChatTurn {
    type V = TurnV;

    open spec fn view(&self) -> TurnV {
        TurnV { role: self.role, content: self.content@ }
    }
}

impl ChatTurn {
    /// A copy of this turn.
    pub fn copy(&self) -> (r: ChatTurn)
        ensures
            r@ == self@,
    {
        ChatTurn { role: self.role, content: self.content.clone() }
    }
}

pub open spec fn turns_view(v: Seq<ChatTurn>) -> Seq<TurnV> {
    v.map_values(|t: ChatTurn| t@)
}

pub open spec fn tools_view(v: Seq<ToolDef>) -> Seq<ToolDefV> {
    v.map_values(|t: ToolDef| t@)
}

/// A provider request: the conversation so far plus the callable tools.
#[derive(Debug)]
pub struct CompletionRequest {
    /// System turn first, then the session history.
    pub messages: Vec<ChatTurn>,
    /// The registry's tool definitions.
    pub tools: Vec<ToolDef>,
}

/// One item of a model response.
#[derive(Debug, PartialEq)]
pub enum CompletionItem {
    /// Assistant prose.
    Text(String),
    /// A tool call: the action ID and its arguments.
    ToolCall { name: String, arguments: JsonMap },
}

/// One streamed piece of a model response.
#[derive(Debug, PartialEq)]
pub enum CompletionChunk {
    /// A piece of assistant prose within the open text segment.
    TextDelta(String),
    /// The open text segment is complete.
    TextDone,
    /// A complete tool call.
    ToolCall { name: String, arguments: JsonMap },
}

/// Model of a [`CompletionItem`].
pub enum ItemV {
    Text(Seq<char>),
    ToolCall(Seq<char>, Seq<(Seq<char>, JsonV)>),
}

/// Model of a [`CompletionChunk`].
pub enum ChunkV {
    TextDelta(Seq<char>),
    TextDone,
    ToolCall(Seq<char>, Seq<(Seq<char>, JsonV)>),
}

impl View for CompletionItem {
    type V = ItemV;

    open spec fn view(&self) -> ItemV {
        match self {
            CompletionItem::Text(t) => ItemV::Text(t@),
            CompletionItem::ToolCall { name, arguments } => ItemV::ToolCall(name@, map_view(*arguments)),
        }
    }
}

impl View for CompletionChunk {
    type V = ChunkV;

    open spec fn view(&self) -> ChunkV {
        match self {
            CompletionChunk::TextDelta(t) => ChunkV::TextDelta(t@),
            CompletionChunk::TextDone => ChunkV::TextDone,
            CompletionChunk::ToolCall { name, arguments } => ChunkV::ToolCall(name@, map_view(*arguments)),
        }
    }
}

/// The chunks that stand for one item: a text item is one delta and the
/// segment's end, a tool call is itself.
pub open spec fn item_chunks(i: ItemV) -> Seq<ChunkV> {
    match i {
        ItemV::Text(t) => seq![ChunkV::TextDelta(t), ChunkV::TextDone],
        ItemV::ToolCall(n, a) => seq![ChunkV::ToolCall(n, a)],
    }
}

/// The chunk stream of a complete response, item by item.
pub open spec fn stream_of(items: Seq<ItemV>) -> Seq<ChunkV>
    decreases items.len(),
{
    if items.len() == 0 {
        Seq::empty()
    } else {
        stream_of(items.drop_last()) + item_chunks(items.last())
    }
}

pub open spec fn items_view(v: Seq<CompletionItem>) -> Seq<ItemV> {
    v.map_values(|i: CompletionItem| i@)
}

pub open spec fn chunks_view(v: Seq<CompletionChunk>) -> Seq<ChunkV> {
    v.map_values(|c: CompletionChunk| c@)
}

/// The streamed form of a complete (non-streaming) response.
pub fn chunks_of(items: Vec<CompletionItem>) -> (chunks: Vec<CompletionChunk>)
    ensures
        chunks_view(chunks@) == stream_of(items_view(items@)),
{
    let ghost all = items_view(items@);
    let mut items = items;
    let mut chunks: Vec<CompletionChunk> = Vec::new();
    let mut k: usize = 0;
    let ghost n = all.len();
    assert(n == items.len());
    while items.len() > 0
        invariant
            k <= n == all.len(),
            n <= usize::MAX,
            k + items.len() == n,
            items_view(items@) == all.skip(k as int),
            chunks_view(chunks@) == stream_of(all.take(k as int)),
        decreases items.len(),
    {
        let ghost raw = items@;
        let ghost before = chunks_view(chunks@);
        let it = items.remove(0);
        proof {
            assert(it == raw[0]);
            assert(items_view(raw)[0] == it@);
            assert(all.skip(k as int)[0] == all[k as int]);
            assert(items_view(items@) =~= items_view(raw).drop_first());
            assert(all.skip(k as int).drop_first() =~= all.skip(k + 1));
            assert(all.take(k + 1).drop_last() =~= all.take(k as int));
        }
        match it {
            CompletionItem::Text(t) => {
                chunks.push(CompletionChunk::TextDelta(t));
                chunks.push(CompletionChunk::TextDone);
            },
            CompletionItem::ToolCall { name, arguments } => {
                chunks.push(CompletionChunk::ToolCall { name, arguments });
            },
        }
        assert(chunks_view(chunks@) =~= before + item_chunks(all[k as int]));
        k = k + 1;
    }
    assert(all.take(k as int) =~= all);
    chunks
}

} // verus!
