//! The agent's decisions: one [`Session`] per authenticated stream, and the
//! steps that turn client events, model output and app callbacks into
//! server events. The awaiting (model calls, app callbacks) is the
//! caller's; every decision between two awaits is here.

use vstd::prelude::*;

use crate::envelope::{
    copy_opt_string, opt_json_view, opt_str_view, ActionProposal, Context, ContextV, ProposalV, ServerEvent,
};
use crate::error::{
    handler_error_text, llm_error_text, transition_error_text, validation_failure_text, is_model_fixable_spec,
    HandlerError, LlmError, ValidationFailure,
};
use crate::json::{json_view, map_view, Json, JsonMap, JsonV};
use crate::proposal::{
    legal_transition, proposal_id_for, state_name, stored_index, stored_insert, with_state, ProposalState,
    ProposalStore, TrackedV,
};
use crate::registry::{registration_for, ActionRegistration, Binding, RegV, Registry};
use crate::seams::{tools_view, turns_view, ChatRole, ChatTurn, CompletionRequest, TurnV};
use crate::text::{concat2, concat3, decimal, push_decimal, push_str, str_eq};
use crate::validation::ValidatedAction;

verus! {

/// The framework's propose-only ground rules, always the start of the
/// system turn.
pub const DEFAULT_SYSTEM_PROMPT: &'static str = "You are an in-app assistant that can only PROPOSE actions, never perform them. Actions you may reference are exactly the provided tools; you cannot invent others. A tool call creates a proposal that the user must explicitly confirm before the application executes it under the user's own permissions. Never claim an action has happened until you are told it executed. Provide only the parameters the tool schema asks for; the application supplies everything it already knows from context. When the user's intent is ambiguous or matches no tool, ask a clarifying question or say what you cannot do instead of guessing.";

/// Loop configuration supplied by the app.
#[derive(Debug)]
pub struct AgentConfig {
    /// App-specific instructions appended to [`DEFAULT_SYSTEM_PROMPT`].
    pub app_instructions: Option<String>,
    /// How many times a model-fixable validation failure is fed back to the
    /// model within one user turn before declining.
    pub max_validation_retries: u8,
    /// End each completion request with a note describing the user's
    /// current app context (route, view, whether a record is selected).
    pub describe_context: bool,
}

impl Default for AgentConfig {
    fn default() -> (c: AgentConfig)
        ensures
            c.app_instructions is None,
            c.max_validation_retries == 2,
            c.describe_context,
    {
        AgentConfig { app_instructions: None, max_validation_retries: 2, describe_context: true }
    }
}

/// The note that describes the user's current app context to the model.
/// It names the route and the kind of view, and whether a record is
/// selected, never the selected record's ID.
pub open spec fn context_note(c: ContextV) -> Seq<char> {
    "Current app context: route `"@ + c.route + "`, "@ + match c.view_type {
        Some(v) => "viewing a "@ + v,
        None => "no particular view"@,
    } + ", "@ + if c.selected_record_id is Some {
        "a record is selected"@
    } else {
        "no record is selected"@
    } + ". Context parameters are filled in by the application; never ask for or invent them."@
}

/// The context note for a snapshot.
pub fn context_note_text(c: &Context) -> (s: String)
    ensures
        s@ == context_note(c@),
{
    let mut s = concat3("Current app context: route `", c.route.as_str(), "`, ");
    match &c.view_type {
        Some(v) => {
            push_str(&mut s, "viewing a ");
            push_str(&mut s, v.as_str());
        },
        None => push_str(&mut s, "no particular view"),
    }
    push_str(&mut s, ", ");
    match &c.selected_record_id {
        Some(_) => push_str(&mut s, "a record is selected"),
        None => push_str(&mut s, "no record is selected"),
    }
    push_str(&mut s, ". Context parameters are filled in by the application; never ask for or invent them.");
    s
}

/// Per-stream state, bound to one principal for its whole lifetime.
pub struct Session<P> {
    /// The authenticated principal; the framework never constructs one.
    pub principal: P,
    context: Context,
    context_seq: u64,
    proposals: ProposalStore,
    history: Vec<ChatTurn>,
    msg_counter: u64,
}

/// The text of the `n`th chat message ID.
pub open spec fn msg_id_for(n: nat) -> Seq<char> {
    "msg-"@ + decimal(n)
}

impl<P> Session<P> {
    pub closed spec fn principal_view(self) -> P {
        self.principal
    }

    pub closed spec fn context_view(self) -> ContextV {
        self.context@
    }

    pub closed spec fn seq_view(self) -> u64 {
        self.context_seq
    }

    pub closed spec fn proposals_view(self) -> Seq<TrackedV> {
        self.proposals.stored()
    }

    pub closed spec fn allocated(self) -> nat {
        self.proposals.allocated()
    }

    pub closed spec fn history_view(self) -> Seq<TurnV> {
        turns_view(self.history@)
    }

    pub closed spec fn messages_sent(self) -> nat {
        self.msg_counter as nat
    }

    /// Opens a session for an authenticated principal: empty context, no
    /// proposals, no history.
    pub fn new(principal: P) -> (s: Session<P>)
        ensures
            s.principal_view() == principal,
            s.context_view().route.len() == 0,
            s.seq_view() == 0,
            s.proposals_view().len() == 0,
            s.allocated() == 0,
            s.history_view().len() == 0,
            s.messages_sent() == 0,
    {
        let s = Session {
            principal,
            context: Context::empty(),
            context_seq: 0,
            proposals: ProposalStore::new(),
            history: Vec::new(),
            msg_counter: 0,
        };
        assert(turns_view(s.history@).len() == 0);
        s
    }

    /// The current context snapshot.
    pub fn context(&self) -> (c: &Context)
        ensures
            c@ == self.context_view(),
    {
        &self.context
    }

    /// The sequence number of the current context snapshot.
    pub fn context_seq(&self) -> (n: u64)
        ensures
            n == self.seq_view(),
    {
        self.context_seq
    }

    /// The model-facing conversation so far.
    pub fn history(&self) -> (h: &Vec<ChatTurn>)
        ensures
            turns_view(h@) == self.history_view(),
    {
        &self.history
    }

    /// The session's proposal store.
    pub fn proposals(&self) -> (p: &ProposalStore)
        ensures
            p.stored() == self.proposals_view(),
            p.allocated() == self.allocated(),
    {
        &self.proposals
    }

    /// Whether another chat message and another proposal can still be
    /// numbered in this session.
    pub fn has_capacity(&self) -> (r: bool)
        ensures
            r == (self.messages_sent() < u64::MAX && self.allocated() < u64::MAX),
    {
        self.msg_counter < u64::MAX && self.proposals.allocated_count() < u64::MAX
    }

    /// The next chat message ID, `msg-<n>`.
    pub fn next_msg_id(&mut self) -> (id: String)
        requires
            old(self).messages_sent() < u64::MAX,
        ensures
            final(self).messages_sent() == old(self).messages_sent() + 1,
            id@ == msg_id_for(final(self).messages_sent()),
            final(self).context_view() == old(self).context_view(),
            final(self).seq_view() == old(self).seq_view(),
            final(self).proposals_view() == old(self).proposals_view(),
            final(self).allocated() == old(self).allocated(),
            final(self).history_view() == old(self).history_view(),
            final(self).principal_view() == old(self).principal_view(),
    {
        self.msg_counter = self.msg_counter + 1;
        let mut id = "msg-".to_owned();
        push_decimal(&mut id, self.msg_counter);
        id
    }

    fn push_turn(&mut self, role: ChatRole, content: String)
        ensures
            final(self).history_view() == old(self).history_view().push(TurnV { role, content: content@ }),
            final(self).messages_sent() == old(self).messages_sent(),
            final(self).context_view() == old(self).context_view(),
            final(self).seq_view() == old(self).seq_view(),
            final(self).proposals_view() == old(self).proposals_view(),
            final(self).allocated() == old(self).allocated(),
            final(self).principal_view() == old(self).principal_view(),
    {
        let ghost before = turns_view(self.history@);
        self.history.push(ChatTurn { role, content });
        assert(turns_view(self.history@) =~= before.push(TurnV { role, content: content@ }));
    }
}

/// Model of the events [`ServerEvent::ProposalStateChanged`] and
/// [`ServerEvent::Error`] (the ones the session handlers emit).
pub open spec fn is_state_change(e: ServerEvent, id: Seq<char>, state: ProposalState, reason: Option<Seq<char>>) -> bool {
    e matches ServerEvent::ProposalStateChanged { proposal_id, state: s, reason: r, result }
        && proposal_id@ == id && s == state && opt_str_view(r) == reason && result is None
}

pub open spec fn is_error_event(e: ServerEvent, code: Seq<char>, message: Seq<char>, recoverable: bool) -> bool {
    e matches ServerEvent::Error { code: c, message: m, recoverable: rec } && c@ == code && m@ == message
        && rec == recoverable
}

pub open spec fn is_chat(e: ServerEvent, id: Seq<char>, text: Seq<char>, done: bool) -> bool {
    e matches ServerEvent::ChatMessage { msg_id, text: t, done: d } && msg_id@ == id && t@ == text && d == done
}

/// The note recorded when the user rejects a proposal.
pub open spec fn rejection_note(id: Seq<char>, reason: Option<Seq<char>>) -> Seq<char> {
    "user rejected `"@ + id + "`"@ + match reason {
        Some(r) => ": "@ + r,
        None => Seq::empty(),
    }
}

/// Handles `init`: a client whose version is not compatible with
/// [`crate::SPEC_VERSION`] (the same major.minor on a segment boundary)
/// gets an unrecoverable error; otherwise the snapshot becomes current at
/// sequence 0.
pub fn handle_init<P>(session: &mut Session<P>, spec_version: &str, context: Context) -> (events: Vec<ServerEvent>)
    ensures
        !crate::version_compatible(spec_version@) ==> events.len() == 1 && is_error_event(
            events[0],
            "unsupported_spec_version"@,
            "client speaks `"@ + spec_version@ + "`, server implements `"@ + crate::SPEC_VERSION@ + "`"@,
            false,
        ) && final(session).context_view() == old(session).context_view() && final(session).seq_view() == old(session).seq_view(),
        crate::version_compatible(spec_version@) ==> events.len() == 0 && final(session).context_view() == context@
            && final(session).seq_view() == 0,
        final(session).proposals_view() == old(session).proposals_view(),
        final(session).allocated() == old(session).allocated(),
        final(session).history_view() == old(session).history_view(),
        final(session).messages_sent() == old(session).messages_sent(),
        final(session).principal_view() == old(session).principal_view(),
{
    if !crate::spec_version_compatible(spec_version) {
        let mut message = concat3("client speaks `", spec_version, "`, server implements `");
        push_str(&mut message, crate::SPEC_VERSION);
        push_str(&mut message, "`");
        let mut events = Vec::new();
        events.push(ServerEvent::Error { code: "unsupported_spec_version".to_owned(), message, recoverable: false });
        return events;
    }
    session.context = context;
    session.context_seq = 0;
    Vec::new()
}

/// Handles `context_update`: the snapshot becomes current; when the route
/// changed, every pending proposal expires, one event per proposal in ID
/// order.
pub fn handle_context_update<P>(session: &mut Session<P>, context: Context, context_seq: u64) -> (events: Vec<ServerEvent>)
    ensures
        final(session).context_view() == context@,
        final(session).seq_view() == context_seq,
        final(session).allocated() == old(session).allocated(),
        final(session).history_view() == old(session).history_view(),
        final(session).messages_sent() == old(session).messages_sent(),
        final(session).principal_view() == old(session).principal_view(),
        old(session).context_view().route == context@.route ==> events.len() == 0
            && final(session).proposals_view() == old(session).proposals_view(),
        old(session).context_view().route != context@.route ==> {
            let pending = old(session).proposals_view().filter(|t: TrackedV| t.state == ProposalState::Validated);
            &&& final(session).proposals_view().len() == old(session).proposals_view().len()
            &&& forall|i: int| 0 <= i < old(session).proposals_view().len() ==> #[trigger] final(session).proposals_view()[i] == (
                if old(session).proposals_view()[i].state == ProposalState::Validated {
                    with_state(old(session).proposals_view()[i], ProposalState::Expired)
                } else {
                    old(session).proposals_view()[i]
                })
            &&& events.len() == pending.len()
            &&& forall|i: int| 0 <= i < events.len() ==> is_state_change(
                #[trigger] events[i],
                pending[i].proposal.proposal_id,
                ProposalState::Expired,
                Some("context changed"@),
            )
        },
{
    let ghost old_props = session.proposals_view();
    let route_changed = !str_eq(session.context.route.as_str(), context.route.as_str());
    session.context = context;
    session.context_seq = context_seq;
    if !route_changed {
        return Vec::new();
    }
    let ids = session.proposals.expire_pending();
    let mut events: Vec<ServerEvent> = Vec::new();
    let mut i: usize = 0;
    while i < ids.len()
        invariant
            i <= ids.len(),
            events.len() == i,
            forall|j: int| 0 <= j < i ==> is_state_change(
                #[trigger] events[j],
                ids[j]@,
                ProposalState::Expired,
                Some("context changed"@),
            ),
        decreases ids.len() - i,
    {
        events.push(ServerEvent::ProposalStateChanged {
            proposal_id: ids[i].clone(),
            state: ProposalState::Expired,
            reason: Some("context changed".to_owned()),
            result: None,
        });
        i = i + 1;
    }
    proof {
        let pending = old_props.filter(|t: TrackedV| t.state == ProposalState::Validated);
        assert(ids@.map_values(|s: String| s@).len() == ids.len());
        assert(pending.map_values(|t: TrackedV| t.proposal.proposal_id).len() == pending.len());
        assert forall|j: int| 0 <= j < events.len() implies is_state_change(
            #[trigger] events[j],
            pending[j].proposal.proposal_id,
            ProposalState::Expired,
            Some("context changed"@),
        ) by {
            assert(ids@.map_values(|s: String| s@)[j] == ids[j]@);
            assert(pending.map_values(|t: TrackedV| t.proposal.proposal_id)[j] == pending[j].proposal.proposal_id);
        }
    }
    events
}

/// Handles `reject_action`: a legal `validated -> rejected` is recorded in
/// the history and reported; anything else is a recoverable error.
pub fn handle_reject<P>(session: &mut Session<P>, proposal_id: &str, reason: Option<String>) -> (events: Vec<ServerEvent>)
    ensures
        events.len() == 1,
        final(session).context_view() == old(session).context_view(),
        final(session).seq_view() == old(session).seq_view(),
        final(session).allocated() == old(session).allocated(),
        final(session).messages_sent() == old(session).messages_sent(),
        final(session).principal_view() == old(session).principal_view(),
        match stored_index(old(session).proposals_view(), proposal_id@) {
            None => is_error_event(events[0], "invalid_reject"@, "unknown proposal `"@ + proposal_id@ + "`"@, true)
                && final(session).proposals_view() == old(session).proposals_view()
                && final(session).history_view() == old(session).history_view(),
            Some(i) => if legal_transition(old(session).proposals_view()[i].state, ProposalState::Rejected) {
                &&& final(session).proposals_view() == old(session).proposals_view().update(
                    i,
                    with_state(old(session).proposals_view()[i], ProposalState::Rejected),
                )
                &&& final(session).history_view() == old(session).history_view().push(
                    TurnV { role: ChatRole::Tool, content: rejection_note(proposal_id@, opt_str_view(reason)) },
                )
                &&& is_state_change(events[0], proposal_id@, ProposalState::Rejected, opt_str_view(reason))
            } else {
                &&& is_error_event(
                    events[0],
                    "invalid_reject"@,
                    "illegal transition "@ + state_name(old(session).proposals_view()[i].state) + " -> "@
                        + state_name(ProposalState::Rejected),
                    true,
                )
                &&& final(session).proposals_view() == old(session).proposals_view()
                &&& final(session).history_view() == old(session).history_view()
            },
        },
{
    let mut events = Vec::new();
    match session.proposals.transition(proposal_id, ProposalState::Rejected) {
        Ok(state) => {
            let mut note = concat3("user rejected `", proposal_id, "`");
            match &reason {
                Some(r) => {
                    push_str(&mut note, ": ");
                    push_str(&mut note, r.as_str());
                },
                None => {},
            }
            assert(note@ =~= rejection_note(proposal_id@, opt_str_view(reason)));
            session.push_turn(ChatRole::Tool, note);
            events.push(ServerEvent::ProposalStateChanged {
                proposal_id: proposal_id.to_owned(),
                state,
                reason,
                result: None,
            });
        },
        Err(err) => {
            events.push(ServerEvent::Error { code: "invalid_reject".to_owned(), message: err.message(), recoverable: true });
        },
    }
    events
}


/// The system turn's text: the ground rules, then the app's instructions
/// after a blank line when it has any.
pub open spec fn system_text(extra: Option<Seq<char>>) -> Seq<char> {
    match extra {
        None => DEFAULT_SYSTEM_PROMPT@,
        Some(x) => DEFAULT_SYSTEM_PROMPT@ + "\n\n"@ + x,
    }
}

/// The message that declines a failed proposal.
pub open spec fn decline_text(f: ValidationFailure) -> Seq<char> {
    "I can't propose that action: "@ + validation_failure_text(f) + "."@
}

/// The advice after an unresolved context param: the miss is momentary.
pub open spec fn momentary_advice() -> Seq<char> {
    ". The application fills that parameter from what the user is looking at, and nothing is selected for it right now; it will be available once the user navigates to it. Do not supply it yourself: tell the user what to open, or reply in text."@
}

/// The advice after any other validation failure.
pub open spec fn schema_advice() -> Seq<char> {
    ". Use only the provided tools with arguments matching their schema, or reply in text if the request cannot be served."@
}

/// The history note for a candidate that failed validation: a context
/// param the snapshot could not fill is framed as momentary, every other
/// failure gets the schema advice.
pub open spec fn invalid_note(f: ValidationFailure) -> Seq<char> {
    "proposal rejected by validation: "@ + validation_failure_text(f) + if f is UnresolvedContextParam {
        momentary_advice()
    } else {
        schema_advice()
    }
}

/// The history note for an emitted proposal.
pub open spec fn proposed_note(action_id: Seq<char>, proposal_id: Seq<char>) -> Seq<char> {
    "proposed `"@ + action_id + "` as `"@ + proposal_id + "`, awaiting user decision"@
}

/// The history note for an executed or failed proposal.
pub open spec fn outcome_note(action_id: Seq<char>, proposal_id: Seq<char>, state: ProposalState, reason: Option<Seq<char>>) -> Seq<char> {
    "`"@ + action_id + "` ("@ + proposal_id + ") "@ + state_name(state) + match reason {
        Some(r) => ": "@ + r,
        None => Seq::empty(),
    }
}

/// The proposal an accepted candidate becomes.
pub open spec fn proposal_of(v: ValidatedAction, id: Seq<char>, context_seq: u64) -> ProposalV {
    ProposalV {
        proposal_id: id,
        action_id: v.action_id@,
        params: map_view(v.params),
        block_type: v.block_type@,
        slots: map_view(v.slots),
        preview: crate::envelope::opt_preview_view(v.preview),
        context_seq,
        turn_msg_id: None,
    }
}

/// The session's chat state within one user turn: retries left, the
/// failure awaiting its retry completion, the open text segment (message
/// ID and text so far), and the failure that ends the current completion
/// early.
pub struct UserTurn {
    retries_left: u8,
    pending_failure: Option<ValidationFailure>,
    segment: Option<(String, String)>,
    retry_failure: Option<ValidationFailure>,
}

impl UserTurn {
    pub closed spec fn retries(self) -> u8 {
        self.retries_left
    }

    pub closed spec fn pending(self) -> Option<ValidationFailure> {
        self.pending_failure
    }

    pub closed spec fn segment_view(self) -> Option<(Seq<char>, Seq<char>)> {
        match self.segment {
            Some((id, text)) => Some((id@, text@)),
            None => None,
        }
    }

    pub closed spec fn retrying(self) -> Option<ValidationFailure> {
        self.retry_failure
    }
}

/// How a rejected tool call is answered.
pub enum ToolCallOutcome {
    /// Feed the failure back for another completion; the rest of the
    /// current response is dropped.
    Retry,
    /// Decline conversationally.
    Decline(ServerEvent),
}

/// The first step of a confirmation.
pub enum ConfirmStart {
    /// Nothing to execute: these events answer the confirmation.
    Done(Vec<ServerEvent>),
    /// The proposal is now `confirmed`: revalidate it against the current
    /// context with these utterance params.
    Revalidate { proposal: ActionProposal, utterance_params: JsonMap },
}

/// The step after confirm-time revalidation.
pub enum ConfirmCheck<'a, H> {
    /// The proposal expired; these events report it.
    Expired(Vec<ServerEvent>),
    /// Execute with this handler under the session's principal.
    Execute(&'a H),
}

/// The agent's registry and configuration; the model provider and the
/// authorization seam stay with the caller.
pub struct AgentCore<H, D, S> {
    registry: Registry<H, D, S>,
    config: AgentConfig,
}

impl<H, D, S> AgentCore<H, D, S> {
    pub closed spec fn actions(self) -> Seq<RegV> {
        self.registry.actions_view()
    }

    /// The handlers each registered action carries (see
    /// [`Registry::bindings`]).
    pub closed spec fn bindings(self) -> Seq<Binding<H, D, S>> {
        self.registry.bindings()
    }

    pub closed spec fn instructions(self) -> Option<Seq<char>> {
        opt_str_view(self.config.app_instructions)
    }

    pub closed spec fn max_retries(self) -> u8 {
        self.config.max_validation_retries
    }

    pub closed spec fn describes_context(self) -> bool {
        self.config.describe_context
    }

    /// Assembles an agent over a built registry.
    pub fn with_config(registry: Registry<H, D, S>, config: AgentConfig) -> (a: AgentCore<H, D, S>)
        ensures
            a.actions() == registry.actions_view(),
            a.instructions() == opt_str_view(config.app_instructions),
            a.max_retries() == config.max_validation_retries,
            a.describes_context() == config.describe_context,
    {
        AgentCore { registry, config }
    }

    /// The registry the agent proposes from.
    pub fn registry(&self) -> (r: &Registry<H, D, S>)
        ensures
            r.actions_view() == self.actions(),
    {
        &self.registry
    }

    /// The system turn: the ground rules plus the app's instructions.
    pub fn system_turn(&self) -> (t: ChatTurn)
        ensures
            t@ == (TurnV { role: ChatRole::System, content: system_text(self.instructions()) }),
    {
        let content = match &self.config.app_instructions {
            None => DEFAULT_SYSTEM_PROMPT.to_owned(),
            Some(extra) => concat3(DEFAULT_SYSTEM_PROMPT, "\n\n", extra.as_str()),
        };
        ChatTurn { role: ChatRole::System, content }
    }

    /// The provider request for the session's next completion: the system
    /// turn, then the whole history, then (when configured) the note on the
    /// current app context, with every registered tool.
    pub fn completion_request<P>(&self, session: &Session<P>) -> (r: CompletionRequest)
        ensures
            turns_view(r.messages@) == seq![TurnV { role: ChatRole::System, content: system_text(self.instructions()) }]
                + session.history_view() + if self.describes_context() {
                seq![TurnV { role: ChatRole::System, content: context_note(session.context_view()) }]
            } else {
                Seq::<TurnV>::empty()
            },
            tools_view(r.tools@) == self.actions().map_values(|x: RegV| crate::registry::tool_def_of(x.def)),
    {
        let mut messages: Vec<ChatTurn> = Vec::new();
        messages.push(self.system_turn());
        let history = session.history();
        let ghost first = turns_view(messages@);
        let mut i: usize = 0;
        while i < history.len()
            invariant
                i <= history.len(),
                turns_view(history@) == session.history_view(),
                turns_view(messages@) == first + turns_view(history@).take(i as int),
            decreases history.len() - i,
        {
            let ghost before = turns_view(messages@);
            messages.push(history[i].copy());
            assert(turns_view(messages@) =~= before.push(history[i as int]@));
            assert(turns_view(history@).take(i + 1) =~= turns_view(history@).take(i as int).push(history[i as int]@));
            i = i + 1;
        }
        assert(turns_view(history@).take(i as int) =~= turns_view(history@));
        if self.config.describe_context {
            let ghost before = turns_view(messages@);
            messages.push(ChatTurn { role: ChatRole::System, content: context_note_text(session.context()) });
            assert(turns_view(messages@) =~= before.push(
                TurnV { role: ChatRole::System, content: context_note(session.context_view()) },
            ));
        } else {
            assert(turns_view(messages@) =~= turns_view(messages@) + Seq::<TurnV>::empty());
        }
        CompletionRequest { messages, tools: self.registry.tool_defs() }
    }
}

/// The conversational decline of a failed proposal, as a new message.
pub fn decline<P>(session: &mut Session<P>, failure: &ValidationFailure) -> (e: ServerEvent)
    requires
        old(session).messages_sent() < u64::MAX,
    ensures
        final(session).messages_sent() == old(session).messages_sent() + 1,
        is_chat(e, msg_id_for(final(session).messages_sent()), decline_text(*failure), true),
        final(session).context_view() == old(session).context_view(),
        final(session).seq_view() == old(session).seq_view(),
        final(session).proposals_view() == old(session).proposals_view(),
        final(session).allocated() == old(session).allocated(),
        final(session).history_view() == old(session).history_view(),
        final(session).principal_view() == old(session).principal_view(),
{
    let msg_id = session.next_msg_id();
    let mut text = concat2("I can't propose that action: ", failure.message().as_str());
    push_str(&mut text, ".");
    ServerEvent::ChatMessage { msg_id, text, done: true }
}

/// Records a candidate that failed validation (never rendered) in the
/// history, so the model sees why.
pub fn propose_rejected<P>(session: &mut Session<P>, failure: &ValidationFailure)
    ensures
        final(session).history_view() == old(session).history_view().push(
            TurnV { role: ChatRole::Tool, content: invalid_note(*failure) },
        ),
        final(session).messages_sent() == old(session).messages_sent(),
        final(session).context_view() == old(session).context_view(),
        final(session).seq_view() == old(session).seq_view(),
        final(session).proposals_view() == old(session).proposals_view(),
        final(session).allocated() == old(session).allocated(),
        final(session).principal_view() == old(session).principal_view(),
{
    let mut note = concat2("proposal rejected by validation: ", failure.message().as_str());
    let advice = match failure {
        ValidationFailure::UnresolvedContextParam(_) => ". The application fills that parameter from what the user is looking at, and nothing is selected for it right now; it will be available once the user navigates to it. Do not supply it yourself: tell the user what to open, or reply in text.",
        _ => ". Use only the provided tools with arguments matching their schema, or reply in text if the request cannot be served.",
    };
    push_str(&mut note, advice);
    session.push_turn(ChatRole::Tool, note);
}

/// Turns a validated candidate into an emitted proposal: a fresh ID, the
/// current context sequence, tracked as `validated` with the model's
/// utterance params, and noted in the history.
pub fn propose_accepted<P>(session: &mut Session<P>, validated: ValidatedAction, utterance_params: JsonMap) -> (e: ServerEvent)
    requires
        old(session).allocated() < u64::MAX,
    ensures
        final(session).allocated() == old(session).allocated() + 1,
        e matches ServerEvent::ActionProposal(p) && p@ == proposal_of(
            validated,
            proposal_id_for(final(session).allocated()),
            old(session).seq_view(),
        ),
        final(session).proposals_view() == stored_insert(
            old(session).proposals_view(),
            TrackedV {
                proposal: proposal_of(validated, proposal_id_for(final(session).allocated()), old(session).seq_view()),
                state: ProposalState::Validated,
                utterance_params: map_view(utterance_params),
            },
        ),
        final(session).history_view() == old(session).history_view().push(
            TurnV {
                role: ChatRole::Tool,
                content: proposed_note(validated.action_id@, proposal_id_for(final(session).allocated())),
            },
        ),
        final(session).messages_sent() == old(session).messages_sent(),
        final(session).context_view() == old(session).context_view(),
        final(session).seq_view() == old(session).seq_view(),
        final(session).principal_view() == old(session).principal_view(),
{
    let ghost v = validated;
    let proposal_id = session.proposals.allocate_id();
    let ValidatedAction { action_id, params, block_type, slots, preview } = validated;
    let mut note = concat3("proposed `", action_id.as_str(), "` as `");
    push_str(&mut note, proposal_id.as_str());
    push_str(&mut note, "`, awaiting user decision");
    let proposal = ActionProposal {
        proposal_id,
        action_id,
        params,
        block_type,
        slots,
        preview,
        context_seq: session.context_seq,
        turn_msg_id: None,
    };
    session.proposals.insert_validated(proposal.copy(), utterance_params);
    session.push_turn(ChatRole::Tool, note);
    ServerEvent::ActionProposal(proposal)
}


/// What every session step leaves alone unless it says otherwise.
pub open spec fn same_proposals<P>(a: Session<P>, b: Session<P>) -> bool {
    &&& a.proposals_view() == b.proposals_view()
    &&& a.allocated() == b.allocated()
    &&& a.context_view() == b.context_view()
    &&& a.seq_view() == b.seq_view()
    &&& a.principal_view() == b.principal_view()
}

/// Closes the open text segment: its full text joins the history as an
/// assistant turn and is re-sent as the authoritative `done` message.
pub fn flush_segment<P>(session: &mut Session<P>, turn: &mut UserTurn) -> (e: Option<ServerEvent>)
    ensures
        final(turn).segment_view() is None,
        final(turn).retries() == old(turn).retries(),
        final(turn).pending() == old(turn).pending(),
        final(turn).retrying() == old(turn).retrying(),
        same_proposals(*old(session), *final(session)),
        final(session).messages_sent() == old(session).messages_sent(),
        match old(turn).segment_view() {
            None => e is None && final(session).history_view() == old(session).history_view(),
            Some((id, text)) => (e matches Some(ev) && is_chat(ev, id, text, true))
                && final(session).history_view() == old(session).history_view().push(
                    TurnV { role: ChatRole::Assistant, content: text },
                ),
        },
{
    let mut segment = None;
    std::mem::swap(&mut segment, &mut turn.segment);
    match segment {
        None => None,
        Some((msg_id, text)) => {
            session.push_turn(ChatRole::Assistant, text.clone());
            Some(ServerEvent::ChatMessage { msg_id, text, done: true })
        },
    }
}

impl<H, D, S> AgentCore<H, D, S> {
    /// Starts a user turn: the text joins the history, the retry budget is
    /// the configured one, and nothing is open or pending.
    pub fn begin_user_message<P>(&self, session: &mut Session<P>, text: String) -> (turn: UserTurn)
        ensures
            final(session).history_view() == old(session).history_view().push(TurnV { role: ChatRole::User, content: text@ }),
            same_proposals(*old(session), *final(session)),
            final(session).messages_sent() == old(session).messages_sent(),
            turn.retries() == self.max_retries(),
            turn.pending() is None,
            turn.segment_view() is None,
            turn.retrying() is None,
    {
        session.push_turn(ChatRole::User, text);
        UserTurn {
            retries_left: self.config.max_validation_retries,
            pending_failure: None,
            segment: None,
            retry_failure: None,
        }
    }
}

/// The provider could not start a completion: a failure awaiting its retry
/// is declined instead, otherwise the error is reported. The turn ends.
pub fn completion_failed<P>(session: &mut Session<P>, turn: &UserTurn, err: &LlmError) -> (e: ServerEvent)
    requires
        old(session).messages_sent() < u64::MAX,
    ensures
        same_proposals(*old(session), *final(session)),
        final(session).history_view() == old(session).history_view(),
        match turn.pending() {
            Some(f) => final(session).messages_sent() == old(session).messages_sent() + 1
                && is_chat(e, msg_id_for(final(session).messages_sent()), decline_text(f), true),
            None => final(session).messages_sent() == old(session).messages_sent()
                && is_error_event(e, "llm_error"@, llm_error_text(*err), true),
        },
{
    match &turn.pending_failure {
        Some(f) => decline(session, f),
        None => ServerEvent::Error { code: "llm_error".to_owned(), message: err.message(), recoverable: true },
    }
}

/// A text delta: it opens a segment with a fresh message ID when none is
/// open, extends the segment's text, and is forwarded as a `done: false`
/// message under the segment's ID.
pub fn text_delta<P>(session: &mut Session<P>, turn: &mut UserTurn, delta: String) -> (e: ServerEvent)
    requires
        old(session).messages_sent() < u64::MAX,
    ensures
        same_proposals(*old(session), *final(session)),
        final(session).history_view() == old(session).history_view(),
        final(turn).retries() == old(turn).retries(),
        final(turn).pending() == old(turn).pending(),
        final(turn).retrying() == old(turn).retrying(),
        match old(turn).segment_view() {
            Some((id, text)) => final(session).messages_sent() == old(session).messages_sent()
                && final(turn).segment_view() == Some((id, text + delta@))
                && is_chat(e, id, delta@, false),
            None => final(session).messages_sent() == old(session).messages_sent() + 1
                && final(turn).segment_view() == Some((msg_id_for(final(session).messages_sent()), delta@))
                && is_chat(e, msg_id_for(final(session).messages_sent()), delta@, false),
        },
{
    let mut segment = None;
    std::mem::swap(&mut segment, &mut turn.segment);
    let (msg_id, mut buffer) = match segment {
        Some(open) => open,
        None => (session.next_msg_id(), String::new()),
    };
    push_str(&mut buffer, delta.as_str());
    let event = ServerEvent::ChatMessage { msg_id: msg_id.clone(), text: delta, done: false };
    turn.segment = Some((msg_id, buffer));
    event
}

/// A tool call failed validation (after the segment was flushed and the
/// failure recorded): a model-fixable failure with retries left ends this
/// completion for a retry; anything else is declined.
pub fn tool_call_failed<P>(session: &mut Session<P>, turn: &mut UserTurn, failure: ValidationFailure) -> (o: ToolCallOutcome)
    requires
        old(session).messages_sent() < u64::MAX,
    ensures
        same_proposals(*old(session), *final(session)),
        final(session).history_view() == old(session).history_view(),
        final(turn).pending() == old(turn).pending(),
        final(turn).segment_view() == old(turn).segment_view(),
        if is_model_fixable_spec(failure) && old(turn).retries() > 0 {
            &&& o is Retry
            &&& final(turn).retries() == old(turn).retries() - 1
            &&& final(turn).retrying() == Some(failure)
            &&& final(session).messages_sent() == old(session).messages_sent()
        } else {
            &&& o matches ToolCallOutcome::Decline(e) && is_chat(
                e,
                msg_id_for(final(session).messages_sent()),
                decline_text(failure),
                true,
            )
            &&& final(session).messages_sent() == old(session).messages_sent() + 1
            &&& final(turn).retries() == old(turn).retries()
            &&& final(turn).retrying() == old(turn).retrying()
        },
{
    if failure.is_model_fixable() && turn.retries_left > 0 {
        turn.retries_left = turn.retries_left - 1;
        turn.retry_failure = Some(failure);
        ToolCallOutcome::Retry
    } else {
        ToolCallOutcome::Decline(decline(session, &failure))
    }
}

/// The stream failed mid-response: the open segment is flushed, then the
/// error is reported. The turn ends.
pub fn chunk_failed<P>(session: &mut Session<P>, turn: &mut UserTurn, err: &LlmError) -> (events: Vec<ServerEvent>)
    ensures
        final(turn).segment_view() is None,
        final(turn).retries() == old(turn).retries(),
        final(turn).pending() == old(turn).pending(),
        final(turn).retrying() == old(turn).retrying(),
        same_proposals(*old(session), *final(session)),
        final(session).messages_sent() == old(session).messages_sent(),
        match old(turn).segment_view() {
            None => events.len() == 1 && is_error_event(events[0], "llm_error"@, llm_error_text(*err), true)
                && final(session).history_view() == old(session).history_view(),
            Some((id, text)) => events.len() == 2 && is_chat(events[0], id, text, true)
                && is_error_event(events[1], "llm_error"@, llm_error_text(*err), true)
                && final(session).history_view() == old(session).history_view().push(
                    TurnV { role: ChatRole::Assistant, content: text },
                ),
        },
{
    let mut events = Vec::new();
    match flush_segment(session, turn) {
        Some(e) => events.push(e),
        None => {},
    }
    events.push(ServerEvent::Error { code: "llm_error".to_owned(), message: err.message(), recoverable: true });
    events
}

/// The stream ended: the open segment is flushed, and a failure that ended
/// the completion early becomes the pending one for another completion
/// (`true`); otherwise the turn is over (`false`).
pub fn stream_ended<P>(session: &mut Session<P>, turn: &mut UserTurn) -> (r: (Option<ServerEvent>, bool))
    ensures
        same_proposals(*old(session), *final(session)),
        final(session).messages_sent() == old(session).messages_sent(),
        final(turn).segment_view() is None,
        final(turn).retrying() is None,
        final(turn).retries() == old(turn).retries(),
        match old(turn).segment_view() {
            None => r.0 is None && final(session).history_view() == old(session).history_view(),
            Some((id, text)) => (r.0 matches Some(ev) && is_chat(ev, id, text, true))
                && final(session).history_view() == old(session).history_view().push(
                    TurnV { role: ChatRole::Assistant, content: text },
                ),
        },
        match old(turn).retrying() {
            Some(f) => r.1 && final(turn).pending() == Some(f),
            None => !r.1 && final(turn).pending() == old(turn).pending(),
        },
{
    let flushed = flush_segment(session, turn);
    let mut retry = None;
    std::mem::swap(&mut retry, &mut turn.retry_failure);
    match retry {
        Some(f) => {
            turn.pending_failure = Some(f);
            (flushed, true)
        },
        None => (flushed, false),
    }
}

/// The store after expiring proposal `id`: a stored proposal that may still
/// expire is moved to `Expired`; anything else leaves the store as it was.
pub open spec fn store_after_expiry(before: Seq<TrackedV>, after: Seq<TrackedV>, id: Seq<char>) -> bool {
    match stored_index(before, id) {
        Some(i) => if legal_transition(before[i].state, ProposalState::Expired) {
            after == before.update(i, with_state(before[i], ProposalState::Expired))
        } else {
            after == before
        },
        None => after == before,
    }
}

/// Expires a confirmed proposal whose revalidation failed, reporting why.
fn expire_confirmed<P>(session: &mut Session<P>, proposal_id: &str, reason: String) -> (events: Vec<ServerEvent>)
    ensures
        events.len() == 1,
        is_state_change(events[0], proposal_id@, ProposalState::Expired, Some(reason@)),
        final(session).history_view() == old(session).history_view(),
        final(session).messages_sent() == old(session).messages_sent(),
        final(session).allocated() == old(session).allocated(),
        final(session).context_view() == old(session).context_view(),
        final(session).seq_view() == old(session).seq_view(),
        final(session).principal_view() == old(session).principal_view(),
        match stored_index(old(session).proposals_view(), proposal_id@) {
            Some(i) => if legal_transition(old(session).proposals_view()[i].state, ProposalState::Expired) {
                final(session).proposals_view() == old(session).proposals_view().update(
                    i,
                    with_state(old(session).proposals_view()[i], ProposalState::Expired),
                )
            } else {
                final(session).proposals_view() == old(session).proposals_view()
            },
            None => final(session).proposals_view() == old(session).proposals_view(),
        },
{
    let _ = session.proposals.transition(proposal_id, ProposalState::Expired);
    let mut events = Vec::new();
    events.push(ServerEvent::ProposalStateChanged {
        proposal_id: proposal_id.to_owned(),
        state: ProposalState::Expired,
        reason: Some(reason),
        result: None,
    });
    events
}

/// The first step of `confirm_action`: an unknown proposal is an error, a
/// proposal not pending confirmation reports its actual state, and a
/// pending one moves to `confirmed` and must be revalidated.
pub fn confirm_start<P>(session: &mut Session<P>, proposal_id: &str) -> (r: ConfirmStart)
    ensures
        final(session).history_view() == old(session).history_view(),
        final(session).messages_sent() == old(session).messages_sent(),
        final(session).allocated() == old(session).allocated(),
        final(session).context_view() == old(session).context_view(),
        final(session).seq_view() == old(session).seq_view(),
        final(session).principal_view() == old(session).principal_view(),
        match stored_index(old(session).proposals_view(), proposal_id@) {
            None => (r matches ConfirmStart::Done(events) && events.len() == 1 && is_error_event(
                events[0],
                "unknown_proposal"@,
                "no proposal `"@ + proposal_id@ + "` in this session"@,
                true,
            )) && final(session).proposals_view() == old(session).proposals_view(),
            Some(i) => {
                let t = old(session).proposals_view()[i];
                if t.state != ProposalState::Validated {
                    (r matches ConfirmStart::Done(events) && events.len() == 1 && is_state_change(
                        events[0],
                        proposal_id@,
                        t.state,
                        Some("proposal is not pending confirmation"@),
                    )) && final(session).proposals_view() == old(session).proposals_view()
                } else {
                    (r matches ConfirmStart::Revalidate { proposal, utterance_params } && proposal@ == t.proposal
                        && map_view(utterance_params) == t.utterance_params)
                        && final(session).proposals_view() == old(session).proposals_view().update(
                        i,
                        with_state(t, ProposalState::Confirmed),
                    )
                }
            },
        },
{
    let state = match session.proposals.get(proposal_id) {
        None => {
            let mut events = Vec::new();
            events.push(ServerEvent::Error {
                code: "unknown_proposal".to_owned(),
                message: concat3("no proposal `", proposal_id, "` in this session"),
                recoverable: true,
            });
            return ConfirmStart::Done(events);
        },
        Some(t) => t.state,
    };
    if state != ProposalState::Validated {
        let mut events = Vec::new();
        events.push(ServerEvent::ProposalStateChanged {
            proposal_id: proposal_id.to_owned(),
            state,
            reason: Some("proposal is not pending confirmation".to_owned()),
            result: None,
        });
        return ConfirmStart::Done(events);
    }
    match session.proposals.confirm(proposal_id) {
        Ok(confirmed) => ConfirmStart::Revalidate {
            proposal: confirmed.proposal().copy(),
            utterance_params: confirmed.utterance_params().deep_clone(),
        },
        Err(_) => ConfirmStart::Done(Vec::new()),
    }
}

impl<H, D, S> AgentCore<H, D, S> {
    /// After confirm-time revalidation: a failure, params that no longer
    /// match what the user saw, or an action no longer registered expire
    /// the proposal; otherwise the registration's handler executes.
    pub fn confirm_revalidated<P>(
        &self,
        session: &mut Session<P>,
        proposal_id: &str,
        proposal: &ActionProposal,
        revalidated: Result<ValidatedAction, ValidationFailure>,
    ) -> (r: ConfirmCheck<'_, H>)
        ensures
            final(session).history_view() == old(session).history_view(),
            final(session).messages_sent() == old(session).messages_sent(),
            final(session).allocated() == old(session).allocated(),
            final(session).context_view() == old(session).context_view(),
            final(session).seq_view() == old(session).seq_view(),
            final(session).principal_view() == old(session).principal_view(),
            ({
                let why: Option<Seq<char>> = match revalidated {
                    Err(f) => Some(validation_failure_text(f)),
                    Ok(now) => if map_view(now.params) != proposal@.params {
                        Some("context changed since proposal"@)
                    } else if registration_for(self.actions(), proposal@.action_id) is None {
                        Some("action no longer registered"@)
                    } else {
                        None
                    },
                };
                match why {
                    Some(reason) => r matches ConfirmCheck::Expired(events) && events.len() == 1
                        && is_state_change(events[0], proposal_id@, ProposalState::Expired, Some(reason))
                        && store_after_expiry(old(session).proposals_view(), final(session).proposals_view(), proposal_id@),
                    None => (r matches ConfirmCheck::Execute(h) && registration_for(self.actions(), proposal@.action_id)
                        matches Some(reg) && reg.def.id == proposal@.action_id
                        && exists|i: int| 0 <= i < self.bindings().len() && (#[trigger] self.bindings()[i]).0
                            == proposal@.action_id && self.bindings()[i].1 == *h)
                        && final(session).proposals_view() == old(session).proposals_view(),
                }
            }),
    {
        match revalidated {
            Err(failure) => {
                let reason = failure.message();
                return ConfirmCheck::Expired(expire_confirmed(session, proposal_id, reason));
            },
            Ok(now) => {
                if !now.params.equals(&proposal.params) {
                    return ConfirmCheck::Expired(
                        expire_confirmed(session, proposal_id, "context changed since proposal".to_owned()),
                    );
                }
            },
        }
        match self.registry.action(proposal.action_id.as_str()) {
            None => ConfirmCheck::Expired(
                expire_confirmed(session, proposal_id, "action no longer registered".to_owned()),
            ),
            Some(reg) => {
                proof {
                    let b = crate::registry::reg_binding(*reg);
                    let i = choose|i: int| 0 <= i < self.registry.bindings().len() && self.registry.bindings()[i] == b;
                    assert(self.bindings()[i] == b);
                }
                ConfirmCheck::Execute(&reg.handler)
            },
        }
    }
}

/// After execution: success is `executed` with the handler's result, an
/// error is `failed` with its message; the outcome is noted in the history
/// and reported.
pub fn confirm_executed<P>(session: &mut Session<P>, proposal_id: &str, action_id: &str, outcome: Result<Json, HandlerError>) -> (events: Vec<ServerEvent>)
    ensures
        final(session).messages_sent() == old(session).messages_sent(),
        final(session).allocated() == old(session).allocated(),
        final(session).context_view() == old(session).context_view(),
        final(session).seq_view() == old(session).seq_view(),
        final(session).principal_view() == old(session).principal_view(),
        events.len() == 1,
        ({
            let state = if outcome is Ok { ProposalState::Executed } else { ProposalState::Failed };
            let reason: Option<Seq<char>> = match outcome {
                Ok(_) => None,
                Err(e) => Some(handler_error_text(e)),
            };
            &&& events[0] matches ServerEvent::ProposalStateChanged { proposal_id: id, state: s, reason: why, result }
                && id@ == proposal_id@ && s == state && opt_str_view(why) == reason
                && opt_json_view(result) == match outcome {
                    Ok(v) => Some(json_view(v)),
                    Err(_) => None,
                }
            &&& final(session).history_view() == old(session).history_view().push(
                TurnV { role: ChatRole::Tool, content: outcome_note(action_id@, proposal_id@, state, reason) },
            )
            &&& match stored_index(old(session).proposals_view(), proposal_id@) {
                Some(i) => if legal_transition(old(session).proposals_view()[i].state, state) {
                    final(session).proposals_view() == old(session).proposals_view().update(
                        i,
                        with_state(old(session).proposals_view()[i], state),
                    )
                } else {
                    final(session).proposals_view() == old(session).proposals_view()
                },
                None => final(session).proposals_view() == old(session).proposals_view(),
            }
        }),
{
    let (state, reason, result) = match outcome {
        Ok(value) => (ProposalState::Executed, None, Some(value)),
        Err(err) => (ProposalState::Failed, Some(err.message()), None),
    };
    let _ = session.proposals.transition(proposal_id, state);
    let mut note = concat3("`", action_id, "` (");
    push_str(&mut note, proposal_id);
    push_str(&mut note, ") ");
    push_str(&mut note, state.name());
    match &reason {
        Some(r) => {
            push_str(&mut note, ": ");
            push_str(&mut note, r.as_str());
        },
        None => {},
    }
    assert(note@ =~= outcome_note(action_id@, proposal_id@, state, opt_str_view(reason)));
    session.push_turn(ChatRole::Tool, note);
    let mut events = Vec::new();
    events.push(ServerEvent::ProposalStateChanged { proposal_id: proposal_id.to_owned(), state, reason, result });
    events
}


/// A proposal runs at most once: confirming a pending proposal moves it out
/// of `validated` at the same position, so every later confirmation of the
/// same ID finds it no longer pending and executes nothing.
pub proof fn law_confirm_at_most_once(ps: Seq<TrackedV>, id: Seq<char>, i: int)
    requires
        crate::proposal::ids_sorted(ps),
        stored_index(ps, id) == Some(i),
        ps[i].state == ProposalState::Validated,
    ensures
        ({
            let after = ps.update(i, with_state(ps[i], ProposalState::Confirmed));
            &&& stored_index(after, id) == Some(i)
            &&& after[i].state != ProposalState::Validated
        }),
{
    let after = ps.update(i, with_state(ps[i], ProposalState::Confirmed));
    assert(0 <= i < ps.len() && ps[i].proposal.proposal_id == id);
    assert(after[i].proposal.proposal_id == id);
    let w = choose|w: int| 0 <= w < after.len() && after[w].proposal.proposal_id == id;
    assert(0 <= w < after.len() && after[w].proposal.proposal_id == id);
    if w != i {
        assert(after[w] == ps[w]);
        crate::text::lemma_lex_irreflexive(id);
        if w < i {
            assert(crate::text::lex_lt(ps[w].proposal.proposal_id, ps[i].proposal.proposal_id));
        } else {
            assert(crate::text::lex_lt(ps[i].proposal.proposal_id, ps[w].proposal.proposal_id));
        }
    }
}

} // verus!
