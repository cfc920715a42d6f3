//! Conversions between the gRPC binding's messages and the core envelope.

use vstd::prelude::*;

use crate::envelope::{
    copy_opt_string, opt_json_view, opt_preview_view, opt_str_view, strs_view, ActionProposal, ClientEvent, Context,
    ContextV, DryRunPreview, PreviewV, ServerEvent,
};
use crate::json::{map_view, JsonMap, JsonV};
use crate::pb;
use crate::proposal::state_name;
use crate::text::concat3;

verus! {

/// A client message that cannot be mapped onto the core envelope.
#[derive(Debug, PartialEq, Eq)]
pub enum ConvertError {
    /// The `oneof event` field was empty.
    EmptyEvent,
    /// A required message field was missing.
    MissingField(&'static str),
}

pub open spec fn convert_error_text(e: ConvertError) -> Seq<char> {
    match e {
        ConvertError::EmptyEvent => "client event has no payload"@,
        ConvertError::MissingField(f) => "missing field `"@ + f@ + "`"@,
    }
}

impl ConvertError {
    /// The human-readable description.
    pub fn message(&self) -> (s: String)
        ensures
            s@ == convert_error_text(*self),
    {
        match self {
            ConvertError::EmptyEvent => "client event has no payload".to_string(),
            ConvertError::MissingField(f) => concat3("missing field `", f, "`"),
        }
    }
}

/// An optional wire object, read as an object (absent is empty).
pub open spec fn opt_map_view(o: Option<JsonMap>) -> Seq<(Seq<char>, JsonV)> {
    match o {
        Some(m) => map_view(m),
        None => Seq::empty(),
    }
}

/// The core snapshot a wire context stands for.
pub open spec fn context_of(c: pb::Context) -> ContextV {
    ContextV {
        route: c.route@,
        params: opt_map_view(c.params),
        selected_record_id: opt_str_view(c.selected_record_id),
        view_type: opt_str_view(c.view_type),
        extensions: opt_map_view(c.extensions),
    }
}

fn map_or_empty(o: Option<JsonMap>) -> (m: JsonMap)
    ensures
        map_view(m) == opt_map_view(o),
{
    match o {
        Some(m) => m,
        None => {
            let m = JsonMap::new();
            assert(map_view(m) =~= Seq::<(Seq<char>, JsonV)>::empty());
            m
        },
    }
}

/// A wire context as a core snapshot; absent objects read as empty.
pub fn context_from_pb(context: pb::Context) -> (c: Context)
    ensures
        c@ == context_of(context),
{
    Context {
        route: context.route,
        params: map_or_empty(context.params),
        selected_record_id: context.selected_record_id,
        view_type: context.view_type,
        extensions: map_or_empty(context.extensions),
    }
}

/// Whether `r` is the conversion of the wire client message `event`: an
/// empty oneof and a missing context are errors, everything else maps field
/// for field.
pub open spec fn client_event_result(event: pb::ClientEvent, r: Result<ClientEvent, ConvertError>) -> bool {
    match event.event {
        None => r == Err::<ClientEvent, ConvertError>(ConvertError::EmptyEvent),
        Some(pb::ClientEventKind::Init(i)) => match i.context {
            None => r matches Err(ConvertError::MissingField(f)) && f@ == "context"@,
            Some(c) => r matches Ok(ClientEvent::Init { spec_version, context })
                && spec_version@ == i.spec_version@ && context@ == context_of(c),
        },
        Some(pb::ClientEventKind::ContextUpdate(u)) => match u.context {
            None => r matches Err(ConvertError::MissingField(f)) && f@ == "context"@,
            Some(c) => r matches Ok(ClientEvent::ContextUpdate { context, context_seq })
                && context@ == context_of(c) && context_seq == u.context_seq,
        },
        Some(pb::ClientEventKind::UserMessage(m)) => r matches Ok(ClientEvent::UserMessage { text, client_msg_id })
            && text@ == m.text@ && client_msg_id@ == m.client_msg_id@,
        Some(pb::ClientEventKind::ConfirmAction(c)) => r matches Ok(ClientEvent::ConfirmAction { proposal_id })
            && proposal_id@ == c.proposal_id@,
        Some(pb::ClientEventKind::RejectAction(c)) => r matches Ok(ClientEvent::RejectAction { proposal_id, reason })
            && proposal_id@ == c.proposal_id@ && opt_str_view(reason) == opt_str_view(c.reason),
    }
}

/// Maps a wire client message onto the core envelope; an empty oneof or a
/// missing required field is a [`ConvertError`], never a crash.
pub fn client_event(event: pb::ClientEvent) -> (r: Result<ClientEvent, ConvertError>)
    ensures
        client_event_result(event, r),
{
    let ghost e = event;
    let kind = match event.event {
        None => return Err(ConvertError::EmptyEvent),
        Some(k) => k,
    };
    match kind {
        pb::ClientEventKind::Init(init) => match init.context {
            None => Err(ConvertError::MissingField("context")),
            Some(c) => Ok(ClientEvent::Init { spec_version: init.spec_version, context: context_from_pb(c) }),
        },
        pb::ClientEventKind::ContextUpdate(update) => match update.context {
            None => Err(ConvertError::MissingField("context")),
            Some(c) => Ok(ClientEvent::ContextUpdate { context: context_from_pb(c), context_seq: update.context_seq }),
        },
        pb::ClientEventKind::UserMessage(msg) => Ok(
            ClientEvent::UserMessage { text: msg.text, client_msg_id: msg.client_msg_id },
        ),
        pb::ClientEventKind::ConfirmAction(confirm) => Ok(ClientEvent::ConfirmAction { proposal_id: confirm.proposal_id }),
        pb::ClientEventKind::RejectAction(reject) => Ok(
            ClientEvent::RejectAction { proposal_id: reject.proposal_id, reason: reject.reason },
        ),
    }
}

/// The core preview a wire preview stands for.
pub open spec fn pb_preview_view(p: pb::DryRunPreview) -> PreviewV {
    PreviewV {
        affected_count: p.affected_count,
        sample_ids: strs_view(p.sample_ids@),
        summary: opt_str_view(p.summary),
        extensions: opt_map_view(p.extensions),
    }
}

pub open spec fn opt_pb_preview_view(p: Option<pb::DryRunPreview>) -> Option<PreviewV> {
    match p {
        Some(p) => Some(pb_preview_view(p)),
        None => None,
    }
}

/// A preview on the wire; its extensions are always present.
pub fn preview_to_pb(preview: DryRunPreview) -> (p: pb::DryRunPreview)
    ensures
        pb_preview_view(p) == preview@,
        p.extensions is Some,
{
    pb::DryRunPreview {
        affected_count: preview.affected_count,
        sample_ids: preview.sample_ids,
        summary: preview.summary,
        extensions: Some(preview.extensions),
    }
}

/// Whether `w` is the wire form of the core server event `e`: the same
/// variant, field for field, with objects always present and the proposal
/// state sent as its name.
pub open spec fn server_event_result(e: ServerEvent, w: pb::ServerEvent) -> bool {
    match e {
        ServerEvent::ChatMessage { msg_id, text, done } => w.event matches Some(pb::ServerEventKind::ChatMessage(m))
            && m.msg_id@ == msg_id@ && m.text@ == text@ && m.done == done,
        ServerEvent::ActionProposal(p) => w.event matches Some(pb::ServerEventKind::ActionProposal(a))
            && a.proposal_id@ == p.proposal_id@ && a.action_id@ == p.action_id@
            && a.params is Some && opt_map_view(a.params) == map_view(p.params)
            && a.block_type@ == p.block_type@
            && a.slots is Some && opt_map_view(a.slots) == map_view(p.slots)
            && opt_pb_preview_view(a.preview) == opt_preview_view(p.preview)
            && a.context_seq == p.context_seq && opt_str_view(a.turn_msg_id) == opt_str_view(p.turn_msg_id),
        ServerEvent::ProposalStateChanged { proposal_id, state, reason, result } =>
            w.event matches Some(pb::ServerEventKind::ProposalStateChanged(c))
            && c.proposal_id@ == proposal_id@ && c.state@ == state_name(state)
            && opt_str_view(c.reason) == opt_str_view(reason) && opt_json_view(c.result) == opt_json_view(result),
        ServerEvent::Error { code, message, recoverable } => w.event matches Some(pb::ServerEventKind::Error(x))
            && x.code@ == code@ && x.message@ == message@ && x.recoverable == recoverable,
    }
}

/// Maps a core server event onto the wire; every core event has a wire form.
pub fn server_event(event: ServerEvent) -> (w: pb::ServerEvent)
    ensures
        server_event_result(event, w),
{
    let kind = match event {
        ServerEvent::ChatMessage { msg_id, text, done } => pb::ServerEventKind::ChatMessage(
            pb::ChatMessage { msg_id, text, done },
        ),
        ServerEvent::ActionProposal(proposal) => {
            let ActionProposal { proposal_id, action_id, params, block_type, slots, preview, context_seq, turn_msg_id } =
                proposal;
            let preview = match preview {
                Some(p) => Some(preview_to_pb(p)),
                None => None,
            };
            pb::ServerEventKind::ActionProposal(
                pb::ActionProposal {
                    proposal_id,
                    action_id,
                    params: Some(params),
                    block_type,
                    slots: Some(slots),
                    preview,
                    context_seq,
                    turn_msg_id,
                },
            )
        },
        ServerEvent::ProposalStateChanged { proposal_id, state, reason, result } => pb::ServerEventKind::ProposalStateChanged(
            pb::ProposalStateChanged { proposal_id, state: state.name().to_string(), reason, result },
        ),
        ServerEvent::Error { code, message, recoverable } => pb::ServerEventKind::Error(
            pb::Error { code, message, recoverable },
        ),
    };
    pb::ServerEvent { event: Some(kind) }
}

} // verus!
