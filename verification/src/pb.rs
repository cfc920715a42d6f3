//! The gRPC binding's message shapes, as plain values: each
//! `google.protobuf.Struct` is held as the JSON object it encodes and each
//! `google.protobuf.Value` as the JSON value.

use vstd::prelude::*;

use crate::json::{Json, JsonMap};

verus! {

/// Wire form of a context snapshot.
#[derive(Debug)]
pub struct Context {
    pub route: String,
    pub params: Option<JsonMap>,
    pub selected_record_id: Option<String>,
    pub view_type: Option<String>,
    pub extensions: Option<JsonMap>,
}

/// `Init` on the wire.
#[derive(Debug)]
pub struct Init {
    pub spec_version: String,
    pub context: Option<Context>,
}

/// `ContextUpdate` on the wire.
#[derive(Debug)]
pub struct ContextUpdate {
    pub context: Option<Context>,
    pub context_seq: u64,
}

/// `UserMessage` on the wire.
#[derive(Debug)]
pub struct UserMessage {
    pub text: String,
    pub client_msg_id: String,
}

/// `ConfirmAction` on the wire.
#[derive(Debug)]
pub struct ConfirmAction {
    pub proposal_id: String,
}

/// `RejectAction` on the wire.
#[derive(Debug)]
pub struct RejectAction {
    pub proposal_id: String,
    pub reason: Option<String>,
}

/// The `oneof event` of a client message.
#[derive(Debug)]
pub enum ClientEventKind {
    Init(Init),
    ContextUpdate(ContextUpdate),
    UserMessage(UserMessage),
    ConfirmAction(ConfirmAction),
    RejectAction(RejectAction),
}

/// A client message; the oneof may be empty on the wire.
#[derive(Debug)]
pub struct ClientEvent {
    pub event: Option<ClientEventKind>,
}

/// `DryRunPreview` on the wire.
#[derive(Debug)]
pub struct DryRunPreview {
    pub affected_count: u64,
    pub sample_ids: Vec<String>,
    pub summary: Option<String>,
    pub extensions: Option<JsonMap>,
}

/// `ChatMessage` on the wire.
#[derive(Debug)]
pub struct ChatMessage {
    pub msg_id: String,
    pub text: String,
    pub done: bool,
}

/// `ActionProposal` on the wire.
#[derive(Debug)]
pub struct ActionProposal {
    pub proposal_id: String,
    pub action_id: String,
    pub params: Option<JsonMap>,
    pub block_type: String,
    pub slots: Option<JsonMap>,
    pub preview: Option<DryRunPreview>,
    pub context_seq: u64,
    pub turn_msg_id: Option<String>,
}

/// `ProposalStateChanged` on the wire; the state travels as its name.
#[derive(Debug)]
pub struct ProposalStateChanged {
    pub proposal_id: String,
    pub state: String,
    pub reason: Option<String>,
    pub result: Option<Json>,
}

/// `Error` on the wire.
#[derive(Debug)]
pub struct Error {
    pub code: String,
    pub message: String,
    pub recoverable: bool,
}

/// The `oneof event` of a server message.
#[derive(Debug)]
pub enum ServerEventKind {
    ChatMessage(ChatMessage),
    ActionProposal(ActionProposal),
    ProposalStateChanged(ProposalStateChanged),
    Error(Error),
}

/// A server message.
#[derive(Debug)]
pub struct ServerEvent {
    pub event: Option<ServerEventKind>,
}

} // verus!
