//! Error types for registry construction, validation, execution, and the
//! proposal state machine, with their human-readable messages.

use vstd::prelude::*;

use crate::proposal::{state_name, ProposalState};
use crate::text::{concat2, concat3, push_str};

verus! {

/// Errors raised while building a registry.
#[derive(Debug, PartialEq, Eq)]
pub enum RegistryError {
    DuplicateAction(String),
    DuplicateBlock(String),
    UnknownBlockType { action_id: String, block_type: String },
    MissingDryRun(String),
    UnexpectedDryRun(String),
    UnattachedAction(String),
    UnknownAttachment(String),
    DuplicateAttachment(String),
    MissingHandler(String),
    ConflictingSlotBuilders(String),
}

/// Model of a [`RegistryError`].
pub enum RegErrV {
    DuplicateAction(Seq<char>),
    DuplicateBlock(Seq<char>),
    UnknownBlockType(Seq<char>, Seq<char>),
    MissingDryRun(Seq<char>),
    UnexpectedDryRun(Seq<char>),
    UnattachedAction(Seq<char>),
    UnknownAttachment(Seq<char>),
    DuplicateAttachment(Seq<char>),
    MissingHandler(Seq<char>),
    ConflictingSlotBuilders(Seq<char>),
}

impl View for RegistryError {
    type V = RegErrV;

    open spec fn view(&self) -> RegErrV {
        match self {
            RegistryError::DuplicateAction(s) => RegErrV::DuplicateAction(s@),
            RegistryError::DuplicateBlock(s) => RegErrV::DuplicateBlock(s@),
            RegistryError::UnknownBlockType { action_id, block_type } => RegErrV::UnknownBlockType(action_id@, block_type@),
            RegistryError::MissingDryRun(s) => RegErrV::MissingDryRun(s@),
            RegistryError::UnexpectedDryRun(s) => RegErrV::UnexpectedDryRun(s@),
            RegistryError::UnattachedAction(s) => RegErrV::UnattachedAction(s@),
            RegistryError::UnknownAttachment(s) => RegErrV::UnknownAttachment(s@),
            RegistryError::DuplicateAttachment(s) => RegErrV::DuplicateAttachment(s@),
            RegistryError::MissingHandler(s) => RegErrV::MissingHandler(s@),
            RegistryError::ConflictingSlotBuilders(s) => RegErrV::ConflictingSlotBuilders(s@),
        }
    }
}

pub open spec fn registry_error_text(e: RegistryError) -> Seq<char> {
    match e {
        RegistryError::DuplicateAction(id) => "duplicate action id `"@ + id@ + "`"@,
        RegistryError::DuplicateBlock(b) => "duplicate block type `"@ + b@ + "`"@,
        RegistryError::UnknownBlockType { action_id, block_type } => "action `"@ + action_id@
            + "` references unregistered block type `"@ + block_type@ + "`"@,
        RegistryError::MissingDryRun(id) => "mutating action `"@ + id@ + "` must register a dry-run handler"@,
        RegistryError::UnexpectedDryRun(id) => "action `"@ + id@
            + "` does not mutate; its dry-run handler would never run"@,
        RegistryError::UnattachedAction(id) => "action `"@ + id@ + "` from schema has no handler attached"@,
        RegistryError::UnknownAttachment(id) => "attach for `"@ + id@ + "` matches no schema action"@,
        RegistryError::DuplicateAttachment(id) => "action `"@ + id@ + "` attached twice"@,
        RegistryError::MissingHandler(id) => "binding for `"@ + id@ + "` sets no handler"@,
        RegistryError::ConflictingSlotBuilders(id) => "binding for `"@ + id@ + "` sets both slots and async_slots"@,
    }
}

/// The message of a registry error, read from its model.
pub open spec fn reg_err_text(e: RegErrV) -> Seq<char> {
    match e {
        RegErrV::DuplicateAction(id) => "duplicate action id `"@ + id + "`"@,
        RegErrV::DuplicateBlock(b) => "duplicate block type `"@ + b + "`"@,
        RegErrV::UnknownBlockType(action_id, block_type) => "action `"@ + action_id
            + "` references unregistered block type `"@ + block_type + "`"@,
        RegErrV::MissingDryRun(id) => "mutating action `"@ + id + "` must register a dry-run handler"@,
        RegErrV::UnexpectedDryRun(id) => "action `"@ + id + "` does not mutate; its dry-run handler would never run"@,
        RegErrV::UnattachedAction(id) => "action `"@ + id + "` from schema has no handler attached"@,
        RegErrV::UnknownAttachment(id) => "attach for `"@ + id + "` matches no schema action"@,
        RegErrV::DuplicateAttachment(id) => "action `"@ + id + "` attached twice"@,
        RegErrV::MissingHandler(id) => "binding for `"@ + id + "` sets no handler"@,
        RegErrV::ConflictingSlotBuilders(id) => "binding for `"@ + id + "` sets both slots and async_slots"@,
    }
}

pub proof fn lemma_registry_error_text(e: RegistryError)
    ensures
        registry_error_text(e) == reg_err_text(e@),
{
}

impl RegistryError {
    /// The error's message.
    pub fn message(&self) -> (s: String)
        ensures
            s@ == registry_error_text(*self),
    {
        match self {
            RegistryError::DuplicateAction(id) => concat3("duplicate action id `", id, "`"),
            RegistryError::DuplicateBlock(b) => concat3("duplicate block type `", b, "`"),
            RegistryError::UnknownBlockType { action_id, block_type } => {
                let mut s = concat3("action `", action_id, "` references unregistered block type `");
                push_str(&mut s, block_type);
                push_str(&mut s, "`");
                s
            },
            RegistryError::MissingDryRun(id) => concat3("mutating action `", id, "` must register a dry-run handler"),
            RegistryError::UnexpectedDryRun(id) => concat3("action `", id, "` does not mutate; its dry-run handler would never run"),
            RegistryError::UnattachedAction(id) => concat3("action `", id, "` from schema has no handler attached"),
            RegistryError::UnknownAttachment(id) => concat3("attach for `", id, "` matches no schema action"),
            RegistryError::DuplicateAttachment(id) => concat3("action `", id, "` attached twice"),
            RegistryError::MissingHandler(id) => concat3("binding for `", id, "` sets no handler"),
            RegistryError::ConflictingSlotBuilders(id) => concat3("binding for `", id, "` sets both slots and async_slots"),
        }
    }
}

/// A propose-time or confirm-time validation failure.
#[derive(Debug, PartialEq, Eq)]
pub enum ValidationFailure {
    /// The model referenced an action ID that is not registered.
    UnknownAction(String),
    /// A parameter value failed its type check.
    InvalidParam { param: String, reason: String },
    /// A required parameter was not provided.
    MissingParam(String),
    /// The model emitted a parameter the action does not declare as
    /// utterance-sourced.
    UnknownParam(String),
    /// A required context-sourced parameter could not be resolved.
    UnresolvedContextParam(String),
    /// The authorization seam denied the action.
    Unauthorized { action_id: String, reason: String },
    /// The mandate seam denied the action.
    OutOfMandate { action_id: String, reason: String },
    /// A slot value failed the block type's slot schema.
    InvalidSlot { slot: String, reason: String },
    /// The dry-run handler failed.
    DryRun(String),
    /// The slot builder failed.
    SlotBuild(String),
}

pub open spec fn is_model_fixable_spec(f: ValidationFailure) -> bool {
    match f {
        ValidationFailure::UnknownAction(_) | ValidationFailure::InvalidParam { .. }
        | ValidationFailure::MissingParam(_) | ValidationFailure::UnknownParam(_) => true,
        _ => false,
    }
}

pub open spec fn validation_failure_text(f: ValidationFailure) -> Seq<char> {
    match f {
        ValidationFailure::UnknownAction(id) => "unknown action `"@ + id@ + "`"@,
        ValidationFailure::InvalidParam { param, reason } => "param `"@ + param@ + "`: "@ + reason@,
        ValidationFailure::MissingParam(p) => "missing required param `"@ + p@ + "`"@,
        ValidationFailure::UnknownParam(p) => "unknown or non-utterance param `"@ + p@ + "`"@,
        ValidationFailure::UnresolvedContextParam(p) => "context param `"@ + p@
            + "` could not be resolved from current context"@,
        ValidationFailure::Unauthorized { action_id, reason } => "not authorized for `"@ + action_id@ + "`: "@
            + reason@,
        ValidationFailure::OutOfMandate { action_id, reason } => "outside the agent's mandate for `"@
            + action_id@ + "`: "@ + reason@,
        ValidationFailure::InvalidSlot { slot, reason } => "slot `"@ + slot@ + "`: "@ + reason@,
        ValidationFailure::DryRun(m) => "dry-run failed: "@ + m@,
        ValidationFailure::SlotBuild(m) => "slot build failed: "@ + m@,
    }
}

impl ValidationFailure {
    /// Whether a different model output could fix this failure: selection
    /// and argument mistakes are; denials and app-side failures are not.
    pub fn is_model_fixable(&self) -> (r: bool)
        ensures
            r == is_model_fixable_spec(*self),
    {
        match self {
            ValidationFailure::UnknownAction(_) | ValidationFailure::InvalidParam { .. }
            | ValidationFailure::MissingParam(_) | ValidationFailure::UnknownParam(_) => true,
            _ => false,
        }
    }

    /// The failure's message.
    pub fn message(&self) -> (s: String)
        ensures
            s@ == validation_failure_text(*self),
    {
        match self {
            ValidationFailure::UnknownAction(id) => concat3("unknown action `", id, "`"),
            ValidationFailure::InvalidParam { param, reason } => {
                let mut s = concat3("param `", param, "`: ");
                push_str(&mut s, reason);
                s
            },
            ValidationFailure::MissingParam(p) => concat3("missing required param `", p, "`"),
            ValidationFailure::UnknownParam(p) => concat3("unknown or non-utterance param `", p, "`"),
            ValidationFailure::UnresolvedContextParam(p) => concat3(
                "context param `",
                p,
                "` could not be resolved from current context",
            ),
            ValidationFailure::Unauthorized { action_id, reason } => {
                let mut s = concat3("not authorized for `", action_id, "`: ");
                push_str(&mut s, reason);
                s
            },
            ValidationFailure::OutOfMandate { action_id, reason } => {
                let mut s = concat3("outside the agent's mandate for `", action_id, "`: ");
                push_str(&mut s, reason);
                s
            },
            ValidationFailure::InvalidSlot { slot, reason } => {
                let mut s = concat3("slot `", slot, "`: ");
                push_str(&mut s, reason);
                s
            },
            ValidationFailure::DryRun(m) => concat2("dry-run failed: ", m),
            ValidationFailure::SlotBuild(m) => concat2("slot build failed: ", m),
        }
    }

    /// A copy of this failure.
    pub fn copy(&self) -> (r: ValidationFailure)
        ensures
            r == *self,
    {
        match self {
            ValidationFailure::UnknownAction(s) => ValidationFailure::UnknownAction(s.clone()),
            ValidationFailure::InvalidParam { param, reason } => ValidationFailure::InvalidParam {
                param: param.clone(),
                reason: reason.clone(),
            },
            ValidationFailure::MissingParam(s) => ValidationFailure::MissingParam(s.clone()),
            ValidationFailure::UnknownParam(s) => ValidationFailure::UnknownParam(s.clone()),
            ValidationFailure::UnresolvedContextParam(s) => ValidationFailure::UnresolvedContextParam(s.clone()),
            ValidationFailure::Unauthorized { action_id, reason } => ValidationFailure::Unauthorized {
                action_id: action_id.clone(),
                reason: reason.clone(),
            },
            ValidationFailure::OutOfMandate { action_id, reason } => ValidationFailure::OutOfMandate {
                action_id: action_id.clone(),
                reason: reason.clone(),
            },
            ValidationFailure::InvalidSlot { slot, reason } => ValidationFailure::InvalidSlot {
                slot: slot.clone(),
                reason: reason.clone(),
            },
            ValidationFailure::DryRun(s) => ValidationFailure::DryRun(s.clone()),
            ValidationFailure::SlotBuild(s) => ValidationFailure::SlotBuild(s.clone()),
        }
    }
}

/// Errors returned by app-side handlers.
#[derive(Debug, PartialEq, Eq)]
pub enum HandlerError {
    /// The app declined the operation.
    Rejected(String),
    /// The app failed internally.
    Internal(String),
}

pub open spec fn handler_error_text(e: HandlerError) -> Seq<char> {
    match e {
        HandlerError::Rejected(m) => "rejected: "@ + m@,
        HandlerError::Internal(m) => "internal: "@ + m@,
    }
}

impl HandlerError {
    /// The error's message.
    pub fn message(&self) -> (s: String)
        ensures
            s@ == handler_error_text(*self),
    {
        match self {
            HandlerError::Rejected(m) => concat2("rejected: ", m),
            HandlerError::Internal(m) => concat2("internal: ", m),
        }
    }
}

/// Errors returned by a model provider.
#[derive(Debug, PartialEq, Eq)]
pub enum LlmError {
    /// The provider call failed.
    Provider(String),
}

pub open spec fn llm_error_text(e: LlmError) -> Seq<char> {
    match e {
        LlmError::Provider(m) => "llm provider error: "@ + m@,
    }
}

impl LlmError {
    /// The error's message.
    pub fn message(&self) -> (s: String)
        ensures
            s@ == llm_error_text(*self),
    {
        match self {
            LlmError::Provider(m) => concat2("llm provider error: ", m),
        }
    }
}

/// Illegal operations on the proposal state machine.
#[derive(Debug, PartialEq, Eq)]
pub enum TransitionError {
    /// No proposal with this ID is tracked.
    UnknownProposal(String),
    /// The requested transition is not in the lifecycle table.
    Illegal { from: ProposalState, to: ProposalState },
}

pub open spec fn transition_error_text(e: TransitionError) -> Seq<char> {
    match e {
        TransitionError::UnknownProposal(id) => "unknown proposal `"@ + id@ + "`"@,
        TransitionError::Illegal { from, to } => "illegal transition "@ + state_name(from) + " -> "@
            + state_name(to),
    }
}

impl TransitionError {
    /// The error's message.
    pub fn message(&self) -> (s: String)
        ensures
            s@ == transition_error_text(*self),
    {
        match self {
            TransitionError::UnknownProposal(id) => concat3("unknown proposal `", id, "`"),
            TransitionError::Illegal { from, to } => {
                let mut s = concat3("illegal transition ", from.name(), " -> ");
                push_str(&mut s, to.name());
                s
            },
        }
    }
}

} // verus!
