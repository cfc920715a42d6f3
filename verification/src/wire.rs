//! The host-webhook wire shapes: what the service sends to the host's
//! endpoints and what they answer.

use vstd::prelude::*;

use crate::envelope::DryRunPreview;
use crate::json::{Json, JsonMap};
use crate::strmap::StrMap;

verus! {

/// Version of the webhook contract, carried in every request.
pub const WEBHOOK_VERSION: u32 = 1;

/// The body of a `verify_session` call.
#[derive(Debug)]
pub struct VerifySessionRequest {
    pub webhook_version: u32,
    /// Service-minted session ID.
    pub session_id: String,
    /// The allowlisted upgrade-request headers, lower-case names.
    pub headers: StrMap,
}

/// A successful `verify_session` answer.
#[derive(Debug)]
pub struct VerifySessionResponse {
    /// The host's principal for the session, opaque to the service.
    pub principal: Json,
}

/// Which seam a delivery is for.
#[derive(Debug, Clone, Copy, PartialEq, Eq, Structural)]
pub enum SeamKind {
    Authorize,
    DryRun,
    Execute,
    BuildSlots,
}

/// The body of an `authorize` or `dry_run` call.
#[derive(Debug)]
pub struct SeamRequest {
    pub webhook_version: u32,
    pub kind: SeamKind,
    pub session_id: String,
    pub action_id: String,
    pub params: JsonMap,
    pub principal: Json,
}

/// The body of an `execute` call.
#[derive(Debug)]
pub struct ExecuteRequest {
    pub webhook_version: u32,
    pub kind: SeamKind,
    pub session_id: String,
    pub action_id: String,
    pub params: JsonMap,
    pub principal: Json,
    /// Stable across the retries of one execution.
    pub idempotency_key: String,
    /// 1 on the first delivery, incremented per retry.
    pub attempt: u32,
}

/// The body of a `build_slots` call.
#[derive(Debug)]
pub struct BuildSlotsRequest {
    pub webhook_version: u32,
    pub kind: SeamKind,
    pub session_id: String,
    pub action_id: String,
    pub params: JsonMap,
    pub principal: Json,
    pub preview: Option<DryRunPreview>,
}

/// A `build_slots` answer.
#[derive(Debug)]
pub struct BuildSlotsResponse {
    pub slots: JsonMap,
}

/// An authorization verdict.
#[derive(Debug, Clone, Copy, PartialEq, Eq, Structural)]
pub enum Decision {
    Allow,
    Deny,
}

/// An `authorize` answer.
#[derive(Debug)]
pub struct AuthorizeResponse {
    pub decision: Decision,
    pub reason: Option<String>,
}

/// A `dry_run` answer.
#[derive(Debug)]
pub enum DryRunResponse {
    Preview { preview: DryRunPreview },
    Rejected { reason: Option<String> },
}

/// An `execute` answer.
#[derive(Debug)]
pub enum ExecuteResponse {
    Executed { result: Json },
    Rejected { reason: Option<String> },
}

} // verus!
