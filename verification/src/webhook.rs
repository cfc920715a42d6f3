//! The agent seams as host-webhook deliveries: request building, the
//! principal envelope, the execute retry schedule, and how each answer
//! maps onto a seam outcome.

use vstd::prelude::*;

use crate::client::{delivery_error_text, DeliveryError, RetryPolicy};
use crate::codegen::ascii_lower;
use crate::envelope::{DryRunPreview, PreviewV};
use crate::error::{handler_error_text, HandlerError};
use crate::json::{
    entries_insert, entry_get, json_view, lemma_entries_insert_get, lemma_entries_insert_other, map_view, Json, JsonMap,
    JsonV,
};
use crate::seams::AuthzDecision;
use crate::strmap::{key_insert, StrMap};
use crate::text::{chars_of, concat2, push_char, str_eq};
use crate::wire::{
    AuthorizeResponse, Decision, DryRunResponse, ExecuteRequest, ExecuteResponse, SeamKind, SeamRequest,
    VerifySessionResponse, WEBHOOK_VERSION,
};

verus! {

/// The principal the service hands the agent: the session ID and the
/// host's principal, as one object.
pub open spec fn wrapped_principal(session_id: Seq<char>, principal: JsonV) -> JsonV {
    JsonV::Object(
        entries_insert(
            entries_insert(Seq::empty(), "session_id"@, JsonV::String(session_id)),
            "principal"@,
            principal,
        ),
    )
}

/// Wraps a host principal with its session ID.
pub fn session_principal(session_id: &str, principal: Json) -> (r: Json)
    ensures
        json_view(r) == wrapped_principal(session_id@, json_view(principal)),
{
    let mut m = JsonMap::new();
    m.insert("session_id".to_owned(), Json::String(session_id.to_owned()));
    m.insert("principal".to_owned(), principal);
    Json::Object(m)
}

/// The session ID and host principal inside a wrapped principal: an object
/// with a string `session_id` and a `principal`.
pub open spec fn unwrap_principal(w: JsonV) -> Option<(Seq<char>, JsonV)> {
    match w {
        JsonV::Object(es) => match (entry_get(es, "session_id"@), entry_get(es, "principal"@)) {
            (Some(JsonV::String(s)), Some(p)) => Some((s, p)),
            _ => None,
        },
        _ => None,
    }
}

/// Unwrapping a wrapped principal gives back its session ID and the host's
/// principal.
pub proof fn law_principal_round_trip(session_id: Seq<char>, principal: JsonV)
    ensures
        unwrap_principal(wrapped_principal(session_id, principal)) == Some((session_id, principal)),
{
    reveal_strlit("session_id");
    reveal_strlit("principal");
    assert("session_id"@ != "principal"@) by {
        assert("session_id"@[0] != "principal"@[0]);
    }
    let e0 = Seq::<(Seq<char>, JsonV)>::empty();
    let e1 = entries_insert(e0, "session_id"@, JsonV::String(session_id));
    lemma_entries_insert_get(e0, "session_id"@, JsonV::String(session_id));
    lemma_entries_insert_other(e1, "principal"@, principal, "session_id"@);
    lemma_entries_insert_get(e1, "principal"@, principal);
}

pub open spec fn envelope_missing_text() -> Seq<char> {
    "principal missing the service session envelope (wire the agent with WebhookVerifier)"@
}

/// Splits a wrapped principal into its session ID and host principal.
pub fn split_principal(wrapped: &Json) -> (r: Result<(&str, &Json), HandlerError>)
    ensures
        match unwrap_principal(json_view(*wrapped)) {
            Some((s, p)) => r matches Ok(x) && x.0@ == s && json_view(*x.1) == p,
            None => r matches Err(HandlerError::Internal(m)) && m@ == envelope_missing_text(),
        },
{
    let missing = "principal missing the service session envelope (wire the agent with WebhookVerifier)";
    match wrapped {
        Json::Object(m) => {
            let session = m.get("session_id");
            let principal = m.get("principal");
            match (session, principal) {
                (Some(Json::String(s)), Some(p)) => Ok((s.as_str(), p)),
                _ => Err(HandlerError::Internal(missing.to_owned())),
            }
        },
        _ => Err(HandlerError::Internal(missing.to_owned())),
    }
}

/// The request for an `authorize` or `dry_run` delivery.
pub fn seam_request(kind: SeamKind, action_id: &str, params: &JsonMap, wrapped: &Json) -> (r: Result<SeamRequest, HandlerError>)
    ensures
        match unwrap_principal(json_view(*wrapped)) {
            Some((s, p)) => r matches Ok(q) && q.webhook_version == WEBHOOK_VERSION && q.kind == kind
                && q.session_id@ == s && q.action_id@ == action_id@ && map_view(q.params) == map_view(*params)
                && json_view(q.principal) == p,
            None => r matches Err(HandlerError::Internal(m)) && m@ == envelope_missing_text(),
        },
{
    let (session_id, principal) = match split_principal(wrapped) {
        Ok(x) => x,
        Err(e) => return Err(e),
    };
    Ok(SeamRequest {
        webhook_version: WEBHOOK_VERSION,
        kind,
        session_id: session_id.to_owned(),
        action_id: action_id.to_owned(),
        params: params.deep_clone(),
        principal: principal.deep_clone(),
    })
}

/// The first request of an execution, under a fresh idempotency key.
pub fn execute_request(action_id: &str, params: &JsonMap, wrapped: &Json, idempotency_key: String) -> (r: Result<ExecuteRequest, HandlerError>)
    ensures
        match unwrap_principal(json_view(*wrapped)) {
            Some((s, p)) => r matches Ok(q) && q.webhook_version == WEBHOOK_VERSION && q.kind == SeamKind::Execute
                && q.session_id@ == s && q.action_id@ == action_id@ && map_view(q.params) == map_view(*params)
                && json_view(q.principal) == p && q.idempotency_key@ == idempotency_key@ && q.attempt == 1,
            None => r matches Err(HandlerError::Internal(m)) && m@ == envelope_missing_text(),
        },
{
    let (session_id, principal) = match split_principal(wrapped) {
        Ok(x) => x,
        Err(e) => return Err(e),
    };
    Ok(ExecuteRequest {
        webhook_version: WEBHOOK_VERSION,
        kind: SeamKind::Execute,
        session_id: session_id.to_owned(),
        action_id: action_id.to_owned(),
        params: params.deep_clone(),
        principal: principal.deep_clone(),
        idempotency_key,
        attempt: 1,
    })
}

/// The result of the execute delivery loop.
#[derive(Debug)]
pub enum ExecuteDelivery {
    /// A 2xx with a contract-shaped body.
    Answered(ExecuteResponse),
    /// The host answered, but not with a usable 2xx body.
    AnsweredError(DeliveryError),
    /// Every attempt timed out or failed to connect: the outcome is unknown.
    Unknown(String),
}

/// What the execute loop does next.
pub enum ExecuteNext {
    /// The loop is over.
    Finished(ExecuteDelivery),
    /// Wait this many milliseconds, then deliver attempt
    /// [`ExecuteRetry::attempt`] with the same idempotency key.
    RetryAfter(u64),
}

/// The execute delivery schedule: bounded attempts, retried only on
/// unknown outcomes, with a doubling backoff.
pub struct ExecuteRetry {
    attempt: u32,
    attempts: u32,
    backoff_ms: u64,
    last_unreachable: String,
}

impl ExecuteRetry {
    #[verifier::type_invariant]
    spec fn within(self) -> bool {
        1 <= self.attempt <= self.attempts
    }

    pub closed spec fn current(self) -> u32 {
        self.attempt
    }

    pub closed spec fn budget(self) -> u32 {
        self.attempts
    }

    pub closed spec fn backoff(self) -> u64 {
        self.backoff_ms
    }

    pub closed spec fn last_error(self) -> Seq<char> {
        self.last_unreachable@
    }

    /// The schedule of a policy: attempt 1 of at least one.
    pub fn start(policy: &RetryPolicy) -> (r: ExecuteRetry)
        ensures
            r.current() == 1,
            r.budget() == if policy.execute_attempts == 0 { 1 } else { policy.execute_attempts },
            r.backoff() == policy.backoff_ms,
            r.last_error().len() == 0,
    {
        let attempts = if policy.execute_attempts == 0 { 1 } else { policy.execute_attempts };
        ExecuteRetry { attempt: 1, attempts, backoff_ms: policy.backoff_ms, last_unreachable: String::new() }
    }

    /// The attempt about to be delivered (1-based).
    pub fn attempt(&self) -> (n: u32)
        ensures
            n == self.current(),
            1 <= n <= self.budget(),
    {
        proof {
            use_type_invariant(self);
        }
        self.attempt
    }

    /// Records the outcome of the current attempt: an answer (usable or
    /// not) ends the loop; an unknown outcome is retried after the backoff,
    /// which then doubles, until the budget is spent.
    pub fn record(&mut self, outcome: Result<ExecuteResponse, DeliveryError>) -> (next: ExecuteNext)
        ensures
            final(self).budget() == old(self).budget(),
            match outcome {
                Ok(resp) => next matches ExecuteNext::Finished(ExecuteDelivery::Answered(x)) && x == resp,
                Err(DeliveryError::Unreachable(m)) => if old(self).current() < old(self).budget() {
                    &&& next matches ExecuteNext::RetryAfter(ms) && ms == old(self).backoff()
                    &&& final(self).current() == old(self).current() + 1
                    &&& final(self).backoff() == (if old(self).backoff() <= u64::MAX / 2 {
                        old(self).backoff() * 2
                    } else {
                        u64::MAX as int
                    })
                    &&& final(self).last_error() == m@
                } else {
                    next matches ExecuteNext::Finished(ExecuteDelivery::Unknown(x)) && x@ == m@
                },
                Err(e) => next matches ExecuteNext::Finished(ExecuteDelivery::AnsweredError(x)) && x == e,
            },
    {
        proof {
            use_type_invariant(&*self);
        }
        match outcome {
            Ok(resp) => ExecuteNext::Finished(ExecuteDelivery::Answered(resp)),
            Err(DeliveryError::Unreachable(m)) => {
                if self.attempt < self.attempts {
                    let wait = self.backoff_ms;
                    self.backoff_ms = if self.backoff_ms <= u64::MAX / 2 { self.backoff_ms * 2 } else { u64::MAX };
                    self.attempt = self.attempt + 1;
                    self.last_unreachable = m;
                    ExecuteNext::RetryAfter(wait)
                } else {
                    ExecuteNext::Finished(ExecuteDelivery::Unknown(m))
                }
            },
            Err(e) => ExecuteNext::Finished(ExecuteDelivery::AnsweredError(e)),
        }
    }
}

pub open spec fn reason_or(reason: Option<String>, fallback: Seq<char>) -> Seq<char> {
    match reason {
        Some(r) => r@,
        None => fallback,
    }
}

fn reason_text(reason: Option<String>, fallback: &str) -> (s: String)
    ensures
        s@ == reason_or(reason, fallback@),
{
    match reason {
        Some(r) => r,
        None => fallback.to_owned(),
    }
}

/// How an execute delivery maps onto the handler outcome.
pub fn execute_outcome(delivery: ExecuteDelivery) -> (r: Result<Json, HandlerError>)
    requires
        delivery matches ExecuteDelivery::AnsweredError(DeliveryError::Status { status, .. }) ==> 100 <= status <= 999,
    ensures
        match delivery {
            ExecuteDelivery::Answered(ExecuteResponse::Executed { result }) => r matches Ok(v) && json_view(v) == json_view(result),
            ExecuteDelivery::Answered(ExecuteResponse::Rejected { reason }) => r matches Err(HandlerError::Rejected(m))
                && m@ == reason_or(reason, "rejected by host"@),
            ExecuteDelivery::AnsweredError(e) => r matches Err(HandlerError::Internal(m)) && m@ == delivery_error_text(e),
            ExecuteDelivery::Unknown(_) => r matches Err(HandlerError::Internal(m)) && m@ == "execution outcome unknown"@,
        },
{
    match delivery {
        ExecuteDelivery::Answered(ExecuteResponse::Executed { result }) => Ok(result),
        ExecuteDelivery::Answered(ExecuteResponse::Rejected { reason }) => Err(
            HandlerError::Rejected(reason_text(reason, "rejected by host")),
        ),
        ExecuteDelivery::AnsweredError(err) => Err(HandlerError::Internal(err.message())),
        ExecuteDelivery::Unknown(_) => Err(HandlerError::Internal("execution outcome unknown".to_owned())),
    }
}

/// How a dry-run delivery maps onto the preview outcome.
pub fn dry_run_outcome(answer: Result<DryRunResponse, DeliveryError>) -> (r: Result<DryRunPreview, HandlerError>)
    requires
        answer matches Err(DeliveryError::Status { status, .. }) ==> 100 <= status <= 999,
    ensures
        match answer {
            Ok(DryRunResponse::Preview { preview }) => r matches Ok(p) && p@ == preview@,
            Ok(DryRunResponse::Rejected { reason }) => r matches Err(HandlerError::Rejected(m))
                && m@ == reason_or(reason, "rejected by host"@),
            Err(e) => r matches Err(HandlerError::Internal(m)) && m@ == delivery_error_text(e),
        },
{
    match answer {
        Ok(DryRunResponse::Preview { preview }) => Ok(preview),
        Ok(DryRunResponse::Rejected { reason }) => Err(HandlerError::Rejected(reason_text(reason, "rejected by host"))),
        Err(err) => Err(HandlerError::Internal(err.message())),
    }
}

/// How an authorize delivery maps onto the decision; a failed delivery
/// denies (fails closed).
pub fn authorize_outcome(answer: Result<AuthorizeResponse, DeliveryError>) -> (d: AuthzDecision)
    ensures
        match answer {
            Ok(resp) => if resp.decision == Decision::Allow {
                d is Allow
            } else {
                d matches AuthzDecision::Deny(m) && m@ == reason_or(resp.reason, "denied by host"@)
            },
            Err(_) => d matches AuthzDecision::Deny(m) && m@ == "authorization unavailable"@,
        },
{
    match answer {
        Ok(resp) => match resp.decision {
            Decision::Allow => AuthzDecision::Allow,
            Decision::Deny => AuthzDecision::Deny(reason_text(resp.reason, "denied by host")),
        },
        Err(_) => AuthzDecision::Deny("authorization unavailable".to_owned()),
    }
}

/// An authorize request that could not be built denies with the reason.
pub fn authorize_unsendable(err: &HandlerError) -> (d: AuthzDecision)
    ensures
        d matches AuthzDecision::Deny(m) && m@ == handler_error_text(*err),
{
    AuthzDecision::Deny(err.message())
}

/// How a `verify_session` answer maps onto stream establishment: a 2xx
/// with a principal admits the wrapped principal, 401 and 403 refuse with
/// the same status, anything else (including a failed delivery) is 503.
pub fn verify_answer(session_id: &str, answer: Result<(u16, Option<VerifySessionResponse>), DeliveryError>) -> (r: Result<Json, u16>)
    ensures
        match answer {
            Ok((status, Some(resp))) => if 200 <= status <= 299 {
                r matches Ok(p) && json_view(p) == wrapped_principal(session_id@, json_view(resp.principal))
            } else if status == 401 || status == 403 {
                r == Err::<Json, u16>(status)
            } else {
                r == Err::<Json, u16>(503)
            },
            Ok((status, None)) => if status == 401 || status == 403 {
                r == Err::<Json, u16>(status)
            } else {
                r == Err::<Json, u16>(503)
            },
            Err(_) => r == Err::<Json, u16>(503),
        },
{
    match answer {
        Ok((status, Some(resp))) => {
            if 200 <= status && status <= 299 {
                Ok(session_principal(session_id, resp.principal))
            } else if status == 401 || status == 403 {
                Err(status)
            } else {
                Err(503)
            }
        },
        Ok((status, None)) => {
            if status == 401 || status == 403 {
                Err(status)
            } else {
                Err(503)
            }
        },
        Err(_) => Err(503),
    }
}

pub open spec fn names_lower(v: Seq<String>) -> Seq<Seq<char>> {
    v.map_values(|n: String| n@.map_values(|c: char| ascii_lower(c)))
}

fn lower_ascii(s: &str) -> (r: String)
    ensures
        r@ == s@.map_values(|c: char| ascii_lower(c)),
{
    let cs = chars_of(s);
    let mut out = String::new();
    let mut i: usize = 0;
    while i < cs.len()
        invariant
            i <= cs.len(),
            cs@ == s@,
            out@ == cs@.take(i as int).map_values(|c: char| ascii_lower(c)),
        decreases cs.len() - i,
    {
        let c = cs[i];
        let l = if 'A' <= c && c <= 'Z' {
            let code: u32 = c as u32;
            ((code + 32) as u8) as char
        } else {
            c
        };
        push_char(&mut out, l);
        assert(cs@.take(i + 1).map_values(|c: char| ascii_lower(c)) =~= cs@.take(i as int).map_values(
            |c: char| ascii_lower(c),
        ).push(ascii_lower(c)));
        i = i + 1;
    }
    assert(cs@.take(i as int) =~= cs@);
    out
}

/// The forward-allowlist, ASCII lower-cased (header names are).
pub fn lowercase_names(names: &Vec<String>) -> (r: Vec<String>)
    ensures
        crate::palette::strings_view(r@) == names_lower(names@),
{
    let mut out: Vec<String> = Vec::new();
    let mut i: usize = 0;
    while i < names.len()
        invariant
            i <= names.len(),
            out.len() == i,
            forall|j: int| 0 <= j < i ==> (#[trigger] out[j])@ == names[j]@.map_values(|c: char| ascii_lower(c)),
        decreases names.len() - i,
    {
        out.push(lower_ascii(names[i].as_str()));
        i = i + 1;
    }
    assert(crate::palette::strings_view(out@) =~= names_lower(names@));
    out
}

/// The first value of a header in a request's header list (names lower
/// case), when it is present and has a textual value.
pub open spec fn header_value(headers: Seq<(Seq<char>, Option<Seq<char>>)>, name: Seq<char>) -> Option<Seq<char>> {
    if exists|i: int| 0 <= i < headers.len() && headers[i].0 == name {
        headers[choose|i: int| 0 <= i < headers.len() && headers[i].0 == name && (forall|j: int| 0 <= j < i ==> headers[j].0 != name)].1
    } else {
        None
    }
}

/// The forwarded headers: each allowlisted name with a textual value.
pub open spec fn forwarded(allow: Seq<Seq<char>>, headers: Seq<(Seq<char>, Option<Seq<char>>)>) -> Seq<(Seq<char>, Seq<char>)>
    decreases allow.len(),
{
    if allow.len() == 0 {
        Seq::empty()
    } else {
        let rest = forwarded(allow.drop_last(), headers);
        match header_value(headers, allow.last()) {
            Some(v) => key_insert(rest, allow.last(), v),
            None => rest,
        }
    }
}

pub open spec fn header_pairs(v: Seq<(String, Option<String>)>) -> Seq<(Seq<char>, Option<Seq<char>>)> {
    v.map_values(|p: (String, Option<String>)| (p.0@, crate::envelope::opt_str_view(p.1)))
}

fn first_header(headers: &Vec<(String, Option<String>)>, name: &str) -> (r: Option<String>)
    ensures
        crate::envelope::opt_str_view(r) == header_value(header_pairs(headers@), name@),
{
    let ghost hv = header_pairs(headers@);
    let mut i: usize = 0;
    while i < headers.len()
        invariant
            i <= headers.len(),
            hv == header_pairs(headers@),
            forall|j: int| 0 <= j < i ==> hv[j].0 != name@,
        decreases headers.len() - i,
    {
        assert(hv[i as int] == (headers[i as int].0@, crate::envelope::opt_str_view(headers[i as int].1)));
        if str_eq(headers[i].0.as_str(), name) {
            proof {
                let w = choose|w: int| 0 <= w < hv.len() && hv[w].0 == name@ && (forall|j: int| 0 <= j < w ==> hv[j].0 != name@);
                assert(0 <= i < hv.len() && hv[i as int].0 == name@ && (forall|j: int| 0 <= j < i ==> hv[j].0 != name@));
                if w < i {
                    assert(hv[w].0 != name@);
                }
                if i < w {
                    assert(hv[i as int].0 != name@);
                }
            }
            return crate::envelope::copy_opt_string(&headers[i].1);
        }
        i = i + 1;
    }
    None
}

/// Collects the allowlisted headers of a stream-upgrade request, given its
/// headers as (lower-case name, textual value if any) in request order.
pub fn forward_headers(allow: &Vec<String>, headers: &Vec<(String, Option<String>)>) -> (m: StrMap)
    ensures
        m.view_pairs() == forwarded(crate::palette::strings_view(allow@), header_pairs(headers@)),
{
    let ghost av = crate::palette::strings_view(allow@);
    let mut m = StrMap::new();
    let mut i: usize = 0;
    while i < allow.len()
        invariant
            i <= allow.len(),
            av == crate::palette::strings_view(allow@),
            m.view_pairs() == forwarded(av.take(i as int), header_pairs(headers@)),
        decreases allow.len() - i,
    {
        proof {
            let t = av.take(i + 1);
            assert(t.drop_last() =~= av.take(i as int));
            assert(t.last() == allow[i as int]@);
        }
        match first_header(headers, allow[i].as_str()) {
            Some(v) => m.insert(allow[i].clone(), v),
            None => {},
        }
        i = i + 1;
    }
    assert(av.take(i as int) =~= av);
    m
}

} // verus!
