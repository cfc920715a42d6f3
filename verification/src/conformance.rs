//! Scripted seams for conformance vectors, and the request-side rules of
//! the host checker that replays webhook vectors against a candidate host.

use vstd::prelude::*;

use crate::client::{trim_slashes, trim_trailing_slashes};
use crate::declarative::{script_view, LlmItem};
use crate::envelope::{copy_strings, strs_view, DryRunPreview, PreviewV};
use crate::error::{HandlerError, LlmError};
use crate::json::{entry_get, json_view, map_view, Json, JsonMap, JsonNumber, JsonV, NumberV};
use crate::matcher::{match_value, outcome, value_match, Bindings};
use crate::seams::{items_view, AuthzDecision, CompletionItem, ItemV};
use crate::strmap::{key_get, KeyMap};
use crate::text::{concat2, concat3, decimal, push_decimal, push_str};

verus! {

/// The principal every vector runs as: identity is asserted through the
/// execution log, authorization is scripted.
#[derive(Clone, Copy, Debug)]
pub struct VectorPrincipal;

/// `"allow"` or `{"deny": "<reason>"}`.
#[derive(Debug)]
pub enum AuthzBehavior {
    /// Permit.
    Allow,
    /// Deny with reason.
    Deny(String),
}

/// Authorization script: one decision for every call, or a per-call
/// sequence with a tail.
#[derive(Debug)]
pub enum AuthzScript {
    /// Same decision on every call.
    Default { default: AuthzBehavior },
    /// Indexed by call count (propose-time, confirm-time, ...), falling back
    /// to `then`.
    Sequence { sequence: Vec<AuthzBehavior>, then: AuthzBehavior },
}

impl Default for AuthzScript {
    /// Allow every call.
    fn default() -> (s: AuthzScript)
        ensures
            s matches AuthzScript::Default { default: AuthzBehavior::Allow },
    {
        AuthzScript::Default { default: AuthzBehavior::Allow }
    }
}

/// The behavior a script prescribes for call number `call` (from 0).
pub open spec fn authz_behavior_at(s: AuthzScript, call: int) -> AuthzBehavior {
    match s {
        AuthzScript::Default { default } => default,
        AuthzScript::Sequence { sequence, then } => if 0 <= call < sequence.len() { sequence[call] } else { then },
    }
}

/// Whether `d` is the decision that behavior `b` stands for.
pub open spec fn decides(b: AuthzBehavior, d: AuthzDecision) -> bool {
    match b {
        AuthzBehavior::Allow => d is Allow,
        AuthzBehavior::Deny(reason) => d matches AuthzDecision::Deny(r) && r@ == reason@,
    }
}

/// The call counter after one more call (it wraps, as an atomic counter does).
pub open spec fn next_call(calls: usize) -> usize {
    if calls < usize::MAX { (calls + 1) as usize } else { 0 }
}

fn bump(calls: usize) -> (n: usize)
    ensures
        n == next_call(calls),
{
    if calls < usize::MAX { calls + 1 } else { 0 }
}

/// Scripted authorization: counts its calls and answers from the script.
#[derive(Debug)]
pub struct ScriptedAuthz {
    pub script: AuthzScript,
    pub calls: usize,
}

impl ScriptedAuthz {
    /// A resolver that has not been called yet.
    pub fn new(script: AuthzScript) -> (a: ScriptedAuthz)
        ensures
            a.script == script,
            a.calls == 0,
    {
        ScriptedAuthz { script, calls: 0 }
    }

    /// The decision for the next call.
    pub fn authorize(&mut self) -> (d: AuthzDecision)
        ensures
            decides(authz_behavior_at(old(self).script, old(self).calls as int), d),
            final(self).script == old(self).script,
            final(self).calls == next_call(old(self).calls),
    {
        let call = self.calls;
        self.calls = bump(call);
        let behavior = match &self.script {
            AuthzScript::Default { default } => default,
            AuthzScript::Sequence { sequence, then } => if call < sequence.len() {
                &sequence[call]
            } else {
                then
            },
        };
        match behavior {
            AuthzBehavior::Allow => AuthzDecision::Allow,
            AuthzBehavior::Deny(reason) => AuthzDecision::Deny(reason.clone()),
        }
    }
}

/// `{"return": <json>}` or `{"fail": "<message>"}`.
#[derive(Debug)]
pub enum HandlerScript {
    /// Succeed with this result.
    Return(Json),
    /// Fail with a rejection.
    Fail(String),
}

/// Whether `r` is what a handler scripted with `s` answers.
pub open spec fn handler_result(s: HandlerScript, r: Result<Json, HandlerError>) -> bool {
    match s {
        HandlerScript::Return(v) => r matches Ok(x) && json_view(x) == json_view(v),
        HandlerScript::Fail(m) => r matches Err(HandlerError::Rejected(x)) && x@ == m@,
    }
}

impl HandlerScript {
    /// The scripted outcome of an execution.
    pub fn outcome(&self) -> (r: Result<Json, HandlerError>)
        ensures
            handler_result(*self, r),
    {
        match self {
            HandlerScript::Return(v) => Ok(v.deep_clone()),
            HandlerScript::Fail(m) => Err(HandlerError::Rejected(m.clone())),
        }
    }
}

/// One executed action as the handler saw it.
#[derive(Debug)]
pub struct ExecutionExpectation {
    /// The executed action.
    pub action_id: String,
    /// The exact params the handler received.
    pub params: JsonMap,
}

/// A scripted handler: records each execution, then answers from its script.
#[derive(Debug)]
pub struct ScriptedHandler {
    pub action_id: String,
    pub script: HandlerScript,
}

impl ScriptedHandler {
    /// Records the call in `log` and returns the scripted outcome.
    pub fn execute(&self, params: &JsonMap, log: &mut Vec<ExecutionExpectation>) -> (r: Result<Json, HandlerError>)
        ensures
            handler_result(self.script, r),
            final(log)@.len() == old(log)@.len() + 1,
            final(log)@.take(old(log)@.len() as int) == old(log)@,
            final(log)@.last().action_id@ == self.action_id@,
            map_view(final(log)@.last().params) == map_view(*params),
    {
        log.push(ExecutionExpectation { action_id: self.action_id.clone(), params: params.deep_clone() });
        assert(log@.take(old(log)@.len() as int) =~= old(log)@);
        self.script.outcome()
    }
}

/// One dry-run behavior.
#[derive(Debug)]
pub enum DryRunBehavior {
    /// Succeed with this preview.
    Preview(DryRunPreview),
    /// Fail with a rejection.
    Fail(String),
}

/// A single dry-run behavior, or a per-call sequence with a tail.
#[derive(Debug)]
pub enum DryRunScript {
    /// Same behavior on every call.
    One(DryRunBehavior),
    /// Indexed by call count, falling back to `then`.
    Sequence { sequence: Vec<DryRunBehavior>, then: DryRunBehavior },
}

pub open spec fn dry_run_behavior_at(s: DryRunScript, call: int) -> DryRunBehavior {
    match s {
        DryRunScript::One(b) => b,
        DryRunScript::Sequence { sequence, then } => if 0 <= call < sequence.len() { sequence[call] } else { then },
    }
}

/// Whether `r` is what dry-run behavior `b` answers.
pub open spec fn dry_run_result(b: DryRunBehavior, r: Result<DryRunPreview, HandlerError>) -> bool {
    match b {
        DryRunBehavior::Preview(p) => r matches Ok(x) && x@ == p@,
        DryRunBehavior::Fail(m) => r matches Err(HandlerError::Rejected(x)) && x@ == m@,
    }
}

/// Scripted dry runs: counts its calls and answers from the script.
#[derive(Debug)]
pub struct ScriptedDryRun {
    pub script: DryRunScript,
    pub calls: usize,
}

impl ScriptedDryRun {
    /// A dry-run handler that has not been called yet.
    pub fn new(script: DryRunScript) -> (d: ScriptedDryRun)
        ensures
            d.script == script,
            d.calls == 0,
    {
        ScriptedDryRun { script, calls: 0 }
    }

    /// The preview (or failure) for the next call.
    pub fn dry_run(&mut self) -> (r: Result<DryRunPreview, HandlerError>)
        ensures
            dry_run_result(dry_run_behavior_at(old(self).script, old(self).calls as int), r),
            final(self).script == old(self).script,
            final(self).calls == next_call(old(self).calls),
    {
        let call = self.calls;
        self.calls = bump(call);
        let behavior = match &self.script {
            DryRunScript::One(b) => b,
            DryRunScript::Sequence { sequence, then } => if call < sequence.len() {
                &sequence[call]
            } else {
                then
            },
        };
        match behavior {
            DryRunBehavior::Preview(p) => Ok(p.copy()),
            DryRunBehavior::Fail(m) => Err(HandlerError::Rejected(m.clone())),
        }
    }
}

/// The model-output script that a scripted provider has left to give.
pub open spec fn turns_view(t: Seq<Vec<CompletionItem>>) -> Seq<Seq<ItemV>> {
    t.map_values(|turn: Vec<CompletionItem>| items_view(turn@))
}

/// A scripted model provider: one item list per invocation, in order.
/// Running out is a scripting error, reported as a provider failure.
#[derive(Debug)]
pub struct ScriptedLlm {
    turns: Vec<Vec<CompletionItem>>,
}

pub open spec fn exhausted_text() -> Seq<char> {
    "scripted llm exhausted — the script has fewer turns than the implementation requests (scripting error)"@
}

impl ScriptedLlm {
    /// The turns still to be given, in order.
    pub closed spec fn remaining(self) -> Seq<Seq<ItemV>> {
        turns_view(self.turns@)
    }

    /// A provider that gives `turns` in order.
    pub fn new(turns: &Vec<Vec<LlmItem>>) -> (p: ScriptedLlm)
        ensures
            p.remaining() == script_view(turns@),
    {
        let mut out: Vec<Vec<CompletionItem>> = Vec::new();
        let mut i: usize = 0;
        while i < turns.len()
            invariant
                i <= turns.len(),
                out.len() == i,
                forall|j: int| 0 <= j < i ==> items_view((#[trigger] out[j])@) == turns[j]@.map_values(|x: LlmItem| x@),
            decreases turns.len() - i,
        {
            let turn = &turns[i];
            let mut items: Vec<CompletionItem> = Vec::new();
            let mut k: usize = 0;
            while k < turn.len()
                invariant
                    k <= turn.len(),
                    items.len() == k,
                    forall|j: int| 0 <= j < k ==> (#[trigger] items[j])@ == turn[j]@,
                decreases turn.len() - k,
            {
                items.push(turn[k].copy().into_item());
                k = k + 1;
            }
            assert(items_view(items@) =~= turn@.map_values(|x: LlmItem| x@));
            out.push(items);
            i = i + 1;
        }
        let p = ScriptedLlm { turns: out };
        assert(p.remaining() =~= script_view(turns@));
        p
    }

    /// The next scripted turn; an exhausted script is a provider error.
    pub fn complete(&mut self) -> (r: Result<Vec<CompletionItem>, LlmError>)
        ensures
            old(self).remaining().len() == 0 ==> (r matches Err(LlmError::Provider(m)) && m@ == exhausted_text())
                && final(self).remaining() == old(self).remaining(),
            old(self).remaining().len() > 0 ==> (r matches Ok(items) && items_view(items@) == old(self).remaining()[0])
                && final(self).remaining() == old(self).remaining().drop_first(),
    {
        if self.turns.len() == 0 {
            return Err(
                LlmError::Provider(
                    "scripted llm exhausted — the script has fewer turns than the implementation requests (scripting error)".to_string(),
                ),
            );
        }
        let ghost before = self.turns@;
        let items = self.turns.remove(0);
        assert(turns_view(self.turns@) =~= turns_view(before).drop_first());
        Ok(items)
    }
}

/// Which loop drives a vector.
#[derive(Debug, Clone, Copy, PartialEq, Eq)]
pub enum Layer {
    /// Envelope events through the agent, stepped send/expect.
    Agent,
    /// Raw text frames through the JSON-frame session loop.
    Binding,
}

/// The candidate host under test.
#[derive(Debug)]
pub struct HostCheckTarget {
    /// Host origin, e.g. `https://your-app/`.
    pub base_url: String,
    /// The service secret the host expects.
    pub secret: String,
    /// The signing key, for hosts that require payload signatures.
    pub signing_key: Option<String>,
    /// Endpoint name to path overrides; the defaults are the standard paths.
    pub paths: KeyMap<String>,
}

/// The default path of an endpoint.
pub open spec fn default_endpoint_path(endpoint: Seq<char>) -> Seq<char> {
    "/cleverhans/"@ + endpoint
}

/// The path an endpoint is reached at: its override, else the default.
pub open spec fn endpoint_path(paths: Seq<(Seq<char>, String)>, endpoint: Seq<char>) -> Seq<char> {
    match key_get(paths, endpoint) {
        Some(p) => p@,
        None => default_endpoint_path(endpoint),
    }
}

impl HostCheckTarget {
    /// A target with the default endpoint paths and no signing key.
    pub fn new(base_url: String, secret: String) -> (t: HostCheckTarget)
        ensures
            t.base_url@ == base_url@,
            t.secret@ == secret@,
            t.signing_key is None,
            t.paths.pairs().len() == 0,
    {
        HostCheckTarget { base_url, secret, signing_key: None, paths: KeyMap::new() }
    }

    /// The path of an endpoint on this host.
    pub fn path(&self, endpoint: &str) -> (p: String)
        ensures
            p@ == endpoint_path(self.paths.pairs(), endpoint@),
    {
        match self.paths.get(endpoint) {
            Some(p) => p.clone(),
            None => concat2("/cleverhans/", endpoint),
        }
    }

    /// The URL a request to `endpoint` is posted to: the origin without
    /// trailing slashes, then the endpoint's path.
    pub fn url(&self, endpoint: &str) -> (u: String)
        ensures
            u@ == trim_trailing_slashes(self.base_url@) + endpoint_path(self.paths.pairs(), endpoint@),
    {
        let mut u = trim_slashes(self.base_url.as_str());
        let p = self.path(endpoint);
        push_str(&mut u, p.as_str());
        u
    }
}

/// The bearer credential a request presents.
#[derive(Debug, Clone, Copy, PartialEq, Eq)]
pub enum AuthMode {
    /// The configured secret.
    Valid,
    /// A wrong secret.
    Invalid,
    /// No `Authorization` header at all (`none` in vector files).
    Omitted,
}

/// The `Authorization` header a request carries, if any.
pub open spec fn authorization_text(mode: AuthMode, secret: Seq<char>) -> Option<Seq<char>> {
    match mode {
        AuthMode::Valid => Some("Bearer "@ + secret),
        AuthMode::Invalid => Some("Bearer definitely-wrong"@),
        AuthMode::Omitted => None,
    }
}

/// The `Authorization` header for a credential mode.
pub fn authorization(mode: AuthMode, secret: &str) -> (h: Option<String>)
    ensures
        match h {
            Some(s) => authorization_text(mode, secret@) == Some(s@),
            None => authorization_text(mode, secret@) is None,
        },
{
    match mode {
        AuthMode::Valid => Some(concat2("Bearer ", secret)),
        AuthMode::Invalid => Some("Bearer definitely-wrong".to_string()),
        AuthMode::Omitted => None,
    }
}

/// The deterministic delivery ID of request `index` (the checker asserts
/// host behavior, not service randomness).
pub fn delivery_id(index: u64) -> (s: String)
    ensures
        s@ == "host-check-"@ + decimal(index as nat),
{
    let mut s = "host-check-".to_string();
    push_decimal(&mut s, index);
    s
}

/// The webhook-version header a request carries: its override, else 1.
pub fn webhook_version_header(version: Option<u64>) -> (s: String)
    ensures
        s@ == decimal(
            match version {
                Some(v) => v as nat,
                None => 1,
            },
        ),
{
    let v = match version {
        Some(v) => v,
        None => 1,
    };
    let mut s = String::new();
    push_decimal(&mut s, v);
    s
}

/// How a vector concluded, when it did not fail.
#[derive(Debug, PartialEq, Eq)]
pub enum HostCheckOutcome {
    /// Every request matched.
    Passed,
    /// An optional vector hit a 404: the host does not implement the
    /// endpoint, which is conformant.
    Skipped(String),
}

/// An optional vector that meets a 404 is skipped, with this note.
pub open spec fn skip_text(endpoint: Seq<char>) -> Seq<char> {
    "endpoint `"@ + endpoint + "` not implemented (optional)"@
}

/// The outcome a response settles before any matching: a 404 on an
/// optional vector skips it; anything else goes on to matching.
pub fn skip_outcome(optional: bool, status: u16, endpoint: &str) -> (r: Option<HostCheckOutcome>)
    ensures
        (optional && status == 404) ==> (r matches Some(HostCheckOutcome::Skipped(m)) && m@ == skip_text(endpoint@)),
        !(optional && status == 404) ==> r is None,
{
    if optional && status == 404 {
        Some(HostCheckOutcome::Skipped(concat3("endpoint `", endpoint, "` not implemented (optional)")))
    } else {
        None
    }
}

/// Service deployment knobs a vector may pin.
#[derive(Debug)]
pub struct ServiceConfig {
    /// The service-to-service bearer secret.
    pub secret: String,
    /// Header forward-allowlist; absent means `authorization` and `cookie`.
    pub forward_headers: Option<Vec<String>>,
}

impl ServiceConfig {
    /// The forward-allowlist in effect.
    pub fn forward_list(&self) -> (v: Vec<String>)
        ensures
            strs_view(v@) == match self.forward_headers {
                Some(h) => strs_view(h@),
                None => seq!["authorization"@, "cookie"@],
            },
    {
        match &self.forward_headers {
            Some(h) => copy_strings(h),
            None => crate::config::default_forward_headers(),
        }
    }
}

} // verus!

verus! {

/// The outcome of checking one host response: the status first, then (when
/// a body is expected) the parsed body; the report names the request.
pub open spec fn response_check(
    expect_status: JsonV,
    expect_body: Option<JsonV>,
    index: nat,
    status: u16,
    text: Seq<char>,
    body: Result<JsonV, Seq<char>>,
    b: Seq<(Seq<char>, JsonV)>,
) -> (Seq<(Seq<char>, JsonV)>, Option<Seq<char>>) {
    let prefix = "request "@ + decimal(index);
    let s = value_match(
        expect_status,
        JsonV::Number(NumberV::PosInt(status as u64)),
        b,
        "request["@ + decimal(index) + "].status"@,
    );
    match s.1 {
        Some(err) => (s.0, Some(prefix + ": "@ + err + " (body: "@ + text + ")"@)),
        None => match expect_body {
            None => (s.0, None),
            Some(want) => match body {
                Err(e) => (s.0, Some(prefix + ": response body not JSON: "@ + e)),
                Ok(got) => {
                    let r = value_match(want, got, s.0, "request["@ + decimal(index) + "].body"@);
                    match r.1 {
                        Some(err) => (r.0, Some(prefix + ": "@ + err)),
                        None => (r.0, None),
                    }
                },
            },
        },
    }
}

/// Checks one host response against its expectation: the status, then the
/// body when one is expected (`body` is the response text parsed as JSON,
/// or the parser's message).
pub fn check_response(
    expect_status: &Json,
    expect_body: Option<&Json>,
    index: u64,
    status: u16,
    text: &str,
    body: Result<Json, String>,
    bindings: &mut Bindings,
) -> (r: Result<(), String>)
    ensures
        (final(bindings).bound(), outcome(r)) == response_check(
            json_view(*expect_status),
            match expect_body {
                Some(j) => Some(json_view(*j)),
                None => None,
            },
            index as nat,
            status,
            text@,
            match body {
                Ok(j) => Ok(json_view(j)),
                Err(e) => Err(e@),
            },
            old(bindings).bound(),
        ),
{
    let mut prefix = "request ".to_string();
    push_decimal(&mut prefix, index);
    let mut status_path = "request[".to_string();
    push_decimal(&mut status_path, index);
    push_str(&mut status_path, "].status");
    let actual = Json::Number(JsonNumber::PosInt(status as u64));
    match match_value(expect_status, &actual, bindings, status_path.as_str()) {
        Err(err) => {
            let mut m = concat2(prefix.as_str(), ": ");
            push_str(&mut m, err.as_str());
            push_str(&mut m, " (body: ");
            push_str(&mut m, text);
            push_str(&mut m, ")");
            return Err(m);
        },
        Ok(()) => {},
    }
    match expect_body {
        None => Ok(()),
        Some(want) => match body {
            Err(e) => {
                let mut m = concat2(prefix.as_str(), ": response body not JSON: ");
                push_str(&mut m, e.as_str());
                Err(m)
            },
            Ok(got) => {
                let mut body_path = "request[".to_string();
                push_decimal(&mut body_path, index);
                push_str(&mut body_path, "].body");
                match match_value(want, &got, bindings, body_path.as_str()) {
                    Err(err) => {
                        let mut m = concat2(prefix.as_str(), ": ");
                        push_str(&mut m, err.as_str());
                        Err(m)
                    },
                    Ok(()) => Ok(()),
                }
            },
        },
    }
}

} // verus!

verus! {

/// An event's `type` field when it is a string, else empty.
pub open spec fn event_type(e: JsonV) -> Seq<char> {
    match e {
        JsonV::Object(es) => match entry_get(es, "type"@) {
            Some(JsonV::String(t)) => t,
            _ => Seq::empty(),
        },
        _ => Seq::empty(),
    }
}

/// A chat delta that is not the final one.
pub open spec fn unfinished_delta(e: JsonV) -> bool {
    event_type(e) == "chat_message"@ && match e {
        JsonV::Object(es) => entry_get(es, "done"@) == Some(JsonV::Bool(false)),
        _ => false,
    }
}

/// Whether an event takes part in matching: its type is not ignored, and it
/// is not an unfinished chat delta (unless deltas are kept).
pub open spec fn normative(e: JsonV, ignore: Seq<Seq<char>>, keep_deltas: bool) -> bool {
    !ignore.contains(event_type(e)) && (keep_deltas || !unfinished_delta(e))
}

/// The normative events, in order.
pub open spec fn normative_events(events: Seq<JsonV>, ignore: Seq<Seq<char>>, keep_deltas: bool) -> Seq<JsonV>
    decreases events.len(),
{
    if events.len() == 0 {
        Seq::empty()
    } else {
        let rest = normative_events(events.drop_last(), ignore, keep_deltas);
        if normative(events.last(), ignore, keep_deltas) {
            rest.push(events.last())
        } else {
            rest
        }
    }
}

fn type_of(e: &Json) -> (t: String)
    ensures
        t@ == event_type(json_view(*e)),
{
    match e {
        Json::Object(m) => match m.get("type") {
            Some(Json::String(t)) => t.clone(),
            _ => String::new(),
        },
        _ => String::new(),
    }
}

fn contains_str(v: &Vec<String>, s: &str) -> (r: bool)
    ensures
        r == strs_view(v@).contains(s@),
{
    let mut i: usize = 0;
    while i < v.len()
        invariant
            i <= v.len(),
            forall|j: int| 0 <= j < i ==> v[j]@ != s@,
        decreases v.len() - i,
    {
        if crate::text::str_eq(v[i].as_str(), s) {
            assert(strs_view(v@)[i as int] == s@);
            return true;
        }
        i = i + 1;
    }
    proof {
        if strs_view(v@).contains(s@) {
            let k = choose|k: int| 0 <= k < strs_view(v@).len() && strs_view(v@)[k] == s@;
            assert(v[k]@ == s@);
        }
    }
    false
}

/// Drops non-normative events before matching: unfinished chat deltas
/// (their count is an implementation detail) unless kept, and every event
/// of an ignored type.
pub fn normalize(events: Vec<Json>, ignore_types: &Vec<String>, keep_deltas: bool) -> (r: Vec<Json>)
    ensures
        crate::json::array_view(r) == normative_events(crate::json::array_view(events), strs_view(ignore_types@), keep_deltas),
{
    let ghost ev = crate::json::array_view(events);
    let ghost ig = strs_view(ignore_types@);
    let mut out: Vec<Json> = Vec::new();
    let mut rest = events;
    let mut k: usize = 0;
    assert(ev.take(0) =~= Seq::<JsonV>::empty());
    assert(crate::json::array_view(out) =~= Seq::<JsonV>::empty());
    while rest.len() > 0
        invariant
            k + rest.len() == ev.len(),
            ev.len() <= usize::MAX,
            crate::json::array_view(rest) == ev.skip(k as int),
            crate::json::array_view(out) == normative_events(ev.take(k as int), ig, keep_deltas),
            ig == strs_view(ignore_types@),
        decreases rest.len(),
    {
        let ghost before = crate::json::array_view(rest);
        let e = rest.remove(0);
        assert(json_view(e) == ev[k as int]) by {
            assert(before[0] == ev.skip(k as int)[0]);
        }
        assert(crate::json::array_view(rest) =~= ev.skip(k + 1)) by {
            assert forall|j: int| 0 <= j < rest.len() implies crate::json::array_view(rest)[j] == ev.skip(k + 1)[j] by {
                assert(before[j + 1] == ev.skip(k as int)[j + 1]);
            }
        }
        assert(ev.take(k + 1).drop_last() =~= ev.take(k as int));
        assert(ev.take(k + 1).last() == ev[k as int]);
        let t = type_of(&e);
        let ignored = contains_str(ignore_types, t.as_str());
        let delta = crate::text::str_eq(t.as_str(), "chat_message") && match &e {
            Json::Object(m) => match m.get("done") {
                Some(Json::Bool(b)) => !*b,
                _ => false,
            },
            _ => false,
        };
        proof {
            if let JsonV::Object(es) = json_view(e) {
                if let Some(d) = entry_get(es, "done"@) {
                    assert(d == JsonV::Bool(false) <==> (d matches JsonV::Bool(b) && !b));
                }
            }
        }
        assert(delta == unfinished_delta(json_view(e)));
        let ghost before_out = crate::json::array_view(out);
        if !ignored && (keep_deltas || !delta) {
            out.push(e);
            assert(crate::json::array_view(out) =~= before_out.push(ev[k as int]));
        }
        k = k + 1;
    }
    assert(ev.take(k as int) =~= ev);
    out
}

} // verus!
