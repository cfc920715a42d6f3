//! A known-good host's decisions: the header discipline every delivery
//! passes, the scripted answers of the webhook endpoints, the delivery log
//! and idempotent replay of executions. The HTTP transport hands each
//! request to [`HostState::handle`] and sends back what it answers.

use vstd::prelude::*;
use vstd::string::StringSliceAdditionalSpecFns;

use crate::conformance::{
    authz_behavior_at, dry_run_behavior_at, next_call, AuthzBehavior, AuthzScript, DryRunBehavior, DryRunScript,
    ExecutionExpectation, HandlerScript,
};
use crate::declarative::DeclarativeSlots;
use crate::seams::SlotBuilder;
use crate::envelope::{strs_view, DryRunPreview, PreviewV};
use crate::json::{
    array_view, entries_insert, entry_get, json_view, map_view, Json, JsonMap, JsonNumber, JsonV, NumberV,
};
use crate::schema::RegistrySchema;
use crate::sign::{keys_view, verify_outcome, verify_signature, DEFAULT_SKEW_SECS, SIGNATURE_HEADER};
use crate::strmap::{key_get, key_insert, KeyMap, StrMap};
use crate::text::{concat2, concat3};

verus! {

/// Endpoint paths a host serves.
pub const VERIFY_SESSION_PATH: &'static str = "/cleverhans/verify_session";
/// See [`VERIFY_SESSION_PATH`].
pub const AUTHORIZE_PATH: &'static str = "/cleverhans/authorize";
/// See [`VERIFY_SESSION_PATH`].
pub const DRY_RUN_PATH: &'static str = "/cleverhans/dry_run";
/// See [`VERIFY_SESSION_PATH`].
pub const EXECUTE_PATH: &'static str = "/cleverhans/execute";
/// See [`VERIFY_SESSION_PATH`]; answered only for actions with a slot
/// script.
pub const BUILD_SLOTS_PATH: &'static str = "/cleverhans/build_slots";

/// One HTTP answer: a status and a JSON body.
#[derive(Debug)]
pub struct HostResponse {
    pub status: u16,
    pub body: Json,
}

/// Model of a [`HostResponse`].
pub struct ReplyV {
    pub status: u16,
    pub body: JsonV,
}

impl View for HostResponse {
    type V = ReplyV;

    open spec fn view(&self) -> ReplyV {
        ReplyV { status: self.status, body: json_view(self.body) }
    }
}

impl HostResponse {
    /// A copy of this answer.
    pub fn copy(&self) -> (r: HostResponse)
        ensures
            r@ == self@,
    {
        HostResponse { status: self.status, body: self.body.deep_clone() }
    }
}

/// `{key: value}`.
pub open spec fn obj1(k: Seq<char>, v: JsonV) -> JsonV {
    JsonV::Object(entries_insert(Seq::empty(), k, v))
}

/// `{k1: v1, k2: v2}`.
pub open spec fn obj2(k1: Seq<char>, v1: JsonV, k2: Seq<char>, v2: JsonV) -> JsonV {
    JsonV::Object(entries_insert(entries_insert(Seq::empty(), k1, v1), k2, v2))
}

fn object1(k: &str, v: Json) -> (j: Json)
    ensures
        json_view(j) == obj1(k@, json_view(v)),
{
    let mut m = JsonMap::new();
    m.insert(k.to_owned(), v);
    Json::Object(m)
}

fn object2(k1: &str, v1: Json, k2: &str, v2: Json) -> (j: Json)
    ensures
        json_view(j) == obj2(k1@, json_view(v1), k2@, json_view(v2)),
{
    let mut m = JsonMap::new();
    m.insert(k1.to_owned(), v1);
    m.insert(k2.to_owned(), v2);
    Json::Object(m)
}

/// `{"error": message}` under `status`.
pub open spec fn error_reply(status: u16, message: Seq<char>) -> ReplyV {
    ReplyV { status, body: obj1("error"@, JsonV::String(message)) }
}

fn error_response(status: u16, message: String) -> (r: HostResponse)
    ensures
        r@ == error_reply(status, message@),
{
    HostResponse { status, body: object1("error", Json::String(message)) }
}

/// The principal a host answers `verify_session` with when unscripted.
pub open spec fn default_principal_v() -> JsonV {
    obj1("user_id"@, JsonV::String("vector-user"@))
}

/// The principal a host answers `verify_session` with when unscripted.
pub fn default_principal() -> (j: Json)
    ensures
        json_view(j) == default_principal_v(),
{
    object1("user_id", Json::String("vector-user".to_owned()))
}

/// The refusal of a wrong or absent contract version.
pub open spec fn version_refusal() -> ReplyV {
    ReplyV {
        status: 400,
        body: obj2(
            "error"@,
            JsonV::String("unsupported_webhook_version"@),
            "supported"@,
            JsonV::Array(seq![JsonV::Number(NumberV::PosInt(1))]),
        ),
    }
}

/// The header discipline: the bearer secret, then the contract version,
/// then (when the host holds a signing key) a valid signature over the
/// exact received bytes. `None` admits the delivery.
pub open spec fn header_refusal(
    secret: Seq<char>,
    key: Option<Seq<u8>>,
    headers: Seq<(Seq<char>, Seq<char>)>,
    body: Seq<u8>,
    now: u64,
) -> Option<ReplyV> {
    if key_get(headers, "authorization"@) != Some("Bearer "@ + secret) {
        Some(error_reply(401, "bad secret"@))
    } else if key_get(headers, "x-cleverhans-webhook-version"@) != Some("1"@) {
        Some(version_refusal())
    } else {
        match key {
            None => None,
            Some(k) => match key_get(headers, SIGNATURE_HEADER@) {
                Some(h) => if verify_outcome(seq![k], h, body, now, DEFAULT_SKEW_SECS) is Ok {
                    None
                } else {
                    Some(error_reply(401, "bad signature"@))
                },
                None => Some(error_reply(401, "bad signature"@)),
            },
        }
    }
}

/// Checks a delivery's headers (names lower case) against the discipline;
/// `now` is the receiver's clock in Unix seconds.
pub fn check_headers(
    secret: &str,
    signing_key: Option<&str>,
    headers: &StrMap,
    raw_body: &[u8],
    now: u64,
) -> (r: Result<(), HostResponse>)
    ensures
        match header_refusal(
            secret@,
            match signing_key {
                Some(k) => Some(k.spec_bytes()),
                None => None,
            },
            headers.view_pairs(),
            raw_body@,
            now,
        ) {
            None => r is Ok,
            Some(v) => r matches Err(x) && x@ == v,
        },
{
    let expected = concat2("Bearer ", secret);
    let authorized = match headers.get("authorization") {
        Some(v) => crate::text::str_eq(v.as_str(), expected.as_str()),
        None => false,
    };
    if !authorized {
        return Err(error_response(401, "bad secret".to_owned()));
    }
    let version_ok = match headers.get("x-cleverhans-webhook-version") {
        Some(v) => crate::text::str_eq(v.as_str(), "1"),
        None => false,
    };
    if !version_ok {
        let mut supported: Vec<Json> = Vec::new();
        supported.push(Json::Number(JsonNumber::PosInt(1)));
        let body = object2(
            "error",
            Json::String("unsupported_webhook_version".to_owned()),
            "supported",
            Json::Array(supported),
        );
        proof {
            assert(array_view(supported) =~= seq![JsonV::Number(NumberV::PosInt(1))]);
        }
        return Err(HostResponse { status: 400, body });
    }
    match signing_key {
        None => Ok(()),
        Some(k) => match headers.get(SIGNATURE_HEADER) {
            Some(h) => {
                let mut keys: Vec<Vec<u8>> = Vec::new();
                keys.push(vstd::slice::slice_to_vec(k.as_bytes()));
                let verified = verify_signature(&keys, h.as_str(), raw_body, now, DEFAULT_SKEW_SECS);
                proof {
                    assert(keys_view(keys@) =~= seq![k.spec_bytes()]);
                }
                if verified.is_ok() {
                    Ok(())
                } else {
                    Err(error_response(401, "bad signature".to_owned()))
                }
            },
            None => Err(error_response(401, "bad signature".to_owned())),
        },
    }
}


/// One scripted answer override for an endpoint.
#[derive(Debug)]
pub struct HostBehavior {
    /// Answer with this status and body.
    pub respond: Option<HostResponse>,
    /// Hold the answer past any sane client timeout.
    pub timeout: bool,
}

/// Model of a [`HostBehavior`].
pub struct BehaviorV {
    pub respond: Option<ReplyV>,
    pub timeout: bool,
}

impl View for HostBehavior {
    type V = BehaviorV;

    open spec fn view(&self) -> BehaviorV {
        BehaviorV {
            respond: match self.respond {
                Some(r) => Some(r@),
                None => None,
            },
            timeout: self.timeout,
        }
    }
}

impl HostBehavior {
    /// A copy of this behavior.
    pub fn copy(&self) -> (r: HostBehavior)
        ensures
            r@ == self@,
    {
        HostBehavior {
            respond: match &self.respond {
                Some(x) => Some(x.copy()),
                None => None,
            },
            timeout: self.timeout,
        }
    }
}

/// One recorded webhook delivery.
#[derive(Debug)]
pub struct Delivery {
    /// Endpoint name (`verify_session`, `authorize`, `dry_run`, `execute`,
    /// `build_slots`).
    pub endpoint: String,
    /// Request headers, names lower case.
    pub headers: StrMap,
    /// The parsed body (`null` when it did not parse).
    pub body: Json,
}

/// Model of a [`Delivery`].
pub struct DeliveryV {
    pub endpoint: Seq<char>,
    pub headers: Seq<(Seq<char>, Seq<char>)>,
    pub body: JsonV,
}

impl View for Delivery {
    type V = DeliveryV;

    open spec fn view(&self) -> DeliveryV {
        DeliveryV { endpoint: self.endpoint@, headers: self.headers.view_pairs(), body: json_view(self.body) }
    }
}

/// Headers as a JSON object of strings.
pub open spec fn headers_value(h: Seq<(Seq<char>, Seq<char>)>) -> JsonV {
    JsonV::Object(h.map_values(|p: (Seq<char>, Seq<char>)| (p.0, JsonV::String(p.1))))
}

/// A delivery as a matchable value: `{"body", "endpoint", "headers"}`.
pub open spec fn delivery_value(d: DeliveryV) -> JsonV {
    JsonV::Object(
        entries_insert(
            entries_insert(entries_insert(Seq::empty(), "endpoint"@, JsonV::String(d.endpoint)), "headers"@, headers_value(d.headers)),
            "body"@,
            d.body,
        ),
    )
}

impl Delivery {
    /// The delivery as a matchable JSON value.
    pub fn to_value(&self) -> (j: Json)
        ensures
            json_view(j) == delivery_value(self@),
    {
        let n = self.headers.len();
        let ghost hv = self.headers.view_pairs();
        let mut hm = JsonMap::new();
        let mut i: usize = 0;
        while i < n
            invariant
                i <= n,
                n == hv.len(),
                hv == self.headers.view_pairs(),
                crate::strmap::pair_keys_sorted(hv),
                map_view(hm) == hv.take(i as int).map_values(|p: (Seq<char>, Seq<char>)| (p.0, JsonV::String(p.1))),
            decreases n - i,
        {
            let k = self.headers.key_at(i);
            let v = self.headers.value_at(i);
            proof {
                assert forall|j: int| 0 <= j < map_view(hm).len() implies crate::text::lex_lt(
                    #[trigger] map_view(hm)[j].0,
                    k@,
                ) by {
                    assert(map_view(hm)[j].0 == hv[j].0);
                }
            }
            hm.push_last(k.clone(), Json::String(v.clone()));
            assert(map_view(hm) =~= hv.take(i + 1).map_values(|p: (Seq<char>, Seq<char>)| (p.0, JsonV::String(p.1))));
            i = i + 1;
        }
        assert(hv.take(n as int) =~= hv);
        let mut m = JsonMap::new();
        m.insert("endpoint".to_owned(), Json::String(self.endpoint.clone()));
        m.insert("headers".to_owned(), Json::Object(hm));
        m.insert("body".to_owned(), self.body.deep_clone());
        Json::Object(m)
    }
}


/// Scripted seam behaviors for one action.
#[derive(Debug)]
pub struct ActionScript {
    /// What executing the action answers.
    pub handler: HandlerScript,
    /// What a dry run answers; required of mutating actions.
    pub dry_run: Option<DryRunScript>,
    /// The declarative slot table; absent means no slot endpoint.
    pub slots: Option<DeclarativeSlots>,
}

/// A registry fixture: the registry document and per-action scripts.
#[derive(Debug)]
pub struct Fixture {
    /// The fixture's name, as vectors reference it.
    pub name: String,
    /// The registry document.
    pub registry: RegistrySchema,
    /// Seam scripts by action ID.
    pub scripts: KeyMap<ActionScript>,
}

/// The endpoints a host serves.
#[derive(Debug, Clone, Copy, PartialEq, Eq, Structural)]
pub enum HostEndpoint {
    VerifySession,
    Authorize,
    DryRun,
    Execute,
    BuildSlots,
}

pub open spec fn endpoint_name(e: HostEndpoint) -> Seq<char> {
    match e {
        HostEndpoint::VerifySession => "verify_session"@,
        HostEndpoint::Authorize => "authorize"@,
        HostEndpoint::DryRun => "dry_run"@,
        HostEndpoint::Execute => "execute"@,
        HostEndpoint::BuildSlots => "build_slots"@,
    }
}

impl HostEndpoint {
    /// The endpoint's name, as deliveries and overrides key it.
    pub fn name(&self) -> (s: &'static str)
        ensures
            s@ == endpoint_name(*self),
    {
        match self {
            HostEndpoint::VerifySession => "verify_session",
            HostEndpoint::Authorize => "authorize",
            HostEndpoint::DryRun => "dry_run",
            HostEndpoint::Execute => "execute",
            HostEndpoint::BuildSlots => "build_slots",
        }
    }

    /// The endpoint a request path names, for the default paths.
    pub fn from_path(path: &str) -> (r: Option<HostEndpoint>)
        ensures
            r == (if path@ == VERIFY_SESSION_PATH@ {
                Some(HostEndpoint::VerifySession)
            } else if path@ == AUTHORIZE_PATH@ {
                Some(HostEndpoint::Authorize)
            } else if path@ == DRY_RUN_PATH@ {
                Some(HostEndpoint::DryRun)
            } else if path@ == EXECUTE_PATH@ {
                Some(HostEndpoint::Execute)
            } else if path@ == BUILD_SLOTS_PATH@ {
                Some(HostEndpoint::BuildSlots)
            } else {
                None
            }),
    {
        if crate::text::str_eq(path, VERIFY_SESSION_PATH) {
            Some(HostEndpoint::VerifySession)
        } else if crate::text::str_eq(path, AUTHORIZE_PATH) {
            Some(HostEndpoint::Authorize)
        } else if crate::text::str_eq(path, DRY_RUN_PATH) {
            Some(HostEndpoint::DryRun)
        } else if crate::text::str_eq(path, EXECUTE_PATH) {
            Some(HostEndpoint::Execute)
        } else if crate::text::str_eq(path, BUILD_SLOTS_PATH) {
            Some(HostEndpoint::BuildSlots)
        } else {
            None
        }
    }
}

/// A string field of a request body; empty when absent or not a string.
pub open spec fn text_field(body: JsonV, k: Seq<char>) -> Seq<char> {
    match body {
        JsonV::Object(es) => match entry_get(es, k) {
            Some(JsonV::String(s)) => s,
            _ => Seq::empty(),
        },
        _ => Seq::empty(),
    }
}

/// An object field of a request body; empty when absent or not an object.
pub open spec fn object_field(body: JsonV, k: Seq<char>) -> Seq<(Seq<char>, JsonV)> {
    match body {
        JsonV::Object(es) => match entry_get(es, k) {
            Some(JsonV::Object(m)) => m,
            _ => Seq::empty(),
        },
        _ => Seq::empty(),
    }
}

/// The preview a request body carries: absent, `null` and values that do
/// not decode all read as none.
pub open spec fn preview_field(body: JsonV) -> Option<PreviewV> {
    match body {
        JsonV::Object(es) => match entry_get(es, "preview"@) {
            None => None,
            Some(JsonV::Null) => None,
            Some(v) => crate::envelope::preview_decoded(v),
        },
        _ => None,
    }
}

fn text_field_of(body: &Json, k: &str) -> (r: String)
    ensures
        r@ == text_field(json_view(*body), k@),
{
    match body {
        Json::Object(m) => match m.get(k) {
            Some(Json::String(s)) => s.clone(),
            _ => String::new(),
        },
        _ => String::new(),
    }
}

fn object_field_of(body: &Json, k: &str) -> (r: JsonMap)
    ensures
        map_view(r) == object_field(json_view(*body), k@),
{
    match body {
        Json::Object(m) => match m.get(k) {
            Some(Json::Object(o)) => o.deep_clone(),
            _ => JsonMap::new(),
        },
        _ => JsonMap::new(),
    }
}

fn preview_field_of(body: &Json) -> (r: Option<DryRunPreview>)
    ensures
        match preview_field(json_view(*body)) {
            Some(p) => r matches Some(x) && x@ == p,
            None => r is None,
        },
{
    match body {
        Json::Object(m) => match m.get("preview") {
            None => None,
            Some(Json::Null) => None,
            Some(v) => crate::envelope::preview_from_json(v),
        },
        _ => None,
    }
}

/// A counter's value; zero when the key was never counted.
pub open spec fn count_in(es: Seq<(Seq<char>, usize)>, k: Seq<char>) -> usize {
    match key_get(es, k) {
        Some(c) => c,
        None => 0,
    }
}

fn count_of(m: &KeyMap<usize>, k: &str) -> (c: usize)
    ensures
        c == count_in(m.pairs(), k@),
{
    match m.get(k) {
        Some(c) => *c,
        None => 0,
    }
}

/// The answer an authorization behavior gives.
pub open spec fn authz_reply(b: AuthzBehavior) -> ReplyV {
    match b {
        AuthzBehavior::Allow => ReplyV { status: 200, body: obj1("decision"@, JsonV::String("allow"@)) },
        AuthzBehavior::Deny(r) => ReplyV {
            status: 200,
            body: obj2("decision"@, JsonV::String("deny"@), "reason"@, JsonV::String(r@)),
        },
    }
}

/// The answer a dry-run behavior gives.
pub open spec fn dry_run_reply(b: DryRunBehavior) -> ReplyV {
    match b {
        DryRunBehavior::Preview(p) => ReplyV {
            status: 200,
            body: obj2("outcome"@, JsonV::String("preview"@), "preview"@, crate::envelope::preview_value(p@)),
        },
        DryRunBehavior::Fail(m) => ReplyV {
            status: 200,
            body: obj2("outcome"@, JsonV::String("rejected"@), "reason"@, JsonV::String(m@)),
        },
    }
}

/// The answer body a handler script gives.
pub open spec fn handler_body(h: HandlerScript) -> JsonV {
    match h {
        HandlerScript::Return(v) => obj2("outcome"@, JsonV::String("executed"@), "result"@, json_view(v)),
        HandlerScript::Fail(m) => obj2("outcome"@, JsonV::String("rejected"@), "reason"@, JsonV::String(m@)),
    }
}

/// The state a host's answers depend on and change.
pub struct HostView {
    /// Every admitted delivery, in order.
    pub deliveries: Seq<DeliveryV>,
    /// Every successful execution: action ID and params.
    pub executions: Seq<(Seq<char>, Seq<(Seq<char>, JsonV)>)>,
    /// Idempotency key to first answer.
    pub executed: Seq<(Seq<char>, JsonV)>,
    /// Per-endpoint override cursors.
    pub cursors: Seq<(Seq<char>, usize)>,
    /// Authorize calls so far.
    pub authz_calls: usize,
    /// Dry-run calls so far, by action.
    pub dry_run_calls: Seq<(Seq<char>, usize)>,
}

pub open spec fn not_found(message: Seq<char>) -> ReplyV {
    error_reply(404, message)
}

/// How an endpoint answers a request body, and what that changes.
pub open spec fn endpoint_answer(
    scripts: Seq<(Seq<char>, ActionScript)>,
    authz: AuthzScript,
    v: HostView,
    e: HostEndpoint,
    body: JsonV,
) -> (HostView, ReplyV) {
    let id = text_field(body, "action_id"@);
    match e {
        HostEndpoint::VerifySession => (v, ReplyV { status: 200, body: obj1("principal"@, default_principal_v()) }),
        HostEndpoint::Authorize => (
            HostView { authz_calls: next_call(v.authz_calls), ..v },
            authz_reply(authz_behavior_at(authz, v.authz_calls as int)),
        ),
        HostEndpoint::DryRun => match key_get(scripts, id) {
            Some(s) => match s.dry_run {
                Some(ds) => {
                    let c = count_in(v.dry_run_calls, id);
                    (
                        HostView { dry_run_calls: key_insert(v.dry_run_calls, id, next_call(c)), ..v },
                        dry_run_reply(dry_run_behavior_at(ds, c as int)),
                    )
                },
                None => (v, not_found("no dry_run script for `"@ + id + "`"@)),
            },
            None => (v, not_found("no dry_run script for `"@ + id + "`"@)),
        },
        HostEndpoint::BuildSlots => match key_get(scripts, id) {
            Some(s) => match s.slots {
                Some(t) => (
                    v,
                    ReplyV {
                        status: 200,
                        body: obj1(
                            "slots"@,
                            JsonV::Object(
                                crate::declarative::built_slots(t.table(), object_field(body, "params"@), preview_field(body)),
                            ),
                        ),
                    },
                ),
                None => (v, not_found("no slot script for `"@ + id + "`"@)),
            },
            None => (v, not_found("no slot script for `"@ + id + "`"@)),
        },
        HostEndpoint::Execute => execute_answer(scripts, v, body),
    }
}

/// How the execute endpoint answers: an answered idempotency key replays
/// its first answer; otherwise the action's handler script answers, a
/// successful execution is logged, and a non-empty key keeps the answer.
pub open spec fn execute_answer(scripts: Seq<(Seq<char>, ActionScript)>, v: HostView, body: JsonV) -> (HostView, ReplyV) {
    let id = text_field(body, "action_id"@);
    let key = text_field(body, "idempotency_key"@);
    match key_get(v.executed, key) {
        Some(prev) => (v, ReplyV { status: 200, body: prev }),
        None => match key_get(scripts, id) {
            None => (v, not_found("no script for `"@ + id + "`"@)),
            Some(s) => {
                let answer = handler_body(s.handler);
                let executions = match s.handler {
                    HandlerScript::Return(_) => v.executions.push((id, object_field(body, "params"@))),
                    HandlerScript::Fail(_) => v.executions,
                };
                let executed = if key.len() > 0 {
                    key_insert(v.executed, key, answer)
                } else {
                    v.executed
                };
                (HostView { executions, executed, ..v }, ReplyV { status: 200, body: answer })
            },
        },
    }
}

/// The override an endpoint's script picks at a cursor: the cursor's
/// entry, the last one once the script is exhausted, none for an empty
/// script.
pub open spec fn override_at(script: Seq<HostBehavior>, c: usize) -> Option<BehaviorV> {
    if c < script.len() {
        Some(script[c as int]@)
    } else if script.len() > 0 {
        Some(script.last()@)
    } else {
        None
    }
}

/// The cursors after an endpoint consults its override script, and the
/// override picked.
pub open spec fn override_pick(
    overrides: Seq<(Seq<char>, Vec<HostBehavior>)>,
    cursors: Seq<(Seq<char>, usize)>,
    name: Seq<char>,
) -> (Seq<(Seq<char>, usize)>, Option<BehaviorV>) {
    match key_get(overrides, name) {
        None => (cursors, None),
        Some(script) => {
            let c = count_in(cursors, name);
            match override_at(script@, c) {
                None => (key_insert(cursors, name, c), None),
                Some(b) => (key_insert(cursors, name, next_call(c)), Some(b)),
            }
        },
    }
}

/// What a host sends back: the answer, and whether to hold it past the
/// client's timeout first.
#[derive(Debug)]
pub struct HostAnswer {
    pub stall: bool,
    pub response: HostResponse,
}

pub open spec fn executions_view(v: Seq<ExecutionExpectation>) -> Seq<(Seq<char>, Seq<(Seq<char>, JsonV)>)> {
    v.map_values(|x: ExecutionExpectation| (x.action_id@, map_view(x.params)))
}

pub open spec fn answers_view(es: Seq<(Seq<char>, Json)>) -> Seq<(Seq<char>, JsonV)> {
    crate::strmap::map_entries(es, |j: Json| json_view(j))
}

/// A known-good host: its configuration, scripts and the state its
/// answers keep.
#[derive(Debug)]
pub struct HostState {
    pub secret: String,
    /// When set, every delivery must carry a valid signature under it.
    pub signing_key: Option<String>,
    pub fixture: Fixture,
    pub authz: AuthzScript,
    /// Per-endpoint override scripts, by endpoint name.
    pub overrides: KeyMap<Vec<HostBehavior>>,
    pub deliveries: Vec<Delivery>,
    pub executions: Vec<ExecutionExpectation>,
    /// Idempotency key to the first answer.
    pub executed: KeyMap<Json>,
    pub cursors: KeyMap<usize>,
    pub authz_calls: usize,
    pub dry_run_calls: KeyMap<usize>,
}

impl View for HostState {
    type V = HostView;

    open spec fn view(&self) -> HostView {
        HostView {
            deliveries: self.deliveries@.map_values(|d: Delivery| d@),
            executions: executions_view(self.executions@),
            executed: answers_view(self.executed.pairs()),
            cursors: self.cursors.pairs(),
            authz_calls: self.authz_calls,
            dry_run_calls: self.dry_run_calls.pairs(),
        }
    }
}


fn bumped(c: usize) -> (n: usize)
    ensures
        n == next_call(c),
{
    if c < usize::MAX {
        c + 1
    } else {
        0
    }
}

fn outcome_reason(outcome: &str, reason: &String) -> (j: Json)
    ensures
        json_view(j) == obj2("outcome"@, JsonV::String(outcome@), "reason"@, JsonV::String(reason@)),
{
    object2("outcome", Json::String(outcome.to_owned()), "reason", Json::String(reason.clone()))
}

impl HostState {
    /// A host with nothing delivered yet.
    pub fn new(
        secret: String,
        signing_key: Option<String>,
        fixture: Fixture,
        authz: AuthzScript,
        overrides: KeyMap<Vec<HostBehavior>>,
    ) -> (h: HostState)
        ensures
            h.secret == secret,
            h.signing_key == signing_key,
            h.fixture == fixture,
            h.authz == authz,
            h.overrides == overrides,
            h@.deliveries.len() == 0,
            h@.executions.len() == 0,
            h@.executed.len() == 0,
            h@.cursors.len() == 0,
            h@.authz_calls == 0,
            h@.dry_run_calls.len() == 0,
    {
        HostState {
            secret,
            signing_key,
            fixture,
            authz,
            overrides,
            deliveries: Vec::new(),
            executions: Vec::new(),
            executed: KeyMap::new(),
            cursors: KeyMap::new(),
            authz_calls: 0,
            dry_run_calls: KeyMap::new(),
        }
    }

    fn answer_authorize(&mut self) -> (r: HostResponse)
        ensures
            final(self).secret == old(self).secret,
            final(self).signing_key == old(self).signing_key,
            final(self).fixture == old(self).fixture,
            final(self).authz == old(self).authz,
            final(self).overrides == old(self).overrides,
            (final(self)@, r@) == endpoint_answer(
                old(self).fixture.scripts.pairs(),
                old(self).authz,
                old(self)@,
                HostEndpoint::Authorize,
                JsonV::Null,
            ),
    {
        let call = self.authz_calls;
        self.authz_calls = bumped(call);
        let behavior = match &self.authz {
            AuthzScript::Default { default } => default,
            AuthzScript::Sequence { sequence, then } => if call < sequence.len() {
                &sequence[call]
            } else {
                then
            },
        };
        let body = match behavior {
            AuthzBehavior::Allow => object1("decision", Json::String("allow".to_owned())),
            AuthzBehavior::Deny(reason) => object2(
                "decision",
                Json::String("deny".to_owned()),
                "reason",
                Json::String(reason.clone()),
            ),
        };
        HostResponse { status: 200, body }
    }

    fn answer_dry_run(&mut self, body: &Json) -> (r: HostResponse)
        ensures
            final(self).secret == old(self).secret,
            final(self).signing_key == old(self).signing_key,
            final(self).fixture == old(self).fixture,
            final(self).authz == old(self).authz,
            final(self).overrides == old(self).overrides,
            (final(self)@, r@) == endpoint_answer(
                old(self).fixture.scripts.pairs(),
                old(self).authz,
                old(self)@,
                HostEndpoint::DryRun,
                json_view(*body),
            ),
    {
        let id = text_field_of(body, "action_id");
        let script = match self.fixture.scripts.get(id.as_str()) {
            Some(s) => match &s.dry_run {
                Some(ds) => ds,
                None => return error_response(404, concat3("no dry_run script for `", id.as_str(), "`")),
            },
            None => return error_response(404, concat3("no dry_run script for `", id.as_str(), "`")),
        };
        let call = count_of(&self.dry_run_calls, id.as_str());
        let behavior = match script {
            DryRunScript::One(b) => b,
            DryRunScript::Sequence { sequence, then } => if call < sequence.len() {
                &sequence[call]
            } else {
                then
            },
        };
        let answer = match behavior {
            DryRunBehavior::Preview(p) => object2(
                "outcome",
                Json::String("preview".to_owned()),
                "preview",
                crate::envelope::preview_to_json(p),
            ),
            DryRunBehavior::Fail(m) => outcome_reason("rejected", m),
        };
        self.dry_run_calls.insert(id, bumped(call));
        HostResponse { status: 200, body: answer }
    }

    fn answer_build_slots(&self, body: &Json) -> (r: HostResponse)
        ensures
            (self@, r@) == endpoint_answer(
                self.fixture.scripts.pairs(),
                self.authz,
                self@,
                HostEndpoint::BuildSlots,
                json_view(*body),
            ),
    {
        let id = text_field_of(body, "action_id");
        let table = match self.fixture.scripts.get(id.as_str()) {
            Some(s) => match &s.slots {
                Some(t) => t,
                None => return error_response(404, concat3("no slot script for `", id.as_str(), "`")),
            },
            None => return error_response(404, concat3("no slot script for `", id.as_str(), "`")),
        };
        let params = object_field_of(body, "params");
        let preview = preview_field_of(body);
        let built = table.build(&params, preview.as_ref());
        HostResponse { status: 200, body: object1("slots", Json::Object(built)) }
    }

    fn answer_execute(&mut self, body: &Json) -> (r: HostResponse)
        ensures
            final(self).secret == old(self).secret,
            final(self).signing_key == old(self).signing_key,
            final(self).fixture == old(self).fixture,
            final(self).authz == old(self).authz,
            final(self).overrides == old(self).overrides,
            (final(self)@, r@) == endpoint_answer(
                old(self).fixture.scripts.pairs(),
                old(self).authz,
                old(self)@,
                HostEndpoint::Execute,
                json_view(*body),
            ),
    {
        let key = text_field_of(body, "idempotency_key");
        proof {
            crate::strmap::lemma_map_entries_index(self.executed.pairs(), |j: Json| json_view(j), key@);
        }
        if let Some(prev) = self.executed.get(key.as_str()) {
            return HostResponse { status: 200, body: prev.deep_clone() };
        }
        let id = text_field_of(body, "action_id");
        let script = match self.fixture.scripts.get(id.as_str()) {
            Some(s) => s,
            None => return error_response(404, concat3("no script for `", id.as_str(), "`")),
        };
        let answer = match &script.handler {
            HandlerScript::Return(result) => {
                let ghost before = self.executions@;
                let params = object_field_of(body, "params");
                self.executions.push(ExecutionExpectation { action_id: id.clone(), params });
                assert(executions_view(self.executions@) =~= executions_view(before).push(
                    (id@, object_field(json_view(*body), "params"@)),
                ));
                object2("outcome", Json::String("executed".to_owned()), "result", result.deep_clone())
            },
            HandlerScript::Fail(m) => outcome_reason("rejected", m),
        };
        if key.as_str().unicode_len() > 0 {
            let stored = answer.deep_clone();
            proof {
                crate::strmap::lemma_key_insert_map(self.executed.pairs(), key@, stored, |j: Json| json_view(j));
            }
            self.executed.insert(key, stored);
        }
        HostResponse { status: 200, body: answer }
    }

    /// Answers a request body at an endpoint (after the header discipline
    /// and any override).
    pub fn answer(&mut self, endpoint: HostEndpoint, body: &Json) -> (r: HostResponse)
        ensures
            final(self).secret == old(self).secret,
            final(self).signing_key == old(self).signing_key,
            final(self).fixture == old(self).fixture,
            final(self).authz == old(self).authz,
            final(self).overrides == old(self).overrides,
            (final(self)@, r@) == endpoint_answer(
                old(self).fixture.scripts.pairs(),
                old(self).authz,
                old(self)@,
                endpoint,
                json_view(*body),
            ),
    {
        match endpoint {
            HostEndpoint::VerifySession => HostResponse { status: 200, body: object1("principal", default_principal()) },
            HostEndpoint::Authorize => self.answer_authorize(),
            HostEndpoint::DryRun => self.answer_dry_run(body),
            HostEndpoint::BuildSlots => self.answer_build_slots(body),
            HostEndpoint::Execute => self.answer_execute(body),
        }
    }

    /// Consults the endpoint's override script, advancing its cursor.
    pub fn next_override(&mut self, name: &str) -> (r: Option<HostBehavior>)
        ensures
            final(self).secret == old(self).secret,
            final(self).signing_key == old(self).signing_key,
            final(self).fixture == old(self).fixture,
            final(self).authz == old(self).authz,
            final(self).overrides == old(self).overrides,
            final(self)@ == (HostView { cursors: final(self)@.cursors, ..old(self)@ }),
            (
                final(self)@.cursors,
                match r {
                    Some(b) => Some(b@),
                    None => None::<BehaviorV>,
                },
            ) == override_pick(old(self).overrides.pairs(), old(self)@.cursors, name@),
    {
        let script = match self.overrides.get(name) {
            Some(s) => s,
            None => return None,
        };
        let cursor = count_of(&self.cursors, name);
        let picked = if cursor < script.len() {
            Some(script[cursor].copy())
        } else if script.len() > 0 {
            Some(script[script.len() - 1].copy())
        } else {
            None
        };
        let next = match &picked {
            Some(_) => bumped(cursor),
            None => cursor,
        };
        self.cursors.insert(name.to_owned(), next);
        picked
    }

    /// Handles one request: refuses it by the header discipline, or
    /// records it, applies the endpoint's override and otherwise answers
    /// from the fixture. `body` is the request parsed as JSON (`null` when
    /// it did not parse), `raw_body` its exact bytes, `headers` its headers
    /// with lower-case names, `now` the clock in Unix seconds.
    pub fn handle(&mut self, endpoint: HostEndpoint, headers: StrMap, raw_body: &[u8], body: Json, now: u64) -> (a: HostAnswer)
        ensures
            final(self).secret == old(self).secret,
            final(self).signing_key == old(self).signing_key,
            final(self).fixture == old(self).fixture,
            final(self).authz == old(self).authz,
            final(self).overrides == old(self).overrides,
            match header_refusal(
                old(self).secret@,
                match old(self).signing_key {
                    Some(k) => Some(vstd::utf8::encode_utf8(k@)),
                    None => None,
                },
                headers.view_pairs(),
                raw_body@,
                now,
            ) {
                Some(refusal) => {
                    &&& !a.stall
                    &&& a.response@ == refusal
                    &&& final(self)@ == old(self)@
                },
                None => {
                    let name = endpoint_name(endpoint);
                    let logged = HostView {
                        deliveries: old(self)@.deliveries.push(
                            DeliveryV { endpoint: name, headers: headers.view_pairs(), body: json_view(body) },
                        ),
                        ..old(self)@
                    };
                    let (cursors, picked) = override_pick(old(self).overrides.pairs(), old(self)@.cursors, name);
                    let after = HostView { cursors, ..logged };
                    &&& a.stall == (picked matches Some(b) && b.timeout)
                    &&& match picked {
                        Some(b) if b.respond is Some => a.response@ == b.respond.unwrap() && final(self)@ == after,
                        _ => (final(self)@, a.response@) == endpoint_answer(
                            old(self).fixture.scripts.pairs(),
                            old(self).authz,
                            after,
                            endpoint,
                            json_view(body),
                        ),
                    }
                },
            },
    {
        let key: Option<&str> = match &self.signing_key {
            Some(k) => Some(k.as_str()),
            None => None,
        };
        match check_headers(self.secret.as_str(), key, &headers, raw_body, now) {
            Err(response) => return HostAnswer { stall: false, response },
            Ok(()) => {},
        }
        let name = endpoint.name();
        let ghost before = self@;
        self.deliveries.push(Delivery { endpoint: name.to_owned(), headers, body: body.deep_clone() });
        assert(self@.deliveries =~= before.deliveries.push(self.deliveries@.last()@));
        let picked = self.next_override(name);
        let stall = match &picked {
            Some(b) => b.timeout,
            None => false,
        };
        if let Some(b) = picked {
            if let Some(response) = b.respond {
                return HostAnswer { stall, response };
            }
        }
        let response = self.answer(endpoint, &body);
        HostAnswer { stall, response }
    }
}


/// Idempotent replay: once an execution under a non-empty idempotency key
/// has been answered, every later execution under that key (whatever
/// action it names) answers the same, and executes nothing.
pub proof fn law_idempotent_replay(
    scripts: Seq<(Seq<char>, ActionScript)>,
    authz: AuthzScript,
    v: HostView,
    first: JsonV,
    again: JsonV,
)
    requires
        text_field(first, "idempotency_key"@).len() > 0,
        text_field(again, "idempotency_key"@) == text_field(first, "idempotency_key"@),
        key_get(v.executed, text_field(first, "idempotency_key"@)) is None,
        key_get(scripts, text_field(first, "action_id"@)) is Some,
    ensures
        ({
            let (v1, r1) = endpoint_answer(scripts, authz, v, HostEndpoint::Execute, first);
            let (v2, r2) = endpoint_answer(scripts, authz, v1, HostEndpoint::Execute, again);
            &&& r2 == r1
            &&& v2 == v1
        }),
{
    let key = text_field(first, "idempotency_key"@);
    assert(endpoint_answer(scripts, authz, v, HostEndpoint::Execute, first) == execute_answer(scripts, v, first));
    let (v1, r1) = execute_answer(scripts, v, first);
    assert(endpoint_answer(scripts, authz, v1, HostEndpoint::Execute, again) == execute_answer(scripts, v1, again));
    crate::strmap::lemma_key_insert_get(v.executed, key, r1.body);
    assert(key_get(v1.executed, key) == Some(r1.body));
}

/// A refused delivery changes nothing: it is neither recorded nor
/// answered from the scripts.
pub proof fn law_refusal_records_nothing(
    secret: Seq<char>,
    key: Option<Seq<u8>>,
    headers: Seq<(Seq<char>, Seq<char>)>,
    body: Seq<u8>,
    now: u64,
)
    requires
        key_get(headers, "authorization"@) != Some("Bearer "@ + secret),
    ensures
        header_refusal(secret, key, headers, body, now) == Some(error_reply(401, "bad secret"@)),
{
}

/// Once an endpoint's override script is exhausted, its last entry
/// answers every later delivery.
pub proof fn law_override_repeats_last(
    overrides: Seq<(Seq<char>, Vec<HostBehavior>)>,
    cursors: Seq<(Seq<char>, usize)>,
    name: Seq<char>,
    script: Vec<HostBehavior>,
)
    requires
        key_get(overrides, name) == Some(script),
        script@.len() > 0,
        count_in(cursors, name) >= script@.len(),
        count_in(cursors, name) < usize::MAX,
    ensures
        ({
            let (c1, p1) = override_pick(overrides, cursors, name);
            let (c2, p2) = override_pick(overrides, c1, name);
            &&& p1 == Some(script@.last()@)
            &&& p2 == Some(script@.last()@)
        }),
{
    let c = count_in(cursors, name);
    let (c1, p1) = override_pick(overrides, cursors, name);
    crate::strmap::lemma_key_insert_get(cursors, name, next_call(c));
    assert(count_in(c1, name) == c + 1);
}


/// The route table of a service whose host serves every endpoint at its
/// default path, from position `i` of the schema actions on: each action
/// executes at [`EXECUTE_PATH`], dry-runs at [`DRY_RUN_PATH`] when it
/// mutates, and takes the slot table its fixture script gives.
pub open spec fn fixture_routes_from(
    defs: Seq<crate::registry::ActionDefV>,
    scripts: Seq<(Seq<char>, ActionScript)>,
    acc: Seq<(Seq<char>, crate::config::ResolvedActionV)>,
) -> Seq<(Seq<char>, crate::config::ResolvedActionV)>
    decreases defs.len(),
{
    if defs.len() == 0 {
        acc
    } else {
        let d = defs[0];
        let ra = crate::config::ResolvedActionV {
            execute: ("POST"@, EXECUTE_PATH@),
            dry_run: if d.mutates { Some(("POST"@, DRY_RUN_PATH@)) } else { None },
            slots: match key_get(scripts, d.id) {
                Some(s) => match s.slots {
                    Some(t) => Some(t.table()),
                    None => None,
                },
                None => None,
            },
            build_slots: None,
        };
        fixture_routes_from(defs.drop_first(), scripts, key_insert(acc, d.id, ra))
    }
}

fn post(path: &str) -> (r: crate::client::Route)
    ensures
        r.method@ == "POST"@,
        r.path@ == path@,
{
    crate::client::Route { method: "POST".to_owned(), path: path.to_owned() }
}

/// The route table for serving a fixture through its host (see
/// [`fixture_routes_from`]).
pub fn fixture_routes(fixture: &Fixture) -> (r: KeyMap<crate::config::ResolvedAction>)
    ensures
        crate::config::resolved_pairs(r) == fixture_routes_from(fixture.registry@.actions, fixture.scripts.pairs(), Seq::empty()),
{
    let ghost defs = fixture.registry@.actions;
    let ghost scripts = fixture.scripts.pairs();
    let mut r: KeyMap<crate::config::ResolvedAction> = KeyMap::new();
    let n = fixture.registry.actions.len();
    let mut i: usize = 0;
    assert(defs.skip(0) =~= defs);
    assert(crate::config::resolved_pairs(r) =~= Seq::empty());
    while i < n
        invariant
            i <= n,
            n == defs.len(),
            defs == fixture.registry@.actions,
            scripts == fixture.scripts.pairs(),
            fixture_routes_from(defs.skip(i as int), scripts, crate::config::resolved_pairs(r))
                == fixture_routes_from(defs, scripts, Seq::empty()),
        decreases n - i,
    {
        let def = &fixture.registry.actions[i];
        assert(defs[i as int] == def@);
        assert(defs.skip(i as int)[0] == defs[i as int]);
        assert(defs.skip(i as int).drop_first() =~= defs.skip(i + 1));
        let slots = match fixture.scripts.get(def.id.as_str()) {
            Some(s) => match &s.slots {
                Some(t) => Some(t.copy()),
                None => None,
            },
            None => None,
        };
        let ra = crate::config::ResolvedAction {
            execute: post(EXECUTE_PATH),
            dry_run: if def.mutates { Some(post(DRY_RUN_PATH)) } else { None },
            slots,
            build_slots: None,
        };
        proof {
            crate::strmap::lemma_key_insert_map(r.pairs(), def.id@, ra, |a: crate::config::ResolvedAction| crate::config::resolved_view(a));
        }
        r.insert(def.id.clone(), ra);
        i = i + 1;
    }
    r
}

} // verus!
