use cleverhans::conformance::{AuthzBehavior, AuthzScript, DryRunBehavior, DryRunScript, HandlerScript};
use cleverhans::declarative::{DeclarativeSlots, SlotScript};
use cleverhans::envelope::{preview_from_json, preview_to_json, DryRunPreview};
use cleverhans::host::{
    check_headers, default_principal, ActionScript, Fixture, HostBehavior, HostEndpoint, HostResponse, HostState,
};
use cleverhans::json::{Json, JsonMap, JsonNumber};
use cleverhans::schema::RegistrySchema;
use cleverhans::sign::signature_header;
use cleverhans::strmap::{KeyMap, StrMap};

fn n(v: u64) -> Json {
    Json::Number(JsonNumber::PosInt(v))
}

fn s(v: &str) -> Json {
    Json::String(v.to_owned())
}

fn obj(entries: Vec<(&str, Json)>) -> Json {
    let mut m = JsonMap::new();
    for (k, v) in entries {
        m.insert(k.to_owned(), v);
    }
    Json::Object(m)
}

fn headers(entries: Vec<(&str, &str)>) -> StrMap {
    let mut m = StrMap::new();
    for (k, v) in entries {
        m.insert(k.to_owned(), v.to_owned());
    }
    m
}

fn good_headers() -> StrMap {
    headers(vec![("authorization", "Bearer s3cret"), ("x-cleverhans-webhook-version", "1")])
}

fn preview(count: u64, ids: Vec<&str>, summary: Option<&str>) -> DryRunPreview {
    DryRunPreview {
        affected_count: count,
        sample_ids: ids.into_iter().map(str::to_owned).collect(),
        summary: summary.map(str::to_owned),
        extensions: JsonMap::new(),
    }
}

fn fixture() -> Fixture {
    let mut scripts = KeyMap::new();
    let mut slots = DeclarativeSlots::new();
    slots.insert("title".to_owned(), SlotScript::Const(s("Rename")));
    slots.insert("detail".to_owned(), SlotScript::Preview("summary".to_owned()));
    scripts.insert(
        "doc.rename".to_owned(),
        ActionScript {
            handler: HandlerScript::Return(obj(vec![("ok", Json::Bool(true))])),
            dry_run: Some(DryRunScript::Sequence {
                sequence: vec![DryRunBehavior::Preview(preview(1, vec!["d1"], None))],
                then: DryRunBehavior::Fail("stale".to_owned()),
            }),
            slots: Some(slots),
        },
    );
    scripts.insert(
        "doc.delete".to_owned(),
        ActionScript { handler: HandlerScript::Fail("nope".to_owned()), dry_run: None, slots: None },
    );
    Fixture {
        name: "docs".to_owned(),
        registry: RegistrySchema {
            spec_version: "0.1".to_owned(),
            blocks: Vec::new(),
            actions: Vec::new(),
            context_params: StrMap::new(),
        },
        scripts,
    }
}

fn host(authz: AuthzScript, overrides: KeyMap<Vec<HostBehavior>>) -> HostState {
    HostState::new("s3cret".to_owned(), None, fixture(), authz, overrides)
}

fn call(h: &mut HostState, e: HostEndpoint, body: Json) -> (u16, Json, bool) {
    let a = h.handle(e, good_headers(), b"{}", body, 1_700_000_000);
    (a.response.status, a.response.body, a.stall)
}

#[test]
fn header_discipline_checks_secret_then_version() {
    let ok = check_headers("s3cret", None, &good_headers(), b"{}", 0);
    assert!(ok.is_ok());
    let bad = check_headers("s3cret", None, &headers(vec![("authorization", "Bearer x")]), b"{}", 0).unwrap_err();
    assert_eq!(bad.status, 401);
    assert_eq!(bad.body, obj(vec![("error", s("bad secret"))]));
    let old = check_headers(
        "s3cret",
        None,
        &headers(vec![("authorization", "Bearer s3cret"), ("x-cleverhans-webhook-version", "2")]),
        b"{}",
        0,
    )
    .unwrap_err();
    assert_eq!(old.status, 400);
    assert_eq!(old.body, obj(vec![("error", s("unsupported_webhook_version")), ("supported", Json::Array(vec![n(1)]))]));
}

#[test]
fn signing_host_requires_a_valid_signature() {
    let body = b"{\"a\":1}";
    let now = 1_700_000_000u64;
    let missing = check_headers("s3cret", Some("k"), &good_headers(), body, now).unwrap_err();
    assert_eq!(missing.status, 401);
    assert_eq!(missing.body, obj(vec![("error", s("bad signature"))]));
    let mut signed = good_headers();
    signed.insert("x-cleverhans-signature".to_owned(), signature_header(b"k", now, body));
    assert!(check_headers("s3cret", Some("k"), &signed, body, now).is_ok());
    assert!(check_headers("s3cret", Some("other"), &signed, body, now).is_err());
    assert!(check_headers("s3cret", Some("k"), &signed, b"{\"a\":2}", now).is_err());
}

#[test]
fn verify_session_answers_the_default_principal() {
    let mut h = host(AuthzScript::default(), KeyMap::new());
    let (status, body, stall) = call(&mut h, HostEndpoint::VerifySession, Json::Null);
    assert_eq!((status, stall), (200, false));
    assert_eq!(body, obj(vec![("principal", obj(vec![("user_id", s("vector-user"))]))]));
    assert_eq!(default_principal(), obj(vec![("user_id", s("vector-user"))]));
    assert_eq!(h.deliveries.len(), 1);
    assert_eq!(h.deliveries[0].endpoint, "verify_session");
}

#[test]
fn refused_deliveries_are_not_recorded() {
    let mut h = host(AuthzScript::default(), KeyMap::new());
    let a = h.handle(HostEndpoint::Authorize, headers(vec![]), b"", Json::Null, 0);
    assert_eq!(a.response.status, 401);
    assert!(h.deliveries.is_empty());
    assert_eq!(h.authz_calls, 0);
}

#[test]
fn authorize_follows_its_script_by_call() {
    let script = AuthzScript::Sequence {
        sequence: vec![AuthzBehavior::Allow],
        then: AuthzBehavior::Deny("over budget".to_owned()),
    };
    let mut h = host(script, KeyMap::new());
    assert_eq!(call(&mut h, HostEndpoint::Authorize, Json::Null).1, obj(vec![("decision", s("allow"))]));
    let denied = obj(vec![("decision", s("deny")), ("reason", s("over budget"))]);
    assert_eq!(call(&mut h, HostEndpoint::Authorize, Json::Null).1, denied);
    assert_eq!(call(&mut h, HostEndpoint::Authorize, Json::Null).1, denied);
}

#[test]
fn dry_run_counts_calls_per_action() {
    let mut h = host(AuthzScript::default(), KeyMap::new());
    let body = obj(vec![("action_id", s("doc.rename"))]);
    let (status, first, _) = call(&mut h, HostEndpoint::DryRun, body.deep_clone());
    assert_eq!(status, 200);
    let expected = obj(vec![
        ("outcome", s("preview")),
        (
            "preview",
            obj(vec![
                ("affected_count", n(1)),
                ("sample_ids", Json::Array(vec![s("d1")])),
                ("summary", Json::Null),
                ("extensions", obj(vec![])),
            ]),
        ),
    ]);
    assert_eq!(first, expected);
    let (_, second, _) = call(&mut h, HostEndpoint::DryRun, body);
    assert_eq!(second, obj(vec![("outcome", s("rejected")), ("reason", s("stale"))]));
    let (status, missing, _) = call(&mut h, HostEndpoint::DryRun, obj(vec![("action_id", s("doc.delete"))]));
    assert_eq!(status, 404);
    assert_eq!(missing, obj(vec![("error", s("no dry_run script for `doc.delete`"))]));
}

#[test]
fn execute_replays_the_first_answer_per_key() {
    let mut h = host(AuthzScript::default(), KeyMap::new());
    let body = obj(vec![
        ("action_id", s("doc.rename")),
        ("idempotency_key", s("k-1")),
        ("params", obj(vec![("title", s("T"))])),
    ]);
    let (status, first, _) = call(&mut h, HostEndpoint::Execute, body.deep_clone());
    assert_eq!(status, 200);
    assert_eq!(first, obj(vec![("outcome", s("executed")), ("result", obj(vec![("ok", Json::Bool(true))]))]));
    assert_eq!(h.executions.len(), 1);
    assert_eq!(h.executions[0].action_id, "doc.rename");
    let replay = obj(vec![("action_id", s("doc.delete")), ("idempotency_key", s("k-1"))]);
    let (_, again, _) = call(&mut h, HostEndpoint::Execute, replay);
    assert_eq!(again, first);
    assert_eq!(h.executions.len(), 1);
}

#[test]
fn execute_without_a_script_is_not_found_and_failures_are_rejections() {
    let mut h = host(AuthzScript::default(), KeyMap::new());
    let (status, body, _) = call(&mut h, HostEndpoint::Execute, obj(vec![("action_id", s("zzz"))]));
    assert_eq!(status, 404);
    assert_eq!(body, obj(vec![("error", s("no script for `zzz`"))]));
    let (_, body, _) = call(&mut h, HostEndpoint::Execute, obj(vec![("action_id", s("doc.delete"))]));
    assert_eq!(body, obj(vec![("outcome", s("rejected")), ("reason", s("nope"))]));
    assert!(h.executions.is_empty());
}

#[test]
fn build_slots_evaluates_the_slot_script() {
    let mut h = host(AuthzScript::default(), KeyMap::new());
    let body = obj(vec![
        ("action_id", s("doc.rename")),
        ("params", obj(vec![])),
        ("preview", obj(vec![("affected_count", n(4)), ("summary", s("four"))])),
    ]);
    let (status, answer, _) = call(&mut h, HostEndpoint::BuildSlots, body);
    assert_eq!(status, 200);
    assert_eq!(answer, obj(vec![("slots", obj(vec![("detail", s("four")), ("title", s("Rename"))]))]));
    let (status, _, _) = call(&mut h, HostEndpoint::BuildSlots, obj(vec![("action_id", s("doc.delete"))]));
    assert_eq!(status, 404);
}

#[test]
fn overrides_answer_in_order_then_repeat_the_last() {
    let mut overrides = KeyMap::new();
    overrides.insert(
        "authorize".to_owned(),
        vec![
            HostBehavior { respond: Some(HostResponse { status: 500, body: obj(vec![]) }), timeout: false },
            HostBehavior { respond: None, timeout: true },
        ],
    );
    let mut h = host(AuthzScript::default(), overrides);
    let (status, _, stall) = call(&mut h, HostEndpoint::Authorize, Json::Null);
    assert_eq!((status, stall), (500, false));
    assert_eq!(h.authz_calls, 0);
    let (status, body, stall) = call(&mut h, HostEndpoint::Authorize, Json::Null);
    assert_eq!((status, stall), (200, true));
    assert_eq!(body, obj(vec![("decision", s("allow"))]));
    let (_, _, stall) = call(&mut h, HostEndpoint::Authorize, Json::Null);
    assert!(stall);
    assert_eq!(h.deliveries.len(), 3);
}

#[test]
fn deliveries_render_as_matchable_values() {
    let mut h = host(AuthzScript::default(), KeyMap::new());
    call(&mut h, HostEndpoint::Authorize, obj(vec![("x", n(1))]));
    let v = h.deliveries[0].to_value();
    assert_eq!(
        v,
        obj(vec![
            ("endpoint", s("authorize")),
            ("headers", obj(vec![("authorization", s("Bearer s3cret")), ("x-cleverhans-webhook-version", s("1"))])),
            ("body", obj(vec![("x", n(1))])),
        ])
    );
}

#[test]
fn endpoints_are_named_by_their_default_paths() {
    assert_eq!(HostEndpoint::from_path("/cleverhans/execute"), Some(HostEndpoint::Execute));
    assert_eq!(HostEndpoint::from_path("/cleverhans/build_slots"), Some(HostEndpoint::BuildSlots));
    assert_eq!(HostEndpoint::from_path("/elsewhere"), None);
    assert_eq!(HostEndpoint::DryRun.name(), "dry_run");
}

#[test]
fn previews_read_back_from_their_json_form() {
    let p = preview(3, vec!["a", "b"], Some("three"));
    let j = preview_to_json(&p);
    let back = preview_from_json(&j).unwrap();
    assert_eq!(back.affected_count, 3);
    assert_eq!(back.sample_ids, vec!["a".to_owned(), "b".to_owned()]);
    assert_eq!(back.summary, Some("three".to_owned()));
    let short = preview_from_json(&Json::Array(vec![n(2)])).unwrap();
    assert_eq!(short.affected_count, 2);
    assert!(short.sample_ids.is_empty());
    assert!(preview_from_json(&obj(vec![("sample_ids", Json::Array(vec![]))])).is_none());
    assert!(preview_from_json(&obj(vec![("affected_count", s("1"))])).is_none());
}
