use cleverhans::conformance::{
    authorization, check_response, delivery_id, normalize, skip_outcome, webhook_version_header, AuthMode,
    AuthzBehavior, AuthzScript, DryRunBehavior, DryRunScript, HandlerScript, HostCheckOutcome, HostCheckTarget,
    ScriptedAuthz, ScriptedDryRun, ScriptedHandler, ScriptedLlm, ServiceConfig,
};
use cleverhans::declarative::LlmItem;
use cleverhans::envelope::DryRunPreview;
use cleverhans::error::{HandlerError, LlmError};
use cleverhans::json::{Json, JsonMap, JsonNumber};
use cleverhans::matcher::Bindings;
use cleverhans::seams::{AuthzDecision, CompletionItem};
use cleverhans::strmap::KeyMap;

fn obj(entries: Vec<(&str, Json)>) -> Json {
    let mut m = JsonMap::new();
    for (k, v) in entries {
        m.insert(k.to_owned(), v);
    }
    Json::Object(m)
}

fn s(v: &str) -> Json {
    Json::String(v.to_owned())
}

#[test]
fn authz_default_script_allows_every_call() {
    let mut authz = ScriptedAuthz::new(AuthzScript::default());
    assert!(matches!(authz.authorize(), AuthzDecision::Allow));
    assert!(matches!(authz.authorize(), AuthzDecision::Allow));
    assert_eq!(authz.calls, 2);
}

#[test]
fn authz_sequence_falls_back_to_then() {
    let mut authz = ScriptedAuthz::new(AuthzScript::Sequence {
        sequence: vec![AuthzBehavior::Allow, AuthzBehavior::Deny("revoked".to_owned())],
        then: AuthzBehavior::Deny("later".to_owned()),
    });
    assert!(matches!(authz.authorize(), AuthzDecision::Allow));
    assert!(matches!(authz.authorize(), AuthzDecision::Deny(r) if r == "revoked"));
    assert!(matches!(authz.authorize(), AuthzDecision::Deny(r) if r == "later"));
}

#[test]
fn dry_run_sequence_then_tail() {
    let preview = DryRunPreview { affected_count: 2, sample_ids: vec![], summary: None, extensions: JsonMap::new() };
    let mut d = ScriptedDryRun::new(DryRunScript::Sequence {
        sequence: vec![DryRunBehavior::Preview(preview)],
        then: DryRunBehavior::Fail("stale".to_owned()),
    });
    assert!(matches!(d.dry_run(), Ok(p) if p.affected_count == 2));
    assert!(matches!(d.dry_run(), Err(HandlerError::Rejected(m)) if m == "stale"));
}

#[test]
fn handler_script_records_executions() {
    let handler = ScriptedHandler { action_id: "a.b".to_owned(), script: HandlerScript::Return(s("done")) };
    let mut log = Vec::new();
    let mut params = JsonMap::new();
    params.insert("x".to_owned(), Json::Number(JsonNumber::PosInt(1)));
    assert_eq!(handler.execute(&params, &mut log), Ok(s("done")));
    assert_eq!(log.len(), 1);
    assert_eq!(log[0].action_id, "a.b");
    assert_eq!(log[0].params, params);

    let failing = ScriptedHandler { action_id: "a.c".to_owned(), script: HandlerScript::Fail("nope".to_owned()) };
    assert_eq!(failing.execute(&params, &mut log), Err(HandlerError::Rejected("nope".to_owned())));
    assert_eq!(log.len(), 2);
}

#[test]
fn scripted_llm_gives_turns_in_order_then_fails() {
    let mut llm = ScriptedLlm::new(&vec![vec![LlmItem::Text("hi".to_owned())]]);
    assert_eq!(llm.complete(), Ok(vec![CompletionItem::Text("hi".to_owned())]));
    assert!(matches!(llm.complete(), Err(LlmError::Provider(m)) if m.contains("scripted llm exhausted")));
}

#[test]
fn host_target_paths_default_and_override() {
    let mut target = HostCheckTarget::new("https://app.example/".to_owned(), "s".to_owned());
    assert_eq!(target.path("execute"), "/cleverhans/execute");
    assert_eq!(target.url("execute"), "https://app.example/cleverhans/execute");
    let mut paths = KeyMap::new();
    paths.insert("execute".to_owned(), "/hooks/run".to_owned());
    target.paths = paths;
    assert_eq!(target.url("execute"), "https://app.example/hooks/run");
    assert_eq!(target.url("authorize"), "https://app.example/cleverhans/authorize");
}

#[test]
fn request_headers_follow_the_vector() {
    assert_eq!(authorization(AuthMode::Valid, "s3"), Some("Bearer s3".to_owned()));
    assert_eq!(authorization(AuthMode::Invalid, "s3"), Some("Bearer definitely-wrong".to_owned()));
    assert_eq!(authorization(AuthMode::Omitted, "s3"), None);
    assert_eq!(delivery_id(7), "host-check-7");
    assert_eq!(webhook_version_header(None), "1");
    assert_eq!(webhook_version_header(Some(2)), "2");
}

#[test]
fn optional_vectors_skip_on_404_only() {
    assert_eq!(
        skip_outcome(true, 404, "build_slots"),
        Some(HostCheckOutcome::Skipped("endpoint `build_slots` not implemented (optional)".to_owned()))
    );
    assert_eq!(skip_outcome(false, 404, "build_slots"), None);
    assert_eq!(skip_outcome(true, 200, "build_slots"), None);
}

#[test]
fn responses_check_status_then_body() {
    let mut bindings = Bindings::new();
    let status = Json::Number(JsonNumber::PosInt(200));
    let want_body = obj(vec![("proposal_id", obj(vec![("$bind", s("P"))]))]);
    let got_body = obj(vec![("proposal_id", s("p-1")), ("extra", Json::Null)]);
    assert!(check_response(&status, Some(&want_body), 0, 200, "{}", Ok(got_body), &mut bindings).is_ok());
    assert!(bindings.get("P").is_some());

    let err = check_response(&status, None, 3, 500, "oops", Err(String::new()), &mut bindings).unwrap_err();
    assert_eq!(err, "request 3: request[3].status: expected 200, got 500 (body: oops)");

    let err = check_response(&status, Some(&want_body), 1, 200, "x", Err("expected value".to_owned()), &mut bindings)
        .unwrap_err();
    assert_eq!(err, "request 1: response body not JSON: expected value");
}

#[test]
fn normalize_drops_unfinished_deltas_and_ignored_types() {
    let events = vec![
        obj(vec![("type", s("chat_message")), ("done", Json::Bool(false))]),
        obj(vec![("type", s("chat_message")), ("done", Json::Bool(true))]),
        obj(vec![("type", s("proposal_state_changed"))]),
        obj(vec![("type", s("action_proposal"))]),
    ];
    let kept = normalize(events, &vec!["proposal_state_changed".to_owned()], false);
    assert_eq!(kept.len(), 2);
    assert_eq!(kept[0], obj(vec![("type", s("chat_message")), ("done", Json::Bool(true))]));

    let deltas = vec![obj(vec![("type", s("chat_message")), ("done", Json::Bool(false))])];
    assert_eq!(normalize(deltas, &vec![], true).len(), 1);
}

#[test]
fn service_config_defaults_the_forward_list() {
    let c = ServiceConfig { secret: "s".to_owned(), forward_headers: None };
    assert_eq!(c.forward_list(), vec!["authorization".to_owned(), "cookie".to_owned()]);
    let c = ServiceConfig { secret: "s".to_owned(), forward_headers: Some(vec!["x-tenant".to_owned()]) };
    assert_eq!(c.forward_list(), vec!["x-tenant".to_owned()]);
}
