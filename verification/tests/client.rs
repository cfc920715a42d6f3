use cleverhans::client::{check_client_config, upstream_host, ClientConfigError, DeliveryError, HostClientConfig, RetryPolicy, Route, Timeouts};
use cleverhans::error::HandlerError;
use cleverhans::json::{Json, JsonMap};
use cleverhans::seams::AuthzDecision;
use cleverhans::webhook::{
    authorize_outcome, execute_outcome, forward_headers, lowercase_names, session_principal, split_principal, verify_answer,
    ExecuteDelivery, ExecuteNext, ExecuteRetry,
};
use cleverhans::wire::{AuthorizeResponse, Decision, ExecuteResponse, VerifySessionResponse};

fn config(base_url: &str, secret: Option<&str>) -> HostClientConfig {
    HostClientConfig {
        base_url: base_url.to_owned(),
        secret: secret.map(str::to_owned),
        signing_key: None,
        timeouts: Timeouts::default(),
        retry: RetryPolicy::default(),
        danger_allow_remote_http: false,
        danger_allow_missing_secret: false,
    }
}

#[test]
fn client_refuses_remote_plaintext_and_missing_secret() {
    let remote = check_client_config(&config("http://10.0.0.5:3000", Some("s")), false);
    assert!(remote.is_err(), "remote plaintext must be refused");

    let no_secret = check_client_config(&config("http://127.0.0.1:3000", None), true);
    assert!(no_secret.is_err(), "missing secret must be refused");

    let https_remote = check_client_config(&config("https://host.internal", Some("s")), false);
    assert!(https_remote.is_ok(), "https remote is fine");
}

#[test]
fn route_parsing_accepts_method_path_and_rejects_garbage() {
    let route = Route::parse("post /internal/hooks/x").ok().expect("parses");
    assert_eq!(route.method, "POST");
    assert_eq!(route.path, "/internal/hooks/x");

    assert!(Route::parse("no-path").is_err());
    assert!(Route::parse("POST relative/path").is_err());
    assert!(Route::parse("POST /a b").is_err());
}

#[test]
fn refusals_name_their_cause() {
    assert!(matches!(
        check_client_config(&config("http://10.0.0.5:3000", Some("s")), false),
        Err(ClientConfigError::RemotePlaintext(u)) if u == "http://10.0.0.5:3000"
    ));
    assert!(matches!(check_client_config(&config("http://localhost:3000", None), false), Err(ClientConfigError::MissingSecret)));
    assert!(matches!(check_client_config(&config("not a url", Some("s")), false), Err(ClientConfigError::InvalidBaseUrl(_))));
    assert_eq!(check_client_config(&config("http://localhost:3000//", Some("s")), false).ok(), Some("http://localhost:3000".to_owned()));
    let mut allowed = config("http://10.0.0.5:3000", None);
    allowed.danger_allow_remote_http = true;
    allowed.danger_allow_missing_secret = true;
    assert!(check_client_config(&allowed, false).is_ok());
}

#[test]
fn upstream_host_reads_the_url_host() {
    assert_eq!(upstream_host("http://127.0.0.1:3000/x"), Some("127.0.0.1".to_owned()));
    assert_eq!(upstream_host("https://host.internal"), Some("host.internal".to_owned()));
    assert_eq!(upstream_host("::"), None);
}

#[test]
fn defaults_match_the_contract() {
    let t = Timeouts::default();
    assert_eq!((t.verify_session_ms, t.authorize_ms, t.dry_run_ms, t.execute_ms), (5000, 5000, 10000, 30000));
    let r = RetryPolicy::default();
    assert_eq!((r.execute_attempts, r.backoff_ms), (3, 200));
}

#[test]
fn execute_retries_only_unknown_outcomes_with_doubling_backoff() {
    let mut retry = ExecuteRetry::start(&RetryPolicy { execute_attempts: 3, backoff_ms: 100 });
    assert_eq!(retry.attempt(), 1);
    assert!(matches!(retry.record(Err(DeliveryError::Unreachable("timeout".to_owned()))), ExecuteNext::RetryAfter(100)));
    assert_eq!(retry.attempt(), 2);
    assert!(matches!(retry.record(Err(DeliveryError::Unreachable("timeout".to_owned()))), ExecuteNext::RetryAfter(200)));
    assert_eq!(retry.attempt(), 3);
    assert!(matches!(
        retry.record(Err(DeliveryError::Unreachable("refused".to_owned()))),
        ExecuteNext::Finished(ExecuteDelivery::Unknown(m)) if m == "refused"
    ));

    let mut answered = ExecuteRetry::start(&RetryPolicy { execute_attempts: 3, backoff_ms: 100 });
    assert!(matches!(
        answered.record(Err(DeliveryError::Status { status: 500, body: String::new() })),
        ExecuteNext::Finished(ExecuteDelivery::AnsweredError(_))
    ));
    let mut zero = ExecuteRetry::start(&RetryPolicy { execute_attempts: 0, backoff_ms: 1 });
    assert!(matches!(zero.record(Err(DeliveryError::Unreachable("x".to_owned()))), ExecuteNext::Finished(_)));
}

#[test]
fn execute_outcomes_map_onto_handler_results() {
    assert!(matches!(
        execute_outcome(ExecuteDelivery::Answered(ExecuteResponse::Executed { result: Json::Bool(true) })),
        Ok(Json::Bool(true))
    ));
    assert_eq!(
        execute_outcome(ExecuteDelivery::Answered(ExecuteResponse::Rejected { reason: None })),
        Err(HandlerError::Rejected("rejected by host".to_owned()))
    );
    assert_eq!(
        execute_outcome(ExecuteDelivery::Unknown("t".to_owned())),
        Err(HandlerError::Internal("execution outcome unknown".to_owned()))
    );
    assert_eq!(
        execute_outcome(ExecuteDelivery::AnsweredError(DeliveryError::Status { status: 500, body: String::new() })),
        Err(HandlerError::Internal("host answered 500 Internal Server Error".to_owned()))
    );
}

#[test]
fn authorize_fails_closed() {
    assert!(matches!(
        authorize_outcome(Ok(AuthorizeResponse { decision: Decision::Allow, reason: None })),
        AuthzDecision::Allow
    ));
    assert!(matches!(
        authorize_outcome(Ok(AuthorizeResponse { decision: Decision::Deny, reason: Some("no".to_owned()) })),
        AuthzDecision::Deny(r) if r == "no"
    ));
    assert!(matches!(authorize_outcome(Err(DeliveryError::Unreachable("t".to_owned()))), AuthzDecision::Deny(_)));
}

#[test]
fn verify_maps_refusals_and_failures() {
    let ok = verify_answer("sess-1", Ok((200, Some(VerifySessionResponse { principal: Json::String("u".to_owned()) }))));
    let wrapped = ok.expect("admitted");
    let (session, principal) = split_principal(&wrapped).ok().expect("wrapped principal");
    assert_eq!(session, "sess-1");
    assert_eq!(principal, &Json::String("u".to_owned()));
    assert_eq!(verify_answer("s", Ok((401, None))).err(), Some(401));
    assert_eq!(verify_answer("s", Ok((403, None))).err(), Some(403));
    assert_eq!(verify_answer("s", Ok((500, None))).err(), Some(503));
    assert_eq!(verify_answer("s", Err(DeliveryError::Unreachable("t".to_owned()))).err(), Some(503));
}

#[test]
fn session_principal_round_trips() {
    let mut p = JsonMap::new();
    p.insert("id".to_owned(), Json::String("u-1".to_owned()));
    let wrapped = session_principal("sess-9", Json::Object(p));
    let (session, principal) = split_principal(&wrapped).ok().expect("wrapped");
    assert_eq!(session, "sess-9");
    assert!(matches!(principal, Json::Object(m) if m.get("id") == Some(&Json::String("u-1".to_owned()))));
    assert!(split_principal(&Json::Null).is_err());
}

#[test]
fn only_allowlisted_headers_are_forwarded() {
    let allow = vec!["Authorization".to_owned(), "cookie".to_owned()];
    let headers = vec![
        ("authorization".to_owned(), Some("Bearer t".to_owned())),
        ("x-other".to_owned(), Some("v".to_owned())),
        ("cookie".to_owned(), None),
    ];
    let forwarded = forward_headers(&lowercase_names(&allow), &headers);
    assert_eq!(forwarded.len(), 1);
    assert_eq!(forwarded.get("authorization").map(|s| s.as_str()), Some("Bearer t"));
}

#[test]
fn delivery_errors_say_whether_the_host_answered() {
    assert!(DeliveryError::Status { status: 404, body: String::new() }.is_answered());
    assert!(DeliveryError::MalformedBody("x".to_owned()).is_answered());
    assert!(!DeliveryError::Unreachable("x".to_owned()).is_answered());
    assert_eq!(DeliveryError::Unreachable("timeout".to_owned()).message(), "delivery failed: timeout");
}
