use cleverhans::config::{
    resolve_endpoint, ActionSection, AgentSection, AuthSection, AuthzSection, Config, ConfigError, LlmSection,
    RetrySection, ServerSection, TelemetrySection, TimeoutsSection, UpstreamSection,
};
use cleverhans::declarative::{DeclarativeSlots, SlotScript};
use cleverhans::json::Json;
use cleverhans::registry::{ActionDef, BlockDef, ParamSource, ParamSpec, SlotSpec, ValueType};
use cleverhans::schema::RegistrySchema;
use cleverhans::strmap::{KeyMap, StrMap};

fn action(id: &str, mutates: bool) -> ActionDef {
    ActionDef {
        id: id.to_owned(),
        description: format!("{id} the selected record"),
        params: vec![ParamSpec {
            name: "recordId".to_owned(),
            description: String::new(),
            ty: ValueType::String,
            source: ParamSource::Context,
            required: true,
        }],
        block_type: "confirm".to_owned(),
        mutates,
        authz_key: id.to_owned(),
        display: None,
    }
}

fn schema() -> RegistrySchema {
    let mut context_params = StrMap::new();
    context_params.insert("recordId".to_owned(), "selected_record_id".to_owned());
    RegistrySchema {
        spec_version: "0.1".to_owned(),
        blocks: vec![BlockDef {
            block_type: "confirm".to_owned(),
            slots: vec![
                SlotSpec { name: "title".to_owned(), ty: ValueType::String, required: true },
                SlotSpec { name: "detail".to_owned(), ty: ValueType::String, required: false },
            ],
        }],
        actions: vec![action("record.archive", true), action("record.open", false)],
        context_params,
    }
}

fn title_slots(title: &str) -> DeclarativeSlots {
    let mut slots = DeclarativeSlots::new();
    slots.insert("title".to_owned(), SlotScript::Const(Json::String(title.to_owned())));
    slots
}

fn section(execute: Option<&str>, dry_run: Option<&str>, slots: Option<DeclarativeSlots>) -> ActionSection {
    ActionSection { execute: execute.map(str::to_owned), dry_run: dry_run.map(str::to_owned), build_slots: None, slots }
}

fn scripted_llm() -> LlmSection {
    LlmSection { provider: "scripted".to_owned(), model: None, api_key_env: None, base_url: None, script: Some(Vec::new()) }
}

fn config(actions: KeyMap<ActionSection>) -> Config {
    Config {
        server: ServerSection::default(),
        upstream: UpstreamSection {
            base_url: "http://localhost:3000".to_owned(),
            secret_env: "CFG_TEST_SECRET".to_owned(),
            timeouts: TimeoutsSection { verify_ms: None, authorize_ms: None, dry_run_ms: None, execute_ms: None },
            retry: RetrySection { execute_attempts: None, backoff_ms: None },
            danger_allow_remote_http: false,
            danger_allow_missing_secret: false,
        },
        auth: AuthSection {
            verify: "POST /internal/cleverhans/verify-session".to_owned(),
            forward_headers: vec!["authorization".to_owned(), "cookie".to_owned()],
        },
        authz: AuthzSection { endpoint: "POST /internal/cleverhans/authorize".to_owned() },
        llm: scripted_llm(),
        agent: AgentSection { app_instructions: None, max_validation_retries: None, describe_context: None },
        actions,
        telemetry: TelemetrySection { otlp_endpoint: None, service_name: None, export_interval_ms: None },
    }
}

fn secret() -> Option<String> {
    Some("s3cret".to_owned())
}

#[test]
fn wildcard_covers_every_action_and_explicit_entries_win() {
    let mut actions = KeyMap::new();
    actions.insert(
        "*".to_owned(),
        section(Some("POST /hooks/{action}/execute"), Some("POST /hooks/{action}/dry-run"), None),
    );
    actions.insert(
        "record.archive".to_owned(),
        section(Some("POST /special/archive"), Some("POST /special/archive/preview"), Some(title_slots("Archive record"))),
    );
    actions.insert("record.open".to_owned(), section(None, None, Some(title_slots("Open record"))));
    let resolved = config(actions).resolve(&schema(), secret()).expect("resolves");

    assert_eq!(resolved.actions.get("record.archive").unwrap().execute.path, "/special/archive");
    assert_eq!(resolved.actions.get("record.open").unwrap().execute.path, "/hooks/record.open/execute");
    assert!(resolved.actions.get("record.archive").unwrap().slots.is_some());
}

#[test]
fn missing_execute_route_names_the_action() {
    let mut actions = KeyMap::new();
    actions.insert("record.archive".to_owned(), section(Some("POST /a"), Some("POST /a/p"), Some(title_slots("t"))));
    let err = config(actions).resolve(&schema(), secret()).err().expect("record.open uncovered");
    assert!(err.message().contains("record.open"), "got {}", err.message());
}

#[test]
fn mutating_action_without_dry_run_route_is_refused() {
    let mut actions = KeyMap::new();
    actions.insert("*".to_owned(), section(Some("POST /hooks/{action}"), None, None));
    actions.insert("record.archive".to_owned(), section(None, None, Some(title_slots("t"))));
    actions.insert("record.open".to_owned(), section(None, None, Some(title_slots("t"))));
    let err = config(actions).resolve(&schema(), secret()).err().expect("no dry_run");
    let text = err.message();
    assert!(text.contains("record.archive") && text.contains("dry_run"), "got {text}");
}

#[test]
fn required_slots_must_be_covered() {
    let mut actions = KeyMap::new();
    actions.insert("*".to_owned(), section(Some("POST /hooks/{action}"), Some("POST /hooks/{action}/preview"), None));
    let err = config(actions).resolve(&schema(), secret()).err().expect("title slot uncovered");
    assert!(err.message().contains("title"), "got {}", err.message());
}

#[test]
fn unmatched_action_entry_is_refused() {
    let mut actions = KeyMap::new();
    actions.insert("*".to_owned(), section(Some("POST /hooks/{action}"), Some("POST /hooks/{action}/preview"), None));
    actions.insert("record.archive".to_owned(), section(None, None, Some(title_slots("t"))));
    actions.insert("record.open".to_owned(), section(None, None, Some(title_slots("t"))));
    actions.insert("record.ghost".to_owned(), section(Some("POST /nope"), None, None));
    let err = config(actions).resolve(&schema(), secret()).err().expect("ghost entry");
    assert!(err.message().contains("record.ghost"), "got {}", err.message());
}

#[test]
fn missing_secret_env_names_the_variable() {
    let mut actions = KeyMap::new();
    actions.insert("*".to_owned(), section(Some("POST /hooks/{action}"), Some("POST /hooks/{action}/preview"), None));
    actions.insert("record.archive".to_owned(), section(None, None, Some(title_slots("t"))));
    actions.insert("record.open".to_owned(), section(None, None, Some(title_slots("t"))));
    let mut cfg = config(actions);
    cfg.upstream.secret_env = "CFG_TEST_SECRET_UNSET".to_owned();
    let err = cfg.resolve(&schema(), None).err().expect("missing env");
    assert!(matches!(err, ConfigError::MissingEnv(ref name, _) if name == "CFG_TEST_SECRET_UNSET"));
}

#[test]
fn llm_section_resolves_and_refuses() {
    assert!(scripted_llm().resolve(None).is_ok());

    let bad = LlmSection { provider: "martian".to_owned(), model: None, api_key_env: None, base_url: None, script: None };
    let err = bad.resolve(None).err().expect("unknown provider");
    assert!(err.message().contains("martian"), "got {}", err.message());

    let anthropic = LlmSection {
        provider: "anthropic".to_owned(),
        model: None,
        api_key_env: Some("CFG_TEST_NO_SUCH_KEY".to_owned()),
        base_url: None,
        script: None,
    };
    let err = anthropic.resolve(None).err().expect("missing key env");
    assert!(err.message().contains("CFG_TEST_NO_SUCH_KEY"), "got {}", err.message());
}

#[test]
fn is_absent_when_the_section_is_omitted() {
    let cfg = config(KeyMap::new());
    assert_eq!(cfg.telemetry.otlp_endpoint, None, "off by default");
    assert_eq!(cfg.telemetry.endpoint(None), None);
}

#[test]
fn parses_the_export_interval() {
    let section = TelemetrySection { otlp_endpoint: None, service_name: None, export_interval_ms: Some(500) };
    assert_eq!(section.export_interval(), 500);
    let default = TelemetrySection { otlp_endpoint: None, service_name: None, export_interval_ms: None };
    assert_eq!(default.export_interval(), 10000);
}

#[test]
fn parses_the_configured_endpoint() {
    let section = TelemetrySection {
        otlp_endpoint: Some("http://localhost:4318".to_owned()),
        service_name: None,
        export_interval_ms: None,
    };
    assert_eq!(section.endpoint(Some("http://collector:4318")).as_deref(), Some("http://localhost:4318"));
}

#[test]
fn resolves_to_none_without_config_or_env() {
    assert_eq!(resolve_endpoint(None, None), None);
}

#[test]
fn resolves_to_the_standard_env_when_config_is_silent() {
    assert_eq!(resolve_endpoint(None, Some("http://collector:4318")).as_deref(), Some("http://collector:4318"));
}

#[test]
fn prefers_the_configured_endpoint_over_the_env() {
    assert_eq!(
        resolve_endpoint(Some("http://localhost:4318"), Some("http://collector:4318")).as_deref(),
        Some("http://localhost:4318")
    );
}

#[test]
fn route_strings_are_validated() {
    let mut actions = KeyMap::new();
    actions.insert("*".to_owned(), section(Some("not-a-route"), Some("POST /ok"), None));
    actions.insert("record.archive".to_owned(), section(None, None, Some(title_slots("t"))));
    actions.insert("record.open".to_owned(), section(None, None, Some(title_slots("t"))));
    let err = config(actions).resolve(&schema(), secret()).err().expect("bad route");
    assert!(err.message().contains("not-a-route"), "got {}", err.message());
}

#[test]
fn resolved_client_takes_the_defaults() {
    let mut actions = KeyMap::new();
    actions.insert("*".to_owned(), section(Some("POST /hooks/{action}"), Some("POST /hooks/{action}/preview"), None));
    actions.insert("record.archive".to_owned(), section(None, None, Some(title_slots("t"))));
    actions.insert("record.open".to_owned(), section(None, None, Some(title_slots("t"))));
    let resolved = config(actions).resolve(&schema(), secret()).expect("resolves");
    assert_eq!(resolved.bind, "127.0.0.1:8789");
    assert_eq!(resolved.path, "/agent");
    assert_eq!(resolved.client.timeouts.execute_ms, 30000);
    assert_eq!(resolved.client.retry.execute_attempts, 3);
    assert_eq!(resolved.verify.method, "POST");
    assert_eq!(resolved.agent.max_validation_retries, 2);
    assert_eq!(resolved.actions.get("record.open").unwrap().dry_run.as_ref().map(|r| r.path.clone()), Some("/hooks/record.open/preview".to_owned()));
}

fn covered_actions() -> KeyMap<ActionSection> {
    let mut actions = KeyMap::new();
    actions.insert("*".to_owned(), section(Some("POST /hooks/{action}"), Some("POST /hooks/{action}/preview"), None));
    actions.insert("record.archive".to_owned(), section(None, None, Some(title_slots("t"))));
    actions.insert("record.open".to_owned(), section(None, None, Some(title_slots("t"))));
    actions
}

#[test]
fn service_assembles_with_webhook_seams() {
    let mut actions = KeyMap::new();
    actions.insert("*".to_owned(), section(Some("POST /hooks/{action}"), None, None));
    actions.insert("record.archive".to_owned(), section(None, Some("POST /hooks/archive/preview"), Some(title_slots("t"))));
    actions.insert("record.open".to_owned(), section(None, None, Some(title_slots("t"))));
    let resolved = config(actions).resolve(&schema(), secret()).expect("resolves");
    let service = cleverhans::serve::build_service(&resolved, schema(), true).ok().expect("assembles");
    assert_eq!(service.base_url, "http://localhost:3000");
    assert_eq!(service.registry.action_count(), 2);
    let archive = service.registry.action("record.archive").expect("registered");
    assert_eq!(archive.handler.route.path, "/hooks/record.archive");
    assert_eq!(archive.handler.action_id, "record.archive");
    assert!(archive.dry_run.is_some());
    assert_eq!(archive.dry_run.as_ref().map(|d| d.route.path.clone()), Some("/hooks/archive/preview".to_owned()));
    assert!(archive.slot_builder.is_some());
    let open = service.registry.action("record.open").expect("registered");
    assert_eq!(open.handler.route.path, "/hooks/record.open");
    assert_eq!(open.handler.action_id, "record.open");
    assert!(open.dry_run.is_none());
}

#[test]
fn a_dry_run_route_on_a_non_mutating_action_fails_the_registry_build() {
    let resolved = config(covered_actions()).resolve(&schema(), secret()).expect("resolves");
    let err = cleverhans::serve::build_service(&resolved, schema(), true).err().expect("refused");
    assert_eq!(
        err.message(),
        "registry: action `record.open` does not mutate; its dry-run handler would never run"
    );
}

#[test]
fn service_refuses_a_remote_plaintext_upstream() {
    let mut cfg = config(covered_actions());
    cfg.upstream.base_url = "http://10.1.2.3:3000".to_owned();
    let resolved = cfg.resolve(&schema(), secret()).expect("resolves");
    let err = cleverhans::serve::build_service(&resolved, schema(), false).err().expect("refused");
    assert!(matches!(err, cleverhans::serve::BuildError::Client(_)));
    assert!(err.message().contains("10.1.2.3"), "got {}", err.message());
}

#[test]
fn service_names_an_action_without_routes() {
    let resolved = config(covered_actions()).resolve(&schema(), secret()).expect("resolves");
    let mut bigger = schema();
    bigger.actions.push(action("record.extra", false));
    let err = cleverhans::serve::build_service(&resolved, bigger, true).err().expect("refused");
    assert_eq!(err.message(), "registry: no resolved routes for action `record.extra`");
}

#[test]
fn route_strings_parse_or_explain() {
    let route = cleverhans::serve::parse_route("get /x").expect("parses");
    assert_eq!((route.method.as_str(), route.path.as_str()), ("GET", "/x"));
    assert_eq!(
        cleverhans::serve::parse_route("nope").err(),
        Some("invalid route `nope` — expected `METHOD /path` (e.g. `POST /internal/cleverhans/execute`)".to_owned())
    );
}

#[test]
fn build_slots_route_resolves_and_skips_slot_coverage() {
    // No slot tables: without build_slots the required `title` slot is
    // uncovered; with the route the host authors slots at run time.
    let mut actions = KeyMap::new();
    let mut wildcard = section(Some("POST /hooks/{action}"), Some("POST /hooks/{action}/preview"), None);
    wildcard.build_slots = Some("POST /hooks/{action}/slots".to_owned());
    actions.insert("*".to_owned(), wildcard);
    let resolved = config(actions).resolve(&schema(), secret()).expect("resolves without slot tables");
    assert_eq!(
        resolved.actions.get("record.archive").unwrap().build_slots.as_ref().expect("route").path,
        "/hooks/record.archive/slots"
    );
    assert!(resolved.actions.get("record.open").unwrap().build_slots.is_some());
}

#[test]
fn agent_section_keeps_describe_context() {
    let agent = AgentSection { app_instructions: None, max_validation_retries: None, describe_context: Some(false) };
    assert!(!agent.resolve().describe_context);
    let agent = AgentSection { app_instructions: None, max_validation_retries: None, describe_context: None };
    assert!(agent.resolve().describe_context);
}
