use cleverhans::agent::{
    confirm_executed, confirm_start, handle_context_update, handle_init, handle_reject, propose_accepted,
    propose_rejected, stream_ended, text_delta, tool_call_failed, AgentConfig, AgentCore, ConfirmCheck, ConfirmStart,
    Session, ToolCallOutcome, DEFAULT_SYSTEM_PROMPT,
};
use cleverhans::error::ValidationFailure;
use cleverhans::seams::ChatRole;
use cleverhans::envelope::{Context, ServerEvent};
use cleverhans::error::HandlerError;
use cleverhans::json::{Json, JsonMap};
use cleverhans::proposal::ProposalState;
use cleverhans::registry::{ActionDef, BlockDef, ParamSource, ParamSpec, Registry, SlotSpec, ValueType};
use cleverhans::validation::ValidatedAction;
use cleverhans::SPEC_VERSION;

struct Handler;
struct DryRun;
struct Slots;

fn params(entries: Vec<(&str, &str)>) -> JsonMap {
    let mut m = JsonMap::new();
    for (k, v) in entries {
        m.insert(k.to_owned(), Json::String(v.to_owned()));
    }
    m
}

fn validated(record: &str) -> ValidatedAction {
    ValidatedAction {
        action_id: "record.touch".to_owned(),
        params: params(vec![("recordId", record)]),
        block_type: "confirm".to_owned(),
        slots: JsonMap::new(),
        preview: None,
    }
}

fn context(route: &str) -> Context {
    let mut c = Context::empty();
    c.route = route.to_owned();
    c
}

fn session() -> Session<Json> {
    let mut s = Session::new(Json::String("user-1".to_owned()));
    assert!(handle_init(&mut s, SPEC_VERSION, context("/records")).is_empty());
    s
}

fn agent_core() -> AgentCore<Handler, DryRun, Slots> {
    agent_core_with(AgentConfig::default())
}

fn agent_core_with(config: AgentConfig) -> AgentCore<Handler, DryRun, Slots> {
    let registry: Registry<Handler, DryRun, Slots> = Registry::builder()
        .block(BlockDef {
            block_type: "confirm".to_owned(),
            slots: vec![SlotSpec { name: "title".to_owned(), ty: ValueType::String, required: false }],
        })
        .action(
            ActionDef {
                id: "record.touch".to_owned(),
                description: "Touch the record".to_owned(),
                params: vec![ParamSpec {
                    name: "recordId".to_owned(),
                    description: String::new(),
                    ty: ValueType::String,
                    source: ParamSource::Context,
                    required: true,
                }],
                block_type: "confirm".to_owned(),
                mutates: false,
                authz_key: "record.touch".to_owned(),
                display: None,
            },
            Handler,
            None,
            None,
        )
        .build()
        .unwrap_or_else(|_| panic!("registry builds"));
    AgentCore::with_config(registry, config)
}

fn proposal_id(e: &ServerEvent) -> String {
    match e {
        ServerEvent::ActionProposal(p) => p.proposal_id.clone(),
        other => panic!("expected a proposal, got {other:?}"),
    }
}

fn state_of(e: &ServerEvent) -> (String, ProposalState, Option<String>) {
    match e {
        ServerEvent::ProposalStateChanged { proposal_id, state, reason, .. } => {
            (proposal_id.clone(), *state, reason.clone())
        }
        other => panic!("expected a state change, got {other:?}"),
    }
}

#[test]
fn init_refuses_other_spec_versions() {
    let mut s = Session::new(Json::Null);
    let events = handle_init(&mut s, "9.0", Context::empty());
    assert_eq!(events.len(), 1);
    assert!(matches!(&events[0], ServerEvent::Error { code, recoverable: false, .. } if code == "unsupported_spec_version"));
}

#[test]
fn deltas_share_one_message_and_end_done() {
    let agent = agent_core();
    let mut s = session();
    let mut turn = agent.begin_user_message(&mut s, "hi".to_owned());
    let first = text_delta(&mut s, &mut turn, "Hel".to_owned());
    let second = text_delta(&mut s, &mut turn, "lo".to_owned());
    let (id1, id2) = match (&first, &second) {
        (
            ServerEvent::ChatMessage { msg_id: a, text: t1, done: false },
            ServerEvent::ChatMessage { msg_id: b, text: t2, done: false },
        ) => {
            assert_eq!((t1.as_str(), t2.as_str()), ("Hel", "lo"));
            (a.clone(), b.clone())
        }
        other => panic!("unexpected {other:?}"),
    };
    assert_eq!(id1, id2);
    let (flushed, again) = stream_ended(&mut s, &mut turn);
    assert!(!again);
    assert!(matches!(flushed, Some(ServerEvent::ChatMessage { msg_id, text, done: true }) if msg_id == id1 && text == "Hello"));
}

#[test]
fn a_confirmed_proposal_executes_once() {
    let agent = agent_core();
    let mut s = session();
    let proposal = propose_accepted(&mut s, validated("r1"), JsonMap::new());
    let id = proposal_id(&proposal);
    let (proposal, utterance) = match confirm_start(&mut s, &id) {
        ConfirmStart::Revalidate { proposal, utterance_params } => (proposal, utterance_params),
        ConfirmStart::Done(events) => panic!("expected revalidation, got {events:?}"),
    };
    assert_eq!(utterance.len(), 0);
    match agent.confirm_revalidated(&mut s, &id, &proposal, Ok(validated("r1"))) {
        ConfirmCheck::Execute(_) => {}
        ConfirmCheck::Expired(events) => panic!("expected execution, got {events:?}"),
    }
    let done = confirm_executed(&mut s, &id, "record.touch", Ok(Json::Bool(true)));
    assert_eq!(state_of(&done[0]), (id.clone(), ProposalState::Executed, None));
    match confirm_start(&mut s, &id) {
        ConfirmStart::Done(events) => assert_eq!(
            state_of(&events[0]),
            (id.clone(), ProposalState::Executed, Some("proposal is not pending confirmation".to_owned()))
        ),
        ConfirmStart::Revalidate { .. } => panic!("an executed proposal must not run again"),
    }
}

#[test]
fn changed_params_expire_at_confirm() {
    let agent = agent_core();
    let mut s = session();
    let id = proposal_id(&propose_accepted(&mut s, validated("r1"), JsonMap::new()));
    let proposal = match confirm_start(&mut s, &id) {
        ConfirmStart::Revalidate { proposal, .. } => proposal,
        ConfirmStart::Done(_) => panic!("expected revalidation"),
    };
    match agent.confirm_revalidated(&mut s, &id, &proposal, Ok(validated("r2"))) {
        ConfirmCheck::Expired(events) => assert_eq!(
            state_of(&events[0]),
            (id.clone(), ProposalState::Expired, Some("context changed since proposal".to_owned()))
        ),
        ConfirmCheck::Execute(_) => panic!("changed params must not execute"),
    }
}

#[test]
fn failed_execution_reports_the_reason() {
    let mut s = session();
    let id = proposal_id(&propose_accepted(&mut s, validated("r1"), JsonMap::new()));
    assert!(matches!(confirm_start(&mut s, &id), ConfirmStart::Revalidate { .. }));
    let events = confirm_executed(&mut s, &id, "record.touch", Err(HandlerError::Rejected("locked".to_owned())));
    let (_, state, reason) = state_of(&events[0]);
    assert_eq!(state, ProposalState::Failed);
    assert!(reason.unwrap().contains("locked"));
}

#[test]
fn reject_is_terminal() {
    let mut s = session();
    let id = proposal_id(&propose_accepted(&mut s, validated("r1"), JsonMap::new()));
    let events = handle_reject(&mut s, &id, Some("not now".to_owned()));
    assert_eq!(state_of(&events[0]), (id.clone(), ProposalState::Rejected, Some("not now".to_owned())));
    match confirm_start(&mut s, &id) {
        ConfirmStart::Done(events) => assert_eq!(state_of(&events[0]).1, ProposalState::Rejected),
        ConfirmStart::Revalidate { .. } => panic!("a rejected proposal cannot be confirmed"),
    }
    let again = handle_reject(&mut s, &id, None);
    assert!(matches!(&again[0], ServerEvent::Error { .. }));
}

#[test]
fn route_change_expires_pending_proposal() {
    let mut s = session();
    let id = proposal_id(&propose_accepted(&mut s, validated("r1"), JsonMap::new()));
    assert!(handle_context_update(&mut s, context("/records"), 1).is_empty());
    let events = handle_context_update(&mut s, context("/settings"), 2);
    assert_eq!(events.len(), 1);
    assert_eq!(state_of(&events[0]), (id, ProposalState::Expired, Some("context changed".to_owned())));
}

#[test]
fn confirm_of_unknown_proposal_is_an_error() {
    let mut s = session();
    match confirm_start(&mut s, "prop-9") {
        ConfirmStart::Done(events) => assert!(matches!(
            &events[0],
            ServerEvent::Error { code, message, recoverable: true }
                if code == "unknown_proposal" && message == "no proposal `prop-9` in this session"
        )),
        ConfirmStart::Revalidate { .. } => panic!("unknown proposals cannot be confirmed"),
    }
}

#[test]
fn init_requires_a_segment_boundary_after_major_minor() {
    for v in ["0.10", "0.1x", "0.2", "1.1"] {
        let mut s = Session::new(Json::Null);
        let events = handle_init(&mut s, v, context("/elsewhere"));
        assert_eq!(events.len(), 1, "{v} must be refused");
        assert!(matches!(&events[0], ServerEvent::Error { code, recoverable: false, .. } if code == "unsupported_spec_version"));
        assert_eq!(s.context().route, "", "refused init leaves the context alone");
    }
}

#[test]
fn init_accepts_versions_of_the_same_minor() {
    for v in ["0.1", "0.1.0", "0.1.0-draft", "0.1-rc1"] {
        let mut s = Session::new(Json::Null);
        let events = handle_init(&mut s, v, context("/notes"));
        assert!(events.is_empty(), "{v} must be accepted");
        assert_eq!(s.context().route, "/notes");
        assert_eq!(s.context_seq(), 0);
    }
}

fn note_session() -> Session<Json> {
    let mut s = Session::new(Json::Null);
    let mut c = Context::empty();
    c.route = "/notes/note_7".to_owned();
    c.selected_record_id = Some("note_7".to_owned());
    c.view_type = Some("detail".to_owned());
    assert!(handle_init(&mut s, "0.1.0-draft", c).is_empty());
    s
}

#[test]
fn context_note_is_the_last_message_and_names_no_ids() {
    let core = agent_core();
    let mut session = note_session();
    let _turn = core.begin_user_message(&mut session, "archive this".to_owned());
    let request = core.completion_request(&session);
    let last = request.messages.last().expect("non-empty");
    assert!(
        last.role == ChatRole::System
            && last.content.contains("route `/notes/note_7`")
            && last.content.contains("viewing a detail")
            && last.content.contains("a record is selected"),
        "context note wrong: {last:?}"
    );
    assert_eq!(request.messages[request.messages.len() - 2].role, ChatRole::User);
}

#[test]
fn context_note_can_be_disabled() {
    let mut config = AgentConfig::default();
    config.describe_context = false;
    let core = agent_core_with(config);
    let mut session = note_session();
    let _turn = core.begin_user_message(&mut session, "archive this".to_owned());
    let request = core.completion_request(&session);
    assert!(
        !request.messages.iter().any(|turn| turn.content.contains("Current app context")),
        "context note must be absent when disabled"
    );
    assert_eq!(request.messages.last().expect("non-empty").role, ChatRole::User);
}

#[test]
fn context_note_without_view_or_selection() {
    let core = agent_core();
    let session = session();
    let request = core.completion_request(&session);
    let last = request.messages.last().expect("non-empty");
    assert_eq!(last.role, ChatRole::System);
    assert!(last.content.contains("route `/records`"));
    assert!(last.content.contains("no particular view"));
    assert!(last.content.contains("no record is selected"));
}

#[test]
fn unresolved_context_param_feedback_frames_the_failure_as_momentary() {
    let mut session = session();
    propose_rejected(&mut session, &ValidationFailure::UnresolvedContextParam("documentId".to_owned()));
    let tool_turn = session.history().iter().rev().find(|t| t.role == ChatRole::Tool).expect("tool turn");
    assert!(tool_turn.content.contains("documentId"));
    assert!(tool_turn.content.contains("once the user navigates"), "got {tool_turn:?}");
    assert!(!tool_turn.content.contains("arguments matching their schema"), "got {tool_turn:?}");
}

#[test]
fn schema_failures_get_schema_advice() {
    let mut session = session();
    propose_rejected(&mut session, &ValidationFailure::MissingParam("country".to_owned()));
    let tool_turn = session.history().last().expect("tool turn");
    assert_eq!(tool_turn.role, ChatRole::Tool);
    assert!(tool_turn.content.contains("arguments matching their schema"), "got {tool_turn:?}");
    assert!(!tool_turn.content.contains("once the user navigates"));
}

fn unknown_action() -> ValidationFailure {
    ValidationFailure::UnknownAction("made.up".to_owned())
}

#[test]
fn every_completion_starts_with_the_system_turn() {
    let core = agent_core();
    let mut session = session();
    let _turn = core.begin_user_message(&mut session, "hi".to_owned());
    let request = core.completion_request(&session);
    let first = &request.messages[0];
    assert!(first.role == ChatRole::System && first.content == DEFAULT_SYSTEM_PROMPT);
    assert_eq!(request.tools.len(), 1);
    assert_eq!(request.tools[0].name, "record.touch");
}

#[test]
fn app_instructions_are_appended_to_the_system_turn() {
    let mut config = AgentConfig::default();
    config.app_instructions = Some("Answer in Danish.".to_owned());
    let core = agent_core_with(config);
    let session = session();
    let content = core.completion_request(&session).messages[0].content.clone();
    assert!(content.starts_with(DEFAULT_SYSTEM_PROMPT) && content.ends_with("Answer in Danish."), "got: {content}");
}

#[test]
fn fixable_failure_retries_and_recovers() {
    let core = agent_core();
    let mut session = session();
    let mut turn = core.begin_user_message(&mut session, "touch it".to_owned());
    propose_rejected(&mut session, &unknown_action());
    assert!(matches!(tool_call_failed(&mut session, &mut turn, unknown_action()), ToolCallOutcome::Retry));
    let (flushed, again) = stream_ended(&mut session, &mut turn);
    assert!(flushed.is_none());
    assert!(again, "a fixable failure asks for one more completion");
    let e = propose_accepted(&mut session, validated("rec_1"), JsonMap::new());
    assert!(matches!(&e, ServerEvent::ActionProposal(p) if p.action_id == "record.touch"));
}

#[test]
fn retry_request_carries_the_validation_failure() {
    let core = agent_core();
    let mut session = session();
    let mut turn = core.begin_user_message(&mut session, "touch it".to_owned());
    propose_rejected(&mut session, &unknown_action());
    assert!(matches!(tool_call_failed(&mut session, &mut turn, unknown_action()), ToolCallOutcome::Retry));
    let request = core.completion_request(&session);
    let last_tool_turn =
        request.messages.iter().rev().find(|t| t.role == ChatRole::Tool).expect("retry request has a tool turn");
    assert!(last_tool_turn.content.contains("unknown action `made.up`"), "got {last_tool_turn:?}");
}

#[test]
fn exhausted_retries_decline_conversationally() {
    let mut config = AgentConfig::default();
    config.max_validation_retries = 1;
    let core = agent_core_with(config);
    let mut session = session();
    let mut turn = core.begin_user_message(&mut session, "touch it".to_owned());
    propose_rejected(&mut session, &unknown_action());
    assert!(matches!(tool_call_failed(&mut session, &mut turn, unknown_action()), ToolCallOutcome::Retry));
    assert!(stream_ended(&mut session, &mut turn).1);
    propose_rejected(&mut session, &unknown_action());
    match tool_call_failed(&mut session, &mut turn, unknown_action()) {
        ToolCallOutcome::Decline(ServerEvent::ChatMessage { text, done: true, .. }) => {
            assert!(text.contains("made.up"), "got {text}")
        },
        _ => panic!("a spent retry budget must decline"),
    }
}

#[test]
fn unauthorized_failure_never_retries() {
    let core = agent_core();
    let mut session = session();
    let mut turn = core.begin_user_message(&mut session, "touch it".to_owned());
    let denied = ValidationFailure::Unauthorized { action_id: "record.touch".to_owned(), reason: "not allowed".to_owned() };
    propose_rejected(&mut session, &denied);
    match tool_call_failed(&mut session, &mut turn, denied) {
        ToolCallOutcome::Decline(ServerEvent::ChatMessage { text, .. }) => {
            assert!(text.contains("not authorized"), "got {text}")
        },
        _ => panic!("authz denial must decline immediately"),
    }
    assert!(!stream_ended(&mut session, &mut turn).1, "no retry is spent");
}

fn numbered_core() -> AgentCore<u32, u32, u32> {
    let touch = |id: &str| ActionDef {
        id: id.to_owned(),
        description: "Touch the record".to_owned(),
        params: vec![ParamSpec {
            name: "recordId".to_owned(),
            description: String::new(),
            ty: ValueType::String,
            source: ParamSource::Context,
            required: true,
        }],
        block_type: "confirm".to_owned(),
        mutates: false,
        authz_key: id.to_owned(),
        display: None,
    };
    let registry: Registry<u32, u32, u32> = Registry::builder()
        .block(BlockDef { block_type: "confirm".to_owned(), slots: vec![] })
        .action(touch("record.touch"), 1, None, None)
        .action(touch("record.archive"), 2, None, None)
        .build()
        .unwrap_or_else(|_| panic!("registry builds"));
    AgentCore::with_config(registry, AgentConfig::default())
}

fn validated_for(action: &str, record: &str) -> ValidatedAction {
    let mut v = validated(record);
    v.action_id = action.to_owned();
    v
}

#[test]
fn confirm_executes_handler_under_principal() {
    let agent = numbered_core();
    let mut s = session();
    for (action, handler) in [("record.archive", 2u32), ("record.touch", 1u32)] {
        let id = proposal_id(&propose_accepted(&mut s, validated_for(action, "r1"), JsonMap::new()));
        let proposal = match confirm_start(&mut s, &id) {
            ConfirmStart::Revalidate { proposal, .. } => proposal,
            ConfirmStart::Done(events) => panic!("expected revalidation, got {events:?}"),
        };
        match agent.confirm_revalidated(&mut s, &id, &proposal, Ok(validated_for(action, "r1"))) {
            ConfirmCheck::Execute(h) => assert_eq!(*h, handler, "{action} must run its own handler"),
            ConfirmCheck::Expired(events) => panic!("expected execution, got {events:?}"),
        }
    }
    assert_eq!(s.principal, Json::String("user-1".to_owned()));
}

#[test]
fn an_expired_confirm_is_recorded_in_the_store() {
    let agent = agent_core();
    let mut s = session();
    let id = proposal_id(&propose_accepted(&mut s, validated("r1"), JsonMap::new()));
    let proposal = match confirm_start(&mut s, &id) {
        ConfirmStart::Revalidate { proposal, .. } => proposal,
        ConfirmStart::Done(_) => panic!("expected revalidation"),
    };
    assert!(matches!(agent.confirm_revalidated(&mut s, &id, &proposal, Ok(validated("r2"))), ConfirmCheck::Expired(_)));
    assert_eq!(s.proposals().get(&id).map(|t| t.state), Some(ProposalState::Expired));
    match confirm_start(&mut s, &id) {
        ConfirmStart::Done(events) => assert_eq!(state_of(&events[0]).1, ProposalState::Expired),
        ConfirmStart::Revalidate { .. } => panic!("an expired proposal cannot execute"),
    }
}
