use cleverhans::envelope::{ActionProposal, ClientEvent, DryRunPreview, ServerEvent};
use cleverhans::grpc::{client_event, server_event, ConvertError};
use cleverhans::json::{Json, JsonMap};
use cleverhans::pb;
use cleverhans::proposal::ProposalState;

fn removed_true() -> Json {
    let mut m = JsonMap::new();
    m.insert("removed".to_owned(), Json::Bool(true));
    Json::Object(m)
}

#[test]
fn rejects_empty_oneof() {
    let result = client_event(pb::ClientEvent { event: None });

    assert_eq!(result.unwrap_err(), ConvertError::EmptyEvent);
}

#[test]
fn maps_confirm_action() {
    let event = pb::ClientEvent {
        event: Some(pb::ClientEventKind::ConfirmAction(pb::ConfirmAction { proposal_id: "prop-1".to_owned() })),
    };

    let result = client_event(event).expect("valid event");

    assert!(matches!(result, ClientEvent::ConfirmAction { proposal_id } if proposal_id == "prop-1"));
}

#[test]
fn state_change_uses_spec_state_names() {
    let event = server_event(ServerEvent::ProposalStateChanged {
        proposal_id: "prop-1".to_owned(),
        state: ProposalState::Executed,
        reason: None,
        result: Some(removed_true()),
    });

    let Some(pb::ServerEventKind::ProposalStateChanged(changed)) = event.event else {
        panic!("wrong variant: {event:?}");
    };
    assert_eq!(changed.state, "executed");
    assert_eq!(changed.result, Some(removed_true()));
}

#[test]
fn init_without_context_is_a_missing_field() {
    let event = pb::ClientEvent {
        event: Some(pb::ClientEventKind::Init(pb::Init { spec_version: "0.1".to_owned(), context: None })),
    };
    let err = client_event(event).unwrap_err();
    assert_eq!(err, ConvertError::MissingField("context"));
    assert_eq!(err.message(), "missing field `context`");
    assert_eq!(ConvertError::EmptyEvent.message(), "client event has no payload");
}

#[test]
fn absent_context_objects_read_as_empty() {
    let event = pb::ClientEvent {
        event: Some(pb::ClientEventKind::ContextUpdate(pb::ContextUpdate {
            context: Some(pb::Context {
                route: "/records".to_owned(),
                params: None,
                selected_record_id: Some("r-1".to_owned()),
                view_type: None,
                extensions: None,
            }),
            context_seq: 7,
        })),
    };
    match client_event(event).expect("valid") {
        ClientEvent::ContextUpdate { context, context_seq } => {
            assert_eq!(context_seq, 7);
            assert_eq!(context.route, "/records");
            assert_eq!(context.selected_record_id.as_deref(), Some("r-1"));
            assert_eq!(context.params.len(), 0);
            assert_eq!(context.extensions.len(), 0);
        },
        other => panic!("wrong variant: {other:?}"),
    }
}

#[test]
fn proposals_carry_present_objects_and_previews() {
    let event = server_event(ServerEvent::ActionProposal(ActionProposal {
        proposal_id: "prop-2".to_owned(),
        action_id: "record.archive".to_owned(),
        params: JsonMap::new(),
        block_type: "confirm".to_owned(),
        slots: JsonMap::new(),
        preview: Some(DryRunPreview {
            affected_count: 3,
            sample_ids: vec!["a".to_owned()],
            summary: None,
            extensions: JsonMap::new(),
        }),
        context_seq: 4,
        turn_msg_id: Some("m-1".to_owned()),
    }));
    let Some(pb::ServerEventKind::ActionProposal(p)) = event.event else {
        panic!("wrong variant");
    };
    assert_eq!(p.proposal_id, "prop-2");
    assert!(p.params.is_some() && p.slots.is_some());
    let preview = p.preview.expect("preview");
    assert_eq!(preview.affected_count, 3);
    assert!(preview.extensions.is_some());
    assert_eq!(p.context_seq, 4);
}
