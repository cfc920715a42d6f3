use cleverhans::envelope::ActionProposal;
use cleverhans::error::TransitionError;
use cleverhans::json::JsonMap;
use cleverhans::proposal::{ProposalState, ProposalStore};

fn proposal(id: &str) -> ActionProposal {
    ActionProposal {
        proposal_id: id.to_owned(),
        action_id: "a.b".to_owned(),
        params: JsonMap::new(),
        block_type: "confirm".to_owned(),
        slots: JsonMap::new(),
        preview: None,
        context_seq: 0,
        turn_msg_id: None,
    }
}

#[test]
fn validated_can_be_confirmed() {
    assert!(ProposalState::Validated.can_transition_to(ProposalState::Confirmed));
}

#[test]
fn confirmed_can_execute() {
    assert!(ProposalState::Confirmed.can_transition_to(ProposalState::Executed));
}

#[test]
fn executed_is_terminal() {
    assert!(ProposalState::Executed.is_terminal());
}

#[test]
fn validated_cannot_execute_directly() {
    assert!(!ProposalState::Validated.can_transition_to(ProposalState::Executed));
}

#[test]
fn rejected_cannot_be_confirmed() {
    assert!(!ProposalState::Rejected.can_transition_to(ProposalState::Confirmed));
}

#[test]
fn applies_legal_transition() {
    let mut store = ProposalStore::new();
    store.insert_validated(proposal("prop-1"), JsonMap::new());

    let state = store.transition("prop-1", ProposalState::Confirmed);

    assert_eq!(state, Ok(ProposalState::Confirmed));
}

#[test]
fn rejects_illegal_transition() {
    let mut store = ProposalStore::new();
    store.insert_validated(proposal("prop-1"), JsonMap::new());

    let result = store.transition("prop-1", ProposalState::Executed);

    assert_eq!(
        result,
        Err(TransitionError::Illegal { from: ProposalState::Validated, to: ProposalState::Executed })
    );
}

#[test]
fn rejects_unknown_proposal() {
    let mut store = ProposalStore::new();

    let result = store.transition("nope", ProposalState::Confirmed);

    assert_eq!(result, Err(TransitionError::UnknownProposal("nope".to_owned())));
}

#[test]
fn returns_the_witness_and_marks_the_proposal_confirmed() {
    let mut store = ProposalStore::new();
    store.insert_validated(proposal("prop-1"), JsonMap::new());

    let confirmed = store.confirm("prop-1").expect("pending proposal");

    assert_eq!(confirmed.proposal().proposal_id, "prop-1");
    assert_eq!(store.get("prop-1").map(|t| t.state), Some(ProposalState::Confirmed));
}

#[test]
fn refuses_a_rejected_proposal() {
    let mut store = ProposalStore::new();
    store.insert_validated(proposal("prop-1"), JsonMap::new());
    store.transition("prop-1", ProposalState::Rejected).expect("legal transition");

    let result = store.confirm("prop-1");

    assert!(matches!(
        result,
        Err(TransitionError::Illegal { from: ProposalState::Rejected, to: ProposalState::Confirmed })
    ));
}

#[test]
fn refuses_an_unknown_proposal() {
    let mut store = ProposalStore::new();

    let result = store.confirm("nope");

    assert!(matches!(result, Err(TransitionError::UnknownProposal(id)) if id == "nope"));
}

#[test]
fn expires_only_validated_proposals() {
    let mut store = ProposalStore::new();
    store.insert_validated(proposal("prop-1"), JsonMap::new());
    store.insert_validated(proposal("prop-2"), JsonMap::new());
    store.transition("prop-2", ProposalState::Rejected).expect("legal transition");

    let expired = store.expire_pending();

    assert_eq!(expired, vec!["prop-1".to_owned()]);
}

#[test]
fn terminal_states_admit_no_transition() {
    let all = [
        ProposalState::Proposed,
        ProposalState::Invalid,
        ProposalState::Validated,
        ProposalState::Confirmed,
        ProposalState::Executed,
        ProposalState::Rejected,
        ProposalState::Expired,
        ProposalState::Failed,
    ];
    for from in all {
        for to in all {
            if from.is_terminal() {
                assert!(!from.can_transition_to(to));
            }
            assert!(!(from.can_transition_to(to) && to == ProposalState::Proposed));
            assert!(!(from.can_transition_to(to) && to == from));
        }
    }
}

#[test]
fn state_names_are_the_wire_names() {
    assert_eq!(ProposalState::Executed.name(), "executed");
    assert_eq!(ProposalState::Validated.name(), "validated");
    assert_eq!(ProposalState::Expired.name(), "expired");
}

#[test]
fn allocated_ids_are_distinct() {
    let mut store = ProposalStore::new();
    let a = store.allocate_id();
    let b = store.allocate_id();
    assert_ne!(a, b);
}

#[test]
fn transition_messages_name_the_states() {
    assert_eq!(
        TransitionError::Illegal { from: ProposalState::Validated, to: ProposalState::Executed }.message(),
        "illegal transition validated -> executed"
    );
    assert_eq!(TransitionError::UnknownProposal("x".to_owned()).message(), "unknown proposal `x`");
}
