use cleverhans::envelope::{ActionProposal, Context, ServerEvent};
use cleverhans::evals::{actual_from_events, judge, outcome_matches, Actual, EvalCase, EvalReport, Expected};
use cleverhans::json::{Json, JsonMap};

fn params(entries: Vec<(&str, &str)>) -> JsonMap {
    let mut m = JsonMap::new();
    for (k, v) in entries {
        m.insert(k.to_owned(), Json::String(v.to_owned()));
    }
    m
}

fn case(name: &str, expected: Expected) -> EvalCase {
    EvalCase { name: name.to_owned(), utterance: "make a note".to_owned(), context: Context::empty(), expected }
}

fn proposal(action_id: &str, p: JsonMap) -> ServerEvent {
    ServerEvent::ActionProposal(ActionProposal {
        proposal_id: "prop-1".to_owned(),
        action_id: action_id.to_owned(),
        params: p,
        block_type: "confirm".to_owned(),
        slots: JsonMap::new(),
        preview: None,
        context_seq: 0,
        turn_msg_id: None,
    })
}

#[test]
fn suite_scores_matches_and_mismatches() {
    let hit = judge(
        case("note", Expected::Action { action_id: "note.create".to_owned(), params: params(vec![("title", "groceries")]) }),
        Actual::Proposed { action_id: "note.create".to_owned(), params: params(vec![("title", "groceries")]) },
    );
    let miss = judge(case("chat", Expected::Decline), Actual::Proposed { action_id: "note.create".to_owned(), params: JsonMap::new() });
    let report = EvalReport { outcomes: vec![hit, miss] };
    assert_eq!(report.passed(), 1);
    assert!(!report.all_passed());
}

#[test]
fn param_subset_match_ignores_extra_filled_params() {
    let expected = Expected::Action { action_id: "note.create".to_owned(), params: params(vec![("title", "groceries")]) };
    let actual = Actual::Proposed {
        action_id: "note.create".to_owned(),
        params: params(vec![("title", "groceries"), ("recordId", "r-1")]),
    };
    assert!(outcome_matches(&expected, &actual));
    let wrong = Actual::Proposed { action_id: "note.create".to_owned(), params: params(vec![("title", "milk")]) };
    assert!(!outcome_matches(&expected, &wrong));
    assert!(!outcome_matches(&expected, &Actual::Declined));
    assert!(outcome_matches(&Expected::Decline, &Actual::Declined));
    assert!(!outcome_matches(&Expected::Decline, &Actual::Error("x".to_owned())));
}

#[test]
fn the_first_proposal_or_error_decides_the_turn() {
    let events = vec![
        ServerEvent::ChatMessage { msg_id: "m".to_owned(), text: "ok".to_owned(), done: true },
        proposal("a.b", JsonMap::new()),
        ServerEvent::Error { code: "x".to_owned(), message: "later".to_owned(), recoverable: true },
    ];
    assert!(matches!(actual_from_events(events), Actual::Proposed { action_id, .. } if action_id == "a.b"));
    let errors = vec![ServerEvent::Error { code: "llm".to_owned(), message: "down".to_owned(), recoverable: true }];
    assert!(matches!(actual_from_events(errors), Actual::Error(m) if m == "down"));
    assert!(matches!(actual_from_events(vec![]), Actual::Declined));
}

#[test]
fn an_empty_suite_passes() {
    let report = EvalReport { outcomes: vec![] };
    assert_eq!(report.passed(), 0);
    assert!(report.all_passed());
}
