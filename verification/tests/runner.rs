use cleverhans::conformance::ExecutionExpectation;
use cleverhans::json::{Json, JsonMap, JsonNumber};
use cleverhans::matcher::{refs_are_bound, substitute};
use cleverhans::runner::{check_executions, VectorRun};

fn n(v: u64) -> Json {
    Json::Number(JsonNumber::PosInt(v))
}

fn s(v: &str) -> Json {
    Json::String(v.to_owned())
}

fn obj(entries: Vec<(&str, Json)>) -> Json {
    let mut m = JsonMap::new();
    for (k, v) in entries {
        m.insert(k.to_owned(), v);
    }
    Json::Object(m)
}

fn delta(text: &str) -> Json {
    obj(vec![("type", s("chat_message")), ("text", s(text)), ("done", Json::Bool(false))])
}

#[test]
fn establishment_is_checked_before_sends() {
    let mut run = VectorRun::new();
    assert_eq!(run.expect_connect(0, 101), Err("step 0: expect_connect before connect".to_owned()));
    run.connected(Err(401));
    assert_eq!(run.expect_connect(1, 101), Err("step 1: expected connect status 101, got 401".to_owned()));
    assert_eq!(run.expect_connect(1, 401), Ok(()));
    assert_eq!(run.check_send(2), Err("step 2: send before an established connect".to_owned()));
    run.connected(Ok(()));
    assert_eq!(run.expect_connect(3, 101), Ok(()));
    assert_eq!(run.check_send(4), Ok(()));
    run.connected(Err(503));
    assert_eq!(run.check_send(5), Ok(()));
}

#[test]
fn expectations_match_normative_events_and_bind_names() {
    let mut run = VectorRun::new();
    run.record(vec![delta("Hel"), obj(vec![("type", s("action_proposal")), ("proposal_id", s("p_1"))])]);
    let expected = vec![obj(vec![("type", s("action_proposal")), ("proposal_id", obj(vec![("$bind", s("pid"))]))])];
    assert_eq!(run.expect(3, &expected, &Vec::new(), false), Ok(()));
    let payload = obj(vec![("type", s("confirm_action")), ("proposal_id", obj(vec![("$ref", s("pid"))]))]);
    assert!(refs_are_bound(&payload, run.bindings()));
    assert_eq!(
        substitute(&payload, run.bindings()),
        obj(vec![("type", s("confirm_action")), ("proposal_id", s("p_1"))])
    );
    assert!(!refs_are_bound(&obj(vec![("$ref", s("other"))]), run.bindings()));
    assert_eq!(run.finish(&Vec::new(), false), Ok(()));
}

#[test]
fn a_failed_expectation_names_its_step() {
    let mut run = VectorRun::new();
    run.record(vec![obj(vec![("type", s("error"))])]);
    let r = run.expect(7, &vec![obj(vec![("type", s("chat_message"))])], &Vec::new(), false);
    assert!(r.unwrap_err().starts_with("step 7: "));
    assert_eq!(run.finish(&Vec::new(), false), Ok(()));
}

#[test]
fn unmatched_events_at_the_end_fail_the_run() {
    let mut run = VectorRun::new();
    run.record(vec![obj(vec![("type", s("error"))]), delta("x")]);
    assert_eq!(run.finish(&Vec::new(), false), Err("trailing events after the last expect".to_owned()));
    let mut run = VectorRun::new();
    run.record(vec![delta("x"), obj(vec![("type", s("usage"))])]);
    assert_eq!(run.finish(&vec!["usage".to_owned()], false), Ok(()));
}

#[test]
fn deliveries_are_matched_in_order_with_a_count_first() {
    let mut run = VectorRun::new();
    assert_eq!(
        run.check_deliveries(&vec![obj(vec![])], &Vec::new()),
        Err("expected 1 deliveries, got 0: []".to_owned())
    );
    let got = vec![obj(vec![("endpoint", s("authorize")), ("body", obj(vec![("n", n(1))]))])];
    assert_eq!(run.check_deliveries(&vec![obj(vec![("endpoint", s("authorize"))])], &got), Ok(()));
    let r = run.check_deliveries(&vec![obj(vec![("endpoint", s("execute"))])], &got);
    assert!(r.unwrap_err().starts_with("delivery 0: "));
}

#[test]
fn execution_logs_must_agree_when_expected() {
    let log = vec![ExecutionExpectation { action_id: "a".to_owned(), params: JsonMap::new() }];
    assert_eq!(check_executions(None, &log), Ok(()));
    let same = vec![ExecutionExpectation { action_id: "a".to_owned(), params: JsonMap::new() }];
    assert_eq!(check_executions(Some(&same), &log), Ok(()));
    let r = check_executions(Some(&Vec::new()), &log);
    assert_eq!(r, Err("executions diverge: expected [], got [{\"action_id\":\"a\",\"params\":{}}]".to_owned()));
}
