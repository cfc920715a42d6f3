use cleverhans::json::{Json, JsonMap, JsonNumber};
use cleverhans::matcher::{match_events, match_value, substitute, Bindings};

fn n(v: u64) -> Json {
    Json::Number(JsonNumber::PosInt(v))
}

fn s(v: &str) -> Json {
    Json::String(v.to_owned())
}

fn obj(entries: Vec<(&str, Json)>) -> Json {
    let mut m = JsonMap::new();
    for (k, v) in entries {
        m.insert(k.to_owned(), v);
    }
    Json::Object(m)
}

fn arr(items: Vec<Json>) -> Json {
    Json::Array(items)
}

fn matches(expected: Json, actual: Json) -> Result<(), String> {
    match_value(&expected, &actual, &mut Bindings::default(), "root")
}

#[test]
fn objects_match_by_subset() {
    assert!(matches(obj(vec![("a", n(1))]), obj(vec![("a", n(1)), ("b", n(2))])).is_ok());
    assert!(matches(obj(vec![("a", n(1)), ("c", n(3))]), obj(vec![("a", n(1))])).is_err());
}

#[test]
fn exact_closes_subset_matching() {
    assert!(matches(obj(vec![("$exact", obj(vec![("a", n(1))]))]), obj(vec![("a", n(1)), ("b", n(2))])).is_err());
    assert!(matches(obj(vec![("$exact", obj(vec![("a", n(1))]))]), obj(vec![("a", n(1))])).is_ok());
}

#[test]
fn keys_pins_the_key_set_without_values() {
    assert!(matches(obj(vec![("$keys", arr(vec![s("a"), s("b")]))]), obj(vec![("b", n(0)), ("a", n(9))])).is_ok());
    assert!(matches(obj(vec![("$keys", arr(vec![s("a")]))]), obj(vec![("a", n(1)), ("b", n(2))])).is_err());
}

#[test]
fn bind_then_ref_round_trips() {
    let mut bindings = Bindings::default();

    match_value(&obj(vec![("id", obj(vec![("$bind", s("P"))]))]), &obj(vec![("id", s("prop-1"))]), &mut bindings, "root")
        .expect("bind");

    assert!(match_value(
        &obj(vec![("id", obj(vec![("$ref", s("P"))]))]),
        &obj(vec![("id", s("prop-1"))]),
        &mut bindings,
        "root",
    )
    .is_ok());
    assert!(substitute(&obj(vec![("proposal_id", obj(vec![("$ref", s("P"))]))]), &bindings)
        .equals(&obj(vec![("proposal_id", s("prop-1"))])));
}

#[test]
fn absent_accepts_missing_or_null_fields() {
    assert!(matches(obj(vec![("x", obj(vec![("$absent", Json::Bool(true))]))]), obj(vec![])).is_ok());
    assert!(matches(obj(vec![("x", obj(vec![("$absent", Json::Bool(true))]))]), obj(vec![("x", Json::Null)])).is_ok());
    assert!(matches(obj(vec![("x", obj(vec![("$absent", Json::Bool(true))]))]), obj(vec![("x", n(1))])).is_err());
}

#[test]
fn arrays_need_exact_length() {
    assert!(matches(arr(vec![n(1), n(2)]), arr(vec![n(1), n(2)])).is_ok());
    assert!(matches(arr(vec![n(1)]), arr(vec![n(1), n(2)])).is_err());
}

#[test]
fn mismatch_reports_name_the_path() {
    assert_eq!(
        matches(obj(vec![("a", obj(vec![("b", n(1))]))]), obj(vec![("a", obj(vec![("b", n(2))]))])),
        Err("root.a.b: expected 1, got 2".to_owned())
    );
    assert_eq!(matches(obj(vec![("a", n(1))]), obj(vec![])), Err("root.a: missing".to_owned()));
    assert_eq!(
        matches(arr(vec![n(1)]), arr(vec![n(1), n(2)])),
        Err("root: expected 1 element(s), got 2".to_owned())
    );
    assert_eq!(
        matches(arr(vec![n(1), s("x")]), arr(vec![n(1), s("y")])),
        Err("root[1]: expected \"x\", got \"y\"".to_owned())
    );
    assert_eq!(
        matches(obj(vec![("$wat", n(1))]), n(1)),
        Err("root: unknown directive `$wat`".to_owned())
    );
}

#[test]
fn keys_report_lists_both_sorted_key_sets() {
    assert_eq!(
        matches(obj(vec![("$keys", arr(vec![s("b"), s("a")]))]), obj(vec![("a", n(1))])),
        Err("root: expected keys [\"a\", \"b\"], got [\"a\"]".to_owned())
    );
    assert_eq!(matches(obj(vec![("$keys", n(1))]), obj(vec![])), Err("root: $keys takes an array".to_owned()));
}

#[test]
fn unbound_ref_is_reported() {
    assert_eq!(matches(obj(vec![("$ref", s("Q"))]), n(1)), Err("root: $ref to unbound name `Q`".to_owned()));
}

#[test]
fn events_match_in_count_and_order() {
    let mut bindings = Bindings::new();
    assert!(match_events(&vec![obj(vec![("type", s("a"))])], &vec![obj(vec![("type", s("a")), ("x", n(1))])], &mut bindings).is_ok());
    let err = match_events(&vec![], &vec![n(1)], &mut bindings).unwrap_err();
    assert_eq!(err, "expected 0 event(s), got 1: [1]");
    let err = match_events(&vec![s("a")], &vec![s("b")], &mut bindings).unwrap_err();
    assert_eq!(err, "event[0]: expected \"a\", got \"b\"");
}

#[test]
fn bind_captures_the_value_for_later_lookup() {
    let mut bindings = Bindings::new();
    match_value(&obj(vec![("$bind", s("X"))]), &arr(vec![n(7)]), &mut bindings, "root").expect("bind");
    assert!(bindings.get("X").expect("bound").equals(&arr(vec![n(7)])));
    assert!(bindings.get("Y").is_none());
}
