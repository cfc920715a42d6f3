//! The decisions of a conformance run: what each step of a vector checks
//! against what the implementation emitted, independent of how the events
//! were produced (in process or through the webhook seams).

use vstd::prelude::*;

use crate::conformance::{normalize, normative_events, ExecutionExpectation};
use crate::envelope::strs_view;
use crate::json::{array_view, clone_items, json_text, json_view, map_view, to_json_text, Json, JsonMap, JsonV};
use crate::matcher::{match_value, outcome, value_match, Bindings};
use crate::text::{decimal, push_decimal, push_str};

verus! {

/// `"step N: "`, the prefix of a step's failure report.
pub open spec fn step_prefix(index: nat) -> Seq<char> {
    "step "@ + decimal(index) + ": "@
}

fn step_text(index: u64, tail: &str) -> (s: String)
    ensures
        s@ == step_prefix(index as nat) + tail@,
{
    let mut s = "step ".to_string();
    push_decimal(&mut s, index);
    push_str(&mut s, ": ");
    push_str(&mut s, tail);
    s
}

/// The expected deliveries against the delivered ones from position `i`
/// on: each pair in order, the first mismatch reported.
pub open spec fn deliveries_from(
    expected: Seq<JsonV>,
    actual: Seq<JsonV>,
    b: Seq<(Seq<char>, JsonV)>,
    i: int,
) -> (Seq<(Seq<char>, JsonV)>, Option<Seq<char>>)
    decreases expected.len() - i,
{
    if 0 <= i < expected.len() {
        let r = value_match(expected[i], actual[i], b, "delivery["@ + decimal(i as nat) + "]"@);
        match r.1 {
            Some(m) => (r.0, Some("delivery "@ + decimal(i as nat) + ": "@ + m)),
            None => deliveries_from(expected, actual, r.0, i + 1),
        }
    } else {
        (b, None)
    }
}

/// The delivery log against its expectation: the same count, then each
/// delivery in order.
pub open spec fn deliveries_match(expected: Seq<JsonV>, actual: Seq<JsonV>, b: Seq<(Seq<char>, JsonV)>) -> (
    Seq<(Seq<char>, JsonV)>,
    Option<Seq<char>>,
) {
    if expected.len() != actual.len() {
        (
            b,
            Some(
                "expected "@ + decimal(expected.len()) + " deliveries, got "@ + decimal(actual.len()) + ": "@
                    + json_text(JsonV::Array(actual)),
            ),
        )
    } else {
        deliveries_from(expected, actual, b, 0)
    }
}

/// A run in progress: the names bound so far, the events emitted since
/// the last expectation, and the stream's establishment.
#[derive(Debug)]
pub struct VectorRun {
    bindings: Bindings,
    buffer: Vec<Json>,
    connect_status: Option<u16>,
    established: bool,
}

impl VectorRun {
    pub closed spec fn bound(self) -> Seq<(Seq<char>, JsonV)> {
        self.bindings.bound()
    }

    /// Events emitted and not yet matched.
    pub closed spec fn pending(self) -> Seq<JsonV> {
        array_view(self.buffer)
    }

    /// The last establishment status (101 when established).
    pub closed spec fn status(self) -> Option<u16> {
        self.connect_status
    }

    /// Whether a stream has been established.
    pub closed spec fn is_established(self) -> bool {
        self.established
    }

    /// A run before any step.
    pub fn new() -> (r: VectorRun)
        ensures
            r.bound().len() == 0,
            r.pending().len() == 0,
            r.status() is None,
            !r.is_established(),
    {
        let r = VectorRun { bindings: Bindings::new(), buffer: Vec::new(), connect_status: None, established: false };
        assert(r.pending() =~= Seq::<JsonV>::empty());
        r
    }

    /// The names bound so far, for substituting outbound payloads.
    pub fn bindings(&self) -> (b: &Bindings)
        ensures
            b.bound() == self.bound(),
    {
        &self.bindings
    }

    /// Records an establishment attempt: admitted (101) or refused with
    /// a status. A refused attempt keeps an earlier stream.
    pub fn connected(&mut self, result: Result<(), u16>)
        ensures
            final(self).bound() == old(self).bound(),
            final(self).pending() == old(self).pending(),
            final(self).status() == Some(match result {
                Ok(()) => 101u16,
                Err(s) => s,
            }),
            final(self).is_established() == (result is Ok || old(self).is_established()),
    {
        match result {
            Ok(()) => {
                self.connect_status = Some(101);
                self.established = true;
            },
            Err(s) => {
                self.connect_status = Some(s);
            },
        }
    }

    /// Checks the establishment outcome of step `index`.
    pub fn expect_connect(&self, index: u64, status: u16) -> (r: Result<(), String>)
        ensures
            match self.status() {
                None => r matches Err(m) && m@ == step_prefix(index as nat) + "expect_connect before connect"@,
                Some(a) => if a == status {
                    r is Ok
                } else {
                    r matches Err(m) && m@ == step_prefix(index as nat) + "expected connect status "@ + decimal(
                        status as nat,
                    ) + ", got "@ + decimal(a as nat)
                },
            },
    {
        match self.connect_status {
            None => Err(step_text(index, "expect_connect before connect")),
            Some(a) => if a == status {
                Ok(())
            } else {
                let mut m = step_text(index, "expected connect status ");
                push_decimal(&mut m, status as u64);
                push_str(&mut m, ", got ");
                push_decimal(&mut m, a as u64);
                Err(m)
            },
        }
    }

    /// Checks that step `index` may send: a stream must be established.
    pub fn check_send(&self, index: u64) -> (r: Result<(), String>)
        ensures
            self.is_established() ==> r is Ok,
            !self.is_established() ==> (r matches Err(m) && m@ == step_prefix(index as nat)
                + "send before an established connect"@),
    {
        if self.established {
            Ok(())
        } else {
            Err(step_text(index, "send before an established connect"))
        }
    }

    /// Buffers the events the implementation emitted.
    pub fn record(&mut self, events: Vec<Json>)
        ensures
            final(self).bound() == old(self).bound(),
            final(self).pending() == old(self).pending() + array_view(events),
            final(self).status() == old(self).status(),
            final(self).is_established() == old(self).is_established(),
    {
        let ghost old_buf = self.buffer;
        let ghost ev = events;
        let mut events = events;
        self.buffer.append(&mut events);
        assert forall|k: int| 0 <= k < self.buffer@.len() implies #[trigger] array_view(self.buffer)[k] == (array_view(
            old_buf,
        ) + array_view(ev))[k] by {
            if k < old_buf@.len() {
                assert(self.buffer@[k] == old_buf@[k]);
            } else {
                assert(self.buffer@[k] == ev@[k - old_buf@.len()]);
            }
        }
        assert(array_view(self.buffer) =~= array_view(old_buf) + array_view(ev));
    }

    /// Step `index` expects these events: the buffered events, less the
    /// non-normative ones, must match them in order; the buffer empties.
    pub fn expect(&mut self, index: u64, expected: &Vec<Json>, ignore_types: &Vec<String>, keep_deltas: bool) -> (r: Result<
        (),
        String,
    >)
        ensures
            ({
                let actual = normative_events(old(self).pending(), strs_view(ignore_types@), keep_deltas);
                let (b, o) = crate::matcher::events_match(array_view(*expected), actual, old(self).bound());
                &&& final(self).bound() == b
                &&& match o {
                    None => r is Ok,
                    Some(m) => r matches Err(x) && x@ == step_prefix(index as nat) + m,
                }
            }),
            final(self).pending().len() == 0,
            final(self).status() == old(self).status(),
            final(self).is_established() == old(self).is_established(),
    {
        let mut taken: Vec<Json> = Vec::new();
        std::mem::swap(&mut taken, &mut self.buffer);
        assert(array_view(self.buffer) =~= Seq::<JsonV>::empty());
        let actual = normalize(taken, ignore_types, keep_deltas);
        match crate::matcher::match_events(expected, &actual, &mut self.bindings) {
            Ok(()) => Ok(()),
            Err(m) => Err(step_text(index, m.as_str())),
        }
    }

    /// Ends a run: no normative event may be left unmatched.
    pub fn finish(&mut self, ignore_types: &Vec<String>, keep_deltas: bool) -> (r: Result<(), String>)
        ensures
            normative_events(old(self).pending(), strs_view(ignore_types@), keep_deltas).len() == 0 ==> r is Ok,
            normative_events(old(self).pending(), strs_view(ignore_types@), keep_deltas).len() > 0 ==> (r matches Err(m)
                && m@ == "trailing events after the last expect"@),
            final(self).pending().len() == 0,
            final(self).bound() == old(self).bound(),
    {
        let mut taken: Vec<Json> = Vec::new();
        std::mem::swap(&mut taken, &mut self.buffer);
        assert(array_view(self.buffer) =~= Seq::<JsonV>::empty());
        let left = normalize(taken, ignore_types, keep_deltas);
        if left.len() == 0 {
            Ok(())
        } else {
            Err("trailing events after the last expect".to_owned())
        }
    }

    /// Matches the host's delivery log against the vector's expectation.
    pub fn check_deliveries(&mut self, expected: &Vec<Json>, actual: &Vec<Json>) -> (r: Result<(), String>)
        ensures
            ({
                let (b, o) = deliveries_match(array_view(*expected), array_view(*actual), old(self).bound());
                &&& final(self).bound() == b
                &&& outcome(r) == o
            }),
            final(self).pending() == old(self).pending(),
    {
        let ghost ev = array_view(*expected);
        let ghost av = array_view(*actual);
        if expected.len() != actual.len() {
            let mut m = "expected ".to_string();
            push_decimal(&mut m, expected.len() as u64);
            push_str(&mut m, " deliveries, got ");
            push_decimal(&mut m, actual.len() as u64);
            push_str(&mut m, ": ");
            let listed = Json::Array(clone_items(actual));
            push_str(&mut m, to_json_text(&listed).as_str());
            return Err(m);
        }
        let ghost b0 = self.bindings.bound();
        let mut i: usize = 0;
        while i < expected.len()
            invariant
                i <= expected.len(),
                expected.len() == actual.len(),
                ev == array_view(*expected),
                av == array_view(*actual),
                ev.len() == expected.len(),
                av.len() == actual.len(),
                deliveries_from(ev, av, self.bindings.bound(), i as int) == deliveries_match(ev, av, b0),
                array_view(self.buffer) == old(self).pending(),
                b0 == old(self).bound(),
            decreases expected.len() - i,
        {
            let mut p = "delivery[".to_string();
            push_decimal(&mut p, i as u64);
            push_str(&mut p, "]");
            assert(ev[i as int] == json_view(expected[i as int]));
            assert(av[i as int] == json_view(actual[i as int]));
            let ghost bi = self.bindings.bound();
            let ghost step = value_match(ev[i as int], av[i as int], bi, p@);
            match match_value(&expected[i], &actual[i], &mut self.bindings, p.as_str()) {
                Ok(()) => {
                    assert(step.1 is None);
                    assert(deliveries_from(ev, av, bi, i as int) == deliveries_from(ev, av, step.0, i + 1));
                },
                Err(e) => {
                    assert(step.1 == Some(e@));
                    assert(deliveries_from(ev, av, bi, i as int) == (step.0, Some("delivery "@ + decimal(i as nat) + ": "@ + e@)));
                    let mut m = "delivery ".to_string();
                    push_decimal(&mut m, i as u64);
                    push_str(&mut m, ": ");
                    push_str(&mut m, e.as_str());
                    return Err(m);
                },
            }
            i = i + 1;
        }
        Ok(())
    }
}

/// An execution log as comparable values.
pub open spec fn executions_v(v: Seq<ExecutionExpectation>) -> Seq<(Seq<char>, Seq<(Seq<char>, JsonV)>)> {
    v.map_values(|x: ExecutionExpectation| (x.action_id@, map_view(x.params)))
}

/// An execution log as JSON: `[{"action_id", "params"}, ...]`.
pub open spec fn executions_value(v: Seq<(Seq<char>, Seq<(Seq<char>, JsonV)>)>) -> JsonV {
    JsonV::Array(
        v.map_values(
            |x: (Seq<char>, Seq<(Seq<char>, JsonV)>)|
                JsonV::Object(
                    crate::json::entries_insert(
                        crate::json::entries_insert(Seq::empty(), "action_id"@, JsonV::String(x.0)),
                        "params"@,
                        JsonV::Object(x.1),
                    ),
                ),
        ),
    )
}

fn executions_json(v: &Vec<ExecutionExpectation>) -> (j: Json)
    ensures
        json_view(j) == executions_value(executions_v(v@)),
{
    let mut items: Vec<Json> = Vec::new();
    let mut i: usize = 0;
    while i < v.len()
        invariant
            i <= v.len(),
            items.len() == i,
            forall|k: int| 0 <= k < i ==> json_view(#[trigger] items[k]) == executions_value(executions_v(v@))->Array_0[k],
        decreases v.len() - i,
    {
        let mut m = JsonMap::new();
        m.insert("action_id".to_owned(), Json::String(v[i].action_id.clone()));
        m.insert("params".to_owned(), Json::Object(v[i].params.deep_clone()));
        items.push(Json::Object(m));
        i = i + 1;
    }
    let j = Json::Array(items);
    assert(array_view(items) =~= executions_value(executions_v(v@))->Array_0);
    j
}

fn same_executions(a: &Vec<ExecutionExpectation>, b: &Vec<ExecutionExpectation>) -> (r: bool)
    ensures
        r == (executions_v(a@) == executions_v(b@)),
{
    if a.len() != b.len() {
        assert(executions_v(a@).len() != executions_v(b@).len());
        return false;
    }
    let mut i: usize = 0;
    while i < a.len()
        invariant
            i <= a.len(),
            a.len() == b.len(),
            forall|k: int| 0 <= k < i ==> executions_v(a@)[k] == executions_v(b@)[k],
        decreases a.len() - i,
    {
        let same_id = crate::text::str_eq(a[i].action_id.as_str(), b[i].action_id.as_str());
        if !same_id || !a[i].params.equals(&b[i].params) {
            assert(executions_v(a@)[i as int] != executions_v(b@)[i as int]);
            return false;
        }
        i = i + 1;
    }
    assert(executions_v(a@) =~= executions_v(b@));
    true
}

/// The execution log against the vector's expectation, when it has one.
pub fn check_executions(expected: Option<&Vec<ExecutionExpectation>>, actual: &Vec<ExecutionExpectation>) -> (r: Result<
    (),
    String,
>)
    ensures
        match expected {
            None => r is Ok,
            Some(e) => if executions_v(e@) == executions_v(actual@) {
                r is Ok
            } else {
                r matches Err(m) && m@ == "executions diverge: expected "@ + json_text(
                    executions_value(executions_v(e@)),
                ) + ", got "@ + json_text(executions_value(executions_v(actual@)))
            },
        },
{
    match expected {
        None => Ok(()),
        Some(e) => if same_executions(e, actual) {
            Ok(())
        } else {
            let mut m = "executions diverge: expected ".to_string();
            push_str(&mut m, to_json_text(&executions_json(e)).as_str());
            push_str(&mut m, ", got ");
            push_str(&mut m, to_json_text(&executions_json(actual)).as_str());
            Err(m)
        },
    }
}

} // verus!
