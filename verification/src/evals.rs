//! Action-mapping evals: does an utterance in a context resolve to the
//! expected action with the expected utterance params?

use vstd::prelude::*;

use crate::envelope::{Context, ServerEvent};
use crate::json::{entry_get, lemma_entry_index_facts, map_view, JsonMap, JsonV};

verus! {

/// The expected outcome of a case.
#[derive(Debug)]
pub enum Expected {
    /// A proposal for this action, with at least these params (subset match:
    /// params the case does not list are ignored).
    Action { action_id: String, params: JsonMap },
    /// No proposal: the agent should answer conversationally.
    Decline,
}

/// One eval case: an utterance in a context, and what should come of it.
#[derive(Debug)]
pub struct EvalCase {
    /// Human-readable case name.
    pub name: String,
    /// What the user says.
    pub utterance: String,
    /// The context snapshot the utterance is spoken in.
    pub context: Context,
    /// What the agent should do with it.
    pub expected: Expected,
}

/// What the agent actually did.
#[derive(Debug)]
pub enum Actual {
    /// Proposed this action with these (fully filled) params.
    Proposed { action_id: String, params: JsonMap },
    /// Answered conversationally without proposing.
    Declined,
    /// The turn produced a stream error.
    Error(String),
}

/// Every expected param is present in `filled` with exactly that value.
pub open spec fn params_subset(want: Seq<(Seq<char>, JsonV)>, filled: Seq<(Seq<char>, JsonV)>) -> bool {
    forall|i: int| 0 <= i < want.len() ==> entry_get(filled, #[trigger] want[i].0) == Some(want[i].1)
}

/// Whether what happened satisfies what was expected: a decline for a
/// decline, or a proposal of the expected action whose params include the
/// expected ones.
pub open spec fn satisfies(expected: Expected, actual: Actual) -> bool {
    match (expected, actual) {
        (Expected::Decline, Actual::Declined) => true,
        (Expected::Action { action_id, params }, Actual::Proposed { action_id: proposed, params: filled }) => action_id@
            == proposed@ && params_subset(map_view(params), map_view(filled)),
        _ => false,
    }
}

/// A case passes only as intended: an expected decline only by a decline,
/// and an expected action only by a proposal of that same action holding,
/// under every expected key, the expected value.
pub proof fn law_pass_means_same_action_and_params(expected: Expected, actual: Actual, k: Seq<char>)
    requires
        satisfies(expected, actual),
    ensures
        expected is Decline ==> actual is Declined,
        expected matches Expected::Action { action_id, params } ==> (actual matches Actual::Proposed {
            action_id: proposed,
            params: filled,
        } && proposed@ == action_id@ && (entry_get(map_view(params), k) matches Some(v) ==> entry_get(map_view(filled), k)
            == Some(v))),
{
    if let Expected::Action { action_id, params } = expected {
        lemma_entry_index_facts(map_view(params), k);
        if let Some(i) = crate::json::entry_index(map_view(params), k) {
            assert(map_view(params)[i].0 == k);
        }
    }
}

/// Whether `actual` satisfies `expected`.
pub fn outcome_matches(expected: &Expected, actual: &Actual) -> (r: bool)
    ensures
        r == satisfies(*expected, *actual),
{
    match (expected, actual) {
        (Expected::Decline, Actual::Declined) => true,
        (Expected::Action { action_id, params }, Actual::Proposed { action_id: proposed, params: filled }) => {
            if !crate::text::str_eq(action_id.as_str(), proposed.as_str()) {
                return false;
            }
            let n = params.len();
            let mut i: usize = 0;
            while i < n
                invariant
                    i <= n,
                    n == map_view(*params).len(),
                    satisfies(*expected, *actual) == params_subset(map_view(*params), map_view(*filled)),
                    forall|j: int| 0 <= j < i ==> entry_get(map_view(*filled), #[trigger] map_view(*params)[j].0) == Some(
                        map_view(*params)[j].1,
                    ),
                decreases n - i,
            {
                let key = params.key_at(i);
                let value = params.value_at(i);
                match filled.get(key.as_str()) {
                    Some(v) => {
                        if !v.equals(value) {
                            assert(entry_get(map_view(*filled), map_view(*params)[i as int].0) != Some(map_view(*params)[i as int].1));
                            return false;
                        }
                    },
                    None => {
                        assert(entry_get(map_view(*filled), map_view(*params)[i as int].0) != Some(map_view(*params)[i as int].1));
                        return false;
                    },
                }
                i = i + 1;
            }
            true
        },
        _ => false,
    }
}

/// The first proposal or error among a turn's events, if any.
pub open spec fn first_decisive(events: Seq<ServerEvent>) -> Option<int> {
    if exists|i: int| 0 <= i < events.len() && decisive(#[trigger] events[i]) && (forall|j: int| 0 <= j < i ==> !decisive(events[j])) {
        Some(choose|i: int| 0 <= i < events.len() && decisive(#[trigger] events[i]) && (forall|j: int| 0 <= j < i ==> !decisive(events[j])))
    } else {
        None
    }
}

pub open spec fn decisive(e: ServerEvent) -> bool {
    e is ActionProposal || e is Error
}

/// Whether `a` is what a turn with these events amounts to: the first
/// proposal (its action and filled params) or the first error (its message),
/// whichever comes first; otherwise a decline.
pub open spec fn actual_of(events: Seq<ServerEvent>, a: Actual) -> bool {
    match first_decisive(events) {
        None => a is Declined,
        Some(i) => match events[i] {
            ServerEvent::ActionProposal(p) => a matches Actual::Proposed { action_id, params } && action_id@
                == p.action_id@ && map_view(params) == map_view(p.params),
            ServerEvent::Error { message, .. } => a matches Actual::Error(m) && m@ == message@,
            _ => false,
        },
    }
}

/// What a turn's events amount to.
pub fn actual_from_events(events: Vec<ServerEvent>) -> (a: Actual)
    ensures
        actual_of(events@, a),
{
    let ghost ev = events@;
    assert(ev.len() == events.len());
    let mut rest = events;
    let mut k: usize = 0;
    while rest.len() > 0
        invariant
            k + rest.len() == ev.len(),
            ev.len() <= usize::MAX,
            ev == events@,
            rest@ == ev.skip(k as int),
            forall|j: int| 0 <= j < k ==> !decisive(ev[j]),
        decreases rest.len(),
    {
        let ghost before = rest@;
        let event = rest.remove(0);
        assert(event == ev[k as int]) by {
            assert(before[0] == ev.skip(k as int)[0]);
        }
        proof {
            if decisive(event) {
                assert(first_decisive(ev) == Some(k as int)) by {
                    let c = choose|c: int| 0 <= c < ev.len() && decisive(#[trigger] ev[c]) && (forall|j: int| 0 <= j < c ==> !decisive(ev[j]));
                    assert(0 <= k < ev.len() && decisive(ev[k as int]) && (forall|j: int| 0 <= j < k ==> !decisive(ev[j])));
                    if c < k {
                        assert(!decisive(ev[c]));
                    }
                    if k < c {
                        assert(!decisive(ev[k as int]));
                    }
                }
            }
        }
        match event {
            ServerEvent::ActionProposal(proposal) => {
                assert(ev[k as int] == ServerEvent::ActionProposal(proposal));
                let a = Actual::Proposed { action_id: proposal.action_id, params: proposal.params };
                assert(actual_of(ev, a));
                return a;
            },
            ServerEvent::Error { message, .. } => {
                return Actual::Error(message);
            },
            _ => {},
        }
        assert(rest@ =~= ev.skip(k + 1));
        k = k + 1;
    }
    assert(first_decisive(ev) is None);
    Actual::Declined
}

/// One case's result.
#[derive(Debug)]
pub struct EvalOutcome {
    /// The case that ran.
    pub case: EvalCase,
    /// What happened.
    pub actual: Actual,
    /// Whether `actual` satisfies `case.expected`.
    pub passed: bool,
}

/// Judges a case against what the agent did.
pub fn judge(case: EvalCase, actual: Actual) -> (o: EvalOutcome)
    ensures
        o.case == case,
        o.actual == actual,
        o.passed == satisfies(case.expected, actual),
{
    let passed = outcome_matches(&case.expected, &actual);
    EvalOutcome { case, actual, passed }
}

/// A whole suite's results, in input order.
#[derive(Debug)]
pub struct EvalReport {
    pub outcomes: Vec<EvalOutcome>,
}

/// The number of passing outcomes.
pub open spec fn passed_count(outcomes: Seq<EvalOutcome>) -> nat
    decreases outcomes.len(),
{
    if outcomes.len() == 0 {
        0
    } else {
        passed_count(outcomes.drop_last()) + (if outcomes.last().passed { 1nat } else { 0nat })
    }
}

proof fn lemma_passed_count_bound(outcomes: Seq<EvalOutcome>)
    ensures
        passed_count(outcomes) <= outcomes.len(),
        passed_count(outcomes) == outcomes.len() <==> forall|i: int| 0 <= i < outcomes.len() ==> #[trigger] outcomes[i].passed,
    decreases outcomes.len(),
{
    if outcomes.len() > 0 {
        lemma_passed_count_bound(outcomes.drop_last());
        if passed_count(outcomes) == outcomes.len() {
            assert forall|i: int| 0 <= i < outcomes.len() implies #[trigger] outcomes[i].passed by {
                if i < outcomes.len() - 1 {
                    assert(outcomes.drop_last()[i] == outcomes[i]);
                }
            }
        }
        if forall|i: int| 0 <= i < outcomes.len() ==> #[trigger] outcomes[i].passed {
            assert forall|i: int| 0 <= i < outcomes.drop_last().len() implies #[trigger] outcomes.drop_last()[i].passed by {
                assert(outcomes.drop_last()[i] == outcomes[i]);
            }
            assert(outcomes[outcomes.len() - 1].passed);
        }
    }
}

impl EvalReport {
    /// How many cases passed.
    pub fn passed(&self) -> (n: usize)
        ensures
            n == passed_count(self.outcomes@),
    {
        let mut n: usize = 0;
        let mut i: usize = 0;
        while i < self.outcomes.len()
            invariant
                i <= self.outcomes.len(),
                n == passed_count(self.outcomes@.take(i as int)),
                n <= i,
            decreases self.outcomes.len() - i,
        {
            assert(self.outcomes@.take(i + 1).drop_last() =~= self.outcomes@.take(i as int));
            if self.outcomes[i].passed {
                n = n + 1;
            }
            i = i + 1;
        }
        assert(self.outcomes@.take(i as int) =~= self.outcomes@);
        n
    }

    /// Whether every case passed.
    pub fn all_passed(&self) -> (r: bool)
        ensures
            r == forall|i: int| 0 <= i < self.outcomes.len() ==> #[trigger] self.outcomes@[i].passed,
    {
        proof {
            lemma_passed_count_bound(self.outcomes@);
        }
        self.passed() == self.outcomes.len()
    }
}

} // verus!
