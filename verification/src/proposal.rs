//! The proposal lifecycle state machine.

use vstd::prelude::*;

use crate::envelope::{ActionProposal, ProposalV};
use crate::error::TransitionError;
use crate::json::{map_view, JsonMap, JsonV};
use crate::text::{decimal, lemma_decimal_injective, lex_lt, lemma_lex_total, lemma_lex_transitive, push_decimal, str_eq, str_lt};

verus! {

/// Lifecycle states of a proposal.
#[derive(Debug, Clone, Copy, PartialEq, Eq, Structural)]
pub enum ProposalState {
    /// Model emitted a tool call; envelope constructed (agent-internal).
    Proposed,
    /// Failed propose-time validation; never rendered (terminal).
    Invalid,
    /// Passed propose-time validation; emitted to the frontend.
    Validated,
    /// User confirmed; confirm-time revalidation in progress.
    Confirmed,
    /// Handler ran successfully (terminal).
    Executed,
    /// User declined (terminal).
    Rejected,
    /// Context moved on or revalidation failed (terminal).
    Expired,
    /// Handler returned an error (terminal).
    Failed,
}

pub open spec fn spec_is_terminal(s: ProposalState) -> bool {
    match s {
        ProposalState::Invalid | ProposalState::Executed | ProposalState::Rejected
        | ProposalState::Expired | ProposalState::Failed => true,
        _ => false,
    }
}

/// The lifecycle legality table.
pub open spec fn legal_transition(from: ProposalState, to: ProposalState) -> bool {
    match from {
        ProposalState::Proposed => to == ProposalState::Invalid || to == ProposalState::Validated,
        ProposalState::Validated => to == ProposalState::Confirmed || to == ProposalState::Rejected
            || to == ProposalState::Expired,
        ProposalState::Confirmed => to == ProposalState::Executed || to == ProposalState::Failed
            || to == ProposalState::Expired,
        _ => false,
    }
}

impl ProposalState {
    /// Whether no further transition is possible.
    pub fn is_terminal(self) -> (r: bool)
        ensures
            r == spec_is_terminal(self),
    {
        match self {
            ProposalState::Invalid | ProposalState::Executed | ProposalState::Rejected
            | ProposalState::Expired | ProposalState::Failed => true,
            _ => false,
        }
    }

    /// Whether the legality table permits moving to `next`.
    pub fn can_transition_to(self, next: ProposalState) -> (r: bool)
        ensures
            r == legal_transition(self, next),
    {
        match self {
            ProposalState::Proposed => next == ProposalState::Invalid || next == ProposalState::Validated,
            ProposalState::Validated => next == ProposalState::Confirmed || next == ProposalState::Rejected
                || next == ProposalState::Expired,
            ProposalState::Confirmed => next == ProposalState::Executed || next == ProposalState::Failed
                || next == ProposalState::Expired,
            _ => false,
        }
    }

    /// The state's wire name.
    pub fn name(self) -> (s: &'static str)
        ensures
            s@ == state_name(self),
    {
        match self {
            ProposalState::Proposed => "proposed",
            ProposalState::Invalid => "invalid",
            ProposalState::Validated => "validated",
            ProposalState::Confirmed => "confirmed",
            ProposalState::Executed => "executed",
            ProposalState::Rejected => "rejected",
            ProposalState::Expired => "expired",
            ProposalState::Failed => "failed",
        }
    }
}

pub open spec fn state_name(s: ProposalState) -> Seq<char> {
    match s {
        ProposalState::Proposed => "proposed"@,
        ProposalState::Invalid => "invalid"@,
        ProposalState::Validated => "validated"@,
        ProposalState::Confirmed => "confirmed"@,
        ProposalState::Executed => "executed"@,
        ProposalState::Rejected => "rejected"@,
        ProposalState::Expired => "expired"@,
        ProposalState::Failed => "failed"@,
    }
}

/// Terminal states have no way out, and every other state has one.
pub proof fn law_terminal_states_are_final(s: ProposalState, t: ProposalState)
    ensures
        spec_is_terminal(s) ==> !legal_transition(s, t),
        !spec_is_terminal(s) ==> exists|u: ProposalState| legal_transition(s, u),
{
    if !spec_is_terminal(s) {
        match s {
            ProposalState::Proposed => assert(legal_transition(s, ProposalState::Validated)),
            ProposalState::Validated => assert(legal_transition(s, ProposalState::Confirmed)),
            _ => assert(legal_transition(s, ProposalState::Executed)),
        }
    }
}

/// No transition ever leads back to `proposed` or out of a state into
/// itself.
pub proof fn law_no_transition_into_proposed_or_self(s: ProposalState, t: ProposalState)
    ensures
        !legal_transition(s, ProposalState::Proposed),
        !legal_transition(s, s),
{
}


/// A stored proposal plus the session-side bookkeeping the envelope omits.
#[derive(Debug)]
pub struct TrackedProposal {
    /// The emitted envelope message.
    pub proposal: ActionProposal,
    /// Current lifecycle state.
    pub state: ProposalState,
    /// The model's original utterance-sourced params, kept for confirm-time
    /// revalidation.
    pub utterance_params: JsonMap,
}

/// Model of one stored proposal.
pub struct TrackedV {
    pub proposal: ProposalV,
    pub state: ProposalState,
    pub utterance_params: Seq<(Seq<char>, JsonV)>,
}

impl View for TrackedProposal {
    type V = TrackedV;

    open spec fn view(&self) -> TrackedV {
        TrackedV { proposal: self.proposal@, state: self.state, utterance_params: map_view(self.utterance_params) }
    }
}

/// Proof that one proposal crossed `validated -> confirmed`: obtainable only
/// from [`ProposalStore::confirm`].
#[derive(Debug)]
pub struct ConfirmedProposal {
    proposal: ActionProposal,
    utterance_params: JsonMap,
}

impl ConfirmedProposal {
    pub closed spec fn proposal_view(&self) -> ProposalV {
        self.proposal@
    }

    pub closed spec fn params_view(&self) -> Seq<(Seq<char>, JsonV)> {
        map_view(self.utterance_params)
    }

    /// The proposal as it was rendered to the user.
    pub fn proposal(&self) -> (p: &ActionProposal)
        ensures
            p@ == self.proposal_view(),
    {
        &self.proposal
    }

    /// The model's original utterance-sourced params.
    pub fn utterance_params(&self) -> (p: &JsonMap)
        ensures
            map_view(*p) == self.params_view(),
    {
        &self.utterance_params
    }
}

/// The position of proposal `id` among stored proposals, if tracked.
pub open spec fn stored_index(es: Seq<TrackedV>, id: Seq<char>) -> Option<int> {
    if exists|i: int| 0 <= i < es.len() && es[i].proposal.proposal_id == id {
        Some(choose|i: int| 0 <= i < es.len() && es[i].proposal.proposal_id == id)
    } else {
        None
    }
}

/// Proposal IDs in strictly ascending order.
pub open spec fn ids_sorted(es: Seq<TrackedV>) -> bool {
    forall|i: int, j: int| 0 <= i < j < es.len() ==> lex_lt(#[trigger] es[i].proposal.proposal_id, #[trigger] es[j].proposal.proposal_id)
}

/// The stored proposals after storing `e`: replaces the entry with the same
/// ID when there is one, otherwise inserts it at its ordered position.
pub open spec fn stored_insert(es: Seq<TrackedV>, e: TrackedV) -> Seq<TrackedV> {
    match stored_index(es, e.proposal.proposal_id) {
        Some(i) => es.update(i, e),
        None => {
            let p = Seq::new(es.len(), |i: int| i).filter(|i: int| lex_lt(es[i].proposal.proposal_id, e.proposal.proposal_id)).len();
            es.take(p as int).push(e) + es.skip(p as int)
        },
    }
}

pub open spec fn with_state(e: TrackedV, s: ProposalState) -> TrackedV {
    TrackedV { state: s, ..e }
}

/// The session ID `prop-<n>` of the `n`th allocated proposal.
pub open spec fn proposal_id_for(n: nat) -> Seq<char> {
    "prop-"@ + decimal(n)
}

/// Distinct allocation counts give distinct proposal IDs, so IDs handed out
/// by one store never repeat.
pub proof fn law_proposal_ids_distinct(a: nat, b: nat)
    requires
        a != b,
    ensures
        proposal_id_for(a) != proposal_id_for(b),
{
    reveal_strlit("prop-");
    if proposal_id_for(a) == proposal_id_for(b) {
        assert(proposal_id_for(a).skip(5) =~= decimal(a));
        assert(proposal_id_for(b).skip(5) =~= decimal(b));
        lemma_decimal_injective(a, b);
    }
}

/// Per-session store of emitted proposals with enforced transitions.
#[derive(Debug)]
pub struct ProposalStore {
    entries: Vec<TrackedProposal>,
    next_id: u64,
}

impl ProposalStore {
    #[verifier::type_invariant]
    spec fn sorted(self) -> bool {
        forall|i: int, j: int|
            0 <= i < j < self.entries.len() ==> lex_lt(
                #[trigger] self.entries[i].proposal.proposal_id@,
                #[trigger] self.entries[j].proposal.proposal_id@,
            )
    }

    /// The stored proposals, in ID order.
    pub closed spec fn stored(self) -> Seq<TrackedV> {
        self.entries@.map_values(|t: TrackedProposal| t@)
    }

    /// How many IDs have been allocated.
    pub closed spec fn allocated(self) -> nat {
        self.next_id as nat
    }

    proof fn lemma_unique(self, id: Seq<char>, i: int)
        requires
            self.sorted(),
            0 <= i < self.entries.len(),
            self.entries[i].proposal.proposal_id@ == id,
        ensures
            stored_index(self.stored(), id) == Some(i),
    {
        let es = self.stored();
        assert(es[i].proposal.proposal_id == id);
        let w = choose|w: int| 0 <= w < es.len() && es[w].proposal.proposal_id == id;
        if w != i {
            if w < i {
                assert(lex_lt(self.entries[w].proposal.proposal_id@, self.entries[i].proposal.proposal_id@));
            } else {
                assert(lex_lt(self.entries[i].proposal.proposal_id@, self.entries[w].proposal.proposal_id@));
            }
            crate::text::lemma_lex_irreflexive(id);
        }
    }

    /// Creates an empty store.
    pub fn new() -> (s: ProposalStore)
        ensures
            s.stored() == Seq::<TrackedV>::empty(),
            s.allocated() == 0,
    {
        let s = ProposalStore { entries: Vec::new(), next_id: 0 };
        assert(s.stored() =~= Seq::<TrackedV>::empty());
        s
    }

    /// The stored proposals are in ascending ID order, each ID once.
    pub fn ids_ascending(&self) -> (r: bool)
        ensures
            r,
            ids_sorted(self.stored()),
    {
        proof {
            use_type_invariant(self);
        }
        true
    }

    /// How many IDs have been allocated.
    pub fn allocated_count(&self) -> (n: u64)
        ensures
            n == self.allocated(),
    {
        self.next_id
    }

    /// Number of tracked proposals.
    pub fn len(&self) -> (n: usize)
        ensures
            n == self.stored().len(),
    {
        self.entries.len()
    }

    /// Allocates the next session-unique proposal ID, `prop-<n>`.
    pub fn allocate_id(&mut self) -> (id: String)
        requires
            old(self).allocated() < u64::MAX,
        ensures
            final(self).allocated() == old(self).allocated() + 1,
            final(self).stored() == old(self).stored(),
            id@ == proposal_id_for(final(self).allocated()),
    {
        proof {
            use_type_invariant(&*self);
        }
        self.next_id = self.next_id + 1;
        let mut id = "prop-".to_owned();
        push_decimal(&mut id, self.next_id);
        id
    }

    fn find(&self, proposal_id: &str) -> (r: Option<usize>)
        ensures
            r matches Some(i) ==> stored_index(self.stored(), proposal_id@) == Some(i as int) && i < self.entries.len(),
            r is None ==> stored_index(self.stored(), proposal_id@) is None,
    {
        proof {
            use_type_invariant(self);
        }
        let mut i: usize = 0;
        while i < self.entries.len()
            invariant
                self.sorted(),
                i <= self.entries.len(),
                forall|j: int| 0 <= j < i ==> self.entries[j].proposal.proposal_id@ != proposal_id@,
            decreases self.entries.len() - i,
        {
            if str_eq(self.entries[i].proposal.proposal_id.as_str(), proposal_id) {
                proof {
                    self.lemma_unique(proposal_id@, i as int);
                }
                return Some(i);
            }
            i = i + 1;
        }
        proof {
            if stored_index(self.stored(), proposal_id@) is Some {
                let w = choose|w: int| 0 <= w < self.stored().len() && self.stored()[w].proposal.proposal_id == proposal_id@;
                assert(self.entries[w].proposal.proposal_id@ == proposal_id@);
            }
        }
        None
    }

    /// Looks up a tracked proposal.
    pub fn get(&self, proposal_id: &str) -> (r: Option<&TrackedProposal>)
        ensures
            stored_index(self.stored(), proposal_id@) matches Some(i) ==> r matches Some(t) && t@ == self.stored()[i],
            stored_index(self.stored(), proposal_id@) is None ==> r is None,
    {
        match self.find(proposal_id) {
            Some(i) => Some(&self.entries[i]),
            None => None,
        }
    }

    /// Tracks a proposal that passed propose-time validation, in state
    /// `validated`.
    pub fn insert_validated(&mut self, proposal: ActionProposal, utterance_params: JsonMap)
        ensures
            final(self).allocated() == old(self).allocated(),
            final(self).stored() == stored_insert(
                old(self).stored(),
                TrackedV { proposal: proposal@, state: ProposalState::Validated, utterance_params: map_view(utterance_params) },
            ),
    {
        proof {
            use_type_invariant(&*self);
        }
        let ghost old_t = self.stored();
        let ghost e = TrackedV { proposal: proposal@, state: ProposalState::Validated, utterance_params: map_view(utterance_params) };
        let entry = TrackedProposal { proposal, state: ProposalState::Validated, utterance_params };
        match self.find(entry.proposal.proposal_id.as_str()) {
            Some(i) => {
                let mut entries = Vec::new();
                std::mem::swap(&mut entries, &mut self.entries);
                entries.set(i, entry);
                self.entries = entries;
                assert(self.stored() =~= old_t.update(i as int, e));
            },
            None => {
                let mut p: usize = self.entries.len();
                while p > 0 && str_lt(entry.proposal.proposal_id.as_str(), self.entries[p - 1].proposal.proposal_id.as_str())
                    invariant
                        p <= self.entries.len(),
                        old_t == self.stored(),
                        self.sorted(),
                        forall|j: int| p <= j < self.entries.len() ==> lex_lt(entry.proposal.proposal_id@, #[trigger] self.entries[j].proposal.proposal_id@),
                    decreases p,
                {
                    p = p - 1;
                }
                let ghost key = entry.proposal.proposal_id@;
                proof {
                    assert forall|j: int| 0 <= j < self.entries.len() implies self.entries[j].proposal.proposal_id@ != key by {
                        if self.entries[j].proposal.proposal_id@ == key {
                            assert(old_t[j].proposal.proposal_id == key);
                        }
                    }
                }
                assert forall|j: int| 0 <= j < p implies lex_lt(#[trigger] self.entries[j].proposal.proposal_id@, key) by {
                    let q = p - 1;
                    lemma_lex_total(key, self.entries[q as int].proposal.proposal_id@);
                    if j < q {
                        lemma_lex_transitive(self.entries[j].proposal.proposal_id@, self.entries[q as int].proposal.proposal_id@, key);
                    }
                }
                let ghost pp = p as int;
                proof {
                    let idx = Seq::new(old_t.len(), |i: int| i);
                    let f = |i: int| lex_lt(old_t[i].proposal.proposal_id, key);
                    assert forall|i: int| pp <= i < idx.len() implies !#[trigger] f(i) by {
                        lemma_lex_total(key, old_t[i].proposal.proposal_id);
                    }
                    assert forall|i: int| 0 <= i < pp implies #[trigger] f(i) by {
                        assert(old_t[i].proposal.proposal_id == self.entries[i].proposal.proposal_id@);
                    }
                    crate::json::lemma_filter_prefix(idx, f, pp);
                }
                let mut entries = Vec::new();
                std::mem::swap(&mut entries, &mut self.entries);
                entries.insert(p, entry);
                self.entries = entries;
                assert(self.stored() =~= old_t.take(pp).push(e) + old_t.skip(pp));
            },
        }
    }

    /// The `validated -> confirmed` edge, and the only source of a
    /// [`ConfirmedProposal`].
    pub fn confirm(&mut self, proposal_id: &str) -> (r: Result<ConfirmedProposal, TransitionError>)
        ensures
            final(self).allocated() == old(self).allocated(),
            match stored_index(old(self).stored(), proposal_id@) {
                None => (r matches Err(TransitionError::UnknownProposal(s)) && s@ == proposal_id@)
                    && final(self).stored() == old(self).stored(),
                Some(i) => if old(self).stored()[i].state == ProposalState::Validated {
                    r matches Ok(c) && c.proposal_view() == old(self).stored()[i].proposal
                        && c.params_view() == old(self).stored()[i].utterance_params
                        && final(self).stored() == old(self).stored().update(i, with_state(old(self).stored()[i], ProposalState::Confirmed))
                } else {
                    r == Err::<ConfirmedProposal, TransitionError>(TransitionError::Illegal { from: old(self).stored()[i].state, to: ProposalState::Confirmed })
                        && final(self).stored() == old(self).stored()
                },
            },
    {
        let i = match self.find(proposal_id) {
            Some(i) => i,
            None => return Err(TransitionError::UnknownProposal(proposal_id.to_owned())),
        };
        let state = self.entries[i].state;
        if !state.can_transition_to(ProposalState::Confirmed) {
            return Err(TransitionError::Illegal { from: state, to: ProposalState::Confirmed });
        }
        let confirmed = ConfirmedProposal {
            proposal: self.entries[i].proposal.copy(),
            utterance_params: self.entries[i].utterance_params.deep_clone(),
        };
        self.set_state(i, ProposalState::Confirmed);
        Ok(confirmed)
    }

    fn set_state(&mut self, i: usize, to: ProposalState)
        requires
            i < old(self).stored().len(),
        ensures
            final(self).allocated() == old(self).allocated(),
            final(self).stored() == old(self).stored().update(i as int, with_state(old(self).stored()[i as int], to)),
            final(self).entries.len() == old(self).entries.len(),
    {
        proof {
            use_type_invariant(&*self);
        }
        let ghost old_t = self.stored();
        let mut entries = Vec::new();
        std::mem::swap(&mut entries, &mut self.entries);
        let mut e = entries.remove(i);
        e.state = to;
        entries.insert(i, e);
        self.entries = entries;
        assert(self.stored() =~= old_t.update(i as int, with_state(old_t[i as int], to)));
    }

    /// Applies a transition, enforcing the legality table.
    pub fn transition(&mut self, proposal_id: &str, to: ProposalState) -> (r: Result<ProposalState, TransitionError>)
        ensures
            final(self).allocated() == old(self).allocated(),
            match stored_index(old(self).stored(), proposal_id@) {
                None => (r matches Err(TransitionError::UnknownProposal(s)) && s@ == proposal_id@)
                    && final(self).stored() == old(self).stored(),
                Some(i) => if legal_transition(old(self).stored()[i].state, to) {
                    r == Ok::<ProposalState, TransitionError>(to)
                        && final(self).stored() == old(self).stored().update(i, with_state(old(self).stored()[i], to))
                } else {
                    r == Err::<ProposalState, TransitionError>(TransitionError::Illegal { from: old(self).stored()[i].state, to })
                        && final(self).stored() == old(self).stored()
                },
            },
    {
        let i = match self.find(proposal_id) {
            Some(i) => i,
            None => return Err(TransitionError::UnknownProposal(proposal_id.to_owned())),
        };
        let state = self.entries[i].state;
        if !state.can_transition_to(to) {
            return Err(TransitionError::Illegal { from: state, to });
        }
        self.set_state(i, to);
        Ok(to)
    }

    /// Expires every pending (`validated`) proposal, returning their IDs in
    /// ID order.
    pub fn expire_pending(&mut self) -> (ids: Vec<String>)
        ensures
            final(self).allocated() == old(self).allocated(),
            final(self).stored().len() == old(self).stored().len(),
            forall|i: int| 0 <= i < old(self).stored().len() ==> #[trigger] final(self).stored()[i] == (
                if old(self).stored()[i].state == ProposalState::Validated {
                    with_state(old(self).stored()[i], ProposalState::Expired)
                } else {
                    old(self).stored()[i]
                }),
            ids@.map_values(|s: String| s@) == old(self).stored().filter(|t: TrackedV| t.state == ProposalState::Validated).map_values(|t: TrackedV| t.proposal.proposal_id),
    {
        let ghost old_t = self.stored();
        let ghost pending = |t: TrackedV| t.state == ProposalState::Validated;
        let mut ids: Vec<String> = Vec::new();
        let mut i: usize = 0;
        while i < self.entries.len()
            invariant
                i <= self.entries.len(),
                self.allocated() == old(self).allocated(),
                self.stored().len() == old_t.len(),
                self.entries.len() == old_t.len(),
                old_t == old(self).stored(),
                pending == (|t: TrackedV| t.state == ProposalState::Validated),
                forall|j: int| i <= j < old_t.len() ==> #[trigger] self.stored()[j] == old_t[j],
                forall|j: int| 0 <= j < i ==> #[trigger] self.stored()[j] == (
                    if old_t[j].state == ProposalState::Validated {
                        with_state(old_t[j], ProposalState::Expired)
                    } else {
                        old_t[j]
                    }),
                ids@.map_values(|s: String| s@) == old_t.take(i as int).filter(pending).map_values(|t: TrackedV| t.proposal.proposal_id),
            decreases self.entries.len() - i,
        {
            proof {
                reveal(Seq::filter);
                assert(old_t.take(i + 1).drop_last() =~= old_t.take(i as int));
                assert(old_t.take(i + 1).last() == old_t[i as int]);
            }
            assert(self.stored()[i as int] == old_t[i as int]);
            if self.entries[i].state == ProposalState::Validated {
                let id = self.entries[i].proposal.proposal_id.clone();
                let ghost before = ids@;
                assert(self.stored()[i as int] == old_t[i as int]);
                assert(id@ == old_t[i as int].proposal.proposal_id);
                ids.push(id);
                proof {
                    assert(ids@.map_values(|s: String| s@) =~= before.map_values(|s: String| s@).push(old_t[i as int].proposal.proposal_id));
                }
                self.set_state(i, ProposalState::Expired);
            }
            assert(ids@.map_values(|s: String| s@) =~= old_t.take(i + 1).filter(pending).map_values(|t: TrackedV| t.proposal.proposal_id));
            i = i + 1;
        }
        assert(old_t.take(i as int) =~= old_t);
        ids
    }
}
} // verus!
