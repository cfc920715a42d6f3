//! The validation pipeline, run at propose time and again, unchanged, at
//! confirm time: existence, param fill and type check, authorization,
//! dry-run, slot check.

use vstd::prelude::*;

use crate::envelope::{copy_opt_preview, opt_json_view, opt_preview_view, Context, ContextV, DryRunPreview, PreviewV};
use crate::error::{handler_error_text, HandlerError, ValidationFailure};
use crate::json::{entries_insert, entry_get, json_view, map_view, Json, JsonMap, JsonV};
use crate::registry::{
    block_for, params_seq, registration_for, slot_failure_matches, slot_problem, type_accepts, type_mismatch_text,
    ActionDef, ActionRegistration, ParamSource, ParamSpecV, RegV, Registry, TypeV,
};
use crate::seams::{AuthzDecision, ContextParamResolver, SlotBuilder};
use crate::text::concat3;

verus! {

/// A model tool call before validation: the action it selected and its
/// utterance-sourced arguments.
#[derive(Debug)]
pub struct CandidateAction {
    /// The action ID the model referenced.
    pub action_id: String,
    /// Model-emitted arguments.
    pub utterance_params: JsonMap,
}

/// A candidate that passed the whole pipeline.
#[derive(Debug)]
pub struct ValidatedAction {
    /// The registered action.
    pub action_id: String,
    /// Context-sourced plus validated utterance-sourced params.
    pub params: JsonMap,
    /// The action's block type.
    pub block_type: String,
    /// Slot values, checked against the block schema.
    pub slots: JsonMap,
    /// Dry-run preview; present iff the action mutates.
    pub preview: Option<DryRunPreview>,
}

/// How filling a candidate's params fails.
pub enum FillProblem {
    /// A value failed its type check.
    Mistyped(Seq<char>, TypeV, JsonV),
    /// A required context-sourced param did not resolve.
    Unresolved(Seq<char>),
    /// A required utterance-sourced param is absent.
    Missing(Seq<char>),
    /// The model sent a param that is not a declared utterance param.
    Undeclared(Seq<char>),
}

/// The failure that reports a fill problem.
pub open spec fn fill_failure_matches(f: ValidationFailure, p: FillProblem) -> bool {
    match p {
        FillProblem::Mistyped(name, t, v) => f matches ValidationFailure::InvalidParam { param, reason }
            && param@ == name && reason@ == type_mismatch_text(t, v),
        FillProblem::Unresolved(name) => f matches ValidationFailure::UnresolvedContextParam(p) && p@ == name,
        FillProblem::Missing(name) => f matches ValidationFailure::MissingParam(p) && p@ == name,
        FillProblem::Undeclared(name) => f matches ValidationFailure::UnknownParam(p) && p@ == name,
    }
}

pub open spec fn declared_utterance(ps: Seq<ParamSpecV>, name: Seq<char>) -> bool {
    exists|j: int| 0 <= j < ps.len() && ps[j].source == ParamSource::Utterance && ps[j].name == name
}

/// The first argument (in key order) that is not a declared utterance param.
pub open spec fn first_undeclared(ps: Seq<ParamSpecV>, utt: Seq<(Seq<char>, JsonV)>) -> Option<Seq<char>> {
    if exists|i: int| 0 <= i < utt.len() && !declared_utterance(ps, utt[i].0) && (forall|j: int| 0 <= j < i ==> declared_utterance(ps, utt[j].0)) {
        let i = choose|i: int| 0 <= i < utt.len() && !declared_utterance(ps, utt[i].0) && (forall|j: int| 0 <= j < i ==> declared_utterance(ps, utt[j].0));
        Some(utt[i].0)
    } else {
        None
    }
}

/// Fills params from position `k` on, given the map so far: each declared
/// param in order takes its context value (`resolved[k]`) or the model's
/// argument, type-checked; absent ones fail when required. Then any
/// undeclared argument fails.
pub open spec fn fill_from(
    ps: Seq<ParamSpecV>,
    utt: Seq<(Seq<char>, JsonV)>,
    resolved: Seq<Option<JsonV>>,
    k: int,
    acc: Seq<(Seq<char>, JsonV)>,
) -> Result<Seq<(Seq<char>, JsonV)>, FillProblem>
    decreases ps.len() - k,
{
    if k < 0 || k >= ps.len() {
        match first_undeclared(ps, utt) {
            Some(name) => Err(FillProblem::Undeclared(name)),
            None => Ok(acc),
        }
    } else {
        let p = ps[k];
        let found = if p.source == ParamSource::Context { resolved[k] } else { entry_get(utt, p.name) };
        match found {
            Some(v) => if !type_accepts(p.ty, v) {
                Err(FillProblem::Mistyped(p.name, p.ty, v))
            } else {
                fill_from(ps, utt, resolved, k + 1, entries_insert(acc, p.name, v))
            },
            None => if p.required {
                if p.source == ParamSource::Context {
                    Err(FillProblem::Unresolved(p.name))
                } else {
                    Err(FillProblem::Missing(p.name))
                }
            } else {
                fill_from(ps, utt, resolved, k + 1, acc)
            },
        }
    }
}

/// The filled params of a candidate, given the context values resolved
/// for each declared param (utterance params take none).
pub open spec fn fill_outcome(
    ps: Seq<ParamSpecV>,
    utt: Seq<(Seq<char>, JsonV)>,
    resolved: Seq<Option<JsonV>>,
) -> Result<Seq<(Seq<char>, JsonV)>, FillProblem> {
    fill_from(ps, utt, resolved, 0, Seq::empty())
}

/// Declared params have distinct names.
pub open spec fn param_names_unique(ps: Seq<ParamSpecV>) -> bool {
    forall|i: int, j: int| 0 <= i < j < ps.len() ==> #[trigger] ps[i].name != #[trigger] ps[j].name
}

/// Where param `i` takes its value from: the resolved context value for a
/// context-sourced param, the model's argument for an utterance one.
pub open spec fn source_value(ps: Seq<ParamSpecV>, utt: Seq<(Seq<char>, JsonV)>, resolved: Seq<Option<JsonV>>, i: int) -> Option<JsonV> {
    if ps[i].source == ParamSource::Context {
        resolved[i]
    } else {
        entry_get(utt, ps[i].name)
    }
}

proof fn lemma_fill_step(
    ps: Seq<ParamSpecV>,
    utt: Seq<(Seq<char>, JsonV)>,
    resolved: Seq<Option<JsonV>>,
    k: int,
    acc: Seq<(Seq<char>, JsonV)>,
)
    requires
        0 <= k < ps.len(),
        fill_from(ps, utt, resolved, k, acc) is Ok,
    ensures
        source_value(ps, utt, resolved, k) matches Some(v) ==> type_accepts(ps[k].ty, v) && fill_from(ps, utt, resolved, k, acc)
            == fill_from(ps, utt, resolved, k + 1, entries_insert(acc, ps[k].name, v)),
        source_value(ps, utt, resolved, k) is None ==> !ps[k].required && fill_from(ps, utt, resolved, k, acc) == fill_from(
            ps,
            utt,
            resolved,
            k + 1,
            acc,
        ),
{
}

proof fn lemma_fill_end(ps: Seq<ParamSpecV>, utt: Seq<(Seq<char>, JsonV)>, resolved: Seq<Option<JsonV>>, acc: Seq<(Seq<char>, JsonV)>)
    requires
        fill_from(ps, utt, resolved, ps.len() as int, acc) is Ok,
    ensures
        first_undeclared(ps, utt) is None,
        fill_from(ps, utt, resolved, ps.len() as int, acc)->Ok_0 == acc,
{
}

/// What a successful fill from position `k` on holds, given the map so far.
pub open spec fn fill_from_holds(
    ps: Seq<ParamSpecV>,
    utt: Seq<(Seq<char>, JsonV)>,
    resolved: Seq<Option<JsonV>>,
    k: int,
    acc: Seq<(Seq<char>, JsonV)>,
    m: Seq<(Seq<char>, JsonV)>,
) -> bool {
    &&& forall|key: Seq<char>| (forall|i: int| k <= i < ps.len() ==> ps[i].name != key) ==> #[trigger] entry_get(m, key) == entry_get(acc, key)
    &&& forall|i: int| k <= i < ps.len() ==> (#[trigger] source_value(ps, utt, resolved, i) matches Some(v) ==> entry_get(m, ps[i].name) == Some(v) && type_accepts(ps[i].ty, v))
    &&& forall|i: int| k <= i < ps.len() ==> (#[trigger] source_value(ps, utt, resolved, i) is None ==> entry_get(m, ps[i].name) == entry_get(acc, ps[i].name) && !ps[i].required)
    &&& first_undeclared(ps, utt) is None
}

proof fn lemma_fill_from(
    ps: Seq<ParamSpecV>,
    utt: Seq<(Seq<char>, JsonV)>,
    resolved: Seq<Option<JsonV>>,
    k: int,
    acc: Seq<(Seq<char>, JsonV)>,
    m: Seq<(Seq<char>, JsonV)>,
)
    requires
        0 <= k <= ps.len(),
        param_names_unique(ps),
        fill_from(ps, utt, resolved, k, acc) == Ok::<Seq<(Seq<char>, JsonV)>, FillProblem>(m),
    ensures
        fill_from_holds(ps, utt, resolved, k, acc, m),
    decreases ps.len() - k,
{
    if k == ps.len() {
        lemma_fill_end(ps, utt, resolved, acc);
    } else {
        lemma_fill_step(ps, utt, resolved, k, acc);
        let p = ps[k];
        assert forall|i: int| k + 1 <= i < ps.len() implies ps[i].name != p.name by {
            assert(ps[k].name != ps[i].name);
        }
        match source_value(ps, utt, resolved, k) {
            Some(v) => {
                let next = entries_insert(acc, p.name, v);
                lemma_fill_from(ps, utt, resolved, k + 1, next, m);
                crate::json::lemma_entries_insert_get(acc, p.name, v);
                assert forall|key: Seq<char>| (forall|i: int| k <= i < ps.len() ==> ps[i].name != key) implies #[trigger] entry_get(m, key) == entry_get(acc, key) by {
                    assert(ps[k].name != key);
                    crate::json::lemma_entries_insert_other(acc, p.name, v, key);
                }
                assert forall|i: int| k + 1 <= i < ps.len() implies entry_get(next, #[trigger] ps[i].name) == entry_get(acc, ps[i].name) by {
                    crate::json::lemma_entries_insert_other(acc, p.name, v, ps[i].name);
                }
            },
            None => {
                lemma_fill_from(ps, utt, resolved, k + 1, acc, m);
            },
        }
    }
}

/// A fill that succeeds holds, under each declared param's name, exactly
/// the value from its source (the resolved context value, or the model's
/// argument), type-checked; every required param is present; nothing but
/// declared params is filled; and the model sent only declared utterance
/// params.
pub proof fn law_fill_takes_each_param_from_its_source(
    ps: Seq<ParamSpecV>,
    utt: Seq<(Seq<char>, JsonV)>,
    resolved: Seq<Option<JsonV>>,
    key: Seq<char>,
)
    requires
        param_names_unique(ps),
        fill_outcome(ps, utt, resolved) is Ok,
    ensures
        forall|i: int| 0 <= i < ps.len() ==> entry_get(fill_outcome(ps, utt, resolved)->Ok_0, #[trigger] ps[i].name)
            == source_value(ps, utt, resolved, i),
        forall|i: int| 0 <= i < ps.len() ==> (#[trigger] source_value(ps, utt, resolved, i) matches Some(v) ==> type_accepts(ps[i].ty, v)),
        forall|i: int| 0 <= i < ps.len() && (#[trigger] ps[i]).required ==> entry_get(fill_outcome(ps, utt, resolved)->Ok_0, ps[i].name) is Some,
        (forall|i: int| 0 <= i < ps.len() ==> ps[i].name != key) ==> entry_get(fill_outcome(ps, utt, resolved)->Ok_0, key) is None,
        forall|j: int| 0 <= j < utt.len() ==> declared_utterance(ps, #[trigger] utt[j].0),
{
    let e = Seq::<(Seq<char>, JsonV)>::empty();
    lemma_fill_from(ps, utt, resolved, 0, e, fill_outcome(ps, utt, resolved)->Ok_0);
    crate::json::lemma_entry_index_facts(e, key);
    assert forall|i: int| 0 <= i < ps.len() implies entry_get(fill_outcome(ps, utt, resolved)->Ok_0, #[trigger] ps[i].name)
        == source_value(ps, utt, resolved, i) by {
        crate::json::lemma_entry_index_facts(e, ps[i].name);
        if source_value(ps, utt, resolved, i) is Some {
        }
    }
    assert forall|j: int| 0 <= j < utt.len() implies declared_utterance(ps, #[trigger] utt[j].0) by {
        if !declared_utterance(ps, utt[j].0) {
            let mut w = j;
            assert(exists|i: int| 0 <= i < utt.len() && !declared_utterance(ps, utt[i].0) && (forall|q: int| 0 <= q < i ==> declared_utterance(ps, utt[q].0))) by {
                lemma_first_undeclared_exists(ps, utt, j);
            }
        }
    }
}

proof fn lemma_first_undeclared_exists(ps: Seq<ParamSpecV>, utt: Seq<(Seq<char>, JsonV)>, j: int)
    requires
        0 <= j < utt.len(),
        !declared_utterance(ps, utt[j].0),
    ensures
        exists|i: int| 0 <= i < utt.len() && !declared_utterance(ps, utt[i].0) && (forall|q: int| 0 <= q < i ==> declared_utterance(ps, utt[q].0)),
    decreases j,
{
    if exists|q: int| 0 <= q < j && !declared_utterance(ps, utt[q].0) {
        let q = choose|q: int| 0 <= q < j && !declared_utterance(ps, utt[q].0);
        lemma_first_undeclared_exists(ps, utt, q);
    } else {
        assert(0 <= j < utt.len() && !declared_utterance(ps, utt[j].0) && (forall|q: int| 0 <= q < j ==> declared_utterance(ps, utt[q].0)));
    }
}

pub open spec fn opt_values(v: Seq<Option<Json>>) -> Seq<Option<JsonV>> {
    v.map_values(|o: Option<Json>| match o {
        Some(j) => Some(json_view(j)),
        None => None,
    })
}

/// `fill_params` matches the outcome: the same map, or the failure that
/// reports the same problem.
pub open spec fn fill_matches(r: Result<JsonMap, ValidationFailure>, o: Result<Seq<(Seq<char>, JsonV)>, FillProblem>) -> bool {
    match o {
        Ok(m) => r matches Ok(x) && map_view(x) == m,
        Err(p) => r matches Err(f) && fill_failure_matches(f, p),
    }
}

fn undeclared_key(def: &ActionDef, utterance_params: &JsonMap) -> (r: Option<String>)
    ensures
        match first_undeclared(params_seq(def.params@), map_view(*utterance_params)) {
            Some(name) => r matches Some(k) && k@ == name,
            None => r is None,
        },
{
    let ghost ps = params_seq(def.params@);
    let ghost utt = map_view(*utterance_params);
    let n = utterance_params.len();
    let mut i: usize = 0;
    while i < n
        invariant
            i <= n == utt.len(),
            ps == params_seq(def.params@),
            utt == map_view(*utterance_params),
            forall|j: int| 0 <= j < i ==> declared_utterance(ps, utt[j].0),
        decreases n - i,
    {
        let key = utterance_params.key_at(i);
        let mut k: usize = 0;
        let mut found = false;
        while k < def.params.len()
            invariant
                k <= def.params.len() == ps.len(),
                ps == params_seq(def.params@),
                key@ == utt[i as int].0,
                found == (exists|j: int| 0 <= j < k && ps[j].source == ParamSource::Utterance && ps[j].name == key@),
            decreases def.params.len() - k,
        {
            assert(ps[k as int] == def.params[k as int]@);
            if def.params[k].source == ParamSource::Utterance && crate::text::str_eq(def.params[k].name.as_str(), key.as_str()) {
                found = true;
            }
            k = k + 1;
        }
        if !found {
            proof {
                let w = choose|w: int| 0 <= w < utt.len() && !declared_utterance(ps, utt[w].0) && (forall|j: int| 0 <= j < w ==> declared_utterance(ps, utt[j].0));
                if w < i {
                    assert(declared_utterance(ps, utt[w].0));
                }
                if i < w {
                    assert(declared_utterance(ps, utt[i as int].0));
                }
            }
            return Some(key.clone());
        }
        i = i + 1;
    }
    proof {
        if exists|w: int| 0 <= w < utt.len() && !declared_utterance(ps, utt[w].0) && (forall|j: int| 0 <= j < w ==> declared_utterance(ps, utt[j].0)) {
            let w = choose|w: int| 0 <= w < utt.len() && !declared_utterance(ps, utt[w].0) && (forall|j: int| 0 <= j < w ==> declared_utterance(ps, utt[j].0));
            assert(declared_utterance(ps, utt[w].0));
        }
    }
    None
}

/// Fills and type-checks a candidate's params, given the context value
/// resolved for each declared param (`None` for utterance params and for
/// context params that did not resolve).
pub fn fill_params_from(def: &ActionDef, utterance_params: &JsonMap, resolved: &Vec<Option<Json>>) -> (r: Result<JsonMap, ValidationFailure>)
    requires
        resolved.len() == def.params.len(),
    ensures
        fill_matches(r, fill_outcome(params_seq(def.params@), map_view(*utterance_params), opt_values(resolved@))),
{
    let ghost ps = params_seq(def.params@);
    let ghost utt = map_view(*utterance_params);
    let ghost rv = opt_values(resolved@);
    let mut params = JsonMap::new();
    let mut k: usize = 0;
    while k < def.params.len()
        invariant
            k <= def.params.len() == ps.len() == rv.len(),
            ps == params_seq(def.params@),
            utt == map_view(*utterance_params),
            rv == opt_values(resolved@),
            fill_outcome(ps, utt, rv) == fill_from(ps, utt, rv, k as int, map_view(params)),
        decreases def.params.len() - k,
    {
        let spec = &def.params[k];
        assert(ps[k as int] == spec@);
        let found: Option<&Json> = match spec.source {
            ParamSource::Context => match &resolved[k] {
                Some(v) => Some(v),
                None => None,
            },
            ParamSource::Utterance => utterance_params.get(spec.name.as_str()),
        };
        match found {
            Some(value) => {
                match spec.ty.check(value) {
                    Ok(()) => {},
                    Err(reason) => {
                        return Err(ValidationFailure::InvalidParam { param: spec.name.clone(), reason });
                    },
                }
                params.insert(spec.name.clone(), value.deep_clone());
            },
            None => {
                if spec.required {
                    return match spec.source {
                        ParamSource::Context => Err(ValidationFailure::UnresolvedContextParam(spec.name.clone())),
                        ParamSource::Utterance => Err(ValidationFailure::MissingParam(spec.name.clone())),
                    };
                }
            },
        }
        k = k + 1;
    }
    match undeclared_key(def, utterance_params) {
        Some(key) => Err(ValidationFailure::UnknownParam(key)),
        None => Ok(params),
    }
}

/// Asks the resolver for each context-sourced param of `def`.
pub fn resolve_context_values<R: ContextParamResolver>(resolver: &R, def: &ActionDef, context: &Context) -> (vals: Vec<Option<Json>>)
    ensures
        resolved_for(*resolver, def@, context@, opt_values(vals@)),
{
    let mut vals: Vec<Option<Json>> = Vec::new();
    let mut k: usize = 0;
    while k < def.params.len()
        invariant
            k <= def.params.len(),
            vals.len() == k,
            forall|i: int| 0 <= i < k && def.params[i].source == ParamSource::Utterance ==> vals[i] is None,
            forall|i: int| 0 <= i < k && def.params[i].source == ParamSource::Context ==> resolver.resolves(
                def.id@,
                def.params[i]@,
                context@,
                opt_json_view(#[trigger] vals[i]),
            ),
        decreases def.params.len() - k,
    {
        let spec = &def.params[k];
        let v = match spec.source {
            ParamSource::Context => resolver.resolve(def.id.as_str(), spec, context),
            ParamSource::Utterance => None,
        };
        vals.push(v);
        k = k + 1;
    }
    proof {
        assert forall|i: int| 0 <= i < opt_values(vals@).len() implies #[trigger] opt_values(vals@)[i] == opt_json_view(vals[i]) by {}
    }
    vals
}

/// Whether `vals` holds, for each declared param of `def`, the resolver's
/// answer for a context-sourced one and nothing for an utterance one.
pub open spec fn resolved_for<R: ContextParamResolver>(resolver: R, def: crate::registry::ActionDefV, context: ContextV, vals: Seq<Option<JsonV>>) -> bool {
    &&& vals.len() == def.params.len()
    &&& forall|i: int| 0 <= i < vals.len() && def.params[i].source == ParamSource::Utterance ==> (#[trigger] vals[i]) is None
    &&& forall|i: int| 0 <= i < vals.len() && def.params[i].source == ParamSource::Context ==> resolver.resolves(
        def.id,
        def.params[i],
        context,
        #[trigger] vals[i],
    )
}

/// The validation steps that need no app callback, over a registry and a
/// context-param resolver. Authorization, dry-runs and slot building are
/// the app's and happen between the steps.
pub struct Validator<'a, H, D, S, R> {
    registry: &'a Registry<H, D, S>,
    context_params: &'a R,
}

/// A candidate whose action exists and whose params filled: the
/// registration and the filled params.
pub struct Prepared<'a, H, D, S> {
    pub registration: &'a ActionRegistration<H, D, S>,
    pub params: JsonMap,
}

/// What the dry-run step asks of the app.
pub enum DryRunStep<'a, D> {
    /// The action does not mutate: no preview.
    Skip,
    /// Run this dry-run handler and hand back its outcome.
    Run(&'a D),
}

impl<'a, H, D, S, R: ContextParamResolver> Validator<'a, H, D, S, R> {
    pub closed spec fn registry_actions(self) -> Seq<RegV> {
        self.registry.actions_view()
    }

    pub closed spec fn registry_blocks(self) -> Seq<crate::registry::BlockDefV> {
        self.registry.blocks_list()
    }

    /// The resolver that fills context-sourced params.
    pub closed spec fn resolver(self) -> R {
        *self.context_params
    }

    /// Assembles a validator over a registry and a context resolver.
    pub fn new(registry: &'a Registry<H, D, S>, context_params: &'a R) -> (v: Validator<'a, H, D, S, R>)
        ensures
            v.registry_actions() == registry.actions_view(),
            v.registry_blocks() == registry.blocks_list(),
            v.resolver() == *context_params,
    {
        Validator { registry, context_params }
    }

    /// Existence, then param fill and type check. The params filled are
    /// those of [`fill_outcome`] for the values the resolver returned.
    pub fn prepare(&self, candidate: &CandidateAction, context: &Context) -> (r: Result<Prepared<'a, H, D, S>, ValidationFailure>)
        ensures
            match registration_for(self.registry_actions(), candidate.action_id@) {
                None => r matches Err(ValidationFailure::UnknownAction(id)) && id@ == candidate.action_id@,
                Some(reg) => (r matches Ok(p) ==> p.registration@ == reg) && exists|vals: Seq<Option<JsonV>>|
                    resolved_for(self.resolver(), reg.def, context@, vals) && fill_matches(
                        match r {
                            Ok(p) => Ok::<JsonMap, ValidationFailure>(p.params),
                            Err(f) => Err(f),
                        },
                        fill_outcome(reg.def.params, map_view(candidate.utterance_params), vals),
                    ),
            },
    {
        let registration = match self.registry.action(candidate.action_id.as_str()) {
            Some(reg) => reg,
            None => return Err(ValidationFailure::UnknownAction(candidate.action_id.clone())),
        };
        let def = &registration.def;
        let resolved = resolve_context_values(self.context_params, def, context);
        proof {
            assert(params_seq(def.params@) == def@.params);
            assert(resolved_for(self.resolver(), def@, context@, opt_values(resolved@)));
            assert(registration@.def == def@);
        }
        match fill_params_from(def, &candidate.utterance_params, &resolved) {
            Ok(params) => {
                assert(opt_values(resolved@).len() == def@.params.len());
                Ok(Prepared { registration, params })
            },
            Err(f) => {
                assert(opt_values(resolved@).len() == def@.params.len());
                Err(f)
            },
        }
    }

    /// The dry-run step: non-mutating actions take no preview; a mutating
    /// one runs its dry-run handler, which a built registry guarantees.
    pub fn dry_run_step(&self, prepared: &Prepared<'a, H, D, S>) -> (r: Result<DryRunStep<'a, D>, ValidationFailure>)
        ensures
            !prepared.registration.def.mutates ==> r matches Ok(DryRunStep::Skip),
            prepared.registration.def.mutates && prepared.registration.dry_run is Some
                ==> (r matches Ok(DryRunStep::Run(d)) && prepared.registration.dry_run == Some(*d)),
            prepared.registration.def.mutates && prepared.registration.dry_run is None
                ==> (r matches Err(ValidationFailure::DryRun(m)) && m@ == "mutating action has no dry-run handler"@),
    {
        if !prepared.registration.def.mutates {
            return Ok(DryRunStep::Skip);
        }
        match &prepared.registration.dry_run {
            Some(d) => Ok(DryRunStep::Run(d)),
            None => Err(ValidationFailure::DryRun("mutating action has no dry-run handler".to_owned())),
        }
    }

    /// The slots of the proposal: the registration's builder applied to the
    /// params and preview, or none when it has no builder.
    pub fn build_slots(&self, prepared: &Prepared<'a, H, D, S>, preview: Option<&DryRunPreview>) -> (r: JsonMap)
        where S: SlotBuilder,
        ensures
            prepared.registration.slot_builder is None ==> map_view(r).len() == 0,
    {
        match &prepared.registration.slot_builder {
            Some(b) => b.build(&prepared.params, preview),
            None => JsonMap::new(),
        }
    }

    /// Block lookup and slot check; the validated action on success.
    pub fn finish(&self, prepared: Prepared<'a, H, D, S>, preview: Option<DryRunPreview>, slots: JsonMap) -> (r: Result<ValidatedAction, ValidationFailure>)
        ensures
            match block_for(self.registry_blocks(), prepared.registration.def.block_type@) {
                None => r matches Err(ValidationFailure::InvalidSlot { slot, reason }) && slot@.len() == 0
                    && reason@ == "block type `"@ + prepared.registration.def.block_type@ + "` not registered"@,
                Some(b) => match slot_problem(b, map_view(slots)) {
                    Some(pb) => r matches Err(f) && slot_failure_matches(f, pb),
                    None => r matches Ok(v) && v.action_id@ == prepared.registration.def.id@
                        && map_view(v.params) == map_view(prepared.params)
                        && v.block_type@ == prepared.registration.def.block_type@
                        && map_view(v.slots) == map_view(slots)
                        && opt_preview_view(v.preview) == opt_preview_view(preview),
                },
            },
    {
        let def = &prepared.registration.def;
        let block = match self.registry.block(def.block_type.as_str()) {
            Some(b) => b,
            None => return Err(ValidationFailure::InvalidSlot {
                slot: String::new(),
                reason: concat3("block type `", def.block_type.as_str(), "` not registered"),
            }),
        };
        match block.check_slots(&slots) {
            Ok(()) => {},
            Err(f) => return Err(f),
        }
        Ok(ValidatedAction {
            action_id: def.id.clone(),
            params: prepared.params,
            block_type: def.block_type.clone(),
            slots,
            preview,
        })
    }
}

/// The authorization step: an allow passes, a deny is `Unauthorized` with
/// the resolver's reason.
pub fn authorized(action_id: &str, decision: AuthzDecision) -> (r: Result<(), ValidationFailure>)
    ensures
        decision is Allow ==> r is Ok,
        decision matches AuthzDecision::Deny(reason) ==> (r matches Err(ValidationFailure::Unauthorized { action_id: a, reason: why })
            && a@ == action_id@ && why@ == reason@),
{
    match decision {
        AuthzDecision::Allow => Ok(()),
        AuthzDecision::Deny(reason) => Err(ValidationFailure::Unauthorized { action_id: action_id.to_owned(), reason }),
    }
}

/// The preview step's outcome: a handler failure fails validation closed.
pub fn previewed(outcome: Result<DryRunPreview, HandlerError>) -> (r: Result<DryRunPreview, ValidationFailure>)
    ensures
        outcome matches Ok(p) ==> (r matches Ok(q) && q@ == p@),
        outcome matches Err(e) ==> (r matches Err(ValidationFailure::DryRun(m)) && m@ == handler_error_text(e)),
{
    match outcome {
        Ok(p) => Ok(p),
        Err(e) => Err(ValidationFailure::DryRun(e.message())),
    }
}

} // verus!
