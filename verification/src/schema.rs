//! The declarative registry document and context-param mapping.

use vstd::prelude::*;

use crate::envelope::{opt_json_view, Context, ContextV};
use crate::json::{entry_get, Json, JsonV};
use crate::seams::ContextParamResolver;
use crate::registry::{ActionDef, ActionDefV, BlockDef, BlockDefV, ParamSource, ParamSpec, ParamSpecV, blocks_view, defs_view};
use crate::strmap::{key_get, StrMap};
use crate::text::{concat2, concat3, push_str, split_once, split_once_str, str_eq};
use crate::{version_compatible, spec_version_compatible, SPEC_VERSION};

verus! {

/// A versioned registry document: everything but the handlers.
#[derive(Debug, PartialEq)]
pub struct RegistrySchema {
    /// Spec version the document targets.
    pub spec_version: String,
    /// Registered block types.
    pub blocks: Vec<BlockDef>,
    /// Registered action definitions.
    pub actions: Vec<ActionDef>,
    /// Declarative context-param filling: param name to context path, one
    /// of `route`, `selected_record_id`, `view_type`, `params.<key>` or
    /// `extensions.<key>`, the key taken literally.
    pub context_params: StrMap,
}

/// Model of a [`RegistrySchema`].
pub struct SchemaV {
    pub spec_version: Seq<char>,
    pub blocks: Seq<BlockDefV>,
    pub actions: Seq<ActionDefV>,
    pub context_params: Seq<(Seq<char>, Seq<char>)>,
}

impl View for RegistrySchema {
    type V = SchemaV;

    open spec fn view(&self) -> SchemaV {
        SchemaV {
            spec_version: self.spec_version@,
            blocks: blocks_view(self.blocks@),
            actions: defs_view(self.actions@),
            context_params: self.context_params.view_pairs(),
        }
    }
}

/// Errors loading a registry document.
#[derive(Debug)]
pub enum SchemaError {
    /// The document is not valid JSON for this schema (the parser's message).
    Parse(String),
    /// The document targets a spec version this crate does not implement.
    UnsupportedVersion {
        /// Version named by the document.
        found: String,
        /// Version this crate implements.
        supported: String,
    },
    /// A `context_params` entry names an unsupported context path.
    InvalidContextPath {
        /// The mapped parameter.
        param: String,
        /// The rejected path.
        path: String,
    },
    /// A context-sourced param has no `context_params` mapping.
    UnmappedContextParam {
        /// The action whose param cannot be filled.
        action: String,
        /// The unmapped context-sourced param.
        param: String,
    },
}

pub open spec fn schema_error_text(e: SchemaError) -> Seq<char> {
    match e {
        SchemaError::Parse(m) => "registry schema parse error: "@ + m@,
        SchemaError::UnsupportedVersion { found, supported } => "registry schema speaks `"@ + found@
            + "`, this crate implements `"@ + supported@ + "`"@,
        SchemaError::InvalidContextPath { param, path } => "context_params[`"@ + param@ + "`] = `"@ + path@
            + "` is not a supported context path (route | selected_record_id | view_type | params.<key> | extensions.<key>)"@,
        SchemaError::UnmappedContextParam { action, param } => "action `"@ + action@ + "` param `"@ + param@
            + "` is context-sourced but has no context_params mapping"@,
    }
}

impl SchemaError {
    /// The human-readable description.
    pub fn message(&self) -> (s: String)
        ensures
            s@ == schema_error_text(*self),
    {
        match self {
            SchemaError::Parse(m) => concat2("registry schema parse error: ", m.as_str()),
            SchemaError::UnsupportedVersion { found, supported } => {
                let mut s = concat3("registry schema speaks `", found.as_str(), "`, this crate implements `");
                push_str(&mut s, supported.as_str());
                push_str(&mut s, "`");
                s
            },
            SchemaError::InvalidContextPath { param, path } => {
                let mut s = concat3("context_params[`", param.as_str(), "`] = `");
                push_str(&mut s, path.as_str());
                push_str(
                    &mut s,
                    "` is not a supported context path (route | selected_record_id | view_type | params.<key> | extensions.<key>)",
                );
                s
            },
            SchemaError::UnmappedContextParam { action, param } => {
                let mut s = concat3("action `", action.as_str(), "` param `");
                push_str(&mut s, param.as_str());
                push_str(&mut s, "` is context-sourced but has no context_params mapping");
                s
            },
        }
    }
}

/// The context-path grammar: a fixed context field, or `params.` /
/// `extensions.` followed by a non-empty literal key.
pub open spec fn context_path_valid(path: Seq<char>) -> bool {
    match split_once(path, '.') {
        None => path == "route"@ || path == "selected_record_id"@ || path == "view_type"@,
        Some((head, key)) => (head == "params"@ || head == "extensions"@) && key.len() > 0,
    }
}

/// Whether `path` is in the context-path grammar.
pub fn context_path_is_valid(path: &str) -> (r: bool)
    ensures
        r == context_path_valid(path@),
{
    match split_once_str(path, '.') {
        None => str_eq(path, "route") || str_eq(path, "selected_record_id") || str_eq(path, "view_type"),
        Some((head, key)) => (str_eq(head.as_str(), "params") || str_eq(head.as_str(), "extensions")) && !key.as_str().is_empty(),
    }
}

/// The first mapping (in key order) whose path is outside the grammar.
pub open spec fn first_invalid_path(ps: Seq<(Seq<char>, Seq<char>)>) -> Option<int> {
    if exists|i: int| 0 <= i < ps.len() && !context_path_valid(ps[i].1) && (forall|j: int| 0 <= j < i ==> context_path_valid(ps[j].1)) {
        Some(choose|i: int| 0 <= i < ps.len() && !context_path_valid(ps[i].1) && (forall|j: int| 0 <= j < i ==> context_path_valid(ps[j].1)))
    } else {
        None
    }
}

/// The first context-sourced param (in order) with no mapping.
pub open spec fn unmapped_param(params: Seq<ParamSpecV>, mapped: Seq<(Seq<char>, Seq<char>)>) -> Option<Seq<char>>
    decreases params.len(),
{
    if params.len() == 0 {
        None
    } else if params[0].source == ParamSource::Context && key_get(mapped, params[0].name) is None {
        Some(params[0].name)
    } else {
        unmapped_param(params.drop_first(), mapped)
    }
}

/// The first action (in order) with an unmapped context-sourced param: its
/// ID and the param's name.
pub open spec fn first_unmapped(actions: Seq<ActionDefV>, mapped: Seq<(Seq<char>, Seq<char>)>) -> Option<(Seq<char>, Seq<char>)>
    decreases actions.len(),
{
    if actions.len() == 0 {
        None
    } else {
        match unmapped_param(actions[0].params, mapped) {
            Some(p) => Some((actions[0].id, p)),
            None => first_unmapped(actions.drop_first(), mapped),
        }
    }
}

/// Every context-sourced param of `params` has a mapping.
pub open spec fn all_params_mapped(params: Seq<ParamSpecV>, mapped: Seq<(Seq<char>, Seq<char>)>) -> bool {
    forall|k: int| 0 <= k < params.len() && (#[trigger] params[k]).source == ParamSource::Context ==> key_get(mapped, params[k].name) is Some
}

proof fn lemma_unmapped_param_none(params: Seq<ParamSpecV>, mapped: Seq<(Seq<char>, Seq<char>)>)
    ensures
        unmapped_param(params, mapped) is None <==> all_params_mapped(params, mapped),
    decreases params.len(),
{
    if params.len() > 0 {
        lemma_unmapped_param_none(params.drop_first(), mapped);
        if all_params_mapped(params, mapped) {
            assert forall|k: int| 0 <= k < params.drop_first().len() && (#[trigger] params.drop_first()[k]).source == ParamSource::Context implies key_get(mapped, params.drop_first()[k].name) is Some by {
                assert(params.drop_first()[k] == params[k + 1]);
            }
        }
        if all_params_mapped(params.drop_first(), mapped) && !(params[0].source == ParamSource::Context && key_get(mapped, params[0].name) is None) {
            assert forall|k: int| 0 <= k < params.len() && (#[trigger] params[k]).source == ParamSource::Context implies key_get(mapped, params[k].name) is Some by {
                if k > 0 {
                    assert(params[k] == params.drop_first()[k - 1]);
                }
            }
        }
    }
}

/// Coverage, which [`RegistrySchema::context_resolver`] checks, holds
/// exactly when every context-sourced param of every action has a mapping.
pub proof fn law_coverage_is_every_context_param_mapped(actions: Seq<ActionDefV>, mapped: Seq<(Seq<char>, Seq<char>)>)
    ensures
        first_unmapped(actions, mapped) is None <==> forall|i: int| 0 <= i < actions.len() ==> all_params_mapped(#[trigger] actions[i].params, mapped),
    decreases actions.len(),
{
    if actions.len() > 0 {
        law_coverage_is_every_context_param_mapped(actions.drop_first(), mapped);
        lemma_unmapped_param_none(actions[0].params, mapped);
        if forall|i: int| 0 <= i < actions.len() ==> all_params_mapped(#[trigger] actions[i].params, mapped) {
            assert forall|i: int| 0 <= i < actions.drop_first().len() implies all_params_mapped(#[trigger] actions.drop_first()[i].params, mapped) by {
                assert(actions.drop_first()[i] == actions[i + 1]);
            }
        }
        if first_unmapped(actions, mapped) is None {
            assert forall|i: int| 0 <= i < actions.len() implies all_params_mapped(#[trigger] actions[i].params, mapped) by {
                if i > 0 {
                    assert(actions[i] == actions.drop_first()[i - 1]);
                }
            }
        }
    }
}

proof fn lemma_no_dot(s: Seq<char>)
    requires
        forall|i: int| 0 <= i < s.len() ==> s[i] != '.',
    ensures
        split_once(s, '.') is None,
{
    if crate::text::first_index(s, '.') is Some {
        let i = choose|i: int| crate::text::is_first(s, '.', i);
    }
}

proof fn lemma_split_at_dot(head: Seq<char>, key: Seq<char>)
    requires
        forall|i: int| 0 <= i < head.len() ==> head[i] != '.',
    ensures
        split_once(head + "."@ + key, '.') == Some((head, key)),
{
    reveal_strlit(".");
    let s = head + "."@ + key;
    let n = head.len() as int;
    assert(crate::text::is_first(s, '.', n));
    let i = choose|i: int| crate::text::is_first(s, '.', i);
    if i < n {
        assert(s[i] == head[i]);
    }
    if i > n {
        assert(s[n] != '.');
    }
    assert(s.take(n) =~= head);
    assert(s.skip(n + 1) =~= key);
}

/// What each context path reads from a snapshot, for every snapshot: the
/// fixed fields `route`, `selected_record_id` and `view_type` read those
/// fields (a string, or nothing when the field is empty), and
/// `params.<key>` / `extensions.<key>` read the entry under that literal key.
pub proof fn law_context_paths_read_the_snapshot(ctx: ContextV, key: Seq<char>)
    ensures
        resolve_context_path("route"@, ctx) == Some(JsonV::String(ctx.route)),
        ctx.selected_record_id matches Some(s) ==> resolve_context_path("selected_record_id"@, ctx) == Some(JsonV::String(s)),
        ctx.selected_record_id is None ==> resolve_context_path("selected_record_id"@, ctx) is None,
        ctx.view_type matches Some(s) ==> resolve_context_path("view_type"@, ctx) == Some(JsonV::String(s)),
        ctx.view_type is None ==> resolve_context_path("view_type"@, ctx) is None,
        resolve_context_path("params"@ + "."@ + key, ctx) == entry_get(ctx.params, key),
        resolve_context_path("extensions"@ + "."@ + key, ctx) == entry_get(ctx.extensions, key),
{
    reveal_strlit("route");
    reveal_strlit("selected_record_id");
    reveal_strlit("view_type");
    reveal_strlit("params");
    reveal_strlit("extensions");
    lemma_no_dot("route"@);
    lemma_no_dot("selected_record_id"@);
    lemma_no_dot("view_type"@);
    lemma_split_at_dot("params"@, key);
    lemma_split_at_dot("extensions"@, key);
    assert("route"@.len() != "selected_record_id"@.len());
    assert("route"@.len() != "view_type"@.len());
    assert("selected_record_id"@ != "view_type"@);
    assert("params"@ != "extensions"@);
}

/// A resolver whose table maps a param to `view_type` fills it with the
/// snapshot's view type, and leaves it unresolved when there is none.
pub proof fn law_view_type_param_reads_the_view(
    r: MappedContextResolver,
    action_id: Seq<char>,
    param: ParamSpecV,
    ctx: ContextV,
    v: Option<JsonV>,
)
    requires
        key_get(r.paths_view(), param.name) == Some("view_type"@),
    ensures
        r.resolves(action_id, param, ctx, v) <==> v == match ctx.view_type {
            Some(s) => Some(JsonV::String(s)),
            None => None::<JsonV>,
        },
{
    law_context_paths_read_the_snapshot(ctx, Seq::empty());
}

/// A mapped resolver is determined by its table: two resolvers over the
/// same param-to-path table resolve every param of every snapshot alike.
/// So the resolver [`RegistrySchema::context_resolver`] checks out resolves
/// exactly like [`MappedContextResolver::new`] over the document's table.
pub proof fn law_mapped_resolution_follows_the_table(
    a: MappedContextResolver,
    b: MappedContextResolver,
    action_id: Seq<char>,
    param: ParamSpecV,
    context: ContextV,
    r: Option<JsonV>,
)
    requires
        a.paths_view() == b.paths_view(),
    ensures
        a.resolves(action_id, param, context, r) == b.resolves(action_id, param, context, r),
{
}

/// What a context path reads from a snapshot: the named fixed field, or the
/// literal key of `params` / `extensions`.
pub open spec fn resolve_context_path(path: Seq<char>, ctx: ContextV) -> Option<JsonV> {
    match split_once(path, '.') {
        None => if path == "route"@ {
            Some(JsonV::String(ctx.route))
        } else if path == "selected_record_id"@ {
            match ctx.selected_record_id {
                Some(s) => Some(JsonV::String(s)),
                None => None,
            }
        } else if path == "view_type"@ {
            match ctx.view_type {
                Some(s) => Some(JsonV::String(s)),
                None => None,
            }
        } else {
            None
        },
        Some((head, key)) => if head == "params"@ {
            entry_get(ctx.params, key)
        } else if head == "extensions"@ {
            entry_get(ctx.extensions, key)
        } else {
            None
        },
    }
}

/// Whether `r` is the outcome of checking the parsed document `s`: the
/// version gate first, then the first mapping whose path is outside the
/// grammar; otherwise the document itself.
pub open spec fn checked_result(s: SchemaV, r: Result<RegistrySchema, SchemaError>) -> bool {
    if !version_compatible(s.spec_version) {
        r matches Err(SchemaError::UnsupportedVersion { found, supported }) && found@ == s.spec_version
            && supported@ == SPEC_VERSION@
    } else {
        match first_invalid_path(s.context_params) {
            Some(i) => r matches Err(SchemaError::InvalidContextPath { param, path }) && param@ == s.context_params[i].0
                && path@ == s.context_params[i].1,
            None => r matches Ok(x) && x@ == s,
        }
    }
}

impl RegistrySchema {
    /// Version-gates a parsed document and checks every context path.
    pub fn checked(self) -> (r: Result<RegistrySchema, SchemaError>)
        ensures
            checked_result(self@, r),
    {
        if !spec_version_compatible(self.spec_version.as_str()) {
            return Err(SchemaError::UnsupportedVersion { found: self.spec_version, supported: SPEC_VERSION.to_owned() });
        }
        let ghost ps = self.context_params.view_pairs();
        let n = self.context_params.len();
        let mut i: usize = 0;
        while i < n
            invariant
                i <= n == ps.len(),
                ps == self.context_params.view_pairs(),
                version_compatible(self@.spec_version),
                forall|j: int| 0 <= j < i ==> context_path_valid(ps[j].1),
            decreases n - i,
        {
            if !context_path_is_valid(self.context_params.value_at(i).as_str()) {
                proof {
                    let w = choose|w: int| 0 <= w < ps.len() && !context_path_valid(ps[w].1) && (forall|j: int| 0 <= j < w ==> context_path_valid(ps[j].1));
                    if w < i {
                        assert(context_path_valid(ps[w].1));
                    }
                    if i < w {
                        assert(context_path_valid(ps[i as int].1));
                    }
                }
                return Err(SchemaError::InvalidContextPath {
                    param: self.context_params.key_at(i).clone(),
                    path: self.context_params.value_at(i).clone(),
                });
            }
            i = i + 1;
        }
        proof {
            if exists|w: int| 0 <= w < ps.len() && !context_path_valid(ps[w].1) && (forall|j: int| 0 <= j < w ==> context_path_valid(ps[j].1)) {
                let w = choose|w: int| 0 <= w < ps.len() && !context_path_valid(ps[w].1) && (forall|j: int| 0 <= j < w ==> context_path_valid(ps[j].1));
                assert(context_path_valid(ps[w].1));
            }
        }
        Ok(self)
    }

    /// A context resolver over this document's mapping, checked for
    /// coverage: every context-sourced param of every action must be mapped.
    pub fn context_resolver(&self) -> (r: Result<MappedContextResolver, SchemaError>)
        ensures
            match first_unmapped(self@.actions, self@.context_params) {
                Some((a, p)) => r matches Err(SchemaError::UnmappedContextParam { action, param })
                    && action@ == a && param@ == p,
                None => r matches Ok(m) && m.paths_view() == self@.context_params,
            },
    {
        let ghost mapped = self.context_params.view_pairs();
        let ghost acts = self@.actions;
        let mut i: usize = 0;
        assert(acts.skip(0) =~= acts);
        while i < self.actions.len()
            invariant
                i <= self.actions.len() == acts.len(),
                acts == self@.actions,
                mapped == self.context_params.view_pairs(),
                first_unmapped(acts, mapped) == first_unmapped(acts.skip(i as int), mapped),
            decreases self.actions.len() - i,
        {
            let action = &self.actions[i];
            let ghost ps = action@.params;
            assert(acts[i as int] == action@);
            let mut k: usize = 0;
            assert(ps.skip(0) =~= ps);
            while k < action.params.len()
                invariant
                    k <= action.params.len() == ps.len(),
                    ps == action@.params,
                    i < acts.len(),
                    acts == self@.actions,
                    acts[i as int] == action@,
                    first_unmapped(acts, mapped) == first_unmapped(acts.skip(i as int), mapped),
                    mapped == self.context_params.view_pairs(),
                    unmapped_param(ps, mapped) == unmapped_param(ps.skip(k as int), mapped),
                decreases action.params.len() - k,
            {
                let param = &action.params[k];
                assert(ps[k as int] == param@);
                assert(ps.skip(k as int)[0] == ps[k as int]);
                assert(ps.skip(k as int).drop_first() =~= ps.skip(k + 1));
                if param.source == ParamSource::Context && !self.context_params.contains_key(param.name.as_str()) {
                    proof {
                        assert(acts.skip(i as int)[0] == acts[i as int]);
                    }
                    return Err(SchemaError::UnmappedContextParam { action: action.id.clone(), param: param.name.clone() });
                }
                k = k + 1;
            }
            proof {
                assert(ps.skip(k as int) =~= Seq::<ParamSpecV>::empty());
                assert(acts.skip(i as int)[0] == acts[i as int]);
                assert(acts.skip(i as int).drop_first() =~= acts.skip(i + 1));
            }
            i = i + 1;
        }
        assert(acts.skip(i as int) =~= Seq::<ActionDefV>::empty());
        Ok(MappedContextResolver::new(self.context_params.copy()))
    }
}

/// Fills context-sourced params from a param-name to context-path table.
pub struct MappedContextResolver {
    paths: StrMap,
}

impl MappedContextResolver {
    /// The param-name to path table.
    pub closed spec fn paths_view(self) -> Seq<(Seq<char>, Seq<char>)> {
        self.paths.view_pairs()
    }

    /// Builds a resolver from a param to path table.
    pub fn new(paths: StrMap) -> (r: MappedContextResolver)
        ensures
            r.paths_view() == paths.view_pairs(),
    {
        MappedContextResolver { paths }
    }
}

impl ContextParamResolver for MappedContextResolver {
    /// A mapped param reads its path from the snapshot; an unmapped one
    /// does not resolve.
    open spec fn resolves(&self, action_id: Seq<char>, param: ParamSpecV, context: ContextV, r: Option<JsonV>) -> bool {
        match key_get(self.paths_view(), param.name) {
            None => r is None,
            Some(path) => r == resolve_context_path(path, context),
        }
    }

    /// The value of a context-sourced param: what its mapped path reads
    /// from the snapshot; `None` when the param is unmapped, the path is
    /// outside the grammar, or the snapshot lacks the value.
    fn resolve(&self, action_id: &str, param: &ParamSpec, context: &Context) -> (r: Option<Json>)
        ensures
            match key_get(self.paths_view(), param.name@) {
                None => r is None,
                Some(path) => opt_json_view(r) == resolve_context_path(path, context@),
            },
    {
        let path = match self.paths.get(param.name.as_str()) {
            Some(p) => p,
            None => return None,
        };
        match split_once_str(path.as_str(), '.') {
            None => {
                if str_eq(path.as_str(), "route") {
                    Some(Json::String(context.route.clone()))
                } else if str_eq(path.as_str(), "selected_record_id") {
                    match &context.selected_record_id {
                        Some(s) => Some(Json::String(s.clone())),
                        None => None,
                    }
                } else if str_eq(path.as_str(), "view_type") {
                    match &context.view_type {
                        Some(s) => Some(Json::String(s.clone())),
                        None => None,
                    }
                } else {
                    None
                }
            },
            Some((head, key)) => {
                if str_eq(head.as_str(), "params") {
                    match context.params.get(key.as_str()) {
                        Some(v) => Some(v.deep_clone()),
                        None => None,
                    }
                } else if str_eq(head.as_str(), "extensions") {
                    match context.extensions.get(key.as_str()) {
                        Some(v) => Some(v.deep_clone()),
                        None => None,
                    }
                } else {
                    None
                }
            },
        }
    }
}

} // verus!
