//! Assembly of the standalone service: a registry document plus the
//! resolved configuration in, a registry whose every seam is reached over
//! the host webhooks out.

use vstd::prelude::*;

use crate::client::{
    check_client_config, client_config_error_text, route_error_text, route_of, startup_refusal, trim_trailing_slashes,
    ClientConfigError, Route,
    StartupRefusal,
};
use crate::config::{route_view, Resolved, ResolvedAction};
use crate::declarative::DeclarativeSlots;
use crate::error::{lemma_registry_error_text, reg_err_text, RegErrV, RegistryError};
use crate::registry::{build_outcome, same_elements, ActionDefV, AttachV, Binding, RegV, Registry, RegistryBuilder};
use crate::schema::{
    checked_result, first_invalid_path, first_unmapped, schema_error_text, MappedContextResolver, RegistrySchema,
    SchemaError, SchemaV,
};
use crate::strmap::key_get;
use crate::text::{concat2, concat3};
use crate::{version_compatible, SPEC_VERSION};

verus! {

/// Parses-and-gates outcome of a registry document, given the parser's
/// result: the parse error, the version gate and the context-path check,
/// each as its message.
pub open spec fn load_outcome(parsed: Result<SchemaV, Seq<char>>) -> Result<SchemaV, Seq<char>> {
    match parsed {
        Err(m) => Err("registry schema parse error: "@ + m),
        Ok(s) => if !version_compatible(s.spec_version) {
            Err("registry schema speaks `"@ + s.spec_version + "`, this crate implements `"@ + SPEC_VERSION@ + "`"@)
        } else {
            match first_invalid_path(s.context_params) {
                Some(i) => Err(
                    "context_params[`"@ + s.context_params[i].0 + "`] = `"@ + s.context_params[i].1
                        + "` is not a supported context path (route | selected_record_id | view_type | params.<key> | extensions.<key>)"@,
                ),
                None => Ok(s),
            }
        },
    }
}

/// Checks a registry document (given as the parser's result) against the
/// version gate and the context-path grammar; errors are messages.
pub fn load_schema(parsed: Result<RegistrySchema, String>) -> (r: Result<RegistrySchema, String>)
    ensures
        match load_outcome(
            match parsed {
                Ok(s) => Ok(s@),
                Err(m) => Err(m@),
            },
        ) {
            Ok(s) => r matches Ok(x) && x@ == s,
            Err(m) => r matches Err(x) && x@ == m,
        },
{
    let schema = match parsed {
        Err(m) => return Err(SchemaError::Parse(m).message()),
        Ok(s) => s,
    };
    match schema.checked() {
        Ok(s) => Ok(s),
        Err(e) => Err(e.message()),
    }
}

/// Loading a document is checking it with the error rendered as its
/// message: a parse failure gives the parse error's message, and for a
/// parsed document each outcome of [`RegistrySchema::checked`], rendered,
/// is what loading gives.
pub proof fn law_load_is_the_check_rendered(s: SchemaV, r: Result<RegistrySchema, SchemaError>, m: String)
    requires
        checked_result(s, r),
    ensures
        load_outcome(Err(m@)) == Err::<SchemaV, Seq<char>>(schema_error_text(SchemaError::Parse(m))),
        load_outcome(Ok(s)) == match r {
            Ok(x) => Ok::<SchemaV, Seq<char>>(x@),
            Err(e) => Err(schema_error_text(e)),
        },
{
}

/// Assembly errors, all fatal at startup.
#[derive(Debug)]
pub enum BuildError {
    /// Webhook client refusals or a bad base URL.
    Client(ClientConfigError),
    /// Registry attachment invariants.
    Registry(String),
    /// Context-param mapping gaps.
    Schema(String),
}

pub open spec fn build_error_text(e: BuildError) -> Seq<char> {
    match e {
        BuildError::Client(c) => client_config_error_text(c),
        BuildError::Registry(m) => "registry: "@ + m@,
        BuildError::Schema(m) => "registry: "@ + m@,
    }
}

impl BuildError {
    /// The human-readable description.
    pub fn message(&self) -> (s: String)
        ensures
            s@ == build_error_text(*self),
    {
        match self {
            BuildError::Client(c) => c.message(),
            BuildError::Registry(m) => concat2("registry: ", m.as_str()),
            BuildError::Schema(m) => concat2("registry: ", m.as_str()),
        }
    }
}

/// An action's execute seam: delivered to the host's execute webhook.
#[derive(Debug)]
pub struct ExecuteSeam {
    pub action_id: String,
    pub route: Route,
}

/// An action's dry-run seam: delivered to the host's dry-run webhook.
#[derive(Debug)]
pub struct DryRunSeam {
    pub action_id: String,
    pub route: Route,
}

/// The assembled service: the registry, the context resolver, and the
/// upstream base URL the webhook routes are joined to.
pub struct Service {
    pub registry: Registry<ExecuteSeam, DryRunSeam, DeclarativeSlots>,
    pub resolver: MappedContextResolver,
    pub base_url: String,
}

/// The first schema action without resolved routes, by position.
pub open spec fn first_unrouted(defs: Seq<ActionDefV>, routes: Seq<(Seq<char>, ResolvedAction)>) -> Option<int> {
    if exists|i: int| 0 <= i < defs.len() && key_get(routes, defs[i].id) is None
        && (forall|j: int| 0 <= j < i ==> key_get(routes, defs[j].id) is Some) {
        Some(
            choose|i: int|
                0 <= i < defs.len() && key_get(routes, defs[i].id) is None && (forall|j: int|
                    0 <= j < i ==> key_get(routes, defs[j].id) is Some),
        )
    } else {
        None
    }
}

/// The attachment made for a schema action: its resolved dry-run route and
/// slot table decide which optional seams it carries.
pub open spec fn attachment_of(def: ActionDefV, routes: Seq<(Seq<char>, ResolvedAction)>) -> AttachV {
    let a = key_get(routes, def.id).unwrap();
    AttachV { id: def.id, has_dry_run: a.dry_run is Some, has_slot_builder: a.slots is Some }
}

pub open spec fn service_attachments(defs: Seq<ActionDefV>, routes: Seq<(Seq<char>, ResolvedAction)>) -> Seq<AttachV> {
    Seq::new(defs.len(), |i: int| attachment_of(defs[i], routes))
}

/// A service registration carries webhook seams for exactly the routes
/// resolved for its action: the execute route, the dry-run route when there
/// is one, and the declarative slot table when there is one.
pub open spec fn seams_follow_routes(
    b: Binding<ExecuteSeam, DryRunSeam, DeclarativeSlots>,
    routes: Seq<(Seq<char>, ResolvedAction)>,
) -> bool {
    &&& key_get(routes, b.0) is Some
    &&& b.1.action_id@ == b.0
    &&& route_view(b.1.route) == route_view(key_get(routes, b.0).unwrap().execute)
    &&& (b.2 is Some) == (key_get(routes, b.0).unwrap().dry_run is Some)
    &&& b.2 matches Some(d) ==> d.action_id@ == b.0 && route_view(d.route) == route_view(
        key_get(routes, b.0).unwrap().dry_run.unwrap(),
    )
    &&& (b.3 is Some) == (key_get(routes, b.0).unwrap().slots is Some)
    &&& b.3 matches Some(t) ==> t.table() == key_get(routes, b.0).unwrap().slots.unwrap().table()
}

/// Whether `e` is the client error for a startup refusal of `base_url`.
pub open spec fn refusal_error(k: StartupRefusal, base_url: Seq<char>, e: ClientConfigError) -> bool {
    match k {
        StartupRefusal::InvalidBaseUrl => e matches ClientConfigError::InvalidBaseUrl(u) && u@ == base_url,
        StartupRefusal::RemotePlaintext => e matches ClientConfigError::RemotePlaintext(u) && u@ == base_url,
        StartupRefusal::MissingSecret => e is MissingSecret,
    }
}

/// Whether `r` is the assembly of `schema` with the resolved configuration
/// `res` (`loopback`: the upstream host is a loopback IP literal): the client
/// refusals first, then an action without routes, then the registry's own
/// build check, then the context-param mapping.
pub open spec fn service_result(res: Resolved, schema: SchemaV, loopback: bool, r: Result<Service, BuildError>) -> bool {
    match startup_refusal(
        res.client.base_url@,
        res.client.secret is Some,
        res.client.danger_allow_remote_http,
        res.client.danger_allow_missing_secret,
        loopback,
    ) {
        Some(k) => r matches Err(BuildError::Client(e)) && refusal_error(k, res.client.base_url@, e),
        None => match first_unrouted(schema.actions, res.actions.pairs()) {
            Some(i) => r matches Err(BuildError::Registry(m)) && m@ == "no resolved routes for action `"@
                + schema.actions[i].id + "`"@,
            None => match build_outcome(
                Seq::empty(),
                schema.blocks,
                schema.actions,
                service_attachments(schema.actions, res.actions.pairs()),
            ) {
                Err(e) => r matches Err(BuildError::Registry(m)) && m@ == reg_err_text(e),
                Ok(acts) => match first_unmapped(schema.actions, schema.context_params) {
                    Some((a, p)) => r matches Err(BuildError::Schema(m)) && m@ == "action `"@ + a + "` param `"@ + p
                        + "` is context-sourced but has no context_params mapping"@,
                    None => r matches Ok(s) && same_elements(s.registry.actions_view(), acts)
                        && same_elements(s.registry.blocks_list(), schema.blocks)
                        && s.registry.context_view() == schema.context_params
                        && s.resolver.paths_view() == schema.context_params
                        && s.base_url@ == trim_trailing_slashes(res.client.base_url@)
                        && (forall|i: int| 0 <= i < s.registry.bindings().len() ==>
                            seams_follow_routes(#[trigger] s.registry.bindings()[i], res.actions.pairs())),
                },
            },
        },
    }
}

} // verus!

verus! {

/// Assembles the service registry: the upstream client configuration must
/// pass the startup refusals (`host_ip_loopback`: the upstream host is a
/// loopback IP literal), every schema action must have resolved routes,
/// then the registry is built with webhook seams and the context-param
/// mapping is checked. Nothing is served on a bad configuration.
pub fn build_service(resolved: &Resolved, schema: RegistrySchema, host_ip_loopback: bool) -> (r: Result<Service, BuildError>)
    ensures
        service_result(*resolved, schema@, host_ip_loopback, r),
{
    let base_url = match check_client_config(&resolved.client, host_ip_loopback) {
        Ok(b) => b,
        Err(e) => return Err(BuildError::Client(e)),
    };
    let ghost sv = schema@;
    let ghost routes = resolved.actions.pairs();
    let mut seams: Vec<(String, ExecuteSeam, Option<DryRunSeam>, Option<DeclarativeSlots>)> = Vec::new();
    let n = schema.actions.len();
    let mut i: usize = 0;
    while i < n
        invariant
            i <= n,
            n == sv.actions.len(),
            sv == schema@,
            routes == resolved.actions.pairs(),
            startup_refusal(
                resolved.client.base_url@,
                resolved.client.secret is Some,
                resolved.client.danger_allow_remote_http,
                resolved.client.danger_allow_missing_secret,
                host_ip_loopback,
            ) is None,
            base_url@ == trim_trailing_slashes(resolved.client.base_url@),
            seams.len() == i,
            forall|j: int| 0 <= j < i ==> key_get(routes, #[trigger] sv.actions[j].id) is Some,
            forall|j: int| 0 <= j < i ==> {
                let s = #[trigger] seams[j];
                &&& s.0@ == sv.actions[j].id
                &&& (s.2 is Some) == (attachment_of(sv.actions[j], routes).has_dry_run)
                &&& (s.3 is Some) == (attachment_of(sv.actions[j], routes).has_slot_builder)
                &&& seams_follow_routes((s.0@, s.1, s.2, s.3), routes)
            },
        decreases n - i,
    {
        let id = &schema.actions[i].id;
        assert(sv.actions[i as int].id == id@);
        let action = match resolved.actions.get(id.as_str()) {
            Some(a) => a,
            None => {
                assert(first_unrouted(sv.actions, routes) == Some(i as int)) by {
                    let w = i as int;
                    assert(0 <= w < sv.actions.len() && key_get(routes, sv.actions[w].id) is None && (forall|j: int|
                        0 <= j < w ==> key_get(routes, sv.actions[j].id) is Some));
                    let c = choose|c: int|
                        0 <= c < sv.actions.len() && key_get(routes, sv.actions[c].id) is None && (forall|j: int|
                            0 <= j < c ==> key_get(routes, sv.actions[j].id) is Some);
                    if c < w {
                        assert(key_get(routes, sv.actions[c].id) is Some);
                    }
                    if w < c {
                        assert(key_get(routes, sv.actions[w].id) is Some);
                    }
                }
                return Err(BuildError::Registry(concat3("no resolved routes for action `", id.as_str(), "`")));
            },
        };
        let execute = ExecuteSeam { action_id: id.clone(), route: action.execute.copy() };
        let dry_run = match &action.dry_run {
            Some(route) => Some(DryRunSeam { action_id: id.clone(), route: route.copy() }),
            None => None,
        };
        let slots = match &action.slots {
            Some(t) => Some(t.copy()),
            None => None,
        };
        let sid = id.clone();
        assert(seams_follow_routes((sid@, execute, dry_run, slots), routes));
        seams.push((sid, execute, dry_run, slots));
        i = i + 1;
    }
    assert(first_unrouted(sv.actions, routes) is None);
    let context_check = schema.context_resolver();
    let mut builder: RegistryBuilder<ExecuteSeam, DryRunSeam, DeclarativeSlots> = RegistryBuilder::from_schema(schema);
    let ghost atts = service_attachments(sv.actions, routes);
    let mut k: usize = 0;
    let ghost total = seams.len();
    while seams.len() > 0
        invariant
            k + seams.len() == total,
            total == n,
            n == sv.actions.len(),
            atts == service_attachments(sv.actions, routes),
            routes == resolved.actions.pairs(),
            first_unrouted(sv.actions, routes) is None,
            match first_unmapped(sv.actions, sv.context_params) {
                Some((a, p)) => context_check matches Err(SchemaError::UnmappedContextParam { action, param })
                    && action@ == a && param@ == p,
                None => context_check matches Ok(m) && m.paths_view() == sv.context_params,
            },
            startup_refusal(
                resolved.client.base_url@,
                resolved.client.secret is Some,
                resolved.client.danger_allow_remote_http,
                resolved.client.danger_allow_missing_secret,
                host_ip_loopback,
            ) is None,
            base_url@ == trim_trailing_slashes(resolved.client.base_url@),
            forall|j: int| 0 <= j < seams.len() ==> {
                let s = #[trigger] seams[j];
                &&& s.0@ == sv.actions[k + j].id
                &&& (s.2 is Some) == (attachment_of(sv.actions[k + j], routes).has_dry_run)
                &&& (s.3 is Some) == (attachment_of(sv.actions[k + j], routes).has_slot_builder)
            },
            builder.actions_view().len() == 0,
            builder.blocks_list() == sv.blocks,
            builder.pending_view() == sv.actions,
            builder.context_view() == sv.context_params,
            builder.attachments_view() == atts.take(k as int),
            forall|j: int| 0 <= j < seams.len() ==> {
                let s = #[trigger] seams[j];
                seams_follow_routes((s.0@, s.1, s.2, s.3), routes)
            },
            builder.action_bindings().len() == 0,
            forall|j: int| 0 <= j < builder.attached_bindings().len() ==>
                seams_follow_routes(#[trigger] builder.attached_bindings()[j], routes),
        decreases seams.len(),
    {
        let ghost before = seams@;
        let (id, execute, dry_run, slots) = seams.remove(0);
        assert(before[0].0@ == sv.actions[k as int].id);
        assert forall|j: int| 0 <= j < seams.len() implies {
            let s = #[trigger] seams[j];
            &&& s.0@ == sv.actions[k + 1 + j].id
            &&& (s.2 is Some) == (attachment_of(sv.actions[k + 1 + j], routes).has_dry_run)
            &&& (s.3 is Some) == (attachment_of(sv.actions[k + 1 + j], routes).has_slot_builder)
        } by {
            assert(seams[j] == before[j + 1]);
        }
        assert forall|j: int| 0 <= j < seams.len() implies {
            let s = #[trigger] seams[j];
            seams_follow_routes((s.0@, s.1, s.2, s.3), routes)
        } by {
            assert(seams[j] == before[j + 1]);
        }
        assert(seams_follow_routes((id@, execute, dry_run, slots), routes)) by {
            assert(before[0] == (id, execute, dry_run, slots));
        }
        builder = builder.attach(id, execute, dry_run, slots);
        assert(atts.take(k + 1) =~= atts.take(k as int).push(atts[k as int]));
        k = k + 1;
    }
    assert(atts.take(k as int) =~= atts);
    assert(builder.actions_view() =~= Seq::<RegV>::empty());
    let ghost offers = builder.attached_bindings();
    let registry = match builder.build() {
        Ok(reg) => {
            assert forall|i: int| 0 <= i < reg.bindings().len() implies seams_follow_routes(
                #[trigger] reg.bindings()[i],
                routes,
            ) by {
                let j = choose|j: int| 0 <= j < offers.len() && offers[j] == reg.bindings()[i];
            }
            reg
        },
        Err(e) => {
            proof {
                lemma_registry_error_text(e);
            }
            return Err(BuildError::Registry(e.message()));
        },
    };
    let resolver = match context_check {
        Ok(m) => m,
        Err(e) => return Err(BuildError::Schema(e.message())),
    };
    Ok(Service { registry, resolver, base_url })
}

} // verus!

verus! {

/// Parses a `"METHOD /path"` string; the error is the parse error's message.
pub fn parse_route(value: &str) -> (r: Result<Route, String>)
    ensures
        match route_of(value@) {
            Some((m, p)) => r matches Ok(route) && route.method@ == m && route.path@ == p,
            None => r matches Err(e) && e@ == route_error_text(value@),
        },
{
    match Route::parse(value) {
        Ok(route) => Ok(route),
        Err(e) => Err(e.message()),
    }
}

} // verus!
