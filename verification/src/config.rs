//! The standalone service's deployment configuration, validated against
//! the registry: routes, slot coverage, secrets (named indirectly, their
//! values read by the caller).

use vstd::prelude::*;

use crate::agent::AgentConfig;
use crate::client::{route_of, HostClientConfig, RetryPolicy, Route, RouteParseError, Timeouts};
use crate::declarative::{copy_script, script_view, DeclarativeSlots, LlmItem, ScriptV};
use crate::envelope::{copy_opt_string, copy_strings, opt_str_view, strs_view};
use crate::registry::{ActionDef, ActionDefV, BlockDef, BlockDefV, SlotSpecV, blocks_view, defs_view};
use crate::schema::RegistrySchema;
use crate::seams::ItemV;
use crate::strmap::{key_get, key_index, key_insert, lemma_key_insert_map, map_entries, KeyMap};
use crate::text::{concat2, concat3, push_str, replace, replace_all, str_eq};

verus! {

/// Configuration errors, all fatal at startup.
#[derive(Debug)]
pub enum ConfigError {
    /// TOML syntax or unknown-field error (the parser's message).
    Parse(String),
    /// A `"METHOD /path"` string failed to parse.
    Route(RouteParseError),
    /// A named env var is unset: its name, and the setting that names it.
    MissingEnv(String, String),
    /// The registry and the actions table disagree.
    Coverage(String),
    /// The LLM section is unusable.
    Llm(String),
}

/// Model of a [`ConfigError`] (a route error by the rejected text).
pub enum ConfigErrV {
    Parse(Seq<char>),
    Route(Seq<char>),
    MissingEnv(Seq<char>, Seq<char>),
    Coverage(Seq<char>),
    Llm(Seq<char>),
}

impl View for ConfigError {
    type V = ConfigErrV;

    open spec fn view(&self) -> ConfigErrV {
        match self {
            ConfigError::Parse(m) => ConfigErrV::Parse(m@),
            ConfigError::Route(e) => ConfigErrV::Route(e.0@),
            ConfigError::MissingEnv(n, by) => ConfigErrV::MissingEnv(n@, by@),
            ConfigError::Coverage(m) => ConfigErrV::Coverage(m@),
            ConfigError::Llm(m) => ConfigErrV::Llm(m@),
        }
    }
}

impl ConfigError {
    /// The error's message.
    pub fn message(&self) -> (s: String)
        ensures
            s@ == match *self {
                ConfigError::Parse(m) => "config: "@ + m@,
                ConfigError::Route(e) => "config: "@ + crate::client::route_error_text(e.0@),
                ConfigError::MissingEnv(n, by) => "config: env var `"@ + n@ + "` (named by `"@ + by@ + "`) is not set"@,
                ConfigError::Coverage(m) => "config: "@ + m@,
                ConfigError::Llm(m) => "config: llm: "@ + m@,
            },
    {
        match self {
            ConfigError::Parse(m) => concat2("config: ", m.as_str()),
            ConfigError::Route(e) => concat2("config: ", e.message().as_str()),
            ConfigError::MissingEnv(n, by) => {
                let mut s = concat3("config: env var `", n.as_str(), "` (named by `");
                push_str(&mut s, by.as_str());
                push_str(&mut s, "`) is not set");
                s
            },
            ConfigError::Coverage(m) => concat2("config: ", m.as_str()),
            ConfigError::Llm(m) => concat2("config: llm: ", m.as_str()),
        }
    }
}

/// The default listen address.
pub fn default_bind() -> (s: String)
    ensures
        s@ == "127.0.0.1:8789"@,
{
    "127.0.0.1:8789".to_owned()
}

/// The default mount path of the agent stream.
pub fn default_path() -> (s: String)
    ensures
        s@ == "/agent"@,
{
    "/agent".to_owned()
}

/// `[server]`.
#[derive(Debug)]
pub struct ServerSection {
    /// Listen address.
    pub bind: String,
    /// Stream mount path.
    pub path: String,
}

impl Default for ServerSection {
    fn default() -> (s: ServerSection)
        ensures
            s.bind@ == "127.0.0.1:8789"@,
            s.path@ == "/agent"@,
    {
        ServerSection { bind: default_bind(), path: default_path() }
    }
}

/// `[upstream.timeouts]`, milliseconds; absent ones take the defaults.
#[derive(Debug)]
pub struct TimeoutsSection {
    pub verify_ms: Option<u64>,
    pub authorize_ms: Option<u64>,
    pub dry_run_ms: Option<u64>,
    pub execute_ms: Option<u64>,
}

pub open spec fn or_default(v: Option<u64>, d: u64) -> u64 {
    match v {
        Some(x) => x,
        None => d,
    }
}

impl TimeoutsSection {
    /// The effective timeouts.
    pub fn resolve(&self) -> (t: Timeouts)
        ensures
            t.verify_session_ms == or_default(self.verify_ms, 5000),
            t.authorize_ms == or_default(self.authorize_ms, 5000),
            t.dry_run_ms == or_default(self.dry_run_ms, 10000),
            t.execute_ms == or_default(self.execute_ms, 30000),
    {
        let defaults = Timeouts::default();
        Timeouts {
            verify_session_ms: match self.verify_ms {
                Some(v) => v,
                None => defaults.verify_session_ms,
            },
            authorize_ms: match self.authorize_ms {
                Some(v) => v,
                None => defaults.authorize_ms,
            },
            dry_run_ms: match self.dry_run_ms {
                Some(v) => v,
                None => defaults.dry_run_ms,
            },
            execute_ms: match self.execute_ms {
                Some(v) => v,
                None => defaults.execute_ms,
            },
        }
    }
}

/// `[upstream.retry]`.
#[derive(Debug)]
pub struct RetrySection {
    /// Total execute attempts including the first.
    pub execute_attempts: Option<u32>,
    /// Base backoff between attempts, doubled per retry.
    pub backoff_ms: Option<u64>,
}

impl RetrySection {
    /// The effective retry policy.
    pub fn resolve(&self) -> (p: RetryPolicy)
        ensures
            p.execute_attempts == match self.execute_attempts {
                Some(n) => n,
                None => 3u32,
            },
            p.backoff_ms == or_default(self.backoff_ms, 200),
    {
        let defaults = RetryPolicy::default();
        RetryPolicy {
            execute_attempts: match self.execute_attempts {
                Some(n) => n,
                None => defaults.execute_attempts,
            },
            backoff_ms: match self.backoff_ms {
                Some(v) => v,
                None => defaults.backoff_ms,
            },
        }
    }
}

/// The default env var holding the service-to-service secret.
pub fn default_secret_env() -> (s: String)
    ensures
        s@ == "CLEVERHANS_UPSTREAM_SECRET"@,
{
    "CLEVERHANS_UPSTREAM_SECRET".to_owned()
}

/// `[upstream]`.
#[derive(Debug)]
pub struct UpstreamSection {
    /// Host origin.
    pub base_url: String,
    /// Env var holding the service-to-service secret.
    pub secret_env: String,
    /// Per-endpoint timeouts.
    pub timeouts: TimeoutsSection,
    /// Execute retry policy.
    pub retry: RetrySection,
    /// Permit plaintext HTTP to a non-loopback upstream.
    pub danger_allow_remote_http: bool,
    /// Permit running without a service secret.
    pub danger_allow_missing_secret: bool,
}

/// The default header forward-allowlist.
pub fn default_forward_headers() -> (v: Vec<String>)
    ensures
        strs_view(v@) == seq!["authorization"@, "cookie"@],
{
    let mut v = Vec::new();
    v.push("authorization".to_owned());
    v.push("cookie".to_owned());
    assert(strs_view(v@) =~= seq!["authorization"@, "cookie"@]);
    v
}

/// `[auth]`: stream-establishment verification.
#[derive(Debug)]
pub struct AuthSection {
    /// `"METHOD /path"` of the host's verify_session endpoint.
    pub verify: String,
    /// Header forward-allowlist.
    pub forward_headers: Vec<String>,
}

/// `[authz]`: the authorize endpoint.
#[derive(Debug)]
pub struct AuthzSection {
    /// `"METHOD /path"` of the host's authorize endpoint.
    pub endpoint: String,
}

/// A declarative model-provider selection.
#[derive(Debug)]
pub enum LlmSpec {
    /// Anthropic's API with a key and an optional model override.
    Anthropic { api_key: String, model: Option<String> },
    /// A local Ollama daemon.
    Ollama { model: String, base_url: Option<String> },
    /// Scripted turns (keyless CI).
    Scripted { script: Vec<Vec<LlmItem>> },
}

/// `[llm]`: provider selection, secrets by env indirection.
#[derive(Debug)]
pub struct LlmSection {
    /// `anthropic` | `ollama` | `scripted`.
    pub provider: String,
    /// Model override.
    pub model: Option<String>,
    /// Env var holding the API key (anthropic).
    pub api_key_env: Option<String>,
    /// Daemon origin (ollama).
    pub base_url: Option<String>,
    /// Scripted turns (scripted).
    pub script: Option<Vec<Vec<LlmItem>>>,
}

impl LlmSection {
    /// The env var the anthropic provider reads its key from.
    pub fn api_key_env_name(&self) -> (s: &str)
        ensures
            s@ == match self.api_key_env {
                Some(n) => n@,
                None => "ANTHROPIC_API_KEY"@,
            },
    {
        match &self.api_key_env {
            Some(n) => n.as_str(),
            None => "ANTHROPIC_API_KEY",
        }
    }

    /// Resolves the provider selection, given the value of the key env var
    /// ([`LlmSection::api_key_env_name`]) if set.
    pub fn resolve(&self, api_key: Option<String>) -> (r: Result<LlmSpec, ConfigError>)
        ensures
            self.provider@ == "anthropic"@ ==> match api_key {
                Some(k) => r matches Ok(LlmSpec::Anthropic { api_key: key, model }) && key@ == k@
                    && opt_str_view(model) == opt_str_view(self.model),
                None => r matches Err(ConfigError::MissingEnv(n, by)) && by@ == "llm.api_key_env"@
                    && n@ == match self.api_key_env {
                        Some(e) => e@,
                        None => "ANTHROPIC_API_KEY"@,
                    },
            },
            self.provider@ == "ollama"@ ==> match self.model {
                Some(m) => r matches Ok(LlmSpec::Ollama { model, base_url }) && model@ == m@
                    && opt_str_view(base_url) == opt_str_view(self.base_url),
                None => r matches Err(ConfigError::Llm(m)) && m@ == "ollama requires `model`"@,
            },
            self.provider@ == "scripted"@ ==> match self.script {
                Some(s) => r matches Ok(LlmSpec::Scripted { script }) && script_view(script@) == script_view(s@),
                None => r matches Err(ConfigError::Llm(m)) && m@ == "scripted requires `script`"@,
            },
            (self.provider@ != "anthropic"@ && self.provider@ != "ollama"@ && self.provider@ != "scripted"@)
                ==> (r matches Err(ConfigError::Llm(m)) && m@ == "unknown provider `"@ + self.provider@
                + "` (anthropic | ollama | scripted)"@),
    {
        proof {
            reveal_strlit("anthropic");
            reveal_strlit("ollama");
            reveal_strlit("scripted");
            assert("anthropic"@.len() == 9);
            assert("ollama"@.len() == 6);
            assert("scripted"@.len() == 8);
        }
        if str_eq(self.provider.as_str(), "anthropic") {
            match api_key {
                Some(key) => Ok(LlmSpec::Anthropic { api_key: key, model: copy_opt_string(&self.model) }),
                None => Err(ConfigError::MissingEnv(self.api_key_env_name().to_owned(), "llm.api_key_env".to_owned())),
            }
        } else if str_eq(self.provider.as_str(), "ollama") {
            match &self.model {
                Some(m) => Ok(LlmSpec::Ollama { model: m.clone(), base_url: copy_opt_string(&self.base_url) }),
                None => Err(ConfigError::Llm("ollama requires `model`".to_owned())),
            }
        } else if str_eq(self.provider.as_str(), "scripted") {
            match &self.script {
                Some(s) => Ok(LlmSpec::Scripted { script: copy_script(s) }),
                None => Err(ConfigError::Llm("scripted requires `script`".to_owned())),
            }
        } else {
            Err(ConfigError::Llm(concat3("unknown provider `", self.provider.as_str(), "` (anthropic | ollama | scripted)")))
        }
    }
}

/// `[agent]`: mirrors [`AgentConfig`].
#[derive(Debug)]
pub struct AgentSection {
    /// App-specific system-prompt addition.
    pub app_instructions: Option<String>,
    /// Model-fixable validation retry budget.
    pub max_validation_retries: Option<u8>,
    /// Surface a context summary to the model.
    pub describe_context: Option<bool>,
}

impl AgentSection {
    /// The effective agent configuration.
    pub fn resolve(&self) -> (c: AgentConfig)
        ensures
            opt_str_view(c.app_instructions) == opt_str_view(self.app_instructions),
            c.max_validation_retries == match self.max_validation_retries {
                Some(n) => n,
                None => 2u8,
            },
            c.describe_context == match self.describe_context {
                Some(b) => b,
                None => true,
            },
    {
        let defaults = AgentConfig::default();
        AgentConfig {
            app_instructions: copy_opt_string(&self.app_instructions),
            max_validation_retries: match self.max_validation_retries {
                Some(n) => n,
                None => defaults.max_validation_retries,
            },
            describe_context: match self.describe_context {
                Some(b) => b,
                None => defaults.describe_context,
            },
        }
    }
}

/// `[telemetry]`: OTLP push export.
#[derive(Debug)]
pub struct TelemetrySection {
    /// OTLP http endpoint; absent falls back to the standard env var.
    pub otlp_endpoint: Option<String>,
    /// `service.name` resource attribute.
    pub service_name: Option<String>,
    /// Export interval in milliseconds (default 10 000).
    pub export_interval_ms: Option<u64>,
}

/// The effective telemetry endpoint: the configured one, else the value of
/// the standard `OTEL_EXPORTER_OTLP_ENDPOINT` env var; neither is off.
pub fn resolve_endpoint(configured: Option<&str>, env: Option<&str>) -> (r: Option<String>)
    ensures
        match configured {
            Some(c) => r matches Some(x) && x@ == c@,
            None => match env {
                Some(e) => r matches Some(x) && x@ == e@,
                None => r is None,
            },
        },
{
    match configured {
        Some(c) => Some(c.to_owned()),
        None => match env {
            Some(e) => Some(e.to_owned()),
            None => None,
        },
    }
}

impl TelemetrySection {
    /// The effective endpoint, given the standard env var's value.
    pub fn endpoint(&self, env: Option<&str>) -> (r: Option<String>)
        ensures
            match self.otlp_endpoint {
                Some(c) => r matches Some(x) && x@ == c@,
                None => match env {
                    Some(e) => r matches Some(x) && x@ == e@,
                    None => r is None,
                },
            },
    {
        match &self.otlp_endpoint {
            Some(c) => resolve_endpoint(Some(c.as_str()), env),
            None => resolve_endpoint(None, env),
        }
    }

    /// The export interval (default 10 000 ms).
    pub fn export_interval(&self) -> (ms: u64)
        ensures
            ms == or_default(self.export_interval_ms, 10000),
    {
        match self.export_interval_ms {
            Some(v) => v,
            None => 10000,
        }
    }
}


/// One `[actions."<id>"]` entry, or the `"*"` wildcard template (where
/// `{action}` stands for the action ID).
#[derive(Debug)]
pub struct ActionSection {
    /// `"METHOD /path"` of the execute endpoint.
    pub execute: Option<String>,
    /// `"METHOD /path"` of the dry_run endpoint.
    pub dry_run: Option<String>,
    /// `"METHOD /path"` of the build_slots endpoint: the host authors the
    /// slots at run time, so the required-slot coverage check is skipped.
    pub build_slots: Option<String>,
    /// Declarative slot table.
    pub slots: Option<DeclarativeSlots>,
}

/// The whole service configuration.
#[derive(Debug)]
pub struct Config {
    pub server: ServerSection,
    pub upstream: UpstreamSection,
    pub auth: AuthSection,
    pub authz: AuthzSection,
    pub llm: LlmSection,
    pub agent: AgentSection,
    /// `[actions]`, by action ID (or `"*"`).
    pub actions: KeyMap<ActionSection>,
    pub telemetry: TelemetrySection,
}

/// Routes and slots resolved for one action.
#[derive(Debug)]
pub struct ResolvedAction {
    /// Execute route.
    pub execute: Route,
    /// Dry-run route (present iff configured; required for mutating actions).
    pub dry_run: Option<Route>,
    /// Declarative slots, if configured.
    pub slots: Option<DeclarativeSlots>,
    /// Build-slots route, if configured.
    pub build_slots: Option<Route>,
}

/// Model of a [`ResolvedAction`]: routes as (method, path).
pub struct ResolvedActionV {
    pub execute: (Seq<char>, Seq<char>),
    pub dry_run: Option<(Seq<char>, Seq<char>)>,
    pub build_slots: Option<(Seq<char>, Seq<char>)>,
    pub slots: Option<Seq<(Seq<char>, ScriptV)>>,
}

pub open spec fn route_view(r: Route) -> (Seq<char>, Seq<char>) {
    (r.method@, r.path@)
}

pub open spec fn resolved_view(a: ResolvedAction) -> ResolvedActionV {
    ResolvedActionV {
        execute: route_view(a.execute),
        dry_run: match a.dry_run {
            Some(d) => Some(route_view(d)),
            None => None,
        },
        slots: match a.slots {
            Some(t) => Some(t.table()),
            None => None,
        },
        build_slots: match a.build_slots {
            Some(b) => Some(route_view(b)),
            None => None,
        },
    }
}

/// Everything the service needs, validated.
#[derive(Debug)]
pub struct Resolved {
    /// Listen address.
    pub bind: String,
    /// Stream mount path.
    pub path: String,
    /// Webhook client configuration.
    pub client: HostClientConfig,
    /// Verify route.
    pub verify: Route,
    /// Header forward-allowlist.
    pub forward_headers: Vec<String>,
    /// Authorize route.
    pub authorize: Route,
    /// Agent knobs.
    pub agent: AgentConfig,
    /// Per-action routes and slots, by action ID.
    pub actions: KeyMap<ResolvedAction>,
}

/// Which of an action's routes.
#[derive(Clone, Copy, PartialEq, Eq, Structural)]
pub enum RouteKind {
    Execute,
    DryRun,
    BuildSlots,
}

pub open spec fn section_route(a: ActionSection, kind: RouteKind) -> Option<Seq<char>> {
    match kind {
        RouteKind::Execute => opt_str_view(a.execute),
        RouteKind::DryRun => opt_str_view(a.dry_run),
        RouteKind::BuildSlots => opt_str_view(a.build_slots),
    }
}

/// An action's route: its own entry's, else the wildcard's with
/// `{action}` replaced by the action ID.
pub open spec fn pick_route(entry: Option<ActionSection>, wildcard: Option<ActionSection>, id: Seq<char>, dry: RouteKind) -> Option<Seq<char>> {
    let own = match entry {
        Some(e) => section_route(e, dry),
        None => None,
    };
    match own {
        Some(r) => Some(r),
        None => match wildcard {
            Some(w) => match section_route(w, dry) {
                Some(t) => Some(replace_all(t, "{action}"@, id)),
                None => None,
            },
            None => None,
        },
    }
}

/// The slot table of an action's own entry (the wildcard has none that
/// counts).
pub open spec fn entry_slots(entry: Option<ActionSection>) -> Option<Seq<(Seq<char>, ScriptV)>> {
    match entry {
        Some(e) => match e.slots {
            Some(t) => Some(t.table()),
            None => None,
        },
        None => None,
    }
}

/// The first block definition with the given type.
pub open spec fn first_block(blocks: Seq<BlockDefV>, t: Seq<char>) -> Option<BlockDefV> {
    if exists|i: int| 0 <= i < blocks.len() && blocks[i].block_type == t && (forall|j: int| 0 <= j < i ==> blocks[j].block_type != t) {
        Some(blocks[choose|i: int| 0 <= i < blocks.len() && blocks[i].block_type == t && (forall|j: int| 0 <= j < i ==> blocks[j].block_type != t)])
    } else {
        None
    }
}

/// The first required slot (in schema order) the table does not fill.
pub open spec fn first_uncovered(slots: Seq<SlotSpecV>, table: Option<Seq<(Seq<char>, ScriptV)>>) -> Option<Seq<char>>
    decreases slots.len(),
{
    if slots.len() == 0 {
        None
    } else if slots[0].required && !(match table {
        Some(t) => key_index(t, slots[0].name) is Some,
        None => false,
    }) {
        Some(slots[0].name)
    } else {
        first_uncovered(slots.drop_first(), table)
    }
}

pub open spec fn no_execute_text(id: Seq<char>) -> Seq<char> {
    "action `"@ + id + "` has no execute route (add [actions.\""@ + id + "\"] or an [actions.\"*\"] wildcard)"@
}

pub open spec fn no_dry_run_text(id: Seq<char>) -> Seq<char> {
    "action `"@ + id + "` mutates but has no dry_run route"@
}

pub open spec fn uncovered_text(id: Seq<char>, block_type: Seq<char>, slot: Seq<char>) -> Seq<char> {
    "action `"@ + id + "`: block `"@ + block_type + "` requires slot `"@ + slot + "` — add [actions.\""@ + id
        + "\".slots]"@
}

pub open spec fn unmatched_text(id: Seq<char>) -> Seq<char> {
    "[actions.\""@ + id + "\"] matches no action in the registry"@
}

/// One action's resolution: an execute route, a dry-run route when it
/// mutates, every required slot of its block covered, and routes that
/// parse.
pub open spec fn resolve_action(
    d: ActionDefV,
    blocks: Seq<BlockDefV>,
    entry: Option<ActionSection>,
    wildcard: Option<ActionSection>,
) -> Result<ResolvedActionV, ConfigErrV> {
    match pick_route(entry, wildcard, d.id, RouteKind::Execute) {
        None => Err(ConfigErrV::Coverage(no_execute_text(d.id))),
        Some(ex) => {
            let dr = pick_route(entry, wildcard, d.id, RouteKind::DryRun);
            let br = pick_route(entry, wildcard, d.id, RouteKind::BuildSlots);
            let slots = entry_slots(entry);
            let uncovered = if br is Some {
                None
            } else {
                match first_block(blocks, d.block_type) {
                    Some(b) => first_uncovered(b.slots, slots),
                    None => None,
                }
            };
            if d.mutates && dr is None {
                Err(ConfigErrV::Coverage(no_dry_run_text(d.id)))
            } else if uncovered is Some {
                Err(ConfigErrV::Coverage(uncovered_text(d.id, d.block_type, uncovered->0)))
            } else {
                match route_of(ex) {
                    None => Err(ConfigErrV::Route(ex)),
                    Some(exr) => match optional_route(dr) {
                        Err(bad) => Err(ConfigErrV::Route(bad)),
                        Ok(drr) => match optional_route(br) {
                            Err(bad) => Err(ConfigErrV::Route(bad)),
                            Ok(brr) => Ok(ResolvedActionV { execute: exr, dry_run: drr, slots, build_slots: brr }),
                        },
                    },
                }
            }
        },
    }
}

/// An optional route string parsed: absent stays absent, a bad one is
/// the error.
pub open spec fn optional_route(r: Option<Seq<char>>) -> Result<Option<(Seq<char>, Seq<char>)>, Seq<char>> {
    match r {
        None => Ok(None),
        Some(t) => match route_of(t) {
            None => Err(t),
            Some(x) => Ok(Some(x)),
        },
    }
}

/// Resolves the actions in order into a map by ID; the first failure wins.
pub open spec fn resolve_actions(
    defs: Seq<ActionDefV>,
    blocks: Seq<BlockDefV>,
    table: Seq<(Seq<char>, ActionSection)>,
    acc: Seq<(Seq<char>, ResolvedActionV)>,
) -> Result<Seq<(Seq<char>, ResolvedActionV)>, ConfigErrV>
    decreases defs.len(),
{
    if defs.len() == 0 {
        Ok(acc)
    } else {
        match resolve_action(defs[0], blocks, key_get(table, defs[0].id), key_get(table, "*"@)) {
            Err(e) => Err(e),
            Ok(ra) => resolve_actions(defs.drop_first(), blocks, table, key_insert(acc, defs[0].id, ra)),
        }
    }
}

/// The first configured entry (in key order) other than `"*"` that names
/// no resolved action.
pub open spec fn unmatched_entry(table: Seq<(Seq<char>, ActionSection)>, acts: Seq<(Seq<char>, ResolvedActionV)>) -> Option<Seq<char>> {
    if exists|i: int| 0 <= i < table.len() && table[i].0 != "*"@ && key_index(acts, table[i].0) is None
        && (forall|j: int| 0 <= j < i ==> !(table[j].0 != "*"@ && key_index(acts, table[j].0) is None)) {
        Some(table[choose|i: int| 0 <= i < table.len() && table[i].0 != "*"@ && key_index(acts, table[i].0) is None
            && (forall|j: int| 0 <= j < i ==> !(table[j].0 != "*"@ && key_index(acts, table[j].0) is None))].0)
    } else {
        None
    }
}

fn section_route_of(a: &ActionSection, dry: RouteKind) -> (r: Option<&String>)
    ensures
        match r {
            Some(s) => section_route(*a, dry) == Some(s@),
            None => section_route(*a, dry) is None,
        },
{
    let r = match dry {
        RouteKind::Execute => &a.execute,
        RouteKind::DryRun => &a.dry_run,
        RouteKind::BuildSlots => &a.build_slots,
    };
    match r {
        Some(s) => Some(s),
        None => None,
    }
}

fn pick_route_exec(entry: Option<&ActionSection>, wildcard: Option<&ActionSection>, id: &str, dry: RouteKind) -> (r: Option<String>)
    ensures
        opt_str_view(r) == pick_route(
            match entry {
                Some(e) => Some(*e),
                None => None,
            },
            match wildcard {
                Some(w) => Some(*w),
                None => None,
            },
            id@,
            dry,
        ),
{
    proof {
        reveal_strlit("{action}");
    }
    let own = match entry {
        Some(e) => section_route_of(e, dry),
        None => None,
    };
    match own {
        Some(r) => Some(r.clone()),
        None => match wildcard {
            Some(w) => match section_route_of(w, dry) {
                Some(t) => Some(replace(t.as_str(), "{action}", id)),
                None => None,
            },
            None => None,
        },
    }
}

fn find_first_block<'a>(blocks: &'a Vec<BlockDef>, t: &str) -> (r: Option<&'a BlockDef>)
    ensures
        match first_block(blocks_view(blocks@), t@) {
            Some(b) => r matches Some(x) && x@ == b,
            None => r is None,
        },
{
    let ghost bv = blocks_view(blocks@);
    let mut i: usize = 0;
    while i < blocks.len()
        invariant
            i <= blocks.len(),
            bv == blocks_view(blocks@),
            forall|j: int| 0 <= j < i ==> bv[j].block_type != t@,
        decreases blocks.len() - i,
    {
        assert(bv[i as int] == blocks[i as int]@);
        if str_eq(blocks[i].block_type.as_str(), t) {
            proof {
                let w = choose|w: int| 0 <= w < bv.len() && bv[w].block_type == t@ && (forall|j: int| 0 <= j < w ==> bv[j].block_type != t@);
                assert(0 <= i < bv.len() && bv[i as int].block_type == t@ && (forall|j: int| 0 <= j < i ==> bv[j].block_type != t@));
                if w < i {
                    assert(bv[w].block_type != t@);
                }
                if i < w {
                    assert(bv[i as int].block_type != t@);
                }
            }
            return Some(&blocks[i]);
        }
        i = i + 1;
    }
    None
}

fn find_uncovered<'a>(block: &'a BlockDef, table: Option<&DeclarativeSlots>) -> (r: Option<&'a String>)
    ensures
        match first_uncovered(
            block@.slots,
            match table {
                Some(t) => Some(t.table()),
                None => None,
            },
        ) {
            Some(n) => r matches Some(x) && x@ == n,
            None => r is None,
        },
{
    let ghost tv: Option<Seq<(Seq<char>, ScriptV)>> = match table {
        Some(t) => Some(t.table()),
        None => None,
    };
    let ghost ss = block@.slots;
    let mut i: usize = 0;
    assert(ss.skip(0) =~= ss);
    while i < block.slots.len()
        invariant
            i <= block.slots.len() == ss.len(),
            ss == block@.slots,
            tv == (match table {
                Some(t) => Some(t.table()),
                None => None::<Seq<(Seq<char>, ScriptV)>>,
            }),
            first_uncovered(ss, tv) == first_uncovered(ss.skip(i as int), tv),
        decreases block.slots.len() - i,
    {
        let slot = &block.slots[i];
        assert(ss[i as int] == slot@);
        assert(ss.skip(i as int)[0] == ss[i as int]);
        assert(ss.skip(i as int).drop_first() =~= ss.skip(i + 1));
        let covered = match table {
            Some(t) => t.contains_key(slot.name.as_str()),
            None => false,
        };
        if slot.required && !covered {
            return Some(&slot.name);
        }
        i = i + 1;
    }
    assert(ss.skip(i as int) =~= Seq::<SlotSpecV>::empty());
    None
}

fn copy_slots(t: &Option<DeclarativeSlots>) -> (r: Option<DeclarativeSlots>)
    ensures
        match *t {
            Some(x) => r matches Some(y) && y.table() == x.table(),
            None => r is None,
        },
{
    match t {
        Some(x) => Some(x.copy()),
        None => None,
    }
}

fn resolve_action_exec(def: &ActionDef, blocks: &Vec<BlockDef>, entry: Option<&ActionSection>, wildcard: Option<&ActionSection>) -> (r: Result<ResolvedAction, ConfigError>)
    ensures
        match resolve_action(
            def@,
            blocks_view(blocks@),
            match entry {
                Some(e) => Some(*e),
                None => None,
            },
            match wildcard {
                Some(w) => Some(*w),
                None => None,
            },
        ) {
            Ok(v) => r matches Ok(a) && resolved_view(a) == v,
            Err(e) => r matches Err(x) && x@ == e,
        },
{
    let execute = match pick_route_exec(entry, wildcard, def.id.as_str(), RouteKind::Execute) {
        Some(e) => e,
        None => {
            let mut m = concat3("action `", def.id.as_str(), "` has no execute route (add [actions.\"");
            push_str(&mut m, def.id.as_str());
            push_str(&mut m, "\"] or an [actions.\"*\"] wildcard)");
            return Err(ConfigError::Coverage(m));
        },
    };
    let dry_run = pick_route_exec(entry, wildcard, def.id.as_str(), RouteKind::DryRun);
    let build_slots = pick_route_exec(entry, wildcard, def.id.as_str(), RouteKind::BuildSlots);
    if def.mutates && dry_run.is_none() {
        return Err(ConfigError::Coverage(concat3("action `", def.id.as_str(), "` mutates but has no dry_run route")));
    }
    let table: Option<&DeclarativeSlots> = match entry {
        Some(e) => match &e.slots {
            Some(t) => Some(t),
            None => None,
        },
        None => None,
    };
    match if build_slots.is_some() { None } else { find_first_block(blocks, def.block_type.as_str()) } {
        Some(b) => match find_uncovered(b, table) {
            Some(name) => {
                let mut m = concat3("action `", def.id.as_str(), "`: block `");
                push_str(&mut m, def.block_type.as_str());
                push_str(&mut m, "` requires slot `");
                push_str(&mut m, name.as_str());
                push_str(&mut m, "` — add [actions.\"");
                push_str(&mut m, def.id.as_str());
                push_str(&mut m, "\".slots]");
                return Err(ConfigError::Coverage(m));
            },
            None => {},
        },
        None => {},
    }
    let execute = match Route::parse(execute.as_str()) {
        Ok(r) => r,
        Err(e) => return Err(ConfigError::Route(e)),
    };
    let dry_run = match dry_run {
        Some(d) => match Route::parse(d.as_str()) {
            Ok(r) => Some(r),
            Err(e) => return Err(ConfigError::Route(e)),
        },
        None => None,
    };
    let build_slots = match build_slots {
        Some(b) => match Route::parse(b.as_str()) {
            Ok(r) => Some(r),
            Err(e) => return Err(ConfigError::Route(e)),
        },
        None => None,
    };
    let slots = match entry {
        Some(e) => copy_slots(&e.slots),
        None => None,
    };
    Ok(ResolvedAction { execute, dry_run, slots, build_slots })
}


fn unmatched_key<'a>(table: &'a KeyMap<ActionSection>, actions: &KeyMap<ResolvedAction>) -> (r: Option<&'a String>)
    ensures
        match unmatched_entry(table.pairs(), resolved_pairs(*actions)) {
            Some(id) => r matches Some(x) && x@ == id,
            None => r is None,
        },
{
    proof {
        reveal_strlit("*");
    }
    let ghost tp = table.pairs();
    let ghost acts = resolved_pairs(*actions);
    let n = table.len();
    let mut j: usize = 0;
    while j < n
        invariant
            j <= n == tp.len(),
            tp == table.pairs(),
            acts == resolved_pairs(*actions),
            forall|k: int| 0 <= k < j ==> !(tp[k].0 != "*"@ && key_index(acts, tp[k].0) is None),
        decreases n - j,
    {
        let id = table.key_at(j);
        proof {
            crate::strmap::lemma_map_entries_index(actions.pairs(), |a: ResolvedAction| resolved_view(a), id@);
        }
        if !str_eq(id.as_str(), "*") && !actions.contains_key(id.as_str()) {
            proof {
                let w = choose|w: int| 0 <= w < tp.len() && tp[w].0 != "*"@ && key_index(acts, tp[w].0) is None
                    && (forall|k: int| 0 <= k < w ==> !(tp[k].0 != "*"@ && key_index(acts, tp[k].0) is None));
                assert(0 <= j < tp.len() && tp[j as int].0 != "*"@ && key_index(acts, tp[j as int].0) is None
                    && (forall|k: int| 0 <= k < j ==> !(tp[k].0 != "*"@ && key_index(acts, tp[k].0) is None)));
                if w < j {
                    assert(!(tp[w].0 != "*"@ && key_index(acts, tp[w].0) is None));
                }
                if j < w {
                    assert(!(tp[j as int].0 != "*"@ && key_index(acts, tp[j as int].0) is None));
                }
            }
            return Some(id);
        }
        j = j + 1;
    }
    proof {
        if exists|w: int| 0 <= w < tp.len() && tp[w].0 != "*"@ && key_index(acts, tp[w].0) is None
            && (forall|k: int| 0 <= k < w ==> !(tp[k].0 != "*"@ && key_index(acts, tp[k].0) is None)) {
            let w = choose|w: int| 0 <= w < tp.len() && tp[w].0 != "*"@ && key_index(acts, tp[w].0) is None
                && (forall|k: int| 0 <= k < w ==> !(tp[k].0 != "*"@ && key_index(acts, tp[k].0) is None));
            assert(!(tp[w].0 != "*"@ && key_index(acts, tp[w].0) is None));
        }
    }
    None
}

pub open spec fn resolved_pairs(m: KeyMap<ResolvedAction>) -> Seq<(Seq<char>, ResolvedActionV)> {
    map_entries(m.pairs(), |a: ResolvedAction| resolved_view(a))
}

/// The outcome of resolving a configuration against a registry document,
/// given whether the secret env var is set: the secret, the actions, the
/// leftover entries, then the verify and authorize routes.
pub open spec fn config_outcome(c: Config, schema: crate::schema::SchemaV, secret_present: bool) -> Result<Seq<(Seq<char>, ResolvedActionV)>, ConfigErrV> {
    if !secret_present && !c.upstream.danger_allow_missing_secret {
        Err(ConfigErrV::MissingEnv(c.upstream.secret_env@, "upstream.secret_env"@))
    } else {
        match resolve_actions(schema.actions, schema.blocks, c.actions.pairs(), Seq::empty()) {
            Err(e) => Err(e),
            Ok(acts) => match unmatched_entry(c.actions.pairs(), acts) {
                Some(id) => Err(ConfigErrV::Coverage(unmatched_text(id))),
                None => if route_of(c.auth.verify@) is None {
                    Err(ConfigErrV::Route(c.auth.verify@))
                } else if route_of(c.authz.endpoint@) is None {
                    Err(ConfigErrV::Route(c.authz.endpoint@))
                } else {
                    Ok(acts)
                },
            },
        }
    }
}

impl Config {
    /// Validates against the registry and resolves routes and slot
    /// coverage, given the value of the secret env var
    /// (`upstream.secret_env`) if it is set; every failure names its cause.
    pub fn resolve(&self, schema: &RegistrySchema, secret: Option<String>) -> (r: Result<Resolved, ConfigError>)
        ensures
            match config_outcome(*self, schema@, secret is Some) {
                Err(e) => r matches Err(x) && x@ == e,
                Ok(acts) => r matches Ok(res) && resolved_pairs(res.actions) == acts
                    && res.bind@ == self.server.bind@ && res.path@ == self.server.path@
                    && res.client.base_url@ == self.upstream.base_url@
                    && opt_str_view(res.client.secret) == opt_str_view(secret)
                    && res.client.signing_key is None
                    && res.client.timeouts.verify_session_ms == or_default(self.upstream.timeouts.verify_ms, 5000)
                    && res.client.timeouts.authorize_ms == or_default(self.upstream.timeouts.authorize_ms, 5000)
                    && res.client.timeouts.dry_run_ms == or_default(self.upstream.timeouts.dry_run_ms, 10000)
                    && res.client.timeouts.execute_ms == or_default(self.upstream.timeouts.execute_ms, 30000)
                    && res.client.retry.execute_attempts == (match self.upstream.retry.execute_attempts {
                        Some(n) => n,
                        None => 3u32,
                    })
                    && res.client.retry.backoff_ms == or_default(self.upstream.retry.backoff_ms, 200)
                    && res.client.danger_allow_remote_http == self.upstream.danger_allow_remote_http
                    && res.client.danger_allow_missing_secret == self.upstream.danger_allow_missing_secret
                    && Some(route_view(res.verify)) == route_of(self.auth.verify@)
                    && strs_view(res.forward_headers@) == strs_view(self.auth.forward_headers@)
                    && Some(route_view(res.authorize)) == route_of(self.authz.endpoint@)
                    && opt_str_view(res.agent.app_instructions) == opt_str_view(self.agent.app_instructions)
                    && res.agent.max_validation_retries == (match self.agent.max_validation_retries {
                        Some(n) => n,
                        None => 2u8,
                    })
                    && res.agent.describe_context == (match self.agent.describe_context {
                        Some(b) => b,
                        None => true,
                    }),
            },
    {
        if secret.is_none() && !self.upstream.danger_allow_missing_secret {
            return Err(ConfigError::MissingEnv(self.upstream.secret_env.clone(), "upstream.secret_env".to_owned()));
        }
        proof {
            reveal_strlit("*");
        }
        let wildcard = self.actions.get("*");
        let ghost table = self.actions.pairs();
        let ghost defs = schema@.actions;
        let ghost blocks = schema@.blocks;
        let mut actions: KeyMap<ResolvedAction> = KeyMap::new();
        let mut i: usize = 0;
        assert(defs.skip(0) =~= defs);
        assert(resolved_pairs(actions) =~= Seq::<(Seq<char>, ResolvedActionV)>::empty());
        while i < schema.actions.len()
            invariant
                i <= schema.actions.len() == defs.len(),
                defs == schema@.actions,
                blocks == schema@.blocks,
                table == self.actions.pairs(),
                secret is Some || self.upstream.danger_allow_missing_secret,
                match key_get(table, "*"@) {
                    Some(w) => wildcard matches Some(x) && *x == w,
                    None => wildcard is None,
                },
                resolve_actions(defs, blocks, table, Seq::empty()) == resolve_actions(
                    defs.skip(i as int),
                    blocks,
                    table,
                    resolved_pairs(actions),
                ),
            decreases schema.actions.len() - i,
        {
            let def = &schema.actions[i];
            proof {
                assert(defs[i as int] == def@);
                assert(defs.skip(i as int)[0] == defs[i as int]);
                assert(defs.skip(i as int).drop_first() =~= defs.skip(i + 1));
            }
            let entry = self.actions.get(def.id.as_str());
            match resolve_action_exec(def, &schema.blocks, entry, wildcard) {
                Ok(ra) => {
                    let ghost before = actions.pairs();
                    let ghost rv = resolved_view(ra);
                    actions.insert(def.id.clone(), ra);
                    proof {
                        lemma_key_insert_map(before, def.id@, ra, |a: ResolvedAction| resolved_view(a));
                    }
                },
                Err(e) => return Err(e),
            }
            i = i + 1;
        }
        assert(defs.skip(i as int) =~= Seq::<ActionDefV>::empty());
        match unmatched_key(&self.actions, &actions) {
            Some(id) => {
                return Err(ConfigError::Coverage(concat3("[actions.\"", id.as_str(), "\"] matches no action in the registry")));
            },
            None => {},
        }
        let verify = match Route::parse(self.auth.verify.as_str()) {
            Ok(r) => r,
            Err(e) => return Err(ConfigError::Route(e)),
        };
        let authorize = match Route::parse(self.authz.endpoint.as_str()) {
            Ok(r) => r,
            Err(e) => return Err(ConfigError::Route(e)),
        };
        Ok(Resolved {
            bind: self.server.bind.clone(),
            path: self.server.path.clone(),
            client: HostClientConfig {
                base_url: self.upstream.base_url.clone(),
                secret,
                signing_key: None,
                timeouts: self.upstream.timeouts.resolve(),
                retry: self.upstream.retry.resolve(),
                danger_allow_remote_http: self.upstream.danger_allow_remote_http,
                danger_allow_missing_secret: self.upstream.danger_allow_missing_secret,
            },
            verify,
            forward_headers: copy_strings(&self.auth.forward_headers),
            authorize,
            agent: self.agent.resolve(),
            actions,
        })
    }
}

} // verus!
