//! Runtime configuration.
//!
//! [`Config`] comes from a TOML file and is merged with a small set of
//! environment overrides. It is validated eagerly so that a typo'd memory
//! budget fails at startup rather than at the first tenant activation.

use vstd::prelude::*;
use vstd::slice::slice_subrange;
use vstd::string::*;

use crate::error::{Error, ErrorView};
use crate::registry::oci::parse_digest;
use crate::runtime::TenantId;
use crate::table::Table;
use crate::text::{
    chars, copied_option, count_digits, digits_value, lowercase, parse_unsigned, same, text, trimmed,
};
use crate::time::Duration;
use crate::wasi::sandbox::{LimitsView, SandboxLimits};

verus! {

/// Top-level runtime configuration.
#[derive(Debug)]
pub struct Config {
    /// Address the HTTP ingress binds to, as `ip:port`. Overridable via
    /// `EMBER_BIND`.
    pub bind: String,
    /// Tenants provisioned at startup.
    pub tenants: Vec<TenantConfig>,
    /// Global engine configuration.
    pub engine: EngineConfig,
    /// OCI registry configuration.
    pub registry: RegistryConfig,
    /// HTTP ingress configuration.
    pub http: HttpConfig,
}

/// One tenant: a name, the source of its component, and its sandbox limits.
#[derive(Debug)]
pub struct TenantConfig {
    /// Tenant id; must match [`crate::runtime::TenantId`] grammar.
    pub name: String,
    /// Where the tenant's component artifact comes from.
    pub component: ComponentSource,
    /// Per-tenant resource ceilings.
    pub limits: SandboxLimits,
    /// Per-tenant configuration exposed to the guest via `ember:runtime/tenant`.
    pub config: Table<String>,
}

/// Where a tenant's component artifact is resolved from.
#[derive(Debug)]
pub enum ComponentSource {
    /// Pull from an OCI registry; optionally pinned to a content digest.
    Oci {
        /// `registry/repo:tag` or `registry/repo@sha256:...`.
        reference: String,
        /// Optional `sha256:<hex>` pin; the pin wins over `reference`'s tag.
        pin: Option<String>,
    },
    /// Load from a local file (development / offline deployments).
    File {
        /// Path to a `.wasm` component artifact.
        path: String,
    },
}

impl Clone for ComponentSource {
    fn clone(&self) -> (r: ComponentSource)
        ensures
            r == *self,
    {
        match self {
            ComponentSource::Oci { reference, pin } => ComponentSource::Oci {
                reference: reference.clone(),
                pin: copied_option(pin),
            },
            ComponentSource::File { path } => ComponentSource::File { path: path.clone() },
        }
    }
}

impl Clone for TenantConfig {
    fn clone(&self) -> (r: TenantConfig)
        ensures
            r@ == self@,
    {
        TenantConfig {
            name: self.name.clone(),
            component: self.component.clone(),
            limits: self.limits.clone(),
            config: self.config.clone(),
        }
    }
}

/// What a [`ComponentSource`] says.
pub enum SourceView {
    Oci { reference: Seq<char>, pin: Option<Seq<char>> },
    File { path: Seq<char> },
}

impl View for ComponentSource {
    type V = SourceView;

    open spec fn view(&self) -> SourceView {
        match self {
            ComponentSource::Oci { reference, pin } => SourceView::Oci {
                reference: reference@,
                pin: crate::text::opt_view(*pin),
            },
            ComponentSource::File { path } => SourceView::File { path: path@ },
        }
    }
}

/// What a [`TenantConfig`] says.
pub struct TenantConfigView {
    pub name: Seq<char>,
    pub component: SourceView,
    pub limits: LimitsView,
    pub config: Map<Seq<char>, String>,
}

impl View for TenantConfig {
    type V = TenantConfigView;

    open spec fn view(&self) -> TenantConfigView {
        TenantConfigView {
            name: self.name@,
            component: self.component@,
            limits: self.limits@,
            config: self.config@,
        }
    }
}

/// What each of several tenant configurations says.
pub open spec fn tenant_views(v: Seq<TenantConfig>) -> Seq<TenantConfigView> {
    v.map_values(|t: TenantConfig| t@)
}

/// Tenants with their limits clamped into an engine budget.
pub open spec fn clamped_tenants(
    v: Seq<TenantConfigView>,
    memory: usize,
    instances: usize,
) -> Seq<TenantConfigView> {
    v.map_values(
        |t: TenantConfigView|
            TenantConfigView {
                limits: crate::wasi::sandbox::clamped(t.limits, memory, instances),
                ..t
            },
    )
}

/// Global engine budget shared by the pooled allocator.
#[derive(Debug, Clone, Copy, PartialEq, Eq, Structural)]
pub struct EngineConfig {
    /// Total guest memory across all tenants.
    pub max_memory_bytes: usize,
    /// Maximum number of concurrently live instances.
    pub max_instances: usize,
    /// Compilation threads.
    pub threads: usize,
    /// Interval at which the background task bumps the epoch counter.
    pub epoch_interval_ms: u64,
}

/// The engine budget where none is configured.
pub open spec fn default_engine() -> EngineConfig {
    EngineConfig {
        max_memory_bytes: 1073741824,
        max_instances: 64,
        threads: 4,
        epoch_interval_ms: 100,
    }
}

impl Default for EngineConfig {
    fn default() -> (e: EngineConfig)
        ensures
            e == default_engine(),
    {
        EngineConfig {
            max_memory_bytes: 1024 * 1024 * 1024,
            max_instances: 64,
            threads: 4,
            epoch_interval_ms: 100,
        }
    }
}

impl EngineConfig {
    /// Clamp every tenant's limits into the engine budget.
    pub fn clamp_tenants(&self, tenants: &mut Vec<TenantConfig>)
        ensures
            tenant_views(final(tenants)@) == clamped_tenants(
                tenant_views(old(tenants)@),
                self.max_memory_bytes,
                self.max_instances,
            ),
    {
        let ghost first = tenant_views(tenants@);
        let ghost target = clamped_tenants(first, self.max_memory_bytes, self.max_instances);
        let mut i: usize = 0;
        while i < tenants.len()
            invariant
                i <= tenants@.len(),
                tenants@.len() == first.len(),
                target == clamped_tenants(first, self.max_memory_bytes, self.max_instances),
                forall|j: int| 0 <= j < i ==> (#[trigger] tenants@[j])@ == target[j],
                forall|j: int| i <= j < tenants@.len() ==> (#[trigger] tenants@[j])@ == first[j],
            decreases tenants@.len() - i,
        {
            let ghost before = tenants@;
            tenants[i].limits.clamp_to(self.max_memory_bytes, self.max_instances);
            proof {
                assert(before[i as int]@ == first[i as int]);
                assert(tenants@[i as int]@ == target[i as int]);
            }
            i = i + 1;
        }
        proof {
            assert(tenant_views(tenants@) =~= target);
        }
    }
}

/// OCI registry client configuration.
#[derive(Debug)]
pub struct RegistryConfig {
    /// Default registry endpoint, e.g. `ghcr.io` or `registry.example.com`.
    pub endpoint: String,
    /// Allow plain-HTTP pulls (private mirrors only).
    pub insecure: bool,
    /// How often the hot-reload loop re-resolves tags.
    pub pull_interval_secs: u64,
    /// Local content-addressable cache directory.
    pub cache_dir: String,
}

/// What a [`RegistryConfig`] says.
pub struct RegistryView {
    pub endpoint: Seq<char>,
    pub insecure: bool,
    pub pull_interval_secs: u64,
    pub cache_dir: Seq<char>,
}

impl View for RegistryConfig {
    type V = RegistryView;

    open spec fn view(&self) -> RegistryView {
        RegistryView {
            endpoint: self.endpoint@,
            insecure: self.insecure,
            pull_interval_secs: self.pull_interval_secs,
            cache_dir: self.cache_dir@,
        }
    }
}

/// The registry settings where none are configured.
pub open spec fn default_registry() -> RegistryView {
    RegistryView {
        endpoint: "ghcr.io"@,
        insecure: false,
        pull_interval_secs: 30,
        cache_dir: "registry-cache"@,
    }
}

impl Clone for RegistryConfig {
    fn clone(&self) -> (r: RegistryConfig)
        ensures
            r == *self,
    {
        RegistryConfig {
            endpoint: self.endpoint.clone(),
            insecure: self.insecure,
            pull_interval_secs: self.pull_interval_secs,
            cache_dir: self.cache_dir.clone(),
        }
    }
}

impl Default for RegistryConfig {
    fn default() -> (r: RegistryConfig)
        ensures
            r@ == default_registry(),
    {
        RegistryConfig {
            endpoint: "ghcr.io".to_owned(),
            insecure: false,
            pull_interval_secs: 30,
            cache_dir: "registry-cache".to_owned(),
        }
    }
}

/// `secs`, but at least one.
pub open spec fn at_least_one(secs: u64) -> u64 {
    if secs == 0 {
        1
    } else {
        secs
    }
}

impl RegistryConfig {
    /// Poll interval for the hot-reload loop: at least a second.
    pub fn pull_interval(&self) -> (d: Duration)
        ensures
            d.nanos() == at_least_one(self.pull_interval_secs) * 1_000_000_000,
    {
        if self.pull_interval_secs == 0 {
            Duration::from_secs(1)
        } else {
            Duration::from_secs(self.pull_interval_secs)
        }
    }
}

/// HTTP ingress tuning.
#[derive(Debug)]
pub struct HttpConfig {
    /// Per-request wall-clock budget.
    pub timeout_secs: u64,
    /// In-flight request ceiling.
    pub concurrency: usize,
    /// Maximum request body size, enforced before dispatch.
    pub max_body_bytes: usize,
    /// Header name used to surface the generated request id.
    pub request_id_header: String,
}

/// What an [`HttpConfig`] says.
pub struct HttpView {
    pub timeout_secs: u64,
    pub concurrency: usize,
    pub max_body_bytes: usize,
    pub request_id_header: Seq<char>,
}

impl View for HttpConfig {
    type V = HttpView;

    open spec fn view(&self) -> HttpView {
        HttpView {
            timeout_secs: self.timeout_secs,
            concurrency: self.concurrency,
            max_body_bytes: self.max_body_bytes,
            request_id_header: self.request_id_header@,
        }
    }
}

/// The ingress settings where none are configured.
pub open spec fn default_http() -> HttpView {
    HttpView {
        timeout_secs: 30,
        concurrency: 512,
        max_body_bytes: 8388608,
        request_id_header: "x-request-id"@,
    }
}

impl Clone for HttpConfig {
    fn clone(&self) -> (h: HttpConfig)
        ensures
            h == *self,
    {
        HttpConfig {
            timeout_secs: self.timeout_secs,
            concurrency: self.concurrency,
            max_body_bytes: self.max_body_bytes,
            request_id_header: self.request_id_header.clone(),
        }
    }
}

impl Default for HttpConfig {
    fn default() -> (h: HttpConfig)
        ensures
            h@ == default_http(),
    {
        HttpConfig {
            timeout_secs: 30,
            concurrency: 512,
            max_body_bytes: 8 * 1024 * 1024,
            request_id_header: "x-request-id".to_owned(),
        }
    }
}

impl HttpConfig {
    /// Per-request wall-clock budget as a span: at least a second.
    pub fn timeout(&self) -> (d: Duration)
        ensures
            d.nanos() == at_least_one(self.timeout_secs) * 1_000_000_000,
    {
        if self.timeout_secs == 0 {
            Duration::from_secs(1)
        } else {
            Duration::from_secs(self.timeout_secs)
        }
    }
}

/// What a [`Config`] says.
pub struct ConfigView {
    pub bind: Seq<char>,
    pub tenants: Seq<TenantConfigView>,
    pub engine: EngineConfig,
    pub registry: RegistryView,
    pub http: HttpView,
}

impl View for Config {
    type V = ConfigView;

    open spec fn view(&self) -> ConfigView {
        ConfigView {
            bind: self.bind@,
            tenants: tenant_views(self.tenants@),
            engine: self.engine,
            registry: self.registry@,
            http: self.http@,
        }
    }
}

/// The configuration of a runtime without a config file.
pub open spec fn default_config() -> ConfigView {
    ConfigView {
        bind: "127.0.0.1:8080"@,
        tenants: Seq::empty(),
        engine: default_engine(),
        registry: default_registry(),
        http: default_http(),
    }
}

impl Clone for Config {
    fn clone(&self) -> (c: Config)
        ensures
            c@ == self@,
    {
        let ghost all = tenant_views(self.tenants@);
        let mut tenants: Vec<TenantConfig> = Vec::new();
        let mut i: usize = 0;
        while i < self.tenants.len()
            invariant
                i <= self.tenants@.len(),
                all == tenant_views(self.tenants@),
                tenant_views(tenants@) == all.take(i as int),
            decreases self.tenants@.len() - i,
        {
            let ghost before = tenant_views(tenants@);
            tenants.push(self.tenants[i].clone());
            i = i + 1;
            proof {
                assert(tenant_views(tenants@) =~= before.push(all[i - 1]));
                assert(all.take(i as int) =~= all.take(i - 1).push(all[i - 1]));
            }
        }
        proof {
            assert(all.take(i as int) =~= all);
        }
        Config {
            bind: self.bind.clone(),
            tenants,
            engine: self.engine,
            registry: self.registry.clone(),
            http: self.http.clone(),
        }
    }
}

impl Default for Config {
    fn default() -> (c: Config)
        ensures
            c@ == default_config(),
    {
        let tenants: Vec<TenantConfig> = Vec::new();
        proof {
            assert(tenant_views(tenants@) =~= Seq::<TenantConfigView>::empty());
        }
        Config {
            bind: "127.0.0.1:8080".to_owned(),
            tenants,
            engine: EngineConfig::default(),
            registry: RegistryConfig::default(),
            http: HttpConfig::default(),
        }
    }
}

/// What the environment says about the configuration. A variable that is not
/// set is `None`.
#[derive(Debug)]
pub struct EnvOverrides {
    /// `EMBER_BIND`, where it holds a socket address.
    pub bind: Option<String>,
    /// `EMBER_REGISTRY_ENDPOINT`.
    pub endpoint: Option<String>,
    /// `EMBER_PULL_INTERVAL_SECS`, as it stands.
    pub pull_interval_secs: Option<String>,
}

/// What became of the configuration file.
#[derive(Debug)]
pub enum ConfigFile {
    /// No file was named.
    Absent,
    /// The named file could not be read.
    Unreadable { path: String, reason: String },
    /// The named file is not a configuration in TOML.
    Malformed { path: String, reason: String },
    /// The named file holds this configuration.
    Parsed(Config),
}

/// An override where there is one, else the value at hand.
pub open spec fn overridden(value: Seq<char>, by: Option<Seq<char>>) -> Seq<char> {
    match by {
        Some(s) => s,
        None => value,
    }
}

/// The interval after an override; one that is no number changes nothing.
pub open spec fn overridden_secs(value: u64, by: Option<Seq<char>>) -> u64 {
    match by {
        Some(s) => match crate::text::unsigned(s) {
            Some(n) => n,
            None => value,
        },
        None => value,
    }
}

/// What [`EnvOverrides`] say.
pub struct EnvView {
    pub bind: Option<Seq<char>>,
    pub endpoint: Option<Seq<char>>,
    pub pull_interval_secs: Option<Seq<char>>,
}

impl View for EnvOverrides {
    type V = EnvView;

    open spec fn view(&self) -> EnvView {
        EnvView {
            bind: crate::text::opt_view(self.bind),
            endpoint: crate::text::opt_view(self.endpoint),
            pull_interval_secs: crate::text::opt_view(self.pull_interval_secs),
        }
    }
}

/// `c` with the overrides of `env`.
pub open spec fn with_env(c: ConfigView, env: EnvView) -> ConfigView {
    ConfigView {
        bind: overridden(c.bind, env.bind),
        registry: RegistryView {
            endpoint: overridden(c.registry.endpoint, env.endpoint),
            pull_interval_secs: overridden_secs(
                c.registry.pull_interval_secs,
                env.pull_interval_secs,
            ),
            ..c.registry
        },
        ..c
    }
}

/// `c` with the limits of every tenant clamped into the engine budget.
pub open spec fn clamped_config(c: ConfigView) -> ConfigView {
    ConfigView {
        tenants: clamped_tenants(c.tenants, c.engine.max_memory_bytes, c.engine.max_instances),
        ..c
    }
}

/// `c` as validation leaves it, or the error that it is refused with.
pub open spec fn validated(c: ConfigView) -> Result<ConfigView, ErrorView> {
    match config_fault(c) {
        Some(fault) => Err(fault),
        None => Ok(clamped_config(c)),
    }
}

/// The configuration of a process, from what became of its config file and
/// from its environment.
pub open spec fn loaded(file: ConfigFile, env: EnvView) -> Result<ConfigView, ErrorView> {
    match file {
        ConfigFile::Absent => validated(with_env(default_config(), env)),
        ConfigFile::Unreadable { path, reason } => Err(
            ErrorView::Config("cannot read "@ + path@ + ": "@ + reason@),
        ),
        ConfigFile::Malformed { path, reason } => Err(
            ErrorView::Config("invalid TOML in "@ + path@ + ": "@ + reason@),
        ),
        ConfigFile::Parsed(c) => validated(with_env(c@, env)),
    }
}

/// What loading returned.
pub open spec fn config_outcome(r: Result<Config, Error>) -> Result<ConfigView, ErrorView> {
    match r {
        Ok(c) => Ok(c@),
        Err(e) => Err(e@),
    }
}

/// `detail`, said of the tenant `name`.
pub open spec fn of_tenant(name: Seq<char>, detail: Seq<char>) -> Seq<char> {
    "tenant `"@ + name + "`: "@ + detail
}

/// What is wrong with the component source of a tenant.
pub open spec fn source_fault(source: SourceView) -> Option<Seq<char>> {
    match source {
        SourceView::Oci { reference, pin } => if reference.len() == 0 {
            Some("empty oci reference"@)
        } else {
            match pin {
                Some(p) => match crate::registry::oci::digest_fault(p) {
                    Some(fault) => Some(
                        "bad pin: "@ + crate::error::message_of(ErrorView::Config(fault)),
                    ),
                    None => None,
                },
                None => None,
            }
        },
        SourceView::File { path } => if path.len() == 0 {
            Some("empty file path"@)
        } else {
            None
        },
    }
}

/// The error for a tenant that cannot be provisioned.
pub open spec fn tenant_fault(t: TenantConfigView) -> Option<ErrorView> {
    match crate::wasi::sandbox::limits_fault(t.limits) {
        Some(fault) => Some(ErrorView::LimitExceeded(fault)),
        None => match crate::runtime::id_fault(t.name) {
            Some(fault) => Some(
                ErrorView::Config(
                    of_tenant(t.name, crate::error::message_of(ErrorView::Config(fault))),
                ),
            ),
            None => match source_fault(t.component) {
                Some(fault) => Some(ErrorView::Config(of_tenant(t.name, fault))),
                None => None,
            },
        },
    }
}

/// The error of the first tenant that cannot be provisioned.
pub open spec fn first_tenant_fault(v: Seq<TenantConfigView>) -> Option<ErrorView>
    decreases v.len(),
{
    if v.len() == 0 {
        None
    } else {
        match first_tenant_fault(v.drop_last()) {
            Some(e) => Some(e),
            None => tenant_fault(v.last()),
        }
    }
}

/// The error for a configuration that cannot be run.
pub open spec fn config_fault(c: ConfigView) -> Option<ErrorView> {
    if c.engine.max_memory_bytes == 0 {
        Some(ErrorView::Config("engine.max_memory_bytes must be > 0"@))
    } else if c.engine.max_instances == 0 {
        Some(ErrorView::Config("engine.max_instances must be > 0"@))
    } else {
        first_tenant_fault(c.tenants)
    }
}

proof fn lemma_first_fault_stays(v: Seq<TenantConfigView>, n: int)
    requires
        0 <= n <= v.len(),
        first_tenant_fault(v.take(n)) is Some,
    ensures
        first_tenant_fault(v) == first_tenant_fault(v.take(n)),
    decreases v.len() - n,
{
    if n < v.len() {
        assert(v.take(n + 1).drop_last() =~= v.take(n));
        lemma_first_fault_stays(v, n + 1);
    } else {
        assert(v.take(n) =~= v);
    }
}

impl Config {
    /// Parse `size` as an integer byte count or a human size suffix:
    /// `k`/`m`/`g` (powers of 1024), e.g. `512`, `64k`, `128m`, `1g`.
    pub fn parse_memory(size: &str) -> (r: Result<usize, Error>)
        ensures
            crate::error::outcome(r) == memory_size(size@),
    {
        parse_memory(size)
    }

    /// Assemble the configuration from what became of the config file and
    /// from the environment, and validate it.
    pub fn load(file: ConfigFile, env: EnvOverrides) -> (r: Result<Config, Error>)
        ensures
            config_outcome(r) == loaded(file, env@),
    {
        let mut config: Config = match file {
            ConfigFile::Absent => Config::default(),
            ConfigFile::Unreadable { path, reason } => {
                return Err(
                    Error::Config(
                        "cannot read ".to_owned().concat(path.as_str()).concat(": ").concat(
                            reason.as_str(),
                        ),
                    ),
                );
            },
            ConfigFile::Malformed { path, reason } => {
                return Err(
                    Error::Config(
                        "invalid TOML in ".to_owned().concat(path.as_str()).concat(": ").concat(
                            reason.as_str(),
                        ),
                    ),
                );
            },
            ConfigFile::Parsed(c) => c,
        };
        config.apply_env(env);
        match config.validate() {
            Ok(()) => Ok(config),
            Err(e) => Err(e),
        }
    }

    /// Layer environment overrides on top of file configuration.
    pub fn apply_env(&mut self, env: EnvOverrides)
        ensures
            final(self)@ == with_env(old(self)@, env@),
            final(self).tenants == old(self).tenants,
    {
        if let Some(bind) = env.bind {
            self.bind = bind;
        }
        if let Some(endpoint) = env.endpoint {
            self.registry.endpoint = endpoint;
        }
        if let Some(interval) = env.pull_interval_secs {
            if let Some(v) = parse_unsigned(interval.as_str()) {
                self.registry.pull_interval_secs = v;
            }
        }
    }

    /// Validate the config and clamp tenant limits into the engine budget.
    /// A config that is refused stays as it is.
    pub fn validate(&mut self) -> (r: Result<(), Error>)
        ensures
            match validated(old(self)@) {
                Ok(c) => r is Ok && final(self)@ == c,
                Err(fault) => {
                    &&& crate::error::outcome(r) == Err::<(), ErrorView>(fault)
                    &&& *final(self) == *old(self)
                },
            },
    {
        if self.engine.max_memory_bytes == 0 {
            return Err(Error::Config("engine.max_memory_bytes must be > 0".to_owned()));
        }
        if self.engine.max_instances == 0 {
            return Err(Error::Config("engine.max_instances must be > 0".to_owned()));
        }
        let ghost all = tenant_views(self.tenants@);
        let mut i: usize = 0;
        while i < self.tenants.len()
            invariant
                i <= self.tenants@.len(),
                *self == *old(self),
                self.engine.max_memory_bytes > 0,
                self.engine.max_instances > 0,
                all == tenant_views(self.tenants@),
                first_tenant_fault(all.take(i as int)) is None,
            decreases self.tenants@.len() - i,
        {
            proof {
                assert(all.take(i + 1).drop_last() =~= all.take(i as int));
                assert(all.take(i + 1).last() == self.tenants@[i as int]@);
            }
            match self.tenants[i].check() {
                Ok(()) => {},
                Err(e) => {
                    proof {
                        lemma_first_fault_stays(all, i + 1);
                    }
                    return Err(e);
                },
            }
            i = i + 1;
        }
        proof {
            assert(all.take(i as int) =~= all);
        }
        let engine: EngineConfig = self.engine;
        engine.clamp_tenants(&mut self.tenants);
        Ok(())
    }
}

impl TenantConfig {
    /// Whether the tenant can be provisioned.
    fn check(&self) -> (r: Result<(), Error>)
        ensures
            crate::error::outcome(r) == (match tenant_fault(self@) {
                Some(fault) => Err(fault),
                None => Ok(()),
            }),
    {
        match self.limits.validate() {
            Ok(()) => {},
            Err(e) => {
                return Err(e);
            },
        }
        match TenantId::new(self.name.as_str()) {
            Ok(_) => {},
            Err(e) => {
                return Err(self.refused(e.to_string().as_str()));
            },
        }
        match &self.component {
            ComponentSource::Oci { reference, pin } => {
                if reference.as_str().is_empty() {
                    return Err(self.refused("empty oci reference"));
                }
                if let Some(p) = pin {
                    match parse_digest(p.as_str()) {
                        Ok(()) => {},
                        Err(e) => {
                            return Err(
                                self.refused(
                                    "bad pin: ".to_owned().concat(e.to_string().as_str()).as_str(),
                                ),
                            );
                        },
                    }
                }
            },
            ComponentSource::File { path } => {
                if path.as_str().is_empty() {
                    return Err(self.refused("empty file path"));
                }
            },
        }
        Ok(())
    }

    /// The error for this tenant, for the reason `detail`.
    fn refused(&self, detail: &str) -> (e: Error)
        ensures
            e@ == ErrorView::Config(of_tenant(self.name@, detail@)),
    {
        Error::Config(
            "tenant `".to_owned().concat(self.name.as_str()).concat("`: ").concat(detail),
        )
    }
}

/// The bytes that a size unit stands for, in either case.
pub open spec fn unit_bytes(unit: Seq<char>) -> Option<usize> {
    if unit.len() == 0 {
        Some(1usize)
    } else if unit == "k"@ || unit == "kb"@ || unit == "kib"@ {
        Some(1024usize)
    } else if unit == "m"@ || unit == "mb"@ || unit == "mib"@ {
        Some(1048576usize)
    } else if unit == "g"@ || unit == "gb"@ || unit == "gib"@ {
        Some(1073741824usize)
    } else {
        None
    }
}

/// The byte count that `size` stands for: digits and a unit, with white space
/// around them ignored.
pub open spec fn memory_size(size: Seq<char>) -> Result<usize, ErrorView> {
    let s = crate::text::trim(size);
    let n = crate::text::leading_digits(s) as int;
    let value = crate::text::number(s.take(n));
    let unit = crate::text::lower(s.skip(n));
    if s.len() == 0 {
        Err(ErrorView::Config("empty memory size"@))
    } else if n == 0 || value > usize::MAX {
        Err(ErrorView::Config("invalid memory size `"@ + size + "`"@))
    } else {
        match unit_bytes(unit) {
            None => Err(ErrorView::Config("unknown memory unit `"@ + unit + "`"@)),
            Some(bytes) => if value * bytes > usize::MAX {
                Err(ErrorView::Config("memory size `"@ + size + "` overflows"@))
            } else {
                Ok((value * bytes) as usize)
            },
        }
    }
}

/// Executable form of [`unit_bytes`].
fn unit_size(unit: &str) -> (r: Option<usize>)
    ensures
        r == unit_bytes(unit@),
{
    if unit.is_empty() {
        Some(1)
    } else if same(unit, "k") || same(unit, "kb") || same(unit, "kib") {
        Some(1024)
    } else if same(unit, "m") || same(unit, "mb") || same(unit, "mib") {
        Some(1048576)
    } else if same(unit, "g") || same(unit, "gb") || same(unit, "gib") {
        Some(1073741824)
    } else {
        None
    }
}

/// The error for a size that is no number.
fn invalid_size(size: &str) -> (e: Error)
    ensures
        e@ == ErrorView::Config("invalid memory size `"@ + size@ + "`"@),
{
    Error::Config("invalid memory size `".to_owned().concat(size).concat("`"))
}

/// Parse a human-readable byte count (see [`Config::parse_memory`]).
pub fn parse_memory(size: &str) -> (r: Result<usize, Error>)
    ensures
        crate::error::outcome(r) == memory_size(size@),
{
    let cs: Vec<char> = chars(size);
    let s = trimmed(cs.as_slice());
    let end: usize = s.len();
    if end == 0 {
        return Err(Error::Config("empty memory size".to_owned()));
    }
    let n: usize = count_digits(s);
    if n == 0 {
        return Err(invalid_size(size));
    }
    let digits = slice_subrange(s, 0, n);
    let rest = slice_subrange(s, n, end);
    proof {
        assert(digits@ =~= s@.take(n as int));
        assert(rest@ =~= s@.skip(n as int));
    }
    let value: usize = match digits_value(digits) {
        Some(v) => {
            if v > usize::MAX as u64 {
                return Err(invalid_size(size));
            }
            v as usize
        },
        None => {
            return Err(invalid_size(size));
        },
    };
    let unit: String = text(lowercase(rest).as_slice());
    let bytes: usize = match unit_size(unit.as_str()) {
        Some(b) => b,
        None => {
            return Err(
                Error::Config(
                    "unknown memory unit `".to_owned().concat(unit.as_str()).concat("`"),
                ),
            );
        },
    };
    match value.checked_mul(bytes) {
        Some(v) => Ok(v),
        None => Err(
            Error::Config("memory size `".to_owned().concat(size).concat("` overflows")),
        ),
    }
}

/// A byte count as it stands in a config file.
#[derive(Debug)]
pub enum MemSize {
    /// A plain integer.
    Bytes(u64),
    /// A human-size text (`"256m"`, `"64k"`).
    Text(String),
}

impl MemSize {
    /// The byte count. A plain integer must fit a `usize`; a text is read by
    /// [`parse_memory`].
    pub fn bytes(&self) -> (r: Result<usize, Error>)
        ensures
            crate::error::outcome(r) == (match self {
                MemSize::Bytes(b) => if *b <= usize::MAX {
                    Ok(*b as usize)
                } else {
                    Err(
                        ErrorView::Config("out of range integral type conversion attempted"@),
                    )
                },
                MemSize::Text(t) => memory_size(t@),
            }),
    {
        match self {
            MemSize::Bytes(b) => {
                if *b > usize::MAX as u64 {
                    return Err(
                        Error::Config(
                            "out of range integral type conversion attempted".to_owned(),
                        ),
                    );
                }
                Ok(*b as usize)
            },
            MemSize::Text(t) => parse_memory(t.as_str()),
        }
    }
}

/// A configuration that validates leaves every tenant inside the engine
/// budget and provisionable.
pub proof fn law_validated_tenants_fit(c: ConfigView, i: int)
    requires
        validated(c) is Ok,
        0 <= i < c.tenants.len(),
    ensures
        ({
            let t = validated(c)->Ok_0.tenants[i];
            &&& t.limits.max_memory_bytes <= c.engine.max_memory_bytes
            &&& t.limits.max_instances <= c.engine.max_instances
            &&& t.limits.max_epoch_delta >= 1
            &&& tenant_fault(t) is None
        }),
{
    lemma_no_fault(c.tenants, i);
    crate::wasi::sandbox::law_clamp_stays_in_budget(
        c.tenants[i].limits,
        c.engine.max_memory_bytes,
        c.engine.max_instances,
    );
}

/// Validating a validated configuration succeeds and changes nothing.
pub proof fn law_validation_is_idempotent(c: ConfigView)
    requires
        validated(c) is Ok,
    ensures
        validated(validated(c)->Ok_0) == validated(c),
{
    let m = c.engine.max_memory_bytes;
    let n = c.engine.max_instances;
    let next = validated(c)->Ok_0;
    assert forall|i: int| 0 <= i < next.tenants.len() implies tenant_fault(
        #[trigger] next.tenants[i],
    ) is None by {
        law_validated_tenants_fit(c, i);
    }
    lemma_fault_free(next.tenants);
    assert(clamped_tenants(next.tenants, m, n) =~= next.tenants) by {
        assert forall|j: int| 0 <= j < next.tenants.len() implies clamped_tenants(
            next.tenants,
            m,
            n,
        )[j] == next.tenants[j] by {
            crate::wasi::sandbox::law_clamp_is_idempotent(c.tenants[j].limits, m, n);
        }
    }
}

proof fn lemma_fault_free(v: Seq<TenantConfigView>)
    requires
        forall|i: int| 0 <= i < v.len() ==> tenant_fault(#[trigger] v[i]) is None,
    ensures
        first_tenant_fault(v) is None,
    decreases v.len(),
{
    if v.len() > 0 {
        lemma_fault_free(v.drop_last());
    }
}

proof fn lemma_no_fault(v: Seq<TenantConfigView>, i: int)
    requires
        first_tenant_fault(v) is None,
        0 <= i < v.len(),
    ensures
        tenant_fault(v[i]) is None,
    decreases v.len(),
{
    if i < v.len() - 1 {
        lemma_no_fault(v.drop_last(), i);
    }
}

/// The size units, in either case, are made of letters.
proof fn lemma_unit_is_letters(unit: Seq<char>)
    requires
        unit_bytes(crate::text::lower(unit)) is Some,
    ensures
        forall|i: int| 0 <= i < unit.len() ==> crate::text::is_letter(#[trigger] unit[i]),
{
    reveal_strlit("k");
    reveal_strlit("kb");
    reveal_strlit("kib");
    reveal_strlit("m");
    reveal_strlit("mb");
    reveal_strlit("mib");
    reveal_strlit("g");
    reveal_strlit("gb");
    reveal_strlit("gib");
    let l = crate::text::lower(unit);
    assert(l.len() == unit.len());
    assert forall|i: int| 0 <= i < unit.len() implies crate::text::is_letter(#[trigger] unit[i]) by {
        assert(l[i] == crate::text::lower_char(unit[i]));
    }
}

/// A number with a size unit behind it, in either case, stands for that many
/// units of bytes, as far as they fit; without a unit it stands for itself.
pub proof fn law_sizes_are_multiples_of_their_unit(n: nat, unit: Seq<char>)
    requires
        n <= usize::MAX,
        unit_bytes(crate::text::lower(unit)) is Some,
    ensures
        ({
            let bytes = unit_bytes(crate::text::lower(unit))->0;
            let size = crate::text::decimal(n) + unit;
            if n * bytes <= usize::MAX {
                memory_size(size) == Ok::<usize, ErrorView>((n * bytes) as usize)
            } else {
                memory_size(size) == Err::<usize, ErrorView>(
                    ErrorView::Config("memory size `"@ + size + "` overflows"@),
                )
            }
        }),
{
    let d = crate::text::decimal(n);
    let size = d + unit;
    crate::text::lemma_decimal(n);
    lemma_unit_is_letters(unit);
    assert(crate::text::is_digit(d[0]));
    assert(size.first() == d[0]);
    assert(crate::text::trim_start(size) == size);
    assert(!crate::text::is_space(size.last())) by {
        if unit.len() == 0 {
            assert(size.last() == d[d.len() - 1]);
        } else {
            assert(size.last() == unit[unit.len() - 1]);
        }
    }
    assert(crate::text::trim(size) == size);
    crate::text::lemma_leading_digits(d, unit);
    assert(size.take(d.len() as int) =~= d);
    assert(size.skip(d.len() as int) =~= unit);
}

/// The size units are the powers of 1024 under their three names each, and
/// there are no others.
pub proof fn law_size_units(unit: Seq<char>)
    ensures
        unit_bytes(unit) == Some(1usize) <==> unit.len() == 0,
        unit_bytes(unit) == Some(1024usize) <==> unit == "k"@ || unit == "kb"@ || unit == "kib"@,
        unit_bytes(unit) is Some && unit.len() > 0 && unit[0] == 'm' <==> unit == "m"@ || unit
            == "mb"@ || unit == "mib"@,
        unit_bytes(unit) is Some && unit.len() > 0 && unit[0] == 'm' ==> unit_bytes(unit)->0
            == 1024 * 1024,
        unit_bytes(unit) is Some && unit.len() > 0 && unit[0] == 'g' <==> unit == "g"@ || unit
            == "gb"@ || unit == "gib"@,
        unit_bytes(unit) is Some && unit.len() > 0 && unit[0] == 'g' ==> unit_bytes(unit)->0
            == 1024 * 1024 * 1024,
        unit_bytes(unit) is Some && unit.len() > 0 ==> unit[0] == 'k' || unit[0] == 'm' || unit[0]
            == 'g',
{
    reveal_strlit("k");
    reveal_strlit("kb");
    reveal_strlit("kib");
    reveal_strlit("m");
    reveal_strlit("mb");
    reveal_strlit("mib");
    reveal_strlit("g");
    reveal_strlit("gb");
    reveal_strlit("gib");
}

proof fn lemma_size_parts(a: Seq<char>, digits: Seq<char>, unit: Seq<char>, b: Seq<char>)
    requires
        digits.len() > 0,
        crate::text::all_digits(digits),
        unit.len() > 0 ==> !crate::text::is_digit(unit[0]) && !crate::text::is_space(
            unit[unit.len() - 1],
        ),
        forall|i: int| 0 <= i < a.len() ==> crate::text::is_space(#[trigger] a[i]),
        forall|i: int| 0 <= i < b.len() ==> crate::text::is_space(#[trigger] b[i]),
    ensures
        ({
            let s = crate::text::trim(a + digits + unit + b);
            &&& s == digits + unit
            &&& crate::text::leading_digits(s) == digits.len()
            &&& s.take(digits.len() as int) == digits
            &&& s.skip(digits.len() as int) == unit
        }),
{
    let s = digits + unit;
    assert(a + digits + unit + b =~= a + s + b);
    assert(crate::text::is_digit(digits[0]));
    assert(s[0] == digits[0]);
    assert(!crate::text::is_space(s[s.len() - 1])) by {
        if unit.len() == 0 {
            assert(crate::text::is_digit(digits[digits.len() - 1]));
            assert(s[s.len() - 1] == digits[digits.len() - 1]);
        } else {
            assert(s[s.len() - 1] == unit[unit.len() - 1]);
        }
    }
    crate::text::law_trim_cuts_the_space_around(a, s, b);
    crate::text::lemma_leading_digits(digits, unit);
    assert(s.take(digits.len() as int) =~= digits);
    assert(s.skip(digits.len() as int) =~= unit);
}

/// A size is digits and a unit, in either case and with any white space
/// around them: it stands for as many units of bytes as the digits say, and
/// is refused exactly where that does not fit or the unit is not known.
pub proof fn law_sizes_are_digits_and_a_unit(
    a: Seq<char>,
    digits: Seq<char>,
    unit: Seq<char>,
    b: Seq<char>,
)
    requires
        digits.len() > 0,
        crate::text::all_digits(digits),
        unit.len() > 0 ==> !crate::text::is_digit(unit[0]) && !crate::text::is_space(
            unit[unit.len() - 1],
        ),
        forall|i: int| 0 <= i < a.len() ==> crate::text::is_space(#[trigger] a[i]),
        forall|i: int| 0 <= i < b.len() ==> crate::text::is_space(#[trigger] b[i]),
    ensures
        ({
            let r = memory_size(a + digits + unit + b);
            let n = crate::text::number(digits);
            let bytes = unit_bytes(crate::text::lower(unit));
            &&& r is Ok <==> bytes is Some && n <= usize::MAX && n * bytes->0 <= usize::MAX
            &&& r is Ok ==> r->Ok_0 == n * bytes->0
            &&& r is Err ==> r->Err_0 is Config
        }),
{
    lemma_size_parts(a, digits, unit, b);
    assert((digits + unit).len() > 0);
}

/// Without a digit in front there is no size, and nothing but white space is
/// none either.
pub proof fn law_sizes_begin_with_a_digit(a: Seq<char>, s: Seq<char>, b: Seq<char>)
    requires
        s.len() > 0 ==> !crate::text::is_digit(s[0]) && !crate::text::is_space(s[0])
            && !crate::text::is_space(s[s.len() - 1]),
        forall|i: int| 0 <= i < a.len() ==> crate::text::is_space(#[trigger] a[i]),
        forall|i: int| 0 <= i < b.len() ==> crate::text::is_space(#[trigger] b[i]),
    ensures
        memory_size(a + s + b) is Err,
        memory_size(a + s + b)->Err_0 is Config,
{
    crate::text::law_trim_cuts_the_space_around(a, s, b);
    let none = Seq::<char>::empty();
    crate::text::lemma_leading_digits(none, s);
    assert(none + s =~= s);
}

/// The environment overrides the bind address, the registry endpoint and the
/// pull interval where it states them, the last only by a number; it leaves
/// everything else as it is.
pub proof fn law_environment_overrides_three_settings(c: ConfigView, env: EnvView, n: u64)
    ensures
        ({
            let d = with_env(c, env);
            &&& env.bind matches Some(s) ==> d.bind == s
            &&& env.bind is None ==> d.bind == c.bind
            &&& env.endpoint matches Some(s) ==> d.registry.endpoint == s
            &&& env.endpoint is None ==> d.registry.endpoint == c.registry.endpoint
            &&& env.pull_interval_secs == Some(crate::text::decimal(n as nat))
                ==> d.registry.pull_interval_secs == n
            &&& env.pull_interval_secs is None || crate::text::unsigned(
                env.pull_interval_secs->0,
            ) is None ==> d.registry.pull_interval_secs == c.registry.pull_interval_secs
            &&& env.pull_interval_secs is Some && crate::text::unsigned(
                env.pull_interval_secs->0,
            ) is Some ==> d.registry.pull_interval_secs == crate::text::unsigned(
                env.pull_interval_secs->0,
            )->0
            &&& d.registry.insecure == c.registry.insecure
            &&& d.registry.cache_dir == c.registry.cache_dir
            &&& d.tenants == c.tenants
            &&& d.engine == c.engine
            &&& d.http == c.http
        }),
{
    crate::text::law_unsigned_integers(crate::text::decimal(n as nat));
    assert(crate::text::unsigned(crate::text::decimal(n as nat)) == Some(n));
}

/// A configuration is valid exactly where the engine has memory and instances
/// and every tenant can be provisioned.
pub proof fn law_configuration_is_valid_tenant_by_tenant(c: ConfigView)
    ensures
        validated(c) is Ok <==> c.engine.max_memory_bytes > 0 && c.engine.max_instances > 0
            && forall|i: int|
            0 <= i < c.tenants.len() ==> tenant_fault(#[trigger] c.tenants[i]) is None,
        c.engine.max_memory_bytes == 0 ==> validated(c) == Err::<ConfigView, ErrorView>(
            ErrorView::Config("engine.max_memory_bytes must be > 0"@),
        ),
        c.engine.max_memory_bytes > 0 && c.engine.max_instances == 0 ==> validated(c) == Err::<
            ConfigView,
            ErrorView,
        >(ErrorView::Config("engine.max_instances must be > 0"@)),
{
    if validated(c) is Ok {
        assert forall|i: int| 0 <= i < c.tenants.len() implies tenant_fault(
            #[trigger] c.tenants[i],
        ) is None by {
            lemma_no_fault(c.tenants, i);
        }
    }
    if forall|i: int| 0 <= i < c.tenants.len() ==> tenant_fault(#[trigger] c.tenants[i]) is None {
        lemma_fault_free(c.tenants);
    }
}

/// The fault that is reported is that of the first tenant that has one.
pub proof fn law_first_fault_is_reported(
    a: Seq<TenantConfigView>,
    t: TenantConfigView,
    b: Seq<TenantConfigView>,
)
    requires
        forall|i: int| 0 <= i < a.len() ==> tenant_fault(#[trigger] a[i]) is None,
        tenant_fault(t) is Some,
    ensures
        first_tenant_fault(a + seq![t] + b) == tenant_fault(t),
        first_tenant_fault(a) is None,
{
    let all = a + seq![t] + b;
    let head = a.push(t);
    lemma_fault_free(a);
    assert(head.drop_last() =~= a);
    assert(all.take(head.len() as int) =~= head);
    lemma_first_fault_stays(all, head.len() as int);
}

/// Validation changes nothing but the limits of the tenants: it keeps every
/// tenant in its place with its name, its component and its settings, and
/// clamps its limits into the engine budget.
pub proof fn law_validation_only_clamps(c: ConfigView, i: int)
    requires
        validated(c) is Ok,
    ensures
        validated(c)->Ok_0.bind == c.bind,
        validated(c)->Ok_0.engine == c.engine,
        validated(c)->Ok_0.registry == c.registry,
        validated(c)->Ok_0.http == c.http,
        validated(c)->Ok_0.tenants.len() == c.tenants.len(),
        0 <= i < c.tenants.len() ==> {
            let t = validated(c)->Ok_0.tenants[i];
            &&& t.name == c.tenants[i].name
            &&& t.component == c.tenants[i].component
            &&& t.config == c.tenants[i].config
            &&& t.limits == crate::wasi::sandbox::clamped(
                c.tenants[i].limits,
                c.engine.max_memory_bytes,
                c.engine.max_instances,
            )
        },
{
}

/// A component source has no fault exactly where it names something, and its
/// pin, where it has one, is a digest.
pub proof fn law_sources_name_something(
    reference: Seq<char>,
    pin: Option<Seq<char>>,
    path: Seq<char>,
)
    ensures
        source_fault(SourceView::Oci { reference, pin }) is None <==> reference.len() > 0 && (
        pin is None || crate::hash::is_digest(pin->0)),
        source_fault(SourceView::File { path }) is None <==> path.len() > 0,
{
}

/// A tenant can be provisioned exactly where its limits, its id and its
/// component source have no fault. Limits are a limit exceeded; the others are
/// faults of the configuration that name the tenant.
pub proof fn law_tenant_is_checked_in_full(t: TenantConfigView)
    ensures
        tenant_fault(t) is None <==> crate::wasi::sandbox::limits_fault(t.limits) is None
            && crate::runtime::id_fault(t.name) is None && source_fault(t.component) is None,
        crate::wasi::sandbox::limits_fault(t.limits) is Some ==> tenant_fault(t) == Some(
            ErrorView::LimitExceeded(crate::wasi::sandbox::limits_fault(t.limits)->0),
        ),
        tenant_fault(t) is Some && crate::wasi::sandbox::limits_fault(t.limits) is None ==> {
            &&& tenant_fault(t)->0 is Config
            &&& exists|a: Seq<char>, b: Seq<char>| #[trigger]
                (a + t.name + b) == tenant_fault(t)->0->Config_0
        },
{
    if tenant_fault(t) is Some && crate::wasi::sandbox::limits_fault(t.limits) is None {
        let detail = match crate::runtime::id_fault(t.name) {
            Some(fault) => crate::error::message_of(ErrorView::Config(fault)),
            None => source_fault(t.component)->0,
        };
        let b = "`: "@ + detail;
        assert("tenant `"@ + t.name + b =~= of_tenant(t.name, detail));
    }
}

/// A detail that is said of a tenant stands behind its name, all of it.
pub proof fn law_details_follow_the_tenant(name: Seq<char>, detail: Seq<char>)
    ensures
        of_tenant(name, detail) == of_tenant(name, Seq::empty()) + detail,
        of_tenant(name, Seq::empty()) == "tenant `"@ + name + "`: "@,
{
    assert(of_tenant(name, Seq::empty()) =~= "tenant `"@ + name + "`: "@);
}

/// A parsed configuration is loaded with the overrides of the environment and
/// validated, and a process without a config file starts from the defaults. A
/// file that could not be read or parsed is a fault of the configuration that
/// names the file and ends in the reason.
pub proof fn law_loading(c: Config, env: EnvView, path: String, reason: String)
    ensures
        loaded(ConfigFile::Parsed(c), env) == validated(with_env(c@, env)),
        c@ == default_config() ==> loaded(ConfigFile::Absent, env) == loaded(
            ConfigFile::Parsed(c),
            env,
        ),
        loaded(ConfigFile::Unreadable { path, reason }, env) is Err,
        loaded(ConfigFile::Unreadable { path, reason }, env)->Err_0 is Config,
        exists|a: Seq<char>, b: Seq<char>| #[trigger]
            (a + path@ + b + reason@) == loaded(
                ConfigFile::Unreadable { path, reason },
                env,
            )->Err_0->Config_0,
        loaded(ConfigFile::Malformed { path, reason }, env) is Err,
        loaded(ConfigFile::Malformed { path, reason }, env)->Err_0 is Config,
        exists|a: Seq<char>, b: Seq<char>| #[trigger]
            (a + path@ + b + reason@) == loaded(
                ConfigFile::Malformed { path, reason },
                env,
            )->Err_0->Config_0,
{
    assert("cannot read "@ + path@ + ": "@ + reason@ == loaded(
        ConfigFile::Unreadable { path, reason },
        env,
    )->Err_0->Config_0);
    assert("invalid TOML in "@ + path@ + ": "@ + reason@ == loaded(
        ConfigFile::Malformed { path, reason },
        env,
    )->Err_0->Config_0);
}

/// A setting of at least one stays as it is, and only zero becomes one.
pub proof fn law_at_least_one(secs: u64)
    ensures
        at_least_one(secs) >= 1,
        secs >= 1 ==> at_least_one(secs) == secs,
        secs == 0 ==> at_least_one(secs) == 1,
{
}

/// All that a configuration holds can be seen.
pub proof fn law_configurations_are_seen_whole(c: Config, env: EnvOverrides, e: Error, i: int)
    ensures
        c@.bind == c.bind@,
        c@.engine == c.engine,
        c@.tenants.len() == c.tenants@.len(),
        0 <= i < c.tenants@.len() ==> {
            &&& c@.tenants[i].name == c.tenants@[i].name@
            &&& c@.tenants[i].component == c.tenants@[i].component@
            &&& c@.tenants[i].limits == c.tenants@[i].limits@
            &&& c@.tenants[i].config == c.tenants@[i].config@
        },
        c@.registry.endpoint == c.registry.endpoint@,
        c@.registry.insecure == c.registry.insecure,
        c@.registry.pull_interval_secs == c.registry.pull_interval_secs,
        c@.registry.cache_dir == c.registry.cache_dir@,
        c@.http.timeout_secs == c.http.timeout_secs,
        c@.http.concurrency == c.http.concurrency,
        c@.http.max_body_bytes == c.http.max_body_bytes,
        c@.http.request_id_header == c.http.request_id_header@,
        env@.bind == crate::text::opt_view(env.bind),
        env@.endpoint == crate::text::opt_view(env.endpoint),
        env@.pull_interval_secs == crate::text::opt_view(env.pull_interval_secs),
        config_outcome(Ok(c)) == Ok::<ConfigView, ErrorView>(c@),
        config_outcome(Err(e)) == Err::<ConfigView, ErrorView>(e@),
{
}

/// All that a component source says can be seen.
pub proof fn law_sources_are_seen_whole(source: ComponentSource)
    ensures
        match source {
            ComponentSource::Oci { reference, pin } => source@ == (SourceView::Oci {
                reference: reference@,
                pin: crate::text::opt_view(pin),
            }),
            ComponentSource::File { path } => source@ == (SourceView::File { path: path@ }),
        },
{
}

/// The defaults are settings that validation accepts and leaves as they are,
/// under any number of tenants that are accepted: a process without a config
/// file listens on the loopback address, pulls over TLS, and offers a gibibyte
/// of guest memory to 64 instances.
pub proof fn law_defaults_are_valid(tenants: Seq<TenantConfigView>)
    requires
        forall|i: int| 0 <= i < tenants.len() ==> tenant_fault(#[trigger] tenants[i]) is None,
    ensures
        validated(default_config()) == Ok::<ConfigView, ErrorView>(default_config()),
        validated(ConfigView { tenants, ..default_config() }) is Ok,
        default_config().bind == "127.0.0.1:8080"@,
        default_config().tenants.len() == 0,
        default_config().engine.max_memory_bytes == 1024 * 1024 * 1024,
        default_config().engine.max_instances == 64,
        default_config().engine.threads == 4,
        default_config().engine.epoch_interval_ms == 100,
        default_config().registry.endpoint == "ghcr.io"@,
        !default_config().registry.insecure,
        default_config().registry.pull_interval_secs == 30,
        default_config().registry.cache_dir == "registry-cache"@,
        default_config().http.timeout_secs == 30,
        default_config().http.concurrency == 512,
        default_config().http.max_body_bytes == 8 * 1024 * 1024,
        default_config().http.request_id_header == "x-request-id"@,
        default_config().engine == default_engine(),
        default_config().registry == default_registry(),
        default_config().http == default_http(),
{
    let d = default_config();
    law_configuration_is_valid_tenant_by_tenant(d);
    law_configuration_is_valid_tenant_by_tenant(ConfigView { tenants, ..d });
    assert(clamped_tenants(d.tenants, d.engine.max_memory_bytes, d.engine.max_instances)
        =~= d.tenants);
}

} // verus!
