//! The runtime facade: tenant registry and hot reload.
//!
//! [`Runtime`] holds everything needed to serve a tenant's traffic but the
//! engine, and is assembled by [`Runtime::build`] from a [`Config`]. Tenants
//! are held in a registry; each tenant points at its active component, which
//! a hot reload replaces as a whole. The reload loop asks each tenant what to
//! do ([`Tenant::poll`]), hands it what a pull returned ([`Tenant::pulled`]),
//! and swaps in what was compiled ([`Tenant::swap`]), subject to
//! [`HotReloadPolicy`].

pub mod engine;
pub mod invoke;

use vstd::prelude::*;
use vstd::string::*;

use crate::component::linker::HostCtx;
use crate::component::loader::{Admitted, Loaded, LoadedView};
use crate::config::{
    ComponentSource, Config, HttpConfig, SourceView, TenantConfig, TenantConfigView,
};
use crate::error::{Error, ErrorView};
use crate::http::bridge::{EgressPolicy, HttpBridge};
use crate::registry::oci::{AuthView, Protocol};
use crate::registry::{HotReloadPolicy, OciClient, OciClientConfig, Registry};
use crate::runtime::engine::{EngineBuilder, EngineCap, EnginePlan};
use crate::runtime::invoke::{InstancePool, Prepared};
use crate::table::{Entry, Table};
use crate::telemetry::{record_parked, record_reload, Update};
use crate::text::{byte_len, chars, copied_option, decimal_text, digit, letter};
use crate::time::{Duration, Instant};
use crate::wasi::sandbox::{Sandbox, SandboxLimits};
use crate::MAX_TENANT_ID_LEN;

verus! {

/// Whether `c` may stand in a tenant id.
pub open spec fn is_id_char(c: char) -> bool {
    crate::text::is_letter(c) || crate::text::is_digit(c) || c == '-' || c == '_'
}

/// Whether every character of `s` may stand in a tenant id.
pub open spec fn all_id_chars(s: Seq<char>) -> bool {
    forall|i: int| 0 <= i < s.len() ==> is_id_char(#[trigger] s[i])
}

/// What is wrong with `name` as a tenant id. The length limit counts bytes.
pub open spec fn id_fault(name: Seq<char>) -> Option<Seq<char>> {
    if name.len() == 0 {
        Some("tenant id must not be empty"@)
    } else if vstd::utf8::encode_utf8(name).len() > MAX_TENANT_ID_LEN {
        Some(
            "tenant id `"@ + name + "` exceeds "@ + crate::text::decimal(MAX_TENANT_ID_LEN as nat)
                + " characters"@,
        )
    } else if !all_id_chars(name) {
        Some("tenant id `"@ + name + "` may only contain [a-zA-Z0-9-_]"@)
    } else {
        None
    }
}

/// A tenant id: ASCII letters and digits plus `-` and `_`, up to
/// [`MAX_TENANT_ID_LEN`] characters. Also usable directly as a URL path
/// segment.
#[derive(Debug, PartialEq, Eq, Hash, PartialOrd, Ord)]
pub struct TenantId(String);

impl View for TenantId {
    type V = Seq<char>;

    closed spec fn view(&self) -> Seq<char> {
        self.0@
    }
}

impl Clone for TenantId {
    fn clone(&self) -> (r: TenantId)
        ensures
            r == *self,
    {
        proof {
            use_type_invariant(&*self);
        }
        TenantId(self.0.clone())
    }
}

impl TenantId {
    #[verifier::type_invariant]
    spec fn well_formed(self) -> bool {
        id_fault(self.0@) is None
    }

    /// Validate and construct a tenant id.
    pub fn new(name: &str) -> (r: Result<TenantId, Error>)
        ensures
            match r {
                Ok(id) => id@ == name@ && id_fault(name@) is None,
                Err(e) => id_fault(name@) is Some && e@ == ErrorView::Config(id_fault(name@)->0),
            },
    {
        if name.is_empty() {
            return Err(Error::Config("tenant id must not be empty".to_owned()));
        }
        if byte_len(name) > MAX_TENANT_ID_LEN {
            return Err(
                Error::Config(
                    "tenant id `".to_owned().concat(name).concat("` exceeds ").concat(
                        decimal_text(MAX_TENANT_ID_LEN as u128).as_str(),
                    ).concat(" characters"),
                ),
            );
        }
        let cs: Vec<char> = chars(name);
        let mut i: usize = 0;
        while i < cs.len()
            invariant
                i <= cs@.len(),
                cs@ == name@,
                name@.len() > 0,
                vstd::utf8::encode_utf8(name@).len() <= MAX_TENANT_ID_LEN,
                forall|j: int| 0 <= j < i ==> is_id_char(#[trigger] cs@[j]),
            decreases cs@.len() - i,
        {
            let c: char = cs[i];
            if !(letter(c) || digit(c) || c == '-' || c == '_') {
                return Err(
                    Error::Config(
                        "tenant id `".to_owned().concat(name).concat(
                            "` may only contain [a-zA-Z0-9-_]",
                        ),
                    ),
                );
            }
            i = i + 1;
        }
        Ok(TenantId(name.to_owned()))
    }

    /// Parse a tenant id from a URL path segment.
    pub fn parse(s: &str) -> (r: Result<TenantId, Error>)
        ensures
            match r {
                Ok(id) => id@ == s@ && id_fault(s@) is None,
                Err(e) => id_fault(s@) is Some && e@ == ErrorView::Config(id_fault(s@)->0),
            },
    {
        TenantId::new(s)
    }

    /// The tenant id as a string.
    pub fn as_str(&self) -> (s: &str)
        ensures
            s@ == self@,
            id_fault(self@) is None,
    {
        proof {
            use_type_invariant(&*self);
        }
        self.0.as_str()
    }

    /// The tenant id as an owned string.
    pub fn to_string(&self) -> (s: String)
        ensures
            s@ == self@,
    {
        self.0.clone()
    }
}

/// The component a tenant is currently running, plus its compiled form.
#[derive(Debug)]
pub struct ActiveComponent<C> {
    loaded: Admitted,
    compiled: C,
    digest: String,
    activated_at: Instant,
}

impl<C> ActiveComponent<C> {
    /// The artifact that is running.
    pub closed spec fn artifact(self) -> LoadedView {
        self.loaded@
    }

    /// Its compiled form.
    pub closed spec fn code(self) -> C {
        self.compiled
    }

    /// When this generation became active.
    pub closed spec fn since(self) -> Instant {
        self.activated_at
    }

    #[verifier::type_invariant]
    spec fn coherent(self) -> bool {
        self.digest@ == self.loaded@.digest
    }

    /// The generation that runs `loaded`, compiled to `compiled`, from `now`.
    pub fn new(loaded: Admitted, compiled: C, now: Instant) -> (a: ActiveComponent<C>)
        ensures
            a.artifact() == loaded@,
            a.code() == compiled,
            a.since() == now,
    {
        let digest: String = loaded.loaded().digest.clone();
        ActiveComponent { loaded, compiled, digest, activated_at: now }
    }

    /// Validated artifact metadata and bytes. What is active satisfies the
    /// guest contract.
    pub fn loaded(&self) -> (l: &Loaded)
        ensures
            l@ == self.artifact(),
            crate::component::loader::honors_contract(l@.exports),
    {
        self.loaded.loaded()
    }

    /// Compiled component bound to the runtime engine.
    pub fn compiled(&self) -> (c: &C)
        ensures
            *c == self.code(),
    {
        &self.compiled
    }

    /// Active content digest, which is that of the artifact.
    pub fn digest(&self) -> (d: &str)
        ensures
            d@ == self.artifact().digest,
    {
        proof {
            use_type_invariant(&*self);
        }
        self.digest.as_str()
    }

    /// When this generation became active.
    pub fn activated_at(&self) -> (i: Instant)
        ensures
            i == self.since(),
    {
        self.activated_at
    }
}

/// A registered tenant.
#[derive(Debug)]
pub struct Tenant<C, I> {
    /// Unique id, also the ingress route prefix.
    pub id: TenantId,
    /// The tenant's resource ceilings.
    pub limits: SandboxLimits,
    /// Where this tenant's component is sourced from.
    pub source: ComponentSource,
    /// The currently active component; swapped as a whole on reload.
    pub active: ActiveComponent<C>,
    /// Pool of prepared instances for the active generation.
    pub pool: InstancePool<I>,
    /// Consecutive failed pulls (reload loop bookkeeping).
    pub failures: usize,
    /// Invocations delivered since activation.
    pub invocations: u64,
    /// Time of the last swap, for reload debouncing.
    pub last_swap: Instant,
}

/// What the reload loop is to do about a tenant.
#[derive(Debug)]
pub enum PollAction {
    /// Nothing now.
    Skip,
    /// Pull the reference, applying the pin.
    Pull { reference: String, pin: Option<String> },
}

/// What a [`PollAction`] says.
pub enum PollView {
    Skip,
    Pull { reference: Seq<char>, pin: Option<Seq<char>> },
}

impl View for PollAction {
    type V = PollView;

    open spec fn view(&self) -> PollView {
        match self {
            PollAction::Skip => PollView::Skip,
            PollAction::Pull { reference, pin } => PollView::Pull {
                reference: reference@,
                pin: crate::text::opt_view(*pin),
            },
        }
    }
}

/// What the reload loop is to do about a tenant with the given source that
/// was last swapped at `last_swap`: pull, if it comes from a registry, is not
/// `parked`, and the debounce window is over.
pub open spec fn poll_view(
    source: SourceView,
    last_swap: nat,
    now: nat,
    debounce: nat,
    parked: bool,
) -> PollView {
    match source {
        SourceView::File { .. } => PollView::Skip,
        SourceView::Oci { reference, pin } => if parked || crate::time::elapsed(last_swap, now)
            < debounce {
            PollView::Skip
        } else {
            PollView::Pull { reference, pin }
        },
    }
}

/// The pin of a tenant with the given source.
pub open spec fn pin_of(source: SourceView) -> Option<Seq<char>> {
    match source {
        SourceView::Oci { pin, .. } => pin,
        SourceView::File { .. } => None,
    }
}

/// What the reload loop is to do after a pull.
#[derive(Debug)]
pub enum PullStep {
    /// Refuse the component with this error; the tenant is as it was.
    Refused(Error),
    /// Compile this component and swap it in.
    Compile(Admitted),
    /// Nothing: the active digest is up to date.
    Unchanged,
    /// Try again on the next pass.
    Retry { failures: usize, error: Error },
    /// Report that the failure budget is exhausted; the active digest stays.
    Parked { failures: usize, error: Error, updates: Vec<Update> },
}

/// Whether two states of a tenant differ at most in the failure count.
pub open spec fn same_but_failures<C, I>(a: Tenant<C, I>, b: Tenant<C, I>) -> bool {
    &&& a.id == b.id
    &&& a.limits == b.limits
    &&& a.source == b.source
    &&& a.active == b.active
    &&& a.pool == b.pool
    &&& a.invocations == b.invocations
    &&& a.last_swap == b.last_swap
}

impl<C, I> Tenant<C, I> {
    /// What the reload loop is to do about this tenant at `now`: at most one
    /// swap per tenant per debounce window, and nothing once the failure
    /// budget is spent. A parked tenant stays on its last known good digest.
    pub fn poll(&self, policy: &HotReloadPolicy, now: Instant) -> (a: PollAction)
        ensures
            a@ == poll_view(
                self.source@,
                self.last_swap.nanos(),
                now.nanos(),
                policy.debounce.nanos(),
                policy.spent(self.failures as nat),
            ),
    {
        match &self.source {
            ComponentSource::File { .. } => PollAction::Skip,
            ComponentSource::Oci { reference, pin } => {
                if policy.exhausted(self.failures) {
                    return PollAction::Skip;
                }
                let since: Duration = now.saturating_duration_since(&self.last_swap);
                if since.shorter_than(&policy.debounce) {
                    return PollAction::Skip;
                }
                PollAction::Pull { reference: reference.clone(), pin: copied_option(pin) }
            },
        }
    }

    /// Take in what a pull returned, held to the tenant's pin as the policy
    /// requires it. A component that breaks the guest contract is refused;
    /// one with a new digest is to be compiled; one with the active digest is
    /// a no-op. A failed pull counts against the failure budget. Whatever came
    /// back, the active generation stays.
    pub fn pulled(&mut self, policy: &HotReloadPolicy, pulled: Result<Loaded, Error>) -> (s:
        PullStep)
        requires
            crate::registry::held_to_pin(
                policy.require_pinned,
                pin_of(old(self).source@),
                crate::component::loader::load_outcome(pulled),
            ) is Err ==> old(self).failures < usize::MAX,
        ensures
            same_but_failures(*final(self), *old(self)),
            match crate::registry::held_to_pin(
                policy.require_pinned,
                pin_of(old(self).source@),
                crate::component::loader::load_outcome(pulled),
            ) {
                Ok(loaded) => match crate::component::loader::violation(loaded.exports) {
                    Some(reason) => {
                        &&& s matches PullStep::Refused(e)
                        &&& e@ == ErrorView::Contract(reason)
                        &&& final(self).failures == old(self).failures
                    },
                    None => if crate::registry::store::is_change(
                        Some(old(self).active.artifact().digest),
                        loaded.digest,
                    ) {
                        &&& s matches PullStep::Compile(next)
                        &&& next@ == loaded
                        &&& final(self).failures == old(self).failures
                    } else {
                        &&& s is Unchanged
                        &&& final(self).failures == 0
                    },
                },
                Err(error) => {
                    &&& final(self).failures == old(self).failures + 1
                    &&& if policy.spent(final(self).failures as nat) {
                        &&& s matches PullStep::Parked { failures, error: e, updates }
                        &&& failures == final(self).failures
                        &&& e@ == error
                        &&& crate::telemetry::update_views(updates@)
                            == crate::telemetry::parked_updates(old(self).id@, failures)
                    } else {
                        &&& s matches PullStep::Retry { failures, error: e }
                        &&& failures == final(self).failures
                        &&& e@ == error
                    }
                },
            },
    {
        let none: Option<String> = None;
        let held: Result<Loaded, Error> = match &self.source {
            ComponentSource::Oci { pin, .. } => policy.hold_to_pin(pin, pulled),
            ComponentSource::File { .. } => policy.hold_to_pin(&none, pulled),
        };
        match held {
            Ok(loaded) => {
                let next: Admitted = match Admitted::check(loaded) {
                    Ok(a) => a,
                    Err(e) => {
                        return PullStep::Refused(e);
                    },
                };
                if policy.should_reload(
                    Some(self.active.digest()),
                    next.loaded().digest.as_str(),
                ) {
                    return PullStep::Compile(next);
                }
                self.failures = 0;
                PullStep::Unchanged
            },
            Err(error) => {
                self.failures = self.failures + 1;
                let failures: usize = self.failures;
                if policy.exhausted(failures) {
                    let updates: Vec<Update> = record_parked(self.id.as_str(), failures);
                    PullStep::Parked { failures, error, updates }
                } else {
                    PullStep::Retry { failures, error }
                }
            },
        }
    }

    /// Swap to a freshly validated component at `now`, given what compiling
    /// it returned. The new generation replaces the old one as a whole; where
    /// compiling failed, nothing changes.
    pub fn swap(&mut self, loaded: Admitted, compiled: Result<C, String>, now: Instant) -> (r: Result<
        Vec<Update>,
        Error,
    >)
        ensures
            match compiled {
                Err(reason) => {
                    &&& r is Err
                    &&& r->Err_0@ == ErrorView::Wasm(reason@)
                    &&& *final(self) == *old(self)
                },
                Ok(c) => {
                    &&& r is Ok
                    &&& crate::telemetry::update_views(r->Ok_0@)
                        == crate::telemetry::reload_updates(
                        old(self).id@,
                        Some(old(self).active.artifact().digest),
                        loaded@.digest,
                    )
                    &&& final(self).active.artifact() == loaded@
                    &&& final(self).active.code() == c
                    &&& final(self).active.since() == now
                    &&& final(self).last_swap == now
                    &&& final(self).failures == 0
                    &&& final(self).id == old(self).id
                    &&& final(self).limits == old(self).limits
                    &&& final(self).source == old(self).source
                    &&& final(self).pool == old(self).pool
                    &&& final(self).invocations == old(self).invocations
                },
            },
    {
        match compiled {
            Err(reason) => Err(Error::Wasm(reason)),
            Ok(c) => {
                let updates: Vec<Update> = record_reload(
                    self.id.as_str(),
                    Some(self.active.digest()),
                    loaded.loaded().digest.as_str(),
                );
                self.active = ActiveComponent::new(loaded, c, now);
                self.last_swap = now;
                self.failures = 0;
                Ok(updates)
            },
        }
    }
}

/// A tenant on its way to being registered.
#[derive(Debug)]
pub struct TenantPlan {
    /// The tenant's id.
    pub id: TenantId,
    /// The tenant's resource sandbox.
    pub sandbox: Sandbox,
    /// The tenant's egress bridge (policy-scoped).
    pub bridge: HttpBridge,
    /// Where the tenant's component is to be loaded from.
    pub source: ComponentSource,
}

/// A tenant that has become active.
#[derive(Debug)]
pub struct Activated<C, I> {
    /// The tenant.
    pub tenant: Tenant<C, I>,
    /// The state behind the imports of its instances.
    pub host: HostCtx,
    /// What is to be recorded.
    pub updates: Vec<Update>,
}

/// The error for a tenant that cannot be set up.
pub open spec fn setup_fault(t: TenantConfigView) -> Option<ErrorView> {
    match id_fault(t.name) {
        Some(fault) => Some(ErrorView::Config(fault)),
        None => match crate::wasi::sandbox::limits_fault(t.limits) {
            Some(fault) => Some(ErrorView::LimitExceeded(fault)),
            None => None,
        },
    }
}

impl TenantPlan {
    /// Set up a tenant: its id, its sandbox, and its egress bridge.
    pub fn new(cfg: TenantConfig) -> (r: Result<TenantPlan, Error>)
        ensures
            match setup_fault(cfg@) {
                Some(fault) => r is Err && r->Err_0@ == fault,
                None => {
                    &&& r is Ok
                    &&& r->Ok_0.id@ == cfg@.name
                    &&& r->Ok_0.sandbox.tenant@ == cfg@.name
                    &&& r->Ok_0.sandbox.limits == cfg.limits
                    &&& r->Ok_0.sandbox.config == cfg.config
                    &&& r->Ok_0.sandbox.readonly_preopens@.len() == 0
                    &&& r->Ok_0.sandbox.scratch.files() == Map::<Seq<char>, Seq<u8>>::empty()
                    &&& r->Ok_0.sandbox.scratch.quota() == cfg@.limits.memfs_quota_bytes
                    &&& r->Ok_0.bridge.egress().rules() == cfg@.limits.egress_allow
                    &&& r->Ok_0.bridge.egress().default_deny == cfg@.limits.default_deny_egress
                    &&& r->Ok_0.bridge.body_limit() == cfg@.limits.max_body_bytes
                    &&& r->Ok_0.bridge.connecting().nanos() == 3_000_000_000
                    &&& r->Ok_0.source == cfg.component
                },
            },
    {
        let id: TenantId = match TenantId::new(cfg.name.as_str()) {
            Ok(id) => id,
            Err(e) => {
                return Err(e);
            },
        };
        let body_limit: usize = cfg.limits.max_body_bytes;
        let sandbox: Sandbox = match Sandbox::new(id.clone(), cfg.limits, cfg.config) {
            Ok(s) => s,
            Err(e) => {
                return Err(e);
            },
        };
        proof {
            assert(crate::wasi::sandbox::preopen_views(sandbox.readonly_preopens@).len()
                == sandbox.readonly_preopens@.len());
        }
        let bridge: HttpBridge = HttpBridge::new(sandbox.egress_policy(), body_limit);
        Ok(TenantPlan { id, sandbox, bridge, source: cfg.component })
    }

    /// Decide on the component that was loaded for a tenant: it must satisfy
    /// the guest contract.
    pub fn check_component(loaded: Result<Loaded, Error>) -> (r: Result<Admitted, Error>)
        ensures
            match loaded {
                Err(e) => r is Err && r->Err_0 == e,
                Ok(l) => match crate::component::loader::violation(l@.exports) {
                    None => r is Ok && r->Ok_0@ == l@,
                    Some(reason) => r is Err && r->Err_0@ == ErrorView::Contract(reason),
                },
            },
    {
        match loaded {
            Err(e) => Err(e),
            Ok(l) => Admitted::check(l),
        }
    }

    /// Activate a tenant at `now` with its first component, given what
    /// compiling it returned.
    pub fn activate<C, I>(
        self,
        loaded: Admitted,
        compiled: Result<C, String>,
        now: Instant,
    ) -> (r: Result<Activated<C, I>, Error>)
        ensures
            match compiled {
                Err(reason) => r is Err && r->Err_0@ == ErrorView::Wasm(reason@),
                Ok(c) => {
                    &&& r is Ok
                    &&& r->Ok_0.tenant.id == self.id
                    &&& r->Ok_0.tenant.limits@ == self.sandbox.limits@
                    &&& r->Ok_0.tenant.source == self.source
                    &&& r->Ok_0.tenant.active.artifact() == loaded@
                    &&& r->Ok_0.tenant.active.code() == c
                    &&& r->Ok_0.tenant.active.since() == now
                    &&& r->Ok_0.tenant.pool.queue() == Seq::<Prepared<I>>::empty()
                    &&& r->Ok_0.tenant.pool.capacity() == (if self.sandbox.limits@.max_instances
                        == 0 {
                        1
                    } else {
                        self.sandbox.limits@.max_instances
                    })
                    &&& r->Ok_0.tenant.failures == 0
                    &&& r->Ok_0.tenant.invocations == 0
                    &&& r->Ok_0.tenant.last_swap == now
                    &&& r->Ok_0.host.sandbox == self.sandbox
                    &&& r->Ok_0.host.egress == self.bridge
                    &&& crate::telemetry::update_views(r->Ok_0.updates@)
                        == crate::telemetry::reload_updates(self.id@, None, loaded@.digest)
                },
            },
    {
        match compiled {
            Err(reason) => Err(Error::Wasm(reason)),
            Ok(c) => {
                let updates: Vec<Update> = record_reload(
                    self.id.as_str(),
                    None,
                    loaded.loaded().digest.as_str(),
                );
                let limits: SandboxLimits = self.sandbox.limits.clone();
                let pool: InstancePool<I> = InstancePool::new(limits.max_instances);
                let tenant = Tenant {
                    id: self.id,
                    limits,
                    source: self.source,
                    active: ActiveComponent::new(loaded, c, now),
                    pool,
                    failures: 0,
                    invocations: 0,
                    last_swap: now,
                };
                let host: HostCtx = HostCtx::new(self.sandbox, self.bridge);
                Ok(Activated { tenant, host, updates })
            },
        }
    }
}

/// The assembled runtime. `H` is the handle by which tenants are shared.
#[derive(Debug)]
pub struct Runtime<H> {
    /// Default outbound bridge for the ingress.
    pub bridge: HttpBridge,
    /// Module distribution channel.
    pub registry: Registry,
    /// Ingress tuning.
    pub http: HttpConfig,
    /// Address the HTTP ingress binds to.
    pub bind: String,
    /// Reload governance.
    pub policy: HotReloadPolicy,
    /// Tenant registry, by tenant id.
    pub tenants: Table<H>,
}

/// A runtime whose tenants are still to be loaded.
#[derive(Debug)]
pub struct Assembly<H> {
    /// The runtime.
    pub runtime: Runtime<H>,
    /// How its engine is to be set up.
    pub engine: EnginePlan,
    /// How often the epoch ticker is to tick; `None` where it is disabled.
    pub ticker: Option<Duration>,
    /// The tenants to load, in order.
    pub pending: Vec<TenantConfig>,
}

/// Whether `p` is the default reload policy with the given poll interval.
pub open spec fn is_reload_policy(p: HotReloadPolicy, interval: nat) -> bool {
    &&& p.poll_interval.nanos() == interval
    &&& p.debounce.nanos() == 5_000_000_000
    &&& !p.require_pinned
    &&& p.max_failed_polls == 3
}

impl<H> Runtime<H> {
    /// The handles of the tenants, by tenant id.
    pub open spec fn registered(self) -> Map<Seq<char>, H> {
        self.tenants@
    }

    /// Assemble a runtime from a validated [`Config`]: engine set-up, default
    /// bridge, and registry. `user` and `password` are the registry
    /// credentials of the environment, and `created` is what creating the
    /// cache directory returned.
    pub fn build(
        config: Config,
        user: Option<String>,
        password: Option<String>,
        created: Result<(), String>,
    ) -> (r: Result<Assembly<H>, Error>)
        ensures
            match created {
                Err(reason) => r is Err && r->Err_0@ == ErrorView::Io(reason@),
                Ok(()) => {
                    let interval = (crate::config::at_least_one(
                        config@.registry.pull_interval_secs,
                    ) * 1_000_000_000) as nat;
                    let rt = r->Ok_0.runtime;
                    &&& r is Ok
                    &&& r->Ok_0.pending == config.tenants
                    &&& r->Ok_0.engine == crate::runtime::engine::plan_for(
                        EngineCap {
                            max_memory_bytes: config@.engine.max_memory_bytes,
                            max_instances: config@.engine.max_instances,
                            threads: config@.engine.threads,
                        },
                    )
                    &&& match r->Ok_0.ticker {
                        Some(d) => config@.engine.epoch_interval_ms > 0 && d.nanos()
                            == config@.engine.epoch_interval_ms * 1_000_000,
                        None => config@.engine.epoch_interval_ms == 0,
                    }
                    &&& rt.registered() == Map::<Seq<char>, H>::empty()
                    &&& rt.bind == config.bind
                    &&& rt.http == config.http
                    &&& rt.bridge.egress().rules() == Seq::<Seq<char>>::empty()
                    &&& rt.bridge.egress().default_deny
                    &&& rt.bridge.body_limit() == config@.http.max_body_bytes
                    &&& rt.bridge.connecting().nanos() == 3_000_000_000
                    &&& is_reload_policy(rt.policy, interval)
                    &&& is_reload_policy(rt.registry.policy, interval)
                    &&& rt.registry.oci.settings().endpoint@ == config@.registry.endpoint
                    &&& rt.registry.oci.settings().insecure == config@.registry.insecure
                    &&& rt.registry.oci.settings().cache_dir@ == config@.registry.cache_dir
                    &&& rt.registry.oci.settings().manifest_cache_ttl.nanos() == interval
                    &&& rt.registry.oci.cache() == config@.registry.cache_dir
                    &&& rt.registry.oci.speaks() == (if config@.registry.insecure {
                        Protocol::Http
                    } else {
                        Protocol::Https
                    })
                    &&& rt.registry.oci.identity() == (match (user, password) {
                        (Some(u), Some(p)) => AuthView::Basic { user: u@, password: p@ },
                        _ => AuthView::Anonymous,
                    })
                },
            },
    {
        let builder: EngineBuilder = EngineBuilder::from_config(&config.engine);
        let engine: EnginePlan = builder.build();
        let ticker: Option<Duration> = builder.ticker_interval();
        let interval: Duration = config.registry.pull_interval();
        let policy: HotReloadPolicy = HotReloadPolicy {
            poll_interval: interval,
            ..HotReloadPolicy::default()
        };
        let bridge: HttpBridge = HttpBridge::new(
            EgressPolicy::default(),
            config.http.max_body_bytes,
        );
        let client: OciClient = match OciClient::new(
            OciClientConfig {
                endpoint: config.registry.endpoint,
                insecure: config.registry.insecure,
                cache_dir: config.registry.cache_dir,
                manifest_cache_ttl: interval,
            },
            user,
            password,
            created,
        ) {
            Ok(c) => c,
            Err(e) => {
                return Err(e);
            },
        };
        let runtime: Runtime<H> = Runtime {
            bridge,
            registry: Registry::new(client, policy),
            http: config.http,
            bind: config.bind,
            policy,
            tenants: Table::new(),
        };
        Ok(Assembly { runtime, engine, ticker, pending: config.tenants })
    }

    /// Register a tenant under its id, in place of one that had it before.
    pub fn load_tenant(&mut self, id: &TenantId, handle: H)
        ensures
            final(self).registered() == old(self).registered().insert(id@, handle),
            final(self).bridge == old(self).bridge,
            final(self).registry == old(self).registry,
            final(self).http == old(self).http,
            final(self).bind == old(self).bind,
            final(self).policy == old(self).policy,
    {
        self.tenants.insert(id.to_string(), handle);
    }

    /// Look up a tenant by id.
    pub fn tenant(&self, id: &TenantId) -> (r: Option<&H>)
        ensures
            match r {
                Some(h) => self.registered().dom().contains(id@) && *h == self.registered()[id@],
                None => !self.registered().dom().contains(id@),
            },
    {
        self.tenants.get(id.as_str())
    }

    /// The tenant that a request is dispatched to.
    pub fn route(&self, id: &TenantId) -> (r: Result<&H, Error>)
        ensures
            match r {
                Ok(h) => self.registered().dom().contains(id@) && *h == self.registered()[id@],
                Err(e) => !self.registered().dom().contains(id@) && e@ == ErrorView::TenantNotFound(
                    id@,
                ),
            },
    {
        match self.tenants.get(id.as_str()) {
            Some(h) => Ok(h),
            None => Err(Error::TenantNotFound(id.to_string())),
        }
    }

    /// Snapshot the tenant registry (for metrics and the reload loop): every
    /// tenant once.
    pub fn snapshot_tenants(&self) -> (v: Vec<&H>)
        ensures
            v@.len() == self.registered().dom().len(),
            v@.len() == self.tenants.entries().len(),
            forall|i: int|
                0 <= i < v@.len() ==> *(#[trigger] v@[i]) == self.tenants.entries()[i].value,
            forall|i: int|
                0 <= i < v@.len() ==> {
                    let k = (#[trigger] self.tenants.entries()[i]).key@;
                    self.registered().dom().contains(k) && self.registered()[k] == *v@[i]
                },
            forall|i: int, j: int|
                0 <= i < j < v@.len() ==> (#[trigger] self.tenants.entries()[i]).key@ != (
                #[trigger] self.tenants.entries()[j]).key@,
            forall|k: Seq<char>| #[trigger]
                self.registered().dom().contains(k) ==> exists|i: int|
                    0 <= i < v@.len() && (#[trigger] self.tenants.entries()[i]).key@ == k && *v@[i]
                        == self.registered()[k],
    {
        let n: usize = self.tenants.len();
        let mut v: Vec<&H> = Vec::new();
        let mut i: usize = 0;
        while i < n
            invariant
                i <= n,
                n == self.tenants.entries().len(),
                v@.len() == i,
                forall|j: int|
                    0 <= j < i ==> *(#[trigger] v@[j]) == self.tenants.entries()[j].value,
                forall|j: int|
                    0 <= j < i ==> {
                        let k = (#[trigger] self.tenants.entries()[j]).key@;
                        self.registered().dom().contains(k) && self.registered()[k] == *v@[j]
                    },
            decreases n - i,
        {
            let e: &Entry<H> = self.tenants.entry(i);
            v.push(&e.value);
            i = i + 1;
        }
        proof {
            let entries = self.tenants.entries();
            assert forall|k: Seq<char>| #[trigger] self.registered().dom().contains(k) implies exists|
                i: int,
            |
                0 <= i < v@.len() && (#[trigger] entries[i]).key@ == k && *v@[i]
                    == self.registered()[k] by {
                let i = choose|i: int| 0 <= i < entries.len() && (#[trigger] entries[i]).key@ == k;
                assert(entries[i].key@ == k);
            }
        }
        v
    }

    /// Number of registered tenants.
    pub fn tenant_count(&self) -> (n: usize)
        ensures
            n == self.registered().dom().len(),
    {
        self.tenants.len()
    }
}

/// Two swaps of a tenant are at least a debounce window apart: the second one
/// follows a poll that found the window over, and happens no earlier than it.
pub proof fn law_debounce_separates_swaps(
    source: SourceView,
    first_swap: nat,
    polled: nat,
    second_swap: nat,
    debounce: nat,
    parked: bool,
)
    requires
        poll_view(source, first_swap, polled, debounce, parked) is Pull,
        polled <= second_swap,
        debounce > 0,
    ensures
        first_swap + debounce <= second_swap,
{
}

/// A tenant that comes from a local file is never polled.
pub proof fn law_file_tenants_are_not_polled(
    path: Seq<char>,
    last_swap: nat,
    now: nat,
    debounce: nat,
    parked: bool,
)
    ensures
        poll_view(SourceView::File { path }, last_swap, now, debounce, parked) is Skip,
{
}

/// A tenant whose failure budget is spent is not pulled again, at any time:
/// it stays on its last known good digest.
pub proof fn law_parked_tenant_is_not_pulled(
    policy: HotReloadPolicy,
    failures: nat,
    source: SourceView,
    last_swap: nat,
    now: nat,
)
    requires
        policy.spent(failures),
    ensures
        poll_view(
            source,
            last_swap,
            now,
            policy.debounce.nanos(),
            policy.spent(failures),
        ) is Skip,
{
}

/// A tenant is reported as parked once: a pull that the loop asks for parks
/// it exactly when its failure is the one that fills the budget.
pub proof fn law_parking_is_reported_once(
    policy: HotReloadPolicy,
    failures: nat,
    source: SourceView,
    last_swap: nat,
    now: nat,
)
    requires
        poll_view(
            source,
            last_swap,
            now,
            policy.debounce.nanos(),
            policy.spent(failures),
        ) is Pull,
    ensures
        policy.spent(failures + 1) == (failures + 1 == policy.max_failed_polls),
        failures < usize::MAX,
{
}

/// A pinned tenant is only ever asked to compile bytes that have its pin as
/// their digest, under that digest: whatever the registry serves, it never
/// activates anything else.
pub proof fn law_pinned_tenant_stays_on_pin(
    reference: Seq<char>,
    pin: Seq<char>,
    last_swap: nat,
    now: nat,
    debounce: nat,
    parked: bool,
    fetched: Result<LoadedView, ErrorView>,
)
    ensures
        match poll_view(
            SourceView::Oci { reference, pin: Some(pin) },
            last_swap,
            now,
            debounce,
            parked,
        ) {
            PollView::Skip => true,
            PollView::Pull { reference: r, pin: p } => {
                &&& r == reference
                &&& p == Some(pin)
                &&& match crate::registry::pulled(fetched, p) {
                    Ok(l) => l.digest == pin && crate::hash::content_digest(l.bytes) == pin,
                    Err(_) => true,
                }
            },
        },
{
    crate::registry::law_pinned_pull_yields_the_pin(fetched, pin);
}

/// The failure budget counts consecutive failures: after `n` failed pulls in
/// a row the tenant is parked exactly when `n` has reached the budget.
/// `counts` holds the failure count before the first pull and after each.
pub proof fn law_parked_after_budget(policy: HotReloadPolicy, counts: Seq<nat>, n: int)
    requires
        0 <= n < counts.len(),
        counts[0] == 0,
        forall|i: int| 0 < i < counts.len() ==> #[trigger] counts[i] == counts[i - 1] + 1,
    ensures
        counts[n] == n,
        policy.spent(counts[n]) == (n >= policy.max_failed_polls),
    decreases n,
{
    if n > 0 {
        law_parked_after_budget(policy, counts, n - 1);
    }
}

/// A valid tenant id is a path segment of 1 to 64 characters: a request for
/// `/{id}/{rest}` reaches the tenant's component as `/{rest}`.
pub proof fn law_tenant_id_is_a_path_segment(id: Seq<char>, rest: Seq<char>)
    requires
        id_fault(id) is None,
    ensures
        1 <= id.len() <= MAX_TENANT_ID_LEN,
        crate::http::ingress::component_path(seq!['/'] + id + seq!['/'] + rest) == seq!['/'] + rest,
{
    assert(vstd::utf8::is_ascii_chars(id)) by {
        assert forall|i| 0 <= i < id.len() implies '\0' <= #[trigger] id[i] <= '\u{7f}' by {
            assert(is_id_char(id[i]));
        }
    }
    vstd::utf8::is_ascii_chars_encode_utf8(id);
    assert(!id.contains('/')) by {
        if id.contains('/') {
            let i = choose|i: int| 0 <= i < id.len() && id[i] == '/';
            assert(is_id_char(id[i]));
        }
    }
    crate::http::ingress::law_component_sees_the_remainder(id, rest);
}

/// A tenant from a registry that is not parked is pulled by its reference and
/// its pin as soon as the debounce window is over, however long that is ago.
pub proof fn law_due_tenant_is_pulled(
    reference: Seq<char>,
    pin: Option<Seq<char>>,
    last_swap: nat,
    now: nat,
    debounce: nat,
)
    requires
        crate::time::elapsed(last_swap, now) >= debounce,
    ensures
        poll_view(SourceView::Oci { reference, pin }, last_swap, now, debounce, false) == (
        PollView::Pull { reference, pin }),
{
}

/// A tenant that is to be pulled is to be pulled at every later time too, in
/// the same way, as long as it was not swapped and its failures are the same.
pub proof fn law_pull_stays_due(
    source: SourceView,
    last_swap: nat,
    now: nat,
    later: nat,
    debounce: nat,
    parked: bool,
)
    requires
        poll_view(source, last_swap, now, debounce, parked) is Pull,
        now <= later,
    ensures
        poll_view(source, last_swap, later, debounce, parked) == poll_view(
            source,
            last_swap,
            now,
            debounce,
            parked,
        ),
{
}

/// A tenant is left alone exactly where it comes from a file, is parked, or
/// was swapped less than the debounce window ago.
pub proof fn law_tenant_is_skipped_for_a_reason(
    source: SourceView,
    last_swap: nat,
    now: nat,
    debounce: nat,
    parked: bool,
)
    ensures
        poll_view(source, last_swap, now, debounce, parked) is Skip <==> source is File || parked
            || crate::time::elapsed(last_swap, now) < debounce,
        poll_view(source, last_swap, now, debounce, parked) matches PollView::Pull {
            reference,
            pin,
        } ==> source == (SourceView::Oci { reference, pin }),
{
}

/// A tenant id is valid exactly where it has 1 to 64 characters, each of them
/// an ASCII letter, a digit, a hyphen or an underscore.
pub proof fn law_valid_tenant_ids(name: Seq<char>)
    ensures
        id_fault(name) is None <==> 1 <= name.len() <= 64 && forall|i: int|
            0 <= i < name.len() ==> 'a' <= #[trigger] name[i] <= 'z' || 'A' <= name[i] <= 'Z'
                || '0' <= name[i] <= '9' || name[i] == '-' || name[i] == '_',
{
    let allowed = forall|i: int|
        0 <= i < name.len() ==> 'a' <= #[trigger] name[i] <= 'z' || 'A' <= name[i] <= 'Z' || '0'
            <= name[i] <= '9' || name[i] == '-' || name[i] == '_';
    if allowed {
        assert(all_id_chars(name)) by {
            assert forall|i: int| 0 <= i < name.len() implies is_id_char(#[trigger] name[i]) by {}
        }
    }
    if all_id_chars(name) {
        assert(allowed) by {
            assert forall|i: int| 0 <= i < name.len() implies 'a' <= #[trigger] name[i] <= 'z'
                || 'A' <= name[i] <= 'Z' || '0' <= name[i] <= '9' || name[i] == '-' || name[i]
                == '_' by {
                assert(is_id_char(name[i]));
            }
        }
        assert(vstd::utf8::is_ascii_chars(name)) by {
            assert forall|i| 0 <= i < name.len() implies '\0' <= #[trigger] name[i]
                <= '\u{7f}' by {
                assert(is_id_char(name[i]));
            }
        }
        vstd::utf8::is_ascii_chars_encode_utf8(name);
    }
}

/// What is wrong with a tenant id names the id, unless it is empty.
pub proof fn law_id_faults_name_the_id(name: Seq<char>)
    requires
        name.len() > 0,
    ensures
        id_fault(name) matches Some(m) ==> exists|a: Seq<char>, b: Seq<char>| #[trigger]
            (a + name + b) == m,
{
    if vstd::utf8::encode_utf8(name).len() > MAX_TENANT_ID_LEN {
        let b = "` exceeds "@ + crate::text::decimal(MAX_TENANT_ID_LEN as nat) + " characters"@;
        assert("tenant id `"@ + name + b =~= id_fault(name)->0);
    } else if !all_id_chars(name) {
        assert("tenant id `"@ + name + "` may only contain [a-zA-Z0-9-_]"@ == id_fault(name)->0);
    }
}

/// A tenant can be set up exactly where its id and its limits have no fault;
/// a faulty id is one of the configuration, faulty limits are
/// limits exceeded.
pub proof fn law_set_up_needs_id_and_limits(t: TenantConfigView)
    ensures
        setup_fault(t) is None <==> id_fault(t.name) is None
            && crate::wasi::sandbox::limits_fault(t.limits) is None,
        id_fault(t.name) is Some ==> setup_fault(t) == Some(
            ErrorView::Config(id_fault(t.name)->0),
        ),
        id_fault(t.name) is None && crate::wasi::sandbox::limits_fault(t.limits) is Some
            ==> setup_fault(t) == Some(
            ErrorView::LimitExceeded(crate::wasi::sandbox::limits_fault(t.limits)->0),
        ),
{
}

/// The pin of a tenant is the one of its registry source; a file has none.
pub proof fn law_pin_comes_from_the_source(
    reference: Seq<char>,
    pin: Option<Seq<char>>,
    path: Seq<char>,
)
    ensures
        pin_of(SourceView::Oci { reference, pin }) == pin,
        pin_of(SourceView::File { path }) is None,
{
}

/// States of a tenant that differ at most in the failure count are the same
/// where that is the same.
pub proof fn law_failures_are_all_that_may_differ<C, I>(a: Tenant<C, I>, b: Tenant<C, I>)
    requires
        same_but_failures(a, b),
        a.failures == b.failures,
    ensures
        a == b,
{
}

/// A default reload policy waits five seconds between swaps, takes tags
/// without a pin and parks at the third failure, whatever its interval.
pub proof fn law_default_reload_policy(p: HotReloadPolicy, interval: nat)
    requires
        is_reload_policy(p, interval),
    ensures
        p.poll_interval.nanos() == interval,
        p.debounce.nanos() == 5 * 1_000_000_000,
        !p.require_pinned,
        !p.spent(2),
        p.spent(3),
{
}

/// All that a poll asks for can be seen.
pub proof fn law_polls_are_seen_whole(reference: String, pin: Option<String>)
    ensures
        PollAction::Skip@ is Skip,
        (PollAction::Pull { reference, pin })@ == (PollView::Pull {
            reference: reference@,
            pin: crate::text::opt_view(pin),
        }),
{
}

} // verus!
