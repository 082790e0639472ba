//! Engine set-up, instance pools, invocation and hot reload.

use ember::component::linker::{HttpRequest, Response};
use ember::component::loader::{Admitted, Loaded};
use ember::config::{ComponentSource, Config, TenantConfig};
use ember::registry::oci::{Auth, Protocol};
use ember::registry::HotReloadPolicy;
use ember::runtime::engine::{
    build_default_engine, engine_limits, EngineBuilder, EngineCap,
};
use ember::runtime::invoke::{pool_capacity, CallOutcome, InstancePool, Prepared};
use ember::runtime::{PollAction, PullStep, Runtime, Tenant, TenantId, TenantPlan};
use ember::table::Table;
use ember::telemetry::Update;
use ember::time::{Duration, Instant};
use ember::wasi::SandboxLimits;
use ember::Error;

fn at(secs: u64) -> Instant {
    Instant::at(Duration::from_secs(secs))
}

fn loaded(digest: &str, export: &str) -> Loaded {
    Loaded {
        source: "test".to_string(),
        bytes: vec![1],
        digest: digest.to_string(),
        size: 1,
        world_id: None,
        exports: vec![export.to_string()],
    }
}

fn admitted(digest: &str) -> Admitted {
    Admitted::check(loaded(digest, "handler")).unwrap()
}

fn oci(pin: Option<&str>) -> ComponentSource {
    ComponentSource::Oci {
        reference: "ghcr.io/acme/echo:latest".to_string(),
        pin: pin.map(|p| p.to_string()),
    }
}

fn config(name: &str, component: ComponentSource) -> TenantConfig {
    TenantConfig {
        name: name.to_string(),
        component,
        limits: SandboxLimits::default(),
        config: Table::new(),
    }
}

fn tenant(component: ComponentSource) -> Tenant<u8, u32> {
    TenantPlan::new(config("echo", component))
        .unwrap()
        .activate(admitted("sha256:a"), Ok(1), at(100))
        .unwrap()
        .tenant
}

fn request(path: &str) -> HttpRequest {
    HttpRequest {
        method: "POST".to_string(),
        path: path.to_string(),
        query: Some("q=1".to_string()),
        headers: vec![
            ("a".to_string(), b"1".to_vec()),
            ("b".to_string(), vec![0xff]),
            ("a".to_string(), b"2".to_vec()),
        ],
        body: b"body".to_vec(),
    }
}

fn response(status: u16) -> Response {
    Response {
        status,
        headers: vec![("X-Y".to_string(), "z".to_string())],
        body: b"pong".to_vec(),
    }
}

fn prepared(digest: &str, instance: u32) -> Prepared<u32> {
    Prepared {
        digest: digest.to_string(),
        instance,
    }
}

#[test]
fn pages_per_instance_at_least_one() {
    let cap = EngineCap {
        max_memory_bytes: 0,
        max_instances: 1,
        threads: 1,
    };
    let pages = (cap.max_memory_bytes / (64 * 1024)).max(1);
    assert_eq!(pages, 1);
    assert_eq!(EngineBuilder::new(cap).build().total_memory_pages, 1);
}

#[test]
fn engine_limits_forward_sandbox_budget() {
    let l = SandboxLimits {
        max_memory_bytes: 64 * 1024 * 1024,
        max_instances: 4,
        ..SandboxLimits::default()
    };
    assert_eq!(engine_limits(&l), (64 * 1024 * 1024, 4));
}

#[test]
fn pool_capacity_is_bounded_by_engine() {
    let limits = SandboxLimits::default();
    let cap = EngineCap {
        max_memory_bytes: 1 << 30,
        max_instances: 4,
        threads: 1,
    };
    assert_eq!(pool_capacity(&limits, &cap), 4);
}

#[test]
fn pool_never_creates_zero_capacity() {
    let pool: InstancePool<u32> = InstancePool::new(0);
    assert_eq!(pool.cap(), 1);
}

#[test]
fn engine_plan_follows_the_capacity() {
    let p = build_default_engine();
    assert_eq!(p.total_memory_pages, 4096);
    assert_eq!(p.instance_memory_limit, 256 * 1024 * 1024);
    assert_eq!(p.total_instances, 8);
    assert_eq!(p.max_tables_per_instance, 32);
    assert!(p.async_support && p.epoch_interruption && p.component_model);
    assert!(!p.backtrace_details);
    let c = Config::default().engine;
    let b = EngineBuilder::from_config(&c);
    assert_eq!(b.build().total_instances, 64);
    assert_eq!(b.ticker_interval().unwrap().as_millis(), 100);
    let b = b.with_epoch_interval(Duration::from_millis(0));
    assert!(b.ticker_interval().is_none());
    let limits = SandboxLimits {
        max_instances: 3,
        ..SandboxLimits::default()
    };
    let cap = EngineCap {
        max_memory_bytes: 1,
        max_instances: 9,
        threads: 1,
    };
    assert_eq!(pool_capacity(&limits, &cap), 3);
}

#[test]
fn pool_drops_stale_instances_and_stays_bounded() {
    let mut pool = InstancePool::new(3);
    for (d, i) in [("old", 1), ("new", 2), ("old", 3), ("new", 4)] {
        pool.release(prepared(d, i));
    }
    assert_eq!(pool.len(), 3);
    assert_eq!(pool.acquire("new"), Some(2));
    assert_eq!(pool.len(), 1);
    assert_eq!(pool.acquire("new"), None);
    assert_eq!(pool.len(), 0);
    pool.release(prepared("new", 5));
    assert_eq!(pool.acquire("new"), Some(5));
}

#[test]
fn activation_sets_a_tenant_up() {
    let mut c = config("echo", oci(None));
    c.limits.memfs_quota_bytes = 7;
    c.limits.max_instances = 2;
    c.limits.max_body_bytes = 9;
    c.limits.egress_allow = vec!["api.example.com".to_string()];
    c.config.insert("k".to_string(), "v".to_string());
    let plan = TenantPlan::new(c).unwrap();
    assert_eq!(plan.id.as_str(), "echo");
    assert_eq!(plan.bridge.max_body_bytes(), 9);
    let a = plan
        .activate::<u8, u32>(admitted("sha256:a"), Ok(5), at(3))
        .unwrap();
    assert_eq!(a.tenant.pool.cap(), 2);
    assert_eq!(a.tenant.active.digest(), "sha256:a");
    assert_eq!(a.tenant.active.loaded().exports, vec!["handler"]);
    assert_eq!(*a.tenant.active.compiled(), 5);
    assert_eq!(a.tenant.active.activated_at(), at(3));
    assert_eq!(a.tenant.failures, 0);
    assert_eq!(a.host.sandbox.scratch.quota_bytes(), 7);
    assert_eq!(a.host.get_config("k"), Some("v".to_string()));
    assert!(a.host.egress.policy().allows("api.example.com"));
    assert!(!a.host.egress.policy().allows("example.com"));
    assert_eq!(a.updates.len(), 2);
    match &a.updates[0] {
        Update::Count { name, by, labels } => {
            assert_eq!(name, "ember.reload.total");
            assert_eq!(*by, 1);
            assert_eq!(labels[1], ("from".to_string(), "none".to_string()));
        }
        u => panic!("{u:?}"),
    }
}

#[test]
fn tenants_that_cannot_run_are_refused() {
    assert!(matches!(
        TenantPlan::new(config("no way", oci(None))),
        Err(Error::Config(_))
    ));
    let mut c = config("echo", oci(None));
    c.limits.max_instances = 0;
    assert!(matches!(TenantPlan::new(c), Err(Error::LimitExceeded(_))));
    assert!(matches!(
        TenantPlan::check_component(Ok(loaded("d", "nothing"))),
        Err(Error::Contract(_))
    ));
    assert!(matches!(
        TenantPlan::check_component(Err(Error::Shutdown)),
        Err(Error::Shutdown)
    ));
    assert!(TenantPlan::check_component(Ok(loaded("d", "handler"))).is_ok());
    let r = TenantPlan::new(config("echo", oci(None)))
        .unwrap()
        .activate::<u8, u32>(admitted("d"), Err("bad code".to_string()), at(0));
    assert_eq!(r.unwrap_err().to_string(), "wasmtime error: bad code");
}

#[test]
fn warm_requests_reuse_instances_of_the_active_generation() {
    let mut t = tenant(oci(None));
    let b = t.begin(request("/x"));
    assert!(b.instance.is_none());
    assert_eq!(b.ticket.digest(), "sha256:a");
    assert_eq!(b.epoch_deadline, 10_000_000);
    assert_eq!(b.budget.as_secs(), 10);
    assert_eq!(b.request.method, "POST");
    assert_eq!(b.request.path, "/x");
    assert_eq!(b.request.query.as_deref(), Some("q=1"));
    assert_eq!(b.request.body, Some(b"body".to_vec()));
    assert_eq!(
        b.request.headers,
        vec![
            ("a".to_string(), "1".to_string()),
            ("a".to_string(), "2".to_string())
        ]
    );
    let served = t
        .finish(
            b.ticket,
            CallOutcome::Responded {
                instance: 77,
                response: response(200),
            },
            Duration::from_millis(2),
        )
        .unwrap();
    assert_eq!(served.response.status, 200);
    assert_eq!(served.response.body, b"pong");
    assert_eq!(served.response.headers, vec![("x-y".to_string(), b"z".to_vec())]);
    assert_eq!(served.updates.len(), 2);
    match &served.updates[0] {
        Update::Observe { name, micros, labels } => {
            assert_eq!(name, "ember.invoke.duration_us");
            assert_eq!(*micros, 2000);
            assert_eq!(labels[0], ("digest".to_string(), "sha256:a".to_string()));
        }
        u => panic!("{u:?}"),
    }
    assert_eq!(t.invocations, 1);
    assert_eq!(t.begin(request("/y")).instance, Some(77));
}

#[test]
fn a_swap_does_not_disturb_requests_in_flight() {
    let mut t = tenant(oci(None));
    let b = t.begin(request("/x"));
    t.swap(admitted("sha256:b"), Ok(2), at(200)).unwrap();
    assert_eq!(b.ticket.digest(), "sha256:a");
    let outcome = CallOutcome::Responded {
        instance: 1,
        response: response(503),
    };
    let served = t.finish(b.ticket, outcome, Duration::from_secs(1)).unwrap();
    assert_eq!(served.updates.len(), 3);
    assert_eq!(t.pool.len(), 1);
    let next = t.begin(request("/x"));
    assert!(next.instance.is_none(), "stale instances never serve");
    assert_eq!(next.ticket.digest(), "sha256:b");
    assert_eq!(t.pool.len(), 0);
}

#[test]
fn failed_calls_keep_the_instance_out_of_the_pool() {
    let mut t = tenant(oci(None));
    t.limits.max_wall_duration = Duration::from_millis(250);
    t.limits.max_epoch_delta = 0;
    let b = t.begin(request("/x"));
    assert_eq!(b.epoch_deadline, 1);
    let e = t
        .finish(
            b.ticket,
            CallOutcome::Failed("trap: unreachable".to_string()),
            Duration::from_secs(1),
        )
        .unwrap_err();
    assert_eq!(e.to_string(), "wasmtime error: trap: unreachable");
    assert_eq!(e.status(), 500);
    let b = t.begin(request("/x"));
    let e = t
        .finish(b.ticket, CallOutcome::TimedOut, Duration::from_secs(1))
        .unwrap_err();
    assert_eq!(
        e.to_string(),
        "sandbox limit exceeded: tenant `echo` exceeded its 250ms wall-clock budget"
    );
    assert_eq!(e.status(), 429);
    assert_eq!(t.pool.len(), 0);
    assert_eq!(t.invocations, 0);
}

#[test]
fn polling_respects_source_and_debounce() {
    let policy = HotReloadPolicy::default();
    let file = tenant(ComponentSource::File {
        path: "a.wasm".to_string(),
    });
    assert!(matches!(file.poll(&policy, at(1000)), PollAction::Skip));
    let t = tenant(oci(Some("sha256:p")));
    assert!(matches!(t.poll(&policy, at(50)), PollAction::Skip));
    assert!(matches!(t.poll(&policy, at(104)), PollAction::Skip));
    match t.poll(&policy, at(105)) {
        PollAction::Pull { reference, pin } => {
            assert_eq!(reference, "ghcr.io/acme/echo:latest");
            assert_eq!(pin.as_deref(), Some("sha256:p"));
        }
        a => panic!("{a:?}"),
    }
}

#[test]
fn a_changed_digest_is_swapped_in() {
    let policy = HotReloadPolicy::default();
    let mut t = tenant(oci(None));
    t.failures = 2;
    let next = match t.pulled(&policy, Ok(loaded("sha256:b", "handler"))) {
        PullStep::Compile(l) => l,
        s => panic!("{s:?}"),
    };
    assert_eq!(t.active.digest(), "sha256:a");
    let updates = t.swap(next, Ok(9), at(300)).unwrap();
    assert_eq!(t.active.digest(), "sha256:b");
    assert_eq!(*t.active.compiled(), 9);
    assert_eq!(t.last_swap, at(300));
    assert_eq!(t.failures, 0);
    match &updates[0] {
        Update::Count { labels, .. } => assert_eq!(
            *labels,
            vec![
                ("tenant".to_string(), "echo".to_string()),
                ("from".to_string(), "sha256:a".to_string()),
                ("to".to_string(), "sha256:b".to_string()),
            ]
        ),
        u => panic!("{u:?}"),
    }
    assert!(matches!(t.poll(&policy, at(304)), PollAction::Skip));
}

#[test]
fn the_same_digest_is_a_no_op() {
    let mut t = tenant(oci(None));
    t.failures = 2;
    let s = t.pulled(
        &HotReloadPolicy::default(),
        Ok(loaded("sha256:a", "handler")),
    );
    assert!(matches!(s, PullStep::Unchanged));
    assert_eq!(t.failures, 0);
    assert_eq!(t.last_swap, at(100));
}

#[test]
fn broken_artifacts_never_become_active() {
    let mut t = tenant(oci(None));
    t.failures = 1;
    match t.pulled(
        &HotReloadPolicy::default(),
        Ok(loaded("sha256:b", "nothing")),
    ) {
        PullStep::Refused(Error::Contract(_)) => {}
        s => panic!("{s:?}"),
    }
    assert_eq!(t.failures, 1);
    let e = t
        .swap(admitted("sha256:c"), Err("no code".to_string()), at(400))
        .unwrap_err();
    assert_eq!(e.to_string(), "wasmtime error: no code");
    assert_eq!(t.active.digest(), "sha256:a");
    assert_eq!(t.last_swap, at(100));
}

#[test]
fn a_tenant_is_parked_after_its_failure_budget() {
    let policy = HotReloadPolicy::default();
    let mut t = tenant(oci(None));
    for n in 1..=4usize {
        match t.pulled(&policy, Err(Error::Oci("down".to_string()))) {
            PullStep::Retry { failures, error } => {
                assert!(n < 3);
                assert_eq!(failures, n);
                assert_eq!(error.to_string(), "oci distribution error: down");
            }
            PullStep::Parked {
                failures, updates, ..
            } => {
                assert!(n >= 3);
                assert_eq!(failures, n);
                match &updates[0] {
                    Update::Count { name, labels, .. } => {
                        assert_eq!(name, "ember.reload.parked");
                        assert_eq!(labels[1].1, n.to_string());
                    }
                    u => panic!("{u:?}"),
                }
            }
            s => panic!("{s:?}"),
        }
        assert_eq!(t.active.digest(), "sha256:a");
    }
}

#[test]
fn a_parked_tenant_is_not_pulled_again() {
    let policy = HotReloadPolicy::default();
    let mut t = tenant(oci(None));
    for n in 0..3usize {
        assert!(matches!(
            t.poll(&policy, at(1_000 + n as u64)),
            PollAction::Pull { .. }
        ));
        let s = t.pulled(&policy, Err(Error::Oci("down".to_string())));
        assert_eq!(matches!(s, PullStep::Parked { .. }), n == 2);
    }
    assert_eq!(t.failures, 3);
    for now in [0, 100, 105, 1_000_000] {
        assert!(matches!(t.poll(&policy, at(now)), PollAction::Skip));
    }
    assert_eq!(t.active.digest(), "sha256:a");
}

#[test]
fn a_required_pin_is_never_left() {
    let policy = HotReloadPolicy {
        require_pinned: true,
        ..HotReloadPolicy::default()
    };
    let mut t = tenant(oci(Some("sha256:p")));
    match t.pulled(&policy, Ok(loaded("sha256:tag", "handler"))) {
        PullStep::Retry {
            failures: 1,
            error: Error::DigestMismatch { expected, computed },
        } => {
            assert_eq!(expected, "sha256:p");
            assert_eq!(computed, "sha256:tag");
        }
        s => panic!("{s:?}"),
    }
    let s = t.pulled(&policy, Ok(loaded("sha256:p", "handler")));
    assert!(matches!(s, PullStep::Compile(_)));
    let s = t.pulled(
        &HotReloadPolicy::default(),
        Ok(loaded("sha256:tag", "handler")),
    );
    assert!(matches!(s, PullStep::Compile(_)));
    let mut free = tenant(oci(None));
    let s = free.pulled(&policy, Ok(loaded("sha256:tag", "handler")));
    assert!(matches!(s, PullStep::Compile(_)));
}

#[test]
fn runtime_is_assembled_from_the_config() {
    let mut c = Config::default();
    c.registry.pull_interval_secs = 0;
    c.registry.insecure = true;
    c.engine.epoch_interval_ms = 0;
    c.http.max_body_bytes = 5;
    c.tenants.push(config("echo", oci(None)));
    let a = Runtime::<u8>::build(c, Some("u".to_string()), Some("p".to_string()), Ok(())).unwrap();
    assert_eq!(a.pending.len(), 1);
    assert!(a.ticker.is_none());
    assert_eq!(a.engine.total_instances, 64);
    let rt = a.runtime;
    assert_eq!(rt.bind, "127.0.0.1:8080");
    assert_eq!(rt.policy.poll_interval.as_secs(), 1);
    assert_eq!(rt.policy.max_failed_polls, 3);
    assert_eq!(rt.registry.policy, rt.policy);
    assert_eq!(rt.registry.oci.protocol(), Protocol::Http);
    assert!(matches!(rt.registry.oci.auth(), Auth::Basic { .. }));
    assert_eq!(rt.registry.oci.config().manifest_cache_ttl.as_secs(), 1);
    assert_eq!(rt.bridge.max_body_bytes(), 5);
    assert_eq!(rt.bridge.connect_timeout().as_secs(), 3);
    assert!(!rt.bridge.policy().allows("http://anywhere.example"));
    assert_eq!(rt.tenant_count(), 0);
    let r = Runtime::<u8>::build(Config::default(), None, None, Err("denied".to_string()));
    assert!(matches!(r, Err(Error::Io(_))));
}

#[test]
fn runtime_registers_and_routes_tenants() {
    let mut rt = Runtime::<u8>::build(Config::default(), None, None, Ok(()))
        .unwrap()
        .runtime;
    let echo = TenantId::new("echo").unwrap();
    let ghost = TenantId::new("ghost").unwrap();
    rt.load_tenant(&echo, 1);
    rt.load_tenant(&TenantId::new("web").unwrap(), 2);
    rt.load_tenant(&echo, 3);
    assert_eq!(rt.tenant_count(), 2);
    assert_eq!(rt.tenant(&echo), Some(&3));
    assert_eq!(rt.tenant(&ghost), None);
    assert_eq!(*rt.route(&echo).unwrap(), 3);
    let e = rt.route(&ghost).unwrap_err();
    assert_eq!(e.to_string(), "tenant not found: ghost");
    assert_eq!(e.status(), 404);
    let mut all: Vec<u8> = rt.snapshot_tenants().into_iter().copied().collect();
    all.sort();
    assert_eq!(all, vec![2, 3]);
}
