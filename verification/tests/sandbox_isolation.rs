//! Sandbox isolation tests: limits, scratch quota, tenant ids, egress.

use ember::http::bridge::EgressPolicy;
use ember::runtime::TenantId;
use ember::table::Table;
use ember::time::Duration;
use ember::wasi::sandbox::{MemFs, Sandbox, SandboxLimits};
use ember::wasi::{DirProbe, Wasi};

fn tenant(name: &str) -> TenantId {
    TenantId::new(name).unwrap()
}

fn sandbox(name: &str) -> Sandbox {
    Sandbox::new(tenant(name), SandboxLimits::default(), Table::new()).unwrap()
}

#[test]
fn tenant_id_grammar_is_enforced() {
    assert!(TenantId::new("echo-api-2").is_ok());
    assert!(TenantId::new("a_b").is_ok());
    assert!(TenantId::new("").is_err());
    assert!(TenantId::new("has space").is_err());
    assert!(TenantId::new("slash/name").is_err());
    assert!(TenantId::new("café").is_err());
    let long = "x".repeat(65);
    assert!(TenantId::new(&long).is_err());
}

#[test]
fn sandbox_rejects_zero_limits() {
    let mut limits = SandboxLimits::default();
    limits.max_memory_bytes = 0;
    assert!(Sandbox::new(tenant("x"), limits, Table::new()).is_err());
}

#[test]
fn charge_memory_enforces_ceiling() {
    let s = sandbox("mem");
    assert!(s.charge_memory(1024).is_ok());
    assert!(s.charge_memory(usize::MAX).is_err());
}

#[test]
fn memfs_quota_is_per_sandbox() {
    let mut a = sandbox("a");
    let b = sandbox("b");
    let data = vec![b'x'; 2048];
    // Each sandbox has its own scratch filesystem with its own quota.
    a.scratch.write("blob", data.clone()).unwrap();
    assert_eq!(a.scratch_bytes(), 2048);
    assert_eq!(b.scratch_bytes(), 0);
    assert!(!b.scratch.contains("blob"));
    assert!(a.scratch.contains("blob"));
}

#[test]
fn sandbox_derives_egress_policy_from_limits() {
    let mut limits = SandboxLimits::default();
    limits.egress_allow = vec!["*.example.com".to_string()];
    limits.default_deny_egress = true;
    let s = Sandbox::new(tenant("eg"), limits, Table::new()).unwrap();
    let policy = s.egress_policy();
    assert!(policy.allows("api.example.com"));
    assert!(!policy.allows("evil.example.net"));
}

#[test]
fn egress_defaults_to_deny() {
    let policy = EgressPolicy::default();
    assert!(policy.default_deny);
    assert!(!policy.allows("http://anywhere.example"));
}

#[test]
fn wall_clock_budget_is_forwarded() {
    let mut limits = SandboxLimits::default();
    limits.max_wall_duration = Duration::from_millis(250);
    let s = sandbox("fast");
    let _ = s;
    assert_eq!(limits.max_wall_duration, Duration::from_millis(250));
}

#[test]
fn memfs_scratch_read_write_roundtrip() {
    let mut fs = MemFs::new(4096);
    fs.write("k.txt", b"v1".to_vec()).unwrap();
    assert_eq!(fs.read("k.txt"), Some(b"v1".to_vec()));
    assert_eq!(fs.used_bytes(), 2);
}

#[test]
fn limits_clamp_to_engine_budget() {
    let mut limits = SandboxLimits {
        max_memory_bytes: 512 * 1024 * 1024,
        max_instances: 64,
        ..SandboxLimits::default()
    };
    limits.clamp_to(256 * 1024 * 1024, 16);
    assert_eq!(limits.max_memory_bytes, 256 * 1024 * 1024);
    assert_eq!(limits.max_instances, 16);
}

#[test]
fn zero_limits_rejected() {
    let mut l = SandboxLimits::default();
    l.max_memory_bytes = 0;
    assert!(l.validate().is_err());
    l = SandboxLimits::default();
    l.max_wall_duration = Duration::from_secs(0);
    assert!(l.validate().is_err());
}

#[test]
fn memfs_accounts_writes_against_quota() {
    let mut fs = MemFs::new(1024);
    fs.write("a.txt", vec![b'a'; 512]).unwrap();
    assert_eq!(fs.used_bytes(), 512);
    // Overwrite with a larger file pushes 512 + 513 past the 1024 quota.
    assert!(fs.write("a.txt", vec![b'a'; 1025]).is_err());
    // Overwrite with a smaller file stays legal and fixes accounting.
    fs.write("a.txt", vec![b'a'; 128]).unwrap();
    assert_eq!(fs.used_bytes(), 128);
}

#[test]
fn memfs_rejects_absolute_paths() {
    let mut fs = MemFs::new(1024);
    assert!(fs.write("/etc/passwd", vec![1, 2, 3]).is_err());
}

#[test]
fn memfs_remove_returns_and_frees() {
    let mut fs = MemFs::new(1024);
    fs.write("k", vec![7; 64]).unwrap();
    assert_eq!(fs.remove("k"), Some(vec![7; 64]));
    assert_eq!(fs.used_bytes(), 0);
    assert!(fs.remove("k").is_none());
}

#[test]
fn each_zero_limit_has_its_message() {
    let mut l = SandboxLimits::default();
    l.memfs_quota_bytes = 0;
    assert_eq!(
        l.validate().unwrap_err().to_string(),
        "sandbox limit exceeded: memfs_quota_bytes must be > 0"
    );
    l.max_instances = 0;
    assert_eq!(
        l.validate().unwrap_err().to_string(),
        "sandbox limit exceeded: max_instances must be > 0"
    );
    l.max_wall_duration = Duration::from_nanos(0);
    assert_eq!(
        l.validate().unwrap_err().to_string(),
        "sandbox limit exceeded: max_wall_duration must be > 0"
    );
    l.max_memory_bytes = 0;
    assert_eq!(
        l.validate().unwrap_err().to_string(),
        "sandbox limit exceeded: max_memory_bytes must be > 0"
    );
}

#[test]
fn default_limits_are_the_documented_ones() {
    let l = SandboxLimits::default().clone();
    assert_eq!(l.max_memory_bytes, 128 * 1024 * 1024);
    assert_eq!(l.max_instances, 8);
    assert_eq!(l.max_tables, 32);
    assert_eq!(l.max_epoch_delta, 10_000_000);
    assert_eq!(l.max_wall_duration.as_secs(), 10);
    assert_eq!(l.max_body_bytes, 8 * 1024 * 1024);
    assert_eq!(l.memfs_quota_bytes, 4 * 1024 * 1024);
    assert_eq!(l.cpus, 1);
    assert!(l.egress_allow.is_empty());
    assert!(l.default_deny_egress);
}

#[test]
fn scratch_quota_is_exact() {
    let mut fs = MemFs::new(10);
    assert_eq!(fs.quota_bytes(), 10);
    fs.write("a", vec![0; 4]).unwrap();
    fs.write("b", vec![0; 6]).unwrap();
    assert_eq!(fs.used_bytes(), 10);
    assert_eq!(
        fs.write("c", vec![0; 1]).unwrap_err().to_string(),
        "sandbox limit exceeded: memfs quota of 10 bytes exceeded writing `c`"
    );
    fs.write("c", Vec::new()).unwrap();
    assert!(fs.contains("c"));
    assert!(fs.write("a", vec![0; 5]).is_err());
    assert_eq!(fs.read("a"), Some(vec![0; 4]));
    fs.write("a", vec![1; 3]).unwrap();
    fs.write("c", vec![2; 1]).unwrap();
    assert_eq!(fs.used_bytes(), 10);
    assert_eq!(fs.remove("b"), Some(vec![0; 6]));
    assert_eq!(fs.used_bytes(), 4);
    assert_eq!(
        fs.write("", Vec::new()).unwrap_err().to_string(),
        "sandbox limit exceeded: invalid scratch path ``"
    );
    assert_eq!(
        fs.write("/a", Vec::new()).unwrap_err().to_string(),
        "sandbox limit exceeded: invalid scratch path `/a`"
    );
}

#[test]
fn spellings_of_a_path_name_one_file() {
    let mut fs = MemFs::new(100);
    fs.write("a//b", vec![1]).unwrap();
    fs.write("a/./b/", vec![1, 2]).unwrap();
    assert_eq!(fs.used_bytes(), 2);
    assert_eq!(fs.read("a/b"), Some(vec![1, 2]));
    assert_eq!(fs.read("./a/b"), None);
    assert_eq!(fs.read("/a/b"), None);
    assert_eq!(fs.read("a/../b"), None);
    fs.write("./a/b", vec![3]).unwrap();
    assert_eq!(fs.used_bytes(), 3);
    assert_eq!(fs.read("././a/b"), Some(vec![3]));
}

#[test]
fn preopens_and_environment_reach_the_guest() {
    let s = sandbox("acme")
        .with_preopen("/data", "/srv/data")
        .with_preopen("/www", "/srv/www");
    let w = Wasi::new(&s);
    assert!(w.inherit_stdio);
    assert_eq!(
        w.env,
        vec![
            ("EMBER_TENANT".to_string(), "acme".to_string()),
            ("EMBER_SCRATCH_QUOTA".to_string(), "4194304".to_string()),
        ]
    );
    assert_eq!(
        w.preopens,
        vec![
            ("/data".to_string(), "/srv/data".to_string()),
            ("/www".to_string(), "/srv/www".to_string()),
        ]
    );
}

#[test]
fn preopen_faults_are_config_errors() {
    assert!(Wasi::admit_dir("/d", DirProbe::Opened).is_ok());
    for (probe, expected) in [
        (
            DirProbe::Unreadable("gone".to_string()),
            "configuration error: preopen `/d` unreadable: gone",
        ),
        (
            DirProbe::NotDirectory,
            "configuration error: preopen `/d` is not a directory",
        ),
        (
            DirProbe::Unopened("busy".to_string()),
            "configuration error: preopen `/d` open failed: busy",
        ),
    ] {
        assert_eq!(
            Wasi::admit_dir("/d", probe).unwrap_err().to_string(),
            expected
        );
    }
    assert_eq!(
        Wasi::preopen_failed("/g", "no").to_string(),
        "configuration error: preopen `/g` failed: no"
    );
}

#[test]
fn memory_charge_message() {
    let mut s = sandbox("mem");
    s.limits.max_memory_bytes = 10;
    assert!(s.charge_memory(10).is_ok());
    assert_eq!(
        s.charge_memory(11).unwrap_err().to_string(),
        "sandbox limit exceeded: instance memory 11 exceeds tenant ceiling 10"
    );
}

#[test]
fn tenant_id_messages() {
    assert_eq!(
        TenantId::new("").unwrap_err().to_string(),
        "configuration error: tenant id must not be empty"
    );
    let long = "x".repeat(65);
    assert_eq!(
        TenantId::parse(&long).unwrap_err().to_string(),
        format!("configuration error: tenant id `{long}` exceeds 64 characters")
    );
    assert_eq!(
        TenantId::new("a b").unwrap_err().to_string(),
        "configuration error: tenant id `a b` may only contain [a-zA-Z0-9-_]"
    );
    let id = TenantId::parse(&"y".repeat(64)).unwrap();
    assert_eq!(id.as_str(), "y".repeat(64));
    assert_eq!(id.clone().to_string(), id.to_string());
    assert!(id == id.clone());
}

#[test]
fn usage_changes_by_the_difference_of_the_lengths() {
    let mut fs = MemFs::new(100);
    fs.write("a", vec![1; 30]).unwrap();
    fs.write("b", vec![2; 20]).unwrap();
    fs.write("./a", vec![3; 5]).unwrap();
    assert_eq!(fs.used_bytes(), 55);
    fs.write("a", vec![4; 10]).unwrap();
    assert_eq!(fs.used_bytes(), 35);
    assert_eq!(fs.read("a"), Some(vec![4; 10]));
    assert_eq!(fs.read("b"), Some(vec![2; 20]));
    assert_eq!(fs.quota_bytes(), 100);
}
