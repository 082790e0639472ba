//! Sizes, environment overrides and validation.

use ember::config::{
    parse_memory, ComponentSource, Config, ConfigFile, EngineConfig, EnvOverrides, HttpConfig,
    MemSize, RegistryConfig, TenantConfig,
};
use ember::table::Table;
use ember::wasi::SandboxLimits;
use ember::Error;

fn tenant(name: &str, component: ComponentSource) -> TenantConfig {
    TenantConfig {
        name: name.to_string(),
        component,
        limits: SandboxLimits::default(),
        config: Table::new(),
    }
}

fn oci(reference: &str, pin: Option<&str>) -> ComponentSource {
    ComponentSource::Oci {
        reference: reference.to_string(),
        pin: pin.map(|p| p.to_string()),
    }
}

fn no_env() -> EnvOverrides {
    EnvOverrides {
        bind: None,
        endpoint: None,
        pull_interval_secs: None,
    }
}

fn message(r: Result<(), Error>) -> String {
    r.unwrap_err().to_string()
}

#[test]
fn parses_plain_and_suffixed_sizes() {
    assert_eq!(parse_memory("0").unwrap(), 0);
    assert_eq!(parse_memory("512").unwrap(), 512);
    assert_eq!(parse_memory("64k").unwrap(), 64 * 1024);
    assert_eq!(parse_memory("64K").unwrap(), 64 * 1024);
    assert_eq!(parse_memory("128m").unwrap(), 128 * 1024 * 1024);
    assert_eq!(parse_memory("2g").unwrap(), 2 * 1024 * 1024 * 1024);
}

#[test]
fn rejects_garbage_sizes() {
    assert!(parse_memory("").is_err());
    assert!(parse_memory("abc").is_err());
    assert!(parse_memory("12z").is_err());
    assert!(parse_memory("-5").is_err());
}

#[test]
fn detects_overflow() {
    assert!(parse_memory("999999999999999999999999g").is_err());
}

#[test]
fn sizes_take_long_units_and_surrounding_space() {
    assert_eq!(parse_memory("  3kb ").unwrap(), 3 * 1024);
    assert_eq!(parse_memory("3KiB").unwrap(), 3 * 1024);
    assert_eq!(parse_memory("5MB").unwrap(), 5 * 1024 * 1024);
    assert_eq!(parse_memory("5mib").unwrap(), 5 * 1024 * 1024);
    assert_eq!(parse_memory("1gb\n").unwrap(), 1024 * 1024 * 1024);
    assert_eq!(parse_memory("\u{3000}7\u{a0}").unwrap(), 7);
    assert_eq!(Config::parse_memory("64k").unwrap(), 65536);
}

#[test]
fn size_errors_say_what_is_wrong() {
    assert_eq!(
        parse_memory("   ").unwrap_err().to_string(),
        "configuration error: empty memory size"
    );
    assert_eq!(
        parse_memory("k12").unwrap_err().to_string(),
        "configuration error: invalid memory size `k12`"
    );
    assert_eq!(
        parse_memory("99999999999999999999").unwrap_err().to_string(),
        "configuration error: invalid memory size `99999999999999999999`"
    );
    assert_eq!(
        parse_memory("12 K").unwrap_err().to_string(),
        "configuration error: unknown memory unit ` k`"
    );
    assert_eq!(
        parse_memory("18446744073709551615g").unwrap_err().to_string(),
        "configuration error: memory size `18446744073709551615g` overflows"
    );
}

#[test]
fn memory_fields_are_integers_or_texts() {
    assert_eq!(MemSize::Bytes(4096).bytes().unwrap(), 4096);
    assert_eq!(MemSize::Text("256m".to_string()).bytes().unwrap(), 268_435_456);
    assert!(MemSize::Text("lots".to_string()).bytes().is_err());
}

#[test]
fn defaults_are_the_documented_ones() {
    let c = Config::default();
    assert_eq!(c.bind, "127.0.0.1:8080");
    assert!(c.tenants.is_empty());
    assert_eq!(c.engine.max_memory_bytes, 1024 * 1024 * 1024);
    assert_eq!(c.engine.max_instances, 64);
    assert_eq!(c.engine.threads, 4);
    assert_eq!(c.engine.epoch_interval_ms, 100);
    assert_eq!(c.registry.endpoint, "ghcr.io");
    assert!(!c.registry.insecure);
    assert_eq!(c.registry.pull_interval_secs, 30);
    assert_eq!(c.registry.cache_dir, "registry-cache");
    assert_eq!(c.http.timeout_secs, 30);
    assert_eq!(c.http.concurrency, 512);
    assert_eq!(c.http.max_body_bytes, 8 * 1024 * 1024);
    assert_eq!(c.http.request_id_header, "x-request-id");
}

#[test]
fn intervals_are_at_least_a_second() {
    let r = RegistryConfig {
        pull_interval_secs: 0,
        ..RegistryConfig::default()
    };
    assert_eq!(r.pull_interval().as_secs(), 1);
    assert_eq!(RegistryConfig::default().pull_interval().as_secs(), 30);
    let h = HttpConfig {
        timeout_secs: 0,
        ..HttpConfig::default()
    };
    assert_eq!(h.timeout().as_millis(), 1000);
    assert_eq!(HttpConfig::default().timeout().as_secs(), 30);
}

#[test]
fn environment_overrides_the_file() {
    let mut c = Config::default();
    c.apply_env(EnvOverrides {
        bind: Some("0.0.0.0:9".to_string()),
        endpoint: Some("registry.example.com".to_string()),
        pull_interval_secs: Some("+7".to_string()),
    });
    assert_eq!(c.bind, "0.0.0.0:9");
    assert_eq!(c.registry.endpoint, "registry.example.com");
    assert_eq!(c.registry.pull_interval_secs, 7);
    for bad in ["", "+", "seven", "-1", " 7", "18446744073709551616"] {
        c.apply_env(EnvOverrides {
            pull_interval_secs: Some(bad.to_string()),
            ..no_env()
        });
        assert_eq!(c.registry.pull_interval_secs, 7, "{bad:?}");
    }
    c.apply_env(EnvOverrides {
        pull_interval_secs: Some("18446744073709551615".to_string()),
        ..no_env()
    });
    assert_eq!(c.registry.pull_interval_secs, u64::MAX);
}

#[test]
fn loading_without_a_file_gives_the_defaults() {
    let c = Config::load(ConfigFile::Absent, no_env()).unwrap();
    assert_eq!(c.bind, "127.0.0.1:8080");
    assert!(c.tenants.is_empty());
}

#[test]
fn loading_reports_unreadable_and_malformed_files() {
    let e = Config::load(
        ConfigFile::Unreadable {
            path: "does-not-exist.toml".to_string(),
            reason: "No such file".to_string(),
        },
        no_env(),
    )
    .unwrap_err();
    assert_eq!(
        e.to_string(),
        "configuration error: cannot read does-not-exist.toml: No such file"
    );
    let e = Config::load(
        ConfigFile::Malformed {
            path: "c.toml".to_string(),
            reason: "expected `=`".to_string(),
        },
        no_env(),
    )
    .unwrap_err();
    assert_eq!(
        e.to_string(),
        "configuration error: invalid TOML in c.toml: expected `=`"
    );
}

#[test]
fn loading_a_file_validates_and_clamps() {
    let mut base = Config::default();
    base.engine = EngineConfig {
        max_memory_bytes: 1000,
        max_instances: 2,
        ..EngineConfig::default()
    };
    base.tenants.push(tenant("echo", oci("ghcr.io/acme/echo:latest", None)));
    base.tenants[0].limits.max_epoch_delta = 0;
    let c = Config::load(ConfigFile::Parsed(base), no_env()).unwrap();
    assert_eq!(c.tenants[0].limits.max_memory_bytes, 1000);
    assert_eq!(c.tenants[0].limits.max_instances, 2);
    assert_eq!(c.tenants[0].limits.max_epoch_delta, 1);
}

#[test]
fn validating_twice_changes_nothing() {
    let mut c = Config::default();
    c.engine.max_memory_bytes = 1000;
    c.tenants.push(tenant("echo", oci("ghcr.io/acme/echo:latest", None)));
    c.validate().unwrap();
    let first = c.tenants[0].limits.max_memory_bytes;
    c.validate().unwrap();
    assert_eq!(first, 1000);
    assert_eq!(c.tenants[0].limits.max_memory_bytes, 1000);
}

#[test]
fn validation_reports_the_first_fault() {
    let mut c = Config::default();
    c.engine.max_memory_bytes = 0;
    c.engine.max_instances = 0;
    assert_eq!(
        message(c.validate()),
        "configuration error: engine.max_memory_bytes must be > 0"
    );
    c.engine.max_memory_bytes = 1;
    assert_eq!(
        message(c.validate()),
        "configuration error: engine.max_instances must be > 0"
    );

    let cases: Vec<(TenantConfig, &str)> = vec![
        (
            tenant("bad name", oci("r/e", None)),
            "configuration error: tenant `bad name`: configuration error: tenant id `bad name` may only contain [a-zA-Z0-9-_]",
        ),
        (
            tenant("a", oci("", None)),
            "configuration error: tenant `a`: empty oci reference",
        ),
        (
            tenant("a", oci("r/e", Some("md5:0"))),
            "configuration error: tenant `a`: bad pin: configuration error: digest `md5:0` must use the sha256 scheme",
        ),
        (
            tenant(
                "a",
                ComponentSource::File {
                    path: String::new(),
                },
            ),
            "configuration error: tenant `a`: empty file path",
        ),
    ];
    for (t, expected) in cases {
        let mut c = Config::default();
        c.tenants.push(tenant("fine", oci("r/e", None)));
        c.tenants.push(t);
        assert_eq!(message(c.validate()), expected);
    }

    let mut c = Config::default();
    c.tenants.push(tenant("", oci("", None)));
    c.tenants[0].limits.max_instances = 0;
    assert_eq!(
        message(c.validate()),
        "sandbox limit exceeded: max_instances must be > 0"
    );
}

#[test]
fn refused_config_is_left_alone() {
    let mut c = Config::default();
    c.engine.max_memory_bytes = 10;
    c.tenants.push(tenant("a", oci("r/e", None)));
    c.tenants.push(tenant("b", oci("", None)));
    assert!(c.validate().is_err());
    assert_eq!(c.tenants[0].limits.max_memory_bytes, 128 * 1024 * 1024);
}

#[test]
fn a_config_is_cloned_whole() {
    let mut c = Config::default();
    let mut t = tenant(
        "echo",
        ComponentSource::Oci {
            reference: "r".to_string(),
            pin: Some("p".to_string()),
        },
    );
    t.config.insert("k".to_string(), "v".to_string());
    c.tenants.push(t);
    c.http.request_id_header = "x-trace".to_string();
    c.registry.endpoint = "quay.io".to_string();
    let d = c.clone();
    c.tenants.clear();
    assert_eq!(d.bind, "127.0.0.1:8080");
    assert_eq!(d.http.request_id_header, "x-trace");
    assert_eq!(d.registry.endpoint, "quay.io");
    assert_eq!(d.tenants[0].name, "echo");
    assert_eq!(d.tenants[0].config.get("k"), Some(&"v".to_string()));
    assert!(matches!(
        &d.tenants[0].component,
        ComponentSource::Oci { reference, pin: Some(p) } if reference == "r" && p == "p"
    ));
}
