//! Registry store and hot-reload policy tests.

use ember::registry::fetch::Probe;
use ember::registry::oci::{match_digest, verify_digest};
use ember::registry::store::{digest, ContentStore, HotReloadPolicy, PinSet, PutOutcome};
use ember::registry::{OciClient, OciClientConfig};
use ember::time::Duration;

#[test]
fn digest_verification_rejects_mismatch() {
    let good = digest(b"component");
    assert!(verify_digest(b"component", &good).is_ok());
    let err = verify_digest(b"tampered", &good).unwrap_err();
    assert!(matches!(err, ember::Error::DigestMismatch { .. }));
}

#[test]
fn pins_are_resolved_and_compare_unpinned() {
    let mut pins = PinSet::default();
    pins.pin("echo", "sha256:aaaa");
    pins.pin("static", "sha256:bbbb");
    assert_eq!(pins.resolve("echo"), Some("sha256:aaaa"));
    assert_eq!(pins.resolve("missing"), None);
    assert!(!pins.unpin("echo", "sha256:cccc"));
    assert!(pins.unpin("echo", "sha256:aaaa"));
    assert_eq!(pins.resolve("echo"), None);
}

#[test]
fn reload_policy_reloads_only_on_digest_change() {
    let policy = HotReloadPolicy::default();
    assert!(policy.should_reload(None, "sha256:one"));
    assert!(!policy.should_reload(Some("sha256:one"), "sha256:one"));
    assert!(policy.should_reload(Some("sha256:one"), "sha256:two"));
}

#[test]
fn reload_policy_parks_after_failures() {
    let policy = HotReloadPolicy::default();
    assert_eq!(policy.max_failed_polls, 3);
    assert!(!policy.exhausted(2));
    assert!(policy.exhausted(3));
    assert!(policy.exhausted(99));
}

#[test]
fn reload_policy_debounce_prevents_thrashing() {
    let policy = HotReloadPolicy {
        debounce: Duration::from_secs(60),
        ..HotReloadPolicy::default()
    };
    // Even a digest change is not enough if it arrives inside the debounce
    // window; the caller is responsible for the timestamp gate.
    assert!(policy.should_reload(Some("old"), "new"));
    assert_eq!(policy.debounce.as_secs(), 60);
}

#[test]
fn digest_is_sha256_hex_of_length_64() {
    let d = digest(b"payload");
    let hex = d.strip_prefix("sha256:").unwrap();
    assert_eq!(hex.len(), 64);
    assert!(hex.bytes().all(|b| b.is_ascii_hexdigit()));
}

#[test]
fn store_rejects_non_sha256_digests() {
    let store = ContentStore::open("cas", Ok(())).unwrap();
    assert!(store.get("md5:abc", Some(Vec::new())).is_err());
    assert!(store.get("sha256:1234", Some(Vec::new())).is_err());
    assert!(!store.contains("sha256:1234", true));
}

#[test]
fn digest_is_stable_and_unique() {
    let a = digest(b"hello");
    let b = digest(b"hello");
    assert_eq!(a, b);
    assert_ne!(a, digest(b"hellp"));
    assert!(a.starts_with("sha256:"));
    assert_eq!(a.len(), 7 + 64);
}

#[test]
fn pin_resolve_compare_unpin() {
    let mut pins = PinSet::default();
    assert_eq!(pins.resolve("echo"), None);
    pins.pin("echo", "sha256:aaaa");
    assert_eq!(pins.resolve("echo"), Some("sha256:aaaa"));
    assert!(!pins.unpin("echo", "sha256:bbbb"));
    assert!(pins.unpin("echo", "sha256:aaaa"));
    assert_eq!(pins.resolve("echo"), None);
}

#[test]
fn reload_policy_debounces_identical_digest() {
    let policy = HotReloadPolicy::default();
    assert!(policy.should_reload(None, "sha256:new"));
    assert!(!policy.should_reload(Some("sha256:same"), "sha256:same"));
    assert!(policy.should_reload(Some("sha256:old"), "sha256:new"));
}

#[test]
fn reload_policy_parks_after_failure_budget() {
    let policy = HotReloadPolicy::default();
    assert!(!policy.exhausted(0));
    assert!(!policy.exhausted(policy.max_failed_polls - 1));
    assert!(policy.exhausted(policy.max_failed_polls));
}

/// A directory held in memory, written as the store's plans say.
struct Disk {
    files: Vec<(String, Vec<u8>)>,
}

impl Disk {
    fn read(&self, path: &str) -> Option<Vec<u8>> {
        self.files.iter().find(|f| f.0 == path).map(|f| f.1.clone())
    }

    fn put(&mut self, store: &ContentStore, blob: &[u8]) -> String {
        let plan = store.plan_put(blob, 42);
        let outcome = if self.read(&plan.path).is_some() {
            PutOutcome::Present
        } else {
            self.files.push((plan.temp.clone(), blob.to_vec()));
            for f in self.files.iter_mut().filter(|f| f.0 == plan.temp) {
                f.0 = plan.path.clone();
            }
            PutOutcome::Renamed
        };
        let d = store.put(blob, outcome).unwrap();
        assert_eq!(d, plan.digest);
        assert_eq!(store.blob_path(&d).unwrap(), plan.path);
        d
    }

    fn entries(&self) -> Vec<(String, u64)> {
        self.files
            .iter()
            .map(|f| (f.0.rsplit('/').next().unwrap().to_string(), f.1.len() as u64))
            .collect()
    }
}

#[test]
fn store_roundtrips_and_dedupes() {
    let store = ContentStore::open("cas", Ok(())).unwrap();
    let mut disk = Disk { files: Vec::new() };
    let d1 = disk.put(&store, b"payload-a");
    let d2 = disk.put(&store, b"payload-a");
    assert_eq!(d1, d2, "identical content must dedupe");
    let path = store.blob_path(&d1).unwrap();
    assert_eq!(store.get(&d1, disk.read(&path)).unwrap(), b"payload-a");
    assert!(store.contains(&d1, disk.read(&path).is_some()));
    let zero = "sha256:0000000000000000000000000000000000000000000000000000000000000000";
    let path = store.blob_path(zero).unwrap();
    assert!(!store.contains(zero, disk.read(&path).is_some()));
    assert_eq!(store.disk_usage(Ok(disk.entries())).unwrap(), 9);
}

#[test]
fn content_store_roundtrip_via_tempdir() {
    let store = ContentStore::open("cas", Ok(())).unwrap();
    let mut disk = Disk { files: Vec::new() };
    let d = disk.put(&store, b"component bytes");
    assert!(d.starts_with("sha256:"));
    let path = store.blob_path(&d).unwrap();
    assert_eq!(store.get(&d, disk.read(&path)).unwrap(), b"component bytes");
    assert_eq!(store.disk_usage(Ok(disk.entries())).unwrap(), 15);
}

#[test]
fn content_store_dedupes_by_content() {
    let store = ContentStore::open("cas", Ok(())).unwrap();
    let mut disk = Disk { files: Vec::new() };
    let d1 = disk.put(&store, b"same");
    let d2 = disk.put(&store, b"same");
    assert_eq!(d1, d2);
    assert_eq!(store.disk_usage(Ok(disk.entries())).unwrap(), 4);
    disk.put(&store, b"other!");
    assert_eq!(store.disk_usage(Ok(disk.entries())).unwrap(), 10);
}

#[test]
fn content_store_atomic_put_never_leaves_tmp_files() {
    let store = ContentStore::open("cas", Ok(())).unwrap();
    let mut disk = Disk { files: Vec::new() };
    disk.put(&store, b"atomic");
    let leftovers: Vec<_> = disk
        .entries()
        .into_iter()
        .filter(|e| e.0.starts_with(".tmp"))
        .collect();
    assert!(
        leftovers.is_empty(),
        "temp files must be renamed or cleaned"
    );
}

#[test]
fn store_rejects_malformed_digests() {
    let store = ContentStore::open("cas", Ok(())).unwrap();
    assert!(store.get("md5:abc", None).is_err());
    assert!(store.get("sha256:short", None).is_err());
    assert!(store.get("sha256:zz".repeat(32).as_str(), None).is_err());
    assert_eq!(
        store.get("md5:abc", None).unwrap_err().to_string(),
        "component not found: unsupported digest scheme in `md5:abc`"
    );
    assert_eq!(
        store.blob_path("sha256:short").unwrap_err().to_string(),
        "component not found: malformed sha256 digest `sha256:short`"
    );
}

#[test]
fn digest_of_known_bytes() {
    assert_eq!(
        digest(b"hello"),
        "sha256:2cf24dba5fb0a30e26e83b2ac5b9e29e1b161e5c1fa7425e73043362938b9824"
    );
    assert_eq!(
        ember::hash::format_digest(&[0x00, 0x0f, 0xa0, 0xff]),
        "sha256:000fa0ff"
    );
}

#[test]
fn mismatches_name_both_digests() {
    assert!(match_digest("sha256:a".to_string(), "sha256:a").is_ok());
    let e = match_digest("sha256:b".to_string(), "sha256:a").unwrap_err();
    assert_eq!(
        e.to_string(),
        "digest mismatch: expected sha256:a, computed sha256:b"
    );
    assert_eq!(e.status(), 409);
}

#[test]
fn store_plans_atomic_writes_next_to_the_blob() {
    let hello = "2cf24dba5fb0a30e26e83b2ac5b9e29e1b161e5c1fa7425e73043362938b9824";
    for (root, prefix) in [("cas", "cas/"), ("cas/", "cas/"), ("", "")] {
        let store = ContentStore::open(root, Ok(())).unwrap();
        assert_eq!(store.root(), root);
        let plan = store.plan_put(b"hello", 1234);
        assert_eq!(plan.digest, format!("sha256:{hello}"));
        assert_eq!(plan.path, format!("{prefix}{hello}"));
        assert_eq!(plan.temp, format!("{prefix}.tmp-1234"));
    }
}

#[test]
fn store_outcomes() {
    let store = ContentStore::open("cas", Ok(())).unwrap();
    let d = digest(b"x");
    assert_eq!(store.put(b"x", PutOutcome::AlreadyExists).unwrap(), d);
    assert_eq!(store.put(b"x", PutOutcome::Present).unwrap(), d);
    let e = store
        .put(b"x", PutOutcome::Failed("disk full".to_string()))
        .unwrap_err();
    assert_eq!(e.to_string(), "i/o error: disk full");
    let e = store.get(&d, None).unwrap_err();
    assert_eq!(e.to_string(), format!("component not found: {d}"));
    assert_eq!(e.status(), 404);
    let e = ContentStore::open("cas", Err("read-only".to_string())).unwrap_err();
    assert_eq!(e.to_string(), "i/o error: read-only");
}

#[test]
fn disk_usage_skips_temporary_files() {
    let store = ContentStore::open("cas", Ok(())).unwrap();
    let entries = vec![
        ("aa".to_string(), 4),
        (".tmp-17".to_string(), 100),
        ("bb".to_string(), 11),
    ];
    assert_eq!(store.disk_usage(Ok(entries)).unwrap(), 15);
    assert!(store.disk_usage(Err("gone".to_string())).is_err());
}

#[test]
fn digests_never_share_a_file() {
    let store = ContentStore::open("cas", Ok(())).unwrap();
    let a = store.blob_path(&digest(b"a")).unwrap();
    let b = store.blob_path(&digest(b"b")).unwrap();
    assert_ne!(a, b);
    let upper = digest(b"a").to_uppercase().replace("SHA256", "sha256");
    assert_ne!(store.blob_path(&upper).unwrap(), a);
}

#[test]
fn an_accepted_blob_is_read_back_for_its_layer() {
    let store = ContentStore::open("cas", Ok(())).unwrap();
    let mut disk = Disk { files: Vec::new() };
    let layer = digest(b"layer");
    let client = OciClient::new(OciClientConfig::default(), None, None, Ok(())).unwrap();
    let fetch = client.fetch_component("echo").unwrap();
    let missing = match fetch.manifest(Ok(vec![layer.clone()])).unwrap().probed(false) {
        Probe::Missing(f) => f,
        p => panic!("{p:?}"),
    };
    let verified = missing.pulled(Ok(b"layer".to_vec())).unwrap();
    disk.put(&store, b"unrelated");
    disk.put(&store, verified.blob());
    let path = store.blob_path(&layer).unwrap();
    assert_eq!(store.get(&layer, disk.read(&path)).unwrap(), b"layer");
}

#[test]
fn a_cloned_pin_set_is_its_own() {
    let mut pins = PinSet::default();
    pins.pin("echo", "sha256:aaaa");
    let copy = pins.clone();
    pins.pin("echo", "sha256:bbbb");
    assert_eq!(copy.resolve("echo"), Some("sha256:aaaa"));
    assert_eq!(pins.resolve("echo"), Some("sha256:bbbb"));
}
