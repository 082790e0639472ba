//! OCI client: references, layers, blobs and pins.

use ember::component::loader::Loaded;
use ember::registry::fetch::{Fetch, HeldFetch, LayerFetch, MissingFetch, Probe, Start};
use ember::registry::manifests::{ManifestCache, MANIFEST_CACHE_LEN};
use ember::registry::oci::{
    parse_digest, verify_digest, Auth, OciClient, OciClientConfig, Protocol,
};
use ember::registry::store::{digest, HotReloadPolicy, PutOutcome};
use ember::registry::Registry;
use ember::time::{Duration, Instant};
use ember::Error;

const EMPTY_COMPONENT: &[u8] = &[0x00, 0x61, 0x73, 0x6d, 0x0d, 0x00, 0x01, 0x00];

fn client() -> OciClient {
    OciClient::new(OciClientConfig::default(), None, None, Ok(())).unwrap()
}

#[test]
fn verify_digest_accepts_matching_bytes() {
    let bytes = b"component-bytes";
    let ok = digest(bytes);
    assert!(verify_digest(bytes, &ok).is_ok());
}

#[test]
fn verify_digest_rejects_mismatch() {
    let ok = digest(b"right");
    assert!(verify_digest(b"wrong", &ok).is_err());
    assert!(matches!(
        verify_digest(b"wrong", &ok),
        Err(Error::DigestMismatch { .. })
    ));
}

#[test]
fn parse_digest_accepts_sha256() {
    let ok = "sha256:0123456789abcdef0123456789abcdef0123456789abcdef0123456789abcdef";
    assert!(parse_digest(ok).is_ok());
}

#[test]
fn parse_digest_rejects_bad_schemes_and_lengths() {
    assert!(parse_digest("md5:0123").is_err());
    assert!(parse_digest("sha256:0123").is_err());
    assert!(
        parse_digest("sha256:zzzzzzzzzzzzzzzzzzzzzzzzzzzzzzzzzzzzzzzzzzzzzzzzzzzzzzzzzzzzzzzz")
            .is_err()
    );
}

#[test]
fn resolve_qualifies_bare_references() {
    let client = client();
    let bare = client.resolve("echo").unwrap();
    assert_eq!(bare.registry(), "ghcr.io");
    let full = client.resolve("quay.io/acme/echo:latest").unwrap();
    assert_eq!(full.registry(), "quay.io");
}

#[test]
fn digest_faults_are_named() {
    assert_eq!(
        parse_digest("md5:0123").unwrap_err().to_string(),
        "configuration error: digest `md5:0123` must use the sha256 scheme"
    );
    assert_eq!(
        parse_digest("sha256:0123").unwrap_err().to_string(),
        "configuration error: malformed sha256 digest `sha256:0123`"
    );
    assert!(parse_digest(&format!("sha256:{}", "AF".repeat(32))).is_ok());
}

#[test]
fn references_are_taken_apart() {
    let c = client();
    let r = c.resolve("echo").unwrap();
    assert_eq!(r.repository(), "echo");
    assert_eq!(r.tag(), Some("latest"));
    assert_eq!(r.digest(), None);
    assert_eq!(r.to_string(), "ghcr.io/echo:latest");
    let d = format!("sha256:{}", "ab".repeat(32));
    let r = c.resolve(&format!("quay.io/acme/echo:v1@{d}")).unwrap();
    assert_eq!(r.repository(), "acme/echo");
    assert_eq!(r.tag(), Some("v1"));
    assert_eq!(r.digest(), Some(d.as_str()));
    assert_eq!(r.to_string(), format!("quay.io/acme/echo:v1@{d}"));
    let e = c.resolve("UPPER case").unwrap_err();
    assert_eq!(
        e.to_string(),
        "oci distribution error: invalid reference `UPPER case`: invalid reference format"
    );
    assert_eq!(c.qualify("echo:v2"), "ghcr.io/echo:v2");
    assert_eq!(c.qualify("a/b"), "a/b");
    assert_eq!(c.qualify(&c.qualify("echo")), c.qualify("echo"));
}

#[test]
fn resolution_reports_the_parser_verbatim() {
    let r = client().resolve("quay.io/acme/echo").unwrap();
    assert_eq!(
        OciClient::conclude("x", Ok(r)).unwrap().to_string(),
        "quay.io/acme/echo:latest"
    );
    assert_eq!(
        OciClient::conclude("x", Err("why".to_string()))
            .unwrap_err()
            .to_string(),
        "oci distribution error: invalid reference `x`: why"
    );
}

#[test]
fn protocol_and_auth_follow_config_and_environment() {
    let c = client();
    assert_eq!(c.protocol(), Protocol::Https);
    assert!(matches!(c.auth(), Auth::Anonymous));
    assert_eq!(c.store().root(), "registry-cache");
    assert_eq!(c.config().manifest_cache_ttl.as_secs(), 60);
    let c = OciClient::new(
        OciClientConfig {
            insecure: true,
            cache_dir: "elsewhere".to_string(),
            ..OciClientConfig::default()
        },
        Some("u".to_string()),
        Some("p".to_string()),
        Ok(()),
    )
    .unwrap();
    assert_eq!(c.protocol(), Protocol::Http);
    assert!(matches!(c.auth(), Auth::Basic { user, password } if user == "u" && password == "p"));
    assert_eq!(c.store().root(), "elsewhere");
    let half = OciClient::new(OciClientConfig::default(), Some("u".to_string()), None, Ok(()));
    assert!(matches!(half.unwrap().auth(), Auth::Anonymous));
    let e = OciClient::new(
        OciClientConfig::default(),
        None,
        None,
        Err("denied".to_string()),
    )
    .unwrap_err();
    assert_eq!(e.to_string(), "i/o error: denied");
}

fn fetch() -> Fetch {
    client().fetch_component("echo").unwrap()
}

fn layer(digest: &str) -> LayerFetch {
    fetch().manifest(Ok(vec![digest.to_string()])).unwrap()
}

fn missing(digest: &str) -> MissingFetch {
    match layer(digest).probed(false) {
        Probe::Missing(f) => f,
        p => panic!("{p:?}"),
    }
}

fn held(digest: &str) -> HeldFetch {
    match layer(digest).probed(true) {
        Probe::Held(f) => f,
        p => panic!("{p:?}"),
    }
}

#[test]
fn a_fetch_starts_from_the_resolved_reference() {
    assert_eq!(fetch().resolved().to_string(), "ghcr.io/echo:latest");
    assert_eq!(
        client()
            .fetch_component("UPPER case")
            .unwrap_err()
            .to_string(),
        "oci distribution error: invalid reference `UPPER case`: invalid reference format"
    );
}

#[test]
fn the_first_layer_is_the_component() {
    let f = fetch()
        .manifest(Ok(vec!["sha256:a".to_string(), "b".to_string()]))
        .unwrap();
    assert_eq!(f.digest(), "sha256:a");
    assert_eq!(
        fetch().manifest(Ok(Vec::new())).unwrap_err().to_string(),
        "oci distribution error: manifest for `echo` has no layers"
    );
    assert_eq!(
        fetch()
            .manifest(Err("401".to_string()))
            .unwrap_err()
            .to_string(),
        "oci distribution error: pull manifest `ghcr.io/echo:latest`: 401"
    );
}

#[test]
fn a_layer_is_looked_for_under_its_digest() {
    let d = digest(b"blob");
    let path = format!("registry-cache/{}", &d["sha256:".len()..]);
    assert_eq!(layer(&d).path(), Some(path.clone()));
    assert_eq!(held(&d).path(), path);
    assert_eq!(layer("sha512:1").path(), None);
    assert!(matches!(
        layer("sha512:1").probed(true),
        Probe::Missing(f) if f.digest() == "sha512:1"
    ));
}

#[test]
fn only_blobs_with_their_digest_are_accepted() {
    let d = digest(b"blob");
    let f = missing(&d).pulled(Ok(b"blob".to_vec())).unwrap();
    assert_eq!(f.blob(), b"blob");
    let plan = f.plan(7);
    assert_eq!(plan.digest, d);
    assert_eq!(plan.path, format!("registry-cache/{}", &d["sha256:".len()..]));
    assert_eq!(plan.temp, "registry-cache/.tmp-7");
    assert_eq!(f.written(PutOutcome::Renamed).unwrap().path(), plan.path);
    let f = missing(&d).pulled(Ok(b"blob".to_vec())).unwrap();
    assert_eq!(
        f.written(PutOutcome::Failed("full".to_string()))
            .unwrap_err()
            .to_string(),
        "i/o error: full"
    );
    assert!(matches!(
        missing(&d).pulled(Ok(b"tampered".to_vec())),
        Err(Error::DigestMismatch { .. })
    ));
    assert_eq!(
        missing("sha256:x")
            .pulled(Err("404".to_string()))
            .unwrap_err()
            .to_string(),
        "oci distribution error: pull blob sha256:x: 404"
    );
}

#[test]
fn fetched_components_carry_the_layer_digest() {
    let d = digest(EMPTY_COMPONENT);
    let l = held(&d).read(Some(EMPTY_COMPONENT.to_vec())).unwrap();
    assert_eq!(l.digest, d);
    assert_eq!(l.source, "echo");
    assert!(matches!(
        held(&d).read(None),
        Err(Error::ComponentNotFound(what)) if what == d
    ));
    assert!(matches!(
        held(&d).read(Some(b"junk".to_vec())),
        Err(Error::Validation(_))
    ));
}

#[test]
fn a_pinned_pull_yields_the_pin_or_nothing() {
    let load = || Loaded::from_bytes("echo", EMPTY_COMPONENT.to_vec());
    let own = digest(EMPTY_COMPONENT);
    assert_eq!(Registry::pull(load(), None).unwrap().digest, own);
    assert_eq!(Registry::pull(load(), Some(&own)).unwrap().digest, own);
    let other = digest(b"other");
    match Registry::pull(load(), Some(&other)) {
        Err(Error::DigestMismatch { expected, computed }) => {
            assert_eq!(expected, other);
            assert_eq!(computed, own);
        }
        r => panic!("{r:?}"),
    }
    let e = Registry::pull(Err(Error::Oci("down".to_string())), Some(&own)).unwrap_err();
    assert_eq!(e.to_string(), "oci distribution error: down");
    let l = OciClient::stamp(load().unwrap(), "sha256:layer");
    assert_eq!(l.digest, "sha256:layer");
    assert_eq!(l.bytes, EMPTY_COMPONENT);
}

#[test]
fn registry_couples_client_and_policy() {
    let r = Registry::new(client(), HotReloadPolicy::default());
    assert_eq!(r.store().root(), "registry-cache");
    assert_eq!(r.policy.poll_interval.as_secs(), 30);
    assert_eq!(r.policy.debounce.as_secs(), 5);
    assert!(!r.policy.require_pinned);
}

fn at(secs: u64) -> Instant {
    Instant::at(Duration::from_secs(secs))
}

#[test]
fn resolved_tags_are_trusted_for_a_while() {
    let c = client();
    let mut m = c.manifest_cache();
    assert_eq!(m.len(), 0);
    let f = match c.fetch_trusted(&m, "echo", at(10)).unwrap() {
        Start::Manifest(f) => f,
        s => panic!("{s:?}"),
    };
    let d = digest(b"layer");
    let f = f.resolve_layer(Ok(vec![d.clone()]), &mut m, at(10)).unwrap();
    assert_eq!(f.digest(), d);
    assert_eq!(m.lookup("ghcr.io/echo:latest", at(69)), Some(d.clone()));
    assert_eq!(m.lookup("ghcr.io/echo:latest", at(70)), None);
    assert_eq!(m.lookup("ghcr.io/other:latest", at(10)), None);
    match c.fetch_trusted(&m, "echo", at(69)).unwrap() {
        Start::Layer(f) => assert_eq!(f.digest(), d),
        s => panic!("{s:?}"),
    }
    assert!(matches!(
        c.fetch_trusted(&m, "echo", at(70)).unwrap(),
        Start::Manifest(_)
    ));
    assert!(c.fetch_trusted(&m, "UPPER case", at(10)).is_err());
    let failed = fetch().resolve_layer(Err("401".to_string()), &mut m, at(71));
    assert_eq!(
        failed.unwrap_err().to_string(),
        "oci distribution error: pull manifest `ghcr.io/echo:latest`: 401"
    );
    assert_eq!(m.len(), 1);
}

#[test]
fn the_manifest_cache_is_bounded() {
    let mut m = ManifestCache::new(Duration::from_secs(60));
    for n in 0..MANIFEST_CACHE_LEN + 1 {
        m.remember(format!("r{n}"), format!("d{n}"), at(1));
    }
    assert_eq!(m.len(), MANIFEST_CACHE_LEN);
    assert_eq!(m.lookup("r0", at(1)), None);
    assert_eq!(m.lookup("r1", at(1)), Some("d1".to_string()));
    m.remember("r1".to_string(), "new".to_string(), at(2));
    assert_eq!(m.lookup("r1", at(2)), Some("new".to_string()));
}

#[test]
fn clones_are_the_same_registry() {
    let c = OciClient::new(
        OciClientConfig::default(),
        Some("u".to_string()),
        Some("p".to_string()),
        Ok(()),
    )
    .unwrap();
    let r = Registry::new(c, HotReloadPolicy::default()).clone();
    assert_eq!(r.store().root(), "registry-cache");
    assert_eq!(r.oci.config().clone().endpoint, "ghcr.io");
    assert_eq!(r.policy, HotReloadPolicy::default());
    assert!(matches!(r.oci.auth(), Auth::Basic { user, password } if user == "u" && password == "p"));
    let l = Loaded::from_bytes("echo", EMPTY_COMPONENT.to_vec()).unwrap();
    let k = l.clone();
    assert_eq!((k.source, k.bytes, k.digest, k.size), (l.source, l.bytes, l.digest, l.size));
    assert_eq!((k.world_id, k.exports), (l.world_id, l.exports));
}
