//! Loader and contract-checking tests.

use ember::component::loader::{
    contract_violations, digest_of, ensure_contract, Admitted, Loaded, Section, HANDLER_INTERFACE,
};
use ember::registry::store::digest;

/// Minimal valid component binary: the component magic + version bytes and
/// no sections.
const EMPTY_COMPONENT: &[u8] = &[0x00, 0x61, 0x73, 0x6d, 0x0d, 0x00, 0x01, 0x00];

/// An empty core module.
const EMPTY_MODULE: &[u8] = &[0x00, 0x61, 0x73, 0x6d, 0x01, 0x00, 0x00, 0x00];

fn section(id: u8, content: &[u8]) -> Vec<u8> {
    let mut v = vec![id, content.len() as u8];
    v.extend_from_slice(content);
    v
}

/// A component that nests a module and exports it under `name`.
fn exporting(name: &str) -> Vec<u8> {
    let mut v = EMPTY_COMPONENT.to_vec();
    v.extend(section(1, EMPTY_MODULE));
    let mut export = vec![1, 0, name.len() as u8];
    export.extend_from_slice(name.as_bytes());
    export.extend_from_slice(&[0x00, 0x11, 0x00, 0x00]);
    v.extend(section(11, &export));
    v
}

#[test]
fn rejects_truncated_bytes() {
    let err = Loaded::from_bytes("truncated", vec![0x00, 0x61, 0x73]).unwrap_err();
    assert!(matches!(
        err,
        ember::Error::Validation(_) | ember::Error::InvalidComponent { .. }
    ));
}

#[test]
fn rejects_non_component_magic() {
    let err = Loaded::from_bytes(
        "core-module",
        vec![0x00, 0x61, 0x73, 0x6d, 0x01, 0x00, 0x00, 0x00],
    )
    .unwrap_err();
    assert!(err.to_string().contains("component") || err.to_string().contains("validation"));
}

#[test]
fn accepts_valid_empty_component() {
    let loaded = Loaded::from_bytes("empty", EMPTY_COMPONENT.to_vec()).unwrap();
    assert_eq!(loaded.digest, digest(EMPTY_COMPONENT));
    assert_eq!(loaded.size, EMPTY_COMPONENT.len() as u64);
    assert!(loaded.exports.is_empty());
    assert!(loaded.world_id.is_none());
}

#[test]
fn digest_of_matches_store_digest() {
    assert_eq!(digest_of(EMPTY_COMPONENT), digest(EMPTY_COMPONENT));
}

#[test]
fn contract_rejects_missing_handler() {
    let loaded = Loaded::from_bytes("empty", EMPTY_COMPONENT.to_vec()).unwrap();
    let violation = contract_violations(&loaded.exports).expect("must report a violation");
    assert!(violation.contains("handler"), "got: {violation}");
    assert!(matches!(
        ensure_contract(&loaded),
        Err(ember::Error::Contract(_))
    ));
}

#[test]
fn contract_accepts_bare_handler_interface() {
    let exports = vec!["handler".to_string()];
    assert!(contract_violations(&exports).is_none());
}

#[test]
fn contract_accepts_fully_qualified_handler() {
    let exports = vec!["ember:runtime/handler@0.1.0".to_string()];
    assert!(contract_violations(&exports).is_none());
}

#[test]
fn contract_accepts_world_id_export() {
    let exports = vec!["#ember-guest".to_string()];
    assert!(contract_violations(&exports).is_none());
}

#[test]
fn contract_rejects_unrelated_exports() {
    let exports = vec![
        "wasi:http/incoming-handler".to_string(),
        "some-module".to_string(),
    ];
    let violation = contract_violations(&exports).unwrap();
    assert!(violation.contains(&format!("only: {}", exports.join(", "))));
}

#[test]
fn world_id_is_stripped_from_export_names() {
    let exports = vec!["#ember-guest".to_string()];
    let loaded = Loaded {
        source: "synthetic".into(),
        bytes: EMPTY_COMPONENT.into(),
        digest: digest(EMPTY_COMPONENT),
        size: EMPTY_COMPONENT.len() as u64,
        world_id: exports[0].strip_prefix('#').map(str::to_owned),
        exports,
    };
    assert!(loaded.has_world("ember-guest"));
    assert!(loaded.exports_interface("ember-handler") == false);
    assert_eq!(loaded.world_id.as_deref(), Some("ember-guest"));
}

#[test]
fn handler_interface_constant_is_sane() {
    assert_eq!(HANDLER_INTERFACE, "ember-handler");
}

#[test]
fn violation_messages_are_exact() {
    assert_eq!(
        contract_violations(&[]).unwrap(),
        "artifact exports no exports at all; expected interface `ember-handler` or world `ember-guest`"
    );
    let exports = vec!["a".to_string(), "b".to_string()];
    assert_eq!(
        contract_violations(&exports).unwrap(),
        "artifact exports only: a, b; expected interface `ember-handler` or world `ember-guest`"
    );
    for name in ["ember-guest", "ember-handler", "x:runtime/handler"] {
        assert!(contract_violations(&["a".to_string(), name.to_string()]).is_none());
    }
    assert!(contract_violations(&["handlers".to_string()]).is_some());
}

#[test]
fn exports_of_a_real_component_are_listed() {
    let bytes = exporting("handler");
    let loaded = Loaded::from_bytes("guest.wasm", bytes.clone()).unwrap();
    assert_eq!(loaded.exports, vec!["handler"]);
    assert_eq!(loaded.source, "guest.wasm");
    assert_eq!(loaded.bytes, bytes);
    assert!(loaded.exports_interface("handler"));
    assert!(ensure_contract(&loaded).is_ok());
    assert!(Admitted::check(loaded).is_ok());
}

#[test]
fn exports_of_nested_components_do_not_count() {
    let mut v = EMPTY_COMPONENT.to_vec();
    v.extend(section(4, &exporting("handler")));
    let loaded = Loaded::from_bytes("outer", v).unwrap();
    assert!(loaded.exports.is_empty());
    let e = Admitted::check(loaded).unwrap_err();
    assert!(matches!(e, ember::Error::Contract(_)));
    assert_eq!(e.status(), 400);
}

#[test]
fn validator_objections_are_reported() {
    let mut v = EMPTY_COMPONENT.to_vec();
    v.extend(section(11, &[1, 0, 1, b'x', 0x00, 0x11, 0x00, 0x00]));
    let e = Loaded::from_bytes("bad", v).unwrap_err();
    assert!(matches!(e, ember::Error::Validation(_)));
    assert!(e.to_string().starts_with("validation error: "));
    let e = Loaded::from_bytes("core", EMPTY_MODULE.to_vec()).unwrap_err();
    assert_eq!(
        e.to_string(),
        "invalid component artifact `core`: not a WebAssembly component"
    );
}

#[test]
fn unreadable_files_are_invalid_components() {
    let e = Loaded::from_path("gone.wasm", Err("No such file".to_string())).unwrap_err();
    assert_eq!(
        e.to_string(),
        "invalid component artifact `gone.wasm`: No such file"
    );
    let l = Loaded::from_path("here.wasm", Ok(EMPTY_COMPONENT.to_vec())).unwrap();
    assert_eq!(l.source, "here.wasm");
}

#[test]
fn interpretation_follows_the_walk() {
    let walk = vec![
        Section::Component,
        Section::NestedComponent,
        Section::Component,
        Section::NestedModule,
        Section::Module,
        Section::End,
        Section::Exports(vec!["inner".to_string()]),
        Section::End,
        Section::Other,
        Section::Exports(vec!["a".to_string(), "#w1".to_string()]),
        Section::Exports(vec!["#w2".to_string()]),
        Section::End,
    ];
    let l = Loaded::interpret("s", vec![1, 2, 3], Ok(()), Ok(walk)).unwrap();
    assert_eq!(l.exports, vec!["a", "#w1", "#w2"]);
    assert_eq!(l.world_id.as_deref(), Some("w1"));
    assert_eq!(l.size, 3);
    let e = Loaded::interpret("s", Vec::new(), Err("no".to_string()), Ok(Vec::new())).unwrap_err();
    assert!(matches!(e, ember::Error::Validation(_)));
    let e = Loaded::interpret("s", Vec::new(), Ok(()), Err("eof".to_string())).unwrap_err();
    assert_eq!(e.to_string(), "invalid component artifact `s`: eof");
    let e = Loaded::interpret("s", Vec::new(), Ok(()), Ok(Vec::new())).unwrap_err();
    assert!(matches!(e, ember::Error::InvalidComponent { .. }));
}

#[test]
fn the_digest_does_not_depend_on_the_source() {
    let a = Loaded::from_bytes("here", EMPTY_COMPONENT.to_vec()).unwrap();
    let b = Loaded::from_bytes("there", EMPTY_COMPONENT.to_vec()).unwrap();
    assert_eq!(a.digest, b.digest);
    assert_ne!(a.digest, digest(EMPTY_MODULE));
}

#[test]
fn entrypoints_are_the_exports_that_take_requests() {
    let names = |v: &[&str]| v.iter().map(|s| s.to_string()).collect::<Vec<String>>();
    let exports = names(&["x", "acme:runtime/handler@2.0.0", "handler", "#ember-guest", "y"]);
    assert_eq!(
        ember::component::loader::entrypoints(&exports),
        names(&["acme:runtime/handler@2.0.0", "handler", "#ember-guest"])
    );
    assert!(ember::component::loader::entrypoints(&names(&["x", "handlers"])).is_empty());
}
