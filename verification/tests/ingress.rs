//! Ingress, component ABI and error answers.

use ember::component::linker::{HostCtx, LogLevel, Response, ScratchError};
use ember::config::{Config, HttpConfig};
use ember::http::bridge::{EgressPolicy, HttpBridge};
use ember::http::headers::value_text;
use ember::http::ingress::{
    dispatch, request_id_header, Incoming, IngressError, HEALTHY, METRICS_CONTENT_TYPE,
};
use ember::runtime::{Runtime, TenantId};
use ember::table::Table;
use ember::wasi::{Sandbox, SandboxLimits};
use ember::Error;

fn incoming(tenant: &str, path: &str) -> Incoming {
    Incoming {
        tenant: tenant.to_string(),
        method: "GET".to_string(),
        path: path.to_string(),
        query: None,
        headers: vec![("x".to_string(), b"y".to_vec())],
        body: Ok(b"hi".to_vec()),
    }
}

fn host(quota: usize) -> HostCtx {
    let limits = SandboxLimits {
        memfs_quota_bytes: quota,
        ..SandboxLimits::default()
    };
    let mut settings = Table::new();
    settings.insert("UPSTREAM".to_string(), "https://a".to_string());
    let s = Sandbox::new(TenantId::new("acme").unwrap(), limits, settings).unwrap();
    HostCtx::new(s, HttpBridge::new(EgressPolicy::default(), 10))
}

fn answer(e: Error) -> (u16, String) {
    let r = IngressError::new(e).into_response();
    assert_eq!(
        r.headers,
        vec![("content-type".to_string(), b"application/json".to_vec())]
    );
    (r.status, String::from_utf8(r.body).unwrap())
}

#[test]
fn unknown_tenant_yields_404_json() {
    let runtime: Runtime<u8> = Runtime::build(Config::default(), None, None, Ok(()))
        .unwrap()
        .runtime;
    let (id, _) = dispatch(incoming("ghost", "/ghost/ping")).unwrap();
    let (status, body) = answer(runtime.route(&id).unwrap_err());
    assert_eq!(status, 404);
    let json: serde_json::Value = serde_json::from_str(&body).unwrap();
    assert_eq!(json["status"], 404);
    assert!(json["error"].as_str().unwrap().contains("ghost"));
}

#[test]
fn sandbox_limit_error_maps_to_429() {
    let (status, body) = answer(Error::LimitExceeded("fuel".to_string()));
    assert_eq!(status, 429);
    let json: serde_json::Value = serde_json::from_str(&body).unwrap();
    assert_eq!(json["status"], 429);
}

#[test]
fn errors_are_answered_in_json() {
    assert_eq!(
        answer(Error::TenantNotFound("ghost".to_string())),
        (
            404,
            r#"{"error":"tenant not found: ghost","status":404}"#.to_string()
        )
    );
    assert_eq!(
        answer(Error::LimitExceeded("fuel".to_string())),
        (
            429,
            r#"{"error":"sandbox limit exceeded: fuel","status":429}"#.to_string()
        )
    );
    assert_eq!(
        answer(Error::Http("\"q\" \\ \n\r\t\u{8}\u{c}\u{1}\u{1f}\u{7f} é".to_string())).1,
        "{\"error\":\"http error: \\\"q\\\" \\\\ \\n\\r\\t\\b\\f\\u0001\\u001f\u{7f} é\",\"status\":400}"
    );
}

#[test]
fn error_bodies_are_what_a_json_parser_reads() {
    let (status, body) = answer(Error::Config("tenant `x`: \u{0} \"bad\"".to_string()));
    let v: serde_json::Value = serde_json::from_str(&body).unwrap();
    assert_eq!(v["status"], status);
    assert_eq!(v["error"], "configuration error: tenant `x`: \u{0} \"bad\"");
}

#[test]
fn every_error_has_its_status() {
    let s = || "x".to_string();
    let table: Vec<(Error, u16, &str)> = vec![
        (Error::Config(s()), 400, "configuration error: x"),
        (
            Error::InvalidComponent {
                path: s(),
                reason: s(),
            },
            400,
            "invalid component artifact `x`: x",
        ),
        (Error::Contract(s()), 400, "component contract violated: x"),
        (Error::ComponentNotFound(s()), 404, "component not found: x"),
        (Error::TenantNotFound(s()), 404, "tenant not found: x"),
        (Error::Registry(s()), 500, "registry error: x"),
        (Error::Oci(s()), 500, "oci distribution error: x"),
        (Error::Wasm(s()), 500, "wasmtime error: x"),
        (Error::Validation(s()), 500, "validation error: x"),
        (Error::Http(s()), 400, "http error: x"),
        (Error::Io(s()), 500, "i/o error: x"),
        (
            Error::DigestMismatch {
                expected: s(),
                computed: s(),
            },
            409,
            "digest mismatch: expected x, computed x",
        ),
        (Error::LimitExceeded(s()), 429, "sandbox limit exceeded: x"),
        (Error::Shutdown, 503, "shutdown requested"),
    ];
    for (e, status, text) in table {
        assert_eq!(e.status(), status);
        assert_eq!(e.to_string(), text);
    }
}

#[test]
fn requests_are_routed_by_their_first_segment() {
    for (path, seen) in [
        ("/echo/ping", "/ping"),
        ("/echo/a/b/", "/a/b/"),
        ("/echo/", "/"),
        ("/echo", "/"),
        ("//x", "/x"),
        ("echo/x", "/x"),
        ("", "/"),
    ] {
        let (id, req) = dispatch(incoming("echo", path)).unwrap();
        assert_eq!(id.as_str(), "echo");
        assert_eq!(req.path, seen, "{path}");
        assert_eq!(req.method, "GET");
        assert_eq!(req.headers, vec![("x".to_string(), b"y".to_vec())]);
        assert_eq!(req.body, b"hi");
    }
}

#[test]
fn bad_requests_are_refused_before_dispatch() {
    let e = dispatch(incoming("no way", "/no way/x")).unwrap_err();
    assert_eq!(e.into_response().status, 400);
    let e = dispatch(Incoming {
        body: Err("length limit exceeded".to_string()),
        ..incoming("no way", "/x")
    })
    .unwrap_err();
    let r = e.into_response();
    assert_eq!(r.status, 400);
    assert_eq!(
        String::from_utf8(r.body).unwrap(),
        r#"{"error":"http error: length limit exceeded","status":400}"#
    );
    assert_eq!(HEALTHY, "ok");
    assert!(METRICS_CONTENT_TYPE.starts_with("text/plain"));
}

#[test]
fn responses_drop_headers_that_cannot_be_sent() {
    let long = "n".repeat(65536);
    let fit = "n".repeat(65535);
    let h = |n: &str, v: &str| (n.to_string(), v.to_string());
    let r = Response {
        status: 201,
        headers: vec![
            h("Content-Type", "text/plain"),
            h("", "x"),
            h("bad name", "x"),
            h("né", "x"),
            h("ok", "line\nbreak"),
            h("ok", "tab\tand é"),
            h("del", "\u{7f}"),
            h("!#$%&'*+-.^_`|~09azAZ", ""),
            h(&long, "x"),
            h(&fit, "x"),
            h("Set-Cookie", "a"),
            h("set-cookie", "b"),
        ],
        body: vec![1, 2],
    }
    .into_http();
    assert_eq!(r.status, 201);
    assert_eq!(r.body, vec![1, 2]);
    assert_eq!(
        r.headers,
        vec![
            ("content-type".to_string(), b"text/plain".to_vec()),
            ("ok".to_string(), "tab\tand é".as_bytes().to_vec()),
            ("!#$%&'*+-.^_`|~09azaz".to_string(), Vec::new()),
            (fit, b"x".to_vec()),
            ("set-cookie".to_string(), b"a".to_vec()),
            ("set-cookie".to_string(), b"b".to_vec()),
        ]
    );
}

#[test]
fn header_values_are_text_when_visible() {
    assert_eq!(value_text(b"a b\t~"), Some("a b\t~".to_string()));
    assert_eq!(value_text(b""), Some(String::new()));
    for bad in [&[0x7fu8][..], &[0x80], &[0x1f], &[0x00]] {
        assert_eq!(value_text(bad), None);
    }
}

#[test]
fn host_answers_the_guest() {
    let mut h = host(8);
    assert_eq!(h.tenant_id(), "acme");
    assert_eq!(h.get_config("UPSTREAM"), Some("https://a".to_string()));
    assert_eq!(h.get_config("missing"), None);
    assert_eq!(h.scratch_write("k", vec![1; 8]), Ok(()));
    assert_eq!(
        h.scratch_write("l", vec![1]),
        Err(ScratchError::QuotaExceeded)
    );
    assert_eq!(
        h.scratch_write("/abs", vec![0; 100]),
        Err(ScratchError::InvalidPath)
    );
    assert_eq!(h.scratch_write("", Vec::new()), Err(ScratchError::InvalidPath));
    assert_eq!(h.scratch_read("k"), Some(vec![1; 8]));
    assert_eq!(h.scratch_read("l"), None);
    assert_eq!(h.scratch_bytes(), 8);
    let line = h.emit(LogLevel::Warn, "careful".to_string());
    assert_eq!(line.level, LogLevel::Warn);
    assert_eq!(line.target, "ember::guest::acme");
    assert_eq!(line.message, "careful");
}

#[test]
fn tenant_ids_are_path_segments() {
    for id in ["a", "Echo-1_x", &"z".repeat(64)] {
        let (t, req) = dispatch(incoming(id, &format!("/{id}/some/path"))).unwrap();
        assert_eq!(t.as_str(), id);
        assert_eq!(req.path, "/some/path");
    }
}

#[test]
fn request_id_header_comes_from_the_config() {
    let config = |name: &str| HttpConfig {
        request_id_header: name.to_string(),
        ..HttpConfig::default()
    };
    assert_eq!(request_id_header(&HttpConfig::default()).unwrap(), "x-request-id");
    assert_eq!(request_id_header(&config("X-Trace")).unwrap(), "x-trace");
    assert_eq!(
        request_id_header(&config("no way")).unwrap_err().to_string(),
        "configuration error: http.request_id_header `no way` is no header name"
    );
}
