//! Egress policy and the outbound bridge.

use ember::http::bridge::{Authority, EgressPolicy, HttpBridge, OutboundHead, Redirect};
use ember::time::Duration;

fn policy(rules: &[&str]) -> EgressPolicy {
    EgressPolicy {
        allow: rules.iter().map(|s| s.to_string()).collect(),
        default_deny: true,
    }
}

fn head(method: &str, scheme: &str, host: &str, port: Option<&str>) -> OutboundHead {
    OutboundHead {
        method: method.to_string(),
        uri: format!("{scheme}://{host}/x"),
        scheme: Some(scheme.to_string()),
        authority: Some(Authority {
            host: host.to_string(),
            port: port.map(|p| p.to_string()),
        }),
        headers: vec![
            ("accept".to_string(), b"text/*".to_vec()),
            ("x-bin".to_string(), vec![0xff]),
            ("accept".to_string(), b"a\tb".to_vec()),
        ],
    }
}

#[test]
fn exact_host_matches_any_scheme() {
    assert!(policy(&["api.example.com"]).allows("https://api.example.com:443"));
    assert!(policy(&["api.example.com"]).allows("http://api.example.com"));
}

#[test]
fn wildcard_matches_subdomains_and_bare() {
    let p = policy(&["*.example.com"]);
    assert!(p.allows("example.com"));
    assert!(p.allows("api.example.com"));
    assert!(p.allows("a.b.example.com"));
    assert!(!p.allows("example.net"));
}

#[test]
fn scheme_restricted_rule() {
    let p = policy(&["https://api.example.com"]);
    assert!(p.allows("https://api.example.com"));
    assert!(!p.allows("http://api.example.com"));
}

#[test]
fn deny_by_default() {
    let p = policy(&[]);
    assert!(!p.allows("https://evil.example.com"));
}

#[test]
fn port_mismatch_denied() {
    let p = policy(&["localhost:8080"]);
    assert!(p.allows("localhost:8080"));
    assert!(!p.allows("localhost:8081"));
}

#[test]
fn explicit_allow_beats_default_deny() {
    let mut p = policy(&["upstream.internal"]);
    p.default_deny = true;
    assert!(p.allows("upstream.internal"));
}

#[test]
fn wildcards_and_case() {
    assert!(policy(&["*"]).allows("localhost"));
    assert!(policy(&["*"]).allows("https://localhost:8443"));
    assert!(!policy(&["*"]).allows("a.b"));
    assert!(!policy(&["*"]).allows("anything.at.all"));
    assert!(policy(&["api.*.com"]).allows("API.example.COM"));
    assert!(!policy(&["api.*.com"]).allows("api.a.b.com"));
    assert!(!policy(&["example.com"]).allows("api.example.com"));
    assert!(!policy(&["*.example.com"]).allows("badexample.com"));
    assert!(!policy(&["*.a.b"]).allows("b"));
    assert!(policy(&["HTTPS://api.example.com"]).allows("https://api.example.com"));
    assert!(policy(&["https://api.example.com"]).allows("api.example.com"));
    assert!(policy(&["localhost:8080"]).allows("localhost"));
    assert!(policy(&["localhost:8080"]).allows("http://LOCALHOST:8080"));
}

#[test]
fn ipv6_literals_need_an_exact_entry() {
    assert!(policy(&["[::1]:8080"]).allows("http://[::1]:8080"));
    assert!(!policy(&["[::1]:8080"]).allows("http://[::1]:8081"));
    assert!(!policy(&["*.1"]).allows("[::1]:8080"));
}

#[test]
fn without_default_deny_everything_goes() {
    let p = EgressPolicy {
        allow: Vec::new(),
        default_deny: false,
    };
    assert!(p.allows("http://anywhere.example"));
}

#[test]
fn extending_a_policy_is_a_union() {
    let mut a = policy(&["a.example"]);
    a.default_deny = false;
    let b = policy(&["b.example", "c.example"]);
    a.extend(&b);
    assert_eq!(a.allow, vec!["a.example", "b.example", "c.example"]);
    assert!(a.default_deny);
    assert!(a.allows("a.example"));
    assert!(a.allows("c.example"));
    assert!(!a.allows("d.example"));
    assert_eq!(a.clone().allow, a.allow);
}

#[test]
fn bridge_turns_allowed_requests_into_upstream_ones() {
    let b = HttpBridge::new(policy(&["api.example.com"]), 10);
    let up = b
        .authorize(head("PATCH", "https", "api.example.com", Some("443")))
        .unwrap();
    assert_eq!(up.method, "PATCH");
    assert_eq!(up.uri, "https://api.example.com/x");
    assert_eq!(up.timeout.as_secs(), 28);
    assert_eq!(
        up.headers,
        vec![
            ("accept".to_string(), "text/*".to_string()),
            ("x-bin".to_string(), String::new()),
            ("accept".to_string(), "a\tb".to_string()),
        ]
    );
    let up = b
        .authorize(head("BREW", "https", "api.example.com", None))
        .unwrap();
    assert_eq!(up.method, "GET");
    for m in ["GET", "POST", "PUT", "DELETE", "PATCH", "HEAD", "OPTIONS"] {
        let up = b.authorize(head(m, "https", "api.example.com", None)).unwrap();
        assert_eq!(up.method, m);
    }
}

#[test]
fn bridge_refuses_what_the_policy_does_not_allow() {
    let b = HttpBridge::new(policy(&["https://api.example.com:8443"]), 10)
        .with_connect_timeout(Duration::from_millis(1500));
    assert_eq!(b.connect_timeout().as_millis(), 1500);
    assert_eq!(b.max_body_bytes(), 10);
    assert_eq!(b.policy().allow.len(), 1);
    let ok = b
        .authorize(head("GET", "https", "api.example.com", Some("8443")))
        .unwrap();
    assert_eq!(ok.timeout.as_millis(), 26_500);
    for (scheme, host, port) in [
        ("http", "api.example.com", Some("8443")),
        ("https", "api.example.com", Some("443")),
        ("https", "evil.example.com", Some("8443")),
    ] {
        let e = b.authorize(head("GET", scheme, host, port)).unwrap_err();
        assert_eq!(e.status, 403);
        assert_eq!(e.message, format!("egress denied for `{host}`"));
    }
    let e = b
        .authorize(OutboundHead {
            authority: None,
            ..head("GET", "https", "api.example.com", None)
        })
        .unwrap_err();
    assert_eq!(e.status, 500);
    assert_eq!(e.message, "outbound request missing authority");
}

#[test]
fn an_unstated_port_is_that_of_the_scheme() {
    let b = HttpBridge::new(policy(&["localhost:8080", "a.example:80", "b.example:443"]), 10);
    let allowed = |scheme: &str, host: &str, port: Option<&str>| {
        b.authorize(head("GET", scheme, host, port)).is_ok()
    };
    assert!(allowed("http", "localhost", Some("8080")));
    assert!(!allowed("http", "localhost", None));
    assert!(!allowed("https", "localhost", None));
    assert!(allowed("http", "a.example", None));
    assert!(allowed("HTTP", "a.example", None));
    assert!(!allowed("https", "a.example", None));
    assert!(allowed("https", "b.example", None));
    assert!(!allowed("http", "b.example", None));
    assert!(allowed("ftp", "localhost", None));
    let v6 = HttpBridge::new(policy(&["[::1]"]), 10);
    assert!(v6.authorize(head("GET", "http", "[::1]", None)).is_ok());
    assert!(v6.authorize(head("GET", "http", "[::1]", Some("81"))).is_ok());
    assert!(v6.authorize(head("GET", "http", "[::1]", Some("80"))).is_ok());
    assert!(v6.authorize(head("GET", "http", "[::2]", Some("80"))).is_err());
    let v6 = HttpBridge::new(policy(&["[::1]:81"]), 10);
    assert!(v6.authorize(head("GET", "http", "[::1]", Some("81"))).is_ok());
    assert!(v6.authorize(head("GET", "http", "[::1]", Some("80"))).is_err());
}

#[test]
fn redirects_are_put_to_the_policy() {
    let b = HttpBridge::new(policy(&["https://api.example.com"]), 10);
    let to = |b: &HttpBridge, requested: usize, scheme: &str, host: &str| {
        b.redirect(
            requested,
            Some(scheme.to_string()),
            Some(Authority {
                host: host.to_string(),
                port: None,
            }),
        )
    };
    assert!(matches!(to(&b, 1, "https", "api.example.com"), Redirect::Follow));
    assert!(matches!(to(&b, 5, "https", "api.example.com"), Redirect::Follow));
    assert!(matches!(to(&b, 6, "https", "api.example.com"), Redirect::TooMany));
    match to(&b.clone(), 1, "http", "api.example.com") {
        Redirect::Denied(e) => {
            assert_eq!(e.status, 403);
            assert_eq!(e.message, "egress denied for `api.example.com`");
        }
        r => panic!("{r:?}"),
    }
    assert!(matches!(to(&b, 1, "https", "evil.example"), Redirect::Denied(_)));
    match b.redirect(1, Some("data".to_string()), None) {
        Redirect::Denied(e) => assert_eq!(e.status, 500),
        r => panic!("{r:?}"),
    }
}

#[test]
fn bridge_caps_bodies_both_ways() {
    let b = HttpBridge::new(policy(&[]), 3);
    assert_eq!(b.admit_body(Some(vec![1, 2, 3])).unwrap(), vec![1, 2, 3]);
    let e = b.admit_body(Some(vec![0; 4])).unwrap_err();
    assert_eq!(e.status, 413);
    assert_eq!(e.message, "outbound request body exceeds 3 bytes");
    let e = b.admit_body(None).unwrap_err();
    assert_eq!((e.status, e.message.as_str()), (500, "failed to read outbound body"));

    let r = b
        .materialize(
            204,
            vec![("x".to_string(), vec![0x80]), ("y".to_string(), b"z".to_vec())],
            Ok(vec![9]),
        )
        .unwrap();
    assert_eq!(r.status, 204);
    assert_eq!(
        r.headers,
        vec![
            ("x".to_string(), String::new()),
            ("y".to_string(), "z".to_string())
        ]
    );
    assert_eq!(r.body, vec![9]);
    let e = b.materialize(200, Vec::new(), Ok(vec![0; 4])).unwrap_err();
    assert_eq!(e.status, 502);
    assert_eq!(e.message, "outbound response body exceeds 3 bytes");
    let e = b
        .materialize(200, Vec::new(), Err("reset".to_string()))
        .unwrap_err();
    assert_eq!(e.message, "failed to read outbound response: reset");
    let e = HttpBridge::send_failed("refused");
    assert_eq!((e.status, e.message.as_str()), (502, "outbound request failed: refused"));
}

#[test]
fn bridge_client_settings() {
    let c = HttpBridge::client_settings();
    assert_eq!(c.redirect_limit, 5);
    assert_eq!(c.idle_per_host, 16);
    assert_eq!(c.idle_timeout.as_secs(), 60);
    assert_eq!(c.keepalive.as_secs(), 30);
    assert_eq!(
        HttpBridge::client_failed("no tls").to_string(),
        "configuration error: egress client: no tls"
    );
}
