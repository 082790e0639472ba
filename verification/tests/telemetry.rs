//! Metrics, log filters, tables and spans of time.

use ember::table::Table;
use ember::telemetry::{
    describe, init_failed, log_filter, record_invoke, record_parked, record_reload,
    render_metrics, InitStage, MetricKind, Unit, Update,
};
use ember::time::{Duration, Instant};

fn name(u: &Update) -> &str {
    match u {
        Update::Observe { name, .. } | Update::Count { name, .. } | Update::Assign { name, .. } => {
            name
        }
    }
}

#[test]
fn descriptions_cover_the_metrics() {
    let v = describe();
    let names: Vec<&str> = v.iter().map(|d| d.name.as_str()).collect();
    assert_eq!(
        names,
        vec![
            "ember.invoke.duration_us",
            "ember.invoke.total",
            "ember.invoke.errors",
            "ember.reload.parked",
            "ember.tenant.active_digests",
        ]
    );
    assert_eq!(v[0].kind, MetricKind::Histogram);
    assert_eq!(v[0].unit, Unit::Microseconds);
    assert_eq!(v[1].help, "invocations delivered to component handlers");
    assert_eq!(v[4].kind, MetricKind::Gauge);
}

#[test]
fn invocations_are_recorded_with_their_status() {
    let v = record_invoke("sha256:a", Duration::from_millis(3), 499);
    assert_eq!(v.iter().map(name).collect::<Vec<_>>(), vec![
        "ember.invoke.duration_us",
        "ember.invoke.total"
    ]);
    match &v[1] {
        Update::Count { by, labels, .. } => {
            assert_eq!(*by, 1);
            assert_eq!(labels[1], ("status".to_string(), "499".to_string()));
        }
        u => panic!("{u:?}"),
    }
    let v = record_invoke("sha256:a", Duration::from_millis(3), 500);
    assert_eq!(v.len(), 3);
    assert_eq!(name(&v[2]), "ember.invoke.errors");
}

#[test]
fn parking_and_reloads_are_recorded() {
    let v = record_parked("echo", 3);
    assert_eq!(v.len(), 1);
    match &v[0] {
        Update::Count { labels, .. } => assert_eq!(
            *labels,
            vec![
                ("tenant".to_string(), "echo".to_string()),
                ("failures".to_string(), "3".to_string())
            ]
        ),
        u => panic!("{u:?}"),
    }
    let v = record_reload("echo", Some("old"), "new");
    assert_eq!(name(&v[0]), "ember.reload.total");
    match &v[1] {
        Update::Assign {
            name,
            value,
            labels,
        } => {
            assert_eq!(name, "ember.tenant.active_digests");
            assert_eq!(*value, 1);
            assert_eq!(labels[1], ("digest".to_string(), "new".to_string()));
        }
        u => panic!("{u:?}"),
    }
    assert_eq!(v.len(), 3);
    match &v[2] {
        Update::Assign {
            name,
            value,
            labels,
        } => {
            assert_eq!(name, "ember.tenant.active_digests");
            assert_eq!(*value, 0);
            assert_eq!(labels[0], ("tenant".to_string(), "echo".to_string()));
            assert_eq!(labels[1], ("digest".to_string(), "old".to_string()));
        }
        u => panic!("{u:?}"),
    }
    assert_eq!(record_reload("echo", Some("same"), "same").len(), 2);
    assert_eq!(record_reload("echo", None, "new").len(), 2);
}

#[test]
fn metrics_fall_back_to_a_comment() {
    assert_eq!(render_metrics(None), "# ember metrics unavailable\n");
    assert_eq!(render_metrics(Some("m 1\n".to_string())), "m 1\n");
}

#[test]
fn log_filter_precedence() {
    let s = |t: &str| Some(t.to_string());
    assert_eq!(log_filter(s("a"), s("b"), s("c")), "a");
    assert_eq!(log_filter(None, s("b"), s("c")), "b");
    assert_eq!(log_filter(None, None, s("c")), "c");
    assert_eq!(log_filter(None, None, None), "ember=info,tower_http=info");
    assert_eq!(
        init_failed(InitStage::Filter("==".to_string()), "bad").to_string(),
        "configuration error: invalid log filter `==`: bad"
    );
    assert_eq!(
        init_failed(InitStage::Tracing, "set").to_string(),
        "configuration error: tracing: set"
    );
    assert_eq!(
        init_failed(InitStage::Recorder, "set").to_string(),
        "configuration error: metrics recorder: set"
    );
}

#[test]
fn tables_keep_one_value_per_key() {
    let mut t: Table<u8> = Table::new();
    assert_eq!(t.len(), 0);
    t.insert("a".to_string(), 1);
    t.insert("b".to_string(), 2);
    t.insert("a".to_string(), 3);
    assert_eq!(t.len(), 2);
    assert_eq!(t.get("a"), Some(&3));
    assert_eq!(t.entry(1).key, "b");
    assert!(t.contains_key("b"));
    assert_eq!(t.remove("a"), Some(3));
    assert_eq!(t.remove("a"), None);
    assert_eq!(t.get("a"), None);
    assert_eq!(t.entry(0).value, 2);
}

#[test]
fn spans_and_points_of_time() {
    assert_eq!(Duration::from_secs(2), Duration::from_millis(2000));
    assert_eq!(Duration::from_nanos(1_999_999).as_millis(), 1);
    assert_eq!(Duration::from_nanos(1_999_999).as_micros(), 1999);
    assert_eq!(Duration::from_secs(u64::MAX).as_secs(), u64::MAX);
    assert!(Duration::from_secs(0).is_zero());
    assert_eq!(
        Duration::from_secs(1).plus(&Duration::from_millis(1)).as_nanos(),
        1_001_000_000
    );
    let a = Instant::at(Duration::from_secs(5));
    let b = Instant::at(Duration::from_secs(8));
    assert_eq!(b.saturating_duration_since(&a).as_secs(), 3);
    assert!(a.saturating_duration_since(&b).is_zero());
    assert!(Duration::from_secs(1).shorter_than(&Duration::from_secs(2)));
}

#[test]
fn version_and_world_are_fixed() {
    assert_eq!(ember::VERSION, "0.1.0");
    assert_eq!(ember::EMBER_WORLD, "ember-guest");
    assert_eq!(ember::MAX_TENANT_ID_LEN, 64);
}
