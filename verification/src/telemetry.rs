//! Tracing and metrics plumbing.
//!
//! The functions here say what is to be recorded for an event; the recorder
//! behind the ingress `/metrics` route is fed with it. All invocation
//! accounting flows through [`record_invoke`].

use vstd::prelude::*;
use vstd::string::*;

use crate::error::{Error, ErrorView};
use crate::text::{decimal_text, same};
use crate::time::Duration;

verus! {

/// A label of a metric: its name and its value.
pub type Label = (String, String);

/// The names and values of labels.
pub open spec fn label_views(v: Seq<Label>) -> Seq<(Seq<char>, Seq<char>)> {
    v.map_values(|l: Label| (l.0@, l.1@))
}

/// One thing to be recorded.
#[derive(Debug)]
pub enum Update {
    /// A span of time, in microseconds.
    Observe { name: String, micros: u128, labels: Vec<Label> },
    /// An increment of a counter.
    Count { name: String, by: u64, labels: Vec<Label> },
    /// The new value of a gauge.
    Assign { name: String, value: u64, labels: Vec<Label> },
}

/// What an [`Update`] says.
pub enum UpdateView {
    Observe { name: Seq<char>, micros: u128, labels: Seq<(Seq<char>, Seq<char>)> },
    Count { name: Seq<char>, by: u64, labels: Seq<(Seq<char>, Seq<char>)> },
    Assign { name: Seq<char>, value: u64, labels: Seq<(Seq<char>, Seq<char>)> },
}

impl View for Update {
    type V = UpdateView;

    open spec fn view(&self) -> UpdateView {
        match self {
            Update::Observe { name, micros, labels } => UpdateView::Observe {
                name: name@,
                micros: *micros,
                labels: label_views(labels@),
            },
            Update::Count { name, by, labels } => UpdateView::Count {
                name: name@,
                by: *by,
                labels: label_views(labels@),
            },
            Update::Assign { name, value, labels } => UpdateView::Assign {
                name: name@,
                value: *value,
                labels: label_views(labels@),
            },
        }
    }
}

/// What each of several updates says.
pub open spec fn update_views(v: Seq<Update>) -> Seq<UpdateView> {
    v.map_values(|u: Update| u@)
}

/// What kind of metric is described.
#[derive(Debug, Clone, Copy, PartialEq, Eq, Structural)]
pub enum MetricKind {
    Counter,
    Gauge,
    Histogram,
}

/// The unit of a metric.
#[derive(Debug, Clone, Copy, PartialEq, Eq, Structural)]
pub enum Unit {
    Count,
    Microseconds,
}

/// The description of a metric.
#[derive(Debug)]
pub struct Description {
    /// What kind of metric it is.
    pub kind: MetricKind,
    /// Its name.
    pub name: String,
    /// Its unit.
    pub unit: Unit,
    /// What it measures.
    pub help: String,
}

/// What a [`Description`] says.
pub struct DescriptionView {
    pub kind: MetricKind,
    pub name: Seq<char>,
    pub unit: Unit,
    pub help: Seq<char>,
}

impl View for Description {
    type V = DescriptionView;

    open spec fn view(&self) -> DescriptionView {
        DescriptionView {
            kind: self.kind,
            name: self.name@,
            unit: self.unit,
            help: self.help@,
        }
    }
}

/// What each of several descriptions says.
pub open spec fn description_views(v: Seq<Description>) -> Seq<DescriptionView> {
    v.map_values(|d: Description| d@)
}

/// The metrics that are described.
pub open spec fn described() -> Seq<DescriptionView> {
    seq![
        DescriptionView {
            kind: MetricKind::Histogram,
            name: "ember.invoke.duration_us"@,
            unit: Unit::Microseconds,
            help: "wall-clock time from request receipt to component response"@,
        },
        DescriptionView {
            kind: MetricKind::Counter,
            name: "ember.invoke.total"@,
            unit: Unit::Count,
            help: "invocations delivered to component handlers"@,
        },
        DescriptionView {
            kind: MetricKind::Counter,
            name: "ember.invoke.errors"@,
            unit: Unit::Count,
            help: "invocations that failed inside the component or the sandbox"@,
        },
        DescriptionView {
            kind: MetricKind::Counter,
            name: "ember.reload.parked"@,
            unit: Unit::Count,
            help: "tenants parked after exhausting the pull failure budget"@,
        },
        DescriptionView {
            kind: MetricKind::Gauge,
            name: "ember.tenant.active_digests"@,
            unit: Unit::Count,
            help: "1 while a tenant has an active component digest"@,
        },
    ]
}

/// A description from its parts.
fn description(kind: MetricKind, name: &str, unit: Unit, help: &str) -> (d: Description)
    ensures
        d@ == (DescriptionView { kind, name: name@, unit, help: help@ }),
{
    Description { kind, name: name.to_owned(), unit, help: help.to_owned() }
}

/// The metric descriptions to register.
pub fn describe() -> (v: Vec<Description>)
    ensures
        description_views(v@) == described(),
{
    let mut v: Vec<Description> = Vec::new();
    v.push(
        description(
            MetricKind::Histogram,
            "ember.invoke.duration_us",
            Unit::Microseconds,
            "wall-clock time from request receipt to component response",
        ),
    );
    v.push(
        description(
            MetricKind::Counter,
            "ember.invoke.total",
            Unit::Count,
            "invocations delivered to component handlers",
        ),
    );
    v.push(
        description(
            MetricKind::Counter,
            "ember.invoke.errors",
            Unit::Count,
            "invocations that failed inside the component or the sandbox",
        ),
    );
    v.push(
        description(
            MetricKind::Counter,
            "ember.reload.parked",
            Unit::Count,
            "tenants parked after exhausting the pull failure budget",
        ),
    );
    v.push(
        description(
            MetricKind::Gauge,
            "ember.tenant.active_digests",
            Unit::Count,
            "1 while a tenant has an active component digest",
        ),
    );
    proof {
        assert(description_views(v@) =~= described());
    }
    v
}

/// The body of the `/metrics` route, given what the recorder renders; `None`
/// where there is no recorder.
pub fn render_metrics(rendered: Option<String>) -> (s: String)
    ensures
        s@ == (match rendered {
            Some(t) => t@,
            None => "# ember metrics unavailable\n"@,
        }),
{
    match rendered {
        Some(t) => t,
        None => "# ember metrics unavailable\n".to_owned(),
    }
}

/// One label.
fn label1(name: &str, value: &str) -> (v: Vec<Label>)
    ensures
        label_views(v@) == seq![(name@, value@)],
{
    let mut v: Vec<Label> = Vec::new();
    v.push((name.to_owned(), value.to_owned()));
    proof {
        assert(label_views(v@) =~= seq![(name@, value@)]);
    }
    v
}

/// Two labels.
fn label2(name: &str, value: &str, other: &str, other_value: &str) -> (v: Vec<Label>)
    ensures
        label_views(v@) == seq![(name@, value@), (other@, other_value@)],
{
    let mut v: Vec<Label> = label1(name, value);
    let ghost first = label_views(v@);
    v.push((other.to_owned(), other_value.to_owned()));
    proof {
        assert(label_views(v@) =~= first.push((other@, other_value@)));
        assert(label_views(v@) =~= seq![(name@, value@), (other@, other_value@)]);
    }
    v
}

/// What is recorded for an invocation.
pub open spec fn invoke_updates(digest: Seq<char>, micros: u128, status: u16) -> Seq<UpdateView> {
    let delivered = seq![
        UpdateView::Observe {
            name: "ember.invoke.duration_us"@,
            micros,
            labels: seq![("digest"@, digest)],
        },
        UpdateView::Count {
            name: "ember.invoke.total"@,
            by: 1,
            labels: seq![
                ("digest"@, digest),
                ("status"@, crate::text::decimal(status as nat)),
            ],
        },
    ];
    if status >= 500 {
        delivered.push(
            UpdateView::Count {
                name: "ember.invoke.errors"@,
                by: 1,
                labels: seq![("digest"@, digest)],
            },
        )
    } else {
        delivered
    }
}

/// Record one invocation outcome.
pub fn record_invoke(digest: &str, duration: Duration, status: u16) -> (v: Vec<Update>)
    ensures
        update_views(v@) == invoke_updates(
            digest@,
            (duration.nanos() / 1_000) as u128,
            status,
        ),
{
    let micros: u128 = duration.as_micros();
    let mut v: Vec<Update> = Vec::new();
    v.push(
        Update::Observe {
            name: "ember.invoke.duration_us".to_owned(),
            micros,
            labels: label1("digest", digest),
        },
    );
    v.push(
        Update::Count {
            name: "ember.invoke.total".to_owned(),
            by: 1,
            labels: label2(
                "digest",
                digest,
                "status",
                decimal_text(status as u128).as_str(),
            ),
        },
    );
    if status >= 500 {
        v.push(
            Update::Count {
                name: "ember.invoke.errors".to_owned(),
                by: 1,
                labels: label1("digest", digest),
            },
        );
    }
    proof {
        assert(update_views(v@) =~= invoke_updates(digest@, micros, status));
    }
    v
}

/// What is recorded for a tenant that was parked.
pub open spec fn parked_updates(tenant: Seq<char>, failures: usize) -> Seq<UpdateView> {
    seq![
        UpdateView::Count {
            name: "ember.reload.parked"@,
            by: 1,
            labels: seq![
                ("tenant"@, tenant),
                ("failures"@, crate::text::decimal(failures as nat)),
            ],
        },
    ]
}

/// Record that a tenant hit its consecutive-failure budget and was parked.
pub fn record_parked(tenant: &str, failures: usize) -> (v: Vec<Update>)
    ensures
        update_views(v@) == parked_updates(tenant@, failures),
{
    let mut v: Vec<Update> = Vec::new();
    v.push(
        Update::Count {
            name: "ember.reload.parked".to_owned(),
            by: 1,
            labels: label2(
                "tenant",
                tenant,
                "failures",
                decimal_text(failures as u128).as_str(),
            ),
        },
    );
    proof {
        assert(update_views(v@) =~= parked_updates(tenant@, failures));
    }
    v
}

/// The digest a tenant comes from, or `none` where it had none.
pub open spec fn origin(from: Option<Seq<char>>) -> Seq<char> {
    match from {
        Some(d) => d,
        None => "none"@,
    }
}

/// What is recorded for a tenant that switched to a new digest. The gauge is 1
/// while a digest is active, so one that is superseded goes back to 0.
pub open spec fn reload_updates(
    tenant: Seq<char>,
    from: Option<Seq<char>>,
    to: Seq<char>,
) -> Seq<UpdateView> {
    match from {
        Some(d) => if d == to {
            switch_updates(tenant, from, to)
        } else {
            switch_updates(tenant, from, to).push(gauge_view(tenant, d, 0))
        },
        None => switch_updates(tenant, from, to),
    }
}

/// The gauge that tells whether `digest` is active for `tenant`.
pub open spec fn gauge_view(tenant: Seq<char>, digest: Seq<char>, value: u64) -> UpdateView {
    UpdateView::Assign {
        name: "ember.tenant.active_digests"@,
        value,
        labels: seq![("tenant"@, tenant), ("digest"@, digest)],
    }
}

/// The reload itself, and the gauge of the digest that is active now.
pub open spec fn switch_updates(
    tenant: Seq<char>,
    from: Option<Seq<char>>,
    to: Seq<char>,
) -> Seq<UpdateView> {
    seq![
        UpdateView::Count {
            name: "ember.reload.total"@,
            by: 1,
            labels: seq![
                ("tenant"@, tenant),
                ("from"@, origin(from)),
                ("to"@, to),
            ],
        },
        gauge_view(tenant, to, 1),
    ]
}

/// Executable form of [`gauge_view`].
fn gauge(tenant: &str, digest: &str, value: u64) -> (u: Update)
    ensures
        u@ == gauge_view(tenant@, digest@, value),
{
    Update::Assign {
        name: "ember.tenant.active_digests".to_owned(),
        value,
        labels: label2("tenant", tenant, "digest", digest),
    }
}

/// Record that a tenant switched to a new component digest.
pub fn record_reload(tenant: &str, from: Option<&str>, to: &str) -> (v: Vec<Update>)
    ensures
        update_views(v@) == reload_updates(
            tenant@,
            crate::registry::store::opt_chars(from),
            to@,
        ),
{
    let source: String = match from {
        Some(d) => d.to_owned(),
        None => "none".to_owned(),
    };
    let mut labels: Vec<Label> = label2("tenant", tenant, "from", source.as_str());
    let ghost first = label_views(labels@);
    labels.push(("to".to_owned(), to.to_owned()));
    proof {
        assert(label_views(labels@) =~= first.push(("to"@, to@)));
        assert(label_views(labels@) =~= seq![
            ("tenant"@, tenant@),
            ("from"@, source@),
            ("to"@, to@),
        ]);
    }
    let mut v: Vec<Update> = Vec::new();
    v.push(Update::Count { name: "ember.reload.total".to_owned(), by: 1, labels });
    v.push(gauge(tenant, to, 1));
    let ghost switched = switch_updates(tenant@, crate::registry::store::opt_chars(from), to@);
    proof {
        assert(v@[0]@ == switched[0]);
        assert(v@[1]@ == switched[1]);
        assert(update_views(v@) =~= switched);
    }
    if let Some(d) = from {
        if !same(d, to) {
            v.push(gauge(tenant, d, 0));
            proof {
                assert(update_views(v@) =~= switched.push(gauge_view(tenant@, d@, 0)));
            }
        }
    }
    v
}

/// After a reload exactly the digest that is active has its gauge at 1: the
/// new one is set, and a superseded one is reset.
pub proof fn law_superseded_digest_is_reset(tenant: Seq<char>, from: Seq<char>, to: Seq<char>)
    requires
        from != to,
    ensures
        reload_updates(tenant, Some(from), to).contains(gauge_view(tenant, to, 1)),
        reload_updates(tenant, Some(from), to).last() == gauge_view(tenant, from, 0),
        !reload_updates(tenant, Some(from), to).contains(gauge_view(tenant, to, 0)),
        !reload_updates(tenant, Some(to), to).contains(gauge_view(tenant, to, 0)),
        reload_updates(tenant, Some(to), to)[1] == gauge_view(tenant, to, 1),
{
    let v = reload_updates(tenant, Some(from), to);
    assert(v[1] == gauge_view(tenant, to, 1));
    assert(gauge_view(tenant, from, 0) != gauge_view(tenant, to, 0)) by {
        let x = gauge_view(tenant, from, 0)->Assign_labels;
        let y = gauge_view(tenant, to, 0)->Assign_labels;
        assert(x[1].1 == from && y[1].1 == to);
    }
}

/// The log filter: what the command line says, else `EMBER_LOG`, else
/// `RUST_LOG`, else a default.
pub fn log_filter(
    argument: Option<String>,
    ember_log: Option<String>,
    rust_log: Option<String>,
) -> (s: String)
    ensures
        s@ == (match (argument, ember_log, rust_log) {
            (Some(a), _, _) => a@,
            (None, Some(e), _) => e@,
            (None, None, Some(r)) => r@,
            (None, None, None) => "ember=info,tower_http=info"@,
        }),
{
    match argument {
        Some(a) => a,
        None => match ember_log {
            Some(e) => e,
            None => match rust_log {
                Some(r) => r,
                None => "ember=info,tower_http=info".to_owned(),
            },
        },
    }
}

/// Where setting up logs and metrics can fail.
#[derive(Debug)]
pub enum InitStage {
    /// The log filter cannot be read.
    Filter(String),
    /// The log subscriber cannot be installed.
    Tracing,
    /// The metrics recorder cannot be installed.
    Recorder,
}

/// The error for logs or metrics that could not be set up.
pub fn init_failed(stage: InitStage, reason: &str) -> (e: Error)
    ensures
        e@ == ErrorView::Config(
            match stage {
                InitStage::Filter(filter) => "invalid log filter `"@ + filter@ + "`: "@ + reason@,
                InitStage::Tracing => "tracing: "@ + reason@,
                InitStage::Recorder => "metrics recorder: "@ + reason@,
            },
        ),
{
    match stage {
        InitStage::Filter(filter) => Error::Config(
            "invalid log filter `".to_owned().concat(filter.as_str()).concat("`: ").concat(reason),
        ),
        InitStage::Tracing => Error::Config("tracing: ".to_owned().concat(reason)),
        InitStage::Recorder => Error::Config("metrics recorder: ".to_owned().concat(reason)),
    }
}

/// Every invocation is timed and counted under the digest that served it,
/// with its status, and counted as an error exactly where the status is that
/// of a server failure.
pub proof fn law_every_invocation_is_recorded(digest: Seq<char>, micros: u128, status: u16)
    ensures
        ({
            let v = invoke_updates(digest, micros, status);
            &&& v.len() == (if status >= 500 {
                3nat
            } else {
                2
            })
            &&& v[0] is Observe
            &&& v[0]->micros == micros
            &&& v[0]->Observe_name == "ember.invoke.duration_us"@
            &&& v[0]->Observe_labels == seq![("digest"@, digest)]
            &&& v[1] is Count
            &&& v[1]->by == 1
            &&& v[1]->Count_name == "ember.invoke.total"@
            &&& v[1]->Count_labels == seq![
                ("digest"@, digest),
                ("status"@, crate::text::decimal(status as nat)),
            ]
            &&& status >= 500 ==> {
                &&& v[2] is Count
                &&& v[2]->by == 1
                &&& v[2]->Count_name == "ember.invoke.errors"@
                &&& v[2]->Count_labels == seq![("digest"@, digest)]
            }
        }),
{
}

/// A tenant that is parked is counted once, under its id and with the number
/// of its failures.
pub proof fn law_parking_is_counted(tenant: Seq<char>, failures: usize)
    ensures
        parked_updates(tenant, failures).len() == 1,
        parked_updates(tenant, failures)[0] is Count,
        parked_updates(tenant, failures)[0]->by == 1,
        parked_updates(tenant, failures)[0]->Count_name == "ember.reload.parked"@,
        parked_updates(tenant, failures)[0]->Count_labels == seq![
            ("tenant"@, tenant),
            ("failures"@, crate::text::decimal(failures as nat)),
        ],
{
}

/// A switch is counted once, from the digest that was active to the one that
/// is; the gauge of the new digest is then 1, the gauge of another digest that
/// was active before is 0, and no other gauge is touched.
pub proof fn law_switch_moves_the_gauge(
    tenant: Seq<char>,
    from: Option<Seq<char>>,
    to: Seq<char>,
    i: int,
)
    requires
        0 <= i < reload_updates(tenant, from, to).len(),
    ensures
        ({
            let v = reload_updates(tenant, from, to);
            &&& v.len() == (if from is Some && from->0 != to {
                3nat
            } else {
                2
            })
            &&& v[0] is Count
            &&& v[0]->by == 1
            &&& v[0]->Count_name == "ember.reload.total"@
            &&& v[0]->Count_labels == seq![
                ("tenant"@, tenant),
                (
                    "from"@,
                    if from is Some {
                        from->0
                    } else {
                        "none"@
                    },
                ),
                ("to"@, to),
            ]
            &&& i > 0 ==> {
                &&& v[i] is Assign
                &&& v[i]->Assign_name == "ember.tenant.active_digests"@
                &&& v[i]->Assign_labels == seq![
                    ("tenant"@, tenant),
                    (
                        "digest"@,
                        if i == 1 {
                            to
                        } else {
                            from->0
                        },
                    ),
                ]
                &&& v[i]->value == (if i == 1 {
                    1u64
                } else {
                    0
                })
            }
        }),
{
}

/// Every metric that an invocation, a parking or a gauge is recorded under is
/// described once, with the kind that it is recorded as.
pub proof fn law_recorded_metrics_are_described(i: int, j: int)
    requires
        0 <= i < described().len(),
        0 <= j < described().len(),
    ensures
        described()[i].name == described()[j].name ==> i == j,
        described().len() == 5,
        described()[i].kind is Histogram <==> described()[i].name == "ember.invoke.duration_us"@,
        described()[i].kind is Gauge <==> described()[i].name == "ember.tenant.active_digests"@,
        described()[i].unit is Microseconds <==> described()[i].kind is Histogram,
        described()[1].name == "ember.invoke.total"@,
        described()[2].name == "ember.invoke.errors"@,
        described()[3].name == "ember.reload.parked"@,
{
    reveal_strlit("ember.invoke.duration_us");
    reveal_strlit("ember.invoke.total");
    reveal_strlit("ember.invoke.errors");
    reveal_strlit("ember.reload.parked");
    reveal_strlit("ember.tenant.active_digests");
    assert("ember.invoke.duration_us"@.len() == 24);
    assert("ember.invoke.total"@.len() == 18);
    assert("ember.invoke.errors"@.len() == 19 && "ember.invoke.errors"@[6] == 'i');
    assert("ember.reload.parked"@.len() == 19 && "ember.reload.parked"@[6] == 'r');
    assert("ember.tenant.active_digests"@.len() == 27);
}

/// All that is recorded can be seen, one for one.
pub proof fn law_updates_are_seen_whole(v: Seq<Update>, i: int, labels: Seq<Label>, k: int)
    requires
        0 <= i < v.len(),
        0 <= k < labels.len(),
    ensures
        update_views(v).len() == v.len(),
        update_views(v)[i] == v[i]@,
        label_views(labels).len() == labels.len(),
        label_views(labels)[k] == (labels[k].0@, labels[k].1@),
        match v[i] {
            Update::Observe { name, micros, labels } => v[i]@ == (UpdateView::Observe {
                name: name@,
                micros,
                labels: label_views(labels@),
            }),
            Update::Count { name, by, labels } => v[i]@ == (UpdateView::Count {
                name: name@,
                by,
                labels: label_views(labels@),
            }),
            Update::Assign { name, value, labels } => v[i]@ == (UpdateView::Assign {
                name: name@,
                value,
                labels: label_views(labels@),
            }),
        },
{
}

/// All that a description says can be seen, one for one.
pub proof fn law_descriptions_are_seen_whole(v: Seq<Description>, i: int)
    requires
        0 <= i < v.len(),
    ensures
        description_views(v).len() == v.len(),
        description_views(v)[i] == (DescriptionView {
            kind: v[i].kind,
            name: v[i].name@,
            unit: v[i].unit,
            help: v[i].help@,
        }),
{
}

} // verus!
