//! Outbound HTTP bridge and egress policy.
//!
//! Guests reach the network through `wasi:http/outgoing-handler`. Every
//! outbound request is filtered by the tenant's [`EgressPolicy`] before it
//! leaves the process, and is subject to a time limit and a body limit.
//!
//! Egress is deny-by-default: a tenant that lists no allow rules can make no
//! outbound calls at all.

use vstd::prelude::*;
use vstd::slice::slice_subrange;
use vstd::string::*;

use crate::error::Error;
use crate::http::headers::{value_text, RawHeader, TextHeader};
use crate::text::{
    chars, contains, copied, decimal_text, position, position_last, same, same_chars,
    same_ignoring_case, split_at_each,
};
use crate::time::Duration;

verus! {

/// Egress allowlist for one tenant.
#[derive(Debug)]
pub struct EgressPolicy {
    /// Allow entries. Each is either a bare host, `scheme://host`, an
    /// explicit port (`host:port`), or a wildcard host (`*.example.com`).
    pub allow: Vec<String>,
    /// When `true` (default), any host not matched by `allow` is refused.
    pub default_deny: bool,
}

/// The scheme that `s` states, where it states one.
pub open spec fn scheme_of(s: Seq<char>) -> Option<Seq<char>> {
    match crate::text::find(s, "://"@) {
        Some(i) => Some(s.take(i)),
        None => None,
    }
}

/// What follows the scheme of `s`.
pub open spec fn after_scheme(s: Seq<char>) -> Seq<char> {
    match crate::text::find(s, "://"@) {
        Some(i) => s.skip(i + "://"@.len()),
        None => s,
    }
}

/// `host[:port]` as a host and, where one is stated, a port. A colon behind
/// the closing bracket of an IPv6 literal separates no port.
pub open spec fn host_and_port(s: Seq<char>) -> (Seq<char>, Option<Seq<char>>) {
    match crate::text::find_last(s, ':') {
        Some(i) => if s.take(i).contains(']') {
            (s, None)
        } else {
            (s.take(i), Some(s.skip(i + 1)))
        },
        None => (s, None),
    }
}

/// Whether `x` and `y` are equal up to the case of ASCII letters.
pub open spec fn alike(x: Seq<char>, y: Seq<char>) -> bool {
    crate::text::lower(x) == crate::text::lower(y)
}

/// The text `*`.
pub open spec fn star() -> Seq<char> {
    seq!['*']
}

/// Whether the host segments `h` end in `suffix`.
pub open spec fn segments_end_in(h: Seq<Seq<char>>, suffix: Seq<Seq<char>>) -> bool {
    h.len() >= suffix.len() && forall|i: int|
        0 <= i < suffix.len() ==> alike(h[h.len() - suffix.len() + i], #[trigger] suffix[i])
}

/// Whether each host segment is matched by the pattern segment at its place.
pub open spec fn segments_match(p: Seq<Seq<char>>, h: Seq<Seq<char>>) -> bool {
    p.len() == h.len() && forall|i: int|
        0 <= i < p.len() ==> #[trigger] p[i] == star() || alike(p[i], h[i])
}

/// Whether the host pattern `pattern` matches `host`: `*.x.y` matches `x.y`
/// and everything under it, and otherwise each `*` stands for a single
/// segment and the rest must agree up to case.
pub open spec fn host_match(pattern: Seq<char>, host: Seq<char>) -> bool {
    let p = crate::text::split(pattern, '.');
    let h = crate::text::split(host, '.');
    if p.len() > 1 && p[0] == star() {
        segments_end_in(h, p.drop_first())
    } else {
        segments_match(p, h)
    }
}

/// Whether two stated ports disagree; one that is not stated agrees with all.
pub open spec fn ports_differ(a: Option<Seq<char>>, b: Option<Seq<char>>) -> bool {
    a is Some && b is Some && a->0 != b->0
}

/// Whether two stated schemes disagree up to case; one that is not stated
/// agrees with all.
pub open spec fn schemes_differ(a: Option<Seq<char>>, b: Option<Seq<char>>) -> bool {
    a is Some && b is Some && !alike(a->0, b->0)
}

/// Whether the allow rule `rule` covers `authority`.
pub open spec fn rule_match(rule: Seq<char>, authority: Seq<char>) -> bool {
    let r = host_and_port(after_scheme(rule));
    let t = host_and_port(after_scheme(authority));
    &&& !schemes_differ(scheme_of(rule), scheme_of(authority))
    &&& !ports_differ(r.1, t.1)
    &&& host_match(r.0, t.0)
}

/// Whether one of `rules` covers `authority`.
pub open spec fn any_rule(rules: Seq<Seq<char>>, authority: Seq<char>) -> bool {
    exists|i: int| 0 <= i < rules.len() && rule_match(#[trigger] rules[i], authority)
}

impl EgressPolicy {
    /// The allow entries as texts.
    pub open spec fn rules(self) -> Seq<Seq<char>> {
        crate::text::views(self.allow@)
    }

    /// Whether the policy lets traffic to `authority` out.
    pub open spec fn permits(self, authority: Seq<char>) -> bool {
        any_rule(self.rules(), authority) || !self.default_deny
    }

    /// Whether outbound traffic to `authority` is permitted.
    pub fn allows(&self, authority: &str) -> (r: bool)
        ensures
            r == self.permits(authority@),
    {
        let mut i: usize = 0;
        while i < self.allow.len()
            invariant
                i <= self.allow@.len(),
                forall|j: int|
                    0 <= j < i ==> !rule_match(#[trigger] self.rules()[j], authority@),
            decreases self.allow@.len() - i,
        {
            if pattern_matches(self.allow[i].as_str(), authority) {
                proof {
                    assert(rule_match(self.rules()[i as int], authority@));
                }
                return true;
            }
            i = i + 1;
        }
        !self.default_deny
    }

    /// Merge another policy's rules into this one (union on `allow`).
    pub fn extend(&mut self, other: &EgressPolicy)
        ensures
            final(self).rules() == old(self).rules() + other.rules(),
            final(self).default_deny == (old(self).default_deny || other.default_deny),
    {
        let mut i: usize = 0;
        while i < other.allow.len()
            invariant
                i <= other.allow@.len(),
                self.default_deny == old(self).default_deny,
                self.rules() == old(self).rules() + other.rules().take(i as int),
            decreases other.allow@.len() - i,
        {
            let ghost before = self.rules();
            self.allow.push(other.allow[i].clone());
            i = i + 1;
            proof {
                assert(self.rules() =~= before.push(other.allow@[i - 1]@));
                assert(other.rules().take(i as int) =~= other.rules().take(i - 1).push(
                    other.allow@[i - 1]@,
                ));
            }
        }
        proof {
            assert(other.rules().take(i as int) =~= other.rules());
        }
        self.default_deny = self.default_deny || other.default_deny;
    }
}

impl Clone for EgressPolicy {
    fn clone(&self) -> (p: EgressPolicy)
        ensures
            p.rules() == self.rules(),
            p.default_deny == self.default_deny,
    {
        EgressPolicy { allow: copied(&self.allow), default_deny: self.default_deny }
    }
}

impl Default for EgressPolicy {
    /// Deny-by-default: an empty policy allows no outbound traffic at all.
    fn default() -> (p: EgressPolicy)
        ensures
            p.rules() == Seq::<Seq<char>>::empty(),
            p.default_deny,
    {
        let p = EgressPolicy { allow: Vec::new(), default_deny: true };
        proof {
            assert(p.rules() =~= Seq::<Seq<char>>::empty());
        }
        p
    }
}

/// Match an allow-rule against a requested authority.
///
/// Rules may include a scheme and/or port and a `*` wildcard segment:
///
/// - `api.example.com`          → matches any scheme/port on that host
/// - `https://api.example.com`  → scheme-restricted
/// - `*.example.com`            → any host under `example.com` (incl. bare)
/// - `localhost:8080`           → port-restricted
fn pattern_matches(rule: &str, authority: &str) -> (r: bool)
    ensures
        r == rule_match(rule@, authority@),
{
    let rule_chars: Vec<char> = chars(rule);
    let target_chars: Vec<char> = chars(authority);
    let (rule_scheme, rule_rest) = strip_scheme(rule_chars.as_slice());
    let (target_scheme, target_rest) = strip_scheme(target_chars.as_slice());
    if let (Some(rs), Some(ts)) = (rule_scheme, target_scheme) {
        if !same_ignoring_case(rs, ts) {
            return false;
        }
    }
    let (rule_host, rule_port) = split_authority(rule_rest);
    let (target_host, target_port) = split_authority(target_rest);
    if let (Some(rp), Some(tp)) = (rule_port, target_port) {
        if !same_chars(rp, tp) {
            return false;
        }
    }
    host_matches(rule_host, target_host)
}

/// The characters of an optional slice.
pub open spec fn part(s: Option<&[char]>) -> Option<Seq<char>> {
    match s {
        Some(t) => Some(t@),
        None => None,
    }
}

/// Split `scheme://` off, if present.
fn strip_scheme(s: &[char]) -> (r: (Option<&[char]>, &[char]))
    ensures
        part(r.0) == scheme_of(s@),
        r.1@ == after_scheme(s@),
{
    let sep: Vec<char> = chars("://");
    let end: usize = s.len();
    match position(s, sep.as_slice()) {
        Some(i) => {
            let scheme = slice_subrange(s, 0, i);
            let rest = slice_subrange(s, i + sep.len(), end);
            proof {
                assert(scheme@ =~= s@.take(i as int));
                assert(rest@ =~= s@.skip(i + sep@.len()));
            }
            (Some(scheme), rest)
        },
        None => (None, s),
    }
}

/// Split `host[:port]` into its two components.
///
/// IPv6 literals like `[::1]:8080` are not supported by the allowlist; they
/// never match a wildcard rule and need an exact entry.
fn split_authority(s: &[char]) -> (r: (&[char], Option<&[char]>))
    ensures
        r.0@ == host_and_port(s@).0,
        part(r.1) == host_and_port(s@).1,
{
    let end: usize = s.len();
    match position_last(s, ':') {
        Some(i) => {
            let host = slice_subrange(s, 0, i);
            proof {
                assert(host@ =~= s@.take(i as int));
            }
            if contains(host, ']') {
                return (s, None);
            }
            let port = slice_subrange(s, i + 1, end);
            proof {
                assert(port@ =~= s@.skip(i + 1));
            }
            (host, Some(port))
        },
        None => (s, None),
    }
}

/// Whether a segment is the wildcard.
fn is_star(segment: &[char]) -> (r: bool)
    ensures
        r == (segment@ == star()),
{
    let r: bool = segment.len() == 1 && segment[0] == '*';
    proof {
        if r {
            assert(segment@ =~= star());
        }
    }
    r
}

/// Whether the host segments `h` end in the pattern segments behind the first.
fn ends_in_tail(h: &Vec<Vec<char>>, p: &Vec<Vec<char>>) -> (r: bool)
    requires
        p@.len() > 0,
    ensures
        r == segments_end_in(
            crate::text::pieces(h@),
            crate::text::pieces(p@).drop_first(),
        ),
{
    let ghost hs = crate::text::pieces(h@);
    let ghost suffix = crate::text::pieces(p@).drop_first();
    let total: usize = h.len();
    let n: usize = p.len() - 1;
    if total < n {
        return false;
    }
    let mut i: usize = 0;
    while i < n
        invariant
            i <= n <= total,
            total == h@.len(),
            n == p@.len() - 1,
            hs == crate::text::pieces(h@),
            suffix == crate::text::pieces(p@).drop_first(),
            forall|j: int| 0 <= j < i ==> alike(hs[total - n + j], #[trigger] suffix[j]),
        decreases n - i,
    {
        proof {
            assert(suffix[i as int] == p@[i + 1]@);
            assert(hs[total - n + i] == h@[total - n + i]@);
        }
        if !same_ignoring_case(h[total - n + i].as_slice(), p[i + 1].as_slice()) {
            return false;
        }
        i = i + 1;
    }
    true
}

/// Whether the host segments `h` are matched one by one by the segments `p`.
fn each_matches(p: &Vec<Vec<char>>, h: &Vec<Vec<char>>) -> (r: bool)
    ensures
        r == segments_match(crate::text::pieces(p@), crate::text::pieces(h@)),
{
    let ghost ps = crate::text::pieces(p@);
    let ghost hs = crate::text::pieces(h@);
    if p.len() != h.len() {
        return false;
    }
    let mut i: usize = 0;
    while i < p.len()
        invariant
            i <= p@.len(),
            p@.len() == h@.len(),
            ps == crate::text::pieces(p@),
            hs == crate::text::pieces(h@),
            forall|j: int| 0 <= j < i ==> #[trigger] ps[j] == star() || alike(ps[j], hs[j]),
        decreases p@.len() - i,
    {
        proof {
            assert(ps[i as int] == p@[i as int]@);
            assert(hs[i as int] == h@[i as int]@);
        }
        if !is_star(p[i].as_slice()) && !same_ignoring_case(p[i].as_slice(), h[i].as_slice()) {
            return false;
        }
        i = i + 1;
    }
    true
}

/// Wildcard host matching: `*` matches a single segment, `*.x.y` matches
/// `x.y` and any subdomain thereof, exact hosts match exactly.
fn host_matches(pattern: &[char], host: &[char]) -> (r: bool)
    ensures
        r == host_match(pattern@, host@),
{
    let p: Vec<Vec<char>> = split_at_each(pattern, '.');
    let h: Vec<Vec<char>> = split_at_each(host, '.');
    proof {
        assert(crate::text::split(pattern@, '.')[0] == p@[0]@);
    }
    if p.len() > 1 && is_star(p[0].as_slice()) {
        ends_in_tail(&h, &p)
    } else {
        each_matches(&p, &h)
    }
}

/// A failed outbound request, as it is handed back to the guest.
#[derive(Debug)]
pub struct HttpError {
    /// The status the failure stands for.
    pub status: u16,
    /// What went wrong.
    pub message: String,
}

/// What an [`HttpError`] says.
pub struct HttpErrorView {
    pub status: u16,
    pub message: Seq<char>,
}

impl View for HttpError {
    type V = HttpErrorView;

    open spec fn view(&self) -> HttpErrorView {
        HttpErrorView { status: self.status, message: self.message@ }
    }
}

/// Where an outbound request goes.
#[derive(Debug)]
pub struct Authority {
    /// The host, without user information and port.
    pub host: String,
    /// The port, where the URI states one.
    pub port: Option<String>,
}

/// An outbound request of a guest, without its body.
#[derive(Debug)]
pub struct OutboundHead {
    /// The request method.
    pub method: String,
    /// The request URI as text.
    pub uri: String,
    /// The scheme of the URI, where it states one.
    pub scheme: Option<String>,
    /// The authority of the URI, where it states one.
    pub authority: Option<Authority>,
    /// The header fields, in order.
    pub headers: Vec<RawHeader>,
}

/// A request that may be sent upstream.
#[derive(Debug)]
pub struct Upstream {
    /// The method to send.
    pub method: String,
    /// The URI to send it to.
    pub uri: String,
    /// The header fields to send, in order.
    pub headers: Vec<TextHeader>,
    /// How long the exchange may take.
    pub timeout: Duration,
}

/// An upstream response that may be handed to the guest.
#[derive(Debug)]
pub struct Inbound {
    /// The status.
    pub status: u16,
    /// The header fields, in order.
    pub headers: Vec<TextHeader>,
    /// The body.
    pub body: Vec<u8>,
}

/// How the connection pool behind the bridge is set up.
#[derive(Debug, Clone, Copy, PartialEq, Eq, Structural)]
pub struct ClientSettings {
    /// Redirects followed before a request fails.
    pub redirect_limit: usize,
    /// Idle connections kept per host.
    pub idle_per_host: usize,
    /// How long an idle connection is kept.
    pub idle_timeout: Duration,
    /// The interval of TCP keepalive probes.
    pub keepalive: Duration,
}

/// The authority as the egress policy sees it: `[scheme://]host[:port]`.
pub open spec fn egress_target(
    scheme: Option<Seq<char>>,
    host: Seq<char>,
    port: Option<Seq<char>>,
) -> Seq<char> {
    (match scheme {
        Some(s) => s + "://"@,
        None => Seq::empty(),
    }) + host + (match port {
        Some(p) => ":"@ + p,
        None => Seq::empty(),
    })
}

/// The port that a scheme stands for where a URI states none.
pub open spec fn default_port(scheme: Option<Seq<char>>) -> Option<Seq<char>> {
    match scheme {
        Some(s) => if alike(s, "http"@) {
            Some("80"@)
        } else if alike(s, "https"@) {
            Some("443"@)
        } else {
            None
        },
        None => None,
    }
}

/// The port as the egress policy sees it: the one that the URI states, else
/// the one that its scheme stands for. An IPv6 literal that stands alone stays
/// as it is: it needs an exact entry.
pub open spec fn egress_port(
    scheme: Option<Seq<char>>,
    host: Seq<char>,
    port: Option<Seq<char>>,
) -> Option<Seq<char>> {
    match port {
        Some(p) => Some(p),
        None => if host.contains(']') {
            None
        } else {
            default_port(scheme)
        },
    }
}

/// What an authority says: its host and, where it states one, its port.
pub open spec fn authority_view(a: Option<Authority>) -> Option<(Seq<char>, Option<Seq<char>>)> {
    match a {
        Some(a) => Some((a.host@, crate::text::opt_view(a.port))),
        None => None,
    }
}

/// Whether the policy lets a request to `host` out. An IPv6 literal also gets
/// out where the policy permits it without its port: the allowlist tells no
/// port apart from a literal, and a bare entry covers its host at any port.
pub open spec fn reaches(
    policy: EgressPolicy,
    scheme: Option<Seq<char>>,
    host: Seq<char>,
    port: Option<Seq<char>>,
) -> bool {
    ||| policy.permits(egress_target(scheme, host, egress_port(scheme, host, port)))
    ||| host.contains(']') && policy.permits(egress_target(scheme, host, None))
}

/// Why nothing may be sent to `authority`, where that is so: there is none, or
/// the policy does not allow it.
pub open spec fn refusal(
    policy: EgressPolicy,
    scheme: Option<Seq<char>>,
    authority: Option<(Seq<char>, Option<Seq<char>>)>,
) -> Option<HttpErrorView> {
    match authority {
        None => Some(
            HttpErrorView { status: 500, message: "outbound request missing authority"@ },
        ),
        Some((host, port)) => if reaches(policy, scheme, host, port) {
            None
        } else {
            Some(HttpErrorView { status: 403, message: "egress denied for `"@ + host + "`"@ })
        },
    }
}

/// What is to be done about a redirect.
#[derive(Debug)]
pub enum Redirect {
    /// Follow it.
    Follow,
    /// Fail: the chain is too long.
    TooMany,
    /// Fail: the policy lets nothing out to where it leads.
    Denied(HttpError),
}

/// The text of a header value, or nothing where it is not visible ASCII.
pub open spec fn text_or_empty(value: Seq<u8>) -> Seq<char> {
    match crate::http::headers::visible_text(value) {
        Some(t) => t,
        None => Seq::empty(),
    }
}

/// Header fields with their values as text.
pub open spec fn as_text(h: Seq<(Seq<char>, Seq<u8>)>) -> Seq<(Seq<char>, Seq<char>)> {
    h.map_values(|f: (Seq<char>, Seq<u8>)| (f.0, text_or_empty(f.1)))
}

/// Whether `m` is one of the methods that are sent as they are.
pub open spec fn is_known_method(m: Seq<char>) -> bool {
    ||| m == "GET"@
    ||| m == "POST"@
    ||| m == "PUT"@
    ||| m == "DELETE"@
    ||| m == "PATCH"@
    ||| m == "HEAD"@
    ||| m == "OPTIONS"@
}

/// The method that is sent upstream for `m`.
pub open spec fn upstream_method(m: Seq<char>) -> Seq<char> {
    if is_known_method(m) {
        m
    } else {
        "GET"@
    }
}

/// The redirects that are followed for one request.
pub const REDIRECT_LIMIT: usize = 5;

/// The time an exchange may take beyond connecting, in nanoseconds.
pub const EXCHANGE_NANOS: u64 = 25_000_000_000;

/// The egress path of one tenant.
#[derive(Debug)]
pub struct HttpBridge {
    policy: EgressPolicy,
    connect_timeout: Duration,
    max_body_bytes: usize,
}

impl Clone for HttpBridge {
    fn clone(&self) -> (b: HttpBridge)
        ensures
            b.egress().rules() == self.egress().rules(),
            b.egress().default_deny == self.egress().default_deny,
            b.connecting() == self.connecting(),
            b.body_limit() == self.body_limit(),
    {
        HttpBridge {
            policy: self.policy.clone(),
            connect_timeout: self.connect_timeout,
            max_body_bytes: self.max_body_bytes,
        }
    }
}

impl HttpBridge {
    /// The allow rules and the default of the bridge's policy.
    pub closed spec fn egress(self) -> EgressPolicy {
        self.policy
    }

    /// The connect timeout.
    pub closed spec fn connecting(self) -> Duration {
        self.connect_timeout
    }

    /// The body limit.
    pub closed spec fn body_limit(self) -> usize {
        self.max_body_bytes
    }

    /// Build a bridge enforcing `policy` and capping bodies at
    /// `max_body_bytes`.
    pub fn new(policy: EgressPolicy, max_body_bytes: usize) -> (b: HttpBridge)
        ensures
            b.egress() == policy,
            b.connecting().nanos() == 3_000_000_000,
            b.body_limit() == max_body_bytes,
    {
        HttpBridge { policy, connect_timeout: Duration::from_secs(3), max_body_bytes }
    }

    /// Set the TCP/TLS connect timeout.
    pub fn with_connect_timeout(self, timeout: Duration) -> (b: HttpBridge)
        ensures
            b.egress() == self.egress(),
            b.connecting() == timeout,
            b.body_limit() == self.body_limit(),
    {
        HttpBridge {
            policy: self.policy,
            connect_timeout: timeout,
            max_body_bytes: self.max_body_bytes,
        }
    }

    /// The tenant's egress policy.
    pub fn policy(&self) -> (p: &EgressPolicy)
        ensures
            *p == self.egress(),
    {
        &self.policy
    }

    /// The TCP/TLS connect timeout.
    pub fn connect_timeout(&self) -> (d: Duration)
        ensures
            d == self.connecting(),
    {
        self.connect_timeout
    }

    /// Max outbound body size.
    pub fn max_body_bytes(&self) -> (n: usize)
        ensures
            n == self.body_limit(),
    {
        self.max_body_bytes
    }

    /// The set-up of the connection pool.
    pub fn client_settings() -> (c: ClientSettings)
        ensures
            c.redirect_limit == REDIRECT_LIMIT,
            c.idle_per_host == 16,
            c.idle_timeout.nanos() == 60_000_000_000,
            c.keepalive.nanos() == 30_000_000_000,
    {
        ClientSettings {
            redirect_limit: REDIRECT_LIMIT,
            idle_per_host: 16,
            idle_timeout: Duration::from_secs(60),
            keepalive: Duration::from_secs(30),
        }
    }

    /// The error for a connection pool that could not be set up.
    pub fn client_failed(reason: &str) -> (e: Error)
        ensures
            e@ == crate::error::ErrorView::Config("egress client: "@ + reason@),
    {
        Error::Config("egress client: ".to_owned().concat(reason))
    }

    /// Executable form of [`reaches`].
    fn lets_out(&self, scheme: &Option<String>, a: &Authority) -> (r: bool)
        ensures
            r == reaches(
                self.egress(),
                crate::text::opt_view(*scheme),
                a.host@,
                crate::text::opt_view(a.port),
            ),
    {
        let port: Option<String> = port_to_check(scheme, a.host.as_str(), &a.port);
        let target: String = target_text(scheme, a.host.as_str(), &port);
        if self.policy.allows(target.as_str()) {
            return true;
        }
        let cs: Vec<char> = chars(a.host.as_str());
        if !contains(cs.as_slice(), ']') {
            return false;
        }
        let bare: String = target_text(scheme, a.host.as_str(), &None);
        self.policy.allows(bare.as_str())
    }

    /// Decide whether anything may be sent to `authority`.
    fn gate(&self, scheme: &Option<String>, authority: &Option<Authority>) -> (r: Result<
        (),
        HttpError,
    >)
        ensures
            match refusal(
                self.egress(),
                crate::text::opt_view(*scheme),
                authority_view(*authority),
            ) {
                Some(e) => r is Err && r->Err_0@ == e,
                None => r is Ok && authority is Some,
            },
    {
        match authority {
            None => Err(
                HttpError {
                    status: 500,
                    message: "outbound request missing authority".to_owned(),
                },
            ),
            Some(a) => {
                if self.lets_out(scheme, a) {
                    Ok(())
                } else {
                    Err(
                        HttpError {
                            status: 403,
                            message: "egress denied for `".to_owned().concat(
                                a.host.as_str(),
                            ).concat("`"),
                        },
                    )
                }
            },
        }
    }

    /// Decide on an outbound request before anything is sent: one without an
    /// authority and one that the policy does not allow are refused, any
    /// other is turned into the request that goes upstream.
    pub fn authorize(&self, head: OutboundHead) -> (r: Result<Upstream, HttpError>)
        requires
            self.connecting().nanos() + EXCHANGE_NANOS <= crate::time::MAX_NANOS,
        ensures
            match refusal(
                self.egress(),
                crate::text::opt_view(head.scheme),
                authority_view(head.authority),
            ) {
                Some(e) => r is Err && r->Err_0@ == e,
                None => {
                    &&& r is Ok
                    &&& r->Ok_0.method@ == upstream_method(head.method@)
                    &&& r->Ok_0.uri@ == head.uri@
                    &&& crate::http::headers::text_headers(r->Ok_0.headers@) == as_text(
                        crate::http::headers::raw_headers(head.headers@),
                    )
                    &&& r->Ok_0.timeout.nanos() == self.connecting().nanos() + EXCHANGE_NANOS
                },
            },
    {
        match self.gate(&head.scheme, &head.authority) {
            Err(e) => Err(e),
            Ok(()) => Ok(
                Upstream {
                    method: method_to_send(head.method.as_str()),
                    uri: head.uri,
                    headers: headers_as_text(&head.headers),
                    timeout: self.connect_timeout.plus(&Duration::from_nanos(EXCHANGE_NANOS)),
                },
            ),
        }
    }

    /// Decide on a redirect of an outbound request, before it is followed.
    /// `requested` counts the URIs of the chain that were requested so far,
    /// the first one included. A redirect is a request like any other: it is
    /// put to the policy.
    pub fn redirect(
        &self,
        requested: usize,
        scheme: Option<String>,
        authority: Option<Authority>,
    ) -> (r: Redirect)
        ensures
            if requested > REDIRECT_LIMIT {
                r is TooMany
            } else {
                match refusal(
                    self.egress(),
                    crate::text::opt_view(scheme),
                    authority_view(authority),
                ) {
                    Some(e) => r is Denied && r->Denied_0@ == e,
                    None => r is Follow,
                }
            },
    {
        if requested > REDIRECT_LIMIT {
            return Redirect::TooMany;
        }
        match self.gate(&scheme, &authority) {
            Ok(()) => Redirect::Follow,
            Err(e) => Redirect::Denied(e),
        }
    }

    /// Decide on the collected body of an outbound request: one that could
    /// not be read and one over the limit are refused.
    pub fn admit_body(&self, body: Option<Vec<u8>>) -> (r: Result<Vec<u8>, HttpError>)
        ensures
            match body {
                None => r is Err && r->Err_0@ == (HttpErrorView {
                    status: 500,
                    message: "failed to read outbound body"@,
                }),
                Some(b) => if b@.len() <= self.body_limit() {
                    r == Ok::<Vec<u8>, HttpError>(b)
                } else {
                    r is Err && r->Err_0@ == (HttpErrorView {
                        status: 413,
                        message: "outbound request body exceeds "@ + crate::text::decimal(
                            self.body_limit() as nat,
                        ) + " bytes"@,
                    })
                },
            },
    {
        match body {
            None => Err(
                HttpError { status: 500, message: "failed to read outbound body".to_owned() },
            ),
            Some(b) => {
                if b.len() > self.max_body_bytes {
                    Err(
                        HttpError {
                            status: 413,
                            message: "outbound request body exceeds ".to_owned().concat(
                                decimal_text(self.max_body_bytes as u128).as_str(),
                            ).concat(" bytes"),
                        },
                    )
                } else {
                    Ok(b)
                }
            },
        }
    }

    /// The failure for a request that got no response.
    pub fn send_failed(reason: &str) -> (e: HttpError)
        ensures
            e@ == (HttpErrorView {
                status: 502,
                message: "outbound request failed: "@ + reason@,
            }),
    {
        HttpError { status: 502, message: "outbound request failed: ".to_owned().concat(reason) }
    }

    /// Decide on an upstream response: one whose body could not be read and
    /// one whose body is over the limit are refused, any other is handed on.
    pub fn materialize(
        &self,
        status: u16,
        headers: Vec<RawHeader>,
        body: Result<Vec<u8>, String>,
    ) -> (r: Result<Inbound, HttpError>)
        ensures
            match body {
                Err(reason) => r is Err && r->Err_0@ == (HttpErrorView {
                    status: 502,
                    message: "failed to read outbound response: "@ + reason@,
                }),
                Ok(b) => if b@.len() <= self.body_limit() {
                    &&& r is Ok
                    &&& r->Ok_0.status == status
                    &&& crate::http::headers::text_headers(r->Ok_0.headers@) == as_text(
                        crate::http::headers::raw_headers(headers@),
                    )
                    &&& r->Ok_0.body == b
                } else {
                    r is Err && r->Err_0@ == (HttpErrorView {
                        status: 502,
                        message: "outbound response body exceeds "@ + crate::text::decimal(
                            self.body_limit() as nat,
                        ) + " bytes"@,
                    })
                },
            },
    {
        match body {
            Err(reason) => Err(
                HttpError {
                    status: 502,
                    message: "failed to read outbound response: ".to_owned().concat(
                        reason.as_str(),
                    ),
                },
            ),
            Ok(b) => {
                if b.len() > self.max_body_bytes {
                    return Err(
                        HttpError {
                            status: 502,
                            message: "outbound response body exceeds ".to_owned().concat(
                                decimal_text(self.max_body_bytes as u128).as_str(),
                            ).concat(" bytes"),
                        },
                    );
                }
                Ok(Inbound { status, headers: headers_as_text(&headers), body: b })
            },
        }
    }
}

/// Executable form of [`egress_port`].
fn port_to_check(scheme: &Option<String>, host: &str, port: &Option<String>) -> (r: Option<String>)
    ensures
        crate::text::opt_view(r) == egress_port(
            crate::text::opt_view(*scheme),
            host@,
            crate::text::opt_view(*port),
        ),
{
    match port {
        Some(p) => Some(p.clone()),
        None => {
            let cs: Vec<char> = chars(host);
            if contains(cs.as_slice(), ']') {
                return None;
            }
            match scheme {
                Some(s) => {
                    let name: Vec<char> = chars(s.as_str());
                    let plain: Vec<char> = chars("http");
                    let secure: Vec<char> = chars("https");
                    if same_ignoring_case(name.as_slice(), plain.as_slice()) {
                        Some("80".to_owned())
                    } else if same_ignoring_case(name.as_slice(), secure.as_slice()) {
                        Some("443".to_owned())
                    } else {
                        None
                    }
                },
                None => None,
            }
        },
    }
}

/// Executable form of [`egress_target`].
fn target_text(scheme: &Option<String>, host: &str, port: &Option<String>) -> (s: String)
    ensures
        s@ == egress_target(crate::text::opt_view(*scheme), host@, crate::text::opt_view(*port)),
{
    let mut s: String = match scheme {
        Some(t) => t.clone().concat("://"),
        None => String::new(),
    };
    s.append(host);
    let rest: String = match port {
        Some(p) => ":".to_owned().concat(p.as_str()),
        None => String::new(),
    };
    s.append(rest.as_str());
    s
}

/// Executable form of [`as_text`].
fn headers_as_text(headers: &Vec<RawHeader>) -> (v: Vec<TextHeader>)
    ensures
        crate::http::headers::text_headers(v@) == as_text(
            crate::http::headers::raw_headers(headers@),
        ),
{
    let ghost all = as_text(crate::http::headers::raw_headers(headers@));
    let mut v: Vec<TextHeader> = Vec::new();
    let mut i: usize = 0;
    while i < headers.len()
        invariant
            i <= headers@.len(),
            all == as_text(crate::http::headers::raw_headers(headers@)),
            crate::http::headers::text_headers(v@) == all.take(i as int),
        decreases headers@.len() - i,
    {
        let ghost before = crate::http::headers::text_headers(v@);
        let name: String = headers[i].0.clone();
        let value: String = match value_text(headers[i].1.as_slice()) {
            Some(t) => t,
            None => String::new(),
        };
        v.push((name, value));
        i = i + 1;
        proof {
            assert(crate::http::headers::text_headers(v@) =~= before.push((name@, value@)));
            assert(all[i - 1] == (name@, value@));
            assert(all.take(i as int) =~= all.take(i - 1).push(all[i - 1]));
        }
    }
    proof {
        assert(all.take(i as int) =~= all);
    }
    v
}

/// Executable form of [`upstream_method`].
fn method_to_send(method: &str) -> (m: String)
    ensures
        m@ == upstream_method(method@),
{
    if same(method, "GET") || same(method, "POST") || same(method, "PUT") || same(method, "DELETE")
        || same(method, "PATCH") || same(method, "HEAD") || same(method, "OPTIONS") {
        method.to_owned()
    } else {
        "GET".to_owned()
    }
}

/// A tenant that lists no allow rules and denies by default can reach no
/// authority at all.
pub proof fn law_deny_by_default(policy: EgressPolicy, authority: Seq<char>)
    requires
        policy.rules().len() == 0,
        policy.default_deny,
    ensures
        !policy.permits(authority),
{
}

/// An allow rule that covers an authority lets it through whatever the
/// default is.
pub proof fn law_explicit_allow_wins(policy: EgressPolicy, i: int, authority: Seq<char>)
    requires
        0 <= i < policy.rules().len(),
        rule_match(policy.rules()[i], authority),
    ensures
        policy.permits(authority),
{
}

/// A rule that states neither a scheme nor a port covers its host under any
/// scheme and any port.
pub proof fn law_bare_rule_covers_any_scheme_and_port(rule: Seq<char>, authority: Seq<char>)
    requires
        scheme_of(rule) is None,
        host_and_port(rule).1 is None,
    ensures
        rule_match(rule, authority) == host_match(
            host_and_port(rule).0,
            host_and_port(after_scheme(authority)).0,
        ),
{
}

/// A rule that states a scheme or a port covers no authority that states
/// another one.
pub proof fn law_restricted_rule_is_restricted(rule: Seq<char>, authority: Seq<char>)
    requires
        schemes_differ(scheme_of(rule), scheme_of(authority)) || ports_differ(
            host_and_port(after_scheme(rule)).1,
            host_and_port(after_scheme(authority)).1,
        ),
    ensures
        !rule_match(rule, authority),
{
}

proof fn lemma_find_at(s: Seq<char>, pat: Seq<char>, from: int, at: int)
    requires
        0 <= from <= at,
        crate::text::occurs_at(s, pat, at),
        forall|i: int| from <= i < at ==> !#[trigger] crate::text::occurs_at(s, pat, i),
    ensures
        crate::text::find_from(s, pat, from) == Some(at),
    decreases at - from,
{
    if from < at {
        lemma_find_at(s, pat, from + 1, at);
    }
}

/// What the policy sees of `scheme://host:port` is taken apart again into
/// just these three, where no colon stands in the scheme and the port, and no
/// bracket in the host.
pub proof fn law_target_is_taken_apart(scheme: Seq<char>, host: Seq<char>, port: Seq<char>)
    requires
        !scheme.contains(':'),
        !host.contains(']'),
        !port.contains(':'),
    ensures
        ({
            let target = egress_target(Some(scheme), host, Some(port));
            &&& scheme_of(target) == Some(scheme)
            &&& host_and_port(after_scheme(target)) == (host, Some(port))
        }),
{
    reveal_strlit("://");
    reveal_strlit(":");
    let target = egress_target(Some(scheme), host, Some(port));
    let rest = host + (":"@ + port);
    let n = scheme.len() as int;
    assert(target =~= scheme + "://"@ + rest);
    assert(target.subrange(n, n + 3) =~= "://"@);
    assert forall|i: int| 0 <= i < n implies !#[trigger] crate::text::occurs_at(
        target,
        "://"@,
        i,
    ) by {
        if crate::text::occurs_at(target, "://"@, i) {
            assert(target.subrange(i, i + 3)[0] == target[i]);
            assert(scheme[i] == ':');
        }
    }
    lemma_find_at(target, "://"@, 0, n);
    assert(target.take(n) =~= scheme);
    assert(target.skip(n + 3) =~= rest);
    lemma_find_last_at(rest, ':', host.len() as int);
    assert(rest.take(host.len() as int) =~= host);
    assert(rest.skip(host.len() as int + 1) =~= port);
}

proof fn lemma_find_last_at(s: Seq<char>, c: char, at: int)
    requires
        0 <= at < s.len(),
        s[at] == c,
        forall|i: int| at < i < s.len() ==> #[trigger] s[i] != c,
    ensures
        crate::text::find_last(s, c) == Some(at),
    decreases s.len(),
{
    if at < s.len() - 1 {
        assert(s[s.len() - 1] != c);
        lemma_find_last_at(s.drop_last(), c, at);
    }
}

proof fn lemma_alike_without_colon(s: Seq<char>, name: Seq<char>)
    requires
        alike(s, name),
        !name.contains(':'),
    ensures
        !s.contains(':'),
{
    if s.contains(':') {
        let i = choose|i: int| 0 <= i < s.len() && s[i] == ':';
        let x = crate::text::lower(s);
        let y = crate::text::lower(name);
        assert(x.len() == s.len() && y.len() == name.len());
        assert(x[i] == crate::text::lower_char(s[i]));
        assert(y[i] == crate::text::lower_char(name[i]));
        assert(name[i] == ':');
    }
}

/// A URI that states no port is held to the port of its scheme: a rule that
/// is restricted to another port does not cover it.
pub proof fn law_unstated_port_is_that_of_the_scheme(
    rule: Seq<char>,
    scheme: Seq<char>,
    host: Seq<char>,
)
    requires
        alike(scheme, "http"@) || alike(scheme, "https"@),
        !host.contains(']'),
        host_and_port(after_scheme(rule)).1 is Some,
        host_and_port(after_scheme(rule)).1 != default_port(Some(scheme)),
    ensures
        !rule_match(
            rule,
            egress_target(Some(scheme), host, egress_port(Some(scheme), host, None)),
        ),
{
    reveal_strlit("http");
    reveal_strlit("https");
    reveal_strlit("80");
    reveal_strlit("443");
    if alike(scheme, "http"@) {
        lemma_alike_without_colon(scheme, "http"@);
    } else {
        lemma_alike_without_colon(scheme, "https"@);
    }
    let port = default_port(Some(scheme))->0;
    assert(!port.contains(':'));
    law_target_is_taken_apart(scheme, host, port);
}

/// A request to an IPv6 literal gets out at any port where it gets out at
/// none.
pub proof fn law_bare_literal_covers_any_port(
    policy: EgressPolicy,
    scheme: Option<Seq<char>>,
    host: Seq<char>,
    port: Option<Seq<char>>,
)
    requires
        host.contains(']'),
        reaches(policy, scheme, host, None),
    ensures
        reaches(policy, scheme, host, port),
{
}

/// Two policies merged allow what a rule of either covers, and deny the rest
/// as soon as one of them denies by default.
pub proof fn law_extend_is_union(
    a: EgressPolicy,
    b: EgressPolicy,
    merged: EgressPolicy,
    authority: Seq<char>,
)
    requires
        merged.rules() == a.rules() + b.rules(),
        merged.default_deny == (a.default_deny || b.default_deny),
    ensures
        any_rule(merged.rules(), authority) == (any_rule(a.rules(), authority) || any_rule(
            b.rules(),
            authority,
        )),
        merged.permits(authority) == (any_rule(a.rules(), authority) || any_rule(
            b.rules(),
            authority,
        ) || (!a.default_deny && !b.default_deny)),
{
    let x = a.rules();
    let y = b.rules();
    let z = merged.rules();
    if any_rule(x, authority) {
        let i = choose|i: int| 0 <= i < x.len() && rule_match(#[trigger] x[i], authority);
        assert(z[i] == x[i]);
    }
    if any_rule(y, authority) {
        let i = choose|i: int| 0 <= i < y.len() && rule_match(#[trigger] y[i], authority);
        assert(z[x.len() + i] == y[i]);
    }
    if any_rule(z, authority) {
        let i = choose|i: int| 0 <= i < z.len() && rule_match(#[trigger] z[i], authority);
        if i < x.len() {
            assert(x[i] == z[i]);
        } else {
            assert(y[i - x.len()] == z[i]);
        }
    }
}

/// The case of the letters in a host makes no difference.
pub proof fn law_host_case_is_ignored(pattern: Seq<char>, host: Seq<char>, other: Seq<char>)
    requires
        alike(host, other),
    ensures
        host_match(pattern, host) == host_match(pattern, other),
{
    let f = |t: Seq<char>| crate::text::lower(t);
    let h = crate::text::split(host, '.');
    let o = crate::text::split(other, '.');
    crate::text::lemma_split_lower(host, '.');
    crate::text::lemma_split_lower(other, '.');
    assert(h.map_values(f) == o.map_values(f));
    assert(h.len() == h.map_values(f).len() && o.len() == o.map_values(f).len());
    assert forall|i: int| 0 <= i < h.len() implies alike(#[trigger] h[i], o[i]) by {
        assert(h.map_values(f)[i] == o.map_values(f)[i]);
    }
    let p = crate::text::split(pattern, '.');
    let suffix = p.drop_first();
    assert(segments_end_in(h, suffix) == segments_end_in(o, suffix)) by {
        if h.len() >= suffix.len() {
            assert forall|i: int| 0 <= i < suffix.len() implies alike(
                h[h.len() - suffix.len() + i],
                #[trigger] suffix[i],
            ) == alike(o[o.len() - suffix.len() + i], suffix[i]) by {
                assert(alike(h[h.len() - suffix.len() + i], o[h.len() - suffix.len() + i]));
            }
        }
    }
    assert(segments_match(p, h) == segments_match(p, o)) by {
        if p.len() == h.len() {
            assert forall|i: int| 0 <= i < p.len() implies alike(#[trigger] p[i], h[i]) == alike(
                p[i],
                o[i],
            ) by {
                assert(alike(h[i], o[i]));
            }
        }
    }
}

/// A pattern without a wildcard segment matches a host exactly when the two
/// agree up to case.
pub proof fn law_exact_host(pattern: Seq<char>, host: Seq<char>)
    requires
        !crate::text::split(pattern, '.').contains(star()),
    ensures
        host_match(pattern, host) == alike(pattern, host),
{
    let f = |t: Seq<char>| crate::text::lower(t);
    let p = crate::text::split(pattern, '.');
    let h = crate::text::split(host, '.');
    crate::text::lemma_split_nonempty(pattern, '.');
    assert(forall|i: int| 0 <= i < p.len() ==> #[trigger] p[i] != star());
    crate::text::lemma_split_lower(pattern, '.');
    crate::text::lemma_split_lower(host, '.');
    if segments_match(p, h) {
        assert(p.map_values(f) =~= h.map_values(f)) by {
            assert forall|i: int| 0 <= i < p.len() implies p.map_values(f)[i] == h.map_values(
                f,
            )[i] by {
                assert(p[i] != star());
            }
        }
        crate::text::lemma_join_split(crate::text::lower(pattern), '.');
        crate::text::lemma_join_split(crate::text::lower(host), '.');
    }
    if alike(pattern, host) {
        assert(p.map_values(f) == h.map_values(f));
        assert(p.len() == p.map_values(f).len() && h.len() == h.map_values(f).len());
        assert forall|i: int| 0 <= i < p.len() implies alike(#[trigger] p[i], h[i]) by {
            assert(p.map_values(f)[i] == h.map_values(f)[i]);
        }
    }
}

/// A lone `*` stands for a single segment: it matches the hosts without a
/// dot, and no others.
pub proof fn law_lone_star_is_one_segment(host: Seq<char>)
    ensures
        host_match(star(), host) == !host.contains('.'),
{
    let h = crate::text::split(host, '.');
    crate::text::lemma_split_single(star(), '.');
    assert(crate::text::split(star(), '.')[0] == star());
    if host.contains('.') {
        let i = choose|i: int| 0 <= i < host.len() && host[i] == '.';
        let a = host.take(i);
        let b = host.skip(i + 1);
        assert(host =~= a.push('.') + b);
        crate::text::lemma_split_concat(a, b, '.');
        crate::text::lemma_split_nonempty(a, '.');
        crate::text::lemma_split_nonempty(b, '.');
        assert(h.len() >= 2);
    } else {
        crate::text::lemma_split_single(host, '.');
    }
}

/// Every `*` stands for exactly one segment, but for the one in front of
/// `*.d`: any other pattern only matches hosts of as many segments.
pub proof fn law_stars_keep_the_number_of_segments(pattern: Seq<char>, host: Seq<char>)
    requires
        host_match(pattern, host),
        crate::text::split(pattern, '.').len() == 1 || crate::text::split(pattern, '.')[0]
            != star(),
    ensures
        crate::text::split(pattern, '.').len() == crate::text::split(host, '.').len(),
{
}

/// `*.d` matches `d` itself and every host under it.
pub proof fn law_wildcard_covers_domain(domain: Seq<char>, sub: Seq<char>)
    ensures
        host_match(star().push('.') + domain, domain),
        host_match(star().push('.') + domain, sub.push('.') + domain),
{
    let d = crate::text::split(domain, '.');
    crate::text::lemma_split_concat(star(), domain, '.');
    crate::text::lemma_split_concat(sub, domain, '.');
    crate::text::lemma_split_single(star(), '.');
    crate::text::lemma_split_nonempty(domain, '.');
    let p = crate::text::split(star().push('.') + domain, '.');
    assert(p == seq![star()] + d);
    assert(p.drop_first() =~= d);
    let s = crate::text::split(sub, '.');
    let h = crate::text::split(sub.push('.') + domain, '.');
    assert(h == s + d);
    assert forall|i: int| 0 <= i < d.len() implies alike(
        h[h.len() - d.len() + i],
        #[trigger] d[i],
    ) by {
        assert(h[h.len() - d.len() + i] == d[i]);
    }
}

proof fn lemma_segments_alike(a: Seq<Seq<char>>, b: Seq<Seq<char>>)
    requires
        a.len() > 0,
        a.len() == b.len(),
        forall|i: int| 0 <= i < a.len() ==> alike(a[i], #[trigger] b[i]),
        forall|i: int| 0 <= i < a.len() ==> !(#[trigger] a[i]).contains('.'),
        forall|i: int| 0 <= i < b.len() ==> !(#[trigger] b[i]).contains('.'),
    ensures
        alike(crate::text::join(a, seq!['.']), crate::text::join(b, seq!['.'])),
{
    let f = |t: Seq<char>| crate::text::lower(t);
    let x = crate::text::join(a, seq!['.']);
    let y = crate::text::join(b, seq!['.']);
    crate::text::law_joined_texts_come_apart(a, '.');
    crate::text::law_joined_texts_come_apart(b, '.');
    crate::text::lemma_split_lower(x, '.');
    crate::text::lemma_split_lower(y, '.');
    assert(a.map_values(f) =~= b.map_values(f)) by {
        assert forall|i: int| 0 <= i < a.len() implies a.map_values(f)[i] == b.map_values(
            f,
        )[i] by {
            assert(alike(a[i], b[i]));
        }
    }
    crate::text::lemma_join_split(crate::text::lower(x), '.');
    crate::text::lemma_join_split(crate::text::lower(y), '.');
}

/// `*.d` matches `d` and what ends in a dot and `d`, up to case, and nothing
/// else.
pub proof fn law_wildcard_covers_the_domain_alone(domain: Seq<char>, host: Seq<char>)
    ensures
        host_match("*."@ + domain, host) == (crate::text::lower(host) == crate::text::lower(domain)
            || exists|i: int|
            0 <= i < host.len() && #[trigger] host[i] == '.' && crate::text::lower(
                host.skip(i + 1),
            ) == crate::text::lower(domain)),
{
    reveal_strlit("*.");
    let pattern = star().push('.') + domain;
    assert("*."@ + domain =~= pattern);
    let d = crate::text::split(domain, '.');
    let h = crate::text::split(host, '.');
    crate::text::lemma_split_concat(star(), domain, '.');
    crate::text::lemma_split_single(star(), '.');
    crate::text::lemma_split_nonempty(domain, '.');
    crate::text::lemma_split_nonempty(host, '.');
    assert(crate::text::split(pattern, '.').drop_first() =~= d);
    if host_match(pattern, host) {
        assert(segments_end_in(h, d));
        let n = h.len() - d.len();
        let front = h.take(n);
        let back = h.skip(n);
        crate::text::law_pieces_hold_no_separator(domain, '.');
        crate::text::law_pieces_hold_no_separator(host, '.');
        assert forall|i: int| 0 <= i < back.len() implies !(#[trigger] back[i]).contains('.') by {
            assert(back[i] == h[n + i]);
        }
        assert forall|i: int| 0 <= i < back.len() implies alike(back[i], #[trigger] d[i]) by {
            assert(alike(h[n + i], d[i]));
        }
        lemma_segments_alike(back, d);
        let rest = crate::text::join(back, seq!['.']);
        if n == 0 {
            assert(back =~= h);
        } else {
            crate::text::law_join_of_two_lists(front, back, seq!['.']);
            assert(front + back =~= h);
            let i = crate::text::join(front, seq!['.']).len() as int;
            assert(host[i] == '.');
            assert(host.skip(i + 1) =~= rest);
        }
    }
    if alike(host, domain) {
        law_wildcard_covers_domain(domain, domain);
        law_host_case_is_ignored(pattern, host, domain);
    }
    if exists|i: int|
        0 <= i < host.len() && #[trigger] host[i] == '.' && crate::text::lower(host.skip(i + 1))
            == crate::text::lower(domain) {
        let i = choose|i: int|
            0 <= i < host.len() && #[trigger] host[i] == '.' && crate::text::lower(
                host.skip(i + 1),
            ) == crate::text::lower(domain);
        let other = host.take(i).push('.') + domain;
        law_wildcard_covers_domain(domain, host.take(i));
        assert(alike(host, other)) by {
            let x = crate::text::lower(host);
            let y = crate::text::lower(other);
            let s = crate::text::lower(host.skip(i + 1));
            let t = crate::text::lower(domain);
            assert(s.len() == host.len() - i - 1 && t.len() == domain.len());
            assert forall|k: int| 0 <= k < x.len() implies x[k] == y[k] by {
                if k > i {
                    assert(s[k - i - 1] == crate::text::lower_char(host[k]));
                    assert(t[k - i - 1] == crate::text::lower_char(domain[k - i - 1]));
                }
            }
            assert(x =~= y);
        }
        law_host_case_is_ignored(pattern, host, other);
    }
}

proof fn lemma_first_segment(p: Seq<char>)
    requires
        crate::text::split(p, '.')[0] == star(),
    ensures
        p == star() || (p.len() >= 2 && p[0] == '*' && p[1] == '.'),
{
    let parts = crate::text::split(p, '.');
    crate::text::lemma_split_nonempty(p, '.');
    crate::text::lemma_join_split(p, '.');
    let front = parts.take(1);
    let back = parts.skip(1);
    assert(front =~= seq![star()]);
    if back.len() == 0 {
        assert(parts =~= front);
        crate::text::law_join_of_two_lists(front, front, seq!['.']);
    } else {
        crate::text::law_join_of_two_lists(front, back, seq!['.']);
        assert(front + back =~= parts);
        assert(front[0] == star());
    }
}

/// A pattern that does not begin with `*.` is held against a host segment by
/// segment: a `*` takes any one segment, any other segment only itself up to
/// case, and neither side may have a segment that the other lacks.
pub proof fn law_segments_are_matched_one_by_one(
    p: Seq<char>,
    q: Seq<char>,
    h: Seq<char>,
    g: Seq<char>,
)
    requires
        !q.contains('.'),
        !g.contains('.'),
        p != "*"@,
        !(p.len() >= 2 && p[0] == '*' && p[1] == '.'),
    ensures
        host_match(q, g) == (q == "*"@ || crate::text::lower(q) == crate::text::lower(g)),
        host_match(p.push('.') + q, h.push('.') + g) == (host_match(p, h) && host_match(q, g)),
        !host_match(p.push('.') + q, g),
        !host_match(q, h.push('.') + g),
{
    reveal_strlit("*");
    assert("*"@ =~= star());
    let ps = crate::text::split(p, '.');
    let hs = crate::text::split(h, '.');
    crate::text::lemma_split_nonempty(p, '.');
    crate::text::lemma_split_nonempty(h, '.');
    crate::text::lemma_split_single(q, '.');
    crate::text::lemma_split_single(g, '.');
    crate::text::lemma_split_concat(p, q, '.');
    crate::text::lemma_split_concat(h, g, '.');
    if ps[0] == star() {
        lemma_first_segment(p);
    }
    let pq = crate::text::split(p.push('.') + q, '.');
    let hg = crate::text::split(h.push('.') + g, '.');
    assert(pq == ps + seq![q] && hg == hs + seq![g]);
    assert(pq[0] == ps[0]);
    assert(crate::text::split(q, '.')[0] == q && crate::text::split(g, '.')[0] == g);
    if segments_match(pq, hg) {
        assert forall|i: int| 0 <= i < ps.len() implies #[trigger] ps[i] == star() || alike(
            ps[i],
            hs[i],
        ) by {
            assert(pq[i] == ps[i] && hg[i] == hs[i]);
        }
        assert(pq[ps.len() as int] == q && hg[ps.len() as int] == g);
    }
    if segments_match(ps, hs) && host_match(q, g) {
        assert forall|i: int| 0 <= i < pq.len() implies #[trigger] pq[i] == star() || alike(
            pq[i],
            hg[i],
        ) by {
            if i < ps.len() {
                assert(pq[i] == ps[i] && hg[i] == hs[i]);
            }
        }
    }
}

/// A port is what stands behind the last colon, unless a closing bracket
/// stands before it; without a colon there is none.
pub proof fn law_port_stands_behind_the_last_colon(h: Seq<char>, p: Seq<char>)
    requires
        !p.contains(':'),
    ensures
        host_and_port(h.push(':') + p) == (if h.contains(']') {
            (h.push(':') + p, None::<Seq<char>>)
        } else {
            (h, Some(p))
        }),
        host_and_port(p) == (p, None::<Seq<char>>),
{
    let s = h.push(':') + p;
    lemma_find_last_at(s, ':', h.len() as int);
    assert(s.take(h.len() as int) =~= h);
    assert(s.skip(h.len() as int + 1) =~= p);
    crate::text::law_last_place_is_found(p, ':');
}

/// A scheme is what stands before the first `://`; without one there is none.
pub proof fn law_scheme_stands_before_the_separator(a: Seq<char>, b: Seq<char>)
    requires
        !a.contains(':'),
    ensures
        scheme_of(a + "://"@ + b) == Some(a),
        after_scheme(a + "://"@ + b) == b,
        scheme_of(a) is None,
        after_scheme(a) == a,
{
    reveal_strlit("://");
    let s = a + "://"@ + b;
    let n = a.len() as int;
    assert(s.subrange(n, n + 3) =~= "://"@);
    assert forall|i: int| 0 <= i < n implies !#[trigger] crate::text::occurs_at(s, "://"@, i) by {
        if crate::text::occurs_at(s, "://"@, i) {
            assert(s.subrange(i, i + 3)[0] == s[i]);
            assert(a[i] == ':');
        }
    }
    lemma_find_at(s, "://"@, 0, n);
    assert(s.take(n) =~= a);
    assert(s.skip(n + 3) =~= b);
    lemma_no_separator(a);
}

proof fn lemma_no_separator(a: Seq<char>)
    requires
        forall|i: int| 0 <= i < a.len() - 1 && #[trigger] a[i] == ':' ==> a[i + 1] != '/',
    ensures
        scheme_of(a) is None,
        after_scheme(a) == a,
{
    reveal_strlit("://");
    crate::text::law_first_occurrence_is_found(a, "://"@);
    match crate::text::find(a, "://"@) {
        Some(i) => {
            assert(a.subrange(i, i + 3)[0] == a[i]);
            assert(a.subrange(i, i + 3)[1] == a[i + 1]);
        },
        None => {},
    }
}

/// Whether the parts of an authority are written so that each can be told
/// from the others.
pub open spec fn plain_parts(
    scheme: Option<Seq<char>>,
    host: Seq<char>,
    port: Option<Seq<char>>,
) -> bool {
    &&& scheme is Some ==> !scheme->0.contains(':')
    &&& !host.contains(':')
    &&& !host.contains(']')
    &&& port is Some ==> !port->0.contains(':') && !port->0.contains('/')
}

proof fn lemma_parts(scheme: Option<Seq<char>>, host: Seq<char>, port: Option<Seq<char>>)
    requires
        plain_parts(scheme, host, port),
    ensures
        scheme_of(egress_target(scheme, host, port)) == scheme,
        host_and_port(after_scheme(egress_target(scheme, host, port))) == (host, port),
{
    reveal_strlit(":");
    let target = egress_target(scheme, host, port);
    let rest = match port {
        Some(p) => host.push(':') + p,
        None => host,
    };
    assert(host + (match port {
        Some(p) => ":"@ + p,
        None => Seq::empty(),
    }) =~= rest);
    match port {
        Some(p) => {
            law_port_stands_behind_the_last_colon(host, p);
        },
        None => {
            law_port_stands_behind_the_last_colon(host, host);
        },
    }
    match scheme {
        Some(s) => {
            assert(target =~= s + "://"@ + rest);
            law_scheme_stands_before_the_separator(s, rest);
        },
        None => {
            assert(target =~= rest);
            assert forall|i: int| 0 <= i < rest.len() - 1 && #[trigger] rest[i] == ':' implies rest[i
                + 1] != '/' by {
                if i < host.len() {
                    assert(host[i] == ':');
                } else {
                    let p = port->0;
                    if i > host.len() {
                        assert(p[i - host.len() - 1] == ':');
                    }
                    assert(rest[i + 1] == p[i - host.len()]);
                }
            }
            lemma_no_separator(rest);
        },
    }
}

/// A rule `[scheme://]host[:port]` covers an authority exactly when its host
/// pattern matches the host, and the schemes and the ports agree wherever both
/// are stated.
pub proof fn law_rule_covers_by_its_parts(
    scheme: Option<Seq<char>>,
    pattern: Seq<char>,
    port: Option<Seq<char>>,
    to_scheme: Option<Seq<char>>,
    to_host: Seq<char>,
    to_port: Option<Seq<char>>,
)
    requires
        plain_parts(scheme, pattern, port),
        plain_parts(to_scheme, to_host, to_port),
    ensures
        rule_match(
            egress_target(scheme, pattern, port),
            egress_target(to_scheme, to_host, to_port),
        ) == ((scheme is None || to_scheme is None || crate::text::lower(scheme->0)
            == crate::text::lower(to_scheme->0)) && (port is None || to_port is None || port
            == to_port) && host_match(pattern, to_host)),
{
    lemma_parts(scheme, pattern, port);
    lemma_parts(to_scheme, to_host, to_port);
}

/// A policy that denies by default lets nothing out that no rule covers, and
/// one that does not deny lets out everything.
pub proof fn law_only_what_a_rule_covers(policy: EgressPolicy, authority: Seq<char>)
    ensures
        !policy.default_deny ==> policy.permits(authority),
        policy.default_deny && policy.permits(authority) ==> exists|i: int|
            0 <= i < policy.allow@.len() && rule_match(
                (#[trigger] policy.allow@[i])@,
                authority,
            ),
{
    if policy.default_deny && policy.permits(authority) {
        let i = choose|i: int|
            0 <= i < policy.rules().len() && rule_match(#[trigger] policy.rules()[i], authority);
        assert(rule_match(policy.allow@[i]@, authority));
    }
}

/// Every allow entry counts: one that covers an authority lets it out wherever
/// it stands in the list.
pub proof fn law_every_entry_counts(policy: EgressPolicy, i: int, authority: Seq<char>)
    requires
        0 <= i < policy.allow@.len(),
        rule_match(policy.allow@[i]@, authority),
    ensures
        policy.permits(authority),
{
    assert(policy.rules()[i] == policy.allow@[i]@);
}

/// The port that a request is checked for: the stated one; where none is
/// stated 80 for `http` and 443 for `https`, and none for any other scheme.
pub proof fn law_checked_port(scheme: Seq<char>, host: Seq<char>, port: Seq<char>)
    requires
        !host.contains(']'),
    ensures
        egress_port(Some(scheme), host, Some(port)) == Some(port),
        egress_port(None, host, Some(port)) == Some(port),
        egress_port(None, host, None) is None,
        crate::text::lower(scheme) == "http"@ ==> egress_port(Some(scheme), host, None) == Some(
            "80"@,
        ),
        crate::text::lower(scheme) == "https"@ ==> egress_port(Some(scheme), host, None) == Some(
            "443"@,
        ),
        crate::text::lower(scheme) != "http"@ && crate::text::lower(scheme) != "https"@
            ==> egress_port(Some(scheme), host, None) is None,
        egress_port(Some(scheme), host.push(']'), None) is None,
        egress_port(Some(scheme), host.push(']'), Some(port)) == Some(port),
{
    assert(host.push(']')[host.len() as int] == ']');
    reveal_strlit("http");
    reveal_strlit("https");
    assert(crate::text::lower("http"@) =~= "http"@);
    assert(crate::text::lower("https"@) =~= "https"@);
}

/// A request is refused exactly where it names no host, which is answered 500,
/// or where the policy does not permit `[scheme://]host[:port]`, which is
/// answered 403 and names the host. Only of an IPv6 literal is the port left
/// out as well.
pub proof fn law_policy_decides_on_requests(
    policy: EgressPolicy,
    scheme: Option<Seq<char>>,
    host: Seq<char>,
    port: Option<Seq<char>>,
)
    ensures
        refusal(policy, scheme, None) is Some,
        refusal(policy, scheme, None)->0.status == 500,
        (refusal(policy, scheme, Some((host, port))) is None) == (policy.permits(
            egress_target(scheme, host, egress_port(scheme, host, port)),
        ) || (host.contains(']') && policy.permits(egress_target(scheme, host, None)))),
        refusal(policy, scheme, Some((host, port))) matches Some(e) ==> e.status == 403 && exists|
            a: Seq<char>,
            b: Seq<char>,
        | #[trigger] (a + host + b) == e.message,
        policy.rules().len() == 0 && policy.default_deny ==> refusal(
            policy,
            scheme,
            Some((host, port)),
        ) is Some,
{
    match refusal(policy, scheme, Some((host, port))) {
        Some(e) => {
            assert("egress denied for `"@ + host + "`"@ == e.message);
        },
        None => {},
    }
}

/// The methods that components use are sent as they are; only one that is
/// not known is sent as `GET`.
pub proof fn law_known_methods_are_kept(m: Seq<char>)
    ensures
        seq!["GET"@, "POST"@, "PUT"@, "DELETE"@, "PATCH"@, "HEAD"@, "OPTIONS"@].contains(m)
            ==> upstream_method(m) == m,
        !seq!["GET"@, "POST"@, "PUT"@, "DELETE"@, "PATCH"@, "HEAD"@, "OPTIONS"@].contains(m)
            ==> upstream_method(m) == "GET"@,
{
    let known = seq!["GET"@, "POST"@, "PUT"@, "DELETE"@, "PATCH"@, "HEAD"@, "OPTIONS"@];
    if is_known_method(m) {
        let i: int = if m == "GET"@ {
            0
        } else if m == "POST"@ {
            1
        } else if m == "PUT"@ {
            2
        } else if m == "DELETE"@ {
            3
        } else if m == "PATCH"@ {
            4
        } else if m == "HEAD"@ {
            5
        } else {
            6
        };
        assert(known[i] == m);
    }
}

/// Every header field goes upstream and comes back in its place under its
/// name; its value is kept where it is text, and empty where it is not.
pub proof fn law_every_field_goes_upstream(h: Seq<(Seq<char>, Seq<u8>)>, i: int)
    requires
        0 <= i < h.len(),
    ensures
        as_text(h).len() == h.len(),
        as_text(h)[i].0 == h[i].0,
        match crate::http::headers::visible_text(h[i].1) {
            Some(t) => as_text(h)[i].1 == t,
            None => as_text(h)[i].1.len() == 0,
        },
{
}

/// A text with a scheme is the scheme, the first `://` in it, and the rest;
/// one without holds no `://` and is all rest.
pub proof fn law_scheme_and_rest_make_up_the_text(s: Seq<char>)
    ensures
        match scheme_of(s) {
            Some(a) => {
                &&& s == a + "://"@ + after_scheme(s)
                &&& forall|i: int|
                    0 <= i < a.len() ==> !#[trigger] crate::text::occurs_at(s, "://"@, i)
            },
            None => {
                &&& s == after_scheme(s)
                &&& forall|i: int| !#[trigger] crate::text::occurs_at(s, "://"@, i)
            },
        },
{
    crate::text::law_first_occurrence_is_found(s, "://"@);
    match crate::text::find(s, "://"@) {
        Some(i) => {
            let n = "://"@.len() as int;
            assert(s.subrange(i, i + n) == "://"@);
            assert(s =~= s.take(i) + s.subrange(i, i + n) + s.skip(i + n));
        },
        None => {},
    }
}

/// The authority that the policy sees: the scheme and `://` stand in front of
/// the host, a colon and the port behind it, each where there is one.
pub proof fn law_target_is_put_together(
    scheme: Seq<char>,
    with: Option<Seq<char>>,
    host: Seq<char>,
    port: Seq<char>,
    at: Option<Seq<char>>,
)
    ensures
        egress_target(None, host, None) == host,
        egress_target(Some(scheme), host, at) == scheme + "://"@ + egress_target(None, host, at),
        egress_target(with, host, Some(port)) == egress_target(with, host, None).push(':') + port,
{
    reveal_strlit(":");
    assert(egress_target(None, host, None) =~= host);
    assert(egress_target(Some(scheme), host, at) =~= scheme + "://"@ + egress_target(
        None,
        host,
        at,
    ));
    assert(egress_target(with, host, Some(port)) =~= egress_target(with, host, None).push(':')
        + port);
}

/// A rule covers an authority only where its host pattern matches; it then
/// does unless both state a scheme and the schemes differ, or both state a
/// port and the ports differ.
pub proof fn law_rule_covers_unless_restricted(rule: Seq<char>, authority: Seq<char>)
    ensures
        rule_match(rule, authority) ==> host_match(
            host_and_port(after_scheme(rule)).0,
            host_and_port(after_scheme(authority)).0,
        ),
        host_match(
            host_and_port(after_scheme(rule)).0,
            host_and_port(after_scheme(authority)).0,
        ) && !rule_match(rule, authority) ==> {
            ||| scheme_of(rule) is Some && scheme_of(authority) is Some && crate::text::lower(
                scheme_of(rule)->0,
            ) != crate::text::lower(scheme_of(authority)->0)
            ||| host_and_port(after_scheme(rule)).1 is Some && host_and_port(
                after_scheme(authority),
            ).1 is Some && host_and_port(after_scheme(rule)).1 != host_and_port(
                after_scheme(authority),
            ).1
        },
{
}

/// An authority is seen by its host and its port, and a failure by its status
/// and its message.
pub proof fn law_authorities_are_seen_whole(a: Authority, e: HttpError)
    ensures
        authority_view(Some(a)) == Some((a.host@, crate::text::opt_view(a.port))),
        authority_view(None) is None,
        e@.status == e.status,
        e@.message == e.message@,
{
}

} // verus!
