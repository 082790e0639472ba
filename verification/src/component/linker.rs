//! Host side of the component ABI.
//!
//! [`HostCtx`] answers the `ember:runtime` imports of a guest: its tenant id
//! and configuration, its accounted scratch storage, and its log lines.
//! [`Request`] and [`Response`] are the records of the `handler` interface,
//! with the conversions from and to HTTP messages.

use vstd::prelude::*;
use vstd::string::*;

use crate::http::bridge::HttpBridge;
use crate::http::headers::{header_name, header_value, value_text, RawHeader, TextHeader};
use crate::wasi::sandbox::{scratch_path, Sandbox};

verus! {

/// Why a scratch write was refused.
#[derive(Debug, Clone, Copy, PartialEq, Eq, Structural)]
pub enum ScratchError {
    /// The write would exceed the tenant's byte quota.
    QuotaExceeded,
    /// The path is absolute or empty.
    InvalidPath,
}

/// How severe a guest's log line is.
#[derive(Debug, Clone, Copy, PartialEq, Eq, Structural)]
pub enum LogLevel {
    Debug,
    Info,
    Warn,
    Error,
}

/// A guest's log line on its way into the host's log.
#[derive(Debug)]
pub struct LogLine {
    /// How severe it is.
    pub level: LogLevel,
    /// The log target it appears under.
    pub target: String,
    /// What it says.
    pub message: String,
}

/// State behind the imports of every instance of one tenant.
#[derive(Debug)]
pub struct HostCtx {
    /// Sandbox ceilings, configuration and scratch storage.
    pub sandbox: Sandbox,
    /// Outbound bridge of the tenant.
    pub egress: HttpBridge,
}

/// Whether two contexts differ at most in the scratch storage.
pub open spec fn same_but_scratch(a: HostCtx, b: HostCtx) -> bool {
    &&& a.sandbox.tenant == b.sandbox.tenant
    &&& a.sandbox.limits == b.sandbox.limits
    &&& a.sandbox.config == b.sandbox.config
    &&& a.sandbox.readonly_preopens == b.sandbox.readonly_preopens
    &&& a.egress == b.egress
}

impl HostCtx {
    /// The scratch files by their path keys.
    pub open spec fn files(self) -> Map<Seq<char>, Seq<u8>> {
        self.sandbox.scratch.files()
    }

    /// The scratch quota.
    pub open spec fn quota(self) -> usize {
        self.sandbox.scratch.quota()
    }

    /// Build a fresh context around `sandbox`, with `egress` as its way out.
    pub fn new(sandbox: Sandbox, egress: HttpBridge) -> (c: HostCtx)
        ensures
            c.sandbox == sandbox,
            c.egress == egress,
    {
        HostCtx { sandbox, egress }
    }

    /// The tenant's id.
    pub fn tenant_id(&self) -> (s: String)
        ensures
            s@ == self.sandbox.tenant@,
    {
        self.sandbox.tenant.to_string()
    }

    /// The tenant's configuration value for `key`; `None` when unset.
    pub fn get_config(&self, key: &str) -> (r: Option<String>)
        ensures
            crate::text::opt_view(r) == (if self.sandbox.config@.dom().contains(key@) {
                Some(self.sandbox.config@[key@]@)
            } else {
                None
            }),
    {
        match self.sandbox.config.get(key) {
            Some(v) => Some(v.clone()),
            None => None,
        }
    }

    /// Write a scratch file under the tenant's byte quota. Absolute and empty
    /// paths are refused, and so is what would exceed the quota; nothing is
    /// written then.
    pub fn scratch_write(&mut self, path: &str, data: Vec<u8>) -> (r: Result<(), ScratchError>)
        ensures
            same_but_scratch(*final(self), *old(self)),
            final(self).quota() == old(self).quota(),
            final(self).files().dom().finite(),
            ({
                let next = old(self).files().insert(
                    crate::wasi::sandbox::path_key(path@),
                    data@,
                );
                if !crate::wasi::sandbox::is_scratch_path(path@) {
                    &&& r == Err::<(), ScratchError>(ScratchError::InvalidPath)
                    &&& final(self).files() == old(self).files()
                } else if crate::wasi::sandbox::total_bytes(next) > old(self).quota() {
                    &&& r == Err::<(), ScratchError>(ScratchError::QuotaExceeded)
                    &&& final(self).files() == old(self).files()
                } else {
                    &&& r is Ok
                    &&& final(self).files() == next
                    &&& crate::wasi::sandbox::total_bytes(final(self).files())
                        == crate::wasi::sandbox::total_bytes(old(self).files())
                        - crate::wasi::sandbox::size_at(
                        old(self).files(),
                        crate::wasi::sandbox::path_key(path@),
                    ) + data@.len()
                }
            }),
    {
        let fault: ScratchError = if scratch_path(path) {
            ScratchError::QuotaExceeded
        } else {
            ScratchError::InvalidPath
        };
        match self.sandbox.scratch.write(path, data) {
            Ok(()) => Ok(()),
            Err(_) => Err(fault),
        }
    }

    /// Read a scratch file; `None` when it does not exist.
    pub fn scratch_read(&self, path: &str) -> (r: Option<Vec<u8>>)
        ensures
            crate::http::headers::opt_bytes(r) == (if self.files().dom().contains(
                crate::wasi::sandbox::path_key(path@),
            ) {
                Some(self.files()[crate::wasi::sandbox::path_key(path@)])
            } else {
                None
            }),
    {
        self.sandbox.scratch.read(path)
    }

    /// Current scratch usage in bytes.
    pub fn scratch_bytes(&self) -> (n: u64)
        ensures
            n == crate::wasi::sandbox::total_bytes(self.files()),
            n <= self.quota(),
            self.files().dom().finite(),
    {
        self.sandbox.scratch.used_bytes()
    }

    /// Route a guest's log line into the host's log, under
    /// `ember::guest::{tenant}`.
    pub fn emit(&self, level: LogLevel, message: String) -> (l: LogLine)
        ensures
            l.level == level,
            l.target@ == "ember::guest::"@ + self.sandbox.tenant@,
            l.message == message,
    {
        LogLine {
            level,
            target: "ember::guest::".to_owned().concat(self.sandbox.tenant.as_str()),
            message,
        }
    }
}

/// An HTTP request with its body collected.
#[derive(Debug)]
pub struct HttpRequest {
    /// The method.
    pub method: String,
    /// The path of the URI.
    pub path: String,
    /// The query of the URI, where it has one.
    pub query: Option<String>,
    /// The header fields, in order; a multi-valued one is repeated.
    pub headers: Vec<RawHeader>,
    /// The body.
    pub body: Vec<u8>,
}

/// An HTTP response.
#[derive(Debug)]
pub struct HttpResponse {
    /// The status code.
    pub status: u16,
    /// The header fields, in order.
    pub headers: Vec<RawHeader>,
    /// The body.
    pub body: Vec<u8>,
}

/// A request as a component takes it.
#[derive(Debug)]
pub struct Request {
    /// The method.
    pub method: String,
    /// The request path.
    pub path: String,
    /// The query, where there is one.
    pub query: Option<String>,
    /// The header fields, in order; a multi-valued one is repeated.
    pub headers: Vec<TextHeader>,
    /// The body.
    pub body: Option<Vec<u8>>,
}

/// A response as a component gives it.
#[derive(Debug)]
pub struct Response {
    /// The status code.
    pub status: u16,
    /// The header fields, in order.
    pub headers: Vec<TextHeader>,
    /// The body.
    pub body: Vec<u8>,
}

/// The header fields that a component can see: those whose value is text, in
/// order.
pub open spec fn readable(h: Seq<(Seq<char>, Seq<u8>)>) -> Seq<(Seq<char>, Seq<char>)>
    decreases h.len(),
{
    if h.len() == 0 {
        Seq::empty()
    } else {
        let before = readable(h.drop_last());
        match crate::http::headers::visible_text(h.last().1) {
            Some(t) => before.push((h.last().0, t)),
            None => before,
        }
    }
}

/// The header fields of a component that can be put on the wire, in order.
pub open spec fn sendable(h: Seq<(Seq<char>, Seq<char>)>) -> Seq<(Seq<char>, Seq<u8>)>
    decreases h.len(),
{
    if h.len() == 0 {
        Seq::empty()
    } else {
        let before = sendable(h.drop_last());
        match (
            crate::http::headers::wire_name(h.last().0),
            crate::http::headers::wire_value(h.last().1),
        ) {
            (Some(n), Some(v)) => before.push((n, v)),
            _ => before,
        }
    }
}

impl Request {
    /// Normalize an HTTP request into the component ABI record, preserving
    /// multi-valued headers as repeated key/value pairs. Header fields whose
    /// value is not text are left out.
    pub fn from_http(req: HttpRequest) -> (r: Request)
        ensures
            r.method == req.method,
            r.path == req.path,
            r.query == req.query,
            crate::http::headers::text_headers(r.headers@) == readable(
                crate::http::headers::raw_headers(req.headers@),
            ),
            r.body == Some(req.body),
    {
        let headers: Vec<TextHeader> = readable_headers(&req.headers);
        Request {
            method: req.method,
            path: req.path,
            query: req.query,
            headers,
            body: Some(req.body),
        }
    }
}

impl Response {
    /// Materialize a component ABI record as an HTTP response. Header fields
    /// that are no valid HTTP names or values are dropped.
    pub fn into_http(self) -> (r: HttpResponse)
        requires
            100 <= self.status <= 999,
        ensures
            r.status == self.status,
            crate::http::headers::raw_headers(r.headers@) == sendable(
                crate::http::headers::text_headers(self.headers@),
            ),
            r.body == self.body,
    {
        let headers: Vec<RawHeader> = sendable_headers(&self.headers);
        HttpResponse { status: self.status, headers, body: self.body }
    }
}

/// Executable form of [`readable`].
fn readable_headers(headers: &Vec<RawHeader>) -> (v: Vec<TextHeader>)
    ensures
        crate::http::headers::text_headers(v@) == readable(
            crate::http::headers::raw_headers(headers@),
        ),
{
    let ghost all = crate::http::headers::raw_headers(headers@);
    let mut v: Vec<TextHeader> = Vec::new();
    let mut i: usize = 0;
    proof {
        assert(crate::http::headers::text_headers(v@) =~= Seq::empty());
    }
    while i < headers.len()
        invariant
            i <= headers@.len(),
            all == crate::http::headers::raw_headers(headers@),
            crate::http::headers::text_headers(v@) == readable(all.take(i as int)),
        decreases headers@.len() - i,
    {
        let ghost before = crate::http::headers::text_headers(v@);
        proof {
            assert(all.take(i + 1).drop_last() =~= all.take(i as int));
            assert(all.take(i + 1).last() == (headers@[i as int].0@, headers@[i as int].1@));
        }
        if let Some(t) = value_text(headers[i].1.as_slice()) {
            let name: String = headers[i].0.clone();
            v.push((name, t));
            proof {
                assert(crate::http::headers::text_headers(v@) =~= before.push((name@, t@)));
            }
        }
        i = i + 1;
    }
    proof {
        assert(all.take(i as int) =~= all);
    }
    v
}

/// Executable form of [`sendable`].
fn sendable_headers(headers: &Vec<TextHeader>) -> (v: Vec<RawHeader>)
    ensures
        crate::http::headers::raw_headers(v@) == sendable(
            crate::http::headers::text_headers(headers@),
        ),
{
    let ghost all = crate::http::headers::text_headers(headers@);
    let mut v: Vec<RawHeader> = Vec::new();
    let mut i: usize = 0;
    proof {
        assert(crate::http::headers::raw_headers(v@) =~= Seq::empty());
    }
    while i < headers.len()
        invariant
            i <= headers@.len(),
            all == crate::http::headers::text_headers(headers@),
            crate::http::headers::raw_headers(v@) == sendable(all.take(i as int)),
        decreases headers@.len() - i,
    {
        let ghost before = crate::http::headers::raw_headers(v@);
        proof {
            assert(all.take(i + 1).drop_last() =~= all.take(i as int));
            assert(all.take(i + 1).last() == (headers@[i as int].0@, headers@[i as int].1@));
        }
        match (header_name(headers[i].0.as_str()), header_value(headers[i].1.as_str())) {
            (Some(n), Some(b)) => {
                v.push((n, b));
                proof {
                    assert(crate::http::headers::raw_headers(v@) =~= before.push((n@, b@)));
                }
            },
            _ => {},
        }
        i = i + 1;
    }
    proof {
        assert(all.take(i as int) =~= all);
    }
    v
}

/// Header fields keep their order and multiplicity on the way to a component:
/// the fields it sees of two lists one after the other are those it sees of
/// the first followed by those it sees of the second.
pub proof fn law_readable_keeps_order(
    a: Seq<(Seq<char>, Seq<u8>)>,
    b: Seq<(Seq<char>, Seq<u8>)>,
)
    ensures
        readable(a + b) == readable(a) + readable(b),
    decreases b.len(),
{
    if b.len() == 0 {
        assert(a + b =~= a);
        assert(readable(a) + readable(b) =~= readable(a));
    } else {
        let init = b.drop_last();
        law_readable_keeps_order(a, init);
        assert((a + b).drop_last() =~= a + init);
        assert((a + b).last() == b.last());
        match crate::http::headers::visible_text(b.last().1) {
            Some(t) => {
                assert((readable(a) + readable(init)).push((b.last().0, t)) =~= readable(a)
                    + readable(init).push((b.last().0, t)));
            },
            None => {},
        }
    }
}

/// Header fields keep their order and multiplicity on the way from a
/// component.
pub proof fn law_sendable_keeps_order(
    a: Seq<(Seq<char>, Seq<char>)>,
    b: Seq<(Seq<char>, Seq<char>)>,
)
    ensures
        sendable(a + b) == sendable(a) + sendable(b),
    decreases b.len(),
{
    if b.len() == 0 {
        assert(a + b =~= a);
        assert(sendable(a) + sendable(b) =~= sendable(a));
    } else {
        let init = b.drop_last();
        law_sendable_keeps_order(a, init);
        assert((a + b).drop_last() =~= a + init);
        assert((a + b).last() == b.last());
        match (
            crate::http::headers::wire_name(b.last().0),
            crate::http::headers::wire_value(b.last().1),
        ) {
            (Some(n), Some(v)) => {
                assert((sendable(a) + sendable(init)).push((n, v)) =~= sendable(a) + sendable(
                    init,
                ).push((n, v)));
            },
            _ => {},
        }
    }
}

/// No header field is lost where every value is text.
pub proof fn law_visible_headers_all_reach_the_component(h: Seq<(Seq<char>, Seq<u8>)>)
    requires
        forall|i: int|
            0 <= i < h.len() ==> crate::http::headers::visible_text(
                (#[trigger] h[i]).1,
            ) is Some,
    ensures
        readable(h).len() == h.len(),
        forall|i: int|
            0 <= i < h.len() ==> #[trigger] readable(h)[i] == (
                h[i].0,
                crate::http::headers::visible_text(h[i].1)->0,
            ),
    decreases h.len(),
{
    if h.len() > 0 {
        law_visible_headers_all_reach_the_component(h.drop_last());
        assert(h[h.len() - 1] == h.last());
    }
}

/// No header field of a component is lost where every name and every value is
/// valid.
pub proof fn law_valid_headers_all_reach_the_caller(h: Seq<(Seq<char>, Seq<char>)>)
    requires
        forall|i: int|
            0 <= i < h.len() ==> crate::http::headers::wire_name((#[trigger] h[i]).0) is Some
                && crate::http::headers::wire_value(h[i].1) is Some,
    ensures
        sendable(h).len() == h.len(),
        forall|i: int|
            0 <= i < h.len() ==> #[trigger] sendable(h)[i] == (
                crate::http::headers::wire_name(h[i].0)->0,
                crate::http::headers::wire_value(h[i].1)->0,
            ),
    decreases h.len(),
{
    if h.len() > 0 {
        let init = h.drop_last();
        assert forall|i: int| 0 <= i < init.len() implies crate::http::headers::wire_name(
            (#[trigger] init[i]).0,
        ) is Some && crate::http::headers::wire_value(init[i].1) is Some by {
            assert(init[i] == h[i]);
        }
        law_valid_headers_all_reach_the_caller(init);
        assert(h[h.len() - 1] == h.last());
    }
}

/// A header field that is not valid is dropped and leaves the others as they
/// are, and so is one whose value a component cannot read.
pub proof fn law_invalid_headers_alone_are_dropped(
    a: Seq<(Seq<char>, Seq<char>)>,
    f: (Seq<char>, Seq<char>),
    b: Seq<(Seq<char>, Seq<char>)>,
    c: Seq<(Seq<char>, Seq<u8>)>,
    g: (Seq<char>, Seq<u8>),
    d: Seq<(Seq<char>, Seq<u8>)>,
)
    ensures
        crate::http::headers::wire_name(f.0) is None || crate::http::headers::wire_value(
            f.1,
        ) is None ==> sendable(a + seq![f] + b) == sendable(a) + sendable(b),
        crate::http::headers::visible_text(g.1) is None ==> readable(c + seq![g] + d) == readable(
            c,
        ) + readable(d),
{
    reveal_with_fuel(sendable, 2);
    reveal_with_fuel(readable, 2);
    assert(seq![f].last() == f && seq![g].last() == g);
    law_sendable_keeps_order(a + seq![f], b);
    law_sendable_keeps_order(a, seq![f]);
    law_readable_keeps_order(c + seq![g], d);
    law_readable_keeps_order(c, seq![g]);
    assert(seq![f].drop_last() =~= Seq::<(Seq<char>, Seq<char>)>::empty());
    assert(seq![g].drop_last() =~= Seq::<(Seq<char>, Seq<u8>)>::empty());
    assert(sendable(a) + Seq::<(Seq<char>, Seq<u8>)>::empty() =~= sendable(a));
    assert(readable(c) + Seq::<(Seq<char>, Seq<char>)>::empty() =~= readable(c));
}

/// Contexts that differ at most in the scratch storage are the same where
/// that is the same.
pub proof fn law_scratch_is_all_that_may_differ(a: HostCtx, b: HostCtx)
    requires
        same_but_scratch(a, b),
        a.sandbox.scratch == b.sandbox.scratch,
    ensures
        a == b,
{
}

} // verus!
