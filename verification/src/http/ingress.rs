//! HTTP ingress.
//!
//! The ingress maps `/{tenant}/*` onto the runtime: it tells which tenant a
//! request is for, which path the component sees, and how an error is
//! answered.

use vstd::prelude::*;
use vstd::slice::slice_subrange;
use vstd::string::*;

use crate::component::linker::{HttpRequest, HttpResponse};
use crate::config::HttpConfig;
use crate::error::{Error, ErrorView};
use crate::http::headers::{header_name, RawHeader};
use crate::runtime::TenantId;
use crate::text::{chars, decimal_text, text};

verus! {

/// The body of the liveness route.
pub const HEALTHY: &'static str = "ok";

/// The content type of the metrics route.
pub const METRICS_CONTENT_TYPE: &'static str = "text/plain; version=0.0.4; charset=utf-8";

/// The two digits of a character below 32 in a `\u` escape.
pub open spec fn control_digits(c: char) -> Seq<char> {
    seq![crate::hash::nibble(c as int / 16), crate::hash::nibble(c as int % 16)]
}

/// A character as it stands in a JSON string.
pub open spec fn json_char(c: char) -> Seq<char> {
    if c == '"' {
        seq!['\\', '"']
    } else if c == '\\' {
        seq!['\\', '\\']
    } else if c == '\u{8}' {
        seq!['\\', 'b']
    } else if c == '\u{c}' {
        seq!['\\', 'f']
    } else if c == '\n' {
        seq!['\\', 'n']
    } else if c == '\r' {
        seq!['\\', 'r']
    } else if c == '\t' {
        seq!['\\', 't']
    } else if '\u{1f}' >= c {
        seq!['\\', 'u', '0', '0'] + control_digits(c)
    } else {
        seq![c]
    }
}

/// The characters of `s` as they stand between the quotes of a JSON string.
pub open spec fn json_chars(s: Seq<char>) -> Seq<char>
    decreases s.len(),
{
    if s.len() == 0 {
        Seq::empty()
    } else {
        json_chars(s.drop_last()) + json_char(s.last())
    }
}

/// `s` as a JSON string.
pub open spec fn json_string(s: Seq<char>) -> Seq<char> {
    seq!['"'] + json_chars(s) + seq!['"']
}

/// `serde_json::Value` of a string, written out: the text in quotes, with
/// quotes, backslashes and control characters escaped and everything else as
/// it is.
#[verifier::external_body]
fn to_json(s: &str) -> (j: String)
    ensures
        j@ == json_string(s@),
{
    serde_json::Value::from(s).to_string()
}

/// The body of an error answer.
pub open spec fn error_body(message: Seq<char>, status: u16) -> Seq<char> {
    "{\"error\":"@ + json_string(message) + ",\"status\":"@ + crate::text::decimal(status as nat)
        + "}"@
}

/// Error type for the ingress that maps [`Error`] onto HTTP responses.
#[derive(Debug)]
pub struct IngressError(Error);

impl View for IngressError {
    type V = ErrorView;

    closed spec fn view(&self) -> ErrorView {
        self.0@
    }
}

impl IngressError {
    /// The answer to a request that failed with `e`.
    pub fn new(e: Error) -> (r: IngressError)
        ensures
            r@ == e@,
    {
        IngressError(e)
    }

    /// The HTTP response for the error: its status, and a JSON object with
    /// the message and the status.
    pub fn into_response(self) -> (r: HttpResponse)
        ensures
            r.status == crate::error::status_of(self@),
            crate::http::headers::raw_headers(r.headers@) == seq![
                (
                    "content-type"@,
                    vstd::utf8::encode_utf8("application/json"@),
                ),
            ],
            r.body@ == vstd::utf8::encode_utf8(
                error_body(crate::error::message_of(self@), crate::error::status_of(self@)),
            ),
    {
        let status: u16 = self.0.status();
        let body: String = "{\"error\":".to_owned().concat(
            to_json(self.0.to_string().as_str()).as_str(),
        ).concat(",\"status\":").concat(decimal_text(status as u128).as_str()).concat("}");
        let mut headers: Vec<RawHeader> = Vec::new();
        headers.push(("content-type".to_owned(), utf8("application/json")));
        proof {
            assert(crate::http::headers::raw_headers(headers@) =~= seq![
                (
                    "content-type"@,
                    vstd::utf8::encode_utf8("application/json"@),
                ),
            ]);
        }
        HttpResponse { status, headers, body: utf8(body.as_str()) }
    }
}

/// The bytes of `s`.
fn utf8(s: &str) -> (v: Vec<u8>)
    ensures
        v@ == vstd::utf8::encode_utf8(s@),
{
    vstd::slice::slice_to_vec(s.as_bytes())
}

/// The header that carries the request id, as it stands on the wire. A
/// configured name that is no header name is refused.
pub fn request_id_header(config: &HttpConfig) -> (r: Result<String, Error>)
    ensures
        match crate::http::headers::wire_name(config@.request_id_header) {
            Some(n) => r is Ok && r->Ok_0@ == n,
            None => r is Err && r->Err_0@ == ErrorView::Config(
                "http.request_id_header `"@ + config@.request_id_header + "` is no header name"@,
            ),
        },
{
    match header_name(config.request_id_header.as_str()) {
        Some(n) => Ok(n),
        None => Err(
            Error::Config(
                "http.request_id_header `".to_owned().concat(
                    config.request_id_header.as_str(),
                ).concat("` is no header name"),
            ),
        ),
    }
}

/// The path a component sees for a request path: what follows the tenant
/// segment, from its slash on.
pub open spec fn component_path(path: Seq<char>) -> Seq<char> {
    let from = if path.len() > 0 && path[0] == '/' {
        1int
    } else {
        0
    };
    match crate::text::find_from(path, seq!['/'], from) {
        Some(i) => path.skip(i),
        None => seq!['/'],
    }
}

/// A request as it reaches the ingress, with its body collected.
#[derive(Debug)]
pub struct Incoming {
    /// The tenant segment of the path, decoded.
    pub tenant: String,
    /// The method.
    pub method: String,
    /// The path of the URI.
    pub path: String,
    /// The query of the URI, where it has one.
    pub query: Option<String>,
    /// The header fields, in order.
    pub headers: Vec<RawHeader>,
    /// The body, or why it could not be collected within the limit.
    pub body: Result<Vec<u8>, String>,
}

/// Turn a request into what is dispatched: the tenant and the request its
/// component sees. One whose body was not collected, or whose first path
/// segment is no tenant id, is refused.
pub fn dispatch(incoming: Incoming) -> (r: Result<(TenantId, HttpRequest), IngressError>)
    ensures
        match incoming.body {
            Err(reason) => r is Err && r->Err_0@ == ErrorView::Http(reason@),
            Ok(body) => match crate::runtime::id_fault(incoming.tenant@) {
                Some(fault) => r is Err && r->Err_0@ == ErrorView::Config(fault),
                None => {
                    &&& r is Ok
                    &&& r->Ok_0.0@ == incoming.tenant@
                    &&& r->Ok_0.1.method == incoming.method
                    &&& r->Ok_0.1.path@ == component_path(incoming.path@)
                    &&& r->Ok_0.1.query == incoming.query
                    &&& r->Ok_0.1.headers == incoming.headers
                    &&& r->Ok_0.1.body == body
                },
            },
        },
{
    let body: Vec<u8> = match incoming.body {
        Ok(b) => b,
        Err(reason) => {
            return Err(IngressError::new(Error::Http(reason)));
        },
    };
    let tenant: TenantId = match TenantId::parse(incoming.tenant.as_str()) {
        Ok(id) => id,
        Err(e) => {
            return Err(IngressError::new(e));
        },
    };
    let path: String = path_for_component(incoming.path.as_str());
    Ok(
        (
            tenant,
            HttpRequest {
                method: incoming.method,
                path,
                query: incoming.query,
                headers: incoming.headers,
                body,
            },
        ),
    )
}

/// Executable form of [`component_path`].
fn path_for_component(path: &str) -> (s: String)
    ensures
        s@ == component_path(path@),
{
    let cs: Vec<char> = chars(path);
    let total: usize = cs.len();
    let from: usize = if total > 0 && cs[0] == '/' {
        1
    } else {
        0
    };
    let mut i: usize = from;
    while i < total
        invariant
            from <= i <= total,
            total == cs@.len(),
            cs@ == path@,
            from == (if cs@.len() > 0 && cs@[0] == '/' { 1int } else { 0 }),
            crate::text::find_from(path@, seq!['/'], from as int) == crate::text::find_from(
                path@,
                seq!['/'],
                i as int,
            ),
        decreases total - i,
    {
        if cs[i] == '/' {
            let rest = slice_subrange(cs.as_slice(), i, total);
            proof {
                assert(rest@ =~= path@.skip(i as int));
                assert(path@.subrange(i as int, i + 1) =~= seq!['/']);
            }
            return text(rest);
        }
        proof {
            assert(!crate::text::occurs_at(path@, seq!['/'], i as int)) by {
                if crate::text::occurs_at(path@, seq!['/'], i as int) {
                    assert(path@.subrange(i as int, i + 1)[0] == '/');
                }
            }
            if i + 1 == total {
                assert(!crate::text::occurs_at(path@, seq!['/'], i + 1));
            }
        }
        i = i + 1;
    }
    proof {
        reveal_strlit("/");
        assert("/"@ =~= seq!['/']);
    }
    "/".to_owned()
}

/// A request for `/{tenant}/{rest}` reaches the component of the tenant as
/// `/{rest}`.
pub proof fn law_component_sees_the_remainder(tenant: Seq<char>, rest: Seq<char>)
    requires
        !tenant.contains('/'),
    ensures
        component_path(seq!['/'] + tenant + seq!['/'] + rest) == seq!['/'] + rest,
{
    let path = seq!['/'] + tenant + seq!['/'] + rest;
    let at = 1 + tenant.len() as int;
    assert(path[0] == '/');
    lemma_find_slash(path, 1, at);
    assert(path.skip(at) =~= seq!['/'] + rest);
}

proof fn lemma_find_slash(path: Seq<char>, from: int, at: int)
    requires
        0 <= from <= at < path.len(),
        path[at] == '/',
        forall|i: int| from <= i < at ==> #[trigger] path[i] != '/',
    ensures
        crate::text::find_from(path, seq!['/'], from) == Some(at),
    decreases at - from,
{
    if from == at {
        assert(path.subrange(at, at + 1) =~= seq!['/']);
    } else {
        assert(!crate::text::occurs_at(path, seq!['/'], from)) by {
            if crate::text::occurs_at(path, seq!['/'], from) {
                assert(path.subrange(from, from + 1)[0] == '/');
            }
        }
        lemma_find_slash(path, from + 1, at);
    }
}

/// A JSON string holds no control character, whatever the text holds: an error
/// message cannot break the answer that it stands in.
pub proof fn law_json_strings_hold_no_controls(s: Seq<char>, i: int)
    requires
        0 <= i < json_string(s).len(),
    ensures
        ' ' <= json_string(s)[i],
{
    lemma_json_chars(s);
    let inner = json_chars(s);
    if 1 <= i <= inner.len() {
        assert(json_string(s)[i] == inner[i - 1]);
    }
}

proof fn lemma_json_char(c: char)
    ensures
        forall|i: int| 0 <= i < json_char(c).len() ==> ' ' <= #[trigger] json_char(c)[i],
{
    let escape = seq!['\\', 'u', '0', '0'];
    let digits = control_digits(c);
    assert forall|i: int| 0 <= i < json_char(c).len() implies ' ' <= #[trigger] json_char(c)[i] by {
        if json_char(c) == escape + digits {
            if i < 4 {
                assert((escape + digits)[i] == escape[i]);
            } else {
                assert((escape + digits)[i] == digits[i - 4]);
            }
        }
    }
}

proof fn lemma_json_chars(s: Seq<char>)
    ensures
        forall|i: int| 0 <= i < json_chars(s).len() ==> ' ' <= #[trigger] json_chars(s)[i],
    decreases s.len(),
{
    if s.len() > 0 {
        lemma_json_chars(s.drop_last());
        let c = s.last();
        lemma_json_char(c);
        let before = json_chars(s.drop_last());
        assert forall|i: int| 0 <= i < json_chars(s).len() implies ' ' <= #[trigger] json_chars(
            s,
        )[i] by {
            if i < before.len() {
                assert(json_chars(s)[i] == before[i]);
            } else {
                assert(json_chars(s)[i] == json_char(c)[i - before.len()]);
            }
        }
    }
}

/// A path that ends with the tenant segment leads to the root of the
/// component, and the slash in front of the tenant may be missing.
pub proof fn law_tenant_alone_is_the_root(tenant: Seq<char>, rest: Seq<char>)
    requires
        !tenant.contains('/'),
    ensures
        component_path(seq!['/'] + tenant) == seq!['/'],
        component_path(tenant) == seq!['/'],
        component_path(tenant + seq!['/'] + rest) == seq!['/'] + rest || tenant.len() == 0,
{
    let path = seq!['/'] + tenant;
    assert(path[0] == '/');
    lemma_no_slash(path, 1);
    lemma_no_slash(tenant, 0);
    if tenant.len() > 0 {
        let full = tenant + seq!['/'] + rest;
        assert(full[0] == tenant[0]);
        lemma_find_slash(full, 0, tenant.len() as int);
        assert(full.skip(tenant.len() as int) =~= seq!['/'] + rest);
    }
}

proof fn lemma_no_slash(path: Seq<char>, from: int)
    requires
        0 <= from,
        forall|i: int| from <= i < path.len() ==> #[trigger] path[i] != '/',
    ensures
        crate::text::find_from(path, seq!['/'], from) is None,
    decreases path.len() - from,
{
    assert(!crate::text::occurs_at(path, seq!['/'], from)) by {
        if crate::text::occurs_at(path, seq!['/'], from) {
            assert(path.subrange(from, from + 1)[0] == '/');
        }
    }
    if from + 1 < path.len() {
        lemma_no_slash(path, from + 1);
    }
}

/// The text of a JSON string is written character by character: what needs no
/// escape stands as it is, an escape begins with a backslash, and no two
/// characters are written alike.
pub proof fn law_json_text_can_be_read_back(s: Seq<char>, t: Seq<char>, c: char, d: char)
    ensures
        json_chars(s + t) == json_chars(s) + json_chars(t),
        json_chars(seq![c]) == json_char(c),
        (' ' <= c && c != '"' && c != '\\') <==> json_char(c) == seq![c],
        json_char(c) != seq![c] ==> json_char(c).len() >= 2 && json_char(c)[0] == '\\',
        json_char(c) == json_char(d) ==> c == d,
    decreases t.len(),
{
    reveal_with_fuel(json_chars, 2);
    assert(seq![c].drop_last() =~= Seq::<char>::empty());
    assert(seq![c].last() == c);
    assert(Seq::<char>::empty() + json_char(c) =~= json_char(c));
    assert(seq![c][0] == c && seq![d][0] == d);
    let escape = seq!['\\', 'u', '0', '0'];
    let x = control_digits(c);
    let y = control_digits(d);
    assert((escape + x)[0] == '\\' && (escape + x)[1] == 'u' && (escape + x).len() == 6);
    assert((escape + y)[0] == '\\' && (escape + y)[1] == 'u' && (escape + y).len() == 6);
    assert((escape + x)[4] == x[0] && (escape + x)[5] == x[1]);
    assert((escape + y)[4] == y[0] && (escape + y)[5] == y[1]);
    if json_char(c) == json_char(d) {
        assert(json_char(c)[0] == json_char(d)[0]);
        if json_char(c).len() >= 2 {
            assert(json_char(c)[1] == json_char(d)[1]);
        }
        if json_char(c).len() == 6 {
            assert(json_char(c)[4] == json_char(d)[4]);
            assert(json_char(c)[5] == json_char(d)[5]);
        }
    }
    if t.len() == 0 {
        assert(s + t =~= s);
        assert(json_chars(s) + json_chars(t) =~= json_chars(s));
    } else {
        let init = t.drop_last();
        law_json_text_can_be_read_back(s, init, c, d);
        assert((s + t).drop_last() =~= s + init);
        assert((s + t).last() == t.last());
        assert(json_chars(s) + json_chars(init) + json_char(t.last()) =~= json_chars(s) + (
        json_chars(init) + json_char(t.last())));
    }
}

/// An error answer is a JSON object of two members: the whole message in
/// quotes, and the status in decimal.
pub proof fn law_error_answer_carries_message_and_status(message: Seq<char>, status: u16)
    ensures
        ({
            let body = error_body(message, status);
            let quoted = json_chars(message).len() as int;
            let digits = crate::text::decimal(status as nat).len() as int;
            &&& body.len() == 10 + quoted + 11 + digits + 1
            &&& body.take(10) == "{\"error\":\""@
            &&& body.subrange(10, 10 + quoted) == json_chars(message)
            &&& body.subrange(10 + quoted, 21 + quoted) == "\",\"status\":"@
            &&& body.subrange(21 + quoted, 21 + quoted + digits) == crate::text::decimal(
                status as nat,
            )
            &&& body.last() == '}'
        }),
{
    reveal_strlit("{\"error\":");
    reveal_strlit("{\"error\":\"");
    reveal_strlit(",\"status\":");
    reveal_strlit("\",\"status\":");
    reveal_strlit("}");
    let body = error_body(message, status);
    let quoted = json_chars(message).len() as int;
    let digits = crate::text::decimal(status as nat).len() as int;
    assert(body.take(10) =~= "{\"error\":\""@);
    assert(body.subrange(10, 10 + quoted) =~= json_chars(message));
    assert(body.subrange(10 + quoted, 21 + quoted) =~= "\",\"status\":"@);
    assert(body.subrange(21 + quoted, 21 + quoted + digits) =~= crate::text::decimal(
        status as nat,
    ));
}

} // verus!
