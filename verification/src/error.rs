//! Error taxonomy for the runtime.
//!
//! [`Error`] is the single error type that crosses module boundaries. The
//! [`Error::status`] mapping drives the HTTP status an ingress failure
//! surfaces to a caller, so tenant/configuration failures read as 4xx and
//! runtime failures read as 5xx. A sandbox limit that a tenant runs into is
//! the tenant's own failure, and reads as 429.

use vstd::prelude::*;
use vstd::string::*;

verus! {

/// Errors that can occur anywhere inside Ember.
#[derive(Debug)]
pub enum Error {
    /// Invalid or contradictory configuration.
    Config(String),
    /// A component artifact failed structural validation.
    InvalidComponent {
        /// Source name of the artifact (file path or OCI reference).
        path: String,
        /// Validator detail.
        reason: String,
    },
    /// A valid component does not satisfy the `ember-guest` contract.
    Contract(String),
    /// No artifact is available for a requested reference or digest.
    ComponentNotFound(String),
    /// No tenant is registered under the given id.
    TenantNotFound(String),
    /// Generic registry-layer failure.
    Registry(String),
    /// OCI distribution protocol failure.
    Oci(String),
    /// Wasmtime engine or component failure, in the engine's words.
    Wasm(String),
    /// Artifact validation failure, in the validator's words.
    Validation(String),
    /// HTTP layer failure (header construction, body conversion, ...).
    Http(String),
    /// I/O failure, in the operating system's words.
    Io(String),
    /// A blob's sha256 did not match its claimed digest.
    DigestMismatch {
        /// The digest that was asked for.
        expected: String,
        /// The digest of the bytes at hand.
        computed: String,
    },
    /// A per-tenant sandbox limit was exceeded.
    LimitExceeded(String),
    /// Graceful shutdown requested while serving.
    Shutdown,
}

/// What an [`Error`] says, with texts as sequences of characters.
pub enum ErrorView {
    Config(Seq<char>),
    InvalidComponent { path: Seq<char>, reason: Seq<char> },
    Contract(Seq<char>),
    ComponentNotFound(Seq<char>),
    TenantNotFound(Seq<char>),
    Registry(Seq<char>),
    Oci(Seq<char>),
    Wasm(Seq<char>),
    Validation(Seq<char>),
    Http(Seq<char>),
    Io(Seq<char>),
    DigestMismatch { expected: Seq<char>, computed: Seq<char> },
    LimitExceeded(Seq<char>),
    Shutdown,
}

impl View for Error {
    type V = ErrorView;

    open spec fn view(&self) -> ErrorView {
        match self {
            Error::Config(s) => ErrorView::Config(s@),
            Error::InvalidComponent { path, reason } => ErrorView::InvalidComponent {
                path: path@,
                reason: reason@,
            },
            Error::Contract(s) => ErrorView::Contract(s@),
            Error::ComponentNotFound(s) => ErrorView::ComponentNotFound(s@),
            Error::TenantNotFound(s) => ErrorView::TenantNotFound(s@),
            Error::Registry(s) => ErrorView::Registry(s@),
            Error::Oci(s) => ErrorView::Oci(s@),
            Error::Wasm(s) => ErrorView::Wasm(s@),
            Error::Validation(s) => ErrorView::Validation(s@),
            Error::Http(s) => ErrorView::Http(s@),
            Error::Io(s) => ErrorView::Io(s@),
            Error::DigestMismatch { expected, computed } => ErrorView::DigestMismatch {
                expected: expected@,
                computed: computed@,
            },
            Error::LimitExceeded(s) => ErrorView::LimitExceeded(s@),
            Error::Shutdown => ErrorView::Shutdown,
        }
    }
}

/// A result with its error seen through [`ErrorView`].
pub open spec fn outcome<T>(r: Result<T, Error>) -> Result<T, ErrorView> {
    match r {
        Ok(v) => Ok(v),
        Err(e) => Err(e@),
    }
}

/// The HTTP status an error is surfaced as.
pub open spec fn status_of(e: ErrorView) -> u16 {
    match e {
        ErrorView::Config(_) => 400,
        ErrorView::InvalidComponent { .. } | ErrorView::Contract(_) | ErrorView::Http(_) => 400,
        ErrorView::ComponentNotFound(_) | ErrorView::TenantNotFound(_) => 404,
        ErrorView::DigestMismatch { .. } => 409,
        ErrorView::LimitExceeded(_) => 429,
        ErrorView::Shutdown => 503,
        _ => 500,
    }
}

/// The message an error is shown as.
pub open spec fn message_of(e: ErrorView) -> Seq<char> {
    match e {
        ErrorView::Config(s) => "configuration error: "@ + s,
        ErrorView::InvalidComponent { path, reason } => "invalid component artifact `"@ + path
            + "`: "@ + reason,
        ErrorView::Contract(s) => "component contract violated: "@ + s,
        ErrorView::ComponentNotFound(s) => "component not found: "@ + s,
        ErrorView::TenantNotFound(s) => "tenant not found: "@ + s,
        ErrorView::Registry(s) => "registry error: "@ + s,
        ErrorView::Oci(s) => "oci distribution error: "@ + s,
        ErrorView::Wasm(s) => "wasmtime error: "@ + s,
        ErrorView::Validation(s) => "validation error: "@ + s,
        ErrorView::Http(s) => "http error: "@ + s,
        ErrorView::Io(s) => "i/o error: "@ + s,
        ErrorView::DigestMismatch { expected, computed } => "digest mismatch: expected "@ + expected
            + ", computed "@ + computed,
        ErrorView::LimitExceeded(s) => "sandbox limit exceeded: "@ + s,
        ErrorView::Shutdown => "shutdown requested"@,
    }
}

impl Error {
    /// Map an error to the HTTP status it should be surfaced as.
    pub fn status(&self) -> (s: u16)
        ensures
            s == status_of(self@),
    {
        match self {
            Error::Config(_) => 400,
            Error::InvalidComponent { .. } | Error::Contract(_) => 400,
            Error::ComponentNotFound(_) | Error::TenantNotFound(_) => 404,
            Error::Registry(_) | Error::Oci(_) | Error::Wasm(_) | Error::Validation(_) => 500,
            Error::Http(_) => 400,
            Error::Io(_) => 500,
            Error::DigestMismatch { .. } => 409,
            Error::LimitExceeded(_) => 429,
            Error::Shutdown => 503,
        }
    }

    /// The error as a message for people.
    pub fn to_string(&self) -> (s: String)
        ensures
            s@ == message_of(self@),
    {
        match self {
            Error::Config(s) => "configuration error: ".to_owned().concat(s.as_str()),
            Error::InvalidComponent { path, reason } => "invalid component artifact `".to_owned().concat(
            path.as_str()).concat("`: ").concat(reason.as_str()),
            Error::Contract(s) => "component contract violated: ".to_owned().concat(s.as_str()),
            Error::ComponentNotFound(s) => "component not found: ".to_owned().concat(s.as_str()),
            Error::TenantNotFound(s) => "tenant not found: ".to_owned().concat(s.as_str()),
            Error::Registry(s) => "registry error: ".to_owned().concat(s.as_str()),
            Error::Oci(s) => "oci distribution error: ".to_owned().concat(s.as_str()),
            Error::Wasm(s) => "wasmtime error: ".to_owned().concat(s.as_str()),
            Error::Validation(s) => "validation error: ".to_owned().concat(s.as_str()),
            Error::Http(s) => "http error: ".to_owned().concat(s.as_str()),
            Error::Io(s) => "i/o error: ".to_owned().concat(s.as_str()),
            Error::DigestMismatch {
                expected,
                computed,
            } => "digest mismatch: expected ".to_owned().concat(expected.as_str()).concat(
                ", computed ",
            ).concat(computed.as_str()),
            Error::LimitExceeded(s) => "sandbox limit exceeded: ".to_owned().concat(s.as_str()),
            Error::Shutdown => "shutdown requested".to_owned(),
        }
    }
}

/// Every error is surfaced as a client or a server failure, never as a
/// success or a redirect.
pub proof fn law_errors_are_failures(e: ErrorView)
    ensures
        400 <= status_of(e) < 600,
{
}

/// Whether an error is one of the tenant or of the configuration: of its id,
/// its settings, its artifact, its pin, its request, or its limits.
pub open spec fn is_tenant_failure(e: ErrorView) -> bool {
    ||| e is Config
    ||| e is InvalidComponent
    ||| e is Contract
    ||| e is ComponentNotFound
    ||| e is TenantNotFound
    ||| e is Http
    ||| e is DigestMismatch
    ||| e is LimitExceeded
}

/// Tenant and configuration failures read as 4xx, and all others as 5xx.
pub proof fn law_tenant_failures_read_as_4xx(e: ErrorView)
    ensures
        is_tenant_failure(e) ==> 400 <= status_of(e) < 500,
        !is_tenant_failure(e) ==> 500 <= status_of(e) < 600,
{
}

/// Each kind of error has its own status: what is asked for and not there is
/// 404, another digest than the expected one 409, a limit that is exceeded
/// 429, a shutdown 503, a fault in what was given 400, and all else 500.
pub proof fn law_statuses_tell_errors_apart(e: ErrorView)
    ensures
        status_of(e) == 404 <==> e is ComponentNotFound || e is TenantNotFound,
        status_of(e) == 409 <==> e is DigestMismatch,
        status_of(e) == 429 <==> e is LimitExceeded,
        status_of(e) == 503 <==> e is Shutdown,
        status_of(e) == 400 <==> e is Config || e is InvalidComponent || e is Contract
            || e is Http,
        status_of(e) == 500 <==> e is Registry || e is Oci || e is Wasm || e is Validation
            || e is Io,
{
}

/// The detail of an error stands at the end of its message, all of it; the
/// words in front of it depend on the kind of error alone.
pub proof fn law_messages_end_in_the_detail(s: Seq<char>, t: Seq<char>)
    ensures
        message_of(ErrorView::Config(s + t)) == message_of(ErrorView::Config(s)) + t,
        message_of(ErrorView::Contract(s + t)) == message_of(ErrorView::Contract(s)) + t,
        message_of(ErrorView::ComponentNotFound(s + t)) == message_of(
            ErrorView::ComponentNotFound(s),
        ) + t,
        message_of(ErrorView::TenantNotFound(s + t)) == message_of(ErrorView::TenantNotFound(s))
            + t,
        message_of(ErrorView::Registry(s + t)) == message_of(ErrorView::Registry(s)) + t,
        message_of(ErrorView::Oci(s + t)) == message_of(ErrorView::Oci(s)) + t,
        message_of(ErrorView::Wasm(s + t)) == message_of(ErrorView::Wasm(s)) + t,
        message_of(ErrorView::Validation(s + t)) == message_of(ErrorView::Validation(s)) + t,
        message_of(ErrorView::Http(s + t)) == message_of(ErrorView::Http(s)) + t,
        message_of(ErrorView::Io(s + t)) == message_of(ErrorView::Io(s)) + t,
        message_of(ErrorView::LimitExceeded(s + t)) == message_of(ErrorView::LimitExceeded(s))
            + t,
        message_of(ErrorView::Config(Seq::empty())) == "configuration error: "@,
        message_of(ErrorView::Contract(Seq::empty())) == "component contract violated: "@,
        message_of(ErrorView::ComponentNotFound(Seq::empty())) == "component not found: "@,
        message_of(ErrorView::TenantNotFound(Seq::empty())) == "tenant not found: "@,
        message_of(ErrorView::Registry(Seq::empty())) == "registry error: "@,
        message_of(ErrorView::Oci(Seq::empty())) == "oci distribution error: "@,
        message_of(ErrorView::Wasm(Seq::empty())) == "wasmtime error: "@,
        message_of(ErrorView::Validation(Seq::empty())) == "validation error: "@,
        message_of(ErrorView::Http(Seq::empty())) == "http error: "@,
        message_of(ErrorView::Io(Seq::empty())) == "i/o error: "@,
        message_of(ErrorView::LimitExceeded(Seq::empty())) == "sandbox limit exceeded: "@,
{
}

/// The message of an invalid artifact holds its path and ends in the reason;
/// that of a digest mismatch holds the expected digest and ends in the
/// computed one.
pub proof fn law_messages_hold_both_details(a: Seq<char>, b: Seq<char>, t: Seq<char>)
    ensures
        message_of(ErrorView::InvalidComponent { path: a, reason: b + t }) == message_of(
            ErrorView::InvalidComponent { path: a, reason: b },
        ) + t,
        message_of(ErrorView::InvalidComponent { path: a, reason: Seq::empty() })
            == "invalid component artifact `"@ + a + "`: "@,
        message_of(ErrorView::DigestMismatch { expected: a, computed: b + t }) == message_of(
            ErrorView::DigestMismatch { expected: a, computed: b },
        ) + t,
        message_of(ErrorView::DigestMismatch { expected: a, computed: Seq::empty() })
            == "digest mismatch: expected "@ + a + ", computed "@,
{
}

/// All that an error holds can be seen.
pub proof fn law_errors_are_seen_whole(e: Error)
    ensures
        match e {
            Error::Config(s) => e@ == ErrorView::Config(s@),
            Error::InvalidComponent { path, reason } => e@ is InvalidComponent && e@->path == path@
                && e@->reason == reason@,
            Error::Contract(s) => e@ == ErrorView::Contract(s@),
            Error::ComponentNotFound(s) => e@ == ErrorView::ComponentNotFound(s@),
            Error::TenantNotFound(s) => e@ == ErrorView::TenantNotFound(s@),
            Error::Registry(s) => e@ == ErrorView::Registry(s@),
            Error::Oci(s) => e@ == ErrorView::Oci(s@),
            Error::Wasm(s) => e@ == ErrorView::Wasm(s@),
            Error::Validation(s) => e@ == ErrorView::Validation(s@),
            Error::Http(s) => e@ == ErrorView::Http(s@),
            Error::Io(s) => e@ == ErrorView::Io(s@),
            Error::DigestMismatch { expected, computed } => e@ is DigestMismatch && e@->expected
                == expected@ && e@->computed == computed@,
            Error::LimitExceeded(s) => e@ == ErrorView::LimitExceeded(s@),
            Error::Shutdown => e@ is Shutdown,
        },
        outcome::<()>(Err(e)) == Err::<(), ErrorView>(e@),
        outcome::<()>(Ok(())) == Ok::<(), ErrorView>(()),
{
}

} // verus!
