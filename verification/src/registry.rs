//! Module distribution: OCI pulls, the content store, and reload policy.
//!
//! [`OciClient`] is the distribution channel, [`ContentStore`] is the local
//! content-addressed cache, and [`HotReloadPolicy`] governs when a freshly
//! resolved digest replaces the active component. The runtime's reload loop
//! is the only consumer of all three.

use vstd::prelude::*;

use crate::component::loader::{Loaded, LoadedView};
use crate::error::{Error, ErrorView};

pub mod fetch;
pub mod manifests;
pub mod oci;
pub mod store;

pub use oci::{parse_digest, verify_digest, OciClient, OciClientConfig};
pub use store::{digest, ContentStore, HotReloadPolicy, PinSet};

verus! {

/// A registry facade that couples the OCI client with the local store.
#[derive(Debug)]
pub struct Registry {
    /// The distribution client, with the local content-addressed store.
    pub oci: OciClient,
    /// Reload governance.
    pub policy: HotReloadPolicy,
}

impl Clone for Registry {
    fn clone(&self) -> (r: Registry)
        ensures
            r == *self,
    {
        Registry { oci: self.oci.clone(), policy: self.policy }
    }
}

/// What pulling returns, given what fetching returned.
pub open spec fn pulled(
    fetched: Result<LoadedView, ErrorView>,
    pin: Option<Seq<char>>,
) -> Result<LoadedView, ErrorView> {
    match fetched {
        Err(e) => Err(e),
        Ok(l) => match pin {
            None => Ok(l),
            Some(p) => match oci::mismatch(l.bytes, p) {
                Some(e) => Err(e),
                None => Ok(LoadedView { digest: p, ..l }),
            },
        },
    }
}

impl Registry {
    /// Build a registry from a client and a reload policy.
    pub fn new(oci: OciClient, policy: HotReloadPolicy) -> (r: Registry)
        ensures
            r.oci == oci,
            r.policy == policy,
    {
        Registry { oci, policy }
    }

    /// The local content-addressed store.
    pub fn store(&self) -> (s: &ContentStore)
        ensures
            s.dir() == self.oci.cache(),
    {
        self.oci.store()
    }

    /// Apply an optional `pin` to what fetching a component returned.
    ///
    /// When `pin` is set the resolved artifact must match it; a mismatch
    /// surfaces as [`crate::error::Error::DigestMismatch`].
    pub fn pull(fetched: Result<Loaded, Error>, pin: Option<&str>) -> (r: Result<Loaded, Error>)
        ensures
            crate::component::loader::load_outcome(r) == pulled(
                crate::component::loader::load_outcome(fetched),
                store::opt_chars(pin),
            ),
    {
        match fetched {
            Err(e) => Err(e),
            Ok(loaded) => match pin {
                None => Ok(loaded),
                Some(p) => match verify_digest(loaded.bytes.as_slice(), p) {
                    Err(e) => Err(e),
                    Ok(()) => Ok(OciClient::stamp(loaded, p)),
                },
            },
        }
    }
}

/// What a policy makes of a pull for a tenant with the given pin: where pins
/// are required, what is not under the pin is refused.
pub open spec fn held_to_pin(
    required: bool,
    pin: Option<Seq<char>>,
    pulled: Result<LoadedView, ErrorView>,
) -> Result<LoadedView, ErrorView> {
    match (pulled, pin) {
        (Ok(l), Some(p)) => if required && l.digest != p {
            Err(ErrorView::DigestMismatch { expected: p, computed: l.digest })
        } else {
            pulled
        },
        _ => pulled,
    }
}

impl HotReloadPolicy {
    /// Hold what a pull returned to the pin of its tenant: where pins are
    /// required, a tenant that has one refuses an unpinned tag.
    pub fn hold_to_pin(&self, pin: &Option<String>, pulled: Result<Loaded, Error>) -> (r: Result<
        Loaded,
        Error,
    >)
        ensures
            crate::component::loader::load_outcome(r) == held_to_pin(
                self.require_pinned,
                crate::text::opt_view(*pin),
                crate::component::loader::load_outcome(pulled),
            ),
    {
        match (pulled, pin) {
            (Ok(l), Some(p)) => {
                if self.require_pinned {
                    match oci::match_digest(l.digest.clone(), p.as_str()) {
                        Ok(()) => Ok(l),
                        Err(e) => Err(e),
                    }
                } else {
                    Ok(l)
                }
            },
            (pulled, _) => pulled,
        }
    }
}

/// Where pins are required, a tenant that has a pin gets nothing that is not
/// under it, whatever was pulled.
pub proof fn law_required_pin_is_never_left(
    pin: Seq<char>,
    pulled: Result<LoadedView, ErrorView>,
)
    ensures
        match held_to_pin(true, Some(pin), pulled) {
            Ok(l) => l.digest == pin,
            Err(_) => true,
        },
        pulled is Ok && pulled->Ok_0.digest == pin ==> held_to_pin(true, Some(pin), pulled)
            == pulled,
{
}

/// A pinned pull never yields anything but the pinned digest, and the bytes
/// it yields have that digest.
pub proof fn law_pinned_pull_yields_the_pin(
    fetched: Result<LoadedView, ErrorView>,
    pin: Seq<char>,
)
    ensures
        match pulled(fetched, Some(pin)) {
            Ok(l) => l.digest == pin && crate::hash::content_digest(l.bytes) == pin,
            Err(e) => match fetched {
                Err(f) => e == f,
                Ok(l) => {
                    &&& crate::hash::content_digest(l.bytes) != pin
                    &&& e is DigestMismatch
                    &&& crate::error::status_of(e) == 409
                },
            },
        },
{
}

/// A pull passes on what was fetched: without a pin as it is, and with a pin
/// that the bytes have in every field but the digest. A fetch that failed
/// stays failed in the same way.
pub proof fn law_pull_keeps_what_was_fetched(l: LoadedView, e: ErrorView, pin: Option<Seq<char>>)
    ensures
        pulled(Ok(l), None) == Ok::<LoadedView, ErrorView>(l),
        pulled(Err(e), pin) == Err::<LoadedView, ErrorView>(e),
        pulled(Ok(l), pin) is Ok <==> pin is None || crate::hash::content_digest(l.bytes)
            == pin->0,
        pulled(Ok(l), pin) matches Ok(p) ==> {
            &&& p.source == l.source
            &&& p.bytes == l.bytes
            &&& p.size == l.size
            &&& p.world_id == l.world_id
            &&& p.exports == l.exports
        },
        pulled(Ok(l), pin) matches Err(f) ==> f == (ErrorView::DigestMismatch {
            expected: pin->0,
            computed: crate::hash::content_digest(l.bytes),
        }),
{
}

/// Holding a pull to a pin changes nothing of it where pins are not required,
/// where the tenant has none, and where the pull failed; it refuses exactly
/// what is under another digest than a required pin.
pub proof fn law_pins_only_refuse(
    required: bool,
    pin: Option<Seq<char>>,
    l: LoadedView,
    e: ErrorView,
)
    ensures
        held_to_pin(required, pin, Err(e)) == Err::<LoadedView, ErrorView>(e),
        !required || pin is None ==> held_to_pin(required, pin, Ok(l)) == Ok::<
            LoadedView,
            ErrorView,
        >(l),
        held_to_pin(required, pin, Ok(l)) is Err <==> required && pin is Some && l.digest
            != pin->0,
        held_to_pin(required, pin, Ok(l)) matches Ok(k) ==> k == l,
        held_to_pin(required, pin, Ok(l)) matches Err(f) ==> f is DigestMismatch,
{
}

} // verus!
