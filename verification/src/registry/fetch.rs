//! One fetch of a component, stage by stage.
//!
//! A fetch goes from a resolved reference to its manifest, to the layer that
//! holds the component, and to the artifact in the local content store. Each
//! stage takes what the exchange with the registry or the disk returned and
//! gives the next one, so no blob gets into the store that was not verified
//! against its digest, and nothing is read from the store that was neither
//! found in it nor put into it.

use vstd::prelude::*;
use vstd::string::*;

use crate::component::loader::{Loaded, LoadedView};
use crate::error::{Error, ErrorView};
use crate::registry::manifests::{ManifestCache, MappingView};
use crate::registry::oci::{verify_digest, OciClient, Reference, ReferenceView};
use crate::registry::store::{self, ContentStore, PutOutcome, PutPlan};
use crate::time::Instant;

verus! {

/// A fetch whose manifest is to be pulled.
#[derive(Debug)]
pub struct Fetch {
    store: ContentStore,
    reference: String,
    resolved: Reference,
}

/// A fetch whose layer is known, and is to be looked for in the store.
#[derive(Debug)]
pub struct LayerFetch {
    store: ContentStore,
    reference: String,
    digest: String,
}

/// A fetch whose layer is not in the store, and is to be pulled.
#[derive(Debug)]
pub struct MissingFetch {
    store: ContentStore,
    reference: String,
    digest: String,
}

/// A fetch whose layer was pulled and verified, and is to be put into the
/// store.
#[derive(Debug)]
pub struct VerifiedFetch {
    store: ContentStore,
    reference: String,
    digest: String,
    blob: Vec<u8>,
}

/// A fetch whose layer is in the store, and is to be read.
#[derive(Debug)]
pub struct HeldFetch {
    store: ContentStore,
    reference: String,
    digest: String,
}

/// Where a fetch starts.
#[derive(Debug)]
pub enum Start {
    /// With its manifest.
    Manifest(Fetch),
    /// With its layer: which one it is, is known and still trusted.
    Layer(LayerFetch),
}

/// What looking for a layer in the store leads to.
#[derive(Debug)]
pub enum Probe {
    /// It is there.
    Held(HeldFetch),
    /// It is not.
    Missing(MissingFetch),
}

/// The digest of the component layer, given the layer digests of the manifest
/// or why it could not be pulled. Components are stored as a single-layer
/// artifact: the first layer is taken.
pub open spec fn component_layer(
    reference: Seq<char>,
    resolved: ReferenceView,
    manifest: Result<Seq<Seq<char>>, Seq<char>>,
) -> Result<Seq<char>, ErrorView> {
    match manifest {
        Err(reason) => Err(
            ErrorView::Oci(
                "pull manifest `"@ + crate::registry::oci::whole(resolved) + "`: "@ + reason,
            ),
        ),
        Ok(layers) => if layers.len() == 0 {
            Err(ErrorView::Oci("manifest for `"@ + reference + "` has no layers"@))
        } else {
            Ok(layers[0])
        },
    }
}

/// The layer digests of a manifest, or why it could not be pulled.
pub open spec fn manifest_view(r: Result<Vec<String>, String>) -> Result<Seq<Seq<char>>, Seq<char>> {
    match r {
        Ok(v) => Ok(crate::text::views(v@)),
        Err(e) => Err(e@),
    }
}

/// The error for a pulled layer that is not accepted.
pub open spec fn layer_fault(
    digest: Seq<char>,
    pulled: Result<Seq<u8>, Seq<char>>,
) -> Option<ErrorView> {
    match pulled {
        Err(reason) => Some(ErrorView::Oci("pull blob "@ + digest + ": "@ + reason)),
        Ok(blob) => crate::registry::oci::mismatch(blob, digest),
    }
}

/// A pulled blob, or why it could not be pulled.
pub open spec fn blob_view(r: Result<Vec<u8>, String>) -> Result<Seq<u8>, Seq<char>> {
    match r {
        Ok(v) => Ok(v@),
        Err(e) => Err(e@),
    }
}

/// The component of `reference`, given its layer digest and what the store
/// holds under it.
pub open spec fn fetched(
    reference: Seq<char>,
    digest: Seq<char>,
    held: Option<Seq<u8>>,
) -> Result<LoadedView, ErrorView> {
    match held {
        None => Err(ErrorView::ComponentNotFound(digest)),
        Some(bytes) => match crate::component::loader::artifact(reference, bytes) {
            Err(e) => Err(e),
            Ok(l) => Ok(LoadedView { digest, ..l }),
        },
    }
}

impl Fetch {
    /// The directory of the store, the reference as it was asked for, and the
    /// reference as it was resolved.
    pub closed spec fn parts(self) -> (Seq<char>, Seq<char>, ReferenceView) {
        (self.store.dir(), self.reference@, self.resolved@)
    }

    pub(crate) fn new(store: ContentStore, reference: &str, resolved: Reference) -> (f: Fetch)
        ensures
            f.parts() == (store.dir(), reference@, resolved@),
    {
        Fetch { store, reference: reference.to_owned(), resolved }
    }

    /// The reference whose manifest is to be pulled.
    pub fn resolved(&self) -> (r: &Reference)
        ensures
            r@ == self.parts().2,
    {
        &self.resolved
    }

    /// Take in the layer digests of the manifest at `now`, or why it could not
    /// be pulled, and note in `manifests` which layer the reference stands
    /// for.
    pub fn resolve_layer(
        self,
        layers: Result<Vec<String>, String>,
        manifests: &mut ManifestCache,
        now: Instant,
    ) -> (r: Result<LayerFetch, Error>)
        ensures
            final(manifests).lifetime() == old(manifests).lifetime(),
            match component_layer(self.parts().1, self.parts().2, manifest_view(layers)) {
                Ok(digest) => {
                    &&& r is Ok
                    &&& r->Ok_0.parts() == (self.parts().0, self.parts().1, digest)
                    &&& final(manifests).mappings() == crate::registry::manifests::noted(
                        old(manifests).mappings(),
                        (MappingView {
                            reference: crate::registry::oci::whole(self.parts().2),
                            digest,
                            at: now.nanos(),
                        }),
                    )
                },
                Err(e) => {
                    &&& r is Err
                    &&& r->Err_0@ == e
                    &&& final(manifests).mappings() == old(manifests).mappings()
                },
            },
    {
        let reference: String = self.resolved.to_string();
        match self.manifest(layers) {
            Err(e) => Err(e),
            Ok(f) => {
                manifests.remember(reference, f.digest.clone(), now);
                Ok(f)
            },
        }
    }

    /// Take in the layer digests of the manifest, or why it could not be
    /// pulled.
    pub fn manifest(self, layers: Result<Vec<String>, String>) -> (r: Result<LayerFetch, Error>)
        ensures
            match component_layer(self.parts().1, self.parts().2, manifest_view(layers)) {
                Ok(digest) => r is Ok && r->Ok_0.parts() == (
                    self.parts().0,
                    self.parts().1,
                    digest,
                ),
                Err(e) => r is Err && r->Err_0@ == e,
            },
    {
        match layers {
            Err(reason) => Err(
                Error::Oci(
                    "pull manifest `".to_owned().concat(
                        self.resolved.to_string().as_str(),
                    ).concat("`: ").concat(reason.as_str()),
                ),
            ),
            Ok(v) => {
                if v.len() == 0 {
                    return Err(
                        Error::Oci(
                            "manifest for `".to_owned().concat(self.reference.as_str()).concat(
                                "` has no layers",
                            ),
                        ),
                    );
                }
                proof {
                    assert(crate::text::views(v@)[0] == v@[0]@);
                }
                Ok(
                    LayerFetch {
                        store: self.store,
                        reference: self.reference,
                        digest: v[0].clone(),
                    },
                )
            },
        }
    }
}

impl LayerFetch {
    pub(crate) fn new(store: ContentStore, reference: &str, digest: String) -> (f: LayerFetch)
        ensures
            f.parts() == (store.dir(), reference@, digest@),
    {
        LayerFetch { store, reference: reference.to_owned(), digest }
    }

    /// The directory of the store, the reference, and the layer digest.
    pub closed spec fn parts(self) -> (Seq<char>, Seq<char>, Seq<char>) {
        (self.store.dir(), self.reference@, self.digest@)
    }

    /// The layer digest.
    pub fn digest(&self) -> (d: &str)
        ensures
            d@ == self.parts().2,
    {
        self.digest.as_str()
    }

    /// The file to look for; a layer whose digest is malformed has none.
    pub fn path(&self) -> (r: Option<String>)
        ensures
            crate::text::opt_view(r) == (if crate::hash::is_digest(self.parts().2) {
                Some(store::blob_file(self.parts().0, self.parts().2))
            } else {
                None
            }),
    {
        match self.store.blob_path(self.digest.as_str()) {
            Ok(p) => Some(p),
            Err(_) => None,
        }
    }

    /// Take in whether the file exists.
    pub fn probed(self, file_exists: bool) -> (p: Probe)
        ensures
            match p {
                Probe::Held(f) => {
                    &&& file_exists
                    &&& crate::hash::is_digest(self.parts().2)
                    &&& f.parts() == self.parts()
                },
                Probe::Missing(f) => {
                    &&& !(file_exists && crate::hash::is_digest(self.parts().2))
                    &&& f.parts() == self.parts()
                },
            },
    {
        if self.store.contains(self.digest.as_str(), file_exists) {
            Probe::Held(
                HeldFetch { store: self.store, reference: self.reference, digest: self.digest },
            )
        } else {
            Probe::Missing(
                MissingFetch { store: self.store, reference: self.reference, digest: self.digest },
            )
        }
    }
}

impl MissingFetch {
    /// The directory of the store, the reference, and the layer digest.
    pub closed spec fn parts(self) -> (Seq<char>, Seq<char>, Seq<char>) {
        (self.store.dir(), self.reference@, self.digest@)
    }

    /// The digest of the layer to pull.
    pub fn digest(&self) -> (d: &str)
        ensures
            d@ == self.parts().2,
    {
        self.digest.as_str()
    }

    /// Take in the pulled layer, or why it could not be pulled. Only bytes
    /// that have the digest they were asked for are accepted.
    pub fn pulled(self, blob: Result<Vec<u8>, String>) -> (r: Result<VerifiedFetch, Error>)
        ensures
            match layer_fault(self.parts().2, blob_view(blob)) {
                Some(e) => r is Err && r->Err_0@ == e,
                None => {
                    &&& r is Ok
                    &&& r->Ok_0.parts() == self.parts()
                    &&& r->Ok_0.content() == blob->Ok_0@
                },
            },
    {
        match blob {
            Err(reason) => Err(
                Error::Oci(
                    "pull blob ".to_owned().concat(self.digest.as_str()).concat(": ").concat(
                        reason.as_str(),
                    ),
                ),
            ),
            Ok(bytes) => match verify_digest(bytes.as_slice(), self.digest.as_str()) {
                Err(e) => Err(e),
                Ok(()) => Ok(
                    VerifiedFetch {
                        store: self.store,
                        reference: self.reference,
                        digest: self.digest,
                        blob: bytes,
                    },
                ),
            },
        }
    }
}

impl VerifiedFetch {
    /// The directory of the store, the reference, and the layer digest.
    pub closed spec fn parts(self) -> (Seq<char>, Seq<char>, Seq<char>) {
        (self.store.dir(), self.reference@, self.digest@)
    }

    /// The bytes of the layer.
    pub closed spec fn content(self) -> Seq<u8> {
        self.blob@
    }

    #[verifier::type_invariant]
    spec fn verified(self) -> bool {
        crate::hash::content_digest(self.blob@) == self.digest@
    }

    /// The bytes of the layer: they have the digest of the layer.
    pub fn blob(&self) -> (b: &[u8])
        ensures
            b@ == self.content(),
            crate::hash::content_digest(b@) == self.parts().2,
    {
        proof {
            use_type_invariant(&*self);
        }
        self.blob.as_slice()
    }

    /// Where the layer is to be written by the process with id `pid`.
    pub fn plan(&self, pid: u32) -> (p: PutPlan)
        ensures
            p.digest@ == self.parts().2,
            p.path@ == store::blob_file(self.parts().0, self.parts().2),
            p.temp@ == store::temp_file(self.parts().0, pid as nat),
    {
        proof {
            use_type_invariant(&*self);
        }
        self.store.plan_put(self.blob.as_slice(), pid)
    }

    /// Take in what became of writing the layer.
    pub fn written(self, outcome: PutOutcome) -> (r: Result<HeldFetch, Error>)
        ensures
            match outcome {
                PutOutcome::Failed(reason) => r is Err && r->Err_0@ == ErrorView::Io(reason@),
                _ => r is Ok && r->Ok_0.parts() == self.parts(),
            },
    {
        proof {
            use_type_invariant(&self);
        }
        match self.store.put(self.blob.as_slice(), outcome) {
            Err(e) => Err(e),
            Ok(digest) => Ok(HeldFetch { store: self.store, reference: self.reference, digest }),
        }
    }
}

impl HeldFetch {
    /// The directory of the store, the reference, and the layer digest.
    pub closed spec fn parts(self) -> (Seq<char>, Seq<char>, Seq<char>) {
        (self.store.dir(), self.reference@, self.digest@)
    }

    #[verifier::type_invariant]
    spec fn addressed(self) -> bool {
        crate::hash::is_digest(self.digest@)
    }

    /// The file to read.
    pub fn path(&self) -> (s: String)
        ensures
            s@ == store::blob_file(self.parts().0, self.parts().2),
            crate::hash::is_digest(self.parts().2),
    {
        proof {
            use_type_invariant(&*self);
        }
        match self.store.blob_path(self.digest.as_str()) {
            Ok(p) => p,
            Err(_) => {
                proof {
                    assert(false);
                }
                String::new()
            },
        }
    }

    /// Take in what the file holds; `None` where it could not be read.
    ///
    /// The artifact digest is the *layer* digest, not the tag's manifest
    /// digest: content-addressing means a republished tag that yields the
    /// same layer is observably a no-op to the reload loop.
    pub fn read(self, held: Option<Vec<u8>>) -> (r: Result<Loaded, Error>)
        ensures
            crate::component::loader::load_outcome(r) == fetched(
                self.parts().1,
                self.parts().2,
                crate::http::headers::opt_bytes(held),
            ),
    {
        proof {
            use_type_invariant(&self);
        }
        match self.store.get(self.digest.as_str(), held) {
            Err(e) => Err(e),
            Ok(bytes) => match Loaded::from_bytes(self.reference.as_str(), bytes) {
                Err(e) => Err(e),
                Ok(loaded) => Ok(OciClient::stamp(loaded, self.digest.as_str())),
            },
        }
    }
}

/// An artifact that comes out of an addressed store carries the digest of
/// its own bytes.
pub proof fn law_fetched_bytes_have_their_digest(
    root: Seq<char>,
    files: store::Files,
    reference: Seq<char>,
    digest: Seq<char>,
)
    requires
        store::is_addressed(root, files),
        crate::hash::is_digest(digest),
        files.dom().contains(store::blob_file(root, digest)),
    ensures
        match fetched(reference, digest, Some(files[store::blob_file(root, digest)])) {
            Ok(l) => {
                &&& l.bytes == files[store::blob_file(root, digest)]
                &&& l.digest == digest
                &&& crate::hash::content_digest(l.bytes) == digest
            },
            Err(e) => crate::component::loader::artifact(
                reference,
                files[store::blob_file(root, digest)],
            ) == Err::<LoadedView, ErrorView>(e),
        },
{
}

/// A pulled layer that is accepted is stored under its own digest: what is
/// read for the layer afterwards is there and has its digest.
pub proof fn law_accepted_layer_is_read_back(
    root: Seq<char>,
    files: store::Files,
    blob: Seq<u8>,
    digest: Seq<char>,
)
    requires
        store::is_addressed(root, files),
        crate::hash::is_digest(digest),
        layer_fault(digest, Ok(blob)) is None,
    ensures
        store::after_put(root, files, blob).dom().contains(store::blob_file(root, digest)),
        crate::hash::content_digest(store::after_put(root, files, blob)[store::blob_file(root, digest)])
            == digest,
{
}

/// What a fetch yields is the artifact that the stored bytes hold, in every
/// field but the digest, which is that of the layer: it has the same source,
/// bytes, size, world and exports, and satisfies the contract exactly where
/// that artifact does. Bytes that hold no artifact fail as they fail on their
/// own, and a layer that could not be read is reported by its digest.
pub proof fn law_fetch_keeps_the_artifact(
    reference: Seq<char>,
    digest: Seq<char>,
    bytes: Seq<u8>,
)
    ensures
        match crate::component::loader::artifact(reference, bytes) {
            Ok(l) => {
                &&& fetched(reference, digest, Some(bytes)) is Ok
                &&& ({
                    let f = fetched(reference, digest, Some(bytes))->Ok_0;
                    &&& f.source == l.source
                    &&& f.bytes == l.bytes
                    &&& f.size == l.size
                    &&& f.world_id == l.world_id
                    &&& f.exports == l.exports
                    &&& f.digest == digest
                    &&& crate::component::loader::honors_contract(f.exports)
                        == crate::component::loader::honors_contract(l.exports)
                    &&& crate::component::loader::violation(f.exports)
                        == crate::component::loader::violation(l.exports)
                })
            },
            Err(e) => fetched(reference, digest, Some(bytes)) == Err::<LoadedView, ErrorView>(e),
        },
        fetched(reference, digest, None) == Err::<LoadedView, ErrorView>(
            ErrorView::ComponentNotFound(digest),
        ),
{
}

/// The component layer is the first of the manifest, however many there are;
/// a manifest that could not be pulled or that has no layer is an error of the
/// registry.
pub proof fn law_first_layer_is_the_component(
    reference: Seq<char>,
    resolved: ReferenceView,
    first: Seq<char>,
    others: Seq<Seq<char>>,
    reason: Seq<char>,
)
    ensures
        component_layer(reference, resolved, Ok(seq![first] + others)) == Ok::<
            Seq<char>,
            ErrorView,
        >(first),
        component_layer(reference, resolved, Ok(Seq::empty())) is Err,
        component_layer(reference, resolved, Ok(Seq::empty()))->Err_0 is Oci,
        component_layer(reference, resolved, Err(reason)) is Err,
        component_layer(reference, resolved, Err(reason))->Err_0 is Oci,
        exists|a: Seq<char>| #[trigger]
            (a + reason) == component_layer(reference, resolved, Err(reason))->Err_0->Oci_0,
{
    assert((seq![first] + others)[0] == first);
    let a = "pull manifest `"@ + crate::registry::oci::whole(resolved) + "`: "@;
    assert(a + reason == component_layer(reference, resolved, Err(reason))->Err_0->Oci_0);
}

/// A pulled layer is accepted exactly where its bytes have the digest it was
/// asked for by.
pub proof fn law_layer_is_accepted_by_its_digest(
    digest: Seq<char>,
    blob: Seq<u8>,
    reason: Seq<char>,
)
    ensures
        layer_fault(digest, Ok(blob)) is None <==> crate::hash::content_digest(blob) == digest,
        layer_fault(digest, Ok(blob)) matches Some(e) ==> e == (ErrorView::DigestMismatch {
            expected: digest,
            computed: crate::hash::content_digest(blob),
        }),
        layer_fault(digest, Err(reason)) is Some,
        layer_fault(digest, Err(reason))->0 is Oci,
        exists|a: Seq<char>| #[trigger]
            (a + reason) == layer_fault(digest, Err(reason))->0->Oci_0,
{
    let a = "pull blob "@ + digest + ": "@;
    assert(a + reason == layer_fault(digest, Err(reason))->0->Oci_0);
}

/// The layers of a manifest and the bytes of a layer are seen as they are, and
/// so is why they could not be pulled.
pub proof fn law_pulls_are_seen_whole(layers: Vec<String>, blob: Vec<u8>, reason: String)
    ensures
        manifest_view(Ok(layers)) == Ok::<Seq<Seq<char>>, Seq<char>>(
            crate::text::views(layers@),
        ),
        manifest_view(Err(reason)) == Err::<Seq<Seq<char>>, Seq<char>>(reason@),
        blob_view(Ok(blob)) == Ok::<Seq<u8>, Seq<char>>(blob@),
        blob_view(Err(reason)) == Err::<Seq<u8>, Seq<char>>(reason@),
{
}

} // verus!
