//! OCI distribution client for module distribution.
//!
//! Ember treats OCI registries as the deployment channel for components:
//! a tenant points at `registry/repo:tag`, the runtime resolves the tag to a
//! manifest, pulls the single component layer, and verifies every byte
//! against the manifest digest. Deployments that pin a `sha256:...` digest
//! are reproducible by construction.
//!
//! The client decides what to ask a registry for and what its answers are
//! worth; the exchange itself is carried out by the caller. Resolved tags go
//! into a bounded manifest cache.

use vstd::prelude::*;
use vstd::string::*;

use crate::component::loader::{Loaded, LoadedView};
use crate::error::{Error, ErrorView};
use crate::hash::{digest_hex, digest_text, DigestFault};
use crate::registry::fetch::{Fetch, LayerFetch, Start};
use crate::registry::manifests::ManifestCache;
use crate::registry::store::ContentStore;
use crate::text::{chars, contains, same};
use crate::time::{Duration, Instant};

verus! {

/// Client configuration for one registry endpoint.
#[derive(Debug)]
pub struct OciClientConfig {
    /// Default registry endpoint, e.g. `ghcr.io` or `127.0.0.1:5000`.
    pub endpoint: String,
    /// Allow plain-HTTP pulls (private mirrors only).
    pub insecure: bool,
    /// Local content-addressable cache.
    pub cache_dir: String,
    /// How long a resolved tag → manifest mapping is trusted.
    pub manifest_cache_ttl: Duration,
}

impl Clone for OciClientConfig {
    fn clone(&self) -> (c: OciClientConfig)
        ensures
            c == *self,
    {
        OciClientConfig {
            endpoint: self.endpoint.clone(),
            insecure: self.insecure,
            cache_dir: self.cache_dir.clone(),
            manifest_cache_ttl: self.manifest_cache_ttl,
        }
    }
}

impl Default for OciClientConfig {
    fn default() -> (c: OciClientConfig)
        ensures
            c.endpoint@ == "ghcr.io"@,
            !c.insecure,
            c.cache_dir@ == "registry-cache"@,
            c.manifest_cache_ttl.nanos() == 60_000_000_000,
    {
        OciClientConfig {
            endpoint: "ghcr.io".to_owned(),
            insecure: false,
            cache_dir: "registry-cache".to_owned(),
            manifest_cache_ttl: Duration::from_secs(60),
        }
    }
}

/// How a registry is spoken to.
#[derive(Debug, Clone, Copy, PartialEq, Eq, Structural)]
pub enum Protocol {
    /// Plain HTTP.
    Http,
    /// HTTP over TLS.
    Https,
}

/// How the client identifies itself.
#[derive(Debug)]
pub enum Auth {
    /// Not at all.
    Anonymous,
    /// By user name and password.
    Basic { user: String, password: String },
}

impl Clone for Auth {
    fn clone(&self) -> (a: Auth)
        ensures
            a == *self,
    {
        match self {
            Auth::Anonymous => Auth::Anonymous,
            Auth::Basic { user, password } => Auth::Basic {
                user: user.clone(),
                password: password.clone(),
            },
        }
    }
}

/// What an [`Auth`] says.
pub enum AuthView {
    Anonymous,
    Basic { user: Seq<char>, password: Seq<char> },
}

impl View for Auth {
    type V = AuthView;

    open spec fn view(&self) -> AuthView {
        match self {
            Auth::Anonymous => AuthView::Anonymous,
            Auth::Basic { user, password } => AuthView::Basic {
                user: user@,
                password: password@,
            },
        }
    }
}

/// A fully-qualified reference to an artifact in a registry.
#[derive(Debug)]
pub struct Reference {
    registry: String,
    repository: String,
    tag: Option<String>,
    digest: Option<String>,
}

/// What a [`Reference`] says.
pub struct ReferenceView {
    pub registry: Seq<char>,
    pub repository: Seq<char>,
    pub tag: Option<Seq<char>>,
    pub digest: Option<Seq<char>>,
}

impl View for Reference {
    type V = ReferenceView;

    closed spec fn view(&self) -> ReferenceView {
        ReferenceView {
            registry: self.registry@,
            repository: self.repository@,
            tag: crate::text::opt_view(self.tag),
            digest: crate::text::opt_view(self.digest),
        }
    }
}

/// `s` with `mark` and `part` behind it, where there is a part. No mark is
/// put behind an empty text.
pub open spec fn with_part(s: Seq<char>, mark: Seq<char>, part: Option<Seq<char>>) -> Seq<char> {
    match part {
        Some(p) => if s.len() == 0 {
            s + p
        } else {
            s + mark + p
        },
        None => s,
    }
}

/// A reference as one text.
pub open spec fn whole(r: ReferenceView) -> Seq<char> {
    let name = if r.registry.len() == 0 {
        r.repository
    } else {
        r.registry + "/"@ + r.repository
    };
    with_part(with_part(name, ":"@, r.tag), "@"@, r.digest)
}

/// Executable form of [`with_part`].
fn append_part(s: &mut String, mark: &str, part: &Option<String>)
    ensures
        final(s)@ == with_part(old(s)@, mark@, crate::text::opt_view(*part)),
{
    if let Some(p) = part {
        if !s.as_str().is_empty() {
            s.append(mark);
        }
        s.append(p.as_str());
    }
}

impl Reference {
    /// The name of the registry.
    pub fn registry(&self) -> (s: &str)
        ensures
            s@ == self@.registry,
    {
        self.registry.as_str()
    }

    /// The name of the repository.
    pub fn repository(&self) -> (s: &str)
        ensures
            s@ == self@.repository,
    {
        self.repository.as_str()
    }

    /// The tag, if present.
    pub fn tag(&self) -> (s: Option<&str>)
        ensures
            crate::registry::store::opt_chars(s) == self@.tag,
    {
        match &self.tag {
            Some(t) => Some(t.as_str()),
            None => None,
        }
    }

    /// The digest, if present.
    pub fn digest(&self) -> (s: Option<&str>)
        ensures
            crate::registry::store::opt_chars(s) == self@.digest,
    {
        match &self.digest {
            Some(d) => Some(d.as_str()),
            None => None,
        }
    }

    /// The whole reference as one text.
    pub fn to_string(&self) -> (s: String)
        ensures
            s@ == whole(self@),
    {
        let mut s: String = if self.registry.as_str().is_empty() {
            self.repository.clone()
        } else {
            self.registry.clone().concat("/").concat(self.repository.as_str())
        };
        append_part(&mut s, ":", &self.tag);
        append_part(&mut s, "@", &self.digest);
        s
    }
}

/// A parsed reference, or why a text is none.
pub open spec fn reference_view(r: Result<Reference, String>) -> Result<ReferenceView, Seq<char>> {
    match r {
        Ok(v) => Ok(v@),
        Err(e) => Err(e@),
    }
}

/// What `oci_distribution::Reference::try_from` makes of the given text.
pub uninterp spec fn reference_of(text: Seq<char>) -> Result<ReferenceView, Seq<char>>;

/// `oci_distribution::Reference::try_from`. Which reference it reads, or what
/// it objects to, depends on the text alone.
#[verifier::external_body]
fn parse_reference(text: &str) -> (r: Result<Reference, String>)
    ensures
        reference_view(r) == reference_of(text@),
{
    oci_distribution::Reference::try_from(text).map(|p| Reference {
        registry: p.registry().to_owned(),
        repository: p.repository().to_owned(),
        tag: p.tag().map(|t| t.to_owned()),
        digest: p.digest().map(|d| d.to_owned()),
    }).map_err(|e| e.to_string())
}

/// `reference` with the default registry in front, unless it names one.
pub open spec fn qualified(endpoint: Seq<char>, reference: Seq<char>) -> Seq<char> {
    if reference.contains('/') {
        reference
    } else {
        endpoint + "/"@ + reference
    }
}

/// A resolved reference, or the error for one that cannot be read.
pub open spec fn resolve_outcome(r: Result<Reference, Error>) -> Result<ReferenceView, ErrorView> {
    match r {
        Ok(v) => Ok(v@),
        Err(e) => Err(e@),
    }
}

/// What resolving `reference` returns, given what the parser said of its
/// qualified form.
pub open spec fn resolved(
    reference: Seq<char>,
    parsed: Result<ReferenceView, Seq<char>>,
) -> Result<ReferenceView, ErrorView> {
    match parsed {
        Ok(v) => Ok(v),
        Err(reason) => Err(
            ErrorView::Oci("invalid reference `"@ + reference + "`: "@ + reason),
        ),
    }
}

/// A configured OCI distribution client.
#[derive(Debug)]
pub struct OciClient {
    protocol: Protocol,
    auth: Auth,
    store: ContentStore,
    config: OciClientConfig,
}

impl Clone for OciClient {
    fn clone(&self) -> (c: OciClient)
        ensures
            c == *self,
    {
        OciClient {
            protocol: self.protocol,
            auth: self.auth.clone(),
            store: self.store.clone(),
            config: self.config.clone(),
        }
    }
}

impl OciClient {
    /// How registries are spoken to.
    pub closed spec fn speaks(self) -> Protocol {
        self.protocol
    }

    /// How the client identifies itself.
    pub closed spec fn identity(self) -> AuthView {
        self.auth@
    }

    /// The directory of the local store.
    pub closed spec fn cache(self) -> Seq<char> {
        self.store.dir()
    }

    /// The configuration.
    pub closed spec fn settings(self) -> OciClientConfig {
        self.config
    }

    /// Build a client for `config`, given the values of
    /// `EMBER_REGISTRY_USER` and `EMBER_REGISTRY_PASSWORD` and what creating
    /// the cache directory returned. Anonymous auth is used unless both
    /// variables are set; pulls go over TLS unless the config says otherwise.
    pub fn new(
        config: OciClientConfig,
        user: Option<String>,
        password: Option<String>,
        created: Result<(), String>,
    ) -> (r: Result<OciClient, Error>)
        ensures
            match created {
                Err(reason) => r is Err && r->Err_0@ == ErrorView::Io(reason@),
                Ok(()) => {
                    &&& r is Ok
                    &&& r->Ok_0.settings() == config
                    &&& r->Ok_0.cache() == config.cache_dir@
                    &&& r->Ok_0.speaks() == (if config.insecure {
                        Protocol::Http
                    } else {
                        Protocol::Https
                    })
                    &&& r->Ok_0.identity() == (match (user, password) {
                        (Some(u), Some(p)) => AuthView::Basic { user: u@, password: p@ },
                        _ => AuthView::Anonymous,
                    })
                },
            },
    {
        let protocol: Protocol = if config.insecure {
            Protocol::Http
        } else {
            Protocol::Https
        };
        let auth: Auth = match (user, password) {
            (Some(user), Some(password)) => Auth::Basic { user, password },
            _ => Auth::Anonymous,
        };
        match ContentStore::open(config.cache_dir.as_str(), created) {
            Ok(store) => Ok(OciClient { protocol, auth, store, config }),
            Err(e) => Err(e),
        }
    }

    /// How registries are spoken to.
    pub fn protocol(&self) -> (p: Protocol)
        ensures
            p == self.speaks(),
    {
        self.protocol
    }

    /// How the client identifies itself.
    pub fn auth(&self) -> (a: &Auth)
        ensures
            a@ == self.identity(),
    {
        &self.auth
    }

    /// The configuration.
    pub fn config(&self) -> (c: &OciClientConfig)
        ensures
            *c == self.settings(),
    {
        &self.config
    }

    /// The local content-addressed store backing this client.
    pub fn store(&self) -> (s: &ContentStore)
        ensures
            s.dir() == self.cache(),
    {
        &self.store
    }

    /// `reference` as it is handed to the parser: a bare repository is
    /// prefixed with the configured endpoint, a registry-qualified reference
    /// is used as it is.
    pub fn qualify(&self, reference: &str) -> (s: String)
        ensures
            s@ == qualified(self.settings().endpoint@, reference@),
    {
        let cs: Vec<char> = chars(reference);
        if contains(cs.as_slice(), '/') {
            reference.to_owned()
        } else {
            self.config.endpoint.clone().concat("/").concat(reference)
        }
    }

    /// What resolving `reference` returns, given what the parser said of its
    /// qualified form.
    pub fn conclude(reference: &str, parsed: Result<Reference, String>) -> (r: Result<
        Reference,
        Error,
    >)
        ensures
            resolve_outcome(r) == resolved(reference@, reference_view(parsed)),
    {
        match parsed {
            Ok(v) => Ok(v),
            Err(reason) => Err(
                Error::Oci(
                    "invalid reference `".to_owned().concat(reference).concat("`: ").concat(
                        reason.as_str(),
                    ),
                ),
            ),
        }
    }

    /// Resolve `reference` into a fully-qualified [`Reference`].
    pub fn resolve(&self, reference: &str) -> (r: Result<Reference, Error>)
        ensures
            resolve_outcome(r) == resolved(
                reference@,
                reference_of(qualified(self.settings().endpoint@, reference@)),
            ),
    {
        OciClient::conclude(reference, parse_reference(self.qualify(reference).as_str()))
    }

    /// Start to pull a component by reference (tag or digest), honoring the
    /// local content store for already-present digests.
    pub fn fetch_component(&self, reference: &str) -> (r: Result<Fetch, Error>)
        ensures
            match resolved(
                reference@,
                reference_of(qualified(self.settings().endpoint@, reference@)),
            ) {
                Ok(v) => r is Ok && r->Ok_0.parts() == (self.cache(), reference@, v),
                Err(e) => r is Err && r->Err_0@ == e,
            },
    {
        match self.resolve(reference) {
            Ok(v) => Ok(Fetch::new(self.store.clone(), reference, v)),
            Err(e) => Err(e),
        }
    }

    /// An empty manifest cache that trusts a resolved tag for as long as the
    /// configuration says.
    pub fn manifest_cache(&self) -> (c: ManifestCache)
        ensures
            c.mappings().len() == 0,
            c.lifetime() == self.settings().manifest_cache_ttl.nanos(),
    {
        ManifestCache::new(self.config.manifest_cache_ttl)
    }

    /// Start to pull a component by reference at `now`, without a manifest
    /// pull where `manifests` holds a mapping of the reference that is still
    /// trusted.
    pub fn fetch_trusted(&self, manifests: &ManifestCache, reference: &str, now: Instant) -> (r:
        Result<Start, Error>)
        ensures
            match resolved(
                reference@,
                reference_of(qualified(self.settings().endpoint@, reference@)),
            ) {
                Err(e) => r is Err && r->Err_0@ == e,
                Ok(v) => match crate::registry::manifests::trusted(
                    manifests.mappings(),
                    manifests.lifetime(),
                    whole(v),
                    now.nanos(),
                ) {
                    Some(digest) => {
                        &&& r matches Ok(Start::Layer(f))
                        &&& f.parts() == (self.cache(), reference@, digest)
                    },
                    None => {
                        &&& r matches Ok(Start::Manifest(f))
                        &&& f.parts() == (self.cache(), reference@, v)
                    },
                },
            },
    {
        let v: Reference = match self.resolve(reference) {
            Ok(v) => v,
            Err(e) => {
                return Err(e);
            },
        };
        match manifests.lookup(v.to_string().as_str(), now) {
            Some(digest) => Ok(
                Start::Layer(LayerFetch::new(self.store.clone(), reference, digest)),
            ),
            None => Ok(Start::Manifest(Fetch::new(self.store.clone(), reference, v))),
        }
    }

    /// `loaded` under the digest of its layer.
    pub fn stamp(loaded: Loaded, digest: &str) -> (l: Loaded)
        ensures
            l@ == (LoadedView { digest: digest@, ..loaded@ }),
    {
        Loaded {
            source: loaded.source,
            bytes: loaded.bytes,
            digest: digest.to_owned(),
            size: loaded.size,
            world_id: loaded.world_id,
            exports: loaded.exports,
        }
    }
}

/// The error for bytes that do not have the digest `expected`.
pub open spec fn mismatch(bytes: Seq<u8>, expected: Seq<char>) -> Option<ErrorView> {
    if crate::hash::content_digest(bytes) == expected {
        None
    } else {
        Some(
            ErrorView::DigestMismatch {
                expected,
                computed: crate::hash::content_digest(bytes),
            },
        )
    }
}

/// Verify `bytes` match an `sha256:<hex>` digest.
pub fn verify_digest(bytes: &[u8], expected: &str) -> (r: Result<(), Error>)
    ensures
        crate::error::outcome(r) == (match mismatch(bytes@, expected@) {
            None => Ok(()),
            Some(e) => Err(e),
        }),
{
    match_digest(digest_text(bytes), expected)
}

/// Verify that the digest `computed` is the one that was `expected`.
pub fn match_digest(computed: String, expected: &str) -> (r: Result<(), Error>)
    ensures
        crate::error::outcome(r) == (if computed@ == expected@ {
            Ok(())
        } else {
            Err(ErrorView::DigestMismatch { expected: expected@, computed: computed@ })
        }),
{
    if !same(computed.as_str(), expected) {
        return Err(Error::DigestMismatch { expected: expected.to_owned(), computed });
    }
    Ok(())
}

/// What is wrong with `s` as a digest.
pub open spec fn digest_fault(s: Seq<char>) -> Option<Seq<char>> {
    if !crate::hash::has_scheme(s) {
        Some("digest `"@ + s + "` must use the sha256 scheme"@)
    } else if !crate::hash::is_digest(s) {
        Some("malformed sha256 digest `"@ + s + "`"@)
    } else {
        None
    }
}

/// Validate that `s` is a well-formed `sha256:<hex>` digest string.
pub fn parse_digest(s: &str) -> (r: Result<(), Error>)
    ensures
        crate::error::outcome(r) == (match digest_fault(s@) {
            None => Ok(()),
            Some(fault) => Err(ErrorView::Config(fault)),
        }),
{
    match digest_hex(s) {
        Ok(_) => Ok(()),
        Err(DigestFault::Scheme) => Err(
            Error::Config("digest `".to_owned().concat(s).concat("` must use the sha256 scheme")),
        ),
        Err(DigestFault::Hash) => Err(
            Error::Config("malformed sha256 digest `".to_owned().concat(s).concat("`")),
        ),
    }
}

/// A reference that names a registry is used as it is; qualifying a reference
/// a second time changes nothing.
pub proof fn law_qualification_is_idempotent(endpoint: Seq<char>, reference: Seq<char>)
    ensures
        reference.contains('/') ==> qualified(endpoint, reference) == reference,
        qualified(endpoint, qualified(endpoint, reference)) == qualified(endpoint, reference),
{
    reveal_strlit("/");
    let q = endpoint + "/"@ + reference;
    assert(q[endpoint.len() as int] == '/');
}

/// A reference that names no registry is looked for at the endpoint: the
/// endpoint stands in front of it, and one slash between them.
pub proof fn law_bare_reference_goes_to_the_endpoint(endpoint: Seq<char>, reference: Seq<char>)
    requires
        !reference.contains('/'),
    ensures
        ({
            let q = qualified(endpoint, reference);
            let n = endpoint.len() as int;
            &&& q.len() == n + 1 + reference.len()
            &&& q.take(n) == endpoint
            &&& q[n] == '/'
            &&& q.skip(n + 1) == reference
        }),
{
    reveal_strlit("/");
    let q = qualified(endpoint, reference);
    let n = endpoint.len() as int;
    assert(q.take(n) =~= endpoint);
    assert(q.skip(n + 1) =~= reference);
}

/// A reference as one text names the registry, the repository, then the tag
/// behind a colon and the digest behind an at sign, each where there is one.
pub proof fn law_reference_text_names_every_part(
    registry: Seq<char>,
    repository: Seq<char>,
    tag: Option<Seq<char>>,
    last: Seq<char>,
)
    requires
        registry.len() > 0,
    ensures
        ({
            let bare = whole(ReferenceView { registry, repository, tag: None, digest: None });
            let tagged = whole(ReferenceView { registry, repository, tag: Some(last), digest: None });
            let some = whole(ReferenceView { registry, repository, tag, digest: None });
            let pinned = whole(ReferenceView { registry, repository, tag, digest: Some(last) });
            let local = whole(
                ReferenceView { registry: Seq::empty(), repository, tag: None, digest: None },
            );
            &&& bare == registry.push('/') + repository
            &&& local == repository
            &&& tagged == bare.push(':') + last
            &&& pinned == some.push('@') + last
        }),
{
    reveal_strlit("/");
    reveal_strlit(":");
    reveal_strlit("@");
    let bare = whole(ReferenceView { registry, repository, tag: None, digest: None });
    assert(bare =~= registry.push('/') + repository);
    let tagged = whole(ReferenceView { registry, repository, tag: Some(last), digest: None });
    assert(tagged =~= bare.push(':') + last);
    let some = whole(ReferenceView { registry, repository, tag, digest: None });
    let pinned = whole(ReferenceView { registry, repository, tag, digest: Some(last) });
    assert(pinned =~= some.push('@') + last);
}

/// Resolving passes on the reference that was read; one that could not be
/// read is an error of the registry that names it and ends in the reason.
pub proof fn law_resolving_passes_on_what_was_read(
    reference: Seq<char>,
    v: ReferenceView,
    reason: Seq<char>,
)
    ensures
        resolved(reference, Ok(v)) == Ok::<ReferenceView, ErrorView>(v),
        resolved(reference, Err(reason)) is Err,
        resolved(reference, Err(reason))->Err_0 is Oci,
        exists|a: Seq<char>, b: Seq<char>| #[trigger]
            (a + reference + b + reason) == resolved(reference, Err(reason))->Err_0->Oci_0,
{
    assert("invalid reference `"@ + reference + "`: "@ + reason == resolved(
        reference,
        Err(reason),
    )->Err_0->Oci_0);
}

/// Bytes are refused exactly where their digest is not the expected one, and
/// the error names both.
pub proof fn law_bytes_are_held_to_their_digest(bytes: Seq<u8>, expected: Seq<char>)
    ensures
        mismatch(bytes, expected) is None <==> expected == crate::hash::content_digest(bytes),
        mismatch(bytes, expected) is Some ==> mismatch(bytes, expected)->0 == (
        ErrorView::DigestMismatch {
            expected,
            computed: crate::hash::content_digest(bytes),
        }),
        mismatch(bytes, crate::hash::content_digest(bytes)) is None,
{
}

/// A text has no fault as a digest exactly where it is one; a fault names the
/// text.
pub proof fn law_digest_faults_name_the_text(s: Seq<char>)
    ensures
        digest_fault(s) is None <==> crate::hash::is_digest(s),
        digest_fault(s) matches Some(m) ==> exists|a: Seq<char>, b: Seq<char>| #[trigger]
            (a + s + b) == m,
{
    if !crate::hash::has_scheme(s) {
        assert("digest `"@ + s + "` must use the sha256 scheme"@ == digest_fault(s)->0);
    } else if !crate::hash::is_digest(s) {
        assert("malformed sha256 digest `"@ + s + "`"@ == digest_fault(s)->0);
    }
}

/// All that an identity holds can be seen, and so can what parsing and
/// resolving a reference returned.
pub proof fn law_identities_are_seen_whole(auth: Auth, r: Reference, e: Error, reason: String)
    ensures
        reference_view(Ok(r)) == Ok::<ReferenceView, Seq<char>>(r@),
        reference_view(Err(reason)) == Err::<ReferenceView, Seq<char>>(reason@),
        resolve_outcome(Ok(r)) == Ok::<ReferenceView, ErrorView>(r@),
        resolve_outcome(Err(e)) == Err::<ReferenceView, ErrorView>(e@),
        match auth {
            Auth::Anonymous => auth@ is Anonymous,
            Auth::Basic { user, password } => auth@ is Basic && auth@->user == user@
                && auth@->password == password@,
        },
{
}

} // verus!
