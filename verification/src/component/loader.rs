//! Component artifact loading, validation, and contract checking.
//!
//! A [`Loaded`] artifact is a component binary that has passed structural
//! validation and has a recorded content digest. Contract checking
//! ([`ensure_contract`]) is a separate, cheap step that verifies the artifact
//! exposes the `ember-guest` handler surface before it is ever scheduled.

use vstd::prelude::*;
use vstd::string::*;
use wasmparser::{Encoding, Parser, Payload};

use crate::error::{Error, ErrorView};
use crate::hash::digest_text;
use crate::text::{chars, copied, copied_option, joined, position, same, strip_prefix, text};

verus! {

/// The world id a component must target to be scheduled by Ember.
pub const EMBER_WORLD: &'static str = "ember-guest";

/// The exported interface a component uses to receive requests.
pub const HANDLER_INTERFACE: &'static str = "ember-handler";

/// A validated, content-addressed component artifact.
#[derive(Debug)]
pub struct Loaded {
    /// Human-readable origin (file path or OCI reference).
    pub source: String,
    /// Raw component bytes.
    pub bytes: Vec<u8>,
    /// Content digest, `sha256:<hex>`, computed over `bytes`.
    pub digest: String,
    /// Size of the artifact in bytes.
    pub size: u64,
    /// The world id embedded in the component (`#ember-guest` → `ember-guest`).
    pub world_id: Option<String>,
    /// Export names declared by the component.
    pub exports: Vec<String>,
}

/// What a [`Loaded`] artifact holds.
pub struct LoadedView {
    pub source: Seq<char>,
    pub bytes: Seq<u8>,
    pub digest: Seq<char>,
    pub size: u64,
    pub world_id: Option<Seq<char>>,
    pub exports: Seq<Seq<char>>,
}

impl View for Loaded {
    type V = LoadedView;

    open spec fn view(&self) -> LoadedView {
        LoadedView {
            source: self.source@,
            bytes: self.bytes@,
            digest: self.digest@,
            size: self.size,
            world_id: crate::text::opt_view(self.world_id),
            exports: crate::text::views(self.exports@),
        }
    }
}

impl Clone for Loaded {
    fn clone(&self) -> (l: Loaded)
        ensures
            l@ == self@,
    {
        let bytes: Vec<u8> = self.bytes.clone();
        proof {
            assert(bytes@ =~= self.bytes@);
        }
        Loaded {
            source: self.source.clone(),
            bytes,
            digest: self.digest.clone(),
            size: self.size,
            world_id: copied_option(&self.world_id),
            exports: copied(&self.exports),
        }
    }
}

/// What loading returned.
pub open spec fn load_outcome(r: Result<Loaded, Error>) -> Result<LoadedView, ErrorView> {
    match r {
        Ok(l) => Ok(l@),
        Err(e) => Err(e@),
    }
}

/// One event of a walk through a binary, nested binaries included.
#[derive(Debug)]
pub enum Section {
    /// The header of a core module.
    Module,
    /// The header of a component.
    Component,
    /// A core module nested in a component starts here.
    NestedModule,
    /// A component nested in a component starts here.
    NestedComponent,
    /// The names that a component exports.
    Exports(Vec<String>),
    /// Any other section.
    Other,
    /// The end of the binary at hand.
    End,
}

/// What a [`Section`] says.
pub enum SectionView {
    Module,
    Component,
    NestedModule,
    NestedComponent,
    Exports(Seq<Seq<char>>),
    Other,
    End,
}

impl View for Section {
    type V = SectionView;

    open spec fn view(&self) -> SectionView {
        match self {
            Section::Module => SectionView::Module,
            Section::Component => SectionView::Component,
            Section::NestedModule => SectionView::NestedModule,
            Section::NestedComponent => SectionView::NestedComponent,
            Section::Exports(names) => SectionView::Exports(crate::text::views(names@)),
            Section::Other => SectionView::Other,
            Section::End => SectionView::End,
        }
    }
}

/// What each of several sections says.
pub open spec fn section_views(v: Seq<Section>) -> Seq<SectionView> {
    v.map_values(|s: Section| s@)
}

/// The walk through a binary, or why it could not be finished.
pub open spec fn walk_view(r: Result<Vec<Section>, String>) -> Result<Seq<SectionView>, Seq<char>> {
    match r {
        Ok(v) => Ok(section_views(v@)),
        Err(e) => Err(e@),
    }
}

/// Why a binary is not valid, where it is not.
pub open spec fn verdict_view(r: Result<(), String>) -> Option<Seq<char>> {
    match r {
        Ok(()) => None,
        Err(e) => Some(e@),
    }
}

/// What `wasmparser::Validator::validate_all` objects to in `bytes`.
pub uninterp spec fn validation_of(bytes: Seq<u8>) -> Option<Seq<char>>;

/// What `wasmparser::Parser::parse_all` finds in `bytes`.
pub uninterp spec fn sections_of(bytes: Seq<u8>) -> Result<Seq<SectionView>, Seq<char>>;

/// `wasmparser::Validator::validate_all` with the default features. Whether
/// it accepts the bytes, and what it objects to where it does not, depends on
/// the bytes alone.
#[verifier::external_body]
fn validate_all(bytes: &[u8]) -> (r: Result<(), String>)
    ensures
        verdict_view(r) == validation_of(bytes@),
{
    wasmparser::Validator::new().validate_all(bytes).map(|_| ()).map_err(|e| e.to_string())
}

/// `wasmparser::Parser::parse_all`, with each payload as a [`Section`]. What
/// it yields depends on the bytes alone.
#[verifier::external_body]
fn parse_all(bytes: &[u8]) -> (r: Result<Vec<Section>, String>)
    ensures
        walk_view(r) == sections_of(bytes@),
{
    Parser::new(0).parse_all(bytes).map(|p| match p? {
        Payload::Version { encoding: Encoding::Module, .. } => Ok(Section::Module),
        Payload::Version { encoding: Encoding::Component, .. } => Ok(Section::Component),
        Payload::ModuleSection { .. } => Ok(Section::NestedModule),
        Payload::ComponentSection { .. } => Ok(Section::NestedComponent),
        Payload::ComponentExportSection(s) => s.into_iter().map(
            |e| Ok(e?.name.name.to_owned()),
        ).collect::<wasmparser::Result<Vec<String>>>().map(Section::Exports),
        Payload::End(_) => Ok(Section::End),
        _ => Ok(Section::Other),
    }).collect::<wasmparser::Result<Vec<Section>>>().map_err(|e| e.to_string())
}

/// How many nested binaries are open behind the sections `s`.
pub open spec fn nesting(s: Seq<SectionView>) -> nat
    decreases s.len(),
{
    if s.len() == 0 {
        0
    } else {
        let before = nesting(s.drop_last());
        match s.last() {
            SectionView::NestedModule | SectionView::NestedComponent => before + 1,
            SectionView::End => if before > 0 {
                (before - 1) as nat
            } else {
                0
            },
            _ => before,
        }
    }
}

/// The names exported by the outermost component, in order.
pub open spec fn outer_exports(s: Seq<SectionView>) -> Seq<Seq<char>>
    decreases s.len(),
{
    if s.len() == 0 {
        Seq::empty()
    } else {
        let before = outer_exports(s.drop_last());
        match s.last() {
            SectionView::Exports(names) => if nesting(s.drop_last()) == 0 {
                before + names
            } else {
                before
            },
            _ => before,
        }
    }
}

/// Whether the sections are those of a component.
pub open spec fn is_component(s: Seq<SectionView>) -> bool {
    s.len() > 0 && s[0] is Component
}

/// The world id among `exports`: what follows the `#` of the first name that
/// starts with one.
pub open spec fn world_of(exports: Seq<Seq<char>>) -> Option<Seq<char>>
    decreases exports.len(),
{
    if exports.len() == 0 {
        None
    } else if crate::text::starts_with(exports.first(), seq!['#']) {
        Some(exports.first().skip(1))
    } else {
        world_of(exports.drop_first())
    }
}

/// The artifact that `bytes` hold, given what the validator and the parser
/// say of them.
pub open spec fn interpreted(
    source: Seq<char>,
    bytes: Seq<u8>,
    verdict: Option<Seq<char>>,
    walk: Result<Seq<SectionView>, Seq<char>>,
) -> Result<LoadedView, ErrorView> {
    match verdict {
        Some(objection) => Err(ErrorView::Validation(objection)),
        None => match walk {
            Err(reason) => Err(ErrorView::InvalidComponent { path: source, reason }),
            Ok(sections) => if is_component(sections) {
                Ok(
                    LoadedView {
                        source,
                        bytes,
                        digest: crate::hash::content_digest(bytes),
                        size: bytes.len() as u64,
                        world_id: world_of(outer_exports(sections)),
                        exports: outer_exports(sections),
                    },
                )
            } else {
                Err(
                    ErrorView::InvalidComponent {
                        path: source,
                        reason: "not a WebAssembly component"@,
                    },
                )
            },
        },
    }
}

/// The artifact that `bytes` hold.
pub open spec fn artifact(source: Seq<char>, bytes: Seq<u8>) -> Result<LoadedView, ErrorView> {
    interpreted(source, bytes, validation_of(bytes), sections_of(bytes))
}

impl Loaded {
    /// Validate `bytes` as a component and derive metadata.
    pub fn from_bytes(source: &str, bytes: Vec<u8>) -> (r: Result<Loaded, Error>)
        ensures
            load_outcome(r) == artifact(source@, bytes@),
    {
        let verdict: Result<(), String> = validate_all(bytes.as_slice());
        let walk: Result<Vec<Section>, String> = parse_all(bytes.as_slice());
        Loaded::interpret(source, bytes, verdict, walk)
    }

    /// Derive an artifact from `bytes`, given what the validator and the
    /// parser said of them.
    pub fn interpret(
        source: &str,
        bytes: Vec<u8>,
        verdict: Result<(), String>,
        walk: Result<Vec<Section>, String>,
    ) -> (r: Result<Loaded, Error>)
        ensures
            load_outcome(r) == interpreted(
                source@,
                bytes@,
                verdict_view(verdict),
                walk_view(walk),
            ),
            r is Ok ==> crate::hash::is_digest(r->Ok_0.digest@),
    {
        if let Err(objection) = verdict {
            return Err(Error::Validation(objection));
        }
        let sections: Vec<Section> = match walk {
            Ok(s) => s,
            Err(reason) => {
                return Err(Error::InvalidComponent { path: source.to_owned(), reason });
            },
        };
        if !starts_component(&sections) {
            return Err(
                Error::InvalidComponent {
                    path: source.to_owned(),
                    reason: "not a WebAssembly component".to_owned(),
                },
            );
        }
        let exports: Vec<String> = collect_exports(&sections);
        let world_id: Option<String> = find_world(&exports);
        let digest: String = digest_text(bytes.as_slice());
        let size: u64 = bytes.len() as u64;
        Ok(Loaded { source: source.to_owned(), bytes, digest, size, world_id, exports })
    }

    /// Load and validate a component artifact, given what reading the file at
    /// `path` returned.
    pub fn from_path(path: &str, read: Result<Vec<u8>, String>) -> (r: Result<Loaded, Error>)
        ensures
            load_outcome(r) == (match read {
                Ok(bytes) => artifact(path@, bytes@),
                Err(reason) => Err(
                    ErrorView::InvalidComponent { path: path@, reason: reason@ },
                ),
            }),
    {
        match read {
            Ok(bytes) => Loaded::from_bytes(path, bytes),
            Err(reason) => Err(Error::InvalidComponent { path: path.to_owned(), reason }),
        }
    }

    /// Whether the artifact declares export `name` (exact match).
    pub fn exports_interface(&self, name: &str) -> (r: bool)
        ensures
            r == self@.exports.contains(name@),
    {
        let mut i: usize = 0;
        while i < self.exports.len()
            invariant
                i <= self.exports@.len(),
                forall|j: int| 0 <= j < i ==> #[trigger] self@.exports[j] != name@,
            decreases self.exports@.len() - i,
        {
            if same(self.exports[i].as_str(), name) {
                proof {
                    assert(self@.exports[i as int] == name@);
                }
                return true;
            }
            i = i + 1;
        }
        false
    }

    /// Whether the artifact targets world `world`.
    pub fn has_world(&self, world: &str) -> (r: bool)
        ensures
            r == (self@.world_id == Some(world@)),
    {
        match &self.world_id {
            Some(w) => same(w.as_str(), world),
            None => false,
        }
    }
}

/// Executable form of [`is_component`].
fn starts_component(sections: &Vec<Section>) -> (r: bool)
    ensures
        r == is_component(section_views(sections@)),
{
    if sections.len() == 0 {
        return false;
    }
    proof {
        assert(section_views(sections@)[0] == sections@[0]@);
    }
    match &sections[0] {
        Section::Component => true,
        _ => false,
    }
}

/// Executable form of [`outer_exports`].
fn collect_exports(sections: &Vec<Section>) -> (v: Vec<String>)
    ensures
        crate::text::views(v@) == outer_exports(section_views(sections@)),
{
    let ghost all = section_views(sections@);
    let mut v: Vec<String> = Vec::new();
    let mut depth: usize = 0;
    let mut i: usize = 0;
    while i < sections.len()
        invariant
            i <= sections@.len(),
            depth <= i,
            all == section_views(sections@),
            depth == nesting(all.take(i as int)),
            crate::text::views(v@) == outer_exports(all.take(i as int)),
        decreases sections@.len() - i,
    {
        proof {
            assert(all.take(i + 1).drop_last() =~= all.take(i as int));
            assert(all.take(i + 1).last() == sections@[i as int]@);
        }
        match &sections[i] {
            Section::NestedModule => {
                depth = depth + 1;
            },
            Section::NestedComponent => {
                depth = depth + 1;
            },
            Section::End => {
                if depth > 0 {
                    depth = depth - 1;
                }
            },
            Section::Exports(names) => {
                if depth == 0 {
                    append_copies(&mut v, names);
                }
            },
            _ => {},
        }
        i = i + 1;
    }
    proof {
        assert(all.take(i as int) =~= all);
    }
    v
}

/// Append copies of `names` to `v`.
fn append_copies(v: &mut Vec<String>, names: &Vec<String>)
    ensures
        crate::text::views(final(v)@) == crate::text::views(old(v)@) + crate::text::views(names@),
{
    let mut i: usize = 0;
    while i < names.len()
        invariant
            i <= names@.len(),
            crate::text::views(v@) == crate::text::views(old(v)@) + crate::text::views(
                names@,
            ).take(i as int),
        decreases names@.len() - i,
    {
        let ghost before = crate::text::views(v@);
        v.push(names[i].clone());
        i = i + 1;
        proof {
            let all = crate::text::views(names@);
            assert(crate::text::views(v@) =~= before.push(all[i - 1]));
            assert(all.take(i as int) =~= all.take(i - 1).push(all[i - 1]));
        }
    }
    proof {
        assert(crate::text::views(names@).take(i as int) =~= crate::text::views(names@));
    }
}

/// Executable form of [`world_of`].
fn find_world(exports: &Vec<String>) -> (r: Option<String>)
    ensures
        crate::text::opt_view(r) == world_of(crate::text::views(exports@)),
{
    let ghost all = crate::text::views(exports@);
    let mark: Vec<char> = vec!['#'];
    proof {
        assert(mark@ =~= seq!['#']);
        assert(all.skip(0) =~= all);
    }
    let mut i: usize = 0;
    while i < exports.len()
        invariant
            i <= exports@.len(),
            mark@ == seq!['#'],
            all == crate::text::views(exports@),
            world_of(all) == world_of(all.skip(i as int)),
        decreases exports@.len() - i,
    {
        proof {
            assert(all.skip(i as int).first() == exports@[i as int]@);
            assert(all.skip(i as int).drop_first() =~= all.skip(i + 1));
        }
        let cs: Vec<char> = chars(exports[i].as_str());
        match strip_prefix(cs.as_slice(), mark.as_slice()) {
            Some(rest) => {
                return Some(text(rest));
            },
            None => {},
        }
        i = i + 1;
    }
    None
}

/// Compute the content digest for `bytes`.
pub fn digest_of(bytes: &[u8]) -> (s: String)
    ensures
        s@ == crate::hash::content_digest(bytes@),
        crate::hash::is_digest(s@),
{
    digest_text(bytes)
}

/// Whether `name` is an export by which a component takes requests: the
/// `ember-guest` world, or the handler interface under its bare or its
/// fully-qualified name.
pub open spec fn takes_requests(name: Seq<char>) -> bool {
    ||| name == EMBER_WORLD@
    ||| name == "#"@ + EMBER_WORLD@
    ||| name == HANDLER_INTERFACE@
    ||| name == "handler"@
    ||| crate::text::find(name, ":runtime/handler"@) is Some
}

/// Whether `exports` satisfy the Ember guest contract.
pub open spec fn honors_contract(exports: Seq<Seq<char>>) -> bool {
    exists|i: int| 0 <= i < exports.len() && takes_requests(#[trigger] exports[i])
}

/// What is missing from `exports`, where they do not satisfy the contract.
pub open spec fn violation(exports: Seq<Seq<char>>) -> Option<Seq<char>> {
    if honors_contract(exports) {
        None
    } else {
        let seen = if exports.len() == 0 {
            "no exports at all"@
        } else {
            "only: "@ + crate::text::join(exports, ", "@)
        };
        Some(
            "artifact exports "@ + seen + "; expected interface `"@ + HANDLER_INTERFACE@
                + "` or world `"@ + EMBER_WORLD@ + "`"@,
        )
    }
}

/// Executable form of [`takes_requests`].
fn is_entrypoint(name: &str) -> (r: bool)
    ensures
        r == takes_requests(name@),
{
    let cs: Vec<char> = chars(name);
    let qualified: Vec<char> = chars(":runtime/handler");
    same(name, EMBER_WORLD) || same(name, "#".to_owned().concat(EMBER_WORLD).as_str()) || same(
        name,
        HANDLER_INTERFACE,
    ) || same(name, "handler") || position(cs.as_slice(), qualified.as_slice()).is_some()
}

/// The exports by which a component takes requests, in order.
pub open spec fn entry_names(exports: Seq<Seq<char>>) -> Seq<Seq<char>>
    decreases exports.len(),
{
    if exports.len() == 0 {
        Seq::empty()
    } else {
        let before = entry_names(exports.drop_last());
        if takes_requests(exports.last()) {
            before.push(exports.last())
        } else {
            before
        }
    }
}

/// The contract holds exactly where there is an export to take requests by.
proof fn lemma_entry_names(exports: Seq<Seq<char>>)
    ensures
        (entry_names(exports).len() > 0) == honors_contract(exports),
    decreases exports.len(),
{
    if exports.len() > 0 {
        let init = exports.drop_last();
        lemma_entry_names(init);
        if honors_contract(init) {
            let i = choose|i: int| 0 <= i < init.len() && takes_requests(#[trigger] init[i]);
            assert(exports[i] == init[i]);
        }
        if takes_requests(exports.last()) {
            assert(exports[exports.len() - 1] == exports.last());
        }
        if honors_contract(exports) && !takes_requests(exports.last()) {
            let i = choose|i: int| 0 <= i < exports.len() && takes_requests(#[trigger] exports[i]);
            assert(init[i] == exports[i]);
        }
    }
}

/// The exports by which a component takes requests, in order. There is one
/// exactly where the contract is satisfied.
pub fn entrypoints(exports: &[String]) -> (v: Vec<String>)
    ensures
        crate::text::views(v@) == entry_names(crate::text::views(exports@)),
        (v@.len() > 0) == honors_contract(crate::text::views(exports@)),
{
    let ghost all = crate::text::views(exports@);
    let mut v: Vec<String> = Vec::new();
    let mut i: usize = 0;
    proof {
        assert(crate::text::views(v@) =~= Seq::<Seq<char>>::empty());
    }
    while i < exports.len()
        invariant
            i <= exports@.len(),
            all == crate::text::views(exports@),
            crate::text::views(v@) == entry_names(all.take(i as int)),
        decreases exports@.len() - i,
    {
        let ghost before = crate::text::views(v@);
        proof {
            assert(all.take(i + 1).drop_last() =~= all.take(i as int));
            assert(all.take(i + 1).last() == exports@[i as int]@);
        }
        if is_entrypoint(exports[i].as_str()) {
            v.push(exports[i].clone());
            proof {
                assert(crate::text::views(v@) =~= before.push(exports@[i as int]@));
            }
        }
        i = i + 1;
    }
    proof {
        assert(all.take(i as int) =~= all);
        lemma_entry_names(all);
        assert(crate::text::views(v@).len() == v@.len());
    }
    v
}

/// Return a human-readable description of what is missing from `exports`,
/// or `None` if the exports satisfy the Ember guest contract.
///
/// A component satisfies the contract if it exports the handler interface
/// (under its fully-qualified name, its bare name, or the `ember-guest`
/// world). This is intentionally tolerant of the two canonical encodings
/// produced by `wasm-tools component` / `wit-bindgen`.
pub fn contract_violations(exports: &[String]) -> (r: Option<String>)
    ensures
        crate::text::opt_view(r) == violation(crate::text::views(exports@)),
{
    let ghost all = crate::text::views(exports@);
    let mut i: usize = 0;
    while i < exports.len()
        invariant
            i <= exports@.len(),
            all == crate::text::views(exports@),
            forall|j: int| 0 <= j < i ==> !takes_requests(#[trigger] all[j]),
        decreases exports@.len() - i,
    {
        proof {
            assert(all[i as int] == exports@[i as int]@);
        }
        if is_entrypoint(exports[i].as_str()) {
            return None;
        }
        i = i + 1;
    }
    let seen: String = if exports.len() == 0 {
        "no exports at all".to_owned()
    } else {
        "only: ".to_owned().concat(joined(exports, ", ").as_str())
    };
    Some(
        "artifact exports ".to_owned().concat(seen.as_str()).concat(
            "; expected interface `",
        ).concat(HANDLER_INTERFACE).concat("` or world `").concat(EMBER_WORLD).concat("`"),
    )
}

/// Ensure a loaded artifact satisfies the Ember guest contract.
pub fn ensure_contract(loaded: &Loaded) -> (r: Result<(), Error>)
    ensures
        crate::error::outcome(r) == (match violation(loaded@.exports) {
            None => Ok(()),
            Some(reason) => Err(ErrorView::Contract(reason)),
        }),
{
    match contract_violations(loaded.exports.as_slice()) {
        None => Ok(()),
        Some(reason) => Err(Error::Contract(reason)),
    }
}

/// An artifact that satisfies the Ember guest contract. Only such an artifact
/// can become active.
#[derive(Debug)]
pub struct Admitted {
    loaded: Loaded,
}

impl View for Admitted {
    type V = LoadedView;

    closed spec fn view(&self) -> LoadedView {
        self.loaded@
    }
}

impl Admitted {
    #[verifier::type_invariant]
    spec fn contracted(self) -> bool {
        honors_contract(self.loaded@.exports)
    }

    /// Let an artifact through if it satisfies the contract.
    pub fn check(loaded: Loaded) -> (r: Result<Admitted, Error>)
        ensures
            match violation(loaded@.exports) {
                None => r is Ok && r->Ok_0@ == loaded@,
                Some(reason) => r is Err && r->Err_0@ == ErrorView::Contract(reason),
            },
    {
        match ensure_contract(&loaded) {
            Ok(()) => Ok(Admitted { loaded }),
            Err(e) => Err(e),
        }
    }

    /// The artifact.
    pub fn loaded(&self) -> (l: &Loaded)
        ensures
            l@ == self@,
            honors_contract(l@.exports),
    {
        proof {
            use_type_invariant(&*self);
        }
        &self.loaded
    }
}

/// An artifact is addressed by its content: the digest and the size are
/// those of the very bytes it carries, whatever its source is called.
pub proof fn law_artifact_is_content_addressed(source: Seq<char>, bytes: Seq<u8>)
    ensures
        artifact(source, bytes) is Ok ==> {
            &&& artifact(source, bytes)->Ok_0.bytes == bytes
            &&& artifact(source, bytes)->Ok_0.digest == crate::hash::content_digest(bytes)
            &&& forall|other: Seq<char>| #[trigger]
                artifact(other, bytes) is Ok && artifact(other, bytes)->Ok_0.digest == artifact(
                    source,
                    bytes,
                )->Ok_0.digest
        },
{
}

/// An artifact whose world id is `ember-guest` satisfies the contract.
pub proof fn law_world_implies_contract(exports: Seq<Seq<char>>)
    requires
        world_of(exports) == Some(EMBER_WORLD@),
    ensures
        honors_contract(exports),
        violation(exports) is None,
    decreases exports.len(),
{
    if exports.len() > 0 {
        let first = exports.first();
        if crate::text::starts_with(first, seq!['#']) {
            reveal_strlit("#");
            assert("#"@ =~= seq!['#']);
            assert(first =~= first.take(1) + first.skip(1));
            assert(takes_requests(exports[0]));
        } else {
            law_world_implies_contract(exports.drop_first());
            let rest = exports.drop_first();
            let i = choose|i: int| 0 <= i < rest.len() && takes_requests(#[trigger] rest[i]);
            assert(exports[i + 1] == rest[i]);
        }
    }
}

/// More exports never break the contract.
pub proof fn law_contract_is_monotone(exports: Seq<Seq<char>>, more: Seq<Seq<char>>)
    requires
        honors_contract(exports),
    ensures
        honors_contract(exports + more),
        honors_contract(more + exports),
{
    let i = choose|i: int| 0 <= i < exports.len() && takes_requests(#[trigger] exports[i]);
    assert((exports + more)[i] == exports[i]);
    assert((more + exports)[more.len() + i] == exports[i]);
}

/// Bytes hold an artifact exactly where the validator accepts them and the
/// parser walks through them as a component; the artifact then carries these
/// bytes and the exports of the walk under the name of its source. What the
/// validator or the parser objects to is what the error says.
pub proof fn law_component_is_taken_as_it_is(
    source: Seq<char>,
    bytes: Seq<u8>,
    verdict: Option<Seq<char>>,
    walk: Result<Seq<SectionView>, Seq<char>>,
)
    ensures
        interpreted(source, bytes, verdict, walk) is Ok <==> verdict is None && walk is Ok
            && walk->Ok_0.len() > 0 && walk->Ok_0[0] is Component,
        interpreted(source, bytes, verdict, walk) matches Ok(l) ==> {
            &&& l.source == source
            &&& l.bytes == bytes
            &&& l.digest == crate::hash::content_digest(bytes)
            &&& l.size == bytes.len() as u64
            &&& l.exports == outer_exports(walk->Ok_0)
            &&& l.world_id == world_of(l.exports)
        },
        verdict matches Some(objection) ==> interpreted(source, bytes, verdict, walk) == Err::<
            LoadedView,
            ErrorView,
        >(ErrorView::Validation(objection)),
        verdict is None && interpreted(source, bytes, verdict, walk) is Err ==> {
            &&& interpreted(source, bytes, verdict, walk)->Err_0 is InvalidComponent
            &&& interpreted(source, bytes, verdict, walk)->Err_0->path == source
            &&& walk is Err ==> interpreted(source, bytes, verdict, walk)->Err_0->reason
                == walk->Err_0
        },
        artifact(source, bytes) == interpreted(
            source,
            bytes,
            validation_of(bytes),
            sections_of(bytes),
        ),
{
}

/// How many more nested binaries start than end among `s`.
pub open spec fn left_open(s: Seq<SectionView>) -> int
    decreases s.len(),
{
    if s.len() == 0 {
        0
    } else {
        left_open(s.drop_last()) + (match s.last() {
            SectionView::NestedModule | SectionView::NestedComponent => 1int,
            SectionView::End => -1,
            _ => 0,
        })
    }
}

/// Whether `s` are the sections between the start and the end of one binary:
/// what is nested in it ends in it.
pub open spec fn is_inside(s: Seq<SectionView>) -> bool {
    left_open(s) == 0 && forall|k: int| 0 <= k <= s.len() ==> left_open(#[trigger] s.take(k)) >= 0
}

proof fn lemma_inside(outer: Seq<SectionView>, s: Seq<SectionView>)
    requires
        nesting(outer) >= 1,
        forall|k: int| 0 <= k <= s.len() ==> left_open(#[trigger] s.take(k)) >= 0,
    ensures
        nesting(outer + s) == nesting(outer) + left_open(s),
        outer_exports(outer + s) == outer_exports(outer),
    decreases s.len(),
{
    if s.len() == 0 {
        assert(outer + s =~= outer);
    } else {
        let init = s.drop_last();
        assert forall|k: int| 0 <= k <= init.len() implies left_open(#[trigger] init.take(k))
            >= 0 by {
            assert(init.take(k) =~= s.take(k));
        }
        lemma_inside(outer, init);
        assert(init.take(init.len() as int) =~= init);
        assert(left_open(init) >= 0);
        assert((outer + s).drop_last() =~= outer + init);
        assert((outer + s).last() == s.last());
    }
}

proof fn lemma_behind(a: Seq<SectionView>, b: Seq<SectionView>)
    requires
        nesting(a) == 0,
    ensures
        nesting(a + b) == nesting(b),
        outer_exports(a + b) == outer_exports(a) + outer_exports(b),
    decreases b.len(),
{
    if b.len() == 0 {
        assert(a + b =~= a);
        assert(outer_exports(a) + outer_exports(b) =~= outer_exports(a));
    } else {
        let init = b.drop_last();
        lemma_behind(a, init);
        assert((a + b).drop_last() =~= a + init);
        assert((a + b).last() == b.last());
        match b.last() {
            SectionView::Exports(names) => {
                assert(outer_exports(a) + outer_exports(init) + names =~= outer_exports(a) + (
                outer_exports(init) + names));
            },
            _ => {},
        }
    }
}

proof fn lemma_flat(a: Seq<SectionView>)
    requires
        forall|i: int|
            0 <= i < a.len() ==> !(#[trigger] a[i] is NestedModule) && !(a[i] is NestedComponent),
    ensures
        nesting(a) == 0,
    decreases a.len(),
{
    if a.len() > 0 {
        let init = a.drop_last();
        assert forall|i: int| 0 <= i < init.len() implies !(#[trigger] init[i] is NestedModule)
            && !(init[i] is NestedComponent) by {
            assert(init[i] == a[i]);
        }
        lemma_flat(init);
        assert(a.last() == a[a.len() - 1]);
    }
}

/// The exports of a component are the names in its own export sections, all
/// of them and in order.
pub proof fn law_export_sections_are_joined(
    a: Seq<SectionView>,
    section: SectionView,
    b: Seq<SectionView>,
)
    requires
        forall|i: int|
            0 <= i < a.len() ==> !(#[trigger] a[i] is NestedModule) && !(a[i] is NestedComponent),
        !(section is NestedModule),
        !(section is NestedComponent),
    ensures
        outer_exports(a + seq![section] + b) == outer_exports(a) + (match section {
            SectionView::Exports(names) => names,
            _ => Seq::<Seq<char>>::empty(),
        }) + outer_exports(b),
{
    let c = a.push(section);
    assert(a + seq![section] =~= c);
    lemma_flat(a);
    lemma_flat(c);
    lemma_behind(c, b);
    assert(c.drop_last() =~= a);
    assert(outer_exports(a) + Seq::<Seq<char>>::empty() =~= outer_exports(a));
}

/// What a nested binary exports is no export of the component: the exports
/// are those in front of it and those behind it.
pub proof fn law_nested_exports_are_left_out(
    a: Seq<SectionView>,
    nested: SectionView,
    inside: Seq<SectionView>,
    b: Seq<SectionView>,
)
    requires
        forall|i: int|
            0 <= i < a.len() ==> !(#[trigger] a[i] is NestedModule) && !(a[i] is NestedComponent),
        nested is NestedModule || nested is NestedComponent,
        is_inside(inside),
    ensures
        outer_exports(a + seq![nested] + inside + seq![SectionView::End] + b) == outer_exports(a)
            + outer_exports(b),
{
    lemma_flat(a);
    let open = a.push(nested);
    assert(a + seq![nested] =~= open);
    assert(open.drop_last() =~= a);
    lemma_inside(open, inside);
    let all = open + inside;
    let closed_again = all.push(SectionView::End);
    assert(closed_again.drop_last() =~= all);
    lemma_behind(closed_again, b);
    assert(a + seq![nested] + inside + seq![SectionView::End] =~= closed_again);
}

/// The world id is what follows the mark of the first export that bears one.
pub proof fn law_first_marked_export_names_the_world(
    a: Seq<Seq<char>>,
    world: Seq<char>,
    b: Seq<Seq<char>>,
)
    requires
        forall|i: int|
            0 <= i < a.len() ==> (#[trigger] a[i]).len() == 0 || a[i][0] != '#',
    ensures
        world_of(a + seq![seq!['#'] + world] + b) == Some(world),
        world_of(a) is None,
    decreases a.len(),
{
    let marked = seq!['#'] + world;
    let all = a + seq![marked] + b;
    if a.len() == 0 {
        assert(all.first() == marked);
        assert(marked.take(1) =~= seq!['#']);
        assert(marked.skip(1) =~= world);
    } else {
        let rest = a.drop_first();
        assert forall|i: int| 0 <= i < rest.len() implies (#[trigger] rest[i]).len() == 0
            || rest[i][0] != '#' by {
            assert(rest[i] == a[i + 1]);
        }
        law_first_marked_export_names_the_world(rest, world, b);
        assert(all.drop_first() =~= rest + seq![marked] + b);
        assert(all.first() == a[0]);
        if crate::text::starts_with(a[0], seq!['#']) {
            assert(a[0].take(1)[0] == '#');
        }
    }
}

/// A component takes requests by the world `ember-guest`, marked or not, by
/// the interface `ember-handler` or `handler`, and by any name that holds
/// `:runtime/handler`; by nothing else.
pub proof fn law_request_exports(name: Seq<char>)
    ensures
        takes_requests(name) <==> name == "ember-guest"@ || name == "#ember-guest"@ || name
            == "ember-handler"@ || name == "handler"@ || exists|a: Seq<char>, b: Seq<char>|
            #[trigger] (a + ":runtime/handler"@ + b) == name,
{
    reveal_strlit("#");
    reveal_strlit("ember-guest");
    reveal_strlit("#ember-guest");
    assert("#"@ + EMBER_WORLD@ =~= "#ember-guest"@);
    crate::text::law_first_occurrence_is_found(name, ":runtime/handler"@);
    match crate::text::find(name, ":runtime/handler"@) {
        Some(i) => {
            crate::text::law_occurrence_splits_the_text(name, ":runtime/handler"@, i);
        },
        None => {
            if exists|a: Seq<char>, b: Seq<char>|
                #[trigger] (a + ":runtime/handler"@ + b) == name {
                let (a, b) = choose|a: Seq<char>, b: Seq<char>|
                    #[trigger] (a + ":runtime/handler"@ + b) == name;
                let i = a.len() as int;
                crate::text::law_occurrence_splits_the_text(name, ":runtime/handler"@, i);
                assert(crate::text::occurs_at(name, ":runtime/handler"@, i));
            }
        },
    }
}

/// The contract is violated exactly where no export takes requests, and the
/// description then lists every export.
pub proof fn law_violation_lists_the_exports(exports: Seq<Seq<char>>)
    ensures
        violation(exports) is None <==> exists|i: int|
            0 <= i < exports.len() && takes_requests(#[trigger] exports[i]),
        violation(exports) is None <==> honors_contract(exports),
        violation(exports) is Some && exports.len() == 0 ==> exists|a: Seq<char>, b: Seq<char>|
            #[trigger] (a + "no exports at all"@ + b) == violation(exports)->0,
        violation(exports) is Some && exports.len() > 0 ==> exists|a: Seq<char>, b: Seq<char>|
            #[trigger] (a + crate::text::join(exports, ", "@) + b) == violation(exports)->0,
{
    if let Some(m) = violation(exports) {
        let tail = "; expected interface `"@ + HANDLER_INTERFACE@ + "` or world `"@ + EMBER_WORLD@
            + "`"@;
        if exports.len() == 0 {
            assert("artifact exports "@ + "no exports at all"@ + tail =~= m);
        } else {
            let list = crate::text::join(exports, ", "@);
            let head = "artifact exports "@ + "only: "@;
            assert(head + list + tail =~= m);
        }
    }
}

/// The exports to take requests by are those of the first list followed by
/// those of the second; a single export is one of them exactly where it takes
/// requests.
pub proof fn law_request_exports_keep_their_order(
    a: Seq<Seq<char>>,
    b: Seq<Seq<char>>,
    name: Seq<char>,
)
    ensures
        entry_names(a + b) == entry_names(a) + entry_names(b),
        takes_requests(name) ==> entry_names(seq![name]) == seq![name],
        !takes_requests(name) ==> entry_names(seq![name]).len() == 0,
    decreases b.len(),
{
    reveal_with_fuel(entry_names, 2);
    assert(seq![name].drop_last() =~= Seq::<Seq<char>>::empty());
    assert(seq![name].last() == name);
    assert(Seq::<Seq<char>>::empty().push(name) =~= seq![name]);
    if b.len() == 0 {
        assert(a + b =~= a);
        assert(entry_names(a) + entry_names(b) =~= entry_names(a));
    } else {
        let init = b.drop_last();
        law_request_exports_keep_their_order(a, init, name);
        assert((a + b).drop_last() =~= a + init);
        assert((a + b).last() == b.last());
        assert((entry_names(a) + entry_names(init)).push(b.last()) =~= entry_names(a)
            + entry_names(init).push(b.last()));
    }
}

/// All that an artifact holds can be seen, and so can what loading returned.
pub proof fn law_artifacts_are_seen_whole(l: Loaded, e: Error)
    ensures
        l@.source == l.source@,
        l@.bytes == l.bytes@,
        l@.digest == l.digest@,
        l@.size == l.size,
        l@.world_id == crate::text::opt_view(l.world_id),
        l@.exports == crate::text::views(l.exports@),
        load_outcome(Ok(l)) == Ok::<LoadedView, ErrorView>(l@),
        load_outcome(Err(e)) == Err::<LoadedView, ErrorView>(e@),
{
}

/// A walk through a binary is seen section by section, and so are a verdict
/// and a walk that could not be finished.
pub proof fn law_walks_are_seen_whole(v: Vec<Section>, i: int, reason: String)
    requires
        0 <= i < v@.len(),
    ensures
        walk_view(Ok(v)) == Ok::<Seq<SectionView>, Seq<char>>(section_views(v@)),
        walk_view(Err(reason)) == Err::<Seq<SectionView>, Seq<char>>(reason@),
        verdict_view(Ok(())) is None,
        verdict_view(Err(reason)) == Some(reason@),
        section_views(v@).len() == v@.len(),
        section_views(v@)[i] == v@[i]@,
        match v@[i] {
            Section::Module => v@[i]@ is Module,
            Section::Component => v@[i]@ is Component,
            Section::NestedModule => v@[i]@ is NestedModule,
            Section::NestedComponent => v@[i]@ is NestedComponent,
            Section::Exports(names) => v@[i]@ == SectionView::Exports(
                crate::text::views(names@),
            ),
            Section::Other => v@[i]@ is Other,
            Section::End => v@[i]@ is End,
        },
{
}

} // verus!
