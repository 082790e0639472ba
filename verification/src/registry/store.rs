//! Content-addressable module store and hot-reload policy.
//!
//! [`ContentStore`] keeps component blobs in a directory, each under the
//! `sha256` of its content, and writes them atomically (temp file + fsync +
//! rename), so a crash can never expose a half-written artifact. [`PinSet`]
//! maps tenant → pinned digest so deploys are reproducible.
//! [`HotReloadPolicy`] decides when a refreshed digest is worth swapping in
//! and when to back off after repeated pull failures.
//!
//! The store decides which file a blob goes to and what the outcome of a file
//! operation means; the operations themselves are carried out by the caller.
//! The temporary file is named after the process alone, so a process puts one
//! blob after another.

use vstd::prelude::*;
use vstd::string::*;

use crate::error::{Error, ErrorView};
use crate::hash::{digest_hex, digest_text, DigestFault};
use crate::table::Table;
use crate::text::{chars, decimal_text, same, strip_prefix};
use crate::time::Duration;

verus! {

/// Compute the `sha256:<hex>` content digest of `blob`.
pub fn digest(blob: &[u8]) -> (s: String)
    ensures
        s@ == crate::hash::content_digest(blob@),
        crate::hash::is_digest(s@),
{
    digest_text(blob)
}

/// On-disk content-addressable store.
#[derive(Debug)]
pub struct ContentStore {
    root: String,
}

/// The path of the file `name` in the directory `root`.
pub open spec fn file_in(root: Seq<char>, name: Seq<char>) -> Seq<char> {
    if root.len() == 0 || root.last() == '/' {
        root + name
    } else {
        root + seq!['/'] + name
    }
}

/// The path of the file that the process with id `pid` writes first.
pub open spec fn temp_file(root: Seq<char>, pid: nat) -> Seq<char> {
    file_in(root, ".tmp-"@ + crate::text::decimal(pid))
}

/// The path of the blob with the given digest.
pub open spec fn blob_file(root: Seq<char>, digest: Seq<char>) -> Seq<char> {
    file_in(root, crate::hash::hex_part(digest))
}

/// The path of the blob with the given digest, or the error for a text that
/// is no digest.
pub open spec fn blob_location(root: Seq<char>, digest: Seq<char>) -> Result<Seq<char>, ErrorView> {
    if !crate::hash::has_scheme(digest) {
        Err(
            ErrorView::ComponentNotFound(
                "unsupported digest scheme in `"@ + digest + "`"@,
            ),
        )
    } else if !crate::hash::is_digest(digest) {
        Err(ErrorView::ComponentNotFound("malformed sha256 digest `"@ + digest + "`"@))
    } else {
        Ok(blob_file(root, digest))
    }
}

/// A located blob, or why it cannot be located.
pub open spec fn location_outcome(r: Result<String, Error>) -> Result<Seq<char>, ErrorView> {
    match r {
        Ok(s) => Ok(s@),
        Err(e) => Err(e@),
    }
}

/// Executable form of [`file_in`].
fn join_path(root: &str, name: &str) -> (s: String)
    ensures
        s@ == file_in(root@, name@),
{
    let cs: Vec<char> = chars(root);
    if cs.len() == 0 || cs[cs.len() - 1] == '/' {
        root.to_owned().concat(name)
    } else {
        proof {
            reveal_strlit("/");
            assert("/"@ =~= seq!['/']);
        }
        root.to_owned().concat("/").concat(name)
    }
}

/// Normalize a digest string to a safe filename. Digests are already
/// constrained to `sha256:<hex>`, but we refuse anything else outright.
fn sanitize_digest(digest: &str) -> (r: Result<String, Error>)
    ensures
        location_outcome(r) == (match blob_location(Seq::empty(), digest@) {
            Ok(_) => Ok(crate::hash::hex_part(digest@)),
            Err(e) => Err(e),
        }),
{
    match digest_hex(digest) {
        Ok(hex) => Ok(hex),
        Err(DigestFault::Scheme) => Err(
            Error::ComponentNotFound(
                "unsupported digest scheme in `".to_owned().concat(digest).concat("`"),
            ),
        ),
        Err(DigestFault::Hash) => Err(
            Error::ComponentNotFound(
                "malformed sha256 digest `".to_owned().concat(digest).concat("`"),
            ),
        ),
    }
}

/// Where a blob is to be written.
#[derive(Debug)]
pub struct PutPlan {
    /// The content digest of the blob.
    pub digest: String,
    /// The file the blob belongs in. Where it is there already, nothing is to
    /// be done.
    pub path: String,
    /// The file to write first. It lies in the same directory, so renaming it
    /// to `path` is atomic.
    pub temp: String,
}

/// What became of writing a blob.
#[derive(Debug)]
pub enum PutOutcome {
    /// The blob was there already.
    Present,
    /// The blob was written and renamed into place.
    Renamed,
    /// Another writer put the blob into place first.
    AlreadyExists,
    /// Creating, writing, syncing or renaming failed.
    Failed(String),
}

/// A directory entry: its name and its size in bytes.
pub type DirEntry = (String, u64);

/// The bytes of all entries but the temporary ones.
pub open spec fn usage(entries: Seq<DirEntry>) -> nat
    decreases entries.len(),
{
    if entries.len() == 0 {
        0
    } else {
        usage(entries.drop_last()) + if crate::text::starts_with(entries.last().0@, ".tmp"@) {
            0
        } else {
            entries.last().1 as nat
        }
    }
}

proof fn lemma_usage_grows(entries: Seq<DirEntry>, n: int)
    requires
        0 <= n <= entries.len(),
    ensures
        usage(entries.take(n)) <= usage(entries),
    decreases entries.len() - n,
{
    if n < entries.len() {
        lemma_usage_grows(entries, n + 1);
        assert(entries.take(n + 1).drop_last() =~= entries.take(n));
    } else {
        assert(entries.take(n) =~= entries);
    }
}

impl Clone for ContentStore {
    fn clone(&self) -> (s: ContentStore)
        ensures
            s == *self,
    {
        ContentStore { root: self.root.clone() }
    }
}

impl ContentStore {
    /// The directory of the store.
    pub closed spec fn dir(self) -> Seq<char> {
        self.root@
    }

    /// Open the store rooted at `root`, given what creating that directory
    /// returned.
    pub fn open(root: &str, created: Result<(), String>) -> (r: Result<ContentStore, Error>)
        ensures
            match created {
                Ok(()) => r is Ok && r->Ok_0.dir() == root@,
                Err(reason) => r is Err && r->Err_0@ == ErrorView::Io(reason@),
            },
    {
        match created {
            Ok(()) => Ok(ContentStore { root: root.to_owned() }),
            Err(reason) => Err(Error::Io(reason)),
        }
    }

    /// The directory of the store.
    pub fn root(&self) -> (s: &str)
        ensures
            s@ == self.dir(),
    {
        self.root.as_str()
    }

    /// Path a digest's blob lives at.
    pub fn blob_path(&self, digest: &str) -> (r: Result<String, Error>)
        ensures
            location_outcome(r) == blob_location(self.dir(), digest@),
    {
        match sanitize_digest(digest) {
            Ok(hex) => Ok(join_path(self.root.as_str(), hex.as_str())),
            Err(e) => Err(e),
        }
    }

    /// Where `blob` is to be written by the process with id `pid`.
    pub fn plan_put(&self, blob: &[u8], pid: u32) -> (p: PutPlan)
        ensures
            p.digest@ == crate::hash::content_digest(blob@),
            p.path@ == blob_file(self.dir(), crate::hash::content_digest(blob@)),
            p.temp@ == temp_file(self.dir(), pid as nat),
            blob_location(self.dir(), p.digest@) == Ok::<Seq<char>, ErrorView>(p.path@),
            // No digest ever leads to bytes with another digest.
            forall|files: Files|
                is_addressed(self.dir(), files) ==> #[trigger] is_addressed(
                    self.dir(),
                    after_put(self.dir(), files, blob@),
                ),
            // What is read back has the digest of the blob, and is the very
            // blob where nothing was kept under its digest before.
            forall|files: Files|
                is_addressed(self.dir(), files) ==> reads_back(
                    #[trigger] after_put(self.dir(), files, blob@),
                    p.path@,
                    blob@,
                    files.dom().contains(p.path@),
                ),
    {
        let digest: String = digest_text(blob);
        let path: String = match self.blob_path(digest.as_str()) {
            Ok(p) => p,
            Err(_) => {
                proof {
                    assert(false);
                }
                String::new()
            },
        };
        let name: String = ".tmp-".to_owned().concat(decimal_text(pid as u128).as_str());
        let temp: String = join_path(self.root.as_str(), name.as_str());
        proof {
            assert forall|files: Files| is_addressed(self.dir(), files) implies #[trigger]
                is_addressed(self.dir(), after_put(self.dir(), files, blob@)) by {
                lemma_put_keeps_store_addressed(self.dir(), files, blob@);
            }
            assert forall|files: Files| is_addressed(self.dir(), files) implies reads_back(
                #[trigger] after_put(self.dir(), files, blob@),
                path@,
                blob@,
                files.dom().contains(path@),
            ) by {
                lemma_put_keeps_store_addressed(self.dir(), files, blob@);
            }
        }
        PutPlan { digest, path, temp }
    }

    /// What writing `blob` returns, given what became of it: its content
    /// digest. Writing an already-present digest is a no-op (dedupe by
    /// content), and so is losing a race to another writer.
    pub fn put(&self, blob: &[u8], outcome: PutOutcome) -> (r: Result<String, Error>)
        ensures
            location_outcome(r) == (match outcome {
                PutOutcome::Failed(reason) => Err(ErrorView::Io(reason@)),
                _ => Ok(crate::hash::content_digest(blob@)),
            }),
            r is Ok ==> crate::hash::is_digest(r->Ok_0@),
    {
        match outcome {
            PutOutcome::Failed(reason) => Err(Error::Io(reason)),
            _ => Ok(digest_text(blob)),
        }
    }

    /// What reading the blob for `digest` returns, given what its file holds:
    /// `None` where it could not be read.
    pub fn get(&self, digest: &str, held: Option<Vec<u8>>) -> (r: Result<Vec<u8>, Error>)
        ensures
            crate::error::outcome(r) == (match blob_location(self.dir(), digest@) {
                Err(e) => Err(e),
                Ok(_) => match held {
                    Some(bytes) => Ok(bytes),
                    None => Err(ErrorView::ComponentNotFound(digest@)),
                },
            }),
    {
        match self.blob_path(digest) {
            Err(e) => Err(e),
            Ok(_) => match held {
                Some(bytes) => Ok(bytes),
                None => Err(Error::ComponentNotFound(digest.to_owned())),
            },
        }
    }

    /// Whether `digest` is present locally, given whether its file exists. A
    /// text that is no digest never is.
    pub fn contains(&self, digest: &str, file_exists: bool) -> (r: bool)
        ensures
            r == (crate::hash::is_digest(digest@) && file_exists),
    {
        match self.blob_path(digest) {
            Ok(_) => file_exists,
            Err(_) => false,
        }
    }

    /// Total bytes on disk, for metrics and GC sizing, given the entries of
    /// the directory. Temporary files do not count.
    pub fn disk_usage(&self, entries: Result<Vec<DirEntry>, String>) -> (r: Result<u64, Error>)
        requires
            entries is Ok ==> usage(entries->Ok_0@) <= u64::MAX,
        ensures
            crate::error::outcome(r) == (match entries {
                Ok(v) => Ok(usage(v@) as u64),
                Err(reason) => Err(ErrorView::Io(reason@)),
            }),
    {
        let v: Vec<DirEntry> = match entries {
            Ok(v) => v,
            Err(reason) => {
                return Err(Error::Io(reason));
            },
        };
        let mark: Vec<char> = chars(".tmp");
        let mut total: u64 = 0;
        let mut i: usize = 0;
        while i < v.len()
            invariant
                i <= v@.len(),
                mark@ == ".tmp"@,
                total == usage(v@.take(i as int)),
                usage(v@) <= u64::MAX,
            decreases v@.len() - i,
        {
            proof {
                assert(v@.take(i + 1).drop_last() =~= v@.take(i as int));
                lemma_usage_grows(v@, i + 1);
            }
            let name: Vec<char> = chars(v[i].0.as_str());
            if strip_prefix(name.as_slice(), mark.as_slice()).is_none() {
                total = total + v[i].1;
            }
            i = i + 1;
        }
        proof {
            assert(v@.take(i as int) =~= v@);
        }
        Ok(total)
    }
}

/// The files of a directory, by path.
pub type Files = Map<Seq<char>, Seq<u8>>;

/// The files after `blob` was put into the store at `root`: the blob under
/// its digest, unless a file was there already.
pub open spec fn after_put(root: Seq<char>, files: Files, blob: Seq<u8>) -> Files {
    let path = blob_file(root, crate::hash::content_digest(blob));
    if files.dom().contains(path) {
        files
    } else {
        files.insert(path, blob)
    }
}

/// Whether every blob in the store at `root` has the digest it is kept under.
pub open spec fn is_addressed(root: Seq<char>, files: Files) -> bool {
    forall|d: Seq<char>|
        crate::hash::is_digest(d) && files.dom().contains(#[trigger] blob_file(root, d))
            ==> crate::hash::content_digest(files[blob_file(root, d)]) == d
}

/// Whether the file at `path` holds bytes with the digest of `blob`, and the
/// blob itself unless the file was there `before` it was put.
pub open spec fn reads_back(files: Files, path: Seq<char>, blob: Seq<u8>, before: bool) -> bool {
    &&& files.dom().contains(path)
    &&& crate::hash::content_digest(files[path]) == crate::hash::content_digest(blob)
    &&& !before ==> files[path] == blob
}

/// The name of the file at `path` in the directory `root`.
pub open spec fn name_in(root: Seq<char>, path: Seq<char>) -> Seq<char> {
    path.skip(file_in(root, Seq::empty()).len() as int)
}

proof fn lemma_name_in(root: Seq<char>, name: Seq<char>)
    ensures
        name_in(root, file_in(root, name)) == name,
{
    assert(name_in(root, file_in(root, name)) =~= name);
}

/// Whether the file at `path` is a temporary one.
pub open spec fn is_temporary(root: Seq<char>, path: Seq<char>) -> bool {
    crate::text::starts_with(name_in(root, path), ".tmp"@)
}

/// The files that are no temporary ones.
pub open spec fn lasting(root: Seq<char>, files: Files) -> Files {
    files.restrict(Set::new(|p: Seq<char>| !is_temporary(root, p)))
}

/// Whether `entries` list the directory `root` with just these files, each of
/// them once and with its size.
pub open spec fn is_listing(root: Seq<char>, files: Files, entries: Seq<DirEntry>) -> bool {
    &&& forall|i: int|
        0 <= i < entries.len() ==> {
            let p = file_in(root, (#[trigger] entries[i]).0@);
            files.dom().contains(p) && files[p].len() == entries[i].1
        }
    &&& forall|i: int, j: int|
        0 <= i < j < entries.len() ==> (#[trigger] entries[i]).0@ != (#[trigger] entries[j]).0@
    &&& forall|p: Seq<char>| #[trigger]
        files.dom().contains(p) ==> exists|i: int|
            0 <= i < entries.len() && p == file_in(root, (#[trigger] entries[i]).0@)
}

/// The usage that a listing shows is that of the files that last.
proof fn lemma_usage_of_listing(root: Seq<char>, files: Files, entries: Seq<DirEntry>)
    requires
        is_listing(root, files, entries),
    ensures
        files.dom().finite(),
        usage(entries) == crate::wasi::sandbox::total_bytes(lasting(root, files)),
    decreases entries.len(),
{
    if entries.len() == 0 {
        assert(files.dom() =~= Set::empty());
        assert(lasting(root, files).dom() =~= Set::empty());
    } else {
        let init = entries.drop_last();
        let name = entries.last().0@;
        let p = file_in(root, name);
        let rest = files.remove(p);
        lemma_name_in(root, name);
        assert(entries[entries.len() - 1] == entries.last());
        assert forall|i: int| 0 <= i < init.len() implies {
            let q = file_in(root, (#[trigger] init[i]).0@);
            rest.dom().contains(q) && rest[q].len() == init[i].1
        } by {
            assert(init[i] == entries[i]);
            lemma_name_in(root, init[i].0@);
        }
        assert forall|q: Seq<char>| #[trigger] rest.dom().contains(q) implies exists|i: int|
            0 <= i < init.len() && q == file_in(root, (#[trigger] init[i]).0@) by {
            assert(files.dom().contains(q));
            let i = choose|i: int|
                0 <= i < entries.len() && q == file_in(root, (#[trigger] entries[i]).0@);
            assert(init[i] == entries[i]);
        }
        lemma_usage_of_listing(root, rest, init);
        assert(files.dom() =~= rest.dom().insert(p));
        let all = lasting(root, files);
        assert(all.dom().subset_of(files.dom()));
        vstd::set_lib::lemma_set_subset_finite(files.dom(), all.dom());
        if is_temporary(root, p) {
            assert(lasting(root, rest) =~= all);
        } else {
            assert(lasting(root, rest) =~= all.remove(p));
            crate::wasi::sandbox::lemma_total_remove(all, p);
        }
    }
}

/// The files after the one at `from` was renamed to `to`.
pub open spec fn renamed(files: Files, from: Seq<char>, to: Seq<char>) -> Files {
    files.remove(from).insert(to, files[from])
}

/// The files after a [`PutPlan`] for `blob` was carried out: where the blob is
/// not there yet, it is written to the temporary file, which is then renamed.
pub open spec fn carried_out(
    files: Files,
    blob: Seq<u8>,
    path: Seq<char>,
    temp: Seq<char>,
) -> Files {
    if files.dom().contains(path) {
        files
    } else {
        renamed(files.insert(temp, blob), temp, path)
    }
}

/// The file of a blob is no temporary one.
proof fn lemma_blob_is_lasting(root: Seq<char>, blob: Seq<u8>)
    ensures
        !is_temporary(root, blob_file(root, crate::hash::content_digest(blob))),
{
    let digest = crate::hash::content_digest(blob);
    let hex = crate::hash::hex_of(crate::hash::sha256_of(blob));
    reveal_strlit(".tmp");
    crate::hash::lemma_hex(crate::hash::sha256_of(blob));
    assert(crate::hash::hex_part(digest) =~= hex);
    lemma_name_in(root, hex);
    if crate::text::starts_with(hex, ".tmp"@) {
        assert(hex.take(4)[0] == hex[0]);
        assert(crate::text::is_hex_digit(hex[0]));
    }
}

/// Carrying out the plan for a blob puts the blob into place and leaves no
/// temporary file behind, where none was left before it.
pub proof fn law_put_leaves_no_temporary_file(
    root: Seq<char>,
    files: Files,
    blob: Seq<u8>,
    pid: nat,
)
    requires
        forall|p: Seq<char>| #[trigger] files.dom().contains(p) ==> !is_temporary(root, p),
    ensures
        ({
            let path = blob_file(root, crate::hash::content_digest(blob));
            let next = carried_out(files, blob, path, temp_file(root, pid));
            &&& next == after_put(root, files, blob)
            &&& forall|p: Seq<char>| #[trigger] next.dom().contains(p) ==> !is_temporary(root, p)
        }),
{
    let path = blob_file(root, crate::hash::content_digest(blob));
    let temp = temp_file(root, pid);
    let name = ".tmp-"@ + crate::text::decimal(pid);
    lemma_blob_is_lasting(root, blob);
    lemma_name_in(root, name);
    reveal_strlit(".tmp");
    reveal_strlit(".tmp-");
    assert(name.take(4) =~= ".tmp"@);
    assert(is_temporary(root, temp));
    let next = carried_out(files, blob, path, temp);
    assert(next =~= after_put(root, files, blob));
}

/// Putting a blob that is not there yet adds exactly its length to the disk
/// usage, and putting one that is there leaves the usage as it is. `before`
/// and `after` list the directory before and after the put, in any order.
pub proof fn law_put_grows_usage_by_its_blob(
    root: Seq<char>,
    files: Files,
    blob: Seq<u8>,
    before: Seq<DirEntry>,
    after: Seq<DirEntry>,
)
    requires
        is_listing(root, files, before),
        is_listing(root, after_put(root, files, blob), after),
    ensures
        usage(after) == (if files.dom().contains(
            blob_file(root, crate::hash::content_digest(blob)),
        ) {
            usage(before)
        } else {
            usage(before) + blob.len()
        }),
{
    let path = blob_file(root, crate::hash::content_digest(blob));
    let next = after_put(root, files, blob);
    lemma_usage_of_listing(root, files, before);
    lemma_usage_of_listing(root, next, after);
    lemma_blob_is_lasting(root, blob);
    if !files.dom().contains(path) {
        let kept = lasting(root, files);
        assert(kept.dom().subset_of(files.dom()));
        vstd::set_lib::lemma_set_subset_finite(files.dom(), kept.dom());
        assert(lasting(root, next) =~= kept.insert(path, blob));
        crate::wasi::sandbox::lemma_total_insert(kept, path, blob);
    }
}

/// Two digests never share a file.
pub proof fn law_blob_files_are_distinct(root: Seq<char>, a: Seq<char>, b: Seq<char>)
    requires
        crate::hash::has_scheme(a),
        crate::hash::has_scheme(b),
        blob_file(root, a) == blob_file(root, b),
    ensures
        a == b,
{
    let x = crate::hash::hex_part(a);
    let y = crate::hash::hex_part(b);
    lemma_name_in(root, x);
    lemma_name_in(root, y);
    let scheme = "sha256:"@;
    assert(a =~= a.take(scheme.len() as int) + x);
    assert(b =~= b.take(scheme.len() as int) + y);
}

/// Putting a blob keeps the store addressed by content.
proof fn lemma_put_keeps_store_addressed(root: Seq<char>, files: Files, blob: Seq<u8>)
    requires
        is_addressed(root, files),
        crate::hash::is_digest(crate::hash::content_digest(blob)),
    ensures
        is_addressed(root, after_put(root, files, blob)),
{
    let own = crate::hash::content_digest(blob);
    let next = after_put(root, files, blob);
    assert forall|d: Seq<char>|
        crate::hash::is_digest(d) && next.dom().contains(
            #[trigger] blob_file(root, d),
        ) implies crate::hash::content_digest(next[blob_file(root, d)]) == d by {
        if blob_file(root, d) == blob_file(root, own) {
            law_blob_files_are_distinct(root, d, own);
        }
    }
}

/// Putting the same content twice stores it once, no put touches a file that
/// was there before, and what is found under every other digest is as before.
pub proof fn law_put_dedupes(root: Seq<char>, files: Files, blob: Seq<u8>)
    ensures
        after_put(root, after_put(root, files, blob), blob) == after_put(root, files, blob),
        forall|p: Seq<char>| #[trigger]
            files.dom().contains(p) ==> after_put(root, files, blob).dom().contains(p)
                && after_put(root, files, blob)[p] == files[p],
        forall|d: Seq<char>|
            crate::hash::is_digest(d) && d != crate::hash::content_digest(blob) ==> after_put(
                root,
                files,
                blob,
            ).dom().contains(#[trigger] blob_file(root, d)) == files.dom().contains(
                blob_file(root, d),
            ),
{
    let own = crate::hash::content_digest(blob);
    let next = after_put(root, files, blob);
    let scheme = "sha256:"@;
    assert(own.take(scheme.len() as int) =~= scheme);
    assert forall|d: Seq<char>| crate::hash::is_digest(d) && d != own implies next.dom().contains(
        #[trigger] blob_file(root, d),
    ) == files.dom().contains(blob_file(root, d)) by {
        if blob_file(root, d) == blob_file(root, own) {
            law_blob_files_are_distinct(root, d, own);
        }
    }
}

/// tenant/reference → pinned digest. A pin freezes a deployment: the runtime
/// will refuse to activate a component whose digest does not match.
#[derive(Debug)]
pub struct PinSet {
    pins: Table<String>,
}

impl Clone for PinSet {
    fn clone(&self) -> (p: PinSet)
        ensures
            p.pins() == self.pins(),
    {
        PinSet { pins: self.pins.clone() }
    }
}

impl Default for PinSet {
    fn default() -> (p: PinSet)
        ensures
            p.pins() == Map::<Seq<char>, Seq<char>>::empty(),
    {
        let pins: Table<String> = Table::new();
        proof {
            assert(crate::wasi::sandbox::texts(pins@) =~= Map::<Seq<char>, Seq<char>>::empty());
        }
        PinSet { pins }
    }
}

impl PinSet {
    /// The pinned digests by key.
    pub closed spec fn pins(self) -> Map<Seq<char>, Seq<char>> {
        crate::wasi::sandbox::texts(self.pins@)
    }

    /// Record a pin for `key`.
    pub fn pin(&mut self, key: &str, digest: &str)
        ensures
            final(self).pins() == old(self).pins().insert(key@, digest@),
    {
        let ghost before = self.pins();
        self.pins.insert(key.to_owned(), digest.to_owned());
        proof {
            assert(self.pins() =~= before.insert(key@, digest@));
        }
    }

    /// The pinned digest for `key`, if any.
    pub fn resolve(&self, key: &str) -> (r: Option<&str>)
        ensures
            match r {
                Some(d) => self.pins().dom().contains(key@) && d@ == self.pins()[key@],
                None => !self.pins().dom().contains(key@),
            },
    {
        match self.pins.get(key) {
            Some(d) => Some(d.as_str()),
            None => None,
        }
    }

    /// Remove the pin for `key` if it currently equals `digest` (compare-and-
    /// unpin so a racing redeploy cannot clear a newer pin).
    pub fn unpin(&mut self, key: &str, digest: &str) -> (r: bool)
        ensures
            r == (old(self).pins().dom().contains(key@) && old(self).pins()[key@] == digest@),
            final(self).pins() == (if r {
                old(self).pins().remove(key@)
            } else {
                old(self).pins()
            }),
    {
        let held: bool = match self.pins.get(key) {
            Some(d) => same(d.as_str(), digest),
            None => false,
        };
        if held {
            let ghost before = self.pins();
            self.pins.remove(key);
            proof {
                assert(self.pins() =~= before.remove(key@));
            }
        }
        held
    }
}

/// When and how the runtime re-resolves and swaps tenant components.
#[derive(Debug, Clone, Copy, PartialEq, Eq, Structural)]
pub struct HotReloadPolicy {
    /// How often the reload loop re-resolves OCI references.
    pub poll_interval: Duration,
    /// Minimum gap between two swaps for the same tenant (rate limit).
    pub debounce: Duration,
    /// Refuse to activate an unpinned tag once a tenant has a pin.
    pub require_pinned: bool,
    /// Consecutive pull failures before the tenant is parked with an error.
    pub max_failed_polls: usize,
}

impl Default for HotReloadPolicy {
    fn default() -> (p: HotReloadPolicy)
        ensures
            p.poll_interval.nanos() == 30_000_000_000,
            p.debounce.nanos() == 5_000_000_000,
            !p.require_pinned,
            p.max_failed_polls == 3,
    {
        HotReloadPolicy {
            poll_interval: Duration::from_secs(30),
            debounce: Duration::from_secs(5),
            require_pinned: false,
            max_failed_polls: 3,
        }
    }
}

/// Whether going from the digest `prev` to `next` changes anything.
pub open spec fn is_change(prev: Option<Seq<char>>, next: Seq<char>) -> bool {
    prev != Some(next)
}

/// The characters of an optional text.
pub open spec fn opt_chars(s: Option<&str>) -> Option<Seq<char>> {
    match s {
        Some(t) => Some(t@),
        None => None,
    }
}

impl HotReloadPolicy {
    /// Whether `failures` consecutive failed polls exhaust the budget.
    pub open spec fn spent(self, failures: nat) -> bool {
        failures >= self.max_failed_polls
    }

    /// Whether switching from `prev` to `next` is worth doing.
    pub fn should_reload(&self, prev: Option<&str>, next: &str) -> (r: bool)
        ensures
            r == is_change(opt_chars(prev), next@),
    {
        match prev {
            Some(p) => !same(p, next),
            None => true,
        }
    }

    /// Whether `failures` consecutive failed polls exhaust the budget.
    pub fn exhausted(&self, failures: usize) -> (r: bool)
        ensures
            r == self.spent(failures as nat),
    {
        failures >= self.max_failed_polls
    }
}

/// A file lies directly in its directory: its path is the directory, one
/// slash, and its name.
pub proof fn law_files_lie_in_their_directory(root: Seq<char>, name: Seq<char>)
    requires
        root.len() > 0,
        root.last() != '/',
    ensures
        file_in(root, name).len() == root.len() + 1 + name.len(),
        file_in(root, name).take(root.len() as int) == root,
        file_in(root, name)[root.len() as int] == '/',
        file_in(root, name).skip(root.len() as int + 1) == name,
        file_in(root.push('/'), name) == file_in(root, name),
        file_in(Seq::empty(), name) == name,
{
    let path = file_in(root, name);
    assert(path.take(root.len() as int) =~= root);
    assert(path.skip(root.len() as int + 1) =~= name);
    assert(root.push('/').last() == '/');
    assert(file_in(root.push('/'), name) =~= path);
    assert(file_in(Seq::empty(), name) =~= name);
}

/// Two processes never write to the same temporary file, and what they write
/// to is told apart from blobs by its name.
pub proof fn law_temporary_files_are_apart(root: Seq<char>, pid: nat, other: nat)
    ensures
        temp_file(root, pid) == temp_file(root, other) ==> pid == other,
        is_temporary(root, temp_file(root, pid)),
        name_in(root, temp_file(root, pid)) == ".tmp-"@ + crate::text::decimal(pid),
{
    let a = ".tmp-"@ + crate::text::decimal(pid);
    let b = ".tmp-"@ + crate::text::decimal(other);
    lemma_name_in(root, a);
    lemma_name_in(root, b);
    reveal_strlit(".tmp");
    reveal_strlit(".tmp-");
    assert(a.take(4) =~= ".tmp"@);
    if temp_file(root, pid) == temp_file(root, other) {
        assert(a.skip(5) =~= crate::text::decimal(pid));
        assert(b.skip(5) =~= crate::text::decimal(other));
        crate::text::lemma_decimal(pid);
        crate::text::lemma_decimal(other);
    }
}

/// A blob can be located exactly by a digest, and then lies in the directory
/// under the hexadecimal digits of it; any other text is reported as not
/// found, by name.
pub proof fn law_only_digests_are_located(root: Seq<char>, digest: Seq<char>)
    ensures
        blob_location(root, digest) is Ok <==> crate::hash::is_digest(digest),
        blob_location(root, digest) matches Ok(p) ==> p == file_in(root, digest.skip(7)),
        blob_location(root, digest) matches Err(e) ==> e is ComponentNotFound && exists|
            a: Seq<char>,
            b: Seq<char>,
        | #[trigger] (a + digest + b) == e->ComponentNotFound_0,
{
    reveal_strlit("sha256:");
    if !crate::hash::has_scheme(digest) {
        assert("unsupported digest scheme in `"@ + digest + "`"@ == blob_location(
            root,
            digest,
        )->Err_0->ComponentNotFound_0);
    } else if !crate::hash::is_digest(digest) {
        assert("malformed sha256 digest `"@ + digest + "`"@ == blob_location(
            root,
            digest,
        )->Err_0->ComponentNotFound_0);
    }
}

/// Every entry counts with its size but the temporary ones, which do not
/// count: the usage of two lists is the sum of theirs.
pub proof fn law_usage_is_a_sum(a: Seq<DirEntry>, b: Seq<DirEntry>, e: DirEntry)
    ensures
        usage(a + b) == usage(a) + usage(b),
        usage(seq![e]) == (if exists|rest: Seq<char>| #[trigger] (".tmp"@ + rest) == e.0@ {
            0
        } else {
            e.1 as nat
        }),
    decreases b.len(),
{
    reveal_with_fuel(usage, 2);
    assert(seq![e].drop_last() =~= Seq::<DirEntry>::empty());
    assert(seq![e].last() == e);
    crate::text::law_prefix_and_rest(e.0@, ".tmp"@);
    if b.len() == 0 {
        assert(a + b =~= a);
    } else {
        law_usage_is_a_sum(a, b.drop_last(), e);
        assert((a + b).drop_last() =~= a + b.drop_last());
        assert((a + b).last() == b.last());
    }
}

/// A put adds the blob under its digest where nothing is there yet, and
/// nothing else.
pub proof fn law_put_adds_the_blob_alone(
    root: Seq<char>,
    files: Files,
    blob: Seq<u8>,
    path: Seq<char>,
)
    ensures
        ({
            let own = file_in(root, crate::hash::content_digest(blob).skip(7));
            let next = after_put(root, files, blob);
            &&& next.dom().contains(own)
            &&& !files.dom().contains(own) ==> next[own] == blob
            &&& files.dom().contains(path) ==> next.dom().contains(path) && next[path]
                == files[path]
            &&& next.dom().contains(path) && path != own ==> files.dom().contains(path)
        }),
{
    reveal_strlit("sha256:");
}

/// A switch is worth doing exactly where nothing was active or what was active
/// is another digest; the budget of failed polls is used up from its last
/// failure on.
pub proof fn law_reload_decisions(
    policy: HotReloadPolicy,
    prev: Seq<char>,
    next: Seq<char>,
    failures: nat,
)
    ensures
        is_change(None, next),
        is_change(Some(prev), next) <==> prev != next,
        policy.spent(policy.max_failed_polls as nat + failures),
        failures < policy.max_failed_polls ==> !policy.spent(failures),
{
}

/// Where a blob lies, or why it cannot be located, is seen as it is.
pub proof fn law_locations_are_seen_whole(path: String, e: Error, name: &str)
    ensures
        location_outcome(Ok(path)) == Ok::<Seq<char>, ErrorView>(path@),
        location_outcome(Err(e)) == Err::<Seq<char>, ErrorView>(e@),
        opt_chars(Some(name)) == Some(name@),
        opt_chars(None) is None,
{
}

} // verus!
