//! Per-tenant sandbox construction and resource accounting.
//!
//! Every tenant runs inside a [`Sandbox`] that carries three independent
//! enforcement mechanisms:
//!
//! 1. **Engine-level ceilings** ([`SandboxLimits`]), clamped into the pooled
//!    allocator at engine build time (memory, instances, tables).
//! 2. **Dispatch-level budgets**: wall clock and body size.
//! 3. **Host-accounted scratch storage** ([`MemFs`]), a byte-quota'd
//!    in-memory filesystem exposed to guests through the
//!    `ember:runtime/tenant` interface rather than a raw WASI preopen.
//!
//! The runtime deliberately does *not* grant a WASI filesystem preopen to
//! tenants. State that must persist across invocations lives in [`MemFs`],
//! which the host can account for, evict, and never spills to disk.

use vstd::prelude::*;
use vstd::string::*;

use crate::error::{Error, ErrorView};
use crate::http::bridge::EgressPolicy;
use crate::runtime::TenantId;
use crate::table::Table;
use crate::text::{chars, copied, decimal_text, split_at_each, text};
use crate::time::Duration;

verus! {

/// Per-tenant resource ceiling.
#[derive(Debug)]
pub struct SandboxLimits {
    /// Guest linear-memory ceiling (pooled allocator).
    pub max_memory_bytes: usize,
    /// Concurrent instances this tenant may keep in its pool.
    pub max_instances: usize,
    /// Tables (function/reference tables) per instance.
    pub max_tables: usize,
    /// Max epoch budget per invocation (ticks of the engine epoch counter).
    pub max_epoch_delta: u64,
    /// Max wall-clock time per invocation.
    pub max_wall_duration: Duration,
    /// Max request/response body size for this tenant.
    pub max_body_bytes: usize,
    /// Byte quota for the tenant scratch filesystem.
    pub memfs_quota_bytes: usize,
    /// Logical CPU weight (reserved; currently informational).
    pub cpus: u32,
    /// Egress allowlist entries (`https://host`, `*.example.com`).
    pub egress_allow: Vec<String>,
    /// Deny outbound HTTP not matched by `egress_allow`.
    pub default_deny_egress: bool,
}

/// What [`SandboxLimits`] say.
pub struct LimitsView {
    pub max_memory_bytes: usize,
    pub max_instances: usize,
    pub max_tables: usize,
    pub max_epoch_delta: u64,
    pub max_wall_duration: Duration,
    pub max_body_bytes: usize,
    pub memfs_quota_bytes: usize,
    pub cpus: u32,
    pub egress_allow: Seq<Seq<char>>,
    pub default_deny_egress: bool,
}

impl View for SandboxLimits {
    type V = LimitsView;

    open spec fn view(&self) -> LimitsView {
        LimitsView {
            max_memory_bytes: self.max_memory_bytes,
            max_instances: self.max_instances,
            max_tables: self.max_tables,
            max_epoch_delta: self.max_epoch_delta,
            max_wall_duration: self.max_wall_duration,
            max_body_bytes: self.max_body_bytes,
            memfs_quota_bytes: self.memfs_quota_bytes,
            cpus: self.cpus,
            egress_allow: crate::text::views(self.egress_allow@),
            default_deny_egress: self.default_deny_egress,
        }
    }
}

/// What is wrong with limits that no tenant can run under.
pub open spec fn limits_fault(l: LimitsView) -> Option<Seq<char>> {
    if l.max_memory_bytes == 0 {
        Some("max_memory_bytes must be > 0"@)
    } else if l.max_wall_duration.nanos() == 0 {
        Some("max_wall_duration must be > 0"@)
    } else if l.max_instances == 0 {
        Some("max_instances must be > 0"@)
    } else if l.memfs_quota_bytes == 0 {
        Some("memfs_quota_bytes must be > 0"@)
    } else {
        None
    }
}

/// The smaller of two sizes.
pub open spec fn least(a: usize, b: usize) -> usize {
    if a <= b {
        a
    } else {
        b
    }
}

/// Limits clamped into an engine budget.
pub open spec fn clamped(l: LimitsView, memory: usize, instances: usize) -> LimitsView {
    LimitsView {
        max_memory_bytes: least(l.max_memory_bytes, memory),
        max_instances: least(l.max_instances, instances),
        max_epoch_delta: if l.max_epoch_delta == 0 {
            1
        } else {
            l.max_epoch_delta
        },
        ..l
    }
}

impl Default for SandboxLimits {
    fn default() -> (l: SandboxLimits)
        ensures
            l@.max_memory_bytes == 128 * 1024 * 1024,
            l@.max_instances == 8,
            l@.max_tables == 32,
            l@.max_epoch_delta == 10_000_000,
            l@.max_wall_duration.nanos() == 10_000_000_000,
            l@.max_body_bytes == 8 * 1024 * 1024,
            l@.memfs_quota_bytes == 4 * 1024 * 1024,
            l@.cpus == 1,
            l@.egress_allow == Seq::<Seq<char>>::empty(),
            l@.default_deny_egress,
    {
        let l = SandboxLimits {
            max_memory_bytes: 128 * 1024 * 1024,
            max_instances: 8,
            max_tables: 32,
            max_epoch_delta: 10_000_000,
            max_wall_duration: Duration::from_secs(10),
            max_body_bytes: 8 * 1024 * 1024,
            memfs_quota_bytes: 4 * 1024 * 1024,
            cpus: 1,
            egress_allow: Vec::new(),
            default_deny_egress: true,
        };
        proof {
            assert(l@.egress_allow =~= Seq::<Seq<char>>::empty());
        }
        l
    }
}

impl Clone for SandboxLimits {
    fn clone(&self) -> (l: SandboxLimits)
        ensures
            l@ == self@,
    {
        SandboxLimits {
            max_memory_bytes: self.max_memory_bytes,
            max_instances: self.max_instances,
            max_tables: self.max_tables,
            max_epoch_delta: self.max_epoch_delta,
            max_wall_duration: self.max_wall_duration,
            max_body_bytes: self.max_body_bytes,
            memfs_quota_bytes: self.memfs_quota_bytes,
            cpus: self.cpus,
            egress_allow: copied(&self.egress_allow),
            default_deny_egress: self.default_deny_egress,
        }
    }
}

impl SandboxLimits {
    /// Reject self-contradictory limits before they reach the engine.
    pub fn validate(&self) -> (r: Result<(), Error>)
        ensures
            crate::error::outcome(r) == (match limits_fault(self@) {
                None => Ok(()),
                Some(fault) => Err(ErrorView::LimitExceeded(fault)),
            }),
    {
        if self.max_memory_bytes == 0 {
            return Err(Error::LimitExceeded("max_memory_bytes must be > 0".to_owned()));
        }
        if self.max_wall_duration.is_zero() {
            return Err(Error::LimitExceeded("max_wall_duration must be > 0".to_owned()));
        }
        if self.max_instances == 0 {
            return Err(Error::LimitExceeded("max_instances must be > 0".to_owned()));
        }
        if self.memfs_quota_bytes == 0 {
            return Err(Error::LimitExceeded("memfs_quota_bytes must be > 0".to_owned()));
        }
        Ok(())
    }

    /// Clamp this tenant's limits into the engine's global budget so a single
    /// tenant can never over-provision the shared instance pool.
    pub fn clamp_to(&mut self, engine_max_mem: usize, engine_max_instances: usize)
        ensures
            final(self)@ == clamped(old(self)@, engine_max_mem, engine_max_instances),
    {
        if self.max_memory_bytes > engine_max_mem {
            self.max_memory_bytes = engine_max_mem;
        }
        if self.max_instances > engine_max_instances {
            self.max_instances = engine_max_instances;
        }
        if self.max_epoch_delta == 0 {
            self.max_epoch_delta = 1;
        }
    }

    /// Derive the egress policy object used by the HTTP bridge.
    pub fn egress_policy(&self) -> (p: EgressPolicy)
        ensures
            p.rules() == self@.egress_allow,
            p.default_deny == self@.default_deny_egress,
    {
        EgressPolicy { allow: copied(&self.egress_allow), default_deny: self.default_deny_egress }
    }
}

/// Clamped limits stay inside the engine budget, never grow, and remain
/// valid where they were valid and the budget is not empty.
pub proof fn law_clamp_stays_in_budget(l: LimitsView, memory: usize, instances: usize)
    ensures
        clamped(l, memory, instances).max_memory_bytes <= memory,
        clamped(l, memory, instances).max_memory_bytes <= l.max_memory_bytes,
        clamped(l, memory, instances).max_instances <= instances,
        clamped(l, memory, instances).max_instances <= l.max_instances,
        clamped(l, memory, instances).max_epoch_delta >= 1,
        limits_fault(l) is None && memory > 0 && instances > 0 ==> limits_fault(
            clamped(l, memory, instances),
        ) is None,
{
}

/// Clamping a second time changes nothing.
pub proof fn law_clamp_is_idempotent(l: LimitsView, memory: usize, instances: usize)
    ensures
        clamped(clamped(l, memory, instances), memory, instances) == clamped(l, memory, instances),
{
}

/// Whether a piece of a path between two slashes names something: empty
/// pieces and a `.` behind the first place do not.
pub open spec fn counts(piece: Seq<char>, place: int) -> bool {
    piece.len() > 0 && (piece != seq!['.'] || place == 0)
}

/// The pieces of a path that name something, in order.
pub open spec fn named_pieces(pieces: Seq<Seq<char>>) -> Seq<Seq<char>>
    decreases pieces.len(),
{
    if pieces.len() == 0 {
        Seq::empty()
    } else {
        let before = named_pieces(pieces.drop_last());
        if counts(pieces.last(), pieces.len() - 1) {
            before.push(pieces.last())
        } else {
            before
        }
    }
}

/// Whether a path starts at the root.
pub open spec fn is_rooted(path: Seq<char>) -> bool {
    path.len() > 0 && path[0] == '/'
}

/// The one spelling that all spellings of a path share: `a//b`, `a/./b` and
/// `a/b/` all name `a/b`.
pub open spec fn path_key(path: Seq<char>) -> Seq<char> {
    let parts = crate::text::join(named_pieces(crate::text::split(path, '/')), seq!['/']);
    if is_rooted(path) {
        seq!['/'] + parts
    } else {
        parts
    }
}

/// Whether a path can hold a scratch file: it is neither empty nor absolute.
pub open spec fn is_scratch_path(path: Seq<char>) -> bool {
    path.len() > 0 && !is_rooted(path)
}

/// Executable form of [`is_scratch_path`].
pub fn scratch_path(path: &str) -> (r: bool)
    ensures
        r == is_scratch_path(path@),
{
    let cs: Vec<char> = chars(path);
    cs.len() > 0 && cs[0] != '/'
}

/// Executable form of [`path_key`].
fn key_of(path: &str) -> (s: String)
    ensures
        s@ == path_key(path@),
{
    let cs: Vec<char> = chars(path);
    let pieces: Vec<Vec<char>> = split_at_each(cs.as_slice(), '/');
    let ghost all = crate::text::pieces(pieces@);
    let mut named: Vec<String> = Vec::new();
    let mut i: usize = 0;
    while i < pieces.len()
        invariant
            i <= pieces@.len(),
            all == crate::text::pieces(pieces@),
            crate::text::views(named@) == named_pieces(all.take(i as int)),
        decreases pieces@.len() - i,
    {
        let piece: &Vec<char> = &pieces[i];
        let dot: bool = piece.len() == 1 && piece[0] == '.';
        let ghost before = crate::text::views(named@);
        proof {
            assert(all.take(i + 1).drop_last() =~= all.take(i as int));
            assert(all.take(i + 1).last() == piece@);
            assert(dot ==> piece@ =~= seq!['.']);
        }
        if piece.len() > 0 && (!dot || i == 0) {
            named.push(text(piece.as_slice()));
            proof {
                assert(crate::text::views(named@) =~= before.push(piece@));
            }
        }
        i = i + 1;
    }
    proof {
        assert(all.take(i as int) =~= all);
        reveal_strlit("/");
        assert("/"@ =~= seq!['/']);
    }
    let parts: String = crate::text::joined(named.as_slice(), "/");
    if cs.len() > 0 && cs[0] == '/' {
        "/".to_owned().concat(parts.as_str())
    } else {
        parts
    }
}

/// The number of bytes in all files together.
pub open spec fn total_bytes(files: Map<Seq<char>, Seq<u8>>) -> nat
    decreases files.dom().len(),
{
    if files.dom().finite() && files.dom().len() > 0 {
        let k = files.dom().choose();
        files[k].len() + total_bytes(files.remove(k))
    } else {
        0
    }
}

/// Taking a file out leaves the bytes of the others.
pub proof fn lemma_total_remove(files: Map<Seq<char>, Seq<u8>>, k: Seq<char>)
    requires
        files.dom().finite(),
        files.dom().contains(k),
    ensures
        total_bytes(files) == files[k].len() + total_bytes(files.remove(k)),
    decreases files.dom().len(),
{
    let c = files.dom().choose();
    assert(files.dom().contains(c));
    if c != k {
        lemma_total_remove(files.remove(c), k);
        lemma_total_remove(files.remove(k), c);
        assert(files.remove(c).remove(k) =~= files.remove(k).remove(c));
    }
}

/// The bytes under `k`, or none.
pub open spec fn size_at(files: Map<Seq<char>, Seq<u8>>, k: Seq<char>) -> nat {
    if files.dom().contains(k) {
        files[k].len()
    } else {
        0
    }
}

/// Writing a file adds its bytes in place of those it replaces.
pub proof fn lemma_total_insert(files: Map<Seq<char>, Seq<u8>>, k: Seq<char>, bytes: Seq<u8>)
    requires
        files.dom().finite(),
    ensures
        total_bytes(files.insert(k, bytes)) == total_bytes(files) - size_at(files, k)
            + bytes.len(),
        size_at(files, k) <= total_bytes(files),
{
    let next = files.insert(k, bytes);
    lemma_total_remove(next, k);
    if files.dom().contains(k) {
        lemma_total_remove(files, k);
        assert(next.remove(k) =~= files.remove(k));
    } else {
        assert(next.remove(k) =~= files);
    }
}

/// The files of a table, with their contents as sequences.
pub open spec fn contents(m: Map<Seq<char>, Vec<u8>>) -> Map<Seq<char>, Seq<u8>> {
    m.map_values(|v: Vec<u8>| v@)
}

/// A byte-quota'd in-memory filesystem used as tenant scratch storage.
///
/// Every write counts against [`MemFs::quota_bytes`]; exceeding the quota is
/// a hard error surfaced to the guest as `scratch-error::quota-exceeded`.
/// The host can read current usage via [`MemFs::used_bytes`] for metrics and
/// eviction decisions.
#[derive(Debug)]
pub struct MemFs {
    files: Table<Vec<u8>>,
    quota_bytes: usize,
    used: u64,
}

impl MemFs {
    /// The files by their path keys.
    pub closed spec fn files(self) -> Map<Seq<char>, Seq<u8>> {
        contents(self.files@)
    }

    /// The byte ceiling.
    pub closed spec fn quota(self) -> usize {
        self.quota_bytes
    }

    #[verifier::type_invariant]
    spec fn accounted(self) -> bool {
        &&& contents(self.files@).dom().finite()
        &&& self.used == total_bytes(contents(self.files@))
        &&& self.used <= self.quota_bytes
    }

    /// Create an empty scratch filesystem with the given byte quota.
    pub fn new(quota_bytes: usize) -> (fs: MemFs)
        ensures
            fs.files() == Map::<Seq<char>, Seq<u8>>::empty(),
            fs.files().dom().finite(),
            fs.quota() == quota_bytes,
    {
        let files: Table<Vec<u8>> = Table::new();
        proof {
            assert(contents(files@) =~= Map::<Seq<char>, Seq<u8>>::empty());
        }
        MemFs { files, quota_bytes, used: 0 }
    }

    /// The configured byte ceiling.
    pub fn quota_bytes(&self) -> (n: usize)
        ensures
            n == self.quota(),
    {
        self.quota_bytes
    }

    /// Bytes currently held.
    pub fn used_bytes(&self) -> (n: u64)
        ensures
            n == total_bytes(self.files()),
            n <= self.quota(),
            self.files().dom().finite(),
    {
        proof {
            use_type_invariant(&*self);
        }
        self.used
    }

    /// Whether `path` has a file.
    pub fn contains(&self, path: &str) -> (r: bool)
        ensures
            r == self.files().dom().contains(path_key(path@)),
    {
        let key: String = key_of(path);
        self.files.contains_key(key.as_str())
    }

    /// Overwrite (or create) the file at `path`, accounting the byte delta
    /// against the quota. Returns a limit error if the path is empty or
    /// absolute, or if the write would push usage over the ceiling; nothing
    /// is written then.
    pub fn write(&mut self, path: &str, bytes: Vec<u8>) -> (r: Result<(), Error>)
        ensures
            final(self).quota() == old(self).quota(),
            old(self).files().dom().finite(),
            final(self).files().dom().finite(),
            ({
                let next = old(self).files().insert(path_key(path@), bytes@);
                if !is_scratch_path(path@) {
                    &&& crate::error::outcome(r) == Err::<(), ErrorView>(
                        ErrorView::LimitExceeded("invalid scratch path `"@ + path@ + "`"@),
                    )
                    &&& final(self).files() == old(self).files()
                } else if total_bytes(next) > old(self).quota() {
                    &&& crate::error::outcome(r) == Err::<(), ErrorView>(
                        ErrorView::LimitExceeded(
                            "memfs quota of "@ + crate::text::decimal(old(self).quota() as nat)
                                + " bytes exceeded writing `"@ + path@ + "`"@,
                        ),
                    )
                    &&& final(self).files() == old(self).files()
                } else {
                    &&& r is Ok
                    &&& final(self).files() == next
                    &&& total_bytes(final(self).files()) == total_bytes(old(self).files())
                        - size_at(old(self).files(), path_key(path@)) + bytes@.len()
                }
            }),
    {
        proof {
            use_type_invariant(&*self);
        }
        if !scratch_path(path) {
            return Err(
                Error::LimitExceeded("invalid scratch path `".to_owned().concat(path).concat("`")),
            );
        }
        let key: String = key_of(path);
        let prev: usize = match self.files.get(key.as_str()) {
            Some(b) => b.len(),
            None => 0,
        };
        let ghost before = contents(self.files@);
        proof {
            lemma_total_insert(before, key@, bytes@);
        }
        let next: u128 = self.used as u128 - prev as u128 + bytes.len() as u128;
        if next > self.quota_bytes as u128 {
            return Err(
                Error::LimitExceeded(
                    "memfs quota of ".to_owned().concat(
                        decimal_text(self.quota_bytes as u128).as_str(),
                    ).concat(" bytes exceeded writing `").concat(path).concat("`"),
                ),
            );
        }
        let mut fs: MemFs = MemFs::new(self.quota_bytes);
        std::mem::swap(&mut fs, self);
        let mut files: Table<Vec<u8>> = fs.files;
        files.insert(key, bytes);
        proof {
            assert(contents(files@) =~= before.insert(key@, bytes@));
        }
        *self = MemFs { files, quota_bytes: fs.quota_bytes, used: next as u64 };
        Ok(())
    }

    /// Read the file at `path`, if present.
    pub fn read(&self, path: &str) -> (r: Option<Vec<u8>>)
        ensures
            match r {
                Some(b) => self.files().dom().contains(path_key(path@)) && b@ == self.files()[path_key(
                    path@,
                )],
                None => !self.files().dom().contains(path_key(path@)),
            },
    {
        let key: String = key_of(path);
        match self.files.get(key.as_str()) {
            Some(b) => {
                let copy: Vec<u8> = b.clone();
                proof {
                    assert(copy@ =~= b@);
                }
                Some(copy)
            },
            None => None,
        }
    }

    /// Remove the file at `path`, returning its contents if it existed.
    pub fn remove(&mut self, path: &str) -> (r: Option<Vec<u8>>)
        ensures
            final(self).quota() == old(self).quota(),
            final(self).files() == old(self).files().remove(path_key(path@)),
            old(self).files().dom().finite(),
            final(self).files().dom().finite(),
            total_bytes(final(self).files()) == total_bytes(old(self).files()) - size_at(
                old(self).files(),
                path_key(path@),
            ),
            match r {
                Some(b) => old(self).files().dom().contains(path_key(path@)) && b@ == old(
                    self,
                ).files()[path_key(path@)],
                None => !old(self).files().dom().contains(path_key(path@)),
            },
    {
        proof {
            use_type_invariant(&*self);
        }
        let key: String = key_of(path);
        let ghost before = contents(self.files@);
        if !self.files.contains_key(key.as_str()) {
            proof {
                assert(before.remove(key@) =~= before);
            }
            return None;
        }
        proof {
            lemma_total_remove(before, key@);
        }
        let mut fs: MemFs = MemFs::new(self.quota_bytes);
        std::mem::swap(&mut fs, self);
        let mut files: Table<Vec<u8>> = fs.files;
        let removed: Option<Vec<u8>> = files.remove(key.as_str());
        let freed: usize = match &removed {
            Some(b) => b.len(),
            None => 0,
        };
        proof {
            assert(contents(files@) =~= before.remove(key@));
        }
        *self = MemFs { files, quota_bytes: fs.quota_bytes, used: fs.used - freed as u64 };
        removed
    }
}

/// What is read back at a path is what was last written there, under any
/// spelling of the path; files under other paths are untouched, and the usage
/// changes by the difference of the lengths. The files of a [`MemFs`] are
/// always finitely many.
pub proof fn law_read_after_write(
    files: Map<Seq<char>, Seq<u8>>,
    path: Seq<char>,
    bytes: Seq<u8>,
    other: Seq<char>,
)
    requires
        files.dom().finite(),
    ensures
        ({
            let next = files.insert(path_key(path), bytes);
            &&& if path_key(other) == path_key(path) {
                next.dom().contains(path_key(other)) && next[path_key(other)] == bytes
            } else {
                &&& next.dom().contains(path_key(other)) == files.dom().contains(path_key(other))
                &&& next[path_key(other)] == files[path_key(other)]
            }
            &&& total_bytes(next) == total_bytes(files) - size_at(files, path_key(path))
                + bytes.len()
            &&& next.dom().finite()
        }),
{
    lemma_total_insert(files, path_key(path), bytes);
}

/// Removing a file frees exactly its bytes, and removing what a write
/// created restores the files and the usage as they were before.
pub proof fn law_remove_undoes_write(
    files: Map<Seq<char>, Seq<u8>>,
    path: Seq<char>,
    bytes: Seq<u8>,
)
    requires
        files.dom().finite(),
    ensures
        ({
            let next = files.insert(path_key(path), bytes);
            &&& total_bytes(next.remove(path_key(path))) == total_bytes(next) - bytes.len()
            &&& !files.dom().contains(path_key(path)) ==> next.remove(path_key(path)) == files
        }),
{
    let next = files.insert(path_key(path), bytes);
    lemma_total_remove(next, path_key(path));
    if !files.dom().contains(path_key(path)) {
        assert(next.remove(path_key(path)) =~= files);
    }
}

/// Host directories as `(guest path, host root)` texts.
pub open spec fn preopen_views(v: Seq<(String, String)>) -> Seq<(Seq<char>, Seq<char>)> {
    v.map_values(|p: (String, String)| (p.0@, p.1@))
}

/// A table of texts, with its values as sequences of characters.
pub open spec fn texts(m: Map<Seq<char>, String>) -> Map<Seq<char>, Seq<char>> {
    m.map_values(|v: String| v@)
}

/// A fully-assembled sandbox for one tenant.
#[derive(Debug)]
pub struct Sandbox {
    /// Tenant this sandbox confines.
    pub tenant: TenantId,
    /// Resource ceilings.
    pub limits: SandboxLimits,
    /// Tenant-scoped configuration exposed via `ember:runtime/tenant`.
    pub config: Table<String>,
    /// Read-only host directories preopened into WASI, `(guest_path, host_root)`.
    pub readonly_preopens: Vec<(String, String)>,
    /// Accounted scratch storage.
    pub scratch: MemFs,
}

impl Sandbox {
    /// Construct a sandbox for `tenant`, honoring `limits` and the tenant
    /// `config` table. Limits that no tenant can run under are refused.
    pub fn new(tenant: TenantId, limits: SandboxLimits, config: Table<String>) -> (r: Result<
        Sandbox,
        Error,
    >)
        ensures
            match r {
                Ok(s) => {
                    &&& limits_fault(limits@) is None
                    &&& s.tenant == tenant
                    &&& s.limits == limits
                    &&& s.config == config
                    &&& preopen_views(s.readonly_preopens@) == Seq::<(Seq<char>, Seq<char>)>::empty()
                    &&& s.scratch.files() == Map::<Seq<char>, Seq<u8>>::empty()
                    &&& s.scratch.quota() == limits@.memfs_quota_bytes
                },
                Err(e) => {
                    &&& limits_fault(limits@) is Some
                    &&& e@ == ErrorView::LimitExceeded(limits_fault(limits@)->0)
                },
            },
    {
        match limits.validate() {
            Ok(()) => {},
            Err(e) => {
                return Err(e);
            },
        }
        let scratch: MemFs = MemFs::new(limits.memfs_quota_bytes);
        let s = Sandbox { tenant, limits, config, readonly_preopens: Vec::new(), scratch };
        proof {
            assert(preopen_views(s.readonly_preopens@) =~= Seq::<(Seq<char>, Seq<char>)>::empty());
        }
        Ok(s)
    }

    /// Add a read-only host directory preopen at `guest_path`.
    pub fn with_preopen(self, guest_path: &str, root: &str) -> (s: Sandbox)
        ensures
            s.tenant == self.tenant,
            s.limits == self.limits,
            s.config == self.config,
            s.scratch == self.scratch,
            preopen_views(s.readonly_preopens@) == preopen_views(self.readonly_preopens@).push(
                (guest_path@, root@),
            ),
    {
        let mut preopens: Vec<(String, String)> = self.readonly_preopens;
        let ghost before = preopen_views(preopens@);
        preopens.push((guest_path.to_owned(), root.to_owned()));
        proof {
            assert(preopen_views(preopens@) =~= before.push((guest_path@, root@)));
        }
        Sandbox {
            tenant: self.tenant,
            limits: self.limits,
            config: self.config,
            readonly_preopens: preopens,
            scratch: self.scratch,
        }
    }

    /// The tenant's egress policy, derived from its limits.
    pub fn egress_policy(&self) -> (p: EgressPolicy)
        ensures
            p.rules() == self.limits@.egress_allow,
            p.default_deny == self.limits@.default_deny_egress,
    {
        self.limits.egress_policy()
    }

    /// Charge `bytes` of memory against the tenant and enforce the ceiling.
    /// Used by the engine hook when an instance grows past budget.
    pub fn charge_memory(&self, bytes: usize) -> (r: Result<(), Error>)
        ensures
            crate::error::outcome(r) == (if bytes <= self.limits@.max_memory_bytes {
                Ok(())
            } else {
                Err(
                    ErrorView::LimitExceeded(
                        "instance memory "@ + crate::text::decimal(bytes as nat)
                            + " exceeds tenant ceiling "@ + crate::text::decimal(
                            self.limits@.max_memory_bytes as nat,
                        ),
                    ),
                )
            }),
    {
        if bytes > self.limits.max_memory_bytes {
            return Err(
                Error::LimitExceeded(
                    "instance memory ".to_owned().concat(
                        decimal_text(bytes as u128).as_str(),
                    ).concat(" exceeds tenant ceiling ").concat(
                        decimal_text(self.limits.max_memory_bytes as u128).as_str(),
                    ),
                ),
            );
        }
        Ok(())
    }

    /// Bytes of host memory currently attributable to this tenant's scratch.
    pub fn scratch_bytes(&self) -> (n: u64)
        ensures
            n == total_bytes(self.scratch.files()),
            n <= self.scratch.quota(),
            self.scratch.files().dom().finite(),
    {
        self.scratch.used_bytes()
    }
}

/// Clamping leaves limits that are inside the budget as they are, and
/// whatever the budget is, it changes nothing but the memory and the instances
/// of limits that have an epoch budget; these two become the smaller of what
/// was asked for and what there is.
pub proof fn law_clamp_keeps_what_fits(l: LimitsView, memory: usize, instances: usize)
    ensures
        l.max_memory_bytes <= memory && l.max_instances <= instances && l.max_epoch_delta >= 1
            ==> clamped(l, memory, instances) == l,
        l.max_memory_bytes > memory ==> clamped(l, memory, instances).max_memory_bytes == memory,
        l.max_memory_bytes <= memory ==> clamped(l, memory, instances).max_memory_bytes
            == l.max_memory_bytes,
        l.max_instances > instances ==> clamped(l, memory, instances).max_instances == instances,
        l.max_instances <= instances ==> clamped(l, memory, instances).max_instances
            == l.max_instances,
        l.max_epoch_delta >= 1 ==> clamped(l, memory, instances).max_epoch_delta
            == l.max_epoch_delta,
        l.max_epoch_delta == 0 ==> clamped(l, memory, instances).max_epoch_delta == 1,
        clamped(l, memory, instances).max_tables == l.max_tables,
        clamped(l, memory, instances).max_wall_duration == l.max_wall_duration,
        clamped(l, memory, instances).max_body_bytes == l.max_body_bytes,
        clamped(l, memory, instances).memfs_quota_bytes == l.memfs_quota_bytes,
        clamped(l, memory, instances).cpus == l.cpus,
        clamped(l, memory, instances).egress_allow == l.egress_allow,
        clamped(l, memory, instances).default_deny_egress == l.default_deny_egress,
{
}

/// The smaller of two sizes is one of them, and above neither.
pub proof fn law_least_is_the_smaller(a: usize, b: usize)
    ensures
        least(a, b) <= a,
        least(a, b) <= b,
        least(a, b) == a || least(a, b) == b,
        least(a, b) == least(b, a),
{
}

/// Limits are faulty exactly where memory, time, instances or scratch quota
/// is zero, and the fault names the one that is.
pub proof fn law_limits_are_valid_unless_zero(l: LimitsView)
    ensures
        limits_fault(l) is None <==> l.max_memory_bytes > 0 && l.max_wall_duration.nanos() > 0
            && l.max_instances > 0 && l.memfs_quota_bytes > 0,
        l.max_memory_bytes == 0 ==> limits_fault(l) == Some("max_memory_bytes must be > 0"@),
        l.max_memory_bytes > 0 && l.max_wall_duration.nanos() == 0 ==> limits_fault(l) == Some(
            "max_wall_duration must be > 0"@,
        ),
        l.max_memory_bytes > 0 && l.max_wall_duration.nanos() > 0 && l.max_instances == 0
            ==> limits_fault(l) == Some("max_instances must be > 0"@),
        limits_fault(l) is Some && l.max_memory_bytes > 0 && l.max_wall_duration.nanos() > 0
            && l.max_instances > 0 ==> limits_fault(l) == Some("memfs_quota_bytes must be > 0"@),
{
}

/// A path can hold a scratch file exactly where it has a first character and
/// that is no slash.
pub proof fn law_scratch_paths_are_relative(path: Seq<char>, c: char)
    ensures
        !is_scratch_path(Seq::empty()),
        is_scratch_path(seq![c] + path) <==> c != '/',
{
    assert((seq![c] + path)[0] == c);
}

proof fn lemma_nameless(x: Seq<Seq<char>>, p: Seq<char>, y: Seq<Seq<char>>)
    requires
        x.len() > 0,
        p.len() == 0 || p == seq!['.'],
    ensures
        named_pieces(x + seq![p] + y) == named_pieces(x + y),
    decreases y.len(),
{
    if y.len() == 0 {
        assert(x + seq![p] + y =~= x.push(p));
        assert(x + y =~= x);
        assert(x.push(p).drop_last() =~= x);
    } else {
        let init = y.drop_last();
        lemma_nameless(x, p, init);
        assert((x + seq![p] + y).drop_last() =~= x + seq![p] + init);
        assert((x + y).drop_last() =~= x + init);
        assert((x + seq![p] + y).last() == y.last());
        assert((x + y).last() == y.last());
    }
}

/// Doubled slashes, a `.` between slashes, and a slash or a `/.` at the end
/// make no other path.
pub proof fn law_spellings_of_a_path_share_a_key(a: Seq<char>, b: Seq<char>)
    ensures
        path_key(a + "//"@ + b) == path_key(a + "/"@ + b),
        path_key(a + "/./"@ + b) == path_key(a + "/"@ + b),
        a.len() > 0 ==> path_key(a + "/"@) == path_key(a),
        a.len() > 0 ==> path_key(a + "/."@) == path_key(a),
{
    reveal_strlit("/");
    reveal_strlit("//");
    reveal_strlit("/./");
    reveal_strlit("/.");
    let e = Seq::<char>::empty();
    let dot = seq!['.'];
    let x = crate::text::split(a, '/');
    let y = crate::text::split(b, '/');
    crate::text::lemma_split_nonempty(a, '/');
    crate::text::lemma_split_single(e, '/');
    crate::text::lemma_split_single(dot, '/');
    crate::text::lemma_split_concat(a, b, '/');
    crate::text::lemma_split_concat(e, b, '/');
    crate::text::lemma_split_concat(dot, b, '/');
    crate::text::lemma_split_concat(a, e.push('/') + b, '/');
    crate::text::lemma_split_concat(a, dot.push('/') + b, '/');
    crate::text::lemma_split_concat(a, e, '/');
    crate::text::lemma_split_concat(a, dot, '/');
    let plain = a + "/"@ + b;
    let double = a + "//"@ + b;
    let dotted = a + "/./"@ + b;
    assert(plain =~= a.push('/') + b);
    assert(double =~= a.push('/') + (e.push('/') + b));
    assert(dotted =~= a.push('/') + (dot.push('/') + b));
    assert(x + (seq![e] + y) =~= x + seq![e] + y);
    assert(x + (seq![dot] + y) =~= x + seq![dot] + y);
    lemma_nameless(x, e, y);
    lemma_nameless(x, dot, y);
    assert(plain[0] == (if a.len() > 0 {
        a[0]
    } else {
        '/'
    }));
    assert(double[0] == plain[0] && dotted[0] == plain[0]);
    if a.len() > 0 {
        let none = Seq::<Seq<char>>::empty();
        lemma_nameless(x, e, none);
        lemma_nameless(x, dot, none);
        assert(a + "/"@ =~= a.push('/') + e);
        assert(a + "/."@ =~= a.push('/') + dot);
        assert(x + seq![e] + none =~= x + seq![e]);
        assert(x + seq![dot] + none =~= x + seq![dot]);
        assert(x + none =~= x);
    }
}

proof fn lemma_all_named(parts: Seq<Seq<char>>)
    requires
        forall|i: int| 0 <= i < parts.len() ==> counts(#[trigger] parts[i], i),
    ensures
        named_pieces(parts) == parts,
    decreases parts.len(),
{
    if parts.len() > 0 {
        let init = parts.drop_last();
        assert forall|i: int| 0 <= i < init.len() implies counts(#[trigger] init[i], i) by {
            assert(init[i] == parts[i]);
        }
        lemma_all_named(init);
        assert(counts(parts[parts.len() - 1], parts.len() - 1));
        assert(init.push(parts.last()) =~= parts);
    }
}

proof fn lemma_named_behind_root(parts: Seq<Seq<char>>)
    requires
        forall|i: int|
            0 <= i < parts.len() ==> (#[trigger] parts[i]).len() > 0 && parts[i] != seq!['.'],
    ensures
        named_pieces(seq![Seq::<char>::empty()] + parts) == parts,
    decreases parts.len(),
{
    let root = seq![Seq::<char>::empty()];
    if parts.len() == 0 {
        reveal_with_fuel(named_pieces, 2);
        assert(root + parts =~= root);
        assert(root.drop_last() =~= Seq::<Seq<char>>::empty());
        assert(parts =~= Seq::<Seq<char>>::empty());
    } else {
        let init = parts.drop_last();
        assert forall|i: int| 0 <= i < init.len() implies (#[trigger] init[i]).len() > 0 && init[i]
            != seq!['.'] by {
            assert(init[i] == parts[i]);
        }
        lemma_named_behind_root(init);
        assert((root + parts).drop_last() =~= root + init);
        assert((root + parts).last() == parts[parts.len() - 1]);
        assert(init.push(parts.last()) =~= parts);
    }
}

/// A path that is spelled plainly is its own key, from the root or not: no
/// name in it gets lost, and plain paths that differ name different files.
pub proof fn law_plain_paths_are_their_own_keys(parts: Seq<Seq<char>>)
    requires
        parts.len() > 0,
        forall|i: int|
            0 <= i < parts.len() ==> (#[trigger] parts[i]).len() > 0 && parts[i] != seq!['.']
                && !parts[i].contains('/'),
    ensures
        path_key(crate::text::join(parts, seq!['/'])) == crate::text::join(parts, seq!['/']),
        path_key(seq!['/'] + crate::text::join(parts, seq!['/'])) == seq!['/'] + crate::text::join(
            parts,
            seq!['/'],
        ),
{
    let path = crate::text::join(parts, seq!['/']);
    let e = Seq::<char>::empty();
    crate::text::law_joined_texts_come_apart(parts, '/');
    lemma_all_named(parts);
    lemma_named_behind_root(parts);
    if is_rooted(path) {
        let front = parts.take(1);
        let back = parts.skip(1);
        if back.len() > 0 {
            crate::text::law_join_of_two_lists(front, back, seq!['/']);
            assert(front + back =~= parts);
        } else {
            crate::text::law_join_of_two_lists(parts, parts, seq!['/']);
            assert(parts =~= seq![parts[0]]);
        }
        assert(front =~= seq![parts[0]]);
        assert(path[0] == parts[0][0]);
        assert(parts[0].contains('/'));
    }
    crate::text::lemma_split_single(e, '/');
    crate::text::lemma_split_concat(e, path, '/');
    assert(seq!['/'] + path =~= e.push('/') + path);
}

/// The bytes in use are those of every file: none without files, and with one
/// more file as many more as it holds.
pub proof fn law_usage_is_the_sum_of_the_files(
    files: Map<Seq<char>, Seq<u8>>,
    k: Seq<char>,
    bytes: Seq<u8>,
)
    requires
        files.dom().finite(),
        !files.dom().contains(k),
    ensures
        total_bytes(Map::empty()) == 0,
        total_bytes(files.insert(k, bytes)) == total_bytes(files) + bytes.len(),
        size_at(files, k) == 0,
        size_at(files.insert(k, bytes), k) == bytes.len(),
{
    lemma_total_insert(files, k, bytes);
}

/// Files, texts and preopened directories are seen one for one.
pub proof fn law_contents_are_seen_one_for_one(
    files: Map<Seq<char>, Vec<u8>>,
    values: Map<Seq<char>, String>,
    k: Seq<char>,
    dirs: Seq<(String, String)>,
    i: int,
)
    requires
        0 <= i < dirs.len(),
    ensures
        contents(files).dom().contains(k) == files.dom().contains(k),
        files.dom().contains(k) ==> contents(files)[k] == files[k]@,
        texts(values).dom().contains(k) == values.dom().contains(k),
        values.dom().contains(k) ==> texts(values)[k] == values[k]@,
        preopen_views(dirs).len() == dirs.len(),
        preopen_views(dirs)[i] == (dirs[i].0@, dirs[i].1@),
{
}

/// All that limits say can be seen.
pub proof fn law_limits_are_seen_whole(l: SandboxLimits)
    ensures
        l@.max_memory_bytes == l.max_memory_bytes,
        l@.max_instances == l.max_instances,
        l@.max_tables == l.max_tables,
        l@.max_epoch_delta == l.max_epoch_delta,
        l@.max_wall_duration == l.max_wall_duration,
        l@.max_body_bytes == l.max_body_bytes,
        l@.memfs_quota_bytes == l.memfs_quota_bytes,
        l@.cpus == l.cpus,
        l@.egress_allow == crate::text::views(l.egress_allow@),
        l@.default_deny_egress == l.default_deny_egress,
{
}

/// A path that begins with `.` keeps it: `./a` and `a` are two paths.
pub proof fn law_leading_dot_is_kept(parts: Seq<Seq<char>>)
    requires
        parts.len() > 0,
        forall|i: int|
            0 <= i < parts.len() ==> (#[trigger] parts[i]).len() > 0 && parts[i] != seq!['.']
                && !parts[i].contains('/'),
    ensures
        path_key(seq!['.', '/'] + crate::text::join(parts, seq!['/'])) == seq!['.', '/']
            + crate::text::join(parts, seq!['/']),
        path_key(seq!['.']) == seq!['.'],
{
    let dot = seq!['.'];
    let path = crate::text::join(parts, seq!['/']);
    let all = seq![dot] + parts;
    crate::text::law_joined_texts_come_apart(parts, '/');
    crate::text::lemma_split_single(dot, '/');
    crate::text::lemma_split_concat(dot, path, '/');
    assert forall|i: int| 0 <= i < all.len() implies counts(#[trigger] all[i], i) by {
        if i > 0 {
            assert(all[i] == parts[i - 1]);
        }
    }
    lemma_all_named(all);
    lemma_all_named(seq![dot]);
    crate::text::law_join_of_two_lists(seq![dot], parts, seq!['/']);
    assert(seq!['.', '/'] + path =~= dot.push('/') + path);
    assert(seq!['.', '/'] + path =~= dot + seq!['/'] + path);
    assert((dot.push('/') + path)[0] == '.');
}

} // verus!
