//! A bounded cache of resolved tags.
//!
//! Which layer a tag stands for is found out by pulling its manifest. Such a
//! mapping is trusted for a while, so that tenants which share a reference
//! and are activated together share one manifest pull. The reload loop does
//! not ask the cache: it re-resolves every reference, and so renews what is
//! cached.

use vstd::prelude::*;
use vstd::string::*;

use crate::text::same;
use crate::time::{Duration, Instant};

verus! {

/// The mappings that are kept at most; beyond that the oldest one goes.
pub const MANIFEST_CACHE_LEN: usize = 64;

/// A tag that was resolved.
#[derive(Debug)]
struct Mapping {
    reference: String,
    digest: String,
    at: Instant,
}

/// What a mapping says: the reference, the digest of its layer, and when it
/// was found out, in nanoseconds.
pub struct MappingView {
    pub reference: Seq<char>,
    pub digest: Seq<char>,
    pub at: nat,
}

impl View for Mapping {
    type V = MappingView;

    closed spec fn view(&self) -> MappingView {
        MappingView { reference: self.reference@, digest: self.digest@, at: self.at.nanos() }
    }
}

/// The latest mapping of `reference`.
pub open spec fn latest(mappings: Seq<MappingView>, reference: Seq<char>) -> Option<MappingView>
    decreases mappings.len(),
{
    if mappings.len() == 0 {
        None
    } else if mappings.last().reference == reference {
        Some(mappings.last())
    } else {
        latest(mappings.drop_last(), reference)
    }
}

/// The layer digest that `reference` is trusted to stand for at `now`.
pub open spec fn trusted(
    mappings: Seq<MappingView>,
    ttl: nat,
    reference: Seq<char>,
    now: nat,
) -> Option<Seq<char>> {
    match latest(mappings, reference) {
        Some(m) => if crate::time::elapsed(m.at, now) < ttl {
            Some(m.digest)
        } else {
            None
        },
        None => None,
    }
}

/// The mappings after `m` was found out.
pub open spec fn noted(mappings: Seq<MappingView>, m: MappingView) -> Seq<MappingView> {
    if mappings.len() >= MANIFEST_CACHE_LEN {
        mappings.drop_first().push(m)
    } else {
        mappings.push(m)
    }
}

/// A bounded cache of resolved tags.
#[derive(Debug)]
pub struct ManifestCache {
    ttl: Duration,
    mappings: Vec<Mapping>,
}

impl ManifestCache {
    /// The mappings, oldest first.
    pub closed spec fn mappings(self) -> Seq<MappingView> {
        self.mappings@.map_values(|m: Mapping| m@)
    }

    /// How long a mapping is trusted.
    pub closed spec fn lifetime(self) -> nat {
        self.ttl.nanos()
    }

    #[verifier::type_invariant]
    spec fn bounded(self) -> bool {
        self.mappings@.len() <= MANIFEST_CACHE_LEN
    }

    /// An empty cache that trusts a mapping for `ttl`.
    pub fn new(ttl: Duration) -> (c: ManifestCache)
        ensures
            c.mappings() == Seq::<MappingView>::empty(),
            c.lifetime() == ttl.nanos(),
    {
        let c = ManifestCache { ttl, mappings: Vec::new() };
        proof {
            assert(c.mappings() =~= Seq::<MappingView>::empty());
        }
        c
    }

    /// How many mappings are kept: never more than the bound.
    pub fn len(&self) -> (n: usize)
        ensures
            n == self.mappings().len(),
            n <= MANIFEST_CACHE_LEN,
    {
        proof {
            use_type_invariant(&*self);
        }
        self.mappings.len()
    }

    /// The layer digest that `reference` is trusted to stand for at `now`.
    pub fn lookup(&self, reference: &str, now: Instant) -> (r: Option<String>)
        ensures
            crate::text::opt_view(r) == trusted(
                self.mappings(),
                self.lifetime(),
                reference@,
                now.nanos(),
            ),
    {
        let ghost all = self.mappings();
        let mut n: usize = self.mappings.len();
        proof {
            assert(all.take(n as int) =~= all);
        }
        while n > 0
            invariant
                n <= self.mappings@.len(),
                all == self.mappings(),
                latest(all, reference@) == latest(all.take(n as int), reference@),
            decreases n,
        {
            proof {
                assert(all.take(n as int).last() == self.mappings@[n - 1]@);
                assert(all.take(n as int).drop_last() =~= all.take(n - 1));
            }
            let m: &Mapping = &self.mappings[n - 1];
            if same(m.reference.as_str(), reference) {
                let age: Duration = now.saturating_duration_since(&m.at);
                return if age.shorter_than(&self.ttl) {
                    Some(m.digest.clone())
                } else {
                    None
                };
            }
            n = n - 1;
        }
        None
    }

    /// Note that `reference` was found at `now` to stand for the layer with
    /// the given digest.
    pub fn remember(&mut self, reference: String, digest: String, now: Instant)
        ensures
            final(self).mappings() == noted(
                old(self).mappings(),
                (MappingView { reference: reference@, digest: digest@, at: now.nanos() }),
            ),
            final(self).lifetime() == old(self).lifetime(),
    {
        proof {
            use_type_invariant(&*self);
        }
        let ghost before = self.mappings();
        let m = Mapping { reference, digest, at: now };
        let ghost view = m@;
        let mut mappings: Vec<Mapping> = Vec::new();
        std::mem::swap(&mut mappings, &mut self.mappings);
        if mappings.len() >= MANIFEST_CACHE_LEN {
            mappings.remove(0);
        }
        mappings.push(m);
        self.mappings = mappings;
        proof {
            assert(self.mappings() =~= noted(before, view));
        }
    }
}

/// A mapping is trusted from when it was found out until its time is over,
/// and no longer.
pub proof fn law_mapping_is_trusted_for_its_time(
    mappings: Seq<MappingView>,
    ttl: nat,
    m: MappingView,
    now: nat,
)
    requires
        m.at <= now,
    ensures
        trusted(noted(mappings, m), ttl, m.reference, now) == (if now < m.at + ttl {
            Some(m.digest)
        } else {
            None
        }),
{
}

/// Noting one reference says nothing about another one, as long as the cache
/// is not full.
pub proof fn law_other_mappings_stay(
    mappings: Seq<MappingView>,
    ttl: nat,
    m: MappingView,
    other: Seq<char>,
    now: nat,
)
    requires
        other != m.reference,
        mappings.len() < MANIFEST_CACHE_LEN,
    ensures
        trusted(noted(mappings, m), ttl, other, now) == trusted(mappings, ttl, other, now),
{
    assert(mappings.push(m).drop_last() =~= mappings);
}

proof fn lemma_latest(mappings: Seq<MappingView>, reference: Seq<char>)
    ensures
        match latest(mappings, reference) {
            Some(m) => exists|i: int|
                0 <= i < mappings.len() && #[trigger] mappings[i] == m && m.reference == reference
                    && forall|j: int|
                    i < j < mappings.len() ==> (#[trigger] mappings[j]).reference != reference,
            None => forall|i: int|
                0 <= i < mappings.len() ==> (#[trigger] mappings[i]).reference != reference,
        },
    decreases mappings.len(),
{
    if mappings.len() > 0 {
        let n = mappings.len() - 1;
        if mappings.last().reference == reference {
            assert(mappings[n] == mappings.last());
        } else {
            let init = mappings.drop_last();
            lemma_latest(init, reference);
            assert(mappings[n].reference != reference);
            match latest(init, reference) {
                Some(m) => {
                    let i = choose|i: int|
                        0 <= i < init.len() && #[trigger] init[i] == m && m.reference == reference
                            && forall|j: int|
                            i < j < init.len() ==> (#[trigger] init[j]).reference != reference;
                    assert(mappings[i] == m);
                    assert forall|j: int| i < j < mappings.len() implies (
                    #[trigger] mappings[j]).reference != reference by {
                        if j < n {
                            assert(init[j] == mappings[j]);
                        }
                    }
                },
                None => {
                    assert forall|i: int| 0 <= i < mappings.len() implies (
                    #[trigger] mappings[i]).reference != reference by {
                        if i < n {
                            assert(init[i] == mappings[i]);
                        }
                    }
                },
            }
        }
    }
}

/// What is trusted is what was noted last for the reference, and it is not yet
/// as old as the lifetime; where nothing is trusted, nothing was noted for the
/// reference or what was noted last is that old.
pub proof fn law_last_mapping_is_trusted(
    mappings: Seq<MappingView>,
    ttl: nat,
    reference: Seq<char>,
    now: nat,
    i: int,
)
    requires
        0 <= i < mappings.len(),
        mappings[i].reference == reference,
        forall|j: int| i < j < mappings.len() ==> (#[trigger] mappings[j]).reference != reference,
    ensures
        trusted(mappings, ttl, reference, now) == (if ttl > 0 && now < mappings[i].at + ttl {
            Some(mappings[i].digest)
        } else {
            None
        }),
{
    lemma_latest(mappings, reference);
}

/// Nothing is trusted for a reference that was never noted.
pub proof fn law_unknown_reference_is_not_trusted(
    mappings: Seq<MappingView>,
    ttl: nat,
    reference: Seq<char>,
    now: nat,
)
    requires
        forall|i: int| 0 <= i < mappings.len() ==> (#[trigger] mappings[i]).reference != reference,
    ensures
        trusted(mappings, ttl, reference, now) is None,
{
    lemma_latest(mappings, reference);
}

/// Noting keeps the bound: the new mapping comes last, and only where the
/// cache is full does one go, the oldest.
pub proof fn law_only_the_oldest_mapping_goes(mappings: Seq<MappingView>, m: MappingView, i: int)
    requires
        mappings.len() <= 64,
    ensures
        noted(mappings, m).len() <= 64,
        noted(mappings, m).last() == m,
        mappings.len() < 64 ==> noted(mappings, m).drop_last() == mappings,
        mappings.len() == 64 ==> noted(mappings, m).len() == 64,
        mappings.len() == 64 && 1 <= i < 64 ==> noted(mappings, m)[i - 1] == mappings[i],
{
    assert(mappings.push(m).drop_last() =~= mappings);
}

} // verus!
