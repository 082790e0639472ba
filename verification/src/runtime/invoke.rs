//! Component invocation and per-tenant instance pooling.
//!
//! Each tenant keeps a bounded pool of **prepared** instances keyed by
//! component digest. A request that finds a matching prepared instance skips
//! instantiation entirely; a request for a newer digest lazily discards the
//! stale instances and instantiates fresh. Hot reload stays costless: swap
//! the active digest, and the next request builds the new instance.

use std::collections::VecDeque;

use vstd::prelude::*;
use vstd::string::*;

use crate::component::linker::{HttpRequest, HttpResponse, Request, Response};
use crate::error::{Error, ErrorView};
use crate::runtime::engine::EngineCap;
use crate::runtime::Tenant;
use crate::telemetry::{record_invoke, Update};
use crate::text::{decimal_text, same};
use crate::time::Duration;
use crate::wasi::sandbox::SandboxLimits;

verus! {

/// A prepared instance that can serve one request without any instantiation
/// work.
#[derive(Debug)]
pub struct Prepared<I> {
    /// Digest of the component this instance was built from.
    pub digest: String,
    /// The instance.
    pub instance: I,
}

/// Per-tenant pool of prepared instances.
#[derive(Debug)]
pub struct InstancePool<I> {
    queue: VecDeque<Prepared<I>>,
    cap: usize,
}

/// The position of the first instance with the given digest.
pub open spec fn first_match<I>(queue: Seq<Prepared<I>>, digest: Seq<char>) -> Option<int>
    decreases queue.len(),
{
    if queue.len() == 0 {
        None
    } else if queue.first().digest@ == digest {
        Some(0int)
    } else {
        match first_match(queue.drop_first(), digest) {
            Some(i) => Some(i + 1),
            None => None,
        }
    }
}

proof fn lemma_first_match<I>(queue: Seq<Prepared<I>>, digest: Seq<char>)
    ensures
        match first_match(queue, digest) {
            Some(i) => {
                &&& 0 <= i < queue.len()
                &&& queue[i].digest@ == digest
                &&& forall|j: int| 0 <= j < i ==> (#[trigger] queue[j]).digest@ != digest
            },
            None => forall|j: int|
                0 <= j < queue.len() ==> (#[trigger] queue[j]).digest@ != digest,
        },
    decreases queue.len(),
{
    if queue.len() > 0 && queue.first().digest@ != digest {
        let rest = queue.drop_first();
        lemma_first_match(rest, digest);
        assert forall|j: int| 1 <= j < queue.len() implies #[trigger] queue[j] == rest[j - 1] by {}
    }
}

impl<I> InstancePool<I> {
    /// The prepared instances, oldest first.
    pub closed spec fn queue(self) -> Seq<Prepared<I>> {
        self.queue@
    }

    /// How many prepared instances the pool can hold.
    pub closed spec fn capacity(self) -> usize {
        self.cap
    }

    #[verifier::type_invariant]
    spec fn bounded(self) -> bool {
        1 <= self.cap && self.queue@.len() <= self.cap
    }

    /// A pool that holds at most `cap` prepared instances, but at least one.
    pub fn new(cap: usize) -> (p: InstancePool<I>)
        ensures
            p.queue() == Seq::<Prepared<I>>::empty(),
            p.capacity() == (if cap == 0 {
                1
            } else {
                cap
            }),
    {
        InstancePool {
            queue: VecDeque::new(),
            cap: if cap == 0 {
                1
            } else {
                cap
            },
        }
    }

    /// How many prepared instances the pool can hold.
    pub fn cap(&self) -> (n: usize)
        ensures
            n == self.capacity(),
            n >= 1,
    {
        proof {
            use_type_invariant(&*self);
        }
        self.cap
    }

    /// How many prepared instances the pool holds: never more than it can.
    pub fn len(&self) -> (n: usize)
        ensures
            n == self.queue().len(),
            n <= self.capacity(),
    {
        proof {
            use_type_invariant(&*self);
        }
        self.queue.len()
    }

    /// Take a prepared instance built from `digest`, if there is one.
    ///
    /// Stale-digest instances encountered while scanning are dropped rather
    /// than returned, so a reload naturally drains the old generation.
    pub fn acquire(&mut self, digest: &str) -> (r: Option<I>)
        ensures
            final(self).capacity() == old(self).capacity(),
            match first_match(old(self).queue(), digest@) {
                Some(i) => {
                    &&& 0 <= i < old(self).queue().len()
                    &&& old(self).queue()[i].digest@ == digest@
                    &&& r == Some(old(self).queue()[i].instance)
                    &&& final(self).queue() == old(self).queue().skip(i + 1)
                },
                None => {
                    &&& r is None
                    &&& final(self).queue() == Seq::<Prepared<I>>::empty()
                },
            },
    {
        proof {
            use_type_invariant(&*self);
            lemma_first_match(self.queue@, digest@);
            assert(self.queue@.skip(0) =~= self.queue@);
        }
        let ghost all = self.queue@;
        let ghost mut n: int = 0;
        let mut queue: VecDeque<Prepared<I>> = VecDeque::new();
        std::mem::swap(&mut queue, &mut self.queue);
        while queue.len() > 0
            invariant
                0 <= n <= all.len(),
                queue@ == all.skip(n),
                all == old(self).queue(),
                all.len() <= old(self).capacity(),
                self.cap == old(self).capacity(),
                self.cap >= 1,
                self.queue@.len() == 0,
                forall|j: int| 0 <= j < n ==> (#[trigger] all[j]).digest@ != digest@,
                match first_match(all, digest@) {
                    Some(i) => {
                        &&& 0 <= i < all.len()
                        &&& all[i].digest@ == digest@
                        &&& forall|j: int| 0 <= j < i ==> (#[trigger] all[j]).digest@ != digest@
                    },
                    None => forall|j: int|
                        0 <= j < all.len() ==> (#[trigger] all[j]).digest@ != digest@,
                },
            decreases queue@.len(),
        {
            match queue.pop_front() {
                Some(p) => {
                    proof {
                        assert(p == all[n]);
                        assert(queue@ =~= all.skip(n + 1));
                    }
                    if same(p.digest.as_str(), digest) {
                        proof {
                            let i = first_match(all, digest@)->0;
                            assert(i == n);
                        }
                        self.queue = queue;
                        return Some(p.instance);
                    }
                    proof {
                        n = n + 1;
                    }
                },
                None => {},
            }
        }
        proof {
            assert(self.queue@ =~= Seq::<Prepared<I>>::empty());
        }
        None
    }

    /// Return a used instance to the pool if there is room.
    pub fn release(&mut self, prepared: Prepared<I>)
        ensures
            final(self).capacity() == old(self).capacity(),
            final(self).queue() == (if old(self).queue().len() < old(self).capacity() {
                old(self).queue().push(prepared)
            } else {
                old(self).queue()
            }),
    {
        proof {
            use_type_invariant(&*self);
        }
        if self.queue.len() < self.cap {
            let mut queue: VecDeque<Prepared<I>> = VecDeque::new();
            std::mem::swap(&mut queue, &mut self.queue);
            queue.push_back(prepared);
            self.queue = queue;
        }
    }
}

/// A request in flight: which generation serves it. A swap in the meantime
/// does not change it.
#[derive(Debug)]
pub struct Ticket {
    digest: String,
}

impl Ticket {
    /// The digest of the generation that serves the request.
    pub closed spec fn generation(self) -> Seq<char> {
        self.digest@
    }

    /// The digest of the generation that serves the request.
    pub fn digest(&self) -> (d: &str)
        ensures
            d@ == self.generation(),
    {
        self.digest.as_str()
    }
}

/// What a tenant hands out for one request.
#[derive(Debug)]
pub struct Begun<I> {
    /// The request as the component takes it.
    pub request: Request,
    /// The request in flight.
    pub ticket: Ticket,
    /// A prepared instance of that generation; where there is none, one has
    /// to be built.
    pub instance: Option<I>,
    /// The epoch deadline of the call, in ticks from when it starts.
    pub epoch_deadline: u64,
    /// The wall-clock budget of the call.
    pub budget: Duration,
}

/// What became of calling a component.
#[derive(Debug)]
pub enum CallOutcome<I> {
    /// The component answered.
    Responded { instance: I, response: Response },
    /// The instance could not be built, or the call trapped.
    Failed(String),
    /// The call went over the wall-clock budget.
    TimedOut,
}

/// An answered request.
#[derive(Debug)]
pub struct Served {
    /// The response for the caller.
    pub response: HttpResponse,
    /// What is to be recorded.
    pub updates: Vec<Update>,
}

/// The error for a call that went over its budget of `nanos` nanoseconds.
pub open spec fn over_budget(tenant: Seq<char>, nanos: nat) -> ErrorView {
    ErrorView::LimitExceeded(
        "tenant `"@ + tenant + "` exceeded its "@ + crate::text::decimal(nanos / 1_000_000)
            + "ms wall-clock budget"@,
    )
}

/// Whether two states of a tenant differ at most in the pool and the number
/// of invocations.
pub open spec fn same_but_traffic<C, I>(a: Tenant<C, I>, b: Tenant<C, I>) -> bool {
    &&& a.id == b.id
    &&& a.limits == b.limits
    &&& a.source == b.source
    &&& a.active == b.active
    &&& a.failures == b.failures
    &&& a.last_swap == b.last_swap
}

impl<C, I> Tenant<C, I> {
    /// Take in one request: normalize it, and take a prepared instance of the
    /// active generation out of the pool.
    pub fn begin(&mut self, request: HttpRequest) -> (b: Begun<I>)
        ensures
            same_but_traffic(*final(self), *old(self)),
            final(self).invocations == old(self).invocations,
            b.request.method == request.method,
            b.request.path == request.path,
            b.request.query == request.query,
            crate::http::headers::text_headers(b.request.headers@)
                == crate::component::linker::readable(
                crate::http::headers::raw_headers(request.headers@),
            ),
            b.request.body == Some(request.body),
            b.ticket.generation() == old(self).active.artifact().digest,
            b.epoch_deadline == crate::config::at_least_one(old(self).limits@.max_epoch_delta),
            b.budget == old(self).limits@.max_wall_duration,
            final(self).pool.capacity() == old(self).pool.capacity(),
            match first_match(old(self).pool.queue(), old(self).active.artifact().digest) {
                Some(i) => {
                    &&& 0 <= i < old(self).pool.queue().len()
                    &&& b.instance == Some(old(self).pool.queue()[i].instance)
                    &&& old(self).pool.queue()[i].digest@ == old(self).active.artifact().digest
                    &&& final(self).pool.queue() == old(self).pool.queue().skip(i + 1)
                },
                None => {
                    &&& b.instance is None
                    &&& final(self).pool.queue() == Seq::<Prepared<I>>::empty()
                },
            },
    {
        let digest: String = self.active.digest().to_owned();
        let instance: Option<I> = self.pool.acquire(digest.as_str());
        Begun {
            request: Request::from_http(request),
            ticket: Ticket { digest },
            instance,
            epoch_deadline: if self.limits.max_epoch_delta == 0 {
                1
            } else {
                self.limits.max_epoch_delta
            },
            budget: self.limits.max_wall_duration,
        }
    }

    /// Conclude a request in flight, given what became of the call and how
    /// long it took. Only an instance that answered goes back into the pool;
    /// the single success path counts the invocation.
    pub fn finish(
        &mut self,
        ticket: Ticket,
        outcome: CallOutcome<I>,
        took: Duration,
    ) -> (r: Result<Served, Error>)
        requires
            outcome is Responded ==> 100 <= outcome->response.status <= 999,
        ensures
            same_but_traffic(*final(self), *old(self)),
            match outcome {
                CallOutcome::Failed(reason) => {
                    &&& r is Err
                    &&& r->Err_0@ == ErrorView::Wasm(reason@)
                    &&& *final(self) == *old(self)
                },
                CallOutcome::TimedOut => {
                    &&& r is Err
                    &&& r->Err_0@ == over_budget(
                        old(self).id@,
                        old(self).limits@.max_wall_duration.nanos(),
                    )
                    &&& *final(self) == *old(self)
                },
                CallOutcome::Responded { instance, response } => {
                    &&& r is Ok
                    &&& r->Ok_0.response.status == response.status
                    &&& crate::http::headers::raw_headers(r->Ok_0.response.headers@)
                        == crate::component::linker::sendable(
                        crate::http::headers::text_headers(response.headers@),
                    )
                    &&& r->Ok_0.response.body == response.body
                    &&& crate::telemetry::update_views(r->Ok_0.updates@)
                        == crate::telemetry::invoke_updates(
                        ticket.generation(),
                        (took.nanos() / 1_000) as u128,
                        response.status,
                    )
                    &&& final(self).invocations == next_count(old(self).invocations)
                    &&& final(self).pool.capacity() == old(self).pool.capacity()
                    &&& if old(self).pool.queue().len() < old(self).pool.capacity() {
                        &&& final(self).pool.queue().len() == old(self).pool.queue().len() + 1
                        &&& final(self).pool.queue().drop_last() == old(self).pool.queue()
                        &&& final(self).pool.queue().last().instance == instance
                        &&& final(self).pool.queue().last().digest@ == ticket.generation()
                    } else {
                        final(self).pool.queue() == old(self).pool.queue()
                    }
                },
            },
    {
        match outcome {
            CallOutcome::Failed(reason) => Err(Error::Wasm(reason)),
            CallOutcome::TimedOut => Err(
                Error::LimitExceeded(
                    "tenant `".to_owned().concat(self.id.as_str()).concat(
                        "` exceeded its ",
                    ).concat(
                        decimal_text(self.limits.max_wall_duration.as_millis()).as_str(),
                    ).concat("ms wall-clock budget"),
                ),
            ),
            CallOutcome::Responded { instance, response } => {
                let status: u16 = response.status;
                let updates: Vec<Update> = record_invoke(ticket.digest.as_str(), took, status);
                let ghost before = self.pool.queue();
                let prepared = Prepared { digest: ticket.digest, instance };
                self.pool.release(prepared);
                proof {
                    assert(before.push(prepared).drop_last() =~= before);
                }
                self.invocations = if self.invocations == u64::MAX {
                    0
                } else {
                    self.invocations + 1
                };
                Ok(Served { response: response.into_http(), updates })
            },
        }
    }
}

/// A counter after one more event; it wraps around.
pub open spec fn next_count(n: u64) -> u64 {
    if n == u64::MAX {
        0
    } else {
        (n + 1) as u64
    }
}

/// Reconcile engine capacity against a pool's requested size.
pub fn pool_capacity(limits: &SandboxLimits, cap: &EngineCap) -> (n: usize)
    ensures
        n == crate::wasi::sandbox::least(limits@.max_instances, cap.max_instances),
{
    if limits.max_instances <= cap.max_instances {
        limits.max_instances
    } else {
        cap.max_instances
    }
}

/// A request is only ever served by an instance of the generation that was
/// active when it came in, whatever the pool still holds of older ones.
pub proof fn law_stale_instances_never_serve<I>(
    queue: Seq<Prepared<I>>,
    active: Seq<char>,
)
    ensures
        match first_match(queue, active) {
            Some(i) => 0 <= i < queue.len() && queue[i].digest@ == active,
            None => forall|j: int|
                0 <= j < queue.len() ==> (#[trigger] queue[j]).digest@ != active,
        },
{
    lemma_first_match(queue, active);
}

/// The instance that serves a request is the oldest one of the active
/// generation: the pool keeps all that came after it, in order.
pub proof fn law_oldest_fresh_instance_serves<I>(
    before: Seq<Prepared<I>>,
    fresh: Prepared<I>,
    after: Seq<Prepared<I>>,
)
    requires
        forall|j: int| 0 <= j < before.len() ==> (#[trigger] before[j]).digest@ != fresh.digest@,
    ensures
        first_match(before + seq![fresh] + after, fresh.digest@) == Some(before.len() as int),
        (before + seq![fresh] + after)[before.len() as int] == fresh,
        (before + seq![fresh] + after).skip(before.len() as int + 1) == after,
        first_match(before, fresh.digest@) is None,
{
    let queue = before + seq![fresh] + after;
    lemma_first_match(queue, fresh.digest@);
    lemma_first_match(before, fresh.digest@);
    assert(queue[before.len() as int] == fresh);
    assert forall|j: int| 0 <= j < before.len() implies (#[trigger] queue[j]).digest@
        != fresh.digest@ by {
        assert(queue[j] == before[j]);
    }
    assert(queue.skip(before.len() as int + 1) =~= after);
}

/// A call over its budget is a limit exceeded, and says whose and how many
/// whole milliseconds there were.
pub proof fn law_over_budget_names_tenant_and_budget(tenant: Seq<char>, millis: nat, rest: nat)
    requires
        rest < 1_000_000,
    ensures
        over_budget(tenant, millis * 1_000_000 + rest) is LimitExceeded,
        crate::error::status_of(over_budget(tenant, millis * 1_000_000 + rest)) == 429,
        exists|a: Seq<char>, b: Seq<char>, c: Seq<char>| #[trigger]
            (a + tenant + b + crate::text::decimal(millis) + c) == over_budget(
                tenant,
                millis * 1_000_000 + rest,
            )->LimitExceeded_0,
{
    assert((millis * 1_000_000 + rest) / 1_000_000 == millis);
    assert("tenant `"@ + tenant + "` exceeded its "@ + crate::text::decimal(millis)
        + "ms wall-clock budget"@ == over_budget(
        tenant,
        millis * 1_000_000 + rest,
    )->LimitExceeded_0);
}

/// A counter counts one event at a time, and starts again at zero behind the
/// last number that fits.
pub proof fn law_counters_wrap_around(n: u64)
    ensures
        next_count(n) as int == (n as int + 1) % 0x1_0000_0000_0000_0000,
{
}

/// States of a tenant that differ at most in the pool and the invocations are
/// the same where these are the same.
pub proof fn law_traffic_is_all_that_may_differ<C, I>(a: Tenant<C, I>, b: Tenant<C, I>)
    requires
        same_but_traffic(a, b),
        a.pool == b.pool,
        a.invocations == b.invocations,
    ensures
        a == b,
{
}

} // verus!
