//! Wasmtime engine set-up.
//!
//! Ember uses a single engine shared by every tenant with the **pooling
//! allocator** (fixed memory/instance limits, no per-instance host malloc),
//! **epoch interruption** (cooperative time budget via a background ticker),
//! and **async support** for the component-model / `wasi:http` stack.

use vstd::prelude::*;

use crate::config::EngineConfig;
use crate::time::Duration;
use crate::wasi::sandbox::SandboxLimits;

verus! {

/// Global engine capacity. Tenant limits are clamped against these values.
#[derive(Debug, Clone, Copy, PartialEq, Eq, Structural)]
pub struct EngineCap {
    /// Total guest linear memory across all tenants.
    pub max_memory_bytes: usize,
    /// Maximum concurrently live instances.
    pub max_instances: usize,
    /// Compilation worker threads.
    pub threads: usize,
}

/// How the shared engine is set up.
#[derive(Debug, Clone, Copy, PartialEq, Eq, Structural)]
pub struct EnginePlan {
    /// Optimize for size as well as for speed.
    pub optimize_for_size: bool,
    /// Compile on several threads.
    pub parallel_compilation: bool,
    /// Accept components.
    pub component_model: bool,
    /// Accept typed function references.
    pub function_references: bool,
    /// Keep backtrace details.
    pub backtrace_details: bool,
    /// Run guests on async stacks, as the component model and `wasi:http`
    /// need it.
    pub async_support: bool,
    /// Check the epoch in loops and on calls, for cooperative time budgets.
    pub epoch_interruption: bool,
    /// Memory pages of the pool.
    pub total_memory_pages: usize,
    /// Memory ceiling of an instance, in bytes.
    pub instance_memory_limit: usize,
    /// Instances in the pool.
    pub total_instances: usize,
    /// Tables of an instance.
    pub max_tables_per_instance: u32,
    /// Keep compiled code in the default cache.
    pub default_cache: bool,
}

/// Pages of 64 KiB in `bytes`, but at least one.
pub open spec fn pages(bytes: usize) -> usize {
    if bytes / 65536 == 0 {
        1
    } else {
        bytes / 65536
    }
}

/// The set-up for an engine of the given capacity.
pub open spec fn plan_for(cap: EngineCap) -> EnginePlan {
    EnginePlan {
        optimize_for_size: true,
        parallel_compilation: true,
        component_model: true,
        function_references: true,
        backtrace_details: false,
        async_support: true,
        epoch_interruption: true,
        total_memory_pages: pages(cap.max_memory_bytes),
        instance_memory_limit: cap.max_memory_bytes,
        total_instances: cap.max_instances,
        max_tables_per_instance: 32,
        default_cache: true,
    }
}

/// Builder for the shared engine.
#[derive(Debug, Clone, Copy, PartialEq, Eq, Structural)]
pub struct EngineBuilder {
    cap: EngineCap,
    epoch_interval: Duration,
}

impl EngineBuilder {
    /// The capacity of the engine.
    pub closed spec fn capacity(self) -> EngineCap {
        self.cap
    }

    /// The epoch tick interval; zero disables the background ticker.
    pub closed spec fn interval(self) -> Duration {
        self.epoch_interval
    }

    /// Create a builder with the given global capacity.
    pub fn new(cap: EngineCap) -> (b: EngineBuilder)
        ensures
            b.capacity() == cap,
            b.interval().nanos() == 100_000_000,
    {
        EngineBuilder { cap, epoch_interval: Duration::from_millis(100) }
    }

    /// Derive a builder from an engine config (used by the runtime).
    pub fn from_config(config: &EngineConfig) -> (b: EngineBuilder)
        ensures
            b.capacity() == (EngineCap {
                max_memory_bytes: config.max_memory_bytes,
                max_instances: config.max_instances,
                threads: config.threads,
            }),
            b.interval().nanos() == config.epoch_interval_ms * 1_000_000,
    {
        EngineBuilder::new(
            EngineCap {
                max_memory_bytes: config.max_memory_bytes,
                max_instances: config.max_instances,
                threads: config.threads,
            },
        ).with_epoch_interval(Duration::from_millis(config.epoch_interval_ms))
    }

    /// Set the epoch tick interval.
    pub fn with_epoch_interval(self, interval: Duration) -> (b: EngineBuilder)
        ensures
            b.capacity() == self.capacity(),
            b.interval() == interval,
    {
        EngineBuilder { cap: self.cap, epoch_interval: interval }
    }

    /// How the engine is to be set up.
    pub fn build(&self) -> (p: EnginePlan)
        ensures
            p == plan_for(self.capacity()),
    {
        let pages: usize = self.cap.max_memory_bytes / 65536;
        EnginePlan {
            optimize_for_size: true,
            parallel_compilation: true,
            component_model: true,
            function_references: true,
            backtrace_details: false,
            async_support: true,
            epoch_interruption: true,
            total_memory_pages: if pages == 0 {
                1
            } else {
                pages
            },
            instance_memory_limit: self.cap.max_memory_bytes,
            total_instances: self.cap.max_instances,
            max_tables_per_instance: 32,
            default_cache: true,
        }
    }

    /// How often the epoch ticker is to tick; `None` where it is disabled.
    pub fn ticker_interval(&self) -> (r: Option<Duration>)
        ensures
            r == (if self.interval().nanos() == 0 {
                None
            } else {
                Some(self.interval())
            }),
    {
        if self.epoch_interval.is_zero() {
            None
        } else {
            Some(self.epoch_interval)
        }
    }
}

/// Per-tenant engine-level budgets derived from sandbox limits.
pub fn engine_limits(limits: &SandboxLimits) -> (r: (usize, usize))
    ensures
        r == (limits@.max_memory_bytes, limits@.max_instances),
{
    (limits.max_memory_bytes, limits.max_instances)
}

/// The set-up of a convenience engine for tooling and test harnesses that
/// need a small, default-configured instance.
pub fn build_default_engine() -> (p: EnginePlan)
    ensures
        p == plan_for(
            EngineCap { max_memory_bytes: 268435456, max_instances: 8, threads: 2 },
        ),
{
    EngineBuilder::new(
        EngineCap { max_memory_bytes: 256 * 1024 * 1024, max_instances: 8, threads: 2 },
    ).build()
}

/// The pages of a pool fill its memory up to less than one page; even memory
/// below a page gives one.
pub proof fn law_pages_fill_the_memory(bytes: usize)
    ensures
        pages(bytes) >= 1,
        bytes >= 65536 ==> pages(bytes) * 65536 <= bytes < (pages(bytes) + 1) * 65536,
        bytes < 65536 ==> pages(bytes) == 1,
{
}

/// An engine is set up for exactly the memory and the instances of its
/// capacity, and otherwise the same whatever the capacity is.
pub proof fn law_engine_takes_its_capacity(a: EngineCap, b: EngineCap)
    ensures
        plan_for(a).instance_memory_limit == a.max_memory_bytes,
        plan_for(a).total_instances == a.max_instances,
        plan_for(a).total_memory_pages == pages(a.max_memory_bytes),
        plan_for(a).component_model,
        plan_for(a).async_support,
        plan_for(a).epoch_interruption,
        plan_for(a) == (EnginePlan {
            instance_memory_limit: a.max_memory_bytes,
            total_instances: a.max_instances,
            total_memory_pages: pages(a.max_memory_bytes),
            ..plan_for(b)
        }),
{
}

} // verus!
