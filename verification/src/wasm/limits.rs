//! Resource limits of sandboxed workloads: per-store growth limits, process-wide
//! quotas and the counters that metrics exporters read.
use crate::time::Interval;
use crate::wasm::fault::{WasmError, WasmErrorView};
use vstd::prelude::*;

verus! {

/// Resource limits of the WebAssembly engine.
#[derive(Debug, Clone, Copy, PartialEq, Eq)]
pub struct WasmRuntimeLimits {
    /// Linear memory that all memories of one store may take together.
    pub max_linear_memory: usize,
    /// Table elements that all tables of one store may take together.
    pub max_table_elements: u32,
    /// Memories per store.
    pub max_memories: u32,
    /// Tables per store.
    pub max_tables: u32,
    /// Instances per store.
    pub max_instances: u32,
    /// Whether a refused growth traps instead of failing softly.
    pub trap_on_grow_failure: bool,
    /// Size of a component binary.
    pub max_component_bytes: usize,
    /// Stack that guest code may take.
    pub max_wasm_stack: usize,
    /// Stack of a suspended guest call.
    pub async_stack_size: usize,
    /// Fuel that one invocation may burn.
    pub fuel_per_invocation: u64,
    /// Fuel between two cooperative yields, if any.
    pub fuel_async_yield_interval: Option<u64>,
    /// Period of the epoch clock.
    pub epoch_tick: Interval,
    /// Time that one invocation may take.
    pub invocation_timeout: Interval,
    /// Components that may be compiled at once.
    pub max_concurrent_compiles: usize,
    /// Components that may be instantiated at once.
    pub max_concurrent_instantiates: usize,
    /// Stores that may be alive at once.
    pub max_active_stores: usize,
    /// Linear memory that all stores may reserve together.
    pub max_total_linear_memory: usize,
    /// Invocations that may be outstanding at once.
    pub max_outstanding_invocations: usize,
}

impl Default for WasmRuntimeLimits {
    fn default() -> (r: WasmRuntimeLimits)
        ensures
            r.max_linear_memory == 268435456,
            r.max_table_elements == 1_000_000,
            r.max_memories == 4,
            r.max_tables == 16,
            r.max_instances == 64,
            r.trap_on_grow_failure,
            r.max_component_bytes == 67108864,
            r.fuel_async_yield_interval is None,
            r.max_total_linear_memory == 4294967295,
            r.max_concurrent_compiles == 4,
            r.max_concurrent_instantiates == 16,
            r.max_active_stores == 256,
            r.max_outstanding_invocations == 4096,
            r.fuel_per_invocation == 10_000_000_000,
            r.epoch_tick.nanos() == 10_000_000,
            r.invocation_timeout.nanos() == 30_000_000_000,
            r.max_wasm_stack == 1048576,
            r.async_stack_size == 2097152,
    {
        WasmRuntimeLimits {
            max_linear_memory: 268435456,
            max_table_elements: 1_000_000,
            max_memories: 4,
            max_tables: 16,
            max_instances: 64,
            trap_on_grow_failure: true,
            max_component_bytes: 67108864,
            max_wasm_stack: 1048576,
            async_stack_size: 2097152,
            fuel_per_invocation: 10_000_000_000,
            fuel_async_yield_interval: None,
            epoch_tick: Interval::from_millis(10),
            invocation_timeout: Interval::from_secs(30),
            max_concurrent_compiles: 4,
            max_concurrent_instantiates: 16,
            max_active_stores: 256,
            max_total_linear_memory: 4294967295,
            max_outstanding_invocations: 4096,
        }
    }
}

/// A per-store growth limit that was hit and is to trap the guest.
#[derive(Debug, Clone, Copy)]
pub struct StoreResourceLimit {
    label: &'static str,
}

impl StoreResourceLimit {
    /// Which limit it was.
    pub closed spec fn limit_label(self) -> Seq<char> {
        self.label@
    }

    fn new(label: &'static str) -> (r: StoreResourceLimit)
        ensures
            r.limit_label() == label@,
    {
        StoreResourceLimit { label }
    }

    /// Which limit it was.
    pub fn label(&self) -> (r: &'static str)
        ensures
            r@ == self.limit_label(),
    {
        self.label
    }
}

/// Store-local limiter whose memory/table limits are aggregate across all
/// resources in the store, not per memory or table.
#[derive(Debug)]
pub struct StoreResourceLimiter {
    max_linear_memory: usize,
    max_table_elements: usize,
    max_memories: usize,
    max_tables: usize,
    max_instances: usize,
    trap_on_grow_failure: bool,
    linear_memory: usize,
    table_elements: usize,
}

/// State of a [`StoreResourceLimiter`].
pub struct LimiterView {
    /// Linear memory limit, in bytes.
    pub max_memory: nat,
    /// Table limit, in elements.
    pub max_table: nat,
    /// Linear memory reserved so far.
    pub memory: nat,
    /// Table elements reserved so far.
    pub table: nat,
    /// Memories per store.
    pub max_memories: nat,
    /// Tables per store.
    pub max_tables: nat,
    /// Instances per store.
    pub max_instances: nat,
    /// Whether a refused growth traps.
    pub traps: bool,
}

/// What reserving growth from `current` to `desired` makes of a total under a
/// limit: the new total, or `None` where it is refused (it would shrink,
/// overflow or exceed the limit).
pub open spec fn reserved(total: nat, current: nat, desired: nat, limit: nat) -> Option<nat> {
    if desired >= current && total + (desired - current) <= limit && total + (desired - current)
        <= usize::MAX {
        Some((total + (desired - current)) as nat)
    } else {
        None
    }
}

impl View for StoreResourceLimiter {
    type V = LimiterView;

    closed spec fn view(&self) -> LimiterView {
        LimiterView {
            max_memory: self.max_linear_memory as nat,
            max_table: self.max_table_elements as nat,
            memory: self.linear_memory as nat,
            table: self.table_elements as nat,
            max_memories: self.max_memories as nat,
            max_tables: self.max_tables as nat,
            max_instances: self.max_instances as nat,
            traps: self.trap_on_grow_failure,
        }
    }
}

/// What a growth request gets: granted, or refused, which traps with the label
/// of the limit where the store traps on refusal, and is counted.
pub open spec fn growth_outcome(
    granted: bool,
    traps: bool,
    label: Seq<char>,
    r: Result<bool, StoreResourceLimit>,
    before: WasmRuntimeStats,
    after: WasmRuntimeStats,
) -> bool {
    if granted {
        r == Ok::<bool, StoreResourceLimit>(true) && after == before
    } else {
        &&& if traps {
            r matches Err(e) && e.limit_label() == label
        } else {
            r == Ok::<bool, StoreResourceLimit>(false)
        }
        &&& after == (WasmRuntimeStats {
            resource_denials: bumped(before.resource_denials),
            ..before
        })
    }
}

impl StoreResourceLimiter {
    /// A limiter with nothing reserved.
    pub fn new(limits: &WasmRuntimeLimits) -> (r: StoreResourceLimiter)
        ensures
            r@ == (LimiterView {
                max_memory: limits.max_linear_memory as nat,
                max_table: limits.max_table_elements as nat,
                memory: 0,
                table: 0,
                max_memories: limits.max_memories as nat,
                max_tables: limits.max_tables as nat,
                max_instances: limits.max_instances as nat,
                traps: limits.trap_on_grow_failure,
            }),
    {
        StoreResourceLimiter {
            max_linear_memory: limits.max_linear_memory,
            max_table_elements: limits.max_table_elements as usize,
            max_memories: limits.max_memories as usize,
            max_tables: limits.max_tables as usize,
            max_instances: limits.max_instances as usize,
            trap_on_grow_failure: limits.trap_on_grow_failure,
            linear_memory: 0,
            table_elements: 0,
        }
    }

    fn deny(
        &self,
        label: &'static str,
        counters: &mut RuntimeCounters,
    ) -> (r: Result<bool, StoreResourceLimit>)
        ensures
            growth_outcome(false, self@.traps, label@, r, old(counters)@, final(counters)@),
    {
        counters.record_resource_denial();
        if self.trap_on_grow_failure {
            Err(StoreResourceLimit::new(label))
        } else {
            Ok(false)
        }
    }

    /// Add a growth to a total: `Some` says whether the limit admits it, `None`
    /// that it is no growth or does not fit in a `usize`.
    fn reserve_growth(total: &mut usize, current: usize, desired: usize, limit: usize) -> (r:
        Option<bool>)
        ensures
            desired < current || *old(total) + (desired - current) > usize::MAX ==> r is None,
            desired >= current && limit < *old(total) + (desired - current) <= usize::MAX ==> r
                == Some(false),
            match reserved(*old(total) as nat, current as nat, desired as nat, limit as nat) {
                Some(next) => r == Some(true) && *final(total) == next,
                None => r != Some(true) && *final(total) == *old(total),
            },
    {
        let delta: usize = match desired.checked_sub(current) {
            Some(delta) => delta,
            None => return None,
        };
        let next: usize = match (*total).checked_add(delta) {
            Some(next) => next,
            None => return None,
        };
        if next > limit {
            return Some(false);
        }
        *total = next;
        Some(true)
    }

    /// A memory of the store wants to grow from `current` to `desired` bytes.
    pub fn memory_growing(
        &mut self,
        current: usize,
        desired: usize,
        counters: &mut RuntimeCounters,
    ) -> (r: Result<bool, StoreResourceLimit>)
        ensures
            match reserved(
                old(self)@.memory,
                current as nat,
                desired as nat,
                old(self)@.max_memory,
            ) {
                Some(next) => final(self)@ == (LimiterView { memory: next, ..old(self)@ })
                    && growth_outcome(
                    true,
                    old(self)@.traps,
                    "aggregate linear memory per Store"@,
                    r,
                    old(counters)@,
                    final(counters)@,
                ),
                None => final(self)@ == old(self)@ && growth_outcome(
                    false,
                    old(self)@.traps,
                    "aggregate linear memory per Store"@,
                    r,
                    old(counters)@,
                    final(counters)@,
                ),
            },
    {
        let mut total: usize = self.linear_memory;
        let granted: Option<bool> = Self::reserve_growth(
            &mut total,
            current,
            desired,
            self.max_linear_memory,
        );
        self.linear_memory = total;
        match granted {
            Some(true) => Ok(true),
            _ => self.deny("aggregate linear memory per Store", counters),
        }
    }

    /// A table of the store wants to grow from `current` to `desired` elements.
    pub fn table_growing(
        &mut self,
        current: usize,
        desired: usize,
        counters: &mut RuntimeCounters,
    ) -> (r: Result<bool, StoreResourceLimit>)
        ensures
            match reserved(
                old(self)@.table,
                current as nat,
                desired as nat,
                old(self)@.max_table,
            ) {
                Some(next) => final(self)@ == (LimiterView { table: next, ..old(self)@ })
                    && growth_outcome(
                    true,
                    old(self)@.traps,
                    "aggregate table elements per Store"@,
                    r,
                    old(counters)@,
                    final(counters)@,
                ),
                None => final(self)@ == old(self)@ && growth_outcome(
                    false,
                    old(self)@.traps,
                    "aggregate table elements per Store"@,
                    r,
                    old(counters)@,
                    final(counters)@,
                ),
            },
    {
        let mut total: usize = self.table_elements;
        let granted: Option<bool> = Self::reserve_growth(
            &mut total,
            current,
            desired,
            self.max_table_elements,
        );
        self.table_elements = total;
        match granted {
            Some(true) => Ok(true),
            _ => self.deny("aggregate table elements per Store", counters),
        }
    }

    /// A memory growth that was granted failed in the engine. The reservation
    /// stays: the failure names no memory, and rolling back could subtract
    /// another memory's bytes and let a multi-memory guest exceed the aggregate
    /// limit. Returns the context under which the failure is to trap, if it is.
    pub fn memory_grow_failed(&self) -> (r: Option<&'static str>)
        ensures
            self@.traps ==> (r matches Some(t) && t@
                == "forcing a memory growth failure to be a trap"@),
            !self@.traps ==> r is None,
    {
        if self.trap_on_grow_failure {
            Some("forcing a memory growth failure to be a trap")
        } else {
            None
        }
    }

    /// A table growth that was granted failed in the engine; as for memories,
    /// the reservation stays.
    pub fn table_grow_failed(&self) -> (r: Option<&'static str>)
        ensures
            self@.traps ==> (r matches Some(t) && t@
                == "forcing a table growth failure to be a trap"@),
            !self@.traps ==> r is None,
    {
        if self.trap_on_grow_failure {
            Some("forcing a table growth failure to be a trap")
        } else {
            None
        }
    }

    /// Instances per store.
    pub fn instances(&self) -> (r: usize)
        ensures
            r == self@.max_instances,
    {
        self.max_instances
    }

    /// Tables per store.
    pub fn tables(&self) -> (r: usize)
        ensures
            r == self@.max_tables,
    {
        self.max_tables
    }

    /// Memories per store.
    pub fn memories(&self) -> (r: usize)
        ensures
            r == self@.max_memories,
    {
        self.max_memories
    }
}

// ── process-wide counters and quotas ─────────────────────────────────────────

/// Process-wide resource counters suitable for metrics exporters.
#[derive(Debug, Clone, Copy, PartialEq, Eq, Structural)]
pub struct WasmRuntimeStats {
    pub active_compiles: usize,
    pub active_instantiates: usize,
    pub active_stores: usize,
    pub reserved_linear_memory: usize,
    pub outstanding_invocations: usize,
    pub denied_compiles: u64,
    pub denied_instantiates: u64,
    pub denied_stores: u64,
    pub denied_invocations: u64,
    pub out_of_fuel_traps: u64,
    pub epoch_traps: u64,
    pub invocation_timeouts: u64,
    pub resource_denials: u64,
    pub compile_failures: u64,
    pub instantiate_failures: u64,
}

/// The live counters behind [`WasmRuntimeStats`].
#[derive(Debug, Clone, Copy, PartialEq, Eq, Structural)]
pub struct RuntimeCounters {
    stats: WasmRuntimeStats,
}

/// Which quota a permit counts against.
#[derive(Debug, Clone, Copy, PartialEq, Eq, Structural)]
pub enum CounterKind {
    Compile,
    Instantiate,
    Store,
    Memory,
    Invocation,
}

/// A share of a quota, to be given back with [`RuntimeCounters::release`].
#[derive(Debug, PartialEq, Eq, Structural)]
pub struct QuotaPermit {
    kind: CounterKind,
    amount: usize,
}

/// The shares that a live store holds.
#[derive(Debug, PartialEq, Eq, Structural)]
pub struct StorePermit {
    store: QuotaPermit,
    memory: QuotaPermit,
}

impl QuotaPermit {
    /// The quota that it counts against.
    pub closed spec fn kind(self) -> CounterKind {
        self.kind
    }

    /// How much of it.
    pub closed spec fn amount(self) -> usize {
        self.amount
    }
}

impl StorePermit {
    /// The memory that it reserves.
    pub closed spec fn reserved(self) -> usize {
        self.memory.amount
    }

    #[verifier::type_invariant]
    spec fn well_formed(self) -> bool {
        &&& self.store.kind == CounterKind::Store
        &&& self.store.amount == 1
        &&& self.memory.kind == CounterKind::Memory
    }
}

/// One more, wrapping around at the end of the range.
pub open spec fn bumped(n: u64) -> u64 {
    if n == u64::MAX {
        0
    } else {
        (n + 1) as u64
    }
}

fn bump(n: u64) -> (r: u64)
    ensures
        r == bumped(n),
{
    n.wrapping_add(1)
}

impl WasmRuntimeStats {
    /// What is in use of a quota.
    pub open spec fn in_use(self, kind: CounterKind) -> usize {
        match kind {
            CounterKind::Compile => self.active_compiles,
            CounterKind::Instantiate => self.active_instantiates,
            CounterKind::Store => self.active_stores,
            CounterKind::Memory => self.reserved_linear_memory,
            CounterKind::Invocation => self.outstanding_invocations,
        }
    }

    /// The same counters with another amount in use of one quota.
    pub open spec fn with_in_use(self, kind: CounterKind, amount: usize) -> WasmRuntimeStats {
        match kind {
            CounterKind::Compile => WasmRuntimeStats { active_compiles: amount, ..self },
            CounterKind::Instantiate => WasmRuntimeStats { active_instantiates: amount, ..self },
            CounterKind::Store => WasmRuntimeStats { active_stores: amount, ..self },
            CounterKind::Memory => WasmRuntimeStats { reserved_linear_memory: amount, ..self },
            CounterKind::Invocation => WasmRuntimeStats {
                outstanding_invocations: amount,
                ..self
            },
        }
    }

    /// The same counters with one more refusal of a quota. Memory refusals
    /// count as store refusals.
    pub open spec fn with_denial(self, kind: CounterKind) -> WasmRuntimeStats {
        match kind {
            CounterKind::Compile => WasmRuntimeStats {
                denied_compiles: bumped(self.denied_compiles),
                ..self
            },
            CounterKind::Instantiate => WasmRuntimeStats {
                denied_instantiates: bumped(self.denied_instantiates),
                ..self
            },
            CounterKind::Store | CounterKind::Memory => WasmRuntimeStats {
                denied_stores: bumped(self.denied_stores),
                ..self
            },
            CounterKind::Invocation => WasmRuntimeStats {
                denied_invocations: bumped(self.denied_invocations),
                ..self
            },
        }
    }

    /// Whether `amount` more of a quota stays within `limit`.
    pub open spec fn admits(self, kind: CounterKind, amount: usize, limit: usize) -> bool {
        self.in_use(kind) + amount <= limit
    }

    /// The counters after asking for `amount` of a quota under `limit`.
    pub open spec fn asked(self, kind: CounterKind, amount: usize, limit: usize) -> WasmRuntimeStats {
        if self.admits(kind, amount, limit) {
            self.with_in_use(kind, (self.in_use(kind) + amount) as usize)
        } else {
            self.with_denial(kind)
        }
    }
}

/// A snapshot of the counters.
pub fn wasm_runtime_stats(counters: &RuntimeCounters) -> (r: WasmRuntimeStats)
    ensures
        r == counters@,
{
    counters.stats
}

impl View for RuntimeCounters {
    type V = WasmRuntimeStats;

    closed spec fn view(&self) -> WasmRuntimeStats {
        self.stats
    }
}

impl Default for RuntimeCounters {
    fn default() -> (r: RuntimeCounters)
        ensures
            r@ == (WasmRuntimeStats {
                active_compiles: 0,
                active_instantiates: 0,
                active_stores: 0,
                reserved_linear_memory: 0,
                outstanding_invocations: 0,
                denied_compiles: 0,
                denied_instantiates: 0,
                denied_stores: 0,
                denied_invocations: 0,
                out_of_fuel_traps: 0,
                epoch_traps: 0,
                invocation_timeouts: 0,
                resource_denials: 0,
                compile_failures: 0,
                instantiate_failures: 0,
            }),
    {
        RuntimeCounters {
            stats: WasmRuntimeStats {
                active_compiles: 0,
                active_instantiates: 0,
                active_stores: 0,
                reserved_linear_memory: 0,
                outstanding_invocations: 0,
                denied_compiles: 0,
                denied_instantiates: 0,
                denied_stores: 0,
                denied_invocations: 0,
                out_of_fuel_traps: 0,
                epoch_traps: 0,
                invocation_timeouts: 0,
                resource_denials: 0,
                compile_failures: 0,
                instantiate_failures: 0,
            },
        }
    }
}

impl RuntimeCounters {
    fn acquire(
        &mut self,
        kind: CounterKind,
        amount: usize,
        limit: usize,
        label: &'static str,
    ) -> (r: Result<QuotaPermit, WasmError>)
        ensures
            final(self)@ == old(self)@.asked(kind, amount, limit),
            if old(self)@.admits(kind, amount, limit) {
                r matches Ok(p) && p.kind() == kind && p.amount() == amount
            } else {
                r matches Err(e) && e@ == WasmErrorView::ResourceLimitExceeded(label@)
            },
    {
        let current: usize = match kind {
            CounterKind::Compile => self.stats.active_compiles,
            CounterKind::Instantiate => self.stats.active_instantiates,
            CounterKind::Store => self.stats.active_stores,
            CounterKind::Memory => self.stats.reserved_linear_memory,
            CounterKind::Invocation => self.stats.outstanding_invocations,
        };
        match current.checked_add(amount) {
            Some(next) if next <= limit => {
                match kind {
                    CounterKind::Compile => {
                        self.stats.active_compiles = next;
                    },
                    CounterKind::Instantiate => {
                        self.stats.active_instantiates = next;
                    },
                    CounterKind::Store => {
                        self.stats.active_stores = next;
                    },
                    CounterKind::Memory => {
                        self.stats.reserved_linear_memory = next;
                    },
                    CounterKind::Invocation => {
                        self.stats.outstanding_invocations = next;
                    },
                }
                Ok(QuotaPermit { kind, amount })
            },
            _ => {
                match kind {
                    CounterKind::Compile => {
                        self.stats.denied_compiles = bump(self.stats.denied_compiles);
                    },
                    CounterKind::Instantiate => {
                        self.stats.denied_instantiates = bump(self.stats.denied_instantiates);
                    },
                    CounterKind::Store | CounterKind::Memory => {
                        self.stats.denied_stores = bump(self.stats.denied_stores);
                    },
                    CounterKind::Invocation => {
                        self.stats.denied_invocations = bump(self.stats.denied_invocations);
                    },
                }
                Err(WasmError::ResourceLimitExceeded(label))
            },
        }
    }

    /// Give a share back.
    pub fn release(&mut self, permit: QuotaPermit)
        requires
            old(self)@.in_use(permit.kind()) >= permit.amount(),
        ensures
            final(self)@ == old(self)@.with_in_use(
                permit.kind(),
                (old(self)@.in_use(permit.kind()) - permit.amount()) as usize,
            ),
    {
        match permit.kind {
            CounterKind::Compile => {
                self.stats.active_compiles = self.stats.active_compiles - permit.amount;
            },
            CounterKind::Instantiate => {
                self.stats.active_instantiates = self.stats.active_instantiates - permit.amount;
            },
            CounterKind::Store => {
                self.stats.active_stores = self.stats.active_stores - permit.amount;
            },
            CounterKind::Memory => {
                self.stats.reserved_linear_memory =
                self.stats.reserved_linear_memory - permit.amount;
            },
            CounterKind::Invocation => {
                self.stats.outstanding_invocations =
                self.stats.outstanding_invocations - permit.amount;
            },
        }
    }

    /// Ask to compile one component.
    pub fn acquire_compile(&mut self, limits: &WasmRuntimeLimits) -> (r: Result<
        QuotaPermit,
        WasmError,
    >)
        ensures
            final(self)@ == old(self)@.asked(
                CounterKind::Compile,
                1,
                limits.max_concurrent_compiles,
            ),
            if old(self)@.admits(CounterKind::Compile, 1, limits.max_concurrent_compiles) {
                r matches Ok(p) && p.kind() == CounterKind::Compile && p.amount() == 1
            } else {
                r matches Err(e) && e@ == WasmErrorView::ResourceLimitExceeded(
                    "concurrent component compilations"@,
                )
            },
    {
        self.acquire(
            CounterKind::Compile,
            1,
            limits.max_concurrent_compiles,
            "concurrent component compilations",
        )
    }

    /// Ask to instantiate one component.
    pub fn acquire_instantiate(&mut self, limits: &WasmRuntimeLimits) -> (r: Result<
        QuotaPermit,
        WasmError,
    >)
        ensures
            final(self)@ == old(self)@.asked(
                CounterKind::Instantiate,
                1,
                limits.max_concurrent_instantiates,
            ),
            if old(self)@.admits(
                CounterKind::Instantiate,
                1,
                limits.max_concurrent_instantiates,
            ) {
                r matches Ok(p) && p.kind() == CounterKind::Instantiate && p.amount() == 1
            } else {
                r matches Err(e) && e@ == WasmErrorView::ResourceLimitExceeded(
                    "concurrent component instantiations"@,
                )
            },
    {
        self.acquire(
            CounterKind::Instantiate,
            1,
            limits.max_concurrent_instantiates,
            "concurrent component instantiations",
        )
    }

    /// Ask for a live store with its configured memory. Where the memory is
    /// refused, the store's slot is given back.
    pub fn acquire_store(&mut self, limits: &WasmRuntimeLimits) -> (r: Result<
        StorePermit,
        WasmError,
    >)
        ensures
            if !old(self)@.admits(CounterKind::Store, 1, limits.max_active_stores) {
                &&& r matches Err(e) && e@ == WasmErrorView::ResourceLimitExceeded(
                    "active WASM stores"@,
                )
                &&& final(self)@ == old(self)@.with_denial(CounterKind::Store)
            } else if !old(self)@.admits(
                CounterKind::Memory,
                limits.max_linear_memory,
                limits.max_total_linear_memory,
            ) {
                &&& r matches Err(e) && e@ == WasmErrorView::ResourceLimitExceeded(
                    "aggregate configured linear memory"@,
                )
                &&& final(self)@ == old(self)@.with_denial(CounterKind::Memory)
            } else {
                &&& r matches Ok(p) && p.reserved() == limits.max_linear_memory
                &&& final(self)@ == old(self)@.asked(
                    CounterKind::Store,
                    1,
                    limits.max_active_stores,
                ).asked(
                    CounterKind::Memory,
                    limits.max_linear_memory,
                    limits.max_total_linear_memory,
                )
            },
    {
        let store: QuotaPermit = match self.acquire(
            CounterKind::Store,
            1,
            limits.max_active_stores,
            "active WASM stores",
        ) {
            Ok(p) => p,
            Err(e) => return Err(e),
        };
        match self.acquire(
            CounterKind::Memory,
            limits.max_linear_memory,
            limits.max_total_linear_memory,
            "aggregate configured linear memory",
        ) {
            Ok(memory) => Ok(StorePermit { store, memory }),
            Err(e) => {
                self.release(store);
                Err(e)
            },
        }
    }

    /// Give a store's shares back.
    pub fn release_store(&mut self, permit: StorePermit)
        requires
            old(self)@.active_stores >= 1,
            old(self)@.reserved_linear_memory >= permit.reserved(),
        ensures
            final(self)@ == (WasmRuntimeStats {
                active_stores: (old(self)@.active_stores - 1) as usize,
                reserved_linear_memory: (old(self)@.reserved_linear_memory
                    - permit.reserved()) as usize,
                ..old(self)@
            }),
    {
        proof {
            use_type_invariant(&permit);
        }
        self.release(permit.store);
        self.release(permit.memory);
    }

    /// Ask to have one more invocation outstanding.
    pub fn acquire_invocation(&mut self, limits: &WasmRuntimeLimits) -> (r: Result<
        QuotaPermit,
        WasmError,
    >)
        ensures
            final(self)@ == old(self)@.asked(
                CounterKind::Invocation,
                1,
                limits.max_outstanding_invocations,
            ),
            if old(self)@.admits(
                CounterKind::Invocation,
                1,
                limits.max_outstanding_invocations,
            ) {
                r matches Ok(p) && p.kind() == CounterKind::Invocation && p.amount() == 1
            } else {
                r matches Err(e) && e@ == WasmErrorView::ResourceLimitExceeded(
                    "outstanding WASM invocations"@,
                )
            },
    {
        self.acquire(
            CounterKind::Invocation,
            1,
            limits.max_outstanding_invocations,
            "outstanding WASM invocations",
        )
    }

    /// A guest ran out of fuel.
    pub fn record_out_of_fuel(&mut self)
        ensures
            final(self)@ == (WasmRuntimeStats {
                out_of_fuel_traps: bumped(old(self)@.out_of_fuel_traps),
                ..old(self)@
            }),
    {
        self.stats.out_of_fuel_traps = bump(self.stats.out_of_fuel_traps);
    }

    /// A guest was interrupted by its epoch deadline.
    pub fn record_epoch_trap(&mut self)
        ensures
            final(self)@ == (WasmRuntimeStats {
                epoch_traps: bumped(old(self)@.epoch_traps),
                ..old(self)@
            }),
    {
        self.stats.epoch_traps = bump(self.stats.epoch_traps);
    }

    /// An invocation timed out.
    pub fn record_timeout(&mut self)
        ensures
            final(self)@ == (WasmRuntimeStats {
                invocation_timeouts: bumped(old(self)@.invocation_timeouts),
                ..old(self)@
            }),
    {
        self.stats.invocation_timeouts = bump(self.stats.invocation_timeouts);
    }

    /// A resource was refused.
    pub fn record_resource_denial(&mut self)
        ensures
            final(self)@ == (WasmRuntimeStats {
                resource_denials: bumped(old(self)@.resource_denials),
                ..old(self)@
            }),
    {
        self.stats.resource_denials = bump(self.stats.resource_denials);
    }

    /// A component failed to compile.
    pub fn record_compile_failure(&mut self)
        ensures
            final(self)@ == (WasmRuntimeStats {
                compile_failures: bumped(old(self)@.compile_failures),
                ..old(self)@
            }),
    {
        self.stats.compile_failures = bump(self.stats.compile_failures);
    }

    /// A component failed to instantiate.
    pub fn record_instantiate_failure(&mut self)
        ensures
            final(self)@ == (WasmRuntimeStats {
                instantiate_failures: bumped(old(self)@.instantiate_failures),
                ..old(self)@
            }),
    {
        self.stats.instantiate_failures = bump(self.stats.instantiate_failures);
    }
}

// ── laws ─────────────────────────────────────────────────────────────────────

/// Reserved growth never exceeds the aggregate limit, however many memories or
/// tables ask.
pub proof fn reservations_stay_within_the_limit(
    total: nat,
    current: nat,
    desired: nat,
    limit: nat,
)
    requires
        total <= limit,
    ensures
        reserved(total, current, desired, limit) matches Some(next) ==> total <= next <= limit,
{
}

/// A quota that held before a request holds after it.
pub proof fn quotas_are_never_exceeded(
    stats: WasmRuntimeStats,
    kind: CounterKind,
    amount: usize,
    limit: usize,
)
    requires
        stats.in_use(kind) <= limit,
    ensures
        stats.asked(kind, amount, limit).in_use(kind) <= limit,
{
}

/// Giving a granted share back restores the counters.
pub proof fn release_undoes_acquire(
    stats: WasmRuntimeStats,
    kind: CounterKind,
    amount: usize,
    limit: usize,
)
    requires
        stats.admits(kind, amount, limit),
    ensures
        stats.asked(kind, amount, limit).with_in_use(
            kind,
            (stats.asked(kind, amount, limit).in_use(kind) - amount) as usize,
        ) == stats,
{
}

/// Asking for one quota leaves every other quota's use unchanged.
pub proof fn quotas_are_independent(
    stats: WasmRuntimeStats,
    kind: CounterKind,
    other: CounterKind,
    amount: usize,
    limit: usize,
)
    requires
        kind != other,
    ensures
        stats.asked(kind, amount, limit).in_use(other) == stats.in_use(other),
{
}

/// A growth is granted exactly when it is one, the total can be counted and the aggregate
/// limit admits it; the total then grows by exactly what was asked for.
pub proof fn growth_is_granted_within_the_limit(
    total: nat,
    current: nat,
    desired: nat,
    limit: nat,
)
    ensures
        reserved(total, current, desired, limit) is Some <==> desired >= current && total
            + desired - current <= limit && total + desired - current <= usize::MAX,
        reserved(total, current, desired, limit) matches Some(next) ==> next - total == desired
            - current,
{
}

/// A refused growth is counted once and traps exactly where the store traps on refusals, by
/// the label of the limit; a granted one is counted nowhere.
pub proof fn refused_growth_is_counted(
    granted: bool,
    traps: bool,
    label: Seq<char>,
    r: Result<bool, StoreResourceLimit>,
    before: WasmRuntimeStats,
    after: WasmRuntimeStats,
)
    requires
        growth_outcome(granted, traps, label, r, before, after),
    ensures
        r is Err <==> !granted && traps,
        r matches Err(e) ==> e.limit_label() == label,
        r matches Ok(b) ==> b == granted,
        granted ==> after == before,
        !granted && before.resource_denials < u64::MAX ==> after.resource_denials
            == before.resource_denials + 1,
        after.active_stores == before.active_stores,
        after.outstanding_invocations == before.outstanding_invocations,
        after.out_of_fuel_traps == before.out_of_fuel_traps,
        after.epoch_traps == before.epoch_traps,
{
}

/// A share of a quota is granted exactly when what is in use and what is asked for stay
/// within the limit together, up to the limit itself; the use of that quota then grows by
/// the share, and nothing is refused.
pub proof fn shares_are_granted_up_to_the_limit(
    s: WasmRuntimeStats,
    kind: CounterKind,
    amount: usize,
    limit: usize,
)
    ensures
        s.admits(CounterKind::Compile, amount, limit) <==> s.active_compiles + amount <= limit,
        s.admits(CounterKind::Instantiate, amount, limit) <==> s.active_instantiates + amount
            <= limit,
        s.admits(CounterKind::Store, amount, limit) <==> s.active_stores + amount <= limit,
        s.admits(CounterKind::Memory, amount, limit) <==> s.reserved_linear_memory + amount
            <= limit,
        s.admits(CounterKind::Invocation, amount, limit) <==> s.outstanding_invocations + amount
            <= limit,
        s.admits(kind, amount, limit) ==> {
            let t = s.asked(kind, amount, limit);
            &&& t.in_use(kind) == s.in_use(kind) + amount
            &&& t.denied_compiles == s.denied_compiles
            &&& t.denied_instantiates == s.denied_instantiates
            &&& t.denied_stores == s.denied_stores
            &&& t.denied_invocations == s.denied_invocations
            &&& t.resource_denials == s.resource_denials
        },
        !s.admits(kind, amount, limit) ==> s.asked(kind, amount, limit).in_use(kind) == s.in_use(
            kind,
        ),
{
}

/// A refusal is counted once, against the quota that refused; that of memory counts as one
/// of the store.
pub proof fn refusals_are_counted_once(
    s: WasmRuntimeStats,
    kind: CounterKind,
    amount: usize,
    limit: usize,
)
    requires
        !s.admits(kind, amount, limit),
        s.denied_compiles < u64::MAX,
        s.denied_instantiates < u64::MAX,
        s.denied_stores < u64::MAX,
        s.denied_invocations < u64::MAX,
    ensures
        ({
            let t = s.asked(kind, amount, limit);
            &&& t.denied_compiles - s.denied_compiles == (if kind == CounterKind::Compile {
                1int
            } else {
                0
            })
            &&& t.denied_instantiates - s.denied_instantiates == (if kind
                == CounterKind::Instantiate {
                1int
            } else {
                0
            })
            &&& t.denied_stores - s.denied_stores == (if kind == CounterKind::Store || kind
                == CounterKind::Memory {
                1int
            } else {
                0
            })
            &&& t.denied_invocations - s.denied_invocations == (if kind
                == CounterKind::Invocation {
                1int
            } else {
                0
            })
        }),
{
}

/// Setting one quota's use changes that quota's counter and no other.
pub proof fn quota_use_is_set_in_place(
    s: WasmRuntimeStats,
    kind: CounterKind,
    other: CounterKind,
    amount: usize,
)
    ensures
        s.with_in_use(kind, amount).in_use(kind) == amount,
        other != kind ==> s.with_in_use(kind, amount).in_use(other) == s.in_use(other),
        s.with_in_use(kind, amount).with_in_use(kind, s.in_use(kind)) == s,
        s.in_use(CounterKind::Compile) == s.active_compiles,
        s.in_use(CounterKind::Instantiate) == s.active_instantiates,
        s.in_use(CounterKind::Store) == s.active_stores,
        s.in_use(CounterKind::Memory) == s.reserved_linear_memory,
        s.in_use(CounterKind::Invocation) == s.outstanding_invocations,
{
}

} // verus!
