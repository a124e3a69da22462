//! Instantiating a component: the quotas that are taken, how the store is set
//! up, and what each failure is reported as.
use crate::text::cat;
use crate::time::Interval;
use crate::wasm::fault::{WasmError, WasmErrorView, WasmResult};
use crate::wasm::host;
use crate::wasm::host::{epoch_deadline_ticks, WasmHost, WasmWorkloadKind};
use crate::wasm::limits;
use crate::wasm::limits::{
    CounterKind, QuotaPermit, RuntimeCounters, StorePermit, WasmRuntimeLimits, WasmRuntimeStats,
};
use vstd::prelude::*;
use vstd::string::*;

verus! {

/// How a new store is set up before the component is instantiated in it.
#[derive(Debug, Clone, Copy, PartialEq, Eq, Structural)]
pub struct StorePlan {
    /// Fuel between two cooperative yields, if any.
    pub fuel_async_yield_interval: Option<u64>,
    /// Fuel that instantiation may burn.
    pub fuel: u64,
    /// Epoch deadline of the instantiation.
    pub deadline_ticks: u64,
    /// Time that instantiation may take.
    pub timeout: Interval,
}

/// What came of instantiating a component.
#[derive(Debug)]
pub enum InstantiateOutcome {
    /// The system interface could not be linked.
    SystemLinkFailed(String),
    /// The host interface could not be linked.
    HostLinkFailed(String),
    /// The yield interval could not be set.
    YieldIntervalFailed(String),
    /// Fuel could not be set.
    FuelFailed(String),
    /// The component could not be instantiated.
    Failed(String),
    /// The component was not instantiated in time.
    TimedOut,
    /// The instance is there.
    Ready,
}

/// The error of a failed instantiation.
pub open spec fn instantiate_error(
    world: WasmWorkloadKind,
    outcome: InstantiateOutcome,
    timeout: Interval,
) -> Option<WasmErrorView> {
    match outcome {
        InstantiateOutcome::SystemLinkFailed(t) => Some(
            WasmErrorView::LoadFailed("failed to register WASI p2 linker imports: "@ + t@),
        ),
        InstantiateOutcome::HostLinkFailed(t) => Some(
            WasmErrorView::LoadFailed(
                (match world {
                    WasmWorkloadKind::V1Serial => {
                        "failed to register actr:workload/host linker imports: "@
                    },
                    WasmWorkloadKind::V2Concurrent => {
                        "failed to register actr:workload/host@0.2.0 linker imports: "@
                    },
                }) + t@,
            ),
        ),
        InstantiateOutcome::YieldIntervalFailed(t) => Some(
            WasmErrorView::LoadFailed("set fuel_async_yield_interval: "@ + t@),
        ),
        InstantiateOutcome::FuelFailed(t) => Some(WasmErrorView::LoadFailed("set fuel: "@ + t@)),
        InstantiateOutcome::Failed(t) => Some(
            WasmErrorView::LoadFailed(
                (match world {
                    WasmWorkloadKind::V1Serial => "Component instantiate_async failed: "@,
                    WasmWorkloadKind::V2Concurrent => "Component instantiate_async (v2) failed: "@,
                }) + t@,
            ),
        ),
        InstantiateOutcome::TimedOut => Some(WasmErrorView::InvocationTimeout(timeout)),
        InstantiateOutcome::Ready => None,
    }
}

/// The counters after an instantiation came out as `outcome`, apart from the
/// slot that it gives back.
pub open spec fn instantiate_counted(
    outcome: InstantiateOutcome,
    before: WasmRuntimeStats,
) -> WasmRuntimeStats {
    match outcome {
        InstantiateOutcome::Failed(_) => WasmRuntimeStats {
            instantiate_failures: limits::bumped(before.instantiate_failures),
            ..before
        },
        InstantiateOutcome::TimedOut => WasmRuntimeStats {
            instantiate_failures: limits::bumped(before.instantiate_failures),
            invocation_timeouts: limits::bumped(before.invocation_timeouts),
            ..before
        },
        _ => before,
    }
}

/// One instantiation, which holds an instantiation slot while it lasts.
#[derive(Debug)]
pub struct InstantiateRun {
    world: WasmWorkloadKind,
    timeout: Interval,
    permit: QuotaPermit,
}

impl InstantiateRun {
    /// The world that the component was built for.
    pub closed spec fn world(self) -> WasmWorkloadKind {
        self.world
    }

    /// Time that instantiation may take.
    pub closed spec fn timeout(self) -> Interval {
        self.timeout
    }

    #[verifier::type_invariant]
    spec fn well_formed(self) -> bool {
        self.permit.kind() == CounterKind::Instantiate && self.permit.amount() == 1
    }

    /// Ask for an instantiation slot. Gives the run and how its store is set up.
    pub fn begin(
        world: WasmWorkloadKind,
        limits: &WasmRuntimeLimits,
        counters: &mut RuntimeCounters,
    ) -> (r: WasmResult<(InstantiateRun, StorePlan)>)
        ensures
            final(counters)@ == old(counters)@.asked(
                CounterKind::Instantiate,
                1,
                limits.max_concurrent_instantiates,
            ),
            if old(counters)@.admits(
                CounterKind::Instantiate,
                1,
                limits.max_concurrent_instantiates,
            ) {
                &&& r matches Ok((run, plan)) && run.world() == world && run.timeout()
                    == limits.invocation_timeout && plan == (StorePlan {
                    fuel_async_yield_interval: limits.fuel_async_yield_interval,
                    fuel: limits.fuel_per_invocation,
                    deadline_ticks: host::deadline_ticks(
                        limits.epoch_tick.nanos(),
                        limits.invocation_timeout.nanos(),
                    ) as u64,
                    timeout: limits.invocation_timeout,
                })
            } else {
                r matches Err(e) && e@ == WasmErrorView::ResourceLimitExceeded(
                    "concurrent component instantiations"@,
                )
            },
    {
        match counters.acquire_instantiate(limits) {
            Ok(permit) => {
                let plan = StorePlan {
                    fuel_async_yield_interval: limits.fuel_async_yield_interval,
                    fuel: limits.fuel_per_invocation,
                    deadline_ticks: epoch_deadline_ticks(limits),
                    timeout: limits.invocation_timeout,
                };
                let run = InstantiateRun { world, timeout: limits.invocation_timeout, permit };
                Ok((run, plan))
            },
            Err(e) => Err(e),
        }
    }

    /// The instantiation came out as `outcome`: its slot is given back, and a
    /// failure of the component itself is counted.
    pub fn finish(self, outcome: InstantiateOutcome, counters: &mut RuntimeCounters) -> (r:
        WasmResult<()>)
        requires
            old(counters)@.active_instantiates >= 1,
        ensures
            match instantiate_error(self.world(), outcome, self.timeout()) {
                Some(error) => r matches Err(e) && e@ == error,
                None => r is Ok,
            },
            final(counters)@ == instantiate_counted(
                outcome,
                old(counters)@.with_in_use(
                    CounterKind::Instantiate,
                    (old(counters)@.active_instantiates - 1) as usize,
                ),
            ),
    {
        proof {
            use_type_invariant(&self);
        }
        counters.release(self.permit);
        match outcome {
            InstantiateOutcome::SystemLinkFailed(t) => Err(
                WasmError::LoadFailed(
                    cat("failed to register WASI p2 linker imports: ", t.as_str()),
                ),
            ),
            InstantiateOutcome::HostLinkFailed(t) => {
                let heading: &str = match self.world {
                    WasmWorkloadKind::V1Serial => {
                        "failed to register actr:workload/host linker imports: "
                    },
                    WasmWorkloadKind::V2Concurrent => {
                        "failed to register actr:workload/host@0.2.0 linker imports: "
                    },
                };
                Err(WasmError::LoadFailed(cat(heading, t.as_str())))
            },
            InstantiateOutcome::YieldIntervalFailed(t) => Err(
                WasmError::LoadFailed(cat("set fuel_async_yield_interval: ", t.as_str())),
            ),
            InstantiateOutcome::FuelFailed(t) => Err(
                WasmError::LoadFailed(cat("set fuel: ", t.as_str())),
            ),
            InstantiateOutcome::Failed(t) => {
                counters.record_instantiate_failure();
                let heading: &str = match self.world {
                    WasmWorkloadKind::V1Serial => "Component instantiate_async failed: ",
                    WasmWorkloadKind::V2Concurrent => {
                        "Component instantiate_async (v2) failed: "
                    },
                };
                Err(WasmError::LoadFailed(cat(heading, t.as_str())))
            },
            InstantiateOutcome::TimedOut => {
                counters.record_instantiate_failure();
                counters.record_timeout();
                Err(WasmError::InvocationTimeout(self.timeout))
            },
            InstantiateOutcome::Ready => Ok(()),
        }
    }
}

impl WasmHost {
    /// Ask for a store and decide which world its instance is driven through. A
    /// component without a recognised world gives the store's shares back.
    pub fn instantiate(&self, counters: &mut RuntimeCounters) -> (r: WasmResult<
        (StorePermit, WasmWorkloadKind),
    >)
        ensures
            if !old(counters)@.admits(CounterKind::Store, 1, self.limits().max_active_stores) {
                &&& r matches Err(e) && e@ == WasmErrorView::ResourceLimitExceeded(
                    "active WASM stores"@,
                )
                &&& final(counters)@ == old(counters)@.with_denial(CounterKind::Store)
            } else if !old(counters)@.admits(
                CounterKind::Memory,
                self.limits().max_linear_memory,
                self.limits().max_total_linear_memory,
            ) {
                &&& r matches Err(e) && e@ == WasmErrorView::ResourceLimitExceeded(
                    "aggregate configured linear memory"@,
                )
                &&& final(counters)@ == old(counters)@.with_denial(CounterKind::Memory)
            } else {
                match host::world_of(self.exports()) {
                    Err(error) => {
                        &&& r matches Err(e) && e@ == error
                        &&& final(counters)@ == old(counters)@
                    },
                    Ok(world) => {
                        &&& r matches Ok((permit, kind)) && kind == world && permit.reserved()
                            == self.limits().max_linear_memory
                        &&& final(counters)@ == old(counters)@.asked(
                            CounterKind::Store,
                            1,
                            self.limits().max_active_stores,
                        ).asked(
                            CounterKind::Memory,
                            self.limits().max_linear_memory,
                            self.limits().max_total_linear_memory,
                        )
                    },
                }
            },
    {
        let limits: &WasmRuntimeLimits = self.limits_ref();
        let permit: StorePermit = match counters.acquire_store(limits) {
            Ok(permit) => permit,
            Err(e) => return Err(e),
        };
        match self.world() {
            Ok(world) => Ok((permit, world)),
            Err(e) => {
                counters.release_store(permit);
                Err(e)
            },
        }
    }
}

/// However an instantiation ends, its slot is free again, and only a failure of
/// the component itself is counted as one.
pub proof fn instantiation_slots_are_returned(
    outcome: InstantiateOutcome,
    before: WasmRuntimeStats,
    limit: usize,
)
    requires
        before.admits(CounterKind::Instantiate, 1, limit),
    ensures
        ({
            let during = before.asked(CounterKind::Instantiate, 1, limit);
            let after = instantiate_counted(
                outcome,
                during.with_in_use(
                    CounterKind::Instantiate,
                    (during.active_instantiates - 1) as usize,
                ),
            );
            &&& after.active_instantiates == before.active_instantiates
            &&& outcome is Ready ==> after == before
        }),
{
}

/// An instantiation succeeds exactly when the instance is there; a timeout is reported as
/// one, with the time that was allowed, and every other failure as a load failure that ends
/// with its text.
pub proof fn only_ready_instances_succeed(
    world: WasmWorkloadKind,
    outcome: InstantiateOutcome,
    timeout: Interval,
)
    ensures
        instantiate_error(world, outcome, timeout) is None <==> outcome is Ready,
        instantiate_error(world, outcome, timeout) matches Some(e) ==> (e is InvocationTimeout
            <==> outcome is TimedOut) && (e is LoadFailed <==> outcome !is TimedOut),
        outcome is TimedOut ==> instantiate_error(world, outcome, timeout) == Some(
            WasmErrorView::InvocationTimeout(timeout),
        ),
        outcome matches InstantiateOutcome::Failed(t) ==> t@.is_suffix_of(
            instantiate_error(world, outcome, timeout)->Some_0->LoadFailed_0,
        ),
        outcome matches InstantiateOutcome::SystemLinkFailed(t) ==> t@.is_suffix_of(
            instantiate_error(world, outcome, timeout)->Some_0->LoadFailed_0,
        ),
        outcome matches InstantiateOutcome::HostLinkFailed(t) ==> t@.is_suffix_of(
            instantiate_error(world, outcome, timeout)->Some_0->LoadFailed_0,
        ),
        outcome matches InstantiateOutcome::YieldIntervalFailed(t) ==> t@.is_suffix_of(
            instantiate_error(world, outcome, timeout)->Some_0->LoadFailed_0,
        ),
        outcome matches InstantiateOutcome::FuelFailed(t) ==> t@.is_suffix_of(
            instantiate_error(world, outcome, timeout)->Some_0->LoadFailed_0,
        ),
{
    if let Some(WasmErrorView::LoadFailed(m)) = instantiate_error(world, outcome, timeout) {
        let t = match outcome {
            InstantiateOutcome::SystemLinkFailed(t) => t@,
            InstantiateOutcome::HostLinkFailed(t) => t@,
            InstantiateOutcome::YieldIntervalFailed(t) => t@,
            InstantiateOutcome::FuelFailed(t) => t@,
            InstantiateOutcome::Failed(t) => t@,
            _ => m,
        };
        assert(m.subrange(m.len() - t.len(), m.len() as int) =~= t);
    }
}

/// A component that fails to instantiate, or does not in time, is counted once; a timeout is
/// counted as one besides; and a failure of the host is counted nowhere.
pub proof fn failed_instantiations_are_counted(
    outcome: InstantiateOutcome,
    before: WasmRuntimeStats,
)
    requires
        before.instantiate_failures < u64::MAX,
        before.invocation_timeouts < u64::MAX,
    ensures
        ({
            let after = instantiate_counted(outcome, before);
            &&& after.instantiate_failures - before.instantiate_failures == (if outcome is Failed
                || outcome is TimedOut {
                1int
            } else {
                0
            })
            &&& after.invocation_timeouts - before.invocation_timeouts == (if outcome is TimedOut {
                1int
            } else {
                0
            })
            &&& after.active_instantiates == before.active_instantiates
            &&& after.active_stores == before.active_stores
            &&& after.resource_denials == before.resource_denials
        }),
{
}

} // verus!
