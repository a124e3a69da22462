//! Sandboxed workloads: limits, faults, entries and the resident region.

use actr_hyper::lifecycle::LifecyclePhase;
use actr_hyper::protocol::{ActrError, ErrorKind};
use actr_hyper::time::Interval;
use actr_hyper::test_support::TestWasmWorkload;
use actr_hyper::wasm::fault::{
    classify_trap, truncate_utf8, TrapCode, TrapReport, WasmError, WasmResult,
    MAX_TRAP_MESSAGE_BYTES,
};
use actr_hyper::wasm::fuel::{fuel_cap, RegionFuelBudget};
use actr_hyper::wasm::host::{
    engine_settings, epoch_deadline_ticks, load_error, probe_world, EntryAction, EntryPoint,
    EntryRun, GuestOutcome, HookEntry, SerialInstance, WasmHost, WasmWorkloadKind,
};
use actr_hyper::wasm::instantiate::{InstantiateOutcome, InstantiateRun};
use actr_hyper::wasm::invocation_run::{InvocationAction, InvocationRun};
use actr_hyper::wasm::invocations::InvocationTable;
use actr_hyper::wasm::limits::{
    wasm_runtime_stats, RuntimeCounters, StoreResourceLimiter, WasmRuntimeLimits,
};
use actr_hyper::wasm::resident::{
    guest_call_completion, Accepted, AfterRebuild, AfterSeed, BarrierStep, Collapse, Command,
    CommandKind, GuestCall, GuestCallCompletion, LastReply, RegionStep, Reply, ResidentRunner,
    Supervise,
};

// ── store limits ─────────────────────────────────────────────────────────────

fn non_trapping_limits(memory: usize, tables: u32) -> WasmRuntimeLimits {
    WasmRuntimeLimits {
        max_linear_memory: memory,
        max_table_elements: tables,
        trap_on_grow_failure: false,
        ..WasmRuntimeLimits::default()
    }
}

#[test]
fn aggregate_memory_limit_spans_multiple_memories() {
    let mut counters = RuntimeCounters::default();
    let mut limiter = StoreResourceLimiter::new(&non_trapping_limits(64, 64));

    assert!(limiter.memory_growing(0, 40, &mut counters).unwrap());
    assert!(!limiter.memory_growing(0, 40, &mut counters).unwrap());
    assert!(limiter.memory_growing(0, 24, &mut counters).unwrap());
    assert_eq!(wasm_runtime_stats(&counters).resource_denials, 1);
}

#[test]
fn failed_memory_growth_retains_conservative_reservation() {
    let mut counters = RuntimeCounters::default();
    let mut limiter = StoreResourceLimiter::new(&non_trapping_limits(64, 64));

    assert!(limiter.memory_growing(0, 48, &mut counters).unwrap());
    assert_eq!(limiter.memory_grow_failed(), None);
    assert!(!limiter.memory_growing(0, 64, &mut counters).unwrap());
    assert!(limiter.memory_growing(0, 16, &mut counters).unwrap());
}

#[test]
fn aggregate_table_limit_spans_multiple_tables() {
    let mut counters = RuntimeCounters::default();
    let mut limiter = StoreResourceLimiter::new(&non_trapping_limits(64, 10));

    assert!(limiter.table_growing(0, 6, &mut counters).unwrap());
    assert!(!limiter.table_growing(0, 5, &mut counters).unwrap());
    assert!(limiter.table_growing(0, 4, &mut counters).unwrap());
}

#[test]
fn trapping_denial_has_typed_cause() {
    let mut counters = RuntimeCounters::default();
    let mut limiter = StoreResourceLimiter::new(&WasmRuntimeLimits {
        max_linear_memory: 64,
        ..WasmRuntimeLimits::default()
    });

    let limit = limiter.memory_growing(0, 65, &mut counters).unwrap_err();
    assert_eq!(limit.label(), "aggregate linear memory per Store");
}

#[test]
fn growing_one_memory_counts_only_the_difference() {
    let mut counters = RuntimeCounters::default();
    let mut limiter = StoreResourceLimiter::new(&non_trapping_limits(64, 64));
    assert!(limiter.memory_growing(0, 32, &mut counters).unwrap());
    assert!(limiter.memory_growing(32, 64, &mut counters).unwrap());
    assert!(!limiter.memory_growing(64, 65, &mut counters).unwrap());
}

#[test]
fn trapping_failures_name_their_context() {
    let limiter = StoreResourceLimiter::new(&WasmRuntimeLimits::default());
    assert_eq!(
        limiter.memory_grow_failed(),
        Some("forcing a memory growth failure to be a trap")
    );
    assert_eq!(
        limiter.table_grow_failed(),
        Some("forcing a table growth failure to be a trap")
    );
}

// ── quotas ───────────────────────────────────────────────────────────────────

#[test]
fn quotas_are_taken_and_given_back() {
    let mut counters = RuntimeCounters::default();
    let limits = WasmRuntimeLimits {
        max_outstanding_invocations: 1,
        ..WasmRuntimeLimits::default()
    };
    let permit = counters.acquire_invocation(&limits).unwrap();
    assert_eq!(wasm_runtime_stats(&counters).outstanding_invocations, 1);
    assert_eq!(
        counters.acquire_invocation(&limits).unwrap_err(),
        WasmError::ResourceLimitExceeded("outstanding WASM invocations")
    );
    assert_eq!(wasm_runtime_stats(&counters).denied_invocations, 1);
    counters.release(permit);
    assert_eq!(wasm_runtime_stats(&counters).outstanding_invocations, 0);
    assert!(counters.acquire_invocation(&limits).is_ok());
}

#[test]
fn a_store_reserves_its_memory() {
    let mut counters = RuntimeCounters::default();
    let limits = WasmRuntimeLimits {
        max_active_stores: 8,
        max_linear_memory: 100,
        max_total_linear_memory: 150,
        ..WasmRuntimeLimits::default()
    };
    let permit = counters.acquire_store(&limits).unwrap();
    let stats = wasm_runtime_stats(&counters);
    assert_eq!((stats.active_stores, stats.reserved_linear_memory), (1, 100));
    assert_eq!(
        counters.acquire_store(&limits).unwrap_err(),
        WasmError::ResourceLimitExceeded("aggregate configured linear memory")
    );
    // The refused store holds nothing.
    let stats = wasm_runtime_stats(&counters);
    assert_eq!((stats.active_stores, stats.reserved_linear_memory), (1, 100));
    counters.release_store(permit);
    let stats = wasm_runtime_stats(&counters);
    assert_eq!((stats.active_stores, stats.reserved_linear_memory), (0, 0));
}

// ── compiling ────────────────────────────────────────────────────────────────

fn compile(bytes: &[u8]) -> WasmResult<WasmHost> {
    let mut counters = RuntimeCounters::default();
    WasmHost::compile(bytes, false, &mut counters)
}

#[test]
fn compile_rejects_non_wasm_bytes() {
    let err = compile(b"definitely not a wasm component").err().unwrap();
    assert!(matches!(err, WasmError::LoadFailed(_)));
    assert!(err.to_text().contains("Component"));
}

#[test]
fn compile_rejects_empty_bytes() {
    let err = compile(&[]).err().unwrap();
    assert!(matches!(err, WasmError::LoadFailed(_)));
}

#[test]
fn compile_with_limits_rejects_oversized_component_before_parsing() {
    let limits = WasmRuntimeLimits {
        max_component_bytes: 3,
        ..WasmRuntimeLimits::default()
    };
    let mut counters = RuntimeCounters::default();
    let error = WasmHost::compile_with_limits(b"\0asm", &limits, None, false, &mut counters)
        .err()
        .unwrap();
    assert!(matches!(
        error,
        WasmError::ResourceLimitExceeded("component byte size")
    ));
    assert_eq!(wasm_runtime_stats(&counters).resource_denials, 1);
}

#[test]
fn invalid_limits_are_refused_before_anything_else() {
    let limits = WasmRuntimeLimits {
        max_component_bytes: 3,
        ..WasmRuntimeLimits::default()
    };
    let mut counters = RuntimeCounters::default();
    let complaint = Some("max_memories must not be zero".to_string());
    let error = WasmHost::compile_with_limits(b"\0asm", &limits, complaint, false, &mut counters)
        .err()
        .unwrap();
    assert_eq!(
        error.to_text(),
        "WASM package verification failed: max_memories must not be zero"
    );
    assert_eq!(wasm_runtime_stats(&counters).resource_denials, 0);
}

#[test]
fn engine_takes_its_stacks_from_the_limits() {
    let limits = WasmRuntimeLimits {
        max_wasm_stack: 8,
        async_stack_size: 4,
        ..WasmRuntimeLimits::default()
    };
    let settings = engine_settings(&limits, true);
    assert!(settings.fast_compile && !engine_settings(&limits, false).fast_compile);
    assert_eq!((settings.max_wasm_stack, settings.async_stack_size), (8, 4));
    assert!(settings.component_model && settings.component_model_async);
    assert!(settings.concurrency_support && settings.consume_fuel);
    assert!(settings.epoch_interruption);

    // The engine refuses a guest stack that its fibers cannot hold.
    let mut counters = RuntimeCounters::default();
    let bytes = wat::parse_str("(component)").unwrap();
    let error = WasmHost::compile_with_limits(&bytes, &limits, None, false, &mut counters)
        .err()
        .unwrap();
    assert!(error
        .to_text()
        .starts_with("WASM module load failed: wasmtime engine construction failed: "));
    let stats = wasm_runtime_stats(&counters);
    assert_eq!((stats.compile_failures, stats.active_compiles), (0, 0));
}

#[test]
fn fast_compilation_finds_the_same_exports() {
    let src = r#"(component (instance $w) (export "actr:workload/workload@0.2.0" (instance $w)))"#;
    let limits = WasmRuntimeLimits::default();
    let mut counters = RuntimeCounters::default();
    let bytes = wat::parse_str(src).unwrap();
    let host = WasmHost::compile_with_limits(&bytes, &limits, None, true, &mut counters).unwrap();
    assert_eq!(host.world().unwrap(), WasmWorkloadKind::V2Concurrent);
}

#[test]
fn compile_rejects_legacy_core_module_magic() {
    // `\0asm` magic + invalid body must still fail (host requires
    // Component Model binaries).
    let bogus = b"\0asm\x01\x00\x00\x00garbage";
    let err = compile(bogus).err().unwrap();
    assert!(matches!(err, WasmError::LoadFailed(_)));
}

#[test]
fn failed_compilations_are_counted_and_free_their_slot() {
    let mut counters = RuntimeCounters::default();
    assert!(WasmHost::compile(b"nonsense", false, &mut counters).is_err());
    let stats = wasm_runtime_stats(&counters);
    assert_eq!((stats.compile_failures, stats.active_compiles), (1, 0));
}

/// Compile a WAT component source and decide which world it implements.
fn probe_wat(src: &str) -> WasmResult<WasmWorkloadKind> {
    let bytes = wat::parse_str(src).expect("test WAT must assemble");
    compile(&bytes).expect("component must load").world()
}

#[test]
fn probe_world_rejects_component_without_workload_world() {
    let err = probe_wat("(component)").unwrap_err();
    assert!(matches!(err, WasmError::LoadFailed(_)));
    assert!(
        err.to_text().contains("no recognised"),
        "unexpected message: {}",
        err.to_text()
    );
}

#[test]
fn probe_world_rejects_component_exporting_both_worlds() {
    let src = r#"
        (component
          (instance $v1)
          (instance $v2)
          (export "actr:workload/workload@0.1.0" (instance $v1))
          (export "actr:workload/workload@0.2.0" (instance $v2))
        )
    "#;
    let err = probe_wat(src).unwrap_err();
    assert!(matches!(err, WasmError::LoadFailed(_)));
    assert!(
        err.to_text().contains("both"),
        "unexpected message: {}",
        err.to_text()
    );
}

#[test]
fn probe_world_recognises_each_world() {
    for (version, kind) in [
        ("0.1.0", WasmWorkloadKind::V1Serial),
        ("0.2.0", WasmWorkloadKind::V2Concurrent),
    ] {
        let src = format!(
            "(component (instance $w) (export \"actr:workload/workload@{version}\" (instance $w)))"
        );
        assert_eq!(probe_wat(&src).unwrap(), kind);
        let names = vec![format!("actr:workload/workload@{version}")];
        assert_eq!(probe_world(&names).unwrap(), kind);
    }
}

#[test]
fn instantiation_takes_a_store_only_for_a_known_world() {
    let mut counters = RuntimeCounters::default();
    let bytes = wat::parse_str("(component)").unwrap();
    let host = WasmHost::compile(&bytes, false, &mut counters).unwrap();
    assert!(host.instantiate(&mut counters).is_err());
    assert_eq!(wasm_runtime_stats(&counters).active_stores, 0);

    let src = r#"(component (instance $w) (export "actr:workload/workload@0.1.0" (instance $w)))"#;
    let host = WasmHost::compile(&wat::parse_str(src).unwrap(), true, &mut counters).unwrap();
    let (permit, world) = host.instantiate(&mut counters).unwrap();
    assert_eq!(world, WasmWorkloadKind::V1Serial);
    assert_eq!(wasm_runtime_stats(&counters).active_stores, 1);
    counters.release_store(permit);
}

#[test]
fn instantiation_failures_are_reported() {
    let limits = WasmRuntimeLimits::default();
    let timeout = limits.invocation_timeout;
    for (world, outcome, expected) in [
        (
            WasmWorkloadKind::V1Serial,
            InstantiateOutcome::SystemLinkFailed("x".into()),
            Err(WasmError::LoadFailed(
                "failed to register WASI p2 linker imports: x".into(),
            )),
        ),
        (
            WasmWorkloadKind::V1Serial,
            InstantiateOutcome::HostLinkFailed("x".into()),
            Err(WasmError::LoadFailed(
                "failed to register actr:workload/host linker imports: x".into(),
            )),
        ),
        (
            WasmWorkloadKind::V2Concurrent,
            InstantiateOutcome::HostLinkFailed("x".into()),
            Err(WasmError::LoadFailed(
                "failed to register actr:workload/host@0.2.0 linker imports: x".into(),
            )),
        ),
        (
            WasmWorkloadKind::V1Serial,
            InstantiateOutcome::YieldIntervalFailed("x".into()),
            Err(WasmError::LoadFailed("set fuel_async_yield_interval: x".into())),
        ),
        (
            WasmWorkloadKind::V1Serial,
            InstantiateOutcome::FuelFailed("x".into()),
            Err(WasmError::LoadFailed("set fuel: x".into())),
        ),
        (
            WasmWorkloadKind::V1Serial,
            InstantiateOutcome::Failed("x".into()),
            Err(WasmError::LoadFailed(
                "Component instantiate_async failed: x".into(),
            )),
        ),
        (
            WasmWorkloadKind::V2Concurrent,
            InstantiateOutcome::Failed("x".into()),
            Err(WasmError::LoadFailed(
                "Component instantiate_async (v2) failed: x".into(),
            )),
        ),
        (
            WasmWorkloadKind::V2Concurrent,
            InstantiateOutcome::TimedOut,
            Err(WasmError::InvocationTimeout(timeout)),
        ),
        (WasmWorkloadKind::V2Concurrent, InstantiateOutcome::Ready, Ok(())),
    ] {
        let mut counters = RuntimeCounters::default();
        let (run, plan) = InstantiateRun::begin(world, &limits, &mut counters).unwrap();
        assert_eq!(plan.fuel, limits.fuel_per_invocation);
        assert_eq!(wasm_runtime_stats(&counters).active_instantiates, 1);
        assert_eq!(run.finish(outcome, &mut counters), expected);
        assert_eq!(wasm_runtime_stats(&counters).active_instantiates, 0);
    }
}

#[test]
fn old_packages_get_a_rebuild_hint() {
    let cause = "the `async` canonical option requires an async function type (at offset 0x10)";
    let err = load_error(cause);
    let WasmError::LoadFailed(message) = &err else {
        panic!("expected a load failure, got {err:?}");
    };
    assert!(message.contains("old SDK") && message.contains("Rebuild"));
    assert!(message.contains("async` canonical option requires an async function type"));
}

// ── deadlines ────────────────────────────────────────────────────────────────

#[test]
fn epoch_deadline_preserves_sub_millisecond_precision() {
    let limits = WasmRuntimeLimits {
        epoch_tick: Interval::from_micros(1),
        invocation_timeout: Interval::from_secs(5),
        ..WasmRuntimeLimits::default()
    };

    assert_eq!(epoch_deadline_ticks(&limits), 5_000_001);
}

#[test]
fn epoch_deadline_rounds_fractional_tick_up() {
    let limits = WasmRuntimeLimits {
        epoch_tick: Interval::from_micros(1_900),
        invocation_timeout: Interval::from_millis(5),
        ..WasmRuntimeLimits::default()
    };

    assert_eq!(epoch_deadline_ticks(&limits), 3);
}

#[test]
fn epoch_deadline_survives_a_zero_tick_and_saturates() {
    let limits = WasmRuntimeLimits {
        epoch_tick: Interval::from_nanos(0),
        invocation_timeout: Interval::from_nanos(7),
        ..WasmRuntimeLimits::default()
    };
    assert_eq!(epoch_deadline_ticks(&limits), 8);
    let limits = WasmRuntimeLimits {
        epoch_tick: Interval::from_nanos(1),
        invocation_timeout: Interval::from_secs(u64::MAX),
        ..WasmRuntimeLimits::default()
    };
    assert_eq!(epoch_deadline_ticks(&limits), u64::MAX);
}

#[test]
fn intervals_measure_time() {
    let i = Interval::from_millis(1_500);
    assert_eq!(i.as_secs(), 1);
    assert_eq!(i.subsec_nanos(), 500_000_000);
    assert_eq!(i.as_nanos(), 1_500_000_000);
    assert_eq!(i.min(Interval::from_secs(1)), Interval::from_secs(1));
    assert_eq!(Interval::from_micros(1_500), Interval::from_nanos(1_500_000));
}

// ── faults ───────────────────────────────────────────────────────────────────

fn report(code: Option<TrapCode>, limit: Option<&'static str>, message: &str) -> TrapReport {
    TrapReport {
        code,
        limit,
        message: message.to_string(),
    }
}

#[test]
fn traps_are_classified() {
    let mut counters = RuntimeCounters::default();
    let mut class = |r: TrapReport| classify_trap("dispatch", &r, &mut counters);
    assert_eq!(
        class(report(Some(TrapCode::OutOfFuel), None, "all fuel consumed")),
        WasmError::OutOfFuel
    );
    assert_eq!(
        class(report(Some(TrapCode::Interrupt), None, "interrupt")),
        WasmError::EpochInterrupted
    );
    assert_eq!(
        class(report(
            Some(TrapCode::Other),
            Some("aggregate linear memory per Store"),
            "x"
        )),
        WasmError::ResourceLimitExceeded("aggregate linear memory per Store")
    );
    assert_eq!(
        class(report(None, None, "forcing trap when growing memory to 64 bytes")),
        WasmError::ResourceLimitExceeded("per-store Wasmtime resource limit")
    );
    assert_eq!(
        class(report(Some(TrapCode::Other), None, "unreachable executed")),
        WasmError::InstanceTrapped("dispatch trap: unreachable executed".to_string())
    );
    let stats = wasm_runtime_stats(&counters);
    assert_eq!(
        (
            stats.out_of_fuel_traps,
            stats.epoch_traps,
            stats.resource_denials
        ),
        (1, 1, 1)
    );
}

#[test]
fn trap_texts_are_cut_between_characters() {
    assert_eq!(truncate_utf8("héllo", 2), "h");
    assert_eq!(truncate_utf8("héllo", 3), "hé");
    assert_eq!(truncate_utf8("héllo", 100), "héllo");
    assert_eq!(truncate_utf8("é", 0), "");
    let long = "é".repeat(MAX_TRAP_MESSAGE_BYTES);
    let mut counters = RuntimeCounters::default();
    match classify_trap("x", &report(None, None, &long), &mut counters) {
        WasmError::InstanceTrapped(t) => {
            assert_eq!(t.len(), "x trap: ".len() + MAX_TRAP_MESSAGE_BYTES)
        }
        other => panic!("unexpected class {other:?}"),
    }
}

#[test]
fn fault_texts() {
    assert_eq!(
        WasmError::InvocationTimeout(Interval::from_millis(1_500)).to_text(),
        "WASM invocation timed out after 1.5s"
    );
    assert_eq!(
        WasmError::OutOfFuel.to_text(),
        "WASM invocation exceeded fuel budget"
    );
    assert_eq!(
        WasmError::LoadFailed("x".into()).to_text(),
        "WASM module load failed: x"
    );
    assert_eq!(
        WasmError::ResourceLimitExceeded("x").to_text(),
        "WASM resource limit exceeded: x"
    );
}

// ── entries ──────────────────────────────────────────────────────────────────

fn enter(
    instance: &mut SerialInstance,
    outcome: GuestOutcome<u8>,
    counters: &mut RuntimeCounters,
) -> WasmResult<u8> {
    let limits = WasmRuntimeLimits::default();
    let mut run = EntryRun::new(WasmWorkloadKind::V1Serial, EntryPoint::Dispatch, None);
    let mut action: EntryAction<u8> = run.start(instance, &limits, counters);
    if let EntryAction::Rebuild = action {
        action = run.rebuilt(instance, Ok(()), &limits, counters);
    }
    match action {
        EntryAction::SetFuel {
            fuel,
            deadline_ticks,
        } => {
            assert_eq!(fuel, limits.fuel_per_invocation);
            assert_eq!(deadline_ticks, epoch_deadline_ticks(&limits));
        }
        other => panic!("expected fuel to be seeded, got {other:?}"),
    }
    match run.fuel_set::<u8>(instance, Ok(()), counters) {
        EntryAction::CallGuest => {}
        other => panic!("expected a guest call, got {other:?}"),
    }
    run.finished(instance, outcome, &limits, counters)
}

#[test]
fn a_trap_rebuilds_and_a_business_error_does_not() {
    let mut counters = RuntimeCounters::default();
    let mut instance = SerialInstance::new();
    assert_eq!(
        enter(&mut instance, GuestOutcome::Returned(7), &mut counters),
        Ok(7)
    );
    assert_eq!(
        enter(
            &mut instance,
            GuestOutcome::Refused("NotFound(\"x\")".into()),
            &mut counters
        ),
        Err(WasmError::ExecutionFailed(
            "guest dispatch returned error: NotFound(\"x\")".into()
        ))
    );
    assert!(!instance.is_poisoned());
    assert_eq!(instance.rebuild_count(), 0);
    let trapped = enter(
        &mut instance,
        GuestOutcome::Trapped(report(Some(TrapCode::Other), None, "boom")),
        &mut counters,
    );
    assert_eq!(
        trapped,
        Err(WasmError::InstanceTrapped("dispatch trap: boom".into()))
    );
    assert!(instance.is_poisoned());
    assert_eq!(
        enter(&mut instance, GuestOutcome::Returned(8), &mut counters),
        Ok(8)
    );
    assert_eq!(instance.rebuild_count(), 1);
    assert!(!instance.is_poisoned());
    let late = enter(&mut instance, GuestOutcome::TimedOut, &mut counters);
    assert!(matches!(late, Err(WasmError::InvocationTimeout(_))));
    let stats = wasm_runtime_stats(&counters);
    assert_eq!(
        (stats.outstanding_invocations, stats.invocation_timeouts),
        (0, 1)
    );
}

#[test]
fn entries_fail_before_the_guest_is_reached() {
    let mut counters = RuntimeCounters::default();
    let limits = WasmRuntimeLimits {
        max_outstanding_invocations: 0,
        ..WasmRuntimeLimits::default()
    };
    let mut instance = SerialInstance::new();
    let mut run = EntryRun::new(
        WasmWorkloadKind::V1Serial,
        EntryPoint::Dispatch,
        Some("bad wire type".to_string()),
    );
    match run.start::<u8>(&mut instance, &limits, &mut counters) {
        EntryAction::Done(Err(e)) => assert_eq!(
            e,
            WasmError::ExecutionFailed(
                "host failed to decode RpcEnvelope before dispatch: bad wire type".into()
            )
        ),
        other => panic!("unexpected action {other:?}"),
    }
    let mut run = EntryRun::new(WasmWorkloadKind::V1Serial, EntryPoint::OnStart, None);
    match run.start::<u8>(&mut instance, &limits, &mut counters) {
        EntryAction::Done(Err(e)) => assert_eq!(
            e,
            WasmError::ResourceLimitExceeded("outstanding WASM invocations")
        ),
        other => panic!("unexpected action {other:?}"),
    }
}

#[test]
fn failed_rebuilds_keep_quota_errors_recognisable() {
    let limits = WasmRuntimeLimits::default();
    for (world, error, expected) in [
        (
            WasmWorkloadKind::V1Serial,
            WasmError::ResourceLimitExceeded("active WASM stores"),
            WasmError::ResourceLimitExceeded("active WASM stores"),
        ),
        (
            WasmWorkloadKind::V1Serial,
            WasmError::LoadFailed("x".into()),
            WasmError::LoadFailed(
                "failed to rebuild poisoned wasm store: WASM module load failed: x".into(),
            ),
        ),
        (
            WasmWorkloadKind::V2Concurrent,
            WasmError::OutOfFuel,
            WasmError::LoadFailed(
                "failed to rebuild poisoned wasm store (v2): WASM invocation exceeded fuel budget"
                    .into(),
            ),
        ),
    ] {
        let mut counters = RuntimeCounters::default();
        let mut instance = SerialInstance::new();
        let _ = enter(&mut instance, GuestOutcome::TimedOut, &mut counters);
        let mut run = EntryRun::new(world, EntryPoint::OnReady, None);
        let _ = run.start::<u8>(&mut instance, &limits, &mut counters);
        match run.rebuilt::<u8>(&mut instance, Err(error), &limits, &mut counters) {
            EntryAction::Done(Err(e)) => assert_eq!(e, expected),
            other => panic!("unexpected action {other:?}"),
        }
        assert!(instance.is_poisoned());
    }
}

#[test]
fn entry_names() {
    assert_eq!(EntryPoint::OnStop.label_str(), "on_stop");
    assert_eq!(EntryPoint::DataChunk.label_str(), "on_data_chunk");
    assert_eq!(
        EntryPoint::Hook(HookEntry::WebRtcDisconnected).label_str(),
        "on_webrtc_disconnected"
    );
}

// ── invocation tokens ────────────────────────────────────────────────────────

#[test]
fn stream_callbacks_reach_their_own_invocation() {
    let mut table: InvocationTable<&str> = InvocationTable::new();
    let registering = table.alloc_invocation("registering");
    table.register_stream_context("s", registering);
    table.remove_invocation(registering);
    assert_eq!(table.invocation(registering), None);

    let (token, captured) = table.enter_guest("callback", Some("s"));
    assert_eq!(captured, Some(registering));
    assert_eq!(table.invocation(registering), Some(&"callback"));
    assert_eq!(table.invocation(token), Some(&"callback"));
    table.leave_guest(token, captured, false);
    assert_eq!(table.invocation(registering), None);
    assert_eq!(table.invocation_count(), 0);

    table.unregister_stream_context("s");
    let (token, captured) = table.enter_guest("again", Some("s"));
    assert_eq!(captured, None);
    table.leave_guest(token, captured, true);
    assert_eq!(table.alloc_invocation("fresh store"), 0);
}

// ── fuel ─────────────────────────────────────────────────────────────────────

#[test]
fn short_admission_churn_does_not_refill_a_long_lived_invocation() {
    const SLICE: u64 = 1_000;
    let mut budget = RegionFuelBudget::default();

    // The region is initially seeded with one slice. Reaching width two
    // earns the second and records the high-water mark.
    let mut fuel = budget.admission_target(SLICE, 1, SLICE);
    budget.record_admission(1);
    fuel = budget.admission_target(fuel, 2, SLICE);
    budget.record_admission(2);
    assert_eq!(fuel, 2 * SLICE);

    // The short sibling exits and the long-lived call then consumes most
    // of the remaining shared pool.
    fuel = budget.completion_target(fuel, 1, SLICE);
    assert_eq!(fuel, SLICE);
    fuel = 250;

    // Repeated 1 -> 2 -> 1 churn never earns another slice because the
    // busy generation already reached width two.
    for _ in 0..100 {
        fuel = budget.admission_target(fuel, 2, SLICE);
        budget.record_admission(2);
        assert_eq!(fuel, 250);
        fuel = budget.completion_target(fuel, 1, SLICE);
        assert_eq!(fuel, 250);
    }

    // Full quiescence starts a new generation, so a later independent
    // invocation receives its normal slice.
    assert_eq!(budget.completion_target(fuel, 0, SLICE), 0);
    fuel = budget.admission_target(0, 1, SLICE);
    budget.record_admission(1);
    assert_eq!(fuel, SLICE);
}

#[test]
fn fuel_saturates() {
    assert_eq!(fuel_cap(u64::MAX, 2), u64::MAX);
    assert_eq!(fuel_cap(7, 3), 21);
    let budget = RegionFuelBudget::default();
    assert_eq!(budget.admission_target(u64::MAX, 2, u64::MAX), u64::MAX);
}

// ── resident region ──────────────────────────────────────────────────────────

#[test]
fn inner_wasmtime_error_is_store_fatal() {
    let completion =
        guest_call_completion::<(), wasmtime::Error>(Err(wasmtime::Error::msg("guest trap")));
    assert!(matches!(completion, GuestCallCompletion::StoreFatal(_)));
    let completion = guest_call_completion::<u8, wasmtime::Error>(Ok(3));
    assert!(matches!(completion, GuestCallCompletion::Completed(3)));
}

fn limits() -> WasmRuntimeLimits {
    WasmRuntimeLimits {
        fuel_per_invocation: 1_000,
        max_outstanding_invocations: 3,
        invocation_timeout: Interval::from_secs(5),
        ..WasmRuntimeLimits::default()
    }
}

fn region(dispatch_timeout: Option<Interval>) -> ResidentRunner {
    let mut runner = ResidentRunner::new(limits(), dispatch_timeout);
    assert!(matches!(runner.supervise(), Supervise::Seed { fuel: 1_000, .. }));
    match runner.seeded(true) {
        AfterSeed::Run { generation } => assert_eq!(generation, 1),
        other => panic!("unexpected step {other:?}"),
    }
    runner
}

fn command(id: u64, kind: CommandKind) -> Option<Command> {
    Some(Command { id, kind })
}

fn started(step: Accepted) -> GuestCall {
    match step {
        Accepted::Started(call) => call,
        other => panic!("expected a guest call, got {other:?}"),
    }
}

#[test]
fn dispatches_run_side_by_side_and_share_fuel() {
    let mut counters = RuntimeCounters::default();
    let mut runner = region(Some(Interval::from_secs(60)));
    let first = started(runner.accept(
        command(10, CommandKind::Dispatch),
        false,
        1_000,
        &mut counters,
    ));
    assert_eq!((first.token, first.command, first.fuel), (0, 10, 1_000));
    // A longer dispatch timeout is cut to the invocation timeout.
    assert_eq!(first.deadline, Interval::from_secs(5));
    let second = started(runner.accept(
        command(11, CommandKind::Dispatch),
        false,
        900,
        &mut counters,
    ));
    assert_eq!((second.token, second.fuel), (1, 1_900));
    assert_eq!(wasm_runtime_stats(&counters).outstanding_invocations, 2);
    assert_eq!(runner.next_step(), RegionStep::Wait { accept: true });

    assert_eq!(runner.clamp_target(1, 1_700), 1_000);
    let done = runner.returned(1, Ok(vec![4, 2]), &mut counters);
    assert_eq!(done.command, 11);
    assert!(matches!(done.reply, Reply::Bytes(b) if b == vec![4, 2]));
    assert_eq!(runner.clamp_target(0, 400), 0);
    let done = runner.returned(0, Err("NotFound(\"x\")".into()), &mut counters);
    assert_eq!(done.command, 10);
    match done.reply {
        Reply::Failed(e) => assert_eq!(
            e,
            ActrError::Internal(
                "workload dispatch failed: guest dispatch returned error: NotFound(\"x\")".into()
            )
        ),
        other => panic!("unexpected reply {other:?}"),
    }
    assert_eq!(wasm_runtime_stats(&counters).outstanding_invocations, 0);
}

#[test]
fn a_barrier_waits_for_dispatches_and_runs_alone() {
    let mut counters = RuntimeCounters::default();
    let mut runner = region(None);
    let call = started(runner.accept(
        command(1, CommandKind::Dispatch),
        false,
        1_000,
        &mut counters,
    ));
    assert!(matches!(
        runner.accept(
            command(2, CommandKind::Lifecycle(LifecyclePhase::OnReady)),
            false,
            0,
            &mut counters
        ),
        Accepted::Waiting
    ));
    assert_eq!(runner.next_step(), RegionStep::Wait { accept: false });
    runner.returned(call.token, Ok(vec![]), &mut counters);
    assert_eq!(runner.next_step(), RegionStep::RunBarrier);
    assert_eq!(runner.waiting_barrier(), Some(2));
    let barrier = match runner.run_barrier(false, 0, &mut counters) {
        BarrierStep::Started(call) => call,
        other => panic!("unexpected step {other:?}"),
    };
    assert_eq!((barrier.command, barrier.fuel), (2, 1_000));
    // Nothing is taken until the barrier ends.
    assert_eq!(runner.next_step(), RegionStep::Wait { accept: false });
    let done = runner.returned(barrier.token, Err("Internal(\"x\")".into()), &mut counters);
    match done.reply {
        Reply::Failed(e) => assert_eq!(
            e,
            ActrError::Internal("workload on_ready failed: Internal(\"x\")".into())
        ),
        other => panic!("unexpected reply {other:?}"),
    }
    // Hooks cannot fail by themselves, and chunks name their entry.
    for (kind, text) in [
        (CommandKind::Hook(HookEntry::SignalingConnected), None),
        (
            CommandKind::DataChunk {
                stream_id: "s".into(),
            },
            Some("workload on_data_chunk failed: x"),
        ),
    ] {
        runner.accept(command(3, kind), false, 0, &mut counters);
        let token = match runner.run_barrier(false, 0, &mut counters) {
            BarrierStep::Started(call) => call.token,
            other => panic!("unexpected step {other:?}"),
        };
        let done = runner.returned(token, Err("x".into()), &mut counters);
        match (done.reply, text) {
            (Reply::Unit, None) => {}
            (Reply::Failed(ActrError::Internal(t)), Some(expected)) => assert_eq!(t, expected),
            (other, _) => panic!("unexpected reply {other:?}"),
        }
    }
}

#[test]
fn abandoned_and_refused_commands_never_enter_the_guest() {
    let mut counters = RuntimeCounters::default();
    let mut runner = region(None);
    assert!(matches!(
        runner.accept(command(1, CommandKind::Dispatch), true, 0, &mut counters),
        Accepted::Skipped
    ));
    for id in 2..5 {
        started(runner.accept(command(id, CommandKind::Dispatch), false, 0, &mut counters));
    }
    match runner.accept(command(5, CommandKind::Dispatch), false, 0, &mut counters) {
        Accepted::Denied(failed) => {
            assert_eq!(failed.command, 5);
            assert_eq!(
                failed.error,
                ActrError::Unavailable(
                    "WASM resource limit exceeded: outstanding WASM invocations".into()
                )
            );
        }
        other => panic!("unexpected step {other:?}"),
    }
}

#[test]
fn a_shutdown_is_carried_out_even_if_nobody_waits_for_it() {
    let mut counters = RuntimeCounters::default();
    let mut runner = region(None);
    assert!(matches!(
        runner.accept(command(7, CommandKind::Shutdown), true, 0, &mut counters),
        Accepted::Waiting
    ));
    assert!(matches!(
        runner.run_barrier(true, 0, &mut counters),
        BarrierStep::Shutdown(7)
    ));
}

#[test]
fn a_closed_region_ends_when_its_work_is_done() {
    let mut counters = RuntimeCounters::default();
    let mut runner = region(None);
    let call = started(runner.accept(
        command(1, CommandKind::Dispatch),
        false,
        0,
        &mut counters,
    ));
    assert!(matches!(
        runner.accept(None, false, 0, &mut counters),
        Accepted::Closing
    ));
    assert_eq!(runner.next_step(), RegionStep::Wait { accept: false });
    runner.returned(call.token, Ok(vec![]), &mut counters);
    assert_eq!(runner.next_step(), RegionStep::Closed);
}

fn three_in_flight(counters: &mut RuntimeCounters) -> ResidentRunner {
    let mut runner = region(None);
    for id in 1..4 {
        started(runner.accept(command(id, CommandKind::Dispatch), false, 0, counters));
    }
    runner
}

#[test]
fn a_timeout_blames_one_call_and_fails_its_siblings() {
    let mut counters = RuntimeCounters::default();
    let mut runner = three_in_flight(&mut counters);
    assert!(runner.deadline_is_live(1, 1));
    assert!(!runner.deadline_is_live(0, 1));
    assert!(!runner.deadline_is_live(1, 9));
    let replies = runner.collapse(Collapse::TimedOut(1), &mut counters);
    let summary: Vec<(u64, bool)> = replies
        .iter()
        .map(|r| (r.command, r.error == ActrError::TimedOut))
        .collect();
    assert_eq!(summary, vec![(2, true), (1, false), (3, false)]);
    assert_eq!(
        replies[1].error,
        ActrError::Unavailable("actor instance timed out; message may be retried".into())
    );
    assert!(replies.iter().all(|r| r.error.kind() == ErrorKind::Transient));
    let stats = wasm_runtime_stats(&counters);
    assert_eq!(
        (stats.outstanding_invocations, stats.invocation_timeouts),
        (0, 1)
    );
    assert!(!runner.deadline_is_live(1, 1));
    assert!(matches!(runner.supervise(), Supervise::Rebuild));
}

#[test]
fn a_canceled_caller_gets_no_reply_and_its_siblings_may_retry() {
    let mut counters = RuntimeCounters::default();
    let mut runner = three_in_flight(&mut counters);
    let replies = runner.collapse(Collapse::CallerCanceled(2), &mut counters);
    let commands: Vec<u64> = replies.iter().map(|r| r.command).collect();
    assert_eq!(commands, vec![1, 2]);
    assert_eq!(
        replies[0].error,
        ActrError::Unavailable("actor instance canceled; in-flight message may be retried".into())
    );
}

#[test]
fn a_guest_fault_fails_every_call() {
    for (cause, label) in [
        (
            Collapse::GuestCallFailed(report(None, None, "boom")),
            "interleaved guest call",
        ),
        (
            Collapse::Trapped(report(None, None, "boom")),
            "interleaved region",
        ),
    ] {
        let mut counters = RuntimeCounters::default();
        let mut runner = three_in_flight(&mut counters);
        let replies = runner.collapse(cause, &mut counters);
        assert_eq!(replies.len(), 3);
        for reply in &replies {
            assert_eq!(
                reply.error,
                ActrError::Unavailable(format!(
                    "WASM instance trapped (store poisoned; rebuilt on next call): {label} trap: boom"
                ))
            );
        }
        assert_eq!(wasm_runtime_stats(&counters).outstanding_invocations, 0);
    }
}

#[test]
fn a_waiting_barrier_survives_a_collapse_and_runs_in_the_next_region() {
    let mut counters = RuntimeCounters::default();
    let mut runner = region(None);
    started(runner.accept(
        command(1, CommandKind::Dispatch),
        false,
        0,
        &mut counters,
    ));
    runner.accept(
        command(2, CommandKind::Hook(HookEntry::CredentialRenewed)),
        false,
        0,
        &mut counters,
    );
    runner.collapse(Collapse::TimedOut(0), &mut counters);
    // A busy rebuild quota is retried.
    match runner.rebuilt(Err(WasmError::ResourceLimitExceeded("x"))) {
        AfterRebuild::RetryLater(wait) => assert_eq!(wait, Interval::from_millis(10)),
        other => panic!("unexpected step {other:?}"),
    }
    assert!(matches!(
        runner.rebuilt(Ok(())),
        AfterRebuild::Seed { fuel: 1_000, .. }
    ));
    assert_eq!(runner.rebuild_count(), 1);
    assert!(matches!(
        runner.seeded(true),
        AfterSeed::Run { generation: 2 }
    ));
    assert_eq!(runner.next_step(), RegionStep::RunBarrier);
    match runner.run_barrier(false, 1_000, &mut counters) {
        BarrierStep::Started(call) => assert_eq!((call.token, call.command), (0, 2)),
        other => panic!("unexpected step {other:?}"),
    }
}

#[test]
fn a_runner_that_gives_up_answers_the_waiting_barrier() {
    let mut counters = RuntimeCounters::default();
    let mut runner = region(None);
    started(runner.accept(
        command(1, CommandKind::Dispatch),
        false,
        0,
        &mut counters,
    ));
    runner.accept(
        command(2, CommandKind::Lifecycle(LifecyclePhase::OnStop)),
        false,
        0,
        &mut counters,
    );
    runner.collapse(Collapse::TimedOut(0), &mut counters);
    match runner.rebuilt(Err(WasmError::LoadFailed("x".into()))) {
        AfterRebuild::Stop(LastReply::Failed(failed)) => {
            assert_eq!(failed.command, 2);
            assert_eq!(
                failed.error,
                ActrError::Unavailable("actor instance unrecoverable after trap".into())
            );
        }
        other => panic!("unexpected step {other:?}"),
    }
    let mut idle = ResidentRunner::new(limits(), None);
    assert!(matches!(
        idle.seeded(false),
        AfterSeed::Stop(LastReply::Nothing)
    ));
}

#[test]
fn workload_counts_the_rebuilds_of_its_instance() {
    let mut counters = RuntimeCounters::default();
    let mut workload = TestWasmWorkload::new();
    let timed_out = enter(workload.instance_mut(), GuestOutcome::TimedOut, &mut counters);
    assert!(matches!(timed_out, Err(WasmError::InvocationTimeout(_))));
    assert_eq!(workload.rebuild_count(), 0);
    assert!(workload.instance_mut().is_poisoned());
    let _ = enter(workload.instance_mut(), GuestOutcome::TimedOut, &mut counters);
    assert_eq!(workload.rebuild_count(), 1);
}

#[test]
fn guest_code_needs_a_stack() {
    let limits = WasmRuntimeLimits {
        max_wasm_stack: 0,
        ..WasmRuntimeLimits::default()
    };
    let mut counters = RuntimeCounters::default();
    let bytes = wat::parse_str("(component)").unwrap();
    for fast_compile in [false, true] {
        let error =
            WasmHost::compile_with_limits(&bytes, &limits, None, fast_compile, &mut counters)
                .err()
                .unwrap();
        assert!(error.to_text().contains("engine construction failed"));
    }
    assert_eq!(wasm_runtime_stats(&counters).compile_failures, 0);
}

#[test]
fn host_hands_out_its_own_component() {
    let src = r#"(component (instance $w) (export "actr:workload/workload@0.1.0" (instance $w)))"#;
    let host = compile(&wat::parse_str(src).unwrap()).unwrap();
    let ty = host.component().component_type();
    let names: Vec<String> = ty
        .exports(host.engine())
        .map(|(name, _)| name.to_string())
        .collect();
    assert_eq!(names, ["actr:workload/workload@0.1.0"]);
}

#[test]
fn a_failed_clamp_fails_the_call_with_its_siblings() {
    let mut counters = RuntimeCounters::default();
    let mut runner = region(None);
    for id in [1, 2] {
        started(runner.accept(
            command(id, CommandKind::Dispatch),
            false,
            1_000,
            &mut counters,
        ));
    }
    // The first call returned, but the store cannot be set to its fuel.
    assert_eq!(runner.clamp_target(0, 5_000), 1_000);
    let report = TrapReport {
        code: None,
        limit: None,
        message: "no fuel".to_string(),
    };
    let failed = runner.collapse(Collapse::GuestCallFailed(report), &mut counters);
    let commands: Vec<u64> = failed.iter().map(|f| f.command).collect();
    assert_eq!(commands, [1, 2]);
    assert_eq!(wasm_runtime_stats(&counters).outstanding_invocations, 0);
}

#[test]
fn growth_keeps_the_count_limits() {
    let limits = WasmRuntimeLimits {
        max_linear_memory: 100,
        ..WasmRuntimeLimits::default()
    };
    let mut counters = RuntimeCounters::default();
    let mut limiter = StoreResourceLimiter::new(&limits);
    assert!(limiter.memory_growing(0, 60, &mut counters).unwrap());
    assert!(limiter.memory_growing(60, 101, &mut counters).is_err());
    assert!(limiter.memory_growing(60, 50, &mut counters).is_err());
    assert!(limiter.table_growing(0, 1, &mut counters).unwrap());
    assert_eq!(
        (limiter.memories(), limiter.tables(), limiter.instances()),
        (
            limits.max_memories as usize,
            limits.max_tables as usize,
            limits.max_instances as usize
        )
    );
    assert_eq!(wasm_runtime_stats(&counters).resource_denials, 2);
}

#[test]
fn commands_enter_the_guest_where_they_say() {
    for (kind, entry) in [
        (CommandKind::Dispatch, Some(EntryPoint::Dispatch)),
        (
            CommandKind::Lifecycle(LifecyclePhase::OnStart),
            Some(EntryPoint::OnStart),
        ),
        (
            CommandKind::Lifecycle(LifecyclePhase::OnReady),
            Some(EntryPoint::OnReady),
        ),
        (
            CommandKind::Lifecycle(LifecyclePhase::OnStop),
            Some(EntryPoint::OnStop),
        ),
        (
            CommandKind::DataChunk {
                stream_id: "s".into(),
            },
            Some(EntryPoint::DataChunk),
        ),
        (
            CommandKind::Hook(HookEntry::CredentialRenewed),
            Some(EntryPoint::Hook(HookEntry::CredentialRenewed)),
        ),
        (CommandKind::Shutdown, None),
    ] {
        assert_eq!(kind.entry_point(), entry);
        let mut counters = RuntimeCounters::default();
        let mut runner = region(None);
        match runner.accept(command(1, kind), false, 0, &mut counters) {
            Accepted::Started(call) => assert_eq!(Some(call.entry), entry),
            _ => match runner.run_barrier(false, 0, &mut counters) {
                BarrierStep::Started(call) => assert_eq!(Some(call.entry), entry),
                BarrierStep::Shutdown(id) => assert_eq!((id, entry), (1, None)),
                other => panic!("unexpected step {other:?}"),
            },
        }
    }
}

/// Enter an instance of the concurrent world; gives the token and the result.
fn enter_invocation(
    instance: &mut SerialInstance,
    table: &mut InvocationTable<&'static str>,
    stream: Option<&str>,
    outcome: GuestOutcome<u8>,
    during: fn(&mut InvocationTable<&'static str>, u64),
) -> (u64, WasmResult<u8>) {
    let limits = WasmRuntimeLimits::default();
    let mut counters = RuntimeCounters::default();
    let point = match stream {
        Some(_) => EntryPoint::DataChunk,
        None => EntryPoint::Dispatch,
    };
    let mut run = InvocationRun::new(point, None, "mine", stream.map(|s| s.to_string()));
    let mut action: InvocationAction<u8> = run.start(instance, &limits, &mut counters);
    if let InvocationAction::Rebuild = action {
        action = run.rebuilt(instance, table, Ok(()), &limits, &mut counters);
    }
    assert!(matches!(action, InvocationAction::SetFuel { .. }));
    let token = match run.fuel_set::<u8>(instance, table, Ok(()), &mut counters) {
        InvocationAction::CallGuest { token } => token,
        other => panic!("expected a guest call, got {other:?}"),
    };
    assert_eq!(table.invocation(token), Some(&"mine"));
    during(table, token);
    let result = run.finished(instance, table, outcome, &limits, &mut counters);
    (token, result)
}

#[test]
fn serial_invocations_are_registered_while_the_guest_runs() {
    let mut instance = SerialInstance::new();
    let mut table = InvocationTable::new();
    // The first call registers a stream whose callback captures its token.
    let (token, result) = enter_invocation(
        &mut instance,
        &mut table,
        None,
        GuestOutcome::Returned(1),
        |table, token| table.register_stream_context("s", token),
    );
    assert_eq!((token, result.unwrap()), (0, 1));
    assert_eq!(table.invocation_count(), 0);
    // A chunk of that stream runs under its own token, which the captured one
    // stands for.
    let (token, _) = enter_invocation(
        &mut instance,
        &mut table,
        Some("s"),
        GuestOutcome::Refused("no".into()),
        |table, _| assert_eq!(table.invocation(0), Some(&"mine")),
    );
    assert_eq!(token, 1);
    assert_eq!(table.invocation(0), None);
    assert_eq!(table.invocation_count(), 0);
    // A timeout loses the table with the store, and tokens start over.
    let (token, result) = enter_invocation(
        &mut instance,
        &mut table,
        None,
        GuestOutcome::TimedOut,
        |_, _| {},
    );
    assert_eq!(token, 2);
    assert!(matches!(result, Err(WasmError::InvocationTimeout(_))));
    assert!(instance.is_poisoned());
    let (token, _) = enter_invocation(
        &mut instance,
        &mut table,
        None,
        GuestOutcome::Returned(2),
        |_, _| {},
    );
    assert_eq!((token, instance.rebuild_count()), (0, 1));
}

#[test]
fn an_unseeded_entry_registers_nothing() {
    let limits = WasmRuntimeLimits::default();
    let mut counters = RuntimeCounters::default();
    let mut instance = SerialInstance::new();
    let mut table: InvocationTable<u8> = InvocationTable::new();
    let mut run = InvocationRun::new(EntryPoint::OnStart, None, 7, None);
    let _ = run.start::<u8>(&mut instance, &limits, &mut counters);
    match run.fuel_set::<u8>(&mut instance, &mut table, Err("x".into()), &mut counters) {
        InvocationAction::Done(Err(e)) => {
            assert_eq!(e, WasmError::ExecutionFailed("set fuel: x".into()))
        }
        other => panic!("unexpected action {other:?}"),
    }
    assert_eq!(table.invocation_count(), 0);
    assert_eq!(wasm_runtime_stats(&counters).outstanding_invocations, 0);
}
