//! Loading components and entering guests.
//!
//! [`WasmHost`] is one compiled component. [`SerialInstance`] is the state of
//! one running instance that outlives its store: a guest trap poisons the store,
//! and the next entry rebuilds it. [`EntryRun`] takes one guest entry from its
//! start to its result; the caller performs the actions that it asks for and
//! reports what came of them.
use crate::text;
use crate::text::{cat, cat3, has_part, has_prefix};
use crate::wasm::fault;
use crate::wasm::fault::{
    classify_trap, TrapReport, WasmError, WasmErrorView, WasmResult,
};
use crate::wasm::limits;
use crate::wasm::limits::{
    CounterKind, QuotaPermit, RuntimeCounters, WasmRuntimeLimits, WasmRuntimeStats,
};
use vstd::prelude::*;
use wasmtime::component::Component;
use wasmtime::{Config, Engine, OptLevel, RegallocAlgorithm};

verus! {

// ── epoch deadline ───────────────────────────────────────────────────────────

/// The epoch deadline for an invocation, in ticks: one more than the whole
/// ticks that fit in the timeout, so that it is never shorter than the timeout.
pub open spec fn deadline_ticks(tick_nanos: nat, timeout_nanos: nat) -> nat {
    let tick = if tick_nanos == 0 {
        1
    } else {
        tick_nanos
    };
    let whole = timeout_nanos / tick;
    if whole >= u64::MAX {
        u64::MAX as nat
    } else {
        whole + 1
    }
}

/// Convert the invocation timeout into an epoch deadline (tick count), rounded
/// up so that the deadline is never shorter than the timeout.
pub fn epoch_deadline_ticks(limits: &WasmRuntimeLimits) -> (r: u64)
    ensures
        r == deadline_ticks(limits.epoch_tick.nanos(), limits.invocation_timeout.nanos()),
{
    let tick: u128 = limits.epoch_tick.as_nanos();
    let tick: u128 = if tick == 0 {
        1
    } else {
        tick
    };
    let whole: u128 = limits.invocation_timeout.as_nanos() / tick;
    if whole >= u64::MAX as u128 {
        u64::MAX
    } else {
        whole as u64 + 1
    }
}

/// The deadline covers the timeout and little more: unless the tick count
/// saturates, the ticks together are longer than the timeout, by at most one
/// tick.
pub proof fn deadline_covers_the_timeout(tick_nanos: nat, timeout_nanos: nat)
    requires
        tick_nanos > 0,
        deadline_ticks(tick_nanos, timeout_nanos) < u64::MAX,
    ensures
        deadline_ticks(tick_nanos, timeout_nanos) * tick_nanos > timeout_nanos,
        deadline_ticks(tick_nanos, timeout_nanos) * tick_nanos <= timeout_nanos + tick_nanos,
{
    let whole = timeout_nanos / tick_nanos;
    assert(timeout_nanos < (whole + 1) * tick_nanos <= timeout_nanos + tick_nanos)
        by (nonlinear_arith)
        requires
            whole == timeout_nanos / tick_nanos,
            tick_nanos > 0,
    ;
}

/// The ticks of a deadline are as few as cover the timeout: together they are longer,
/// unless more would be needed than can be counted, and one tick fewer would not be.
/// A clock without a tick length is taken to tick every nanosecond.
pub proof fn deadline_ticks_are_tight(tick_nanos: nat, timeout_nanos: nat)
    ensures
        1 <= deadline_ticks(tick_nanos, timeout_nanos) <= u64::MAX,
        deadline_ticks(0, timeout_nanos) == deadline_ticks(1, timeout_nanos),
        tick_nanos > 0 ==> deadline_ticks(tick_nanos, timeout_nanos) * tick_nanos > timeout_nanos
            || deadline_ticks(tick_nanos, timeout_nanos) == u64::MAX,
        tick_nanos > 0 ==> (deadline_ticks(tick_nanos, timeout_nanos) - 1) * tick_nanos
            <= timeout_nanos,
        tick_nanos > 0 ==> deadline_ticks(tick_nanos, timeout_nanos) * tick_nanos <= timeout_nanos
            + tick_nanos,
{
    if tick_nanos > 0 {
        let whole = timeout_nanos / tick_nanos;
        let ticks = deadline_ticks(tick_nanos, timeout_nanos);
        assert(timeout_nanos < (whole + 1) * tick_nanos && whole * tick_nanos <= timeout_nanos)
            by (nonlinear_arith)
            requires
                whole == timeout_nanos / tick_nanos,
                tick_nanos > 0,
        ;
        assert((ticks - 1) * tick_nanos <= whole * tick_nanos) by (nonlinear_arith)
            requires
                ticks - 1 <= whole,
                tick_nanos > 0,
        ;
        assert((ticks - 1) * tick_nanos == ticks * tick_nanos - tick_nanos) by (nonlinear_arith);
    }
}

// ── worlds ───────────────────────────────────────────────────────────────────

/// Which `actr:workload` world a compiled component implements.
#[derive(Debug, Clone, Copy, PartialEq, Eq, Structural)]
pub enum WasmWorkloadKind {
    /// `actr:workload@0.1.0`: synchronous world, serial execution.
    V1Serial,
    /// `actr:workload@0.2.0`: async world, concurrent execution.
    V2Concurrent,
}

/// Whether some exported name starts with `prefix`.
pub open spec fn exports_prefix(names: Seq<Seq<char>>, prefix: Seq<char>) -> bool {
    exists|i: int| 0 <= i < names.len() && prefix.is_prefix_of(#[trigger] names[i])
}

/// The world that a component with these exports implements: exactly one
/// recognised world must be present.
pub open spec fn world_of(names: Seq<Seq<char>>) -> Result<WasmWorkloadKind, WasmErrorView> {
    let v1 = exports_prefix(names, "actr:workload/workload@0.1.0"@);
    let v2 = exports_prefix(names, "actr:workload/workload@0.2.0"@);
    if v1 && !v2 {
        Ok(WasmWorkloadKind::V1Serial)
    } else if !v1 && v2 {
        Ok(WasmWorkloadKind::V2Concurrent)
    } else if !v1 {
        Err(
            WasmErrorView::LoadFailed(
                "component exports no recognised actr:workload/workload world (expected @0.1.0 or @0.2.0); rebuild the package with a current SDK"@,
            ),
        )
    } else {
        Err(
            WasmErrorView::LoadFailed(
                "component exports both actr:workload/workload@0.1.0 and @0.2.0; a package must implement exactly one world"@,
            ),
        )
    }
}

/// The contents of a list of names.
pub open spec fn name_views(names: Seq<String>) -> Seq<Seq<char>> {
    names.map_values(|n: String| n@)
}

fn any_prefix(names: &Vec<String>, prefix: &str) -> (r: bool)
    ensures
        r == exports_prefix(name_views(names@), prefix@),
{
    let ghost views = name_views(names@);
    let mut i: usize = 0;
    while i < names.len()
        invariant
            i <= names@.len(),
            views == name_views(names@),
            forall|j: int| 0 <= j < i ==> !prefix@.is_prefix_of(#[trigger] views[j]),
        decreases names@.len() - i,
    {
        assert(views[i as int] == names@[i as int]@);
        if has_prefix(names[i].as_str(), prefix) {
            return true;
        }
        i = i + 1;
    }
    false
}

/// Decide from a component's exported names which workload world it
/// implements, so that the decision is grounded in what the binary actually
/// exports. Zero or both worlds is a [`WasmError::LoadFailed`].
pub fn probe_world(names: &Vec<String>) -> (r: WasmResult<WasmWorkloadKind>)
    ensures
        match world_of(name_views(names@)) {
            Ok(kind) => r matches Ok(k) && k == kind,
            Err(error) => r matches Err(e) && e@ == error,
        },
{
    let v1: bool = any_prefix(names, "actr:workload/workload@0.1.0");
    let v2: bool = any_prefix(names, "actr:workload/workload@0.2.0");
    if v1 && !v2 {
        Ok(WasmWorkloadKind::V1Serial)
    } else if !v1 && v2 {
        Ok(WasmWorkloadKind::V2Concurrent)
    } else if !v1 {
        Err(
            WasmError::LoadFailed(
                "component exports no recognised actr:workload/workload world (expected @0.1.0 or @0.2.0); rebuild the package with a current SDK".to_owned(),
            ),
        )
    } else {
        Err(
            WasmError::LoadFailed(
                "component exports both actr:workload/workload@0.1.0 and @0.2.0; a package must implement exactly one world".to_owned(),
            ),
        )
    }
}

// ── compilation ──────────────────────────────────────────────────────────────

/// `wasmtime::Engine`: a configured compiler and runtime.
#[verifier::external_type_specification]
#[verifier::external_body]
pub struct ExEngine(wasmtime::Engine);

/// `wasmtime::component::Component`: a compiled component.
#[verifier::external_type_specification]
#[verifier::external_body]
pub struct ExComponent(wasmtime::component::Component);

/// The names that a component binary exports.
pub uninterp spec fn component_exports(bytes: Seq<u8>) -> Seq<Seq<char>>;

/// `wasmtime::Config`: what an engine is built from.
#[verifier::external_type_specification]
#[verifier::external_body]
pub struct ExConfig(wasmtime::Config);

/// What an engine is asked for.
#[derive(Debug, Clone, Copy, PartialEq, Eq)]
pub struct EngineSettings {
    /// Component binaries.
    pub component_model: bool,
    /// Asynchronous component functions.
    pub component_model_async: bool,
    /// Several guest calls in flight in one store.
    pub concurrency_support: bool,
    /// Fuel metering.
    pub consume_fuel: bool,
    /// Preemption by the epoch clock.
    pub epoch_interruption: bool,
    /// Stack that guest code may take.
    pub max_wasm_stack: usize,
    /// Stack of a suspended guest call.
    pub async_stack_size: usize,
    /// Less compile time at the price of slower code.
    pub fast_compile: bool,
}

/// Whether guest code has a stack at all, and one that a suspended call can hold.
pub open spec fn stacks_fit(max_wasm_stack: usize, async_stack_size: usize) -> bool {
    0 < max_wasm_stack <= async_stack_size
}

/// The settings under some limits: everything that concurrent, preemptible
/// components need is on, the stack sizes are those of the limits, and compile
/// time is favoured where that is asked for.
pub fn engine_settings(limits: &WasmRuntimeLimits, fast_compile: bool) -> (r: EngineSettings)
    ensures
        r == (EngineSettings {
            component_model: true,
            component_model_async: true,
            concurrency_support: true,
            consume_fuel: true,
            epoch_interruption: true,
            max_wasm_stack: limits.max_wasm_stack,
            async_stack_size: limits.async_stack_size,
            fast_compile,
        }),
{
    EngineSettings {
        component_model: true,
        component_model_async: true,
        concurrency_support: true,
        consume_fuel: true,
        epoch_interruption: true,
        max_wasm_stack: limits.max_wasm_stack,
        async_stack_size: limits.async_stack_size,
        fast_compile,
    }
}

/// Calls `wasmtime::Config::new`. A configuration cannot be read back, so nothing
/// is claimed of it.
#[verifier::external_body]
fn default_config() -> (r: Config) {
    Config::new()
}

/// Calls `Config::cranelift_opt_level` and `Config::cranelift_regalloc_algorithm`
/// with the settings that compile fastest. A configuration cannot be read back,
/// so nothing is claimed of it.
#[verifier::external_body]
fn favour_compile_time(config: &mut Config) {
    config.cranelift_opt_level(OptLevel::None);
    config.cranelift_regalloc_algorithm(RegallocAlgorithm::SinglePass);
}

/// Hands each setting but `fast_compile`, which the configuration already follows,
/// to the method of `wasmtime::Config` that has its name, and calls
/// `wasmtime::Engine::new` on the configuration. No engine is built for a
/// guest stack that is empty or larger than the stack of a suspended call. Any
/// other outcome depends on the machine as well, so nothing more is claimed; a
/// failure comes back as its text.
#[verifier::external_body]
fn new_engine(mut config: Config, settings: &EngineSettings) -> (r: Result<Engine, String>)
    ensures
        !stacks_fit(settings.max_wasm_stack, settings.async_stack_size) ==> r is Err,
{
    config.wasm_component_model(settings.component_model);
    config.wasm_component_model_async(settings.component_model_async);
    config.concurrency_support(settings.concurrency_support);
    config.consume_fuel(settings.consume_fuel);
    config.epoch_interruption(settings.epoch_interruption);
    config.max_wasm_stack(settings.max_wasm_stack);
    config.async_stack_size(settings.async_stack_size);
    Engine::new(&config).map_err(|e| e.to_string())
}

/// An engine under some limits, or the text of the failure to build one. Limits
/// whose stacks do not fit have no engine; for all others the machine decides.
fn build_engine(limits: &WasmRuntimeLimits, fast_compile: bool) -> (r: Result<Engine, String>)
    ensures
        !stacks_fit(limits.max_wasm_stack, limits.async_stack_size) ==> r is Err,
{
    let settings: EngineSettings = engine_settings(limits, fast_compile);
    let mut config: Config = default_config();
    if settings.fast_compile {
        favour_compile_time(&mut config);
    }
    new_engine(config, &settings)
}

/// Calls `Component::from_binary` and lists the names that the component
/// exports, which depend on the bytes alone. Whether the bytes compile depends
/// on the engine and the machine as well, so nothing is claimed of that; a
/// failure comes back as its full text.
#[verifier::external_body]
fn load_component(engine: &Engine, bytes: &[u8]) -> (r: Result<(Component, Vec<String>), String>)
    ensures
        r matches Ok((c, names)) ==> name_views(names@) == component_exports(bytes@),
{
    let component = Component::from_binary(engine, bytes).map_err(|e| format!("{e:#}"))?;
    let names = component.component_type().exports(engine).map(
        |(name, _)| name.to_string(),
    ).collect();
    Ok((component, names))
}

/// Whether a compiler's text says that a package was built for the older
/// calling convention.
pub open spec fn is_old_package(raw: Seq<char>) -> bool {
    text::occurs_in("`async` canonical option requires an async function type"@, raw)
}

/// The message for bytes that do not compile as a component.
pub open spec fn load_message(raw: Seq<char>) -> Seq<char> {
    if is_old_package(raw) {
        "this .actr package was built by an old SDK (wit-bindgen <= 0.57 async-lift ABI), which wasmtime 46 rejects per the Component Model spec. Rebuild it with the current SDK (synchronous-lift packages run on both new and old hosts). wasmtime reported: "@
            + raw
    } else {
        "wasm bytes did not load as a Component (this host requires Component Model binaries as of .actr format bump; wasmtime reported: "@
            + raw + ")"@
    }
}

/// The error for bytes that do not compile as a component, given the compiler's
/// text.
pub fn load_error(raw: &str) -> (r: WasmError)
    ensures
        r@ == WasmErrorView::LoadFailed(load_message(raw@)),
{
    if has_part(raw, "`async` canonical option requires an async function type") {
        WasmError::LoadFailed(
            cat(
                "this .actr package was built by an old SDK (wit-bindgen <= 0.57 async-lift ABI), which wasmtime 46 rejects per the Component Model spec. Rebuild it with the current SDK (synchronous-lift packages run on both new and old hosts). wasmtime reported: ",
                raw,
            ),
        )
    } else {
        WasmError::LoadFailed(
            cat3(
                "wasm bytes did not load as a Component (this host requires Component Model binaries as of .actr format bump; wasmtime reported: ",
                raw,
                ")",
            ),
        )
    }
}

/// Compiled wasm Component engine: one compiled component, from which runtime
/// instances are made.
pub struct WasmHost {
    engine: Engine,
    component: Component,
    exports: Vec<String>,
    limits: WasmRuntimeLimits,
}

impl WasmHost {
    /// The names that the component exports.
    pub closed spec fn exports(self) -> Seq<Seq<char>> {
        name_views(self.exports@)
    }

    /// The limits that it was compiled under.
    pub closed spec fn limits(self) -> WasmRuntimeLimits {
        self.limits
    }

    /// The engine that compiled the component.
    pub closed spec fn compiler(self) -> Engine {
        self.engine
    }

    /// The component that the engine made of the bytes.
    pub closed spec fn code(self) -> Component {
        self.component
    }

    /// What compiling under limits gives, whatever the engine says: invalid
    /// limits, oversized bytes and a full compile quota are refused before
    /// anything is parsed; a failure of the engine or of the compiler is a load
    /// failure with its text; stacks that do not fit have no engine; and no
    /// compile slot stays taken.
    pub open spec fn compiled(
        bytes: Seq<u8>,
        limits: WasmRuntimeLimits,
        invalid: Option<String>,
        before: WasmRuntimeStats,
        r: Result<WasmHost, WasmError>,
        after: WasmRuntimeStats,
    ) -> bool {
        if let Some(t) = invalid {
            &&& r matches Err(e) && e@ == WasmErrorView::VerificationFailed(t@)
            &&& after == before
        } else if bytes.len() > limits.max_component_bytes {
            &&& r matches Err(e) && e@ == WasmErrorView::ResourceLimitExceeded(
                "component byte size"@,
            )
            &&& after == (WasmRuntimeStats {
                resource_denials: limits::bumped(before.resource_denials),
                ..before
            })
        } else if !before.admits(CounterKind::Compile, 1, limits.max_concurrent_compiles) {
            &&& r matches Err(e) && e@ == WasmErrorView::ResourceLimitExceeded(
                "concurrent component compilations"@,
            )
            &&& after == before.with_denial(CounterKind::Compile)
        } else {
            match r {
                Ok(host) => host.exports() == component_exports(bytes) && host.limits() == limits
                    && stacks_fit(limits.max_wasm_stack, limits.async_stack_size) && after
                    == before,
                Err(e) => {
                    ||| exists|t: Seq<char>|
                        #![trigger load_message(t)]
                        e@ == WasmErrorView::LoadFailed(load_message(t)) && stacks_fit(
                            limits.max_wasm_stack,
                            limits.async_stack_size,
                        ) && after == (WasmRuntimeStats {
                            compile_failures: limits::bumped(before.compile_failures),
                            ..before
                        })
                    ||| exists|t: Seq<char>|
                        e@ == #[trigger] engine_failure(t) && after == before
                },
            }
        }
    }

    /// Compile with explicit resource limits. `invalid` is the complaint of the
    /// configuration about those limits, if it has one. `fast_compile` trades
    /// code quality for compile time.
    ///
    /// CPU-intensive; callers should run this on a blocking task. Errors
    /// comprise non-Component inputs (e.g. a legacy core wasm module) and
    /// packages built for the older async-lift calling convention, which are
    /// mapped to an actionable rebuild hint.
    pub fn compile_with_limits(
        wasm_bytes: &[u8],
        limits: &WasmRuntimeLimits,
        invalid: Option<String>,
        fast_compile: bool,
        counters: &mut RuntimeCounters,
    ) -> (r: WasmResult<WasmHost>)
        ensures
            WasmHost::compiled(wasm_bytes@, *limits, invalid, old(counters)@, r, final(counters)@),
    {
        if let Some(t) = invalid {
            return Err(WasmError::VerificationFailed(t));
        }
        if wasm_bytes.len() > limits.max_component_bytes {
            counters.record_resource_denial();
            return Err(WasmError::ResourceLimitExceeded("component byte size"));
        }
        let permit: QuotaPermit = match counters.acquire_compile(limits) {
            Ok(p) => p,
            Err(e) => return Err(e),
        };
        let r: WasmResult<WasmHost> = match build_engine(limits, fast_compile) {
            Err(t) => {
                let ghost witness = engine_failure(t@);
                Err(
                    WasmError::LoadFailed(
                        cat("wasmtime engine construction failed: ", t.as_str()),
                    ),
                )
            },
            Ok(engine) => match load_component(&engine, wasm_bytes) {
                Err(raw) => {
                    counters.record_compile_failure();
                    let ghost witness = load_message(raw@);
                    Err(load_error(raw.as_str()))
                },
                Ok((component, exports)) => Ok(
                    WasmHost { engine, component, exports, limits: *limits },
                ),
            },
        };
        counters.release(permit);
        r
    }

    /// Compile under the default limits. `fast_compile` trades code quality for
    /// compile time.
    pub fn compile(
        wasm_bytes: &[u8],
        fast_compile: bool,
        counters: &mut RuntimeCounters,
    ) -> (r: WasmResult<WasmHost>)
        ensures
            exists|limits: WasmRuntimeLimits| #[trigger]
                WasmHost::compiled(wasm_bytes@, limits, None, old(counters)@, r, final(counters)@)
                    && call_ensures(WasmRuntimeLimits::default, (), limits),
    {
        let limits = WasmRuntimeLimits::default();
        WasmHost::compile_with_limits(wasm_bytes, &limits, None, fast_compile, counters)
    }

    /// Which workload world the component implements.
    pub fn world(&self) -> (r: WasmResult<WasmWorkloadKind>)
        ensures
            match world_of(self.exports()) {
                Ok(kind) => r matches Ok(k) && k == kind,
                Err(error) => r matches Err(e) && e@ == error,
            },
    {
        probe_world(&self.exports)
    }

    /// The limits that the component was compiled under.
    pub fn limits_ref(&self) -> (r: &WasmRuntimeLimits)
        ensures
            *r == self.limits(),
    {
        &self.limits
    }

    /// The engine that compiled the component.
    pub fn engine(&self) -> (r: &Engine)
        ensures
            *r == self.compiler(),
    {
        &self.engine
    }

    /// The compiled component.
    pub fn component(&self) -> (r: &Component)
        ensures
            *r == self.code(),
    {
        &self.component
    }
}

/// The error for an engine that could not be built.
pub open spec fn engine_failure(t: Seq<char>) -> WasmErrorView {
    WasmErrorView::LoadFailed("wasmtime engine construction failed: "@ + t)
}

// ── one instance, entered serially ───────────────────────────────────────────

/// State of one instance across its stores.
#[derive(Debug)]
pub struct SerialInstance {
    poisoned: bool,
    rebuilds: u64,
    store_live: bool,
    context_installed: bool,
}

/// Contents of a [`SerialInstance`].
pub struct InstanceView {
    /// A guest entry failed fatally; the store must be rebuilt before the next.
    pub poisoned: bool,
    /// How often the store was rebuilt.
    pub rebuilds: u64,
    /// Whether a store is held.
    pub store_live: bool,
    /// Whether a call's context and bridge are installed in the store.
    pub context_installed: bool,
}

impl InstanceView {
    /// A serviceable instance holds a store; context is installed in nothing
    /// else; and a poisoned instance holds no store.
    pub open spec fn wf(self) -> bool {
        &&& self.store_live == !self.poisoned
        &&& self.context_installed ==> self.store_live
    }

    /// The instance after a fatal failure: poisoned, its store discarded at once
    /// so that no guest memory survives until the next entry.
    pub open spec fn poison(self) -> InstanceView {
        InstanceView {
            poisoned: true,
            store_live: false,
            context_installed: false,
            ..self
        }
    }

    /// The instance after its store was rebuilt.
    pub open spec fn rebuilt(self) -> InstanceView {
        InstanceView {
            poisoned: false,
            rebuilds: (self.rebuilds + 1) as u64,
            store_live: true,
            context_installed: false,
        }
    }
}

impl View for SerialInstance {
    type V = InstanceView;

    closed spec fn view(&self) -> InstanceView {
        InstanceView {
            poisoned: self.poisoned,
            rebuilds: self.rebuilds,
            store_live: self.store_live,
            context_installed: self.context_installed,
        }
    }
}

impl SerialInstance {
    /// A freshly instantiated instance.
    pub fn new() -> (r: SerialInstance)
        ensures
            r@ == (InstanceView {
                poisoned: false,
                rebuilds: 0,
                store_live: true,
                context_installed: false,
            }),
            r@.wf(),
    {
        SerialInstance { poisoned: false, rebuilds: 0, store_live: true, context_installed: false }
    }

    /// Number of times the poisoned store has been rebuilt.
    pub fn rebuild_count(&self) -> (r: u64)
        ensures
            r == self@.rebuilds,
    {
        self.rebuilds
    }

    /// Whether the store must be rebuilt before the next entry.
    pub fn is_poisoned(&self) -> (r: bool)
        ensures
            r == self@.poisoned,
    {
        self.poisoned
    }

    fn poison(&mut self)
        ensures
            final(self)@ == old(self)@.poison(),
    {
        self.poisoned = true;
        self.store_live = false;
        self.context_installed = false;
    }
}

/// A guest entry point.
#[derive(Debug, Clone, Copy, PartialEq, Eq, Structural)]
pub enum EntryPoint {
    /// The `on-start` lifecycle hook.
    OnStart,
    /// The `on-ready` lifecycle hook.
    OnReady,
    /// The `on-stop` lifecycle hook.
    OnStop,
    /// An observation hook.
    Hook(HookEntry),
    /// An inbound request.
    Dispatch,
    /// An inbound stream chunk.
    DataChunk,
}

/// An observation hook that guests export.
#[derive(Debug, Clone, Copy, PartialEq, Eq, Structural)]
pub enum HookEntry {
    SignalingConnecting,
    SignalingConnected,
    SignalingDisconnected,
    WebSocketConnecting,
    WebSocketConnected,
    WebSocketDisconnected,
    WebRtcConnecting,
    WebRtcConnected,
    WebRtcDisconnected,
    CredentialRenewed,
    CredentialExpiring,
    MailboxBackpressure,
}

impl HookEntry {
    /// The guest function that the hook calls.
    pub open spec fn export(self) -> Seq<char> {
        match self {
            HookEntry::SignalingConnecting => "on_signaling_connecting"@,
            HookEntry::SignalingConnected => "on_signaling_connected"@,
            HookEntry::SignalingDisconnected => "on_signaling_disconnected"@,
            HookEntry::WebSocketConnecting => "on_websocket_connecting"@,
            HookEntry::WebSocketConnected => "on_websocket_connected"@,
            HookEntry::WebSocketDisconnected => "on_websocket_disconnected"@,
            HookEntry::WebRtcConnecting => "on_webrtc_connecting"@,
            HookEntry::WebRtcConnected => "on_webrtc_connected"@,
            HookEntry::WebRtcDisconnected => "on_webrtc_disconnected"@,
            HookEntry::CredentialRenewed => "on_credential_renewed"@,
            HookEntry::CredentialExpiring => "on_credential_expiring"@,
            HookEntry::MailboxBackpressure => "on_mailbox_backpressure"@,
        }
    }

    /// The guest function that the hook calls.
    pub fn export_name(self) -> (r: &'static str)
        ensures
            r@ == self.export(),
    {
        match self {
            HookEntry::SignalingConnecting => "on_signaling_connecting",
            HookEntry::SignalingConnected => "on_signaling_connected",
            HookEntry::SignalingDisconnected => "on_signaling_disconnected",
            HookEntry::WebSocketConnecting => "on_websocket_connecting",
            HookEntry::WebSocketConnected => "on_websocket_connected",
            HookEntry::WebSocketDisconnected => "on_websocket_disconnected",
            HookEntry::WebRtcConnecting => "on_webrtc_connecting",
            HookEntry::WebRtcConnected => "on_webrtc_connected",
            HookEntry::WebRtcDisconnected => "on_webrtc_disconnected",
            HookEntry::CredentialRenewed => "on_credential_renewed",
            HookEntry::CredentialExpiring => "on_credential_expiring",
            HookEntry::MailboxBackpressure => "on_mailbox_backpressure",
        }
    }
}

impl EntryPoint {
    /// The name under which a trap at this entry is reported.
    pub open spec fn label(self) -> Seq<char> {
        match self {
            EntryPoint::OnStart => "on_start"@,
            EntryPoint::OnReady => "on_ready"@,
            EntryPoint::OnStop => "on_stop"@,
            EntryPoint::Hook(hook) => hook.export(),
            EntryPoint::Dispatch => "dispatch"@,
            EntryPoint::DataChunk => "on_data_chunk"@,
        }
    }

    /// The name under which a trap at this entry is reported.
    pub fn label_str(self) -> (r: &'static str)
        ensures
            r@ == self.label(),
    {
        match self {
            EntryPoint::OnStart => "on_start",
            EntryPoint::OnReady => "on_ready",
            EntryPoint::OnStop => "on_stop",
            EntryPoint::Hook(hook) => hook.export_name(),
            EntryPoint::Dispatch => "dispatch",
            EntryPoint::DataChunk => "on_data_chunk",
        }
    }

    /// What the text of a guest's own error at this entry starts with.
    pub open spec fn guest_error_heading(self) -> Seq<char> {
        match self {
            EntryPoint::Dispatch => "guest dispatch returned error: "@,
            _ => self.label() + " error: "@,
        }
    }
}

/// What came of a guest call.
#[derive(Debug)]
pub enum GuestOutcome<T> {
    /// The call did not finish in time.
    TimedOut,
    /// The call trapped.
    Trapped(TrapReport),
    /// The guest returned an error, given by its debug form.
    Refused(String),
    /// The guest returned a value.
    Returned(T),
}

/// What the caller is to do next for an entry.
#[derive(Debug)]
pub enum EntryAction<T> {
    /// Drop the store and instantiate a fresh one; report with
    /// [`EntryRun::rebuilt`].
    Rebuild,
    /// Seed the store with this much fuel and this epoch deadline; report with
    /// [`EntryRun::fuel_set`].
    SetFuel { fuel: u64, deadline_ticks: u64 },
    /// Install the call's context and call the guest under the invocation
    /// timeout; report with [`EntryRun::finished`].
    CallGuest,
    /// The entry is over.
    Done(WasmResult<T>),
}

/// How far an entry has come.
#[derive(Debug, Clone, Copy, PartialEq, Eq, Structural)]
pub enum EntryPhase {
    Idle,
    Rebuilding,
    Seeding,
    Calling,
    Over,
}

/// One guest entry from its start to its result.
#[derive(Debug)]
pub struct EntryRun {
    world: WasmWorkloadKind,
    entry: EntryPoint,
    decode_error: Option<String>,
    phase: EntryPhase,
    permit: Option<QuotaPermit>,
}

/// The error that a failed rebuild reports: resource limits stay recognisable,
/// everything else becomes a load failure.
pub open spec fn rebuild_error(world: WasmWorkloadKind, e: WasmErrorView) -> WasmErrorView {
    match e {
        WasmErrorView::ResourceLimitExceeded(_) => e,
        _ => WasmErrorView::LoadFailed(
            (match world {
                WasmWorkloadKind::V1Serial => "failed to rebuild poisoned wasm store: "@,
                WasmWorkloadKind::V2Concurrent => "failed to rebuild poisoned wasm store (v2): "@,
            }) + e.printed(),
        ),
    }
}

/// The result of an entry whose guest call came out as `outcome`.
pub open spec fn entry_result<T>(
    entry: EntryPoint,
    outcome: GuestOutcome<T>,
    limits: WasmRuntimeLimits,
    r: WasmResult<T>,
) -> bool {
    match outcome {
        GuestOutcome::TimedOut => r matches Err(e) && e@ == WasmErrorView::InvocationTimeout(
            limits.invocation_timeout,
        ),
        GuestOutcome::Trapped(report) => r matches Err(e) && e@ == fault::trap_class(
            entry.label(),
            report,
        ),
        GuestOutcome::Refused(t) => r matches Err(e) && e@ == WasmErrorView::ExecutionFailed(
            entry.guest_error_heading() + t@,
        ),
        GuestOutcome::Returned(v) => r == Ok::<T, WasmError>(v),
    }
}

/// The counters after a guest call came out as `outcome`, apart from the
/// invocation slot that it gives back.
pub open spec fn outcome_counted<T>(outcome: GuestOutcome<T>, before: WasmRuntimeStats) -> WasmRuntimeStats {
    match outcome {
        GuestOutcome::TimedOut => WasmRuntimeStats {
            invocation_timeouts: limits::bumped(before.invocation_timeouts),
            ..before
        },
        GuestOutcome::Trapped(report) => fault::trap_counted(report, before),
        _ => before,
    }
}

/// The instance after a guest call came out as `outcome`: a timeout or a trap
/// poisons it, a guest's own error does not.
pub open spec fn outcome_instance<T>(
    outcome: GuestOutcome<T>,
    before: InstanceView,
) -> InstanceView {
    match outcome {
        GuestOutcome::TimedOut | GuestOutcome::Trapped(_) => before.poison(),
        _ => InstanceView { context_installed: false, ..before },
    }
}

impl EntryRun {
    /// How far the entry has come.
    pub closed spec fn phase(self) -> EntryPhase {
        self.phase
    }

    /// The world that the guest was built for.
    pub closed spec fn world(self) -> WasmWorkloadKind {
        self.world
    }

    /// Where the guest is entered.
    pub closed spec fn entry(self) -> EntryPoint {
        self.entry
    }

    /// Why the request could not be decoded, if it could not.
    pub closed spec fn decode_error(self) -> Option<Seq<char>> {
        match self.decode_error {
            Some(t) => Some(t@),
            None => None,
        }
    }

    /// An invocation slot is held exactly while fuel is seeded or the guest
    /// runs.
    pub closed spec fn wf(self) -> bool {
        match self.phase {
            EntryPhase::Seeding | EntryPhase::Calling => self.permit matches Some(p) && p.kind()
                == CounterKind::Invocation && p.amount() == 1,
            _ => self.permit is None,
        }
    }

    /// An entry that has not started. `decode_error` says why an inbound request
    /// could not be decoded, if it could not.
    pub fn new(
        world: WasmWorkloadKind,
        entry: EntryPoint,
        decode_error: Option<String>,
    ) -> (r: EntryRun)
        ensures
            r.world() == world,
            r.wf(),
            r.phase() == EntryPhase::Idle,
            r.entry() == entry,
            match decode_error {
                Some(t) => r.decode_error() == Some(t@),
                None => r.decode_error() is None,
            },
    {
        EntryRun { world, entry, decode_error, phase: EntryPhase::Idle, permit: None }
    }

    /// What follows once the instance is serviceable: a request that could not
    /// be decoded fails; otherwise an invocation slot is asked for, and fuel is
    /// seeded.
    pub open spec fn proceeds<T>(
        self,
        after: EntryRun,
        limits: WasmRuntimeLimits,
        before: WasmRuntimeStats,
        r: EntryAction<T>,
        counters: WasmRuntimeStats,
    ) -> bool {
        match self.decode_error() {
            Some(t) => {
                &&& r matches EntryAction::Done(Err(e)) && e@ == WasmErrorView::ExecutionFailed(
                    "host failed to decode RpcEnvelope before dispatch: "@ + t,
                )
                &&& counters == before
                &&& after.phase() == EntryPhase::Over
            },
            None => {
                &&& counters == before.asked(
                    CounterKind::Invocation,
                    1,
                    limits.max_outstanding_invocations,
                )
                &&& if before.admits(
                    CounterKind::Invocation,
                    1,
                    limits.max_outstanding_invocations,
                ) {
                    &&& r matches EntryAction::SetFuel { fuel, deadline_ticks: ticks } && fuel
                        == limits.fuel_per_invocation && ticks == deadline_ticks(
                        limits.epoch_tick.nanos(),
                        limits.invocation_timeout.nanos(),
                    )
                    &&& after.phase() == EntryPhase::Seeding
                } else {
                    &&& r matches EntryAction::Done(Err(e)) && e@
                        == WasmErrorView::ResourceLimitExceeded("outstanding WASM invocations"@)
                    &&& after.phase() == EntryPhase::Over
                }
            },
        }
    }

    fn proceed<T>(&mut self, limits: &WasmRuntimeLimits, counters: &mut RuntimeCounters) -> (r:
        EntryAction<T>)
        requires
            old(self).permit is None,
        ensures
            final(self).wf(),
            final(self).world() == old(self).world(),
            final(self).entry() == old(self).entry(),
            final(self).decode_error() == old(self).decode_error(),
            old(self).proceeds(*final(self), *limits, old(counters)@, r, final(counters)@),
    {
        match &self.decode_error {
            Some(t) => {
                let e = WasmError::ExecutionFailed(
                    cat("host failed to decode RpcEnvelope before dispatch: ", t.as_str()),
                );
                self.phase = EntryPhase::Over;
                return EntryAction::Done(Err(e));
            },
            None => {},
        }
        match counters.acquire_invocation(limits) {
            Ok(permit) => {
                self.permit = Some(permit);
                self.phase = EntryPhase::Seeding;
                EntryAction::SetFuel {
                    fuel: limits.fuel_per_invocation,
                    deadline_ticks: epoch_deadline_ticks(limits),
                }
            },
            Err(e) => {
                self.phase = EntryPhase::Over;
                EntryAction::Done(Err(e))
            },
        }
    }

    /// Begin: a poisoned instance is rebuilt first.
    pub fn start<T>(
        &mut self,
        instance: &mut SerialInstance,
        limits: &WasmRuntimeLimits,
        counters: &mut RuntimeCounters,
    ) -> (r: EntryAction<T>)
        requires
            old(self).wf(),
            old(self).phase() == EntryPhase::Idle,
            old(instance)@.wf(),
        ensures
            final(self).wf(),
            final(self).world() == old(self).world(),
            final(self).entry() == old(self).entry(),
            final(self).decode_error() == old(self).decode_error(),
            final(instance)@ == old(instance)@,
            if old(instance)@.poisoned {
                &&& r is Rebuild
                &&& final(self).phase() == EntryPhase::Rebuilding
                &&& final(counters)@ == old(counters)@
            } else {
                old(self).proceeds(*final(self), *limits, old(counters)@, r, final(counters)@)
            },
    {
        if instance.poisoned {
            self.phase = EntryPhase::Rebuilding;
            return EntryAction::Rebuild;
        }
        self.proceed(limits, counters)
    }

    /// The rebuild that was asked for came out as `result`. On failure the
    /// instance stays poisoned and the next entry tries again.
    pub fn rebuilt<T>(
        &mut self,
        instance: &mut SerialInstance,
        result: WasmResult<()>,
        limits: &WasmRuntimeLimits,
        counters: &mut RuntimeCounters,
    ) -> (r: EntryAction<T>)
        requires
            old(self).wf(),
            old(self).phase() == EntryPhase::Rebuilding,
            old(instance)@.wf(),
            old(instance)@.rebuilds < u64::MAX,
        ensures
            final(self).wf(),
            final(self).world() == old(self).world(),
            final(self).entry() == old(self).entry(),
            final(self).decode_error() == old(self).decode_error(),
            final(instance)@.wf(),
            match result {
                Ok(_) => {
                    &&& final(instance)@ == old(instance)@.rebuilt()
                    &&& old(self).proceeds(
                        *final(self),
                        *limits,
                        old(counters)@,
                        r,
                        final(counters)@,
                    )
                },
                Err(error) => {
                    &&& final(instance)@ == old(instance)@
                    &&& r matches EntryAction::Done(Err(e)) && e@ == rebuild_error(old(self).world(), error@)
                    &&& final(self).phase() == EntryPhase::Over
                    &&& final(counters)@ == old(counters)@
                },
            },
    {
        match result {
            Ok(_) => {
                instance.poisoned = false;
                instance.store_live = true;
                instance.context_installed = false;
                instance.rebuilds = instance.rebuilds + 1;
                self.proceed(limits, counters)
            },
            Err(error) => {
                self.phase = EntryPhase::Over;
                let e: WasmError = match error {
                    WasmError::ResourceLimitExceeded(label) => WasmError::ResourceLimitExceeded(
                        label,
                    ),
                    other => {
                        let t: String = other.to_text();
                        let heading: &str = match self.world {
                            WasmWorkloadKind::V1Serial => "failed to rebuild poisoned wasm store: ",
                            WasmWorkloadKind::V2Concurrent => {
                                "failed to rebuild poisoned wasm store (v2): "
                            },
                        };
                        WasmError::LoadFailed(
                            cat(heading, t.as_str()),
                        )
                    },
                };
                EntryAction::Done(Err(e))
            },
        }
    }

    /// Seeding fuel came out as `result`: the guest is called, or the entry
    /// fails and gives its invocation slot back.
    pub fn fuel_set<T>(
        &mut self,
        instance: &mut SerialInstance,
        result: Result<(), String>,
        counters: &mut RuntimeCounters,
    ) -> (r: EntryAction<T>)
        requires
            old(self).wf(),
            old(self).phase() == EntryPhase::Seeding,
            old(instance)@.wf(),
            !old(instance)@.poisoned,
            old(counters)@.outstanding_invocations >= 1,
        ensures
            final(self).wf(),
            final(self).world() == old(self).world(),
            final(self).entry() == old(self).entry(),
            final(self).decode_error() == old(self).decode_error(),
            final(instance)@.wf(),
            match result {
                Ok(_) => {
                    &&& r is CallGuest
                    &&& final(self).phase() == EntryPhase::Calling
                    &&& final(instance)@ == (InstanceView {
                        context_installed: true,
                        ..old(instance)@
                    })
                    &&& final(counters)@ == old(counters)@
                },
                Err(t) => {
                    &&& r matches EntryAction::Done(Err(e)) && e@
                        == WasmErrorView::ExecutionFailed("set fuel: "@ + t@)
                    &&& final(self).phase() == EntryPhase::Over
                    &&& final(instance)@ == old(instance)@
                    &&& final(counters)@ == old(counters)@.with_in_use(
                        CounterKind::Invocation,
                        (old(counters)@.outstanding_invocations - 1) as usize,
                    )
                },
            },
    {
        match result {
            Ok(_) => {
                instance.context_installed = true;
                self.phase = EntryPhase::Calling;
                EntryAction::CallGuest
            },
            Err(t) => {
                self.release(counters);
                EntryAction::Done(
                    Err(WasmError::ExecutionFailed(cat("set fuel: ", t.as_str()))),
                )
            },
        }
    }

    fn release(&mut self, counters: &mut RuntimeCounters)
        requires
            old(self).wf(),
            old(self).permit is Some,
            old(counters)@.outstanding_invocations >= 1,
        ensures
            final(self).wf(),
            final(self).phase() == EntryPhase::Over,
            final(self).world() == old(self).world(),
            final(self).entry() == old(self).entry(),
            final(self).decode_error() == old(self).decode_error(),
            final(counters)@ == old(counters)@.with_in_use(
                CounterKind::Invocation,
                (old(counters)@.outstanding_invocations - 1) as usize,
            ),
    {
        let mut permit: Option<QuotaPermit> = None;
        std::mem::swap(&mut permit, &mut self.permit);
        self.phase = EntryPhase::Over;
        match permit {
            Some(p) => counters.release(p),
            None => {},
        }
    }

    /// The guest call came out as `outcome`: the entry is over, its invocation
    /// slot is given back, and a timeout or a trap poisons the instance.
    pub fn finished<T>(
        &mut self,
        instance: &mut SerialInstance,
        outcome: GuestOutcome<T>,
        limits: &WasmRuntimeLimits,
        counters: &mut RuntimeCounters,
    ) -> (r: WasmResult<T>)
        requires
            old(self).wf(),
            old(self).phase() == EntryPhase::Calling,
            old(instance)@.wf(),
            !old(instance)@.poisoned,
            old(counters)@.outstanding_invocations >= 1,
        ensures
            final(self).wf(),
            final(self).phase() == EntryPhase::Over,
            final(self).world() == old(self).world(),
            final(self).entry() == old(self).entry(),
            final(self).decode_error() == old(self).decode_error(),
            entry_result(old(self).entry(), outcome, *limits, r),
            final(instance)@ == outcome_instance(outcome, old(instance)@),
            final(instance)@.wf(),
            final(counters)@ == outcome_counted(
                outcome,
                old(counters)@.with_in_use(
                    CounterKind::Invocation,
                    (old(counters)@.outstanding_invocations - 1) as usize,
                ),
            ),
    {
        self.release(counters);
        match outcome {
            GuestOutcome::TimedOut => {
                instance.poison();
                counters.record_timeout();
                Err(WasmError::InvocationTimeout(limits.invocation_timeout))
            },
            GuestOutcome::Trapped(report) => {
                instance.poison();
                Err(classify_trap(self.entry.label_str(), &report, counters))
            },
            GuestOutcome::Refused(t) => {
                instance.context_installed = false;
                let text: String = match self.entry {
                    EntryPoint::Dispatch => cat("guest dispatch returned error: ", t.as_str()),
                    other => cat3(other.label_str(), " error: ", t.as_str()),
                };
                Err(WasmError::ExecutionFailed(text))
            },
            GuestOutcome::Returned(v) => {
                instance.context_installed = false;
                Ok(v)
            },
        }
    }
}

// ── laws ─────────────────────────────────────────────────────────────────────

/// A guest's own error never poisons an instance, and a trap or a timeout always
/// does: only the latter cause the next entry to rebuild.
pub proof fn only_fatal_outcomes_poison<T>(outcome: GuestOutcome<T>, before: InstanceView)
    requires
        before.wf(),
        !before.poisoned,
    ensures
        outcome_instance(outcome, before).poisoned <==> (outcome is TimedOut || outcome is Trapped),
        outcome_instance(outcome, before).rebuilds == before.rebuilds,
        outcome_instance(outcome, before).wf(),
{
}

/// A fatal failure followed by a rebuild leaves a serviceable instance with no
/// trace of the failed call, rebuilt exactly once more.
pub proof fn rebuild_recovers(before: InstanceView)
    requires
        before.wf(),
        before.rebuilds < u64::MAX,
    ensures
        before.poison().rebuilt() == (InstanceView {
            poisoned: false,
            rebuilds: (before.rebuilds + 1) as u64,
            store_live: true,
            context_installed: false,
        }),
        before.poison().rebuilt().wf(),
{
}

/// A component is driven through the world that it exports: the serial one or the concurrent
/// one where it exports exactly that, and none where it exports neither or both.
pub proof fn worlds_are_told_by_exports(names: Seq<Seq<char>>)
    ensures
        ({
            let serial = exists|i: int|
                0 <= i < names.len() && "actr:workload/workload@0.1.0"@.is_prefix_of(
                    #[trigger] names[i],
                );
            let concurrent = exists|i: int|
                0 <= i < names.len() && "actr:workload/workload@0.2.0"@.is_prefix_of(
                    #[trigger] names[i],
                );
            &&& world_of(names) == Ok::<WasmWorkloadKind, WasmErrorView>(
                WasmWorkloadKind::V1Serial,
            ) <==> serial && !concurrent
            &&& world_of(names) == Ok::<WasmWorkloadKind, WasmErrorView>(
                WasmWorkloadKind::V2Concurrent,
            ) <==> concurrent && !serial
            &&& world_of(names) is Err <==> serial == concurrent
            &&& world_of(names) matches Err(e) ==> e is LoadFailed
        }),
{
}

/// The order of a component's exports does not matter, nor what else it exports.
pub proof fn other_exports_do_not_matter(names: Seq<Seq<char>>, other: Seq<char>, at: int)
    requires
        0 <= at <= names.len(),
        !"actr:workload/workload@0.1.0"@.is_prefix_of(other),
        !"actr:workload/workload@0.2.0"@.is_prefix_of(other),
    ensures
        world_of(names.insert(at, other)) == world_of(names),
{
    lemma_insert_export(names, other, at, "actr:workload/workload@0.1.0"@);
    lemma_insert_export(names, other, at, "actr:workload/workload@0.2.0"@);
}

proof fn lemma_insert_export(
    names: Seq<Seq<char>>,
    other: Seq<char>,
    at: int,
    prefix: Seq<char>,
)
    requires
        0 <= at <= names.len(),
        !prefix.is_prefix_of(other),
    ensures
        exports_prefix(names.insert(at, other), prefix) == exports_prefix(names, prefix),
{
    let more = names.insert(at, other);
    if exports_prefix(names, prefix) {
        let i = choose|i: int| 0 <= i < names.len() && prefix.is_prefix_of(#[trigger] names[i]);
        let j = if i < at {
            i
        } else {
            i + 1
        };
        assert(more[j] == names[i]);
    }
    if exports_prefix(more, prefix) {
        let j = choose|j: int| 0 <= j < more.len() && prefix.is_prefix_of(#[trigger] more[j]);
        assert(j != at);
        let i = if j < at {
            j
        } else {
            j - 1
        };
        assert(names[i] == more[j]);
    }
}

/// The result of an entry is what the guest made of it: its value unchanged, its own error
/// as a failed execution that ends with its text, a timeout with the time that was allowed,
/// and a trap by its cause under the entry's name.
pub proof fn entries_end_as_the_guest_did<T>(
    entry: EntryPoint,
    outcome: GuestOutcome<T>,
    limits: WasmRuntimeLimits,
    r: WasmResult<T>,
)
    requires
        entry_result(entry, outcome, limits, r),
    ensures
        r is Ok <==> outcome is Returned,
        outcome matches GuestOutcome::Returned(v) ==> r == Ok::<T, WasmError>(v),
        outcome is TimedOut ==> r->Err_0@ == WasmErrorView::InvocationTimeout(
            limits.invocation_timeout,
        ),
        outcome matches GuestOutcome::Trapped(report) ==> r->Err_0@ == fault::trap_class(
            entry.label(),
            report,
        ),
        outcome matches GuestOutcome::Refused(t) ==> (r->Err_0@ matches
            WasmErrorView::ExecutionFailed(m) && t@.is_suffix_of(m)),
{
    if let GuestOutcome::Refused(t) = outcome {
        let m = entry.guest_error_heading() + t@;
        assert(m.subrange(m.len() - t@.len(), m.len() as int) =~= t@);
    }
}

/// A guest call is counted by how it failed: a timeout once as such, a trap by its cause, and
/// anything else not at all.
pub proof fn outcomes_are_counted_once<T>(outcome: GuestOutcome<T>, before: WasmRuntimeStats)
    ensures
        outcome is Returned || outcome is Refused ==> outcome_counted(outcome, before) == before,
        outcome is TimedOut && before.invocation_timeouts < u64::MAX ==> outcome_counted(
            outcome,
            before,
        ).invocation_timeouts == before.invocation_timeouts + 1,
        outcome !is TimedOut ==> outcome_counted(outcome, before).invocation_timeouts
            == before.invocation_timeouts,
        outcome is TimedOut ==> outcome_counted(outcome, before).epoch_traps == before.epoch_traps
            && outcome_counted(outcome, before).out_of_fuel_traps == before.out_of_fuel_traps,
        outcome matches GuestOutcome::Trapped(report) ==> outcome_counted(outcome, before)
            == fault::trap_counted(report, before),
        outcome_counted(outcome, before).outstanding_invocations == before.outstanding_invocations,
{
}

/// A rebuild that fails on a resource limit stays recognisable as such, so that it can be
/// tried again; any other failure is a load failure that ends with what was printed of it.
pub proof fn busy_rebuilds_stay_recognisable(world: WasmWorkloadKind, e: WasmErrorView)
    ensures
        e is ResourceLimitExceeded ==> rebuild_error(world, e) == e,
        e !is ResourceLimitExceeded ==> (rebuild_error(world, e) matches WasmErrorView::LoadFailed(
            m,
        ) && e.printed().is_suffix_of(m)),
{
    if e !is ResourceLimitExceeded {
        let m = rebuild_error(world, e)->LoadFailed_0;
        let t = e.printed();
        assert(m.subrange(m.len() - t.len(), m.len() as int) =~= t);
    }
}

/// An entry is named after the guest function that it calls.
pub proof fn entries_are_named_after_their_function(hook: HookEntry)
    ensures
        EntryPoint::OnStart.label() == "on_start"@,
        EntryPoint::OnReady.label() == "on_ready"@,
        EntryPoint::OnStop.label() == "on_stop"@,
        EntryPoint::Dispatch.label() == "dispatch"@,
        EntryPoint::DataChunk.label() == "on_data_chunk"@,
        EntryPoint::Hook(hook).label() == hook.export(),
{
}

/// A package of the older calling convention is recognised by the compiler's words, wherever
/// they stand, and what the compiler said is always passed on.
pub proof fn old_packages_are_recognised(before: Seq<char>, after: Seq<char>, raw: Seq<char>)
    ensures
        is_old_package(
            before + "`async` canonical option requires an async function type"@ + after,
        ),
        text::occurs_in(raw, load_message(raw)),
{
    let part = "`async` canonical option requires an async function type"@;
    let whole = before + part + after;
    let i = before.len() as int;
    assert(whole.subrange(i, i + part.len()) =~= part);
    let m = load_message(raw);
    let j: int = if is_old_package(raw) {
        m.len() - raw.len()
    } else {
        m.len() - raw.len() - ")"@.len()
    };
    assert(m.subrange(j, j + raw.len()) =~= raw);
}

/// Compilation is refused for what it is asked before anything is parsed, and only then: bytes
/// up to the limit under sound limits with a free slot are handed to the compiler, and what
/// comes of them is a component with their exports under those limits, or a load failure.
pub proof fn compilation_is_refused_by_its_limits(
    bytes: Seq<u8>,
    limits: WasmRuntimeLimits,
    invalid: Option<String>,
    before: WasmRuntimeStats,
    r: Result<WasmHost, WasmError>,
    after: WasmRuntimeStats,
)
    requires
        WasmHost::compiled(bytes, limits, invalid, before, r, after),
    ensures
        r is Ok ==> invalid is None && bytes.len() <= limits.max_component_bytes
            && before.active_compiles < limits.max_concurrent_compiles && 0 < limits.max_wasm_stack
            <= limits.async_stack_size,
        r matches Ok(h) ==> h.exports() == component_exports(bytes) && h.limits() == limits,
        r matches Err(e) ==> (e@ is VerificationFailed <==> invalid is Some),
        r matches Err(e) ==> (e@ is ResourceLimitExceeded <==> invalid is None && (bytes.len()
            > limits.max_component_bytes || before.active_compiles
            >= limits.max_concurrent_compiles)),
        after.active_compiles == before.active_compiles,
        after.active_stores == before.active_stores,
        after.outstanding_invocations == before.outstanding_invocations,
        r is Ok ==> after == before,
{
}

/// An entry into a serviceable instance gets the whole fuel of one invocation and a deadline
/// that covers the timeout, whenever its request decoded and a slot is free; a slot is taken
/// in no other case.
pub proof fn entries_are_seeded_in_full<T>(
    run: EntryRun,
    after: EntryRun,
    limits: WasmRuntimeLimits,
    before: WasmRuntimeStats,
    r: EntryAction<T>,
    counters: WasmRuntimeStats,
)
    requires
        run.proceeds(after, limits, before, r, counters),
        limits.epoch_tick.nanos() > 0,
    ensures
        r is SetFuel <==> run.decode_error() is None && before.outstanding_invocations
            < limits.max_outstanding_invocations,
        r matches EntryAction::SetFuel { fuel, deadline_ticks: ticks } ==> fuel
            == limits.fuel_per_invocation && (ticks * limits.epoch_tick.nanos()
            > limits.invocation_timeout.nanos() || ticks == u64::MAX),
        r is SetFuel ==> counters.outstanding_invocations == before.outstanding_invocations + 1
            && after.phase() == EntryPhase::Seeding,
        r !is SetFuel ==> counters.outstanding_invocations == before.outstanding_invocations
            && after.phase() == EntryPhase::Over && (r matches EntryAction::Done(Err(_))),
{
    deadline_ticks_are_tight(limits.epoch_tick.nanos(), limits.invocation_timeout.nanos());
}

/// After a guest call nothing of it is left in the instance: its context is gone, and so is
/// the whole store where the call was fatal to it.
pub proof fn calls_leave_no_context<T>(outcome: GuestOutcome<T>, before: InstanceView)
    requires
        before.wf(),
        !before.poisoned,
    ensures
        !outcome_instance(outcome, before).context_installed,
        outcome_instance(outcome, before).store_live <==> outcome is Returned || outcome is Refused,
{
}

} // verus!
