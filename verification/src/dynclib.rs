//! Native shared-library workloads: bridge tokens, symbol resolution, requests
//! and shutdown of an instance, and the runtime inside a loaded image.
//!
//! Loading a library and calling into it happen outside; this module decides
//! what is asked of the library and what its answers mean.
use crate::lifecycle::LifecyclePhase;
use crate::protocol::{ActrError, ActrErrorView};
use crate::text;
use crate::text::{cat, cat3, from_utf8, signed_decimal};
use crate::workload;
use crate::workload::{
    decode_host_operation, operation_reply, AbiCodes, AbiFrame, AbiOps, AbiReply, HostOperation,
    HostOperationResult,
};
use std::collections::HashMap;
use vstd::prelude::*;
use vstd::std_specs::hash::*;
use vstd::string::*;

verus! {

broadcast use vstd::std_specs::hash::group_hash_axioms;

/// Errors from loading or running a shared-library workload.
#[derive(Debug, Clone, PartialEq, Eq)]
pub enum DynclibError {
    /// The library could not be loaded.
    LoadFailed(String),
    /// A required symbol is missing.
    MissingSymbol { symbol: String, detail: String },
    /// The guest refused to initialize, with this code.
    InitFailed(i32),
    /// A request could not be carried out.
    DispatchFailed(String),
}

/// Result of a shared-library operation.
pub type DynclibResult<T> = Result<T, DynclibError>;

/// Contents of a [`DynclibError`].
pub enum DynclibErrorView {
    LoadFailed(Seq<char>),
    MissingSymbol { symbol: Seq<char>, detail: Seq<char> },
    InitFailed(i32),
    DispatchFailed(Seq<char>),
}

impl View for DynclibError {
    type V = DynclibErrorView;

    open spec fn view(&self) -> DynclibErrorView {
        match *self {
            DynclibError::LoadFailed(t) => DynclibErrorView::LoadFailed(t@),
            DynclibError::MissingSymbol { symbol, detail } => DynclibErrorView::MissingSymbol {
                symbol: symbol@,
                detail: detail@,
            },
            DynclibError::InitFailed(code) => DynclibErrorView::InitFailed(code),
            DynclibError::DispatchFailed(t) => DynclibErrorView::DispatchFailed(t@),
        }
    }
}

// ── retained host bridges ────────────────────────────────────────────────────

/// Host bridges that guests hold on to, by token. Each is counted, and is gone
/// once nobody holds it any more.
#[derive(Debug)]
pub struct BridgeRegistry {
    holders: HashMap<u64, u64>,
    next_token: u64,
}

/// Contents of a [`BridgeRegistry`].
pub struct BridgesView {
    /// How many hold each bridge.
    pub holders: Map<u64, u64>,
    /// The token that the next bridge gets.
    pub next: u64,
}

impl View for BridgeRegistry {
    type V = BridgesView;

    closed spec fn view(&self) -> BridgesView {
        BridgesView { holders: self.holders@, next: self.next_token }
    }
}

impl BridgesView {
    /// Every bridge is held by somebody, under a token that was handed out
    /// before the next one.
    pub open spec fn wf(self) -> bool {
        &&& 0 < self.next
        &&& forall|t: u64| #[trigger]
            self.holders.dom().contains(t) ==> 0 < self.holders[t] && 0 < t && t < self.next
    }

    /// A new bridge, held once.
    pub open spec fn register(self) -> BridgesView {
        BridgesView {
            holders: self.holders.insert(self.next, 1),
            next: (self.next + 1) as u64,
        }
    }

    /// One more holder of a bridge, if it is there.
    pub open spec fn retain(self, token: u64) -> BridgesView {
        if self.holders.dom().contains(token) {
            BridgesView {
                holders: self.holders.insert(token, (self.holders[token] + 1) as u64),
                ..self
            }
        } else {
            self
        }
    }

    /// One holder less, if the bridge is there; the last one takes it away.
    pub open spec fn release(self, token: u64) -> BridgesView {
        if !self.holders.dom().contains(token) {
            self
        } else if self.holders[token] > 1 {
            BridgesView {
                holders: self.holders.insert(token, (self.holders[token] - 1) as u64),
                ..self
            }
        } else {
            BridgesView { holders: self.holders.remove(token), ..self }
        }
    }
}

impl BridgeRegistry {
    /// No bridge yet; the first token is 1.
    pub fn new() -> (r: BridgeRegistry)
        ensures
            r@ == (BridgesView { holders: Map::empty(), next: 1 }),
            r@.wf(),
    {
        BridgeRegistry { holders: HashMap::new(), next_token: 1 }
    }

    /// Register a bridge for one holder.
    pub fn register_bridge(&mut self) -> (r: u64)
        requires
            old(self)@.wf(),
            old(self)@.next < u64::MAX,
        ensures
            r == old(self)@.next,
            final(self)@ == old(self)@.register(),
            final(self)@.wf(),
            !old(self)@.holders.dom().contains(r),
    {
        let token: u64 = self.next_token;
        self.next_token = self.next_token + 1;
        self.holders.insert(token, 1);
        assert(self@.holders =~= old(self)@.holders.insert(token, 1));
        token
    }

    /// One more holder. False if the bridge is gone.
    pub fn retain_bridge(&mut self, token: u64) -> (r: bool)
        requires
            old(self)@.wf(),
            old(self)@.holders.dom().contains(token) ==> old(self)@.holders[token] < u64::MAX,
        ensures
            r == old(self)@.holders.dom().contains(token),
            final(self)@ == old(self)@.retain(token),
            final(self)@.wf(),
    {
        let held: u64 = match self.holders.get(&token) {
            Some(n) => *n,
            None => return false,
        };
        self.holders.insert(token, held + 1);
        true
    }

    /// One holder less; the bridge is gone with the last one.
    pub fn release_bridge(&mut self, token: u64)
        requires
            old(self)@.wf(),
        ensures
            final(self)@ == old(self)@.release(token),
            final(self)@.wf(),
    {
        let held: u64 = match self.holders.get(&token) {
            Some(n) => *n,
            None => return,
        };
        if held > 1 {
            self.holders.insert(token, held - 1);
        } else {
            self.holders.remove(&token);
            assert(self@.holders =~= old(self)@.holders.remove(token));
        }
    }

    /// Whether a call through this token reaches a bridge.
    pub fn is_live(&self, token: u64) -> (r: bool)
        ensures
            r == self@.holders.dom().contains(token),
    {
        self.holders.contains_key(&token)
    }

    /// How many bridges are held.
    pub fn active_bridge_count(&self) -> (r: usize)
        ensures
            r == self@.holders.len(),
    {
        self.holders.len()
    }
}

/// A release undoes a retain, and leaves every other bridge alone.
pub proof fn release_undoes_retain(v: BridgesView, token: u64)
    requires
        v.wf(),
        v.holders.dom().contains(token),
        v.holders[token] < u64::MAX,
    ensures
        v.retain(token).release(token) == v,
{
    assert(v.retain(token).release(token).holders =~= v.holders);
}

/// A bridge that is registered and released is gone; its token is not reused.
pub proof fn release_undoes_register(v: BridgesView)
    requires
        v.wf(),
        v.next < u64::MAX,
    ensures
        v.register().release(v.next).holders == v.holders,
        v.register().release(v.next).next == v.next + 1,
{
    assert(v.register().release(v.next).holders =~= v.holders);
}

/// Holding on to one bridge never touches another.
pub proof fn bridges_are_independent(v: BridgesView, token: u64, other: u64)
    requires
        token != other,
    ensures
        v.retain(token).holders.dom().contains(other) == v.holders.dom().contains(other),
        v.release(token).holders.dom().contains(other) == v.holders.dom().contains(other),
        v.holders.dom().contains(other) ==> v.retain(token).holders[other] == v.holders[other]
            && v.release(token).holders[other] == v.holders[other],
{
}

// ── loading ──────────────────────────────────────────────────────────────────

/// The symbols that a library must export, in the order in which they are
/// resolved.
pub open spec fn symbol_at(i: int) -> Option<Seq<char>> {
    if i == 0 {
        Some("actr_init"@)
    } else if i == 1 {
        Some("actr_handle"@)
    } else if i == 2 {
        Some("actr_free_response"@)
    } else if i == 3 {
        Some("actr_shutdown"@)
    } else {
        None
    }
}

/// Resolution of a library's symbols, one after the other.
#[derive(Debug)]
pub struct SymbolResolution {
    resolved: u8,
}

impl SymbolResolution {
    /// How many symbols were resolved.
    pub closed spec fn count(self) -> int {
        self.resolved as int
    }

    /// Begin with a library that was opened from `path`, or could not be.
    pub fn begin(path: &str, opened: Result<(), String>) -> (r: DynclibResult<SymbolResolution>)
        ensures
            match opened {
                Ok(_) => r matches Ok(s) && s.count() == 0,
                Err(t) => r matches Err(e) && e@ == DynclibErrorView::LoadFailed(
                    path@ + ": "@ + t@,
                ),
            },
    {
        match opened {
            Ok(_) => Ok(SymbolResolution { resolved: 0 }),
            Err(t) => Err(DynclibError::LoadFailed(cat3(path, ": ", t.as_str()))),
        }
    }

    /// The symbol to resolve next, or none when all are resolved.
    pub fn wanted(&self) -> (r: Option<&'static str>)
        ensures
            match r {
                Some(t) => symbol_at(self.count()) == Some(t@),
                None => symbol_at(self.count()) is None,
            },
    {
        if self.resolved == 0 {
            Some("actr_init")
        } else if self.resolved == 1 {
            Some("actr_handle")
        } else if self.resolved == 2 {
            Some("actr_free_response")
        } else if self.resolved == 3 {
            Some("actr_shutdown")
        } else {
            None
        }
    }

    /// The wanted symbol was found, or was not.
    pub fn found(&mut self, result: Result<(), String>) -> (r: DynclibResult<()>)
        requires
            symbol_at(old(self).count()) is Some,
        ensures
            match result {
                Ok(_) => r is Ok && final(self).count() == old(self).count() + 1,
                Err(t) => {
                    &&& r matches Err(e) && e@ == (DynclibErrorView::MissingSymbol {
                        symbol: symbol_at(old(self).count())->Some_0,
                        detail: t@,
                    })
                    &&& final(self).count() == old(self).count()
                },
            },
    {
        match result {
            Ok(_) => {
                self.resolved = self.resolved + 1;
                Ok(())
            },
            Err(t) => {
                let symbol: &str = match self.wanted() {
                    Some(symbol) => symbol,
                    None => "",
                };
                Err(DynclibError::MissingSymbol { symbol: symbol.to_owned(), detail: t })
            },
        }
    }
}

// ── one instance ─────────────────────────────────────────────────────────────

/// A text that ends in a status code.
pub open spec fn with_code(heading: Seq<char>, code: i32) -> DynclibErrorView {
    DynclibErrorView::DispatchFailed(heading + text::signed_text(code as int))
}

fn code_failure(heading: &str, code: i32) -> (r: DynclibError)
    ensures
        r@ == with_code(heading@, code),
{
    let shown: String = signed_decimal(code as i64);
    DynclibError::DispatchFailed(cat(heading, shown.as_str()))
}

/// What a request to the guest carries.
#[derive(Debug, Clone, Copy, PartialEq, Eq, Structural)]
pub enum RequestKind {
    Handle,
    DataChunk,
    Lifecycle(LifecyclePhase),
    Hook,
}

impl RequestKind {
    /// What the text of a failed encoding starts with.
    pub open spec fn encode_heading(self) -> Seq<char> {
        match self {
            RequestKind::Handle => "guest handle frame serialization failed: "@,
            RequestKind::DataChunk => "guest data stream frame serialization failed: "@,
            RequestKind::Lifecycle(_) => "guest lifecycle frame serialization failed: "@,
            RequestKind::Hook => "guest hook frame serialization failed: "@,
        }
    }
}

/// What came of calling the guest's request function.
#[derive(Debug)]
pub enum GuestReturn {
    /// The thread that made the call panicked.
    Panicked(String),
    /// The guest returned this code. Its response decoded to a reply frame, or
    /// failed to with a code.
    Returned(i32, Result<AbiReply, i32>),
}

/// What a guest's answer means.
pub open spec fn answer(outcome: GuestReturn, codes: AbiCodes) -> Result<
    Seq<u8>,
    DynclibErrorView,
> {
    match outcome {
        GuestReturn::Panicked(t) => Err(
            DynclibErrorView::DispatchFailed("spawn_blocking panicked: "@ + t@),
        ),
        GuestReturn::Returned(code, decoded) => if code != 0 {
            Err(with_code("actr_handle returned error code "@, code))
        } else {
            match decoded {
                Err(c) => Err(with_code("guest returned malformed AbiReply with code "@, c)),
                Ok(reply) => if reply.status == codes.success {
                    Ok(reply.payload@)
                } else if vstd::utf8::valid_utf8(reply.payload@) {
                    Err(
                        DynclibErrorView::DispatchFailed(
                            vstd::utf8::decode_utf8(reply.payload@),
                        ),
                    )
                } else {
                    Err(with_code("guest returned status "@, reply.status))
                },
            }
        },
    }
}

/// Decisions of one actor instance inside a loaded library.
#[derive(Debug)]
pub struct DynclibInstance {
    is_shutdown: bool,
}

impl DynclibInstance {
    /// Whether the guest was shut down.
    pub closed spec fn shut_down(self) -> bool {
        self.is_shutdown
    }

    /// The guest's initializer came out as `encoded`: its payload could not be
    /// encoded, or the initializer returned a code.
    pub fn instantiate(encoded: Result<i32, i32>) -> (r: DynclibResult<DynclibInstance>)
        ensures
            match encoded {
                Err(code) => r matches Err(e) && e@ == with_code(
                    "init payload encode failed: "@,
                    code,
                ),
                Ok(code) => if code != 0 {
                    r matches Err(e) && e@ == DynclibErrorView::InitFailed(code)
                } else {
                    r matches Ok(i) && !i.shut_down()
                },
            },
    {
        match encoded {
            Err(code) => Err(code_failure("init payload encode failed: ", code)),
            Ok(code) => if code != 0 {
                Err(DynclibError::InitFailed(code))
            } else {
                Ok(DynclibInstance { is_shutdown: false })
            },
        }
    }

    /// Whether a request may enter the guest: it was encoded, and the guest was
    /// not shut down.
    pub fn begin_request(&self, kind: RequestKind, encoded: Result<(), i32>) -> (r: DynclibResult<()>)
        ensures
            match encoded {
                Err(code) => r matches Err(e) && e@ == with_code(kind.encode_heading(), code),
                Ok(_) => if self.shut_down() {
                    r matches Err(e) && e@ == DynclibErrorView::DispatchFailed(
                        "dynclib instance is shut down"@,
                    )
                } else {
                    r is Ok
                },
            },
    {
        match encoded {
            Err(code) => {
                let heading: &str = match kind {
                    RequestKind::Handle => "guest handle frame serialization failed: ",
                    RequestKind::DataChunk => "guest data stream frame serialization failed: ",
                    RequestKind::Lifecycle(_) => "guest lifecycle frame serialization failed: ",
                    RequestKind::Hook => "guest hook frame serialization failed: ",
                };
                Err(code_failure(heading, code))
            },
            Ok(_) => if self.is_shutdown {
                Err(DynclibError::DispatchFailed("dynclib instance is shut down".to_owned()))
            } else {
                Ok(())
            },
        }
    }

    /// What the guest's answer to a request means.
    pub fn finish_request(&self, outcome: GuestReturn, codes: &AbiCodes) -> (r: DynclibResult<Vec<u8>>)
        ensures
            match answer(outcome, *codes) {
                Ok(payload) => r matches Ok(bytes) && bytes@ == payload,
                Err(error) => r matches Err(e) && e@ == error,
            },
    {
        match outcome {
            GuestReturn::Panicked(t) => Err(
                DynclibError::DispatchFailed(cat("spawn_blocking panicked: ", t.as_str())),
            ),
            GuestReturn::Returned(code, decoded) => {
                if code != 0 {
                    return Err(code_failure("actr_handle returned error code ", code));
                }
                let reply: AbiReply = match decoded {
                    Ok(reply) => reply,
                    Err(c) => return Err(
                        code_failure("guest returned malformed AbiReply with code ", c),
                    ),
                };
                if reply.status == codes.success {
                    return Ok(reply.payload);
                }
                let status: i32 = reply.status;
                match from_utf8(reply.payload.as_slice()) {
                    Ok(message) => Err(DynclibError::DispatchFailed(message.to_owned())),
                    Err(_) => Err(code_failure("guest returned status ", status)),
                }
            },
        }
    }

    /// Whether the guest's shutdown function is still to be called.
    pub fn needs_shutdown(&self) -> (r: bool)
        ensures
            r == !self.shut_down(),
    {
        !self.is_shutdown
    }

    /// The guest's shutdown function panicked or returned a code. Only success
    /// marks the instance as shut down; a failed shutdown may be tried again.
    pub fn shutdown_returned(&mut self, outcome: Result<i32, String>, codes: &AbiCodes) -> (r:
        DynclibResult<()>)
        requires
            !old(self).shut_down(),
        ensures
            match outcome {
                Err(t) => {
                    &&& r matches Err(e) && e@ == DynclibErrorView::DispatchFailed(
                        "actr_shutdown panicked: "@ + t@,
                    )
                    &&& !final(self).shut_down()
                },
                Ok(code) => if code != codes.success {
                    &&& r matches Err(e) && e@ == with_code(
                        "actr_shutdown returned error code "@,
                        code,
                    )
                    &&& !final(self).shut_down()
                } else {
                    r is Ok && final(self).shut_down()
                },
            },
    {
        match outcome {
            Err(t) => Err(DynclibError::DispatchFailed(cat("actr_shutdown panicked: ", t.as_str()))),
            Ok(code) => {
                if code != codes.success {
                    return Err(code_failure("actr_shutdown returned error code ", code));
                }
                self.is_shutdown = true;
                Ok(())
            },
        }
    }
}

/// The result of stopping a workload: its hook ran, and whatever came of it the
/// library was shut down. The hook's failure is the one that is reported.
pub fn stop_result(hook: DynclibResult<()>, shutdown: DynclibResult<()>) -> (r: DynclibResult<()>)
    ensures
        r == (if hook is Err {
            hook
        } else {
            shutdown
        }),
{
    match hook {
        Err(e) => Err(e),
        Ok(_) => shutdown,
    }
}

/// What a call from the guest asks for: without a place for the answer it is a
/// protocol error, a frame that could not be read fails with its code, and the
/// rest is up to the frame.
pub fn begin_invoke<T, F: Fn(HostOperation, &Vec<u8>) -> Result<T, i32>>(
    answer_expected: bool,
    frame: Result<AbiFrame, i32>,
    ops: &AbiOps,
    codes: &AbiCodes,
    decode: F,
) -> (r: Result<(HostOperation, T), i32>)
    requires
        forall|op: HostOperation, payload: &Vec<u8>| #[trigger]
            call_requires(decode, (op, payload)),
    ensures
        if !answer_expected {
            r == Err::<(HostOperation, T), i32>(codes.protocol_error)
        } else {
            match frame {
                Err(code) => r == Err::<(HostOperation, T), i32>(code),
                Ok(f) => if f.abi_version != ops.version {
                    r == Err::<(HostOperation, T), i32>(codes.protocol_error)
                } else {
                    match workload::operation_of(f.op, *ops) {
                        None => r == Err::<(HostOperation, T), i32>(codes.unsupported_op),
                        Some(op) => match r {
                            Ok((found, payload)) => found == op && call_ensures(
                                decode,
                                (op, &f.payload),
                                Ok::<T, i32>(payload),
                            ),
                            Err(code) => call_ensures(
                                decode,
                                (op, &f.payload),
                                Err::<T, i32>(code),
                            ),
                        },
                    }
                },
            }
        },
{
    if !answer_expected {
        return Err(codes.protocol_error);
    }
    match frame {
        Err(code) => Err(code),
        Ok(f) => decode_host_operation(&f, ops, codes, decode),
    }
}

/// The reply to a call from the guest through a bridge token: an unknown token is
/// a generic error, and so is a host that stopped before it answered.
pub fn trampoline_reply(
    bridges: &BridgeRegistry,
    token: u64,
    answered: Option<HostOperationResult>,
    ops: &AbiOps,
    codes: &AbiCodes,
) -> (r: AbiReply)
    ensures
        r.abi_version == ops.version,
        if !bridges@.holders.dom().contains(token) || answered is None {
            r.status == codes.generic_error && r.payload@.len() == 0
        } else {
            match answered->Some_0 {
                HostOperationResult::Bytes(bytes) => r.status == codes.success && r.payload
                    == bytes,
                HostOperationResult::Done => r.status == codes.success && r.payload@.len() == 0,
                HostOperationResult::Error(code) => r.status == code && r.payload@.len() == 0,
            }
        },
{
    let result: HostOperationResult = match answered {
        Some(result) => if bridges.is_live(token) {
            result
        } else {
            HostOperationResult::Error(codes.generic_error)
        },
        None => HostOperationResult::Error(codes.generic_error),
    };
    operation_reply(result, ops, codes)
}

// ── the runtime inside a loaded image ────────────────────────────────────────

/// Background tasks and life cycle of the runtime that one loaded image owns.
#[derive(Debug)]
pub struct GuestRuntime {
    initialized: bool,
    running: bool,
    accepting: bool,
    tasks: Vec<u64>,
}

/// Contents of a [`GuestRuntime`].
pub struct GuestRuntimeView {
    /// The runtime was set up once.
    pub initialized: bool,
    /// The runtime has not been shut down.
    pub running: bool,
    /// Background tasks are still accepted.
    pub accepting: bool,
    /// Background tasks, in the order in which they were spawned.
    pub tasks: Seq<u64>,
}

impl View for GuestRuntime {
    type V = GuestRuntimeView;

    closed spec fn view(&self) -> GuestRuntimeView {
        GuestRuntimeView {
            initialized: self.initialized,
            running: self.running,
            accepting: self.accepting,
            tasks: self.tasks@,
        }
    }
}

impl GuestRuntimeView {
    /// Only a runtime that was set up runs, tasks are accepted only while it
    /// runs, and none is left once it was shut down.
    pub open spec fn wf(self) -> bool {
        &&& self.running ==> self.initialized
        &&& self.accepting == self.running
        &&& !self.running ==> self.tasks.len() == 0
    }
}

/// The tasks of a list that are not in another.
pub open spec fn unfinished(tasks: Seq<u64>, finished: Seq<u64>) -> Seq<u64>
    decreases tasks.len(),
{
    if tasks.len() == 0 {
        Seq::empty()
    } else {
        let rest = unfinished(tasks.drop_last(), finished);
        if finished.contains(tasks.last()) {
            rest
        } else {
            rest.push(tasks.last())
        }
    }
}

fn is_among(tasks: &Vec<u64>, task: u64) -> (r: bool)
    ensures
        r == tasks@.contains(task),
{
    let mut i: usize = 0;
    while i < tasks.len()
        invariant
            i <= tasks@.len(),
            forall|j: int| 0 <= j < i ==> tasks@[j] != task,
        decreases tasks@.len() - i,
    {
        if tasks[i] == task {
            return true;
        }
        i = i + 1;
    }
    false
}

impl GuestRuntime {
    /// A runtime that was not set up yet.
    pub fn new() -> (r: GuestRuntime)
        ensures
            r@ == (GuestRuntimeView {
                initialized: false,
                running: false,
                accepting: false,
                tasks: Seq::empty(),
            }),
            r@.wf(),
    {
        GuestRuntime { initialized: false, running: false, accepting: false, tasks: Vec::new() }
    }

    /// Set the runtime up, once. `built` says whether its threads could be
    /// started.
    pub fn initialize(&mut self, built: Result<(), String>) -> (r: Result<(), ActrError>)
        requires
            old(self)@.wf(),
        ensures
            final(self)@.wf(),
            match built {
                Err(t) => {
                    &&& r matches Err(e) && e@ == ActrErrorView::Internal(
                        "failed to initialize dynclib Tokio runtime: "@ + t@,
                    )
                    &&& final(self)@ == old(self)@
                },
                Ok(_) => if old(self)@.initialized {
                    &&& r matches Err(e) && e@ == ActrErrorView::Internal(
                        "dynclib Tokio runtime is already initialized"@,
                    )
                    &&& final(self)@ == old(self)@
                } else {
                    &&& r is Ok
                    &&& final(self)@ == (GuestRuntimeView {
                        initialized: true,
                        running: true,
                        accepting: true,
                        tasks: Seq::empty(),
                    })
                },
            },
    {
        match built {
            Err(t) => Err(
                ActrError::Internal(
                    cat("failed to initialize dynclib Tokio runtime: ", t.as_str()),
                ),
            ),
            Ok(_) => {
                if self.initialized {
                    return Err(
                        ActrError::Internal(
                            "dynclib Tokio runtime is already initialized".to_owned(),
                        ),
                    );
                }
                self.initialized = true;
                self.running = true;
                self.accepting = true;
                assert(self@.tasks =~= Seq::empty());
                Ok(())
            },
        }
    }

    /// Whether a guest future may be driven.
    pub fn enter(&self) -> (r: Result<(), ActrError>)
        requires
            self@.wf(),
        ensures
            if !self@.initialized {
                r matches Err(e) && e@ == ActrErrorView::Internal(
                    "dynclib Tokio runtime is not initialized"@,
                )
            } else if !self@.running {
                r matches Err(e) && e@ == ActrErrorView::Internal(
                    "dynclib Tokio runtime is shut down"@,
                )
            } else {
                r is Ok
            },
    {
        if !self.initialized {
            return Err(
                ActrError::Internal("dynclib Tokio runtime is not initialized".to_owned()),
            );
        }
        if !self.running {
            return Err(ActrError::Internal("dynclib Tokio runtime is shut down".to_owned()));
        }
        Ok(())
    }

    /// Spawn a background task under the number `task`. Tasks that `finished` are
    /// forgotten.
    pub fn spawn(&mut self, task: u64, finished: &Vec<u64>) -> (r: Result<(), ActrError>)
        requires
            old(self)@.wf(),
        ensures
            final(self)@.wf(),
            if !old(self)@.initialized {
                &&& r matches Err(e) && e@ == ActrErrorView::Internal(
                    "dynclib Tokio runtime is not initialized"@,
                )
                &&& final(self)@ == old(self)@
            } else if !old(self)@.accepting {
                &&& r matches Err(e) && e@ == ActrErrorView::Unavailable(
                    "dynclib workload is shutting down"@,
                )
                &&& final(self)@ == old(self)@
            } else {
                &&& r is Ok
                &&& final(self)@ == (GuestRuntimeView {
                    tasks: unfinished(old(self)@.tasks, finished@).push(task),
                    ..old(self)@
                })
            },
    {
        if !self.initialized {
            return Err(
                ActrError::Internal("dynclib Tokio runtime is not initialized".to_owned()),
            );
        }
        if !self.accepting {
            return Err(ActrError::Unavailable("dynclib workload is shutting down".to_owned()));
        }
        let mut kept: Vec<u64> = Vec::new();
        let mut i: usize = 0;
        while i < self.tasks.len()
            invariant
                i <= self.tasks@.len(),
                self@ == old(self)@,
                kept@ == unfinished(self.tasks@.take(i as int), finished@),
            decreases self.tasks@.len() - i,
        {
            let task: u64 = self.tasks[i];
            assert(self.tasks@.take(i as int + 1).drop_last() =~= self.tasks@.take(i as int));
            if !is_among(finished, task) {
                kept.push(task);
            }
            i = i + 1;
        }
        assert(self.tasks@.take(i as int) =~= self.tasks@);
        kept.push(task);
        self.tasks = kept;
        Ok(())
    }

    /// Shut the runtime down. Gives the tasks that are aborted and awaited before
    /// the library is unloaded; a second shutdown has nothing to do.
    pub fn shutdown(&mut self) -> (r: Result<Vec<u64>, ActrError>)
        requires
            old(self)@.wf(),
        ensures
            final(self)@.wf(),
            if !old(self)@.initialized {
                &&& r matches Err(e) && e@ == ActrErrorView::Internal(
                    "dynclib Tokio runtime is not initialized"@,
                )
                &&& final(self)@ == old(self)@
            } else {
                &&& r matches Ok(tasks) && tasks@ == old(self)@.tasks
                &&& final(self)@ == (GuestRuntimeView {
                    initialized: true,
                    running: false,
                    accepting: false,
                    tasks: Seq::empty(),
                })
            },
    {
        if !self.initialized {
            return Err(
                ActrError::Internal("dynclib Tokio runtime is not initialized".to_owned()),
            );
        }
        let mut tasks: Vec<u64> = Vec::new();
        std::mem::swap(&mut tasks, &mut self.tasks);
        self.running = false;
        self.accepting = false;
        assert(self@.tasks =~= Seq::empty());
        Ok(tasks)
    }
}

/// Pruning keeps exactly the tasks that have not finished.
pub proof fn pruning_keeps_unfinished_tasks(tasks: Seq<u64>, finished: Seq<u64>, task: u64)
    ensures
        unfinished(tasks, finished).contains(task) <==> tasks.contains(task) && !finished.contains(
            task,
        ),
    decreases tasks.len(),
{
    if tasks.len() > 0 {
        let front = tasks.drop_last();
        pruning_keeps_unfinished_tasks(front, finished, task);
        let kept = unfinished(front, finished);
        assert(tasks =~= front.push(tasks.last()));
        if tasks.contains(task) && task != tasks.last() {
            let i = choose|i: int| 0 <= i < tasks.len() && tasks[i] == task;
            assert(front[i] == task);
        }
        if front.contains(task) {
            let i = choose|i: int| 0 <= i < front.len() && front[i] == task;
            assert(tasks[i] == task);
        }
        if !finished.contains(tasks.last()) {
            let longer = kept.push(tasks.last());
            if longer.contains(task) && task != tasks.last() {
                let i = choose|i: int| 0 <= i < longer.len() && longer[i] == task;
                assert(kept[i] == task);
            }
            if kept.contains(task) {
                let i = choose|i: int| 0 <= i < kept.len() && kept[i] == task;
                assert(longer[i] == task);
            }
            assert(longer[kept.len() as int] == tasks.last());
        }
        assert(tasks[tasks.len() - 1] == tasks.last());
    }
}

/// A bridge lives exactly as long as somebody holds it: registering makes one holder,
/// retaining one more, releasing one less, and the last release takes it away.
pub proof fn bridges_live_while_held(v: BridgesView, token: u64)
    requires
        v.wf(),
        v.next < u64::MAX,
    ensures
        !v.holders.dom().contains(v.next),
        v.register().holders.dom().contains(v.next),
        v.register().holders[v.next] == 1,
        v.register().next == v.next + 1,
        v.holders.dom().contains(token) ==> v.register().holders[token] == v.holders[token],
        v.holders.dom().contains(token) && v.holders[token] < u64::MAX ==> v.retain(
            token,
        ).holders[token] == v.holders[token] + 1,
        !v.holders.dom().contains(token) ==> v.retain(token) == v && v.release(token) == v,
        v.release(token).holders.dom().contains(token) <==> v.holders.dom().contains(token)
            && v.holders[token] > 1,
        v.holders.dom().contains(token) && v.holders[token] > 1 ==> v.release(token).holders[token]
            == v.holders[token] - 1,
        v.retain(token).next == v.next,
        v.release(token).next == v.next,
{
}

/// A library's four symbols are resolved one after the other, in a fixed order, and then no
/// more.
pub proof fn symbols_are_resolved_in_order(i: int)
    requires
        i >= 0,
    ensures
        symbol_at(i) is Some <==> i < 4,
        symbol_at(0) == Some("actr_init"@),
        symbol_at(1) == Some("actr_handle"@),
        symbol_at(2) == Some("actr_free_response"@),
        symbol_at(3) == Some("actr_shutdown"@),
{
}

/// A request succeeds exactly when the call returned zero and its reply says success, and
/// then gives the reply's payload unchanged. A guest's own error is its text where that is
/// text; everything else tells the code that it failed with.
pub proof fn answers_are_what_the_guest_said(outcome: GuestReturn, codes: AbiCodes)
    ensures
        answer(outcome, codes) is Ok <==> (outcome matches GuestReturn::Returned(code, Ok(reply))
            && code == 0 && reply.status == codes.success),
        outcome matches GuestReturn::Returned(code, Ok(reply)) ==> (answer(outcome, codes) matches
            Ok(payload) ==> payload == reply.payload@),
        outcome matches GuestReturn::Returned(code, Ok(reply)) ==> (code == 0 && reply.status
            != codes.success && vstd::utf8::valid_utf8(reply.payload@) ==> answer(outcome, codes)
            == Err::<Seq<u8>, DynclibErrorView>(
            DynclibErrorView::DispatchFailed(vstd::utf8::decode_utf8(reply.payload@)),
        )),
        outcome matches GuestReturn::Returned(code, _) ==> (code != 0 ==> (answer(outcome, codes)
            matches Err(DynclibErrorView::DispatchFailed(t)) && text::signed_text(
            code as int,
        ).is_suffix_of(t))),
        outcome matches GuestReturn::Returned(0, Err(c)) ==> (answer(outcome, codes) matches Err(
            DynclibErrorView::DispatchFailed(t),
        ) && text::signed_text(c as int).is_suffix_of(t)),
{
    if let GuestReturn::Returned(code, decoded) = outcome {
        lemma_code_last("actr_handle returned error code "@, code);
        if let Err(c) = decoded {
            lemma_code_last("guest returned malformed AbiReply with code "@, c);
        }
    }
}

proof fn lemma_code_last(heading: Seq<char>, code: i32)
    ensures
        with_code(heading, code) matches DynclibErrorView::DispatchFailed(t) && text::signed_text(
            code as int,
        ).is_suffix_of(t),
{
    let shown = text::signed_text(code as int);
    let t = heading + shown;
    assert(t.subrange(t.len() - shown.len(), t.len() as int) =~= shown);
}

/// Pruning keeps the order of what it keeps, and forgets nothing where nothing has finished.
pub proof fn pruning_keeps_the_order(tasks: Seq<u64>, finished: Seq<u64>, task: u64)
    ensures
        unfinished(tasks, finished).len() <= tasks.len(),
        unfinished(tasks.push(task), finished) == (if finished.contains(task) {
            unfinished(tasks, finished)
        } else {
            unfinished(tasks, finished).push(task)
        }),
        finished.len() == 0 ==> unfinished(tasks, finished) == tasks,
    decreases tasks.len(),
{
    assert(tasks.push(task).drop_last() =~= tasks);
    if tasks.len() > 0 {
        pruning_keeps_the_order(tasks.drop_last(), finished, task);
        assert(tasks =~= tasks.drop_last().push(tasks.last()));
    } else if finished.len() == 0 {
        assert(unfinished(tasks, finished) =~= tasks);
    }
}

} // verus!
