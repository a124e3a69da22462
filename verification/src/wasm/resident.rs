//! The resident region: one instance driven by several dispatches at once.
//!
//! A runner keeps one instance inside a resident region for its whole life.
//! Dispatches run side by side; every other command is a barrier that waits for
//! the dispatches in flight and then runs alone. The reply ledger outlives the
//! region, so that no caller is left waiting when a guest fault, a timeout or a
//! canceled caller collapses the region and its store is discarded.
//!
//! [`ResidentRunner`] takes the decisions. Its driver performs what it is told
//! (calling guests, setting fuel, sending replies) and reports back.
use crate::lifecycle::LifecyclePhase;
use crate::protocol::{ActrError, ActrErrorView};
use crate::text::{cat, cat4};
use crate::time::Interval;
use crate::wasm::fault;
use crate::wasm::fault::{classify_trap, TrapReport, WasmError, WasmErrorView, WasmResult};
use crate::wasm::fuel;
use crate::wasm::fuel::{clamped, RegionFuelBudget};
use crate::wasm::host;
use crate::wasm::host::{epoch_deadline_ticks, EntryPoint, HookEntry};
use crate::wasm::invocations::{InvocationTable, InvocationsView};
use crate::wasm::limits;
use crate::wasm::limits::{
    CounterKind, QuotaPermit, RuntimeCounters, WasmRuntimeLimits, WasmRuntimeStats,
};
use vstd::prelude::*;
use vstd::string::*;

verus! {

/// What a command asks for.
#[derive(Debug)]
pub enum CommandKind {
    /// Handle an inbound request.
    Dispatch,
    /// Run a lifecycle hook.
    Lifecycle(LifecyclePhase),
    /// Handle a chunk of the given stream.
    DataChunk { stream_id: String },
    /// Run an observation hook.
    Hook(HookEntry),
    /// Stop the runner.
    Shutdown,
}

/// A command to the runner, under the number that its caller's reply goes by.
#[derive(Debug)]
pub struct Command {
    pub id: u64,
    pub kind: CommandKind,
}

/// Contents of a [`CommandKind`].
pub enum CommandKindView {
    Dispatch,
    Lifecycle(LifecyclePhase),
    DataChunk { stream_id: Seq<char> },
    Hook(HookEntry),
    Shutdown,
}

/// Contents of a [`Command`].
pub struct CommandView {
    pub id: u64,
    pub kind: CommandKindView,
}

impl View for CommandKind {
    type V = CommandKindView;

    open spec fn view(&self) -> CommandKindView {
        match *self {
            CommandKind::Dispatch => CommandKindView::Dispatch,
            CommandKind::Lifecycle(phase) => CommandKindView::Lifecycle(phase),
            CommandKind::DataChunk { stream_id } => CommandKindView::DataChunk {
                stream_id: stream_id@,
            },
            CommandKind::Hook(hook) => CommandKindView::Hook(hook),
            CommandKind::Shutdown => CommandKindView::Shutdown,
        }
    }
}

impl CommandKindView {
    /// Where a command of this kind enters the guest; a shutdown does not.
    pub open spec fn entry(self) -> Option<EntryPoint> {
        match self {
            CommandKindView::Dispatch => Some(EntryPoint::Dispatch),
            CommandKindView::Lifecycle(LifecyclePhase::OnStart) => Some(EntryPoint::OnStart),
            CommandKindView::Lifecycle(LifecyclePhase::OnReady) => Some(EntryPoint::OnReady),
            CommandKindView::Lifecycle(LifecyclePhase::OnStop) => Some(EntryPoint::OnStop),
            CommandKindView::DataChunk { .. } => Some(EntryPoint::DataChunk),
            CommandKindView::Hook(hook) => Some(EntryPoint::Hook(hook)),
            CommandKindView::Shutdown => None,
        }
    }
}

impl CommandKind {
    /// Where a command of this kind enters the guest; a shutdown does not.
    pub fn entry_point(&self) -> (r: Option<EntryPoint>)
        ensures
            r == self@.entry(),
    {
        match self {
            CommandKind::Dispatch => Some(EntryPoint::Dispatch),
            CommandKind::Lifecycle(phase) => Some(
                match phase {
                    LifecyclePhase::OnStart => EntryPoint::OnStart,
                    LifecyclePhase::OnReady => EntryPoint::OnReady,
                    LifecyclePhase::OnStop => EntryPoint::OnStop,
                },
            ),
            CommandKind::DataChunk { .. } => Some(EntryPoint::DataChunk),
            CommandKind::Hook(hook) => Some(EntryPoint::Hook(*hook)),
            CommandKind::Shutdown => None,
        }
    }
}

impl View for Command {
    type V = CommandView;

    open spec fn view(&self) -> CommandView {
        CommandView { id: self.id, kind: self.kind@ }
    }
}

/// What a live guest call answers to.
#[derive(Debug, Clone, Copy, PartialEq, Eq, Structural)]
pub enum ReplyShape {
    /// A dispatch, answered with bytes.
    Dispatch,
    /// A lifecycle hook.
    Lifecycle(LifecyclePhase),
    /// A stream chunk.
    DataChunk,
    /// An observation hook, which cannot fail by itself.
    Hook,
}

/// A live guest call whose caller still waits for its reply. It holds the call's
/// invocation slot.
#[derive(Debug)]
pub struct PendingReply {
    token: u64,
    command: u64,
    shape: ReplyShape,
    captured: Option<u64>,
    permit: QuotaPermit,
}

/// Contents of a [`PendingReply`].
pub struct PendingView {
    /// The invocation's token.
    pub token: u64,
    /// The command that is answered.
    pub command: u64,
    /// What is answered.
    pub shape: ReplyShape,
    /// The token that the stream's callback captured, for a chunk of a
    /// registered stream.
    pub captured: Option<u64>,
}

impl View for PendingReply {
    type V = PendingView;

    closed spec fn view(&self) -> PendingView {
        PendingView {
            token: self.token,
            command: self.command,
            shape: self.shape,
            captured: self.captured,
        }
    }
}

/// The answer to a command.
#[derive(Debug)]
pub enum Reply {
    /// A dispatch's response.
    Bytes(Vec<u8>),
    /// A barrier ran to its end.
    Unit,
    /// The command failed.
    Failed(ActrError),
}

/// Contents of a [`Reply`].
pub enum ReplyView {
    Bytes(Seq<u8>),
    Unit,
    Failed(ActrErrorView),
}

impl View for Reply {
    type V = ReplyView;

    open spec fn view(&self) -> ReplyView {
        match *self {
            Reply::Bytes(b) => ReplyView::Bytes(b@),
            Reply::Unit => ReplyView::Unit,
            Reply::Failed(e) => ReplyView::Failed(e@),
        }
    }
}

/// A command that is answered with an error.
#[derive(Debug)]
pub struct FailedReply {
    pub command: u64,
    pub error: ActrError,
}

/// Contents of a [`FailedReply`].
pub struct FailedView {
    pub command: u64,
    pub error: ActrErrorView,
}

impl View for FailedReply {
    type V = FailedView;

    open spec fn view(&self) -> FailedView {
        FailedView { command: self.command, error: self.error@ }
    }
}

/// Contents of a list of failed replies.
pub open spec fn failures(replies: Seq<FailedReply>) -> Seq<FailedView> {
    Seq::new(replies.len(), |i: int| replies[i]@)
}

/// What a runner that gives up still has to say.
#[derive(Debug)]
pub enum LastReply {
    /// No command waits.
    Nothing,
    /// The waiting command fails.
    Failed(FailedReply),
    /// The waiting shutdown is done.
    ShutdownDone(u64),
}

/// Contents of a [`LastReply`].
pub enum LastReplyView {
    Nothing,
    Failed(FailedView),
    ShutdownDone(u64),
}

impl View for LastReply {
    type V = LastReplyView;

    open spec fn view(&self) -> LastReplyView {
        match *self {
            LastReply::Nothing => LastReplyView::Nothing,
            LastReply::Failed(f) => LastReplyView::Failed(f@),
            LastReply::ShutdownDone(id) => LastReplyView::ShutdownDone(id),
        }
    }
}

/// A guest call to start: the store gets `fuel` and `deadline_ticks`, and a
/// deadline event for the call's token falls due after `deadline`.
#[derive(Debug, PartialEq, Eq, Structural)]
pub struct GuestCall {
    pub token: u64,
    pub command: u64,
    /// Where the guest is entered.
    pub entry: EntryPoint,
    pub deadline: Interval,
    pub fuel: u64,
    pub deadline_ticks: u64,
}

/// A guest call that ran to its end: the command gets its reply.
#[derive(Debug)]
pub struct Completion {
    pub command: u64,
    pub reply: Reply,
}

/// Why a region collapses.
#[derive(Debug)]
pub enum Collapse {
    /// The caller of the call with this token went away while it ran.
    CallerCanceled(u64),
    /// An individual guest call failed in the engine.
    GuestCallFailed(TrapReport),
    /// The call with this token exceeded its deadline.
    TimedOut(u64),
    /// The whole region trapped.
    Trapped(TrapReport),
}

/// Whether a guest call leaves its store healthy.
#[derive(Debug)]
pub enum GuestCallCompletion<T, E> {
    /// The guest returned.
    Completed(T),
    /// The engine failed the call, which is fatal to the store.
    StoreFatal(E),
}

/// Force every engine error of an individual call onto the store-fatal path. The
/// error surfaces one layer inside the region, so that looking only at the
/// region's own outcome is not enough.
pub fn guest_call_completion<T, E>(result: Result<T, E>) -> (r: GuestCallCompletion<T, E>)
    ensures
        match result {
            Ok(value) => r == GuestCallCompletion::<T, E>::Completed(value),
            Err(error) => r == GuestCallCompletion::<T, E>::StoreFatal(error),
        },
{
    match result {
        Ok(value) => GuestCallCompletion::Completed(value),
        Err(error) => GuestCallCompletion::StoreFatal(error),
    }
}

/// The answer to a command whose guest call returned `result`, an error being
/// given by its debug form.
pub open spec fn reply_for(shape: ReplyShape, result: Result<Seq<u8>, Seq<char>>) -> ReplyView {
    match (shape, result) {
        (ReplyShape::Dispatch, Ok(bytes)) => ReplyView::Bytes(bytes),
        (ReplyShape::Dispatch, Err(t)) => ReplyView::Failed(
            ActrErrorView::Internal(
                "workload dispatch failed: guest dispatch returned error: "@ + t,
            ),
        ),
        (ReplyShape::Lifecycle(phase), Err(t)) => ReplyView::Failed(
            ActrErrorView::Internal("workload "@ + phase.label() + " failed: "@ + t),
        ),
        (ReplyShape::DataChunk, Err(t)) => ReplyView::Failed(
            ActrErrorView::Internal("workload "@ + "on_data_chunk"@ + " failed: "@ + t),
        ),
        (_, _) => ReplyView::Unit,
    }
}

/// The contents of a guest's result.
pub open spec fn result_view(result: Result<Vec<u8>, String>) -> Result<Seq<u8>, Seq<char>> {
    match result {
        Ok(bytes) => Ok(bytes@),
        Err(t) => Err(t@),
    }
}

fn classify_unit(label: &str, t: &str) -> (r: Reply)
    ensures
        r@ == ReplyView::Failed(ActrErrorView::Internal("workload "@ + label@ + " failed: "@ + t@)),
{
    Reply::Failed(ActrError::Internal(cat4("workload ", label, " failed: ", t)))
}

/// The answer to a command whose guest call returned `result`.
pub fn classify(shape: ReplyShape, result: Result<Vec<u8>, String>) -> (r: Reply)
    ensures
        r@ == reply_for(shape, result_view(result)),
{
    match result {
        Ok(bytes) => match shape {
            ReplyShape::Dispatch => Reply::Bytes(bytes),
            _ => Reply::Unit,
        },
        Err(t) => match shape {
            ReplyShape::Dispatch => Reply::Failed(
                ActrError::Internal(
                    cat(
                        "workload dispatch failed: guest dispatch returned error: ",
                        t.as_str(),
                    ),
                ),
            ),
            ReplyShape::Lifecycle(phase) => classify_unit(phase.panic_label(), t.as_str()),
            ReplyShape::DataChunk => classify_unit("on_data_chunk", t.as_str()),
            ReplyShape::Hook => Reply::Unit,
        },
    }
}

/// State of a [`ResidentRunner`].
pub struct ResidentView {
    /// The store is gone and must be rebuilt before the next region.
    pub poisoned: bool,
    /// How often the store was rebuilt.
    pub rebuilds: u64,
    /// Live invocations of the store, by token, with the command that each
    /// serves.
    pub table: InvocationsView<u64>,
    /// Replies that are owed for the live guest calls.
    pub ledger: Seq<PendingView>,
    /// The barrier that waits for the dispatches in flight.
    pub barrier: Option<CommandView>,
    /// Concurrency high-water mark since the store was last quiescent.
    pub peak: nat,
    /// Whether more commands may come.
    pub open: bool,
    /// The region's number.
    pub generation: u64,
}

/// Whether a reply is owed for the call with this token.
pub open spec fn owed(ledger: Seq<PendingView>, token: u64) -> bool {
    exists|i: int| 0 <= i < ledger.len() && #[trigger] ledger[i].token == token
}

/// Where the call with this token stands in the ledger.
pub open spec fn position(ledger: Seq<PendingView>, token: u64) -> int {
    choose|i: int| 0 <= i < ledger.len() && #[trigger] ledger[i].token == token
}

/// The ledger without the call with this token.
pub open spec fn without(ledger: Seq<PendingView>, token: u64) -> Seq<PendingView> {
    if owed(ledger, token) {
        ledger.remove(position(ledger, token))
    } else {
        ledger
    }
}

/// Every owed reply, failed with one error.
pub open spec fn fail_each(ledger: Seq<PendingView>, error: ActrErrorView) -> Seq<FailedView> {
    Seq::new(ledger.len(), |i: int| FailedView { command: ledger[i].command, error })
}

/// The replies that a collapse sends.
pub open spec fn collapse_replies(ledger: Seq<PendingView>, cause: Collapse) -> Seq<FailedView> {
    match cause {
        Collapse::CallerCanceled(token) => fail_each(
            without(ledger, token),
            ActrErrorView::Unavailable(
                "actor instance canceled; in-flight message may be retried"@,
            ),
        ),
        Collapse::GuestCallFailed(report) => fail_each(
            ledger,
            ActrErrorView::Unavailable(
                fault::trap_class("interleaved guest call"@, report).printed(),
            ),
        ),
        Collapse::TimedOut(token) => {
            let rest = fail_each(
                without(ledger, token),
                ActrErrorView::Unavailable("actor instance timed out; message may be retried"@),
            );
            if owed(ledger, token) {
                seq![
                    FailedView {
                        command: ledger[position(ledger, token)].command,
                        error: ActrErrorView::TimedOut,
                    },
                ] + rest
            } else {
                rest
            }
        },
        Collapse::Trapped(report) => fail_each(
            ledger,
            ActrErrorView::Unavailable(fault::trap_class("interleaved region"@, report).printed()),
        ),
    }
}

/// The counters after a collapse, apart from the invocation slots that are given
/// back.
pub open spec fn collapse_counted(cause: Collapse, before: WasmRuntimeStats) -> WasmRuntimeStats {
    match cause {
        Collapse::CallerCanceled(_) => before,
        Collapse::GuestCallFailed(report) | Collapse::Trapped(report) => fault::trap_counted(
            report,
            before,
        ),
        Collapse::TimedOut(_) => WasmRuntimeStats {
            invocation_timeouts: limits::bumped(before.invocation_timeouts),
            ..before
        },
    }
}

/// The counters after `n` invocation slots were given back.
pub open spec fn slots_returned(before: WasmRuntimeStats, n: nat) -> WasmRuntimeStats {
    before.with_in_use(
        CounterKind::Invocation,
        (before.outstanding_invocations - n) as usize,
    )
}

impl ResidentView {
    /// One reply is owed for each live invocation and for nothing else, a
    /// barrier runs alone, and nothing of a discarded store is left.
    pub open spec fn wf(self) -> bool {
        &&& self.table.wf()
        &&& self.table.live.dom().finite()
        &&& self.table.live.len() == self.ledger.len()
        &&& forall|i: int|
            0 <= i < self.ledger.len() ==> self.table.live.dom().contains(
                (#[trigger] self.ledger[i]).token,
            )
        &&& forall|i: int, j: int|
            0 <= i < j < self.ledger.len() ==> (#[trigger] self.ledger[i]).token != (
            #[trigger] self.ledger[j]).token
        &&& forall|i: int|
            0 <= i < self.ledger.len() && (#[trigger] self.ledger[i]).shape
                != ReplyShape::Dispatch ==> self.ledger.len() == 1
        &&& self.poisoned ==> self.ledger.len() == 0 && self.table == InvocationsView::<
            u64,
        >::empty()
    }

    /// Whether a barrier is running.
    pub open spec fn barrier_running(self) -> bool {
        exists|i: int|
            0 <= i < self.ledger.len() && (#[trigger] self.ledger[i]).shape
                != ReplyShape::Dispatch
    }

    /// Whether the region takes another command: none while a barrier waits or
    /// runs.
    pub open spec fn accepting(self) -> bool {
        self.open && self.barrier is None && !self.barrier_running()
    }

    /// The runner after the region got a command, or learnt that none will come.
    pub open spec fn accepted(
        self,
        command: Option<CommandView>,
        reply_closed: bool,
        admitted: bool,
    ) -> ResidentView {
        match command {
            None => ResidentView { open: false, ..self },
            Some(c) => if reply_closed && c.kind !is Shutdown {
                self
            } else if c.kind is Dispatch {
                if admitted {
                    self.begin(c.id, ReplyShape::Dispatch, None)
                } else {
                    self
                }
            } else {
                ResidentView { barrier: Some(c), ..self }
            },
        }
    }

    /// The runner after its waiting barrier was run.
    pub open spec fn barrier_taken(self, reply_closed: bool, admitted: bool) -> ResidentView {
        let command = self.barrier->Some_0;
        let taken = ResidentView { barrier: None, ..self };
        if command.kind is Shutdown || command.kind is Dispatch || reply_closed || !admitted {
            taken
        } else {
            taken.begin(command.id, barrier_shape(command.kind), barrier_stream(command.kind))
        }
    }

    /// The runner after a guest call was admitted for a command.
    pub open spec fn begin(self, command: u64, shape: ReplyShape, stream: Option<Seq<char>>) -> ResidentView {
        let token = self.table.next;
        let entered = self.table.enter(command);
        let live = self.ledger.len() + 1;
        ResidentView {
            table: match stream {
                Some(s) => entered.begin_callback(s, token),
                None => entered,
            },
            ledger: self.ledger.push(
                PendingView {
                    token,
                    command,
                    shape,
                    captured: match stream {
                        Some(s) => self.table.captured(s),
                        None => None,
                    },
                },
            ),
            peak: if live > self.peak {
                live
            } else {
                self.peak
            },
            ..self
        }
    }

    /// The runner after the guest call with this token returned.
    pub open spec fn complete(self, token: u64) -> ResidentView {
        let pending = self.ledger[position(self.ledger, token)];
        let ended = self.table.end_callback(pending.captured, token);
        ResidentView {
            table: InvocationsView { live: ended.live.remove(token), ..ended },
            ledger: without(self.ledger, token),
            peak: if self.ledger.len() == 1 {
                0
            } else {
                self.peak
            },
            ..self
        }
    }

    /// The runner after its region collapsed: the store and every live
    /// invocation are gone. A waiting barrier survives.
    pub open spec fn collapse(self) -> ResidentView {
        ResidentView {
            poisoned: true,
            table: InvocationsView::<u64>::empty(),
            ledger: Seq::empty(),
            ..self
        }
    }

    /// The last reply of a runner that gives up between two regions, when no call
    /// is live: a waiting barrier fails, and a waiting shutdown is done.
    pub open spec fn last_reply(self, error: ActrErrorView) -> LastReplyView {
        match self.barrier {
            Some(command) => if command.kind is Shutdown {
                LastReplyView::ShutdownDone(command.id)
            } else {
                LastReplyView::Failed(FailedView { command: command.id, error })
            },
            None => LastReplyView::Nothing,
        }
    }

    /// The runner after it gave up.
    pub open spec fn give_up(self) -> ResidentView {
        ResidentView { barrier: None, ..self }
    }

    /// The runner as a new region begins.
    pub open spec fn enter_region(self) -> ResidentView {
        ResidentView {
            generation: limits::bumped(self.generation),
            open: true,
            peak: 0,
            ..self
        }
    }
}

/// Decisions of a runner that keeps one instance in a resident region.
#[derive(Debug)]
pub struct ResidentRunner {
    limits: WasmRuntimeLimits,
    dispatch_timeout: Option<Interval>,
    poisoned: bool,
    rebuilds: u64,
    table: InvocationTable<u64>,
    ledger: Vec<PendingReply>,
    barrier: Option<Command>,
    budget: RegionFuelBudget,
    open: bool,
    generation: u64,
}

/// What to do before a region.
#[derive(Debug, PartialEq, Eq, Structural)]
pub enum Supervise {
    /// Instantiate a fresh store; report with [`ResidentRunner::rebuilt`].
    Rebuild,
    /// Seed the store; report with [`ResidentRunner::seeded`].
    Seed { fuel: u64, deadline_ticks: u64 },
}

/// What to do after a rebuild.
#[derive(Debug)]
pub enum AfterRebuild {
    /// Seed the store; report with [`ResidentRunner::seeded`].
    Seed { fuel: u64, deadline_ticks: u64 },
    /// The rebuild quota is busy: wait this long and start over.
    RetryLater(Interval),
    /// The runner is over, with this last reply.
    Stop(LastReply),
}

/// What to do after the store was seeded.
#[derive(Debug)]
pub enum AfterSeed {
    /// Enter the region with this number.
    Run { generation: u64 },
    /// The runner is over, with this last reply.
    Stop(LastReply),
}

/// What the region does next.
#[derive(Debug, PartialEq, Eq, Structural)]
pub enum RegionStep {
    /// Run the waiting barrier with [`ResidentRunner::run_barrier`].
    RunBarrier,
    /// All work is done and no command can come: the runner is over.
    Closed,
    /// Wait for a completion, and for a command if `accept` says so.
    Wait { accept: bool },
}

/// What becomes of a command.
#[derive(Debug)]
pub enum Accepted {
    /// No command will come any more.
    Closing,
    /// The caller is gone; the command never enters guest code.
    Skipped,
    /// No invocation slot is free; the command fails.
    Denied(FailedReply),
    /// Start this guest call.
    Started(GuestCall),
    /// The command waits until every dispatch in flight is done.
    Waiting,
}

/// What becomes of a barrier.
#[derive(Debug)]
pub enum BarrierStep {
    /// The caller is gone; the command never enters guest code.
    Skipped,
    /// The command fails without entering guest code.
    Failed(FailedReply),
    /// Start this guest call.
    Started(GuestCall),
    /// The runner is over; tell whoever asked for it under this command.
    Shutdown(u64),
}

/// How long to wait when the rebuild quota is busy, in milliseconds.
pub const REBUILD_RETRY_MILLIS: u64 = 10;

impl ResidentRunner {
    /// The runner's resource limits.
    pub closed spec fn limits(self) -> WasmRuntimeLimits {
        self.limits
    }

    /// How long a dispatch may take, where that is set.
    pub closed spec fn dispatch_timeout(self) -> Option<Interval> {
        self.dispatch_timeout
    }

    /// State between two steps.
    pub closed spec fn wf(self) -> bool {
        &&& self@.wf()
        &&& forall|i: int|
            0 <= i < self.ledger@.len() ==> (#[trigger] self.ledger@[i]).permit.kind()
                == CounterKind::Invocation && self.ledger@[i].permit.amount() == 1
    }

    /// Nothing but the state changed, and the state is sound.
    pub open spec fn follows(self, before: ResidentRunner) -> bool {
        &&& self.wf()
        &&& self@.wf()
        &&& self.limits() == before.limits()
        &&& self.dispatch_timeout() == before.dispatch_timeout()
    }

    /// The deadline of a dispatch: the configured one, within the invocation
    /// timeout.
    pub open spec fn dispatch_deadline(self) -> Interval {
        match self.dispatch_timeout() {
            Some(t) if t.nanos() <= self.limits().invocation_timeout.nanos() => t,
            _ => self.limits().invocation_timeout,
        }
    }

    /// The guest call that is started for a command, given the fuel that the
    /// store holds.
    pub open spec fn call_for(
        self,
        command: u64,
        entry: EntryPoint,
        deadline: Interval,
        current_fuel: u64,
    ) -> GuestCall {
        GuestCall {
            token: self@.table.next,
            command,
            entry,
            deadline,
            fuel: fuel::admission_fuel(
                self@.peak,
                current_fuel,
                self@.ledger.len() + 1,
                self.limits().fuel_per_invocation,
            ),
            deadline_ticks: self.epoch_ticks(),
        }
    }

    /// The epoch deadline that a store gets.
    pub open spec fn epoch_ticks(self) -> u64 {
        host::deadline_ticks(
            self.limits().epoch_tick.nanos(),
            self.limits().invocation_timeout.nanos(),
        ) as u64
    }

    /// What asking for an invocation slot leads to: the call is admitted, or the
    /// command fails.
    pub open spec fn admits(self, before: WasmRuntimeStats) -> bool {
        before.admits(CounterKind::Invocation, 1, self.limits().max_outstanding_invocations)
    }
}

/// The error of a command for which no invocation slot is free.
pub open spec fn slots_exhausted() -> ActrErrorView {
    ActrErrorView::Unavailable(
        WasmErrorView::ResourceLimitExceeded("outstanding WASM invocations"@).printed(),
    )
}

/// Contents of a ledger.
pub closed spec fn ledger_view(ledger: Seq<PendingReply>) -> Seq<PendingView> {
    Seq::new(ledger.len(), |i: int| ledger[i]@)
}

impl View for ResidentRunner {
    type V = ResidentView;

    closed spec fn view(&self) -> ResidentView {
        ResidentView {
            poisoned: self.poisoned,
            rebuilds: self.rebuilds,
            table: self.table@,
            ledger: ledger_view(self.ledger@),
            barrier: match self.barrier {
                Some(c) => Some(c@),
                None => None,
            },
            peak: self.budget.peak(),
            open: self.open,
            generation: self.generation,
        }
    }
}

impl ResidentRunner {
    /// A runner of a freshly instantiated instance.
    pub fn new(limits: WasmRuntimeLimits, dispatch_timeout: Option<Interval>) -> (r: ResidentRunner)
        ensures
            r.wf(),
            r@.wf(),
            r.limits() == limits,
            r.dispatch_timeout() == dispatch_timeout,
            r@ == (ResidentView {
                poisoned: false,
                rebuilds: 0,
                table: InvocationsView::<u64>::empty(),
                ledger: Seq::empty(),
                barrier: None,
                peak: 0,
                open: true,
                generation: 0,
            }),
    {
        let r = ResidentRunner {
            limits,
            dispatch_timeout,
            poisoned: false,
            rebuilds: 0,
            table: InvocationTable::new(),
            ledger: Vec::new(),
            barrier: None,
            budget: RegionFuelBudget::default(),
            open: true,
            generation: 0,
        };
        assert(r@.ledger =~= Seq::empty());
        r
    }

    /// How often the store was rebuilt.
    pub fn rebuild_count(&self) -> (r: u64)
        ensures
            r == self@.rebuilds,
    {
        self.rebuilds
    }

    /// What to do before the next region: a poisoned store is rebuilt first.
    pub fn supervise(&self) -> (r: Supervise)
        ensures
            r == (if self@.poisoned {
                Supervise::Rebuild
            } else {
                Supervise::Seed {
                    fuel: self.limits().fuel_per_invocation,
                    deadline_ticks: self.epoch_ticks(),
                }
            }),
    {
        if self.poisoned {
            Supervise::Rebuild
        } else {
            Supervise::Seed {
                fuel: self.limits.fuel_per_invocation,
                deadline_ticks: epoch_deadline_ticks(&self.limits),
            }
        }
    }

    fn stop(&mut self, message: &str) -> (r: LastReply)
        requires
            old(self).wf(),
        ensures
            final(self).follows(*old(self)),
            final(self)@ == old(self)@.give_up(),
            r@ == old(self)@.last_reply(ActrErrorView::Unavailable(message@)),
    {
        let mut barrier: Option<Command> = None;
        std::mem::swap(&mut barrier, &mut self.barrier);
        match barrier {
            Some(command) => match command.kind {
                CommandKind::Shutdown => LastReply::ShutdownDone(command.id),
                _ => LastReply::Failed(
                    FailedReply {
                        command: command.id,
                        error: ActrError::Unavailable(message.to_owned()),
                    },
                ),
            },
            None => LastReply::Nothing,
        }
    }

    /// A rebuild came out as `result`. A busy quota is retried; any other failure
    /// ends the runner.
    pub fn rebuilt(&mut self, result: WasmResult<()>) -> (r: AfterRebuild)
        requires
            old(self).wf(),
            old(self)@.poisoned,
            old(self)@.rebuilds < u64::MAX,
        ensures
            final(self).follows(*old(self)),
            match result {
                Ok(_) => {
                    &&& r == (AfterRebuild::Seed {
                        fuel: old(self).limits().fuel_per_invocation,
                        deadline_ticks: old(self).epoch_ticks(),
                    })
                    &&& final(self)@ == (ResidentView {
                        poisoned: false,
                        rebuilds: (old(self)@.rebuilds + 1) as u64,
                        ..old(self)@
                    })
                },
                Err(WasmError::ResourceLimitExceeded(_)) => {
                    &&& r matches AfterRebuild::RetryLater(wait) && wait.nanos() == 10_000_000
                    &&& final(self)@ == old(self)@
                },
                Err(_) => {
                    &&& r matches AfterRebuild::Stop(last) && last@ == old(self)@.last_reply(
                        ActrErrorView::Unavailable("actor instance unrecoverable after trap"@),
                    )
                    &&& final(self)@ == old(self)@.give_up()
                },
            },
    {
        match result {
            Ok(_) => {
                self.poisoned = false;
                self.rebuilds = self.rebuilds + 1;
                AfterRebuild::Seed {
                    fuel: self.limits.fuel_per_invocation,
                    deadline_ticks: epoch_deadline_ticks(&self.limits),
                }
            },
            Err(WasmError::ResourceLimitExceeded(_)) => AfterRebuild::RetryLater(
                Interval::from_millis(REBUILD_RETRY_MILLIS),
            ),
            Err(_) => AfterRebuild::Stop(self.stop("actor instance unrecoverable after trap")),
        }
    }

    /// The store was seeded, or could not be. A new region begins with no
    /// history but a waiting barrier.
    pub fn seeded(&mut self, armed: bool) -> (r: AfterSeed)
        requires
            old(self).wf(),
            !old(self)@.poisoned,
            old(self)@.ledger.len() == 0,
        ensures
            final(self).follows(*old(self)),
            if armed {
                &&& final(self)@ == old(self)@.enter_region()
                &&& r == (AfterSeed::Run { generation: final(self)@.generation })
            } else {
                &&& r matches AfterSeed::Stop(last) && last@ == old(self)@.last_reply(
                    ActrErrorView::Unavailable("actor execution budget unavailable"@),
                )
                &&& final(self)@ == old(self)@.give_up()
            },
    {
        if armed {
            self.generation = self.generation.wrapping_add(1);
            self.open = true;
            self.budget = RegionFuelBudget::default();
            AfterSeed::Run { generation: self.generation }
        } else {
            AfterSeed::Stop(self.stop("actor execution budget unavailable"))
        }
    }

    fn runs_barrier(&self) -> (r: bool)
        requires
            self.wf(),
        ensures
            r == self@.barrier_running(),
    {
        if self.ledger.len() != 1 {
            return false;
        }
        assert(self@.ledger[0] == self.ledger@[0]@);
        match self.ledger[0].shape {
            ReplyShape::Dispatch => false,
            _ => true,
        }
    }

    /// What the region does next: a waiting barrier runs once nothing is in
    /// flight, no command is taken until it ends, and a closed region ends once
    /// nothing is left to do.
    pub fn next_step(&self) -> (r: RegionStep)
        requires
            self.wf(),
        ensures
            r == (if self@.barrier is Some && self@.ledger.len() == 0 {
                RegionStep::RunBarrier
            } else if !self@.open && self@.ledger.len() == 0 {
                RegionStep::Closed
            } else {
                RegionStep::Wait { accept: self@.accepting() }
            }),
    {
        let idle: bool = self.ledger.len() == 0;
        let waiting: bool = self.barrier.is_some();
        if idle && waiting {
            RegionStep::RunBarrier
        } else if idle && !self.open {
            RegionStep::Closed
        } else {
            RegionStep::Wait { accept: self.open && !waiting && !self.runs_barrier() }
        }
    }

    /// The command that waits for the dispatches in flight to end, if any.
    pub fn waiting_barrier(&self) -> (r: Option<u64>)
        ensures
            r == (match self@.barrier {
                Some(c) => Some(c.id),
                None => None,
            }),
    {
        match &self.barrier {
            Some(c) => Some(c.id),
            None => None,
        }
    }

    /// Whether a deadline event still concerns a live call: it belongs to the
    /// current region, and the call's reply is still owed.
    pub fn deadline_is_live(&self, generation: u64, token: u64) -> (r: bool)
        ensures
            r == (generation == self@.generation && owed(self@.ledger, token)),
    {
        if generation != self.generation {
            return false;
        }
        let found: Option<usize> = self.find(token);
        found.is_some()
    }

    fn find(&self, token: u64) -> (r: Option<usize>)
        ensures
            match r {
                Some(i) => i < self@.ledger.len() && self@.ledger[i as int].token == token,
                None => !owed(self@.ledger, token),
            },
    {
        let mut i: usize = 0;
        while i < self.ledger.len()
            invariant
                i <= self.ledger@.len(),
                forall|j: int| 0 <= j < i ==> (#[trigger] self@.ledger[j]).token != token,
            decreases self.ledger@.len() - i,
        {
            assert(self@.ledger[i as int] == self.ledger@[i as int]@);
            if self.ledger[i].token == token {
                return Some(i);
            }
            i = i + 1;
        }
        None
    }
}

impl ResidentRunner {
    /// What becomes of a command that is to enter guest code: it gets an
    /// invocation slot and starts, or fails for want of one.
    pub open spec fn enters(
        self,
        after: ResidentRunner,
        command: u64,
        entry: EntryPoint,
        shape: ReplyShape,
        stream: Option<Seq<char>>,
        deadline: Interval,
        current_fuel: u64,
        before: WasmRuntimeStats,
        r: Result<GuestCall, FailedReply>,
    ) -> bool {
        if self.admits(before) {
            &&& r == Ok::<GuestCall, FailedReply>(
                self.call_for(command, entry, deadline, current_fuel),
            )
            &&& after@ == self@.begin(command, shape, stream)
        } else {
            &&& r matches Err(f) && f@ == (FailedView { command, error: slots_exhausted() })
            &&& after@ == self@
        }
    }

    fn enter_guest(
        &mut self,
        command: u64,
        entry: EntryPoint,
        shape: ReplyShape,
        stream: Option<&str>,
        deadline: Interval,
        current_fuel: u64,
        counters: &mut RuntimeCounters,
    ) -> (r: Result<GuestCall, FailedReply>)
        requires
            old(self).wf(),
            !old(self)@.poisoned,
            old(self)@.table.next < u64::MAX,
            old(self)@.ledger.len() < usize::MAX,
            shape == ReplyShape::Dispatch ==> !old(self)@.barrier_running(),
            shape != ReplyShape::Dispatch ==> old(self)@.ledger.len() == 0,
        ensures
            final(self).follows(*old(self)),
            final(counters)@ == old(counters)@.asked(
                CounterKind::Invocation,
                1,
                old(self).limits().max_outstanding_invocations,
            ),
            old(self).enters(
                *final(self),
                command,
                entry,
                shape,
                match stream {
                    Some(s) => Some(s@),
                    None => None,
                },
                deadline,
                current_fuel,
                old(counters)@,
                r,
            ),
    {
        let permit: QuotaPermit = match counters.acquire_invocation(&self.limits) {
            Ok(permit) => permit,
            Err(e) => {
                let error: ActrError = ActrError::Unavailable(e.to_text());
                return Err(FailedReply { command, error });
            },
        };
        let token: u64 = self.table.alloc_invocation(command);
        let live: usize = self.table.invocation_count();
        let captured: Option<u64> = match stream {
            Some(s) => self.table.begin_stream_callback(s, token),
            None => None,
        };
        let fuel: u64 = self.budget.admission_target(
            current_fuel,
            live,
            self.limits.fuel_per_invocation,
        );
        self.budget.record_admission(live);
        self.ledger.push(PendingReply { token, command, shape, captured, permit });
        let ticks: u64 = epoch_deadline_ticks(&self.limits);
        assert(self@.ledger =~= old(self)@.ledger.push(
            PendingView { token, command, shape, captured },
        ));
        Ok(GuestCall { token, command, entry, deadline, fuel, deadline_ticks: ticks })
    }

    /// The region got a command, or learnt that none will come any more.
    /// `reply_closed` says whether the caller has gone away already, which no
    /// shutdown has; `current_fuel` is what the store holds.
    pub fn accept(
        &mut self,
        command: Option<Command>,
        reply_closed: bool,
        current_fuel: u64,
        counters: &mut RuntimeCounters,
    ) -> (r: Accepted)
        requires
            old(self).wf(),
            old(self)@.accepting(),
            !old(self)@.poisoned,
            old(self)@.table.next < u64::MAX,
            old(self)@.ledger.len() < usize::MAX,
        ensures
            final(self).follows(*old(self)),
            final(self)@ == old(self)@.accepted(
                match command {
                    Some(c) => Some(c@),
                    None => None,
                },
                reply_closed,
                old(self).admits(old(counters)@),
            ),
            match command {
                None => {
                    &&& r is Closing
                    &&& final(self)@ == (ResidentView { open: false, ..old(self)@ })
                    &&& final(counters)@ == old(counters)@
                },
                Some(c) => if reply_closed && c@.kind !is Shutdown {
                    &&& r is Skipped
                    &&& final(self)@ == old(self)@
                    &&& final(counters)@ == old(counters)@
                } else if c@.kind is Dispatch {
                    &&& final(counters)@ == old(counters)@.asked(
                        CounterKind::Invocation,
                        1,
                        old(self).limits().max_outstanding_invocations,
                    )
                    &&& if old(self).admits(old(counters)@) {
                        &&& r == Accepted::Started(
                            old(self).call_for(
                                c@.id,
                                EntryPoint::Dispatch,
                                old(self).dispatch_deadline(),
                                current_fuel,
                            ),
                        )
                        &&& final(self)@ == old(self)@.begin(c@.id, ReplyShape::Dispatch, None)
                    } else {
                        &&& r matches Accepted::Denied(f) && f@ == (FailedView {
                            command: c@.id,
                            error: slots_exhausted(),
                        })
                        &&& final(self)@ == old(self)@
                    }
                } else {
                    &&& r is Waiting
                    &&& final(self)@ == (ResidentView { barrier: Some(c@), ..old(self)@ })
                    &&& final(counters)@ == old(counters)@
                },
            },
            r matches Accepted::Started(call) ==> {
                let whole = old(self).limits().invocation_timeout;
                &&& command matches Some(c) && c.kind is Dispatch && call.command == c.id
                &&& call.entry == EntryPoint::Dispatch
                &&& call.token == old(self)@.table.next
                &&& call.deadline.nanos() <= whole.nanos()
                &&& match old(self).dispatch_timeout() {
                    Some(t) => call.deadline.nanos() == (if t.nanos() <= whole.nanos() {
                        t.nanos()
                    } else {
                        whole.nanos()
                    }),
                    None => call.deadline == whole,
                }
            },
    {
        let command: Command = match command {
            Some(c) => c,
            None => {
                self.open = false;
                return Accepted::Closing;
            },
        };
        let abandoned: bool = reply_closed && match command.kind {
            CommandKind::Shutdown => false,
            _ => true,
        };
        if abandoned {
            return Accepted::Skipped;
        }
        match command.kind {
            CommandKind::Dispatch => {
                let deadline: Interval = match self.dispatch_timeout {
                    Some(t) => t.min(self.limits.invocation_timeout),
                    None => self.limits.invocation_timeout,
                };
                match self.enter_guest(
                    command.id,
                    EntryPoint::Dispatch,
                    ReplyShape::Dispatch,
                    None,
                    deadline,
                    current_fuel,
                    counters,
                ) {
                    Ok(call) => Accepted::Started(call),
                    Err(failed) => Accepted::Denied(failed),
                }
            },
            _ => {
                self.barrier = Some(command);
                Accepted::Waiting
            },
        }
    }

    /// Run the waiting barrier, alone.
    pub fn run_barrier(
        &mut self,
        reply_closed: bool,
        current_fuel: u64,
        counters: &mut RuntimeCounters,
    ) -> (r: BarrierStep)
        requires
            old(self).wf(),
            !old(self)@.poisoned,
            old(self)@.barrier is Some,
            old(self)@.ledger.len() == 0,
            old(self)@.table.next < u64::MAX,
        ensures
            final(self).follows(*old(self)),
            final(self)@ == old(self)@.barrier_taken(
                reply_closed,
                old(self).admits(old(counters)@),
            ),
            ({
                let command = old(self)@.barrier->Some_0;
                let taken = ResidentView { barrier: None, ..old(self)@ };
                match command.kind {
                    CommandKindView::Shutdown => {
                        &&& r == BarrierStep::Shutdown(command.id)
                        &&& final(self)@ == taken
                        &&& final(counters)@ == old(counters)@
                    },
                    CommandKindView::Dispatch => {
                        &&& r matches BarrierStep::Failed(f) && f@ == (FailedView {
                            command: command.id,
                            error: ActrErrorView::Internal(
                                "internal: dispatch reached the barrier path"@,
                            ),
                        })
                        &&& final(self)@ == taken
                        &&& final(counters)@ == old(counters)@
                    },
                    _ => if reply_closed {
                        &&& r is Skipped
                        &&& final(self)@ == taken
                        &&& final(counters)@ == old(counters)@
                    } else {
                        &&& final(counters)@ == old(counters)@.asked(
                            CounterKind::Invocation,
                            1,
                            old(self).limits().max_outstanding_invocations,
                        )
                        &&& if old(self).admits(old(counters)@) {
                            &&& r == BarrierStep::Started(
                                old(self).call_for(
                                    command.id,
                                    command.kind.entry()->Some_0,
                                    old(self).limits().invocation_timeout,
                                    current_fuel,
                                ),
                            )
                            &&& final(self)@ == taken.begin(
                                command.id,
                                barrier_shape(command.kind),
                                barrier_stream(command.kind),
                            )
                        } else {
                            &&& r matches BarrierStep::Failed(f) && f@ == (FailedView {
                                command: command.id,
                                error: slots_exhausted(),
                            })
                            &&& final(self)@ == taken
                        }
                    },
                }
            }),
            r matches BarrierStep::Started(call) ==> {
                &&& call.command == old(self)@.barrier->Some_0.id
                &&& call.token == old(self)@.table.next
                &&& call.deadline == old(self).limits().invocation_timeout
            },
    {
        let mut barrier: Option<Command> = None;
        std::mem::swap(&mut barrier, &mut self.barrier);
        let command: Command = match barrier {
            Some(command) => command,
            None => return BarrierStep::Skipped,
        };
        let deadline: Interval = self.limits.invocation_timeout;
        let entry: EntryPoint = match command.kind.entry_point() {
            Some(entry) => entry,
            None => return BarrierStep::Shutdown(command.id),
        };
        let entered: Result<GuestCall, FailedReply> = match &command.kind {
            CommandKind::Dispatch => {
                let error: ActrError = ActrError::Internal(
                    "internal: dispatch reached the barrier path".to_owned(),
                );
                return BarrierStep::Failed(FailedReply { command: command.id, error });
            },
            _ if reply_closed => return BarrierStep::Skipped,
            CommandKind::Lifecycle(phase) => self.enter_guest(
                command.id,
                entry,
                ReplyShape::Lifecycle(*phase),
                None,
                deadline,
                current_fuel,
                counters,
            ),
            CommandKind::DataChunk { stream_id } => self.enter_guest(
                command.id,
                entry,
                ReplyShape::DataChunk,
                Some(stream_id.as_str()),
                deadline,
                current_fuel,
                counters,
            ),
            _ => self.enter_guest(
                command.id,
                entry,
                ReplyShape::Hook,
                None,
                deadline,
                current_fuel,
                counters,
            ),
        };
        match entered {
            Ok(call) => BarrierStep::Started(call),
            Err(failed) => BarrierStep::Failed(failed),
        }
    }
}

/// What a barrier's guest call answers to.
pub open spec fn barrier_shape(kind: CommandKindView) -> ReplyShape {
    match kind {
        CommandKindView::Lifecycle(phase) => ReplyShape::Lifecycle(phase),
        CommandKindView::DataChunk { .. } => ReplyShape::DataChunk,
        CommandKindView::Hook(_) => ReplyShape::Hook,
        _ => ReplyShape::Dispatch,
    }
}

/// The stream whose callback a barrier runs.
pub open spec fn barrier_stream(kind: CommandKindView) -> Option<Seq<char>> {
    match kind {
        CommandKindView::DataChunk { stream_id } => Some(stream_id),
        _ => None,
    }
}

impl ResidentRunner {
    fn take(&mut self, i: usize) -> (r: PendingReply)
        requires
            i < old(self)@.ledger.len(),
        ensures
            r == old(self).ledger@[i as int],
            r@ == old(self)@.ledger[i as int],
            final(self).ledger@ == old(self).ledger@.remove(i as int),
            final(self)@ == (ResidentView {
                ledger: old(self)@.ledger.remove(i as int),
                ..old(self)@
            }),
            final(self).limits == old(self).limits,
            final(self).dispatch_timeout == old(self).dispatch_timeout,
    {
        let r = self.ledger.remove(i);
        assert(self@.ledger =~= old(self)@.ledger.remove(i as int));
        r
    }

    /// The fuel that the store is to be left with once the guest call with this
    /// token has returned, where it holds `current_fuel`. The call is settled with
    /// [`ResidentRunner::returned`] after the store was set to that; where it
    /// cannot be, the region collapses with the call still owed its reply.
    pub fn clamp_target(&self, token: u64, current_fuel: u64) -> (r: u64)
        requires
            self.wf(),
            owed(self@.ledger, token),
        ensures
            r == fuel::completion_fuel(
                current_fuel,
                (self@.ledger.len() - 1) as nat,
                self.limits().fuel_per_invocation,
            ),
    {
        clamped(current_fuel, self.ledger.len() - 1, self.limits.fuel_per_invocation)
    }

    /// The guest call with this token returned `result`, an error being given by
    /// its debug form, and the store was left with
    /// [`ResidentRunner::clamp_target`]. The call's invocation slot is given back
    /// and its command is answered.
    pub fn returned(
        &mut self,
        token: u64,
        result: Result<Vec<u8>, String>,
        counters: &mut RuntimeCounters,
    ) -> (r: Completion)
        requires
            old(self).wf(),
            !old(self)@.poisoned,
            owed(old(self)@.ledger, token),
            old(counters)@.outstanding_invocations >= 1,
        ensures
            final(self).follows(*old(self)),
            final(self)@ == old(self)@.complete(token),
            final(counters)@ == slots_returned(old(counters)@, 1),
            ({
                let pending = old(self)@.ledger[position(old(self)@.ledger, token)];
                &&& r.command == pending.command
                &&& r.reply@ == reply_for(pending.shape, result_view(result))
            }),
    {
        let ghost before = self@;
        let i: usize = match self.find(token) {
            Some(i) => i,
            None => 0,
        };
        assert(before.ledger[i as int].token == token);
        assert(position(before.ledger, token) == i);
        let pending: PendingReply = self.take(i);
        self.table.end_stream_callback(pending.captured, token);
        self.table.remove_invocation(token);
        let live: usize = self.table.invocation_count();
        self.budget.record_completion(live);
        counters.release(pending.permit);
        assert(self@.ledger == without(before.ledger, token));
        Completion { command: pending.command, reply: classify(pending.shape, result) }
    }

    fn drain_and_fail(
        &mut self,
        error: &ActrError,
        replies: &mut Vec<FailedReply>,
        counters: &mut RuntimeCounters,
    )
        requires
            old(counters)@.outstanding_invocations >= old(self)@.ledger.len(),
            forall|i: int|
                0 <= i < old(self).ledger@.len() ==> (#[trigger] old(
                    self,
                ).ledger@[i]).permit.kind() == CounterKind::Invocation && old(
                    self,
                ).ledger@[i].permit.amount() == 1,
        ensures
            final(self)@ == (ResidentView { ledger: Seq::empty(), ..old(self)@ }),
            final(self).ledger@.len() == 0,
            final(self).limits == old(self).limits,
            final(self).dispatch_timeout == old(self).dispatch_timeout,
            failures(final(replies)@) == failures(old(replies)@) + fail_each(
                old(self)@.ledger,
                error@,
            ),
            final(counters)@ == slots_returned(old(counters)@, old(self)@.ledger.len()),
    {
        let ghost all = self@.ledger;
        let ghost permits = self.ledger@;
        let ghost mut done: int = 0;
        assert(all.subrange(0, all.len() as int) =~= all);
        assert(failures(replies@) =~= failures(old(replies)@) + fail_each(
            all.subrange(0, 0),
            error@,
        ));
        while self.ledger.len() > 0
            invariant
                0 <= done <= all.len(),
                all == old(self)@.ledger,
                permits == old(self).ledger@,
                permits.len() == all.len(),
                self.ledger@ == permits.subrange(done, permits.len() as int),
                self@ == (ResidentView {
                    ledger: all.subrange(done, all.len() as int),
                    ..old(self)@
                }),
                self.limits == old(self).limits,
                self.dispatch_timeout == old(self).dispatch_timeout,
                failures(replies@) == failures(old(replies)@) + fail_each(
                    all.subrange(0, done),
                    error@,
                ),
                old(counters)@.outstanding_invocations >= all.len(),
                counters@ == slots_returned(old(counters)@, done as nat),
                forall|i: int|
                    0 <= i < permits.len() ==> (#[trigger] permits[i]).permit.kind()
                        == CounterKind::Invocation && permits[i].permit.amount() == 1,
            decreases self.ledger@.len(),
        {
            let ghost told = failures(replies@);
            let pending: PendingReply = self.take(0);
            counters.release(pending.permit);
            replies.push(FailedReply { command: pending.command, error: error.duplicate() });
            proof {
                assert(pending == permits[done]);
                assert(pending@ == all[done]);
                let one = FailedView { command: all[done].command, error: error@ };
                assert(failures(replies@) =~= told.push(one));
                assert(fail_each(all.subrange(0, done + 1), error@) =~= fail_each(
                    all.subrange(0, done),
                    error@,
                ).push(one));
                assert(told.push(one) =~= failures(old(replies)@) + fail_each(
                    all.subrange(0, done),
                    error@,
                ).push(one));
                assert(self.ledger@ =~= permits.subrange(done + 1, permits.len() as int));
                assert(self@.ledger =~= all.subrange(done + 1, all.len() as int));
                done = done + 1;
            }
        }
        proof {
            assert(all.subrange(0, done) =~= all);
            assert(self@.ledger =~= Seq::empty());
        }
    }

    /// The region collapses: its store is discarded before any caller is
    /// answered, every owed reply fails, and every invocation slot is given back.
    /// The command whose caller went away gets no reply; the one that exceeded
    /// its deadline is told so; all others may be retried.
    pub fn collapse(&mut self, cause: Collapse, counters: &mut RuntimeCounters) -> (r: Vec<
        FailedReply,
    >)
        requires
            old(self).wf(),
            old(counters)@.outstanding_invocations >= old(self)@.ledger.len(),
        ensures
            final(self).follows(*old(self)),
            final(self)@ == old(self)@.collapse(),
            failures(r@) == collapse_replies(old(self)@.ledger, cause),
            final(counters)@ == collapse_counted(
                cause,
                slots_returned(old(counters)@, old(self)@.ledger.len()),
            ),
    {
        let ghost before = self@;
        self.poisoned = true;
        self.table.clear_invocations();
        let mut replies: Vec<FailedReply> = Vec::new();
        let error: ActrError;
        match cause {
            Collapse::CallerCanceled(token) => {
                match self.find(token) {
                    Some(i) => {
                        proof {
                            assert(before.ledger[i as int].token == token);
                            assert(position(before.ledger, token) == i);
                        }
                        let canceled: PendingReply = self.take(i);
                        counters.release(canceled.permit);
                    },
                    None => {},
                }
                error =
                ActrError::Unavailable(
                    "actor instance canceled; in-flight message may be retried".to_owned(),
                );
            },
            Collapse::GuestCallFailed(report) => {
                let classified: WasmError = classify_trap(
                    "interleaved guest call",
                    &report,
                    counters,
                );
                error = ActrError::Unavailable(classified.to_text());
            },
            Collapse::TimedOut(token) => {
                match self.find(token) {
                    Some(i) => {
                        proof {
                            assert(before.ledger[i as int].token == token);
                            assert(position(before.ledger, token) == i);
                        }
                        let late: PendingReply = self.take(i);
                        counters.release(late.permit);
                        replies.push(
                            FailedReply { command: late.command, error: ActrError::TimedOut },
                        );
                    },
                    None => {},
                }
                counters.record_timeout();
                error =
                ActrError::Unavailable(
                    "actor instance timed out; message may be retried".to_owned(),
                );
            },
            Collapse::Trapped(report) => {
                let classified: WasmError = classify_trap("interleaved region", &report, counters);
                error = ActrError::Unavailable(classified.to_text());
            },
        }
        self.drain_and_fail(&error, &mut replies, counters);
        assert(failures(replies@) =~= collapse_replies(before.ledger, cause));
        replies
    }
}

// ── laws ─────────────────────────────────────────────────────────────────────

/// Beginning a call keeps the state sound, where the call is a dispatch beside
/// dispatches or runs alone.
pub proof fn begin_keeps_wf(
    v: ResidentView,
    command: u64,
    shape: ReplyShape,
    stream: Option<Seq<char>>,
)
    requires
        v.wf(),
        !v.poisoned,
        v.table.next < u64::MAX,
        shape == ReplyShape::Dispatch ==> !v.barrier_running(),
        shape != ReplyShape::Dispatch ==> v.ledger.len() == 0,
    ensures
        v.begin(command, shape, stream).wf(),
{
}

/// A call that begins and returns leaves every other live call as it was.
pub proof fn completion_undoes_begin(
    v: ResidentView,
    command: u64,
    shape: ReplyShape,
    stream: Option<Seq<char>>,
)
    requires
        v.wf(),
        !v.poisoned,
        v.table.next < u64::MAX,
        shape == ReplyShape::Dispatch ==> !v.barrier_running(),
        shape != ReplyShape::Dispatch ==> v.ledger.len() == 0,
    ensures
        v.begin(command, shape, stream).complete(v.table.next).ledger == v.ledger,
        v.begin(command, shape, stream).complete(v.table.next).table.live == v.table.live,
{
    let token = v.table.next;
    let w = v.begin(command, shape, stream);
    let i = v.ledger.len() as int;
    assert(w.ledger[i].token == token);
    assert forall|j: int| 0 <= j < w.ledger.len() && (#[trigger] w.ledger[j]).token == token implies j
        == i by {
        if j < i {
            assert(w.ledger[j] == v.ledger[j]);
            assert(v.table.live.dom().contains(v.ledger[j].token));
        }
    }
    assert(position(w.ledger, token) == i);
    assert(w.ledger.remove(i) =~= v.ledger);
    assert(!v.table.live.dom().contains(token));
    assert(w.complete(token).table.live =~= v.table.live);
}

/// Whatever makes a region collapse, every caller is answered: each owed reply
/// fails, but for that of a caller who went away.
pub proof fn collapse_leaves_no_caller_waiting(ledger: Seq<PendingView>, cause: Collapse, i: int)
    requires
        0 <= i < ledger.len(),
        forall|j: int, k: int|
            0 <= j < k < ledger.len() ==> (#[trigger] ledger[j]).token != (
            #[trigger] ledger[k]).token,
        cause matches Collapse::CallerCanceled(token) ==> ledger[i].token != token,
    ensures
        exists|j: int|
            0 <= j < collapse_replies(ledger, cause).len() && (#[trigger] collapse_replies(
                ledger,
                cause,
            )[j]).command == ledger[i].command,
{
    let replies = collapse_replies(ledger, cause);
    match cause {
        Collapse::CallerCanceled(token) => {
            if owed(ledger, token) {
                let at = position(ledger, token);
                let j = if i < at {
                    i
                } else {
                    i - 1
                };
                assert(replies[j].command == ledger[i].command);
            } else {
                assert(replies[i].command == ledger[i].command);
            }
        },
        Collapse::TimedOut(token) => {
            if owed(ledger, token) {
                let at = position(ledger, token);
                let j = if i == at {
                    0
                } else if i < at {
                    i + 1
                } else {
                    i
                };
                assert(replies[j].command == ledger[i].command);
            } else {
                assert(replies[i].command == ledger[i].command);
            }
        },
        _ => {
            assert(replies[i].command == ledger[i].command);
        },
    }
}

/// No caller is answered twice by a collapse: as many replies are sent as were
/// owed, less one for a caller who went away.
pub proof fn collapse_answers_once(ledger: Seq<PendingView>, cause: Collapse)
    ensures
        collapse_replies(ledger, cause).len() == (match cause {
            Collapse::CallerCanceled(token) if owed(ledger, token) => ledger.len() - 1,
            _ => ledger.len() as int,
        }),
{
    match cause {
        Collapse::CallerCanceled(token) | Collapse::TimedOut(token) => {
            if owed(ledger, token) {
                let at = position(ledger, token);
                assert(0 <= at < ledger.len());
            }
        },
        _ => {},
    }
}

/// A timeout blames exactly the call that exceeded its deadline; every sibling
/// may be retried.
pub proof fn timeout_blames_one_call(ledger: Seq<PendingView>, token: u64, i: int)
    requires
        owed(ledger, token),
        0 <= i < collapse_replies(ledger, Collapse::TimedOut(token)).len(),
    ensures
        ({
            let reply = collapse_replies(ledger, Collapse::TimedOut(token))[i];
            if i == 0 {
                &&& reply.error == ActrErrorView::TimedOut
                &&& reply.command == ledger[position(ledger, token)].command
            } else {
                reply.error is Unavailable
            }
        }),
{
}

/// Every reply of a collapse tells its caller that the message may be retried.
pub proof fn collapse_replies_are_retryable(ledger: Seq<PendingView>, cause: Collapse, i: int)
    requires
        0 <= i < collapse_replies(ledger, cause).len(),
    ensures
        collapse_replies(ledger, cause)[i].error.kind() == crate::protocol::ErrorKind::Transient,
{
}

/// A collapse leaves nothing of the old store behind but a waiting barrier, and
/// the state stays sound.
pub proof fn collapse_starts_clean(v: ResidentView)
    ensures
        v.collapse().wf(),
        v.collapse().barrier == v.barrier,
        v.collapse().table.live.len() == 0,
{
}

/// A deadline of an earlier region concerns no call of a later one. (After
/// `2^64` regions the numbers start over, which the law leaves out.)
pub proof fn stale_deadlines_concern_nobody(v: ResidentView, generation: u64)
    requires
        v.generation < u64::MAX,
        generation <= v.generation,
    ensures
        generation != v.enter_region().generation,
{
}

/// While a barrier runs, no dispatch is in flight.
pub proof fn barrier_runs_alone(v: ResidentView)
    requires
        v.wf(),
        v.barrier_running(),
    ensures
        v.ledger.len() == 1,
{
}

/// What happens in a region, short of its end. `admitted` says whether an
/// invocation slot was free.
pub enum RegionEvent {
    /// A command came, or no more will come.
    Command { command: Option<CommandView>, reply_closed: bool, admitted: bool },
    /// The waiting barrier was run.
    Barrier { reply_closed: bool, admitted: bool },
    /// The guest call with this token returned.
    Returned { token: u64 },
}

impl ResidentView {
    /// Whether an event can happen now.
    pub open spec fn can(self, event: RegionEvent) -> bool {
        &&& !self.poisoned
        &&& self.table.next < u64::MAX
        &&& match event {
            RegionEvent::Command { .. } => self.accepting(),
            RegionEvent::Barrier { .. } => self.barrier is Some && self.ledger.len() == 0,
            RegionEvent::Returned { token } => owed(self.ledger, token),
        }
    }

    /// The runner after an event.
    pub open spec fn after(self, event: RegionEvent) -> ResidentView {
        match event {
            RegionEvent::Command { command, reply_closed, admitted } => self.accepted(
                command,
                reply_closed,
                admitted,
            ),
            RegionEvent::Barrier { reply_closed, admitted } => self.barrier_taken(
                reply_closed,
                admitted,
            ),
            RegionEvent::Returned { token } => self.complete(token),
        }
    }

    /// The token under which an event enters guest code, if it does.
    pub open spec fn entry(self, event: RegionEvent) -> Option<u64> {
        if self.after(event).table.next == self.table.next {
            None
        } else {
            Some(self.table.next)
        }
    }
}

/// Whether events can happen one after the other, from a state on.
pub open spec fn region_run(v: ResidentView, events: Seq<RegionEvent>) -> bool
    decreases events.len(),
{
    events.len() == 0 || (v.can(events[0]) && region_run(v.after(events[0]), events.skip(1)))
}

/// The state that events lead to.
pub open spec fn region_end(v: ResidentView, events: Seq<RegionEvent>) -> ResidentView
    decreases events.len(),
{
    if events.len() == 0 {
        v
    } else {
        region_end(v.after(events[0]), events.skip(1))
    }
}

/// The guest calls that events start.
pub open spec fn entered(v: ResidentView, events: Seq<RegionEvent>) -> Set<u64>
    decreases events.len(),
{
    if events.len() == 0 {
        Set::empty()
    } else {
        let rest = entered(v.after(events[0]), events.skip(1));
        match v.entry(events[0]) {
            Some(token) => rest.insert(token),
            None => rest,
        }
    }
}

/// The guest calls whose replies events send.
pub open spec fn answered(events: Seq<RegionEvent>) -> Set<u64>
    decreases events.len(),
{
    if events.len() == 0 {
        Set::empty()
    } else {
        match events[0] {
            RegionEvent::Returned { token } => answered(events.skip(1)).insert(token),
            _ => answered(events.skip(1)),
        }
    }
}

/// What an event does to the reply that is owed for one call.
proof fn lemma_event_at(v: ResidentView, event: RegionEvent, t: u64)
    requires
        v.wf(),
        v.can(event),
    ensures
        owed(v.after(event).ledger, t) == (match v.entry(event) {
            Some(token) => owed(v.ledger, t) || t == token,
            None => match event {
                RegionEvent::Returned { token } => owed(v.ledger, t) && t != token,
                _ => owed(v.ledger, t),
            },
        }),
{
    let w = v.after(event);
    match event {
        RegionEvent::Returned { token } => {
            let i = position(v.ledger, token);
            assert(0 <= i < v.ledger.len() && v.ledger[i].token == token);
            assert(w.ledger == v.ledger.remove(i));
            assert(v.entry(event) is None);
            if owed(w.ledger, t) {
                let j = position(w.ledger, t);
                let k = if j < i {
                    j
                } else {
                    j + 1
                };
                assert(w.ledger[j] == v.ledger[k]);
                assert(v.ledger[k].token == t);
            }
            if owed(v.ledger, t) && t != token {
                let j = position(v.ledger, t);
                let k = if j < i {
                    j
                } else {
                    j - 1
                };
                assert(w.ledger[k] == v.ledger[j]);
                assert(w.ledger[k].token == t);
            }
        },
        _ => {
            if v.entry(event) is Some {
                let token = v.table.next;
                let n = v.ledger.len() as int;
                assert(w.ledger.len() == n + 1);
                assert(w.ledger[n].token == token);
                if owed(v.ledger, t) {
                    let j = position(v.ledger, t);
                    assert(w.ledger[j] == v.ledger[j]);
                }
                if owed(w.ledger, t) && t != token {
                    let j = position(w.ledger, t);
                    assert(j < n);
                    assert(w.ledger[j] == v.ledger[j]);
                    assert(v.ledger[j].token == t);
                }
            }
        },
    }
}

proof fn lemma_event(v: ResidentView, event: RegionEvent)
    requires
        v.wf(),
        v.can(event),
    ensures
        v.after(event).wf(),
        v.table.next <= v.after(event).table.next,
        match v.entry(event) {
            Some(token) => forall|t: u64|
                owed(v.after(event).ledger, t) <==> owed(v.ledger, t) || t == token,
            None => match event {
                RegionEvent::Returned { token } => forall|t: u64|
                    owed(v.after(event).ledger, t) <==> owed(v.ledger, t) && t != token,
                _ => v.after(event).ledger == v.ledger,
            },
        },
{
    match event {
        RegionEvent::Returned { token } => {
            let i = position(v.ledger, token);
            let rest = v.ledger.remove(i);
            assert(0 <= i < v.ledger.len() && v.ledger[i].token == token);
            assert forall|t: u64| owed(rest, t) <==> owed(v.ledger, t) && t != token by {
                if owed(rest, t) {
                    let j = position(rest, t);
                    assert(rest[j] == v.ledger[if j < i {
                        j
                    } else {
                        j + 1
                    }]);
                }
                if owed(v.ledger, t) && t != token {
                    let j = position(v.ledger, t);
                    assert(rest[if j < i {
                        j
                    } else {
                        j - 1
                    }] == v.ledger[j]);
                }
            }
        },
        _ => {
            let w = v.after(event);
            if v.entry(event) is Some {
                let token = v.table.next;
                assert forall|t: u64| owed(w.ledger, t) <==> owed(v.ledger, t) || t == token by {
                    if owed(v.ledger, t) {
                        let j = position(v.ledger, t);
                        assert(w.ledger[j] == v.ledger[j]);
                    }
                    assert(w.ledger[v.ledger.len() as int].token == token);
                }
            }
        },
    }
}

proof fn lemma_region_step(v: ResidentView, events: Seq<RegionEvent>, t: u64)
    requires
        v.wf(),
        events.len() > 0,
        v.can(events[0]),
        ({
            let w = v.after(events[0]);
            let rest = events.skip(1);
            owed(w.ledger, t) || entered(w, rest).contains(t) <==> answered(rest).contains(t)
                || owed(region_end(w, rest).ledger, t)
        }),
    ensures
        owed(v.ledger, t) || entered(v, events).contains(t) <==> answered(events).contains(t)
            || owed(region_end(v, events).ledger, t),
{
    let w = v.after(events[0]);
    let rest = events.skip(1);
    lemma_event_at(v, events[0], t);
    match events[0] {
        RegionEvent::Returned { token } => {
            assert(v.entry(events[0]) is None);
            assert(answered(events) == answered(rest).insert(token));
            assert(entered(v, events) == entered(w, rest));
            assert(owed(v.ledger, token));
        },
        _ => {
            assert(answered(events) == answered(rest));
            match v.entry(events[0]) {
                Some(token) => {
                    assert(entered(v, events) == entered(w, rest).insert(token));
                },
                None => {
                    assert(entered(v, events) == entered(w, rest));
                },
            }
        },
    }
}

/// Whatever commands come, a region loses no caller: the guest calls that were
/// live or that entered are those that were answered and those that are still
/// owed a reply. The state stays sound, and only the end of the commands closes
/// the region.
pub proof fn region_owes_what_entered(v: ResidentView, events: Seq<RegionEvent>)
    requires
        v.wf(),
        region_run(v, events),
    ensures
        region_end(v, events).wf(),
        forall|t: u64|
            #![trigger entered(v, events).contains(t)]
            #![trigger answered(events).contains(t)]
            owed(v.ledger, t) || entered(v, events).contains(t) <==> answered(events).contains(t)
                || owed(region_end(v, events).ledger, t),
        v.open && !region_end(v, events).open ==> exists|i: int|
            0 <= i < events.len() && (#[trigger] events[i] matches RegionEvent::Command {
                command: None,
                ..
            }),
    decreases events.len(),
{
    if events.len() > 0 {
        let w = v.after(events[0]);
        let rest = events.skip(1);
        lemma_event(v, events[0]);
        region_owes_what_entered(w, rest);
        assert forall|t: u64|
            owed(v.ledger, t) || entered(v, events).contains(t) <==> answered(events).contains(t)
                || owed(region_end(v, events).ledger, t) by {
            assert(owed(w.ledger, t) || entered(w, rest).contains(t) <==> answered(rest).contains(t)
                || owed(region_end(w, rest).ledger, t));
            lemma_region_step(v, events, t);
        }
        if v.open && !region_end(v, events).open {
            if w.open {
                let i = choose|i: int|
                    0 <= i < rest.len() && (#[trigger] rest[i] matches RegionEvent::Command {
                        command: None,
                        ..
                    });
                assert(events[i + 1] == rest[i]);
            } else {
                assert(events[0] is Command);
            }
        }
    }
}

/// A region that began with no live call ends closed only after the commands
/// ended and every command that entered guest code got its reply.
pub proof fn region_closes_only_when_everyone_is_answered(
    v: ResidentView,
    events: Seq<RegionEvent>,
)
    requires
        v.wf(),
        v.open,
        v.ledger.len() == 0,
        region_run(v, events),
        !region_end(v, events).open,
        region_end(v, events).ledger.len() == 0,
    ensures
        entered(v, events) =~= answered(events),
        exists|i: int|
            0 <= i < events.len() && (#[trigger] events[i] matches RegionEvent::Command {
                command: None,
                ..
            }),
{
    region_owes_what_entered(v, events);
    assert forall|t: u64| entered(v, events).contains(t) <==> answered(events).contains(t) by {
        assert(!owed(v.ledger, t));
        assert(!owed(region_end(v, events).ledger, t));
    }
}

/// In a region a barrier starts only when nothing is in flight, and until it ends
/// nothing else happens than its return: no command is taken and no other barrier
/// runs.
pub proof fn region_runs_barriers_alone(v: ResidentView, event: RegionEvent)
    requires
        v.wf(),
        v.can(event),
    ensures
        v.after(event).barrier_running() && !v.barrier_running() ==> v.ledger.len() == 0
            && event is Barrier,
        v.barrier_running() ==> event is Returned && v.after(event).ledger.len() == 0,
        event is Command ==> v.barrier is None && !v.barrier_running(),
{
    lemma_event(v, event);
    if event is Returned && v.after(event).barrier_running() {
        let rest = v.after(event).ledger;
        let j = choose|j: int| 0 <= j < rest.len() && (#[trigger] rest[j]).shape
            != ReplyShape::Dispatch;
        let i = position(v.ledger, event->token);
        assert(rest[j] == v.ledger[if j < i {
            j
        } else {
            j + 1
        }]);
    }
    if event is Command && v.after(event).barrier_running() {
        let next = v.after(event).ledger;
        let j = choose|j: int| 0 <= j < next.len() && (#[trigger] next[j]).shape
            != ReplyShape::Dispatch;
        if j < v.ledger.len() {
            assert(next[j] == v.ledger[j]);
        }
    }
}

/// A command whose caller is gone when it is taken never enters guest code, and
/// no call is live on its account.
pub proof fn region_never_enters_for_absent_callers(v: ResidentView, event: RegionEvent)
    requires
        v.wf(),
        v.can(event),
        match event {
            RegionEvent::Command { reply_closed, .. } => reply_closed,
            RegionEvent::Barrier { reply_closed, .. } => reply_closed,
            RegionEvent::Returned { .. } => false,
        },
    ensures
        v.entry(event) is None,
        v.after(event).ledger == v.ledger,
        v.after(event).table == v.table,
{
}

/// A dispatch may take as long as it was configured to, and never longer than any
/// invocation may: its deadline is the shorter of the two, or the latter where none
/// was configured.
pub proof fn dispatch_deadlines_honour_both_bounds(r: ResidentRunner)
    ensures
        r.dispatch_deadline().nanos() <= r.limits().invocation_timeout.nanos(),
        match r.dispatch_timeout() {
            Some(t) => {
                &&& r.dispatch_deadline().nanos() <= t.nanos()
                &&& r.dispatch_deadline() == t || r.dispatch_deadline()
                    == r.limits().invocation_timeout
            },
            None => r.dispatch_deadline() == r.limits().invocation_timeout,
        },
{
}

/// A store is never preempted before the invocation timeout has passed: its epoch
/// deadline is longer than that, by one tick at most, unless the ticks cannot be
/// counted.
pub proof fn epoch_deadlines_cover_the_timeout(r: ResidentRunner)
    requires
        r.limits().epoch_tick.nanos() > 0,
    ensures
        ({
            let tick = r.limits().epoch_tick.nanos();
            let timeout = r.limits().invocation_timeout.nanos();
            &&& r.epoch_ticks() * tick > timeout || r.epoch_ticks() == u64::MAX
            &&& r.epoch_ticks() * tick <= timeout + tick
        }),
{
    host::deadline_ticks_are_tight(
        r.limits().epoch_tick.nanos(),
        r.limits().invocation_timeout.nanos(),
    );
}

/// A command that enters guest code is known by the token it is given: its reply is
/// owed under that token, the host finds it under that token, and nothing else in
/// the region changes.
pub proof fn entering_owes_one_reply(
    v: ResidentView,
    command: u64,
    shape: ReplyShape,
    stream: Option<Seq<char>>,
)
    requires
        v.wf(),
        !v.poisoned,
        v.table.next < u64::MAX,
        shape == ReplyShape::Dispatch ==> !v.barrier_running(),
        shape != ReplyShape::Dispatch ==> v.ledger.len() == 0,
    ensures
        ({
            let token = v.table.next;
            let w = v.begin(command, shape, stream);
            &&& !owed(v.ledger, token)
            &&& v.ledger.is_prefix_of(w.ledger)
            &&& w.ledger.len() == v.ledger.len() + 1
            &&& w.ledger.last().token == token
            &&& w.ledger.last().command == command
            &&& w.ledger.last().shape == shape
            &&& w.table.live == v.table.live.insert(token, command)
            &&& w.table.next == token + 1
            &&& w.table.streams == v.table.streams
            &&& stream is None ==> w.table.aliases == v.table.aliases && w.ledger.last().captured is None
            &&& w.peak >= w.ledger.len()
            &&& w.peak >= v.peak
            &&& w.peak == v.peak || w.peak == w.ledger.len()
            &&& w.poisoned == v.poisoned
            &&& w.rebuilds == v.rebuilds
            &&& w.barrier == v.barrier
            &&& w.open == v.open
            &&& w.generation == v.generation
        }),
{
    let token = v.table.next;
    assert(!owed(v.ledger, token)) by {
        if owed(v.ledger, token) {
            let j = position(v.ledger, token);
            assert(v.table.live.dom().contains(v.ledger[j].token));
        }
    }
}

/// While the chunk of a registered stream runs, the token that the stream's callback
/// captured reaches that chunk's own call.
pub proof fn chunks_are_reached_by_their_stream(
    v: ResidentView,
    command: u64,
    stream: Seq<char>,
)
    requires
        v.wf(),
        !v.poisoned,
        v.table.next < u64::MAX,
        v.ledger.len() == 0,
        v.table.streams.dom().contains(stream),
        !v.table.aliases.dom().contains(v.table.streams[stream]),
        !v.table.aliases.dom().contains(v.table.next),
    ensures
        v.begin(command, ReplyShape::DataChunk, Some(stream)).table.reaches(
            v.table.streams[stream],
        ) == Some(command),
        v.begin(command, ReplyShape::DataChunk, Some(stream)).ledger.last().captured == Some(
            v.table.streams[stream],
        ),
        v.begin(command, ReplyShape::DataChunk, Some(stream)).complete(v.table.next).table.aliases
            == v.table.aliases,
{
    let w = v.begin(command, ReplyShape::DataChunk, Some(stream));
    assert(w.ledger[0].token == v.table.next);
    assert(position(w.ledger, v.table.next) == 0);
    assert(w.complete(v.table.next).table.aliases =~= v.table.aliases);
}

/// A call that returns settles its own reply and no other: every other reply is still
/// owed as it was, and the high-water mark is forgotten exactly when nothing is left.
pub proof fn returning_settles_one_reply(v: ResidentView, token: u64, i: int)
    requires
        v.wf(),
        owed(v.ledger, token),
        0 <= i < v.ledger.len(),
    ensures
        ({
            let w = v.complete(token);
            &&& !owed(w.ledger, token)
            &&& w.ledger.len() == v.ledger.len() - 1
            &&& v.ledger[i].token != token ==> w.ledger.contains(v.ledger[i])
            &&& w.table.live == v.table.live.remove(token)
            &&& w.table.next == v.table.next
            &&& w.table.streams == v.table.streams
            &&& w.peak == (if w.ledger.len() == 0 {
                0
            } else {
                v.peak
            })
            &&& w.poisoned == v.poisoned
            &&& w.rebuilds == v.rebuilds
            &&& w.barrier == v.barrier
            &&& w.open == v.open
            &&& w.generation == v.generation
        }),
{
    let at = position(v.ledger, token);
    let rest = v.complete(token).ledger;
    assert(0 <= at < v.ledger.len() && v.ledger[at].token == token);
    if owed(rest, token) {
        let j = position(rest, token);
        assert(rest[j] == v.ledger[if j < at {
            j
        } else {
            j + 1
        }]);
    }
    if v.ledger[i].token != token {
        assert(rest[if i < at {
            i
        } else {
            i - 1
        }] == v.ledger[i]);
    }
}

/// What a guest returns is what its caller gets: bytes for a dispatch and nothing
/// else, a failure exactly for a guest's own error, with the guest's text at its end;
/// and an observation hook cannot fail by itself.
pub proof fn replies_tell_what_the_guest_returned(
    shape: ReplyShape,
    result: Result<Seq<u8>, Seq<char>>,
)
    ensures
        reply_for(shape, result) is Failed <==> result is Err && shape != ReplyShape::Hook,
        reply_for(shape, result) is Bytes <==> result is Ok && shape == ReplyShape::Dispatch,
        reply_for(shape, result) matches ReplyView::Bytes(b) ==> result == Ok::<
            Seq<u8>,
            Seq<char>,
        >(b),
        reply_for(shape, result) matches ReplyView::Failed(e) ==> {
            &&& e.kind() == crate::protocol::ErrorKind::Internal
            &&& e matches ActrErrorView::Internal(m) && result matches Err(t) && t.is_suffix_of(m)
        },
{
    if let ReplyView::Failed(ActrErrorView::Internal(m)) = reply_for(shape, result) {
        let t = result->Err_0;
        assert(m.subrange(m.len() - t.len(), m.len() as int) =~= t);
    }
}

/// Every command but a shutdown has its own way into the guest: a lifecycle phase and
/// a hook enter where they are named after, and no two kinds share an entry.
pub proof fn commands_enter_where_they_are_named(kind: CommandKindView)
    ensures
        kind.entry() is None <==> kind is Shutdown,
        kind.entry() == Some(EntryPoint::Dispatch) <==> kind is Dispatch,
        kind.entry() == Some(EntryPoint::DataChunk) <==> kind is DataChunk,
        kind matches CommandKindView::Lifecycle(phase) ==> kind.entry()->Some_0.label()
            == phase.label(),
        kind matches CommandKindView::Hook(hook) ==> kind.entry() == Some(EntryPoint::Hook(hook)),
{
}

/// A barrier answers to what it is: the shape of its reply names its phase, only a
/// stream chunk runs a stream's callback, that of its own stream, and none is taken
/// for a dispatch.
pub proof fn barriers_answer_to_their_kind(
    kind: CommandKindView,
    phase: LifecyclePhase,
    stream: Seq<char>,
)
    requires
        kind.entry() is Some,
        kind !is Dispatch,
    ensures
        barrier_shape(kind) != ReplyShape::Dispatch,
        barrier_shape(kind) == ReplyShape::Lifecycle(phase) <==> kind == CommandKindView::Lifecycle(
            phase,
        ),
        barrier_shape(kind) == ReplyShape::DataChunk <==> kind is DataChunk,
        barrier_shape(kind) == ReplyShape::Hook <==> kind is Hook,
        barrier_stream(kind) == Some(stream) <==> kind == (CommandKindView::DataChunk {
            stream_id: stream,
        }),
{
}

/// A command that waits as a barrier is run as it came, once nothing is in flight;
/// until then it stays where it is, whatever returns.
pub proof fn barriers_are_run_as_they_came(
    v: ResidentView,
    command: CommandView,
    token: u64,
    admitted: bool,
)
    requires
        v.wf(),
        v.barrier == Some(command),
        !v.poisoned,
        v.table.next < u64::MAX,
    ensures
        owed(v.ledger, token) ==> v.complete(token).barrier == Some(command),
        v.collapse().barrier == Some(command),
        v.enter_region().barrier == Some(command),
        v.ledger.len() == 0 ==> v.barrier_taken(false, admitted).barrier is None,
        v.ledger.len() == 0 && command.kind !is Dispatch && command.kind !is Shutdown && admitted
            ==> {
            let w = v.barrier_taken(false, admitted);
            &&& w.ledger.len() == 1
            &&& w.ledger[0].command == command.id
            &&& w.ledger[0].token == v.table.next
            &&& w.barrier_running()
        },
        !admitted ==> v.barrier_taken(false, admitted).ledger == v.ledger,
{
    if v.ledger.len() == 0 && command.kind !is Dispatch && command.kind !is Shutdown && admitted {
        let w = v.barrier_taken(false, admitted);
        assert(w.ledger[0].shape != ReplyShape::Dispatch);
    }
}

/// A runner that gives up answers the command that waits, and no other; a waiting
/// shutdown succeeds, anything else fails with the given error, and nothing waits
/// afterwards.
pub proof fn giving_up_answers_who_waits(v: ResidentView, error: ActrErrorView)
    ensures
        v.last_reply(error) is Nothing <==> v.barrier is None,
        v.last_reply(error) matches LastReplyView::ShutdownDone(id) ==> v.barrier == Some(
            CommandView { id, kind: CommandKindView::Shutdown },
        ),
        v.last_reply(error) matches LastReplyView::Failed(f) ==> {
            &&& f.error == error
            &&& v.barrier matches Some(c) && c.id == f.command && c.kind !is Shutdown
        },
        v.give_up().barrier is None,
        v.give_up().ledger == v.ledger,
        v.give_up().table == v.table,
        v.give_up().poisoned == v.poisoned,
        v.give_up().rebuilds == v.rebuilds,
{
}

/// A new region starts open, with a number of its own and no high-water mark, on the
/// store and the waiting command that it found.
pub proof fn regions_start_open(v: ResidentView)
    ensures
        v.enter_region().open,
        v.enter_region().peak == 0,
        v.enter_region().table == v.table,
        v.enter_region().ledger == v.ledger,
        v.enter_region().poisoned == v.poisoned,
        v.enter_region().rebuilds == v.rebuilds,
        v.generation < u64::MAX ==> v.enter_region().generation == v.generation + 1,
{
}

/// A collapse discards the store but forgets nothing else: the region's number, the
/// number of rebuilds and whether commands may come stay.
pub proof fn collapse_keeps_the_region(v: ResidentView)
    ensures
        v.collapse().poisoned,
        v.collapse().ledger.len() == 0,
        v.collapse().table.streams.dom() == Set::<Seq<char>>::empty(),
        v.collapse().table.aliases.dom() == Set::<u64>::empty(),
        v.collapse().rebuilds == v.rebuilds,
        v.collapse().generation == v.generation,
        v.collapse().open == v.open,
{
}

/// A collapse gives back every invocation slot of its calls and counts its cause
/// once: a timeout as a timeout, a trap as a trap, a canceled caller not at all.
pub proof fn collapses_are_counted_by_cause(
    cause: Collapse,
    before: WasmRuntimeStats,
    calls: nat,
)
    requires
        calls <= before.outstanding_invocations,
    ensures
        ({
            let after = collapse_counted(cause, slots_returned(before, calls));
            &&& after.outstanding_invocations == before.outstanding_invocations - calls
            &&& after.active_stores == before.active_stores
            &&& after.compile_failures == before.compile_failures
            &&& cause is CallerCanceled ==> after.invocation_timeouts == before.invocation_timeouts
                && after.epoch_traps == before.epoch_traps && after.out_of_fuel_traps
                == before.out_of_fuel_traps && after.resource_denials == before.resource_denials
            &&& cause is TimedOut ==> after.epoch_traps == before.epoch_traps
                && after.out_of_fuel_traps == before.out_of_fuel_traps && after.resource_denials
                == before.resource_denials
            &&& cause is TimedOut && before.invocation_timeouts < u64::MAX
                ==> after.invocation_timeouts == before.invocation_timeouts + 1
            &&& (cause is Trapped || cause is GuestCallFailed) ==> after.invocation_timeouts
                == before.invocation_timeouts
            &&& cause matches Collapse::Trapped(report) ==> after == fault::trap_counted(
                report,
                slots_returned(before, calls),
            )
            &&& cause matches Collapse::GuestCallFailed(report) ==> after == fault::trap_counted(
                report,
                slots_returned(before, calls),
            )
        }),
{
}

/// A command for which no invocation slot is free may be tried again.
pub proof fn slot_refusals_are_retryable()
    ensures
        slots_exhausted().kind() == crate::protocol::ErrorKind::Transient,
{
}

/// A region takes another command exactly while it is open and no barrier waits or
/// runs; a region that takes none and has nothing in flight runs its barrier or ends.
pub proof fn regions_take_commands_between_barriers(v: ResidentView)
    requires
        v.wf(),
    ensures
        v.accepting() ==> v.open && v.barrier is None,
        v.accepting() ==> forall|i: int|
            0 <= i < v.ledger.len() ==> (#[trigger] v.ledger[i]).shape == ReplyShape::Dispatch,
        v.open && v.barrier is None && v.ledger.len() == 0 ==> v.accepting(),
        v.open && v.barrier is None && v.ledger.len() > 0 && v.ledger[0].shape
            == ReplyShape::Dispatch ==> v.accepting(),
{
}

/// A collapse blames nobody but a call that exceeded its deadline: every other caller is told
/// that the instance was unavailable, and after a trap everyone is told what it was.
pub proof fn collapses_blame_only_the_late(ledger: Seq<PendingView>, cause: Collapse, i: int)
    requires
        0 <= i < collapse_replies(ledger, cause).len(),
    ensures
        cause !is TimedOut ==> collapse_replies(ledger, cause)[i].error is Unavailable,
        cause matches Collapse::TimedOut(token) ==> (collapse_replies(ledger, cause)[i].error
            == ActrErrorView::TimedOut <==> i == 0 && owed(ledger, token)),
        cause matches Collapse::Trapped(report) ==> collapse_replies(ledger, cause)[i].error
            == ActrErrorView::Unavailable(
            fault::trap_class("interleaved region"@, report).printed(),
        ) && collapse_replies(ledger, cause)[i].command == ledger[i].command,
        cause matches Collapse::GuestCallFailed(report) ==> collapse_replies(ledger, cause)[i].error
            == ActrErrorView::Unavailable(
            fault::trap_class("interleaved guest call"@, report).printed(),
        ) && collapse_replies(ledger, cause)[i].command == ledger[i].command,
{
    if let Collapse::TimedOut(token) = cause {
        if owed(ledger, token) {
            let at = position(ledger, token);
            assert(0 <= at < ledger.len());
        }
    }
}

/// The reply of a caller who went away is not sent to anybody.
pub proof fn absent_callers_get_no_reply(ledger: Seq<PendingView>, token: u64, i: int, j: int)
    requires
        0 <= i < ledger.len(),
        ledger[i].token == token,
        forall|k: int| 0 <= k < ledger.len() && k != i ==> (#[trigger] ledger[k]).token != token,
        forall|k: int|
            0 <= k < ledger.len() && k != i ==> (#[trigger] ledger[k]).command != ledger[i].command,
        0 <= j < collapse_replies(ledger, Collapse::CallerCanceled(token)).len(),
    ensures
        collapse_replies(ledger, Collapse::CallerCanceled(token))[j].command != ledger[i].command,
{
    assert(owed(ledger, token));
    let at = position(ledger, token);
    assert(0 <= at < ledger.len() && ledger[at].token == token);
    assert(at == i);
    let k = if j < i {
        j
    } else {
        j + 1
    };
    assert(ledger.remove(i)[j] == ledger[k]);
    assert(ledger[k].command != ledger[i].command);
}

/// A call gets the fuel of one more live invocation: never more than one slice for each that
/// is then live, exactly one slice in a quiescent region, and one slice more than before
/// where the store held its full share and the call reaches a new high-water mark.
pub proof fn calls_are_fuelled_by_who_is_live(
    r: ResidentRunner,
    command: u64,
    entry: EntryPoint,
    deadline: Interval,
    current_fuel: u64,
)
    ensures
        ({
            let slice = r.limits().fuel_per_invocation;
            let live = r@.ledger.len() + 1;
            let call = r.call_for(command, entry, deadline, current_fuel);
            &&& call.fuel <= slice * live
            &&& live == 1 && r@.peak == 0 ==> call.fuel == slice
            &&& r@.peak == r@.ledger.len() && current_fuel == slice * r@.peak && slice * live
                <= u64::MAX ==> call.fuel == slice * live
            &&& live <= r@.peak ==> call.fuel <= current_fuel
            &&& call.command == command
            &&& call.entry == entry
            &&& call.deadline == deadline
            &&& call.token == r@.table.next
        }),
{
    let slice = r.limits().fuel_per_invocation;
    let live = r@.ledger.len() + 1;
    fuel::admissions_earn_by_the_slice(r@.peak, current_fuel, live, slice);
    assert(slice * 1 == slice) by (nonlinear_arith);
    if r@.peak == r@.ledger.len() && current_fuel == slice * r@.peak && slice * live <= u64::MAX {
        fuel::new_peaks_earn_slices(r@.peak, live, slice);
    }
    if live <= r@.peak {
        fuel::churn_earns_no_fuel(r@.peak, current_fuel, live, slice);
    }
}

/// No step changes what the runner was configured with.
pub proof fn steps_keep_the_configuration(before: ResidentRunner, after: ResidentRunner)
    requires
        after.follows(before),
    ensures
        after.limits() == before.limits(),
        after.dispatch_timeout() == before.dispatch_timeout(),
        after.dispatch_deadline() == before.dispatch_deadline(),
        after.epoch_ticks() == before.epoch_ticks(),
        after@.wf(),
{
}

} // verus!
