//! One serial entry into a guest of the concurrent world.
//!
//! Such a guest carries a token by which host imports find the invocation that
//! they serve. [`InvocationRun`] takes an [`EntryRun`] through its steps and keeps
//! the instance's [`InvocationTable`] in step with it: the invocation is
//! registered once fuel is seeded, and retired once the guest call is over. The
//! table of a poisoned store is lost with the store.
use crate::wasm::fault::{WasmErrorView, WasmResult};
use crate::wasm::host;
use crate::wasm::host::{
    EntryAction, EntryPhase, EntryPoint, EntryRun, GuestOutcome, InstanceView, SerialInstance,
    WasmWorkloadKind,
};
use crate::wasm::invocations::{InvocationTable, InvocationsView};
use crate::wasm::limits::{CounterKind, RuntimeCounters, WasmRuntimeLimits};
use vstd::prelude::*;

verus! {

/// What the caller is to do next for an entry.
#[derive(Debug)]
pub enum InvocationAction<T> {
    /// Drop the store and instantiate a fresh one; report with
    /// [`InvocationRun::rebuilt`].
    Rebuild,
    /// Seed the store with this much fuel and this epoch deadline; report with
    /// [`InvocationRun::fuel_set`].
    SetFuel { fuel: u64, deadline_ticks: u64 },
    /// Call the guest with this token under the invocation timeout; report with
    /// [`InvocationRun::finished`].
    CallGuest { token: u64 },
    /// The entry is over.
    Done(WasmResult<T>),
}

impl<T> InvocationAction<T> {
    /// The same action without a token.
    pub open spec fn plain(self) -> EntryAction<T> {
        match self {
            InvocationAction::Rebuild => EntryAction::Rebuild,
            InvocationAction::SetFuel { fuel, deadline_ticks } => EntryAction::SetFuel {
                fuel,
                deadline_ticks,
            },
            InvocationAction::CallGuest { .. } => EntryAction::CallGuest,
            InvocationAction::Done(r) => EntryAction::Done(r),
        }
    }
}

fn with_token<T>(action: EntryAction<T>, token: u64) -> (r: InvocationAction<T>)
    ensures
        r.plain() == action,
        r matches InvocationAction::CallGuest { token: t } ==> t == token,
{
    match action {
        EntryAction::Rebuild => InvocationAction::Rebuild,
        EntryAction::SetFuel { fuel, deadline_ticks } => InvocationAction::SetFuel {
            fuel,
            deadline_ticks,
        },
        EntryAction::CallGuest => InvocationAction::CallGuest { token },
        EntryAction::Done(r) => InvocationAction::Done(r),
    }
}

/// The table after an invocation entered the guest, as a chunk of `stream` if it
/// is one.
pub open spec fn registered<C>(
    table: InvocationsView<C>,
    context: C,
    stream: Option<Seq<char>>,
) -> InvocationsView<C> {
    match stream {
        Some(s) => table.enter(context).begin_callback(s, table.next),
        None => table.enter(context),
    }
}

/// The token that the callback of an invocation's stream captured, if it has one.
pub open spec fn captured_by<C>(table: InvocationsView<C>, stream: Option<Seq<char>>) -> Option<
    u64,
> {
    match stream {
        Some(s) => table.captured(s),
        None => None,
    }
}

/// The table after a guest call came out as `outcome`.
pub open spec fn retired<C, T>(
    table: InvocationsView<C>,
    token: u64,
    captured: Option<u64>,
    outcome: GuestOutcome<T>,
) -> InvocationsView<C> {
    match outcome {
        GuestOutcome::TimedOut | GuestOutcome::Trapped(_) => InvocationsView::<C>::empty(),
        _ => table.leave(token, captured),
    }
}

/// One guest entry from its start to its result, with the invocation that it
/// registers.
#[derive(Debug)]
pub struct InvocationRun<C> {
    run: EntryRun,
    context: Option<C>,
    stream: Option<String>,
    token: u64,
    captured: Option<u64>,
}

impl<C> InvocationRun<C> {
    /// The entry.
    pub closed spec fn run(self) -> EntryRun {
        self.run
    }

    /// What the invocation is registered with, until it is.
    pub closed spec fn context(self) -> Option<C> {
        self.context
    }

    /// The stream whose chunk is handed in, if it is one.
    pub closed spec fn stream(self) -> Option<Seq<char>> {
        match self.stream {
            Some(s) => Some(s@),
            None => None,
        }
    }

    /// The token that the guest was called with.
    pub closed spec fn token(self) -> u64 {
        self.token
    }

    /// The token that the stream's callback captured.
    pub closed spec fn captured(self) -> Option<u64> {
        self.captured
    }

    /// The context is there until the guest is called.
    pub closed spec fn wf(self) -> bool {
        &&& self.run.wf()
        &&& self.run.world() == WasmWorkloadKind::V2Concurrent
        &&& self.run.phase() is Idle || self.run.phase() is Rebuilding || self.run.phase()
            is Seeding ==> self.context is Some
    }

    /// What identifies the entry stays.
    pub open spec fn follows(self, before: InvocationRun<C>) -> bool {
        &&& self.wf()
        &&& self.run().wf()
        &&& self.run().world() == WasmWorkloadKind::V2Concurrent
        &&& self.run().entry() == before.run().entry()
        &&& self.run().decode_error() == before.run().decode_error()
        &&& self.stream() == before.stream()
    }

    /// An entry that has not started: a chunk names its stream, nothing else does.
    pub fn new(
        entry: EntryPoint,
        decode_error: Option<String>,
        context: C,
        stream: Option<String>,
    ) -> (r: InvocationRun<C>)
        ensures
            r.wf(),
            r.run().wf(),
            r.run().world() == WasmWorkloadKind::V2Concurrent,
            r.run().phase() == EntryPhase::Idle,
            r.run().entry() == entry,
            match decode_error {
                Some(t) => r.run().decode_error() == Some(t@),
                None => r.run().decode_error() is None,
            },
            r.context() == Some(context),
            match stream {
                Some(s) => r.stream() == Some(s@),
                None => r.stream() is None,
            },
    {
        InvocationRun {
            run: EntryRun::new(WasmWorkloadKind::V2Concurrent, entry, decode_error),
            context: Some(context),
            stream,
            token: 0,
            captured: None,
        }
    }

    /// Begin: a poisoned instance is rebuilt first.
    pub fn start<T>(
        &mut self,
        instance: &mut SerialInstance,
        limits: &WasmRuntimeLimits,
        counters: &mut RuntimeCounters,
    ) -> (r: InvocationAction<T>)
        requires
            old(self).wf(),
            old(self).run().phase() == EntryPhase::Idle,
            old(instance)@.wf(),
        ensures
            final(self).follows(*old(self)),
            final(self).context() == old(self).context(),
            final(instance)@ == old(instance)@,
            r !is CallGuest,
            if old(instance)@.poisoned {
                &&& r is Rebuild
                &&& final(self).run().phase() == EntryPhase::Rebuilding
                &&& final(counters)@ == old(counters)@
            } else {
                old(self).run().proceeds(
                    final(self).run(),
                    *limits,
                    old(counters)@,
                    r.plain(),
                    final(counters)@,
                )
            },
    {
        let action: EntryAction<T> = self.run.start(instance, limits, counters);
        with_token(action, 0)
    }

    /// The rebuild that was asked for came out as `result`. A fresh store has an
    /// empty table; on failure the instance stays poisoned.
    pub fn rebuilt<T>(
        &mut self,
        instance: &mut SerialInstance,
        table: &mut InvocationTable<C>,
        result: WasmResult<()>,
        limits: &WasmRuntimeLimits,
        counters: &mut RuntimeCounters,
    ) -> (r: InvocationAction<T>)
        requires
            old(self).wf(),
            old(self).run().phase() == EntryPhase::Rebuilding,
            old(instance)@.wf(),
            old(instance)@.rebuilds < u64::MAX,
        ensures
            final(self).follows(*old(self)),
            final(self).context() == old(self).context(),
            final(instance)@.wf(),
            r !is CallGuest,
            match result {
                Ok(_) => {
                    &&& final(instance)@ == old(instance)@.rebuilt()
                    &&& final(table)@ == InvocationsView::<C>::empty()
                    &&& old(self).run().proceeds(
                        final(self).run(),
                        *limits,
                        old(counters)@,
                        r.plain(),
                        final(counters)@,
                    )
                },
                Err(error) => {
                    &&& final(instance)@ == old(instance)@
                    &&& final(table)@ == old(table)@
                    &&& r matches InvocationAction::Done(Err(e)) && e@ == host::rebuild_error(
                        WasmWorkloadKind::V2Concurrent,
                        error@,
                    )
                    &&& final(self).run().phase() == EntryPhase::Over
                    &&& final(counters)@ == old(counters)@
                },
            },
    {
        if result.is_ok() {
            table.clear_invocations();
        }
        let action: EntryAction<T> = self.run.rebuilt(instance, result, limits, counters);
        with_token(action, 0)
    }

    /// Seeding fuel came out as `result`: the invocation is registered and the
    /// guest is called with its token, or the entry fails and registers nothing.
    pub fn fuel_set<T>(
        &mut self,
        instance: &mut SerialInstance,
        table: &mut InvocationTable<C>,
        result: Result<(), String>,
        counters: &mut RuntimeCounters,
    ) -> (r: InvocationAction<T>)
        requires
            old(self).wf(),
            old(self).run().phase() == EntryPhase::Seeding,
            old(instance)@.wf(),
            !old(instance)@.poisoned,
            old(counters)@.outstanding_invocations >= 1,
        ensures
            final(self).follows(*old(self)),
            final(instance)@.wf(),
            match result {
                Ok(_) => {
                    &&& r matches InvocationAction::CallGuest { token } && token == old(table)@.next
                    &&& final(self).token() == old(table)@.next
                    &&& final(self).captured() == captured_by(old(table)@, old(self).stream())
                    &&& final(table)@ == registered(
                        old(table)@,
                        old(self).context()->Some_0,
                        old(self).stream(),
                    )
                    &&& final(self).run().phase() == EntryPhase::Calling
                    &&& final(instance)@ == (InstanceView {
                        context_installed: true,
                        ..old(instance)@
                    })
                    &&& final(counters)@ == old(counters)@
                },
                Err(t) => {
                    &&& r matches InvocationAction::Done(Err(e)) && e@
                        == WasmErrorView::ExecutionFailed("set fuel: "@ + t@)
                    &&& final(table)@ == old(table)@
                    &&& final(self).run().phase() == EntryPhase::Over
                    &&& final(instance)@ == old(instance)@
                    &&& final(counters)@ == old(counters)@.with_in_use(
                        CounterKind::Invocation,
                        (old(counters)@.outstanding_invocations - 1) as usize,
                    )
                },
            },
    {
        if result.is_ok() {
            let mut context: Option<C> = None;
            std::mem::swap(&mut context, &mut self.context);
            match context {
                Some(context) => {
                    let stream: Option<&str> = match &self.stream {
                        Some(s) => Some(s.as_str()),
                        None => None,
                    };
                    let (token, captured): (u64, Option<u64>) = table.enter_guest(context, stream);
                    self.token = token;
                    self.captured = captured;
                },
                None => {},
            }
        }
        let action: EntryAction<T> = self.run.fuel_set(instance, result, counters);
        with_token(action, self.token)
    }

    /// The guest call came out as `outcome`: the entry is over, its invocation
    /// slot is given back, and its invocation is retired. A timeout or a trap
    /// poisons the instance, with which every invocation is gone.
    pub fn finished<T>(
        &mut self,
        instance: &mut SerialInstance,
        table: &mut InvocationTable<C>,
        outcome: GuestOutcome<T>,
        limits: &WasmRuntimeLimits,
        counters: &mut RuntimeCounters,
    ) -> (r: WasmResult<T>)
        requires
            old(self).wf(),
            old(self).run().phase() == EntryPhase::Calling,
            old(instance)@.wf(),
            !old(instance)@.poisoned,
            old(counters)@.outstanding_invocations >= 1,
        ensures
            final(self).follows(*old(self)),
            final(self).run().phase() == EntryPhase::Over,
            host::entry_result(old(self).run().entry(), outcome, *limits, r),
            final(instance)@ == host::outcome_instance(outcome, old(instance)@),
            final(instance)@.wf(),
            final(table)@ == retired(
                old(table)@,
                old(self).token(),
                old(self).captured(),
                outcome,
            ),
            final(counters)@ == host::outcome_counted(
                outcome,
                old(counters)@.with_in_use(
                    CounterKind::Invocation,
                    (old(counters)@.outstanding_invocations - 1) as usize,
                ),
            ),
    {
        let r: WasmResult<T> = self.run.finished(instance, outcome, limits, counters);
        table.leave_guest(self.token, self.captured, instance.is_poisoned());
        r
    }
}

// ── laws ─────────────────────────────────────────────────────────────────────

/// While the guest runs, its token reaches its own invocation, and so does the
/// token that the callback of its stream captured.
pub proof fn guest_tokens_reach_their_invocation<C>(
    table: InvocationsView<C>,
    context: C,
    stream: Option<Seq<char>>,
)
    requires
        table.wf(),
        table.next < u64::MAX,
        table.aliases == Map::<u64, u64>::empty(),
        forall|s: Seq<char>| #[trigger]
            table.streams.dom().contains(s) ==> table.streams[s] < table.next,
    ensures
        registered(table, context, stream).reaches(table.next) == Some(context),
        captured_by(table, stream) matches Some(captured) ==> registered(
            table,
            context,
            stream,
        ).reaches(captured) == Some(context),
{
}

/// A serial entry leaves no invocation behind: after a call that did not poison
/// the store the table is as before but for the token that was used up, and after
/// one that did it is empty.
pub proof fn serial_entries_leave_no_invocation<C, T>(
    table: InvocationsView<C>,
    context: C,
    stream: Option<Seq<char>>,
    outcome: GuestOutcome<T>,
)
    requires
        table.wf(),
        table.next < u64::MAX,
        table.aliases == Map::<u64, u64>::empty(),
    ensures
        retired(
            registered(table, context, stream),
            table.next,
            captured_by(table, stream),
            outcome,
        ) == (match outcome {
            GuestOutcome::TimedOut | GuestOutcome::Trapped(_) => InvocationsView::<C>::empty(),
            _ => InvocationsView { next: (table.next + 1) as u64, ..table },
        }),
{
    crate::wasm::invocations::leaving_undoes_entering(table, context, stream);
}

/// No step changes where the guest is entered, what could not be decoded, or whose stream is
/// served.
pub proof fn steps_keep_the_entry<C>(before: InvocationRun<C>, after: InvocationRun<C>)
    requires
        after.follows(before),
    ensures
        after.run().entry() == before.run().entry(),
        after.run().decode_error() == before.run().decode_error(),
        after.stream() == before.stream(),
        after.run().world() == WasmWorkloadKind::V2Concurrent,
{
}

/// A token is carried to the guest with the call and with nothing else; every other action is
/// passed on as it is.
pub proof fn actions_are_passed_on<T>(action: InvocationAction<T>)
    ensures
        action is Rebuild <==> action.plain() is Rebuild,
        action is CallGuest <==> action.plain() is CallGuest,
        action matches InvocationAction::SetFuel { fuel, deadline_ticks } ==> action.plain() == (
        EntryAction::<T>::SetFuel { fuel, deadline_ticks }),
        action matches InvocationAction::Done(r) ==> action.plain() == EntryAction::Done(r),
{
}

} // verus!
