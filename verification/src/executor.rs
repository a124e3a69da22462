//! Per-actor command runner.
//!
//! Commands travel one bounded first-in-first-out queue to a single runner that
//! owns the workload. A serial runner runs strictly one command at a time, to
//! completion. An interleaved runner lets dispatches run side by side; every
//! other command is a barrier that waits for the dispatches in flight and then
//! runs alone.
//!
//! [`Runner`] takes the decisions. Its driver starts what it is told to start,
//! sends the replies, and reports completions, panics, deadlines and callers
//! that went away.
use crate::lifecycle::LifecyclePhase;
use crate::protocol::{ActrError, ActrErrorView};
use crate::text::cat3;
use vstd::prelude::*;
use vstd::string::*;

verus! {

/// Bounded command-queue depth. It bounds queue memory only; a full queue makes
/// the sender wait.
pub const RUNNER_QUEUE_CAPACITY: usize = 64;

/// How a runner executes its commands.
#[derive(Debug, Clone, Copy, PartialEq, Eq, Structural)]
pub enum RunnerMode {
    /// Strictly one command at a time.
    Serial,
    /// Dispatches side by side, everything else alone.
    Interleaved,
}

/// What a command asks for.
#[derive(Debug, Clone, Copy, PartialEq, Eq, Structural)]
pub enum WorkKind {
    /// Handle an inbound request.
    Dispatch,
    /// Handle a stream chunk.
    DataStream,
    /// Run an observation hook.
    Hook,
    /// Run a lifecycle hook.
    Lifecycle(LifecyclePhase),
    /// Stop the runner; commands queued behind this one get no reply.
    Shutdown,
}

impl WorkKind {
    /// The command's name in the text of a panic.
    pub open spec fn label(self) -> Seq<char> {
        match self {
            WorkKind::Dispatch => "dispatch"@,
            WorkKind::DataStream => "data_stream"@,
            WorkKind::Hook => "hook"@,
            WorkKind::Lifecycle(phase) => phase.label(),
            WorkKind::Shutdown => "shutdown"@,
        }
    }

    /// The command's name in the text of a panic.
    pub fn label_str(self) -> (r: &'static str)
        ensures
            r@ == self.label(),
    {
        match self {
            WorkKind::Dispatch => "dispatch",
            WorkKind::DataStream => "data_stream",
            WorkKind::Hook => "hook",
            WorkKind::Lifecycle(phase) => phase.panic_label(),
            WorkKind::Shutdown => "shutdown",
        }
    }
}

/// A command, under the number that its reply goes by.
#[derive(Debug, Clone, Copy, PartialEq, Eq, Structural)]
pub struct Work {
    pub id: u64,
    pub kind: WorkKind,
}

/// The error of a command whose runner is gone.
pub open spec fn terminated_error() -> ActrErrorView {
    ActrErrorView::Unavailable("actor runner terminated"@)
}

/// The error of a command whose runner is gone.
pub fn runner_terminated() -> (r: ActrError)
    ensures
        r@ == terminated_error(),
{
    ActrError::Unavailable("actor runner terminated".to_owned())
}

/// What a caller sees of its reply: a runner that went away without replying is
/// reported as such.
pub fn received<T>(reply: Option<Result<T, ActrError>>) -> (r: Result<T, ActrError>)
    ensures
        match reply {
            Some(result) => r == result,
            None => r matches Err(e) && e@ == terminated_error(),
        },
{
    match reply {
        Some(result) => result,
        None => Err(runner_terminated()),
    }
}

/// The error of a command that panicked.
pub open spec fn panic_error(kind: WorkKind, info: Seq<char>) -> ActrErrorView {
    ActrErrorView::Internal(kind.label() + " panicked: "@ + info)
}

/// The result of a command body under panic isolation: a panic becomes an
/// internal error, anything else passes through.
pub fn guarded<T>(kind: WorkKind, outcome: Result<Result<T, ActrError>, String>) -> (r: Result<
    T,
    ActrError,
>)
    ensures
        match outcome {
            Ok(result) => r == result,
            Err(info) => r matches Err(e) && e@ == panic_error(kind, info@),
        },
{
    match outcome {
        Ok(result) => result,
        Err(info) => Err(
            ActrError::Internal(cat3(kind.label_str(), " panicked: ", info.as_str())),
        ),
    }
}

/// A command that waits in the queue.
#[derive(Debug, Clone, Copy, PartialEq, Eq, Structural)]
pub struct Queued {
    pub work: Work,
    /// The caller went away while the command waited.
    pub abandoned: bool,
}

/// State of a [`Runner`].
pub struct RunnerView {
    pub mode: RunnerMode,
    /// Commands that wait, in the order of their arrival.
    pub queue: Seq<Queued>,
    /// Commands that run, in the order in which they started.
    pub running: Seq<Work>,
    /// No command can come any more.
    pub closed: bool,
    /// The runner is over.
    pub terminated: bool,
}

/// What a runner does next.
#[derive(Debug, Clone, Copy, PartialEq, Eq, Structural)]
pub enum NextWork {
    /// Start this command.
    Start(Work),
    /// Nothing can start until something completes or arrives.
    Wait,
    /// The runner is over; tell whoever asked for it under this command.
    ShutDown(u64),
    /// The runner is over: no command is left and none can come.
    Finished,
}

/// What became of a command that was handed to a runner.
#[derive(Debug, Clone, Copy, PartialEq, Eq, Structural)]
pub enum Submitted {
    /// The command waits for its turn.
    Accepted,
    /// The queue is full; the sender waits.
    Full,
    /// The runner is over; the command fails with [`runner_terminated`].
    Terminated,
}

/// Whether a command with this number is in a list.
pub open spec fn listed(works: Seq<Work>, id: u64) -> bool {
    exists|i: int| 0 <= i < works.len() && (#[trigger] works[i]).id == id
}

/// The first place of a command in a list, or its length.
pub open spec fn place(works: Seq<Work>, id: u64) -> nat
    decreases works.len(),
{
    if works.len() == 0 || works[0].id == id {
        0
    } else {
        1 + place(works.skip(1), id)
    }
}

/// The list without the first command with this number.
pub open spec fn without(works: Seq<Work>, id: u64) -> Seq<Work> {
    if listed(works, id) {
        works.remove(place(works, id) as int)
    } else {
        works
    }
}

/// The numbers of a list of commands.
pub open spec fn ids(works: Seq<Work>) -> Seq<u64> {
    Seq::new(works.len(), |i: int| works[i].id)
}

/// The numbers of the commands in a queue.
pub open spec fn queued_ids(queue: Seq<Queued>) -> Seq<u64> {
    Seq::new(queue.len(), |i: int| queue[i].work.id)
}

/// A queue in which the caller of a command went away. A shutdown is carried out
/// whether or not anybody waits for it.
pub open spec fn abandon(queue: Seq<Queued>, id: u64) -> Seq<Queued> {
    Seq::new(
        queue.len(),
        |i: int|
            if queue[i].work.id == id && queue[i].work.kind != WorkKind::Shutdown {
                Queued { abandoned: true, ..queue[i] }
            } else {
                queue[i]
            },
    )
}

impl RunnerView {
    /// A serial runner runs one command at most, a barrier runs alone, no
    /// shutdown ever runs or is abandoned, and a runner that is over holds
    /// nothing.
    pub open spec fn wf(self) -> bool {
        &&& self.mode == RunnerMode::Serial ==> self.running.len() <= 1
        &&& forall|i: int|
            0 <= i < self.running.len() && (#[trigger] self.running[i]).kind != WorkKind::Dispatch
                ==> self.running.len() == 1
        &&& forall|i: int|
            0 <= i < self.running.len() ==> (#[trigger] self.running[i]).kind
                != WorkKind::Shutdown
        &&& forall|i: int|
            0 <= i < self.queue.len() && (#[trigger] self.queue[i]).work.kind
                == WorkKind::Shutdown ==> !self.queue[i].abandoned
        &&& self.queue.len() <= RUNNER_QUEUE_CAPACITY
        &&& self.terminated ==> self.running.len() == 0 && self.queue.len() == 0
    }

    /// Whether a command may start beside what runs.
    pub open spec fn may_start(self, work: Work) -> bool {
        ||| self.running.len() == 0
        ||| self.mode == RunnerMode::Interleaved && work.kind == WorkKind::Dispatch
            && self.running[0].kind == WorkKind::Dispatch
    }

    /// The runner after its front command was taken off the queue.
    pub open spec fn dequeue(self) -> RunnerView {
        RunnerView { queue: self.queue.skip(1), ..self }
    }

    /// The runner after it ended: nothing runs and nothing waits.
    pub open spec fn terminate(self) -> RunnerView {
        RunnerView {
            queue: Seq::empty(),
            running: Seq::empty(),
            terminated: true,
            ..self
        }
    }

    /// The commands that run or wait.
    pub open spec fn pending(self) -> Seq<u64> {
        ids(self.running) + queued_ids(self.queue)
    }

    /// What the runner does next: commands whose callers went away are passed
    /// over, and the first other one starts if it may.
    pub open spec fn next(self) -> (RunnerView, NextWork)
        decreases self.queue.len(),
    {
        if self.queue.len() == 0 {
            if self.closed && self.running.len() == 0 && !self.terminated {
                (self.terminate(), NextWork::Finished)
            } else {
                (self, NextWork::Wait)
            }
        } else {
            let front = self.queue[0].work;
            if self.queue[0].abandoned {
                self.dequeue().next()
            } else if !self.may_start(front) {
                (self, NextWork::Wait)
            } else if front.kind == WorkKind::Shutdown {
                (self.terminate(), NextWork::ShutDown(front.id))
            } else {
                (
                    RunnerView { running: self.running.push(front), ..self.dequeue() },
                    NextWork::Start(front),
                )
            }
        }
    }

    /// The commands that lose their replies as the runner takes its next step:
    /// those queued behind a shutdown.
    pub open spec fn next_drops(self) -> Seq<u64>
        decreases self.queue.len(),
    {
        if self.queue.len() == 0 {
            Seq::empty()
        } else if self.queue[0].abandoned {
            self.dequeue().next_drops()
        } else if self.queue[0].work.kind == WorkKind::Shutdown && self.may_start(
            self.queue[0].work,
        ) {
            queued_ids(self.queue.skip(1))
        } else {
            Seq::empty()
        }
    }

    /// Whether a command's end makes the runner unusable: an interleaved runner
    /// shares its state with siblings and fails closed on a panic; a serial one
    /// survives.
    pub open spec fn fatal(self, panicked: bool) -> bool {
        panicked && self.mode == RunnerMode::Interleaved
    }
}

/// Decisions of a command runner.
#[derive(Debug)]
pub struct Runner {
    mode: RunnerMode,
    queue: Vec<Queued>,
    running: Vec<Work>,
    closed: bool,
    terminated: bool,
}

impl View for Runner {
    type V = RunnerView;

    closed spec fn view(&self) -> RunnerView {
        RunnerView {
            mode: self.mode,
            queue: self.queue@,
            running: self.running@,
            closed: self.closed,
            terminated: self.terminated,
        }
    }
}

proof fn place_finds(works: Seq<Work>, id: u64)
    ensures
        place(works, id) <= works.len(),
        listed(works, id) <==> place(works, id) < works.len(),
        listed(works, id) ==> works[place(works, id) as int].id == id,
        forall|i: int| 0 <= i < place(works, id) ==> (#[trigger] works[i]).id != id,
    decreases works.len(),
{
    if works.len() > 0 && works[0].id != id {
        let rest = works.skip(1);
        place_finds(rest, id);
        let p = place(rest, id);
        assert forall|i: int| 0 <= i < place(works, id) implies (#[trigger] works[i]).id != id by {
            if i > 0 {
                assert(rest[i - 1] == works[i]);
            }
        }
        if listed(works, id) {
            let i = choose|i: int| 0 <= i < works.len() && (#[trigger] works[i]).id == id;
            assert(rest[i - 1].id == id);
        }
        if listed(rest, id) {
            assert(works[p as int + 1] == rest[p as int]);
        }
    } else if works.len() > 0 {
        assert(works[0].id == id);
    }
}

proof fn place_is_first(works: Seq<Work>, id: u64, i: int)
    requires
        0 <= i < works.len(),
        works[i].id == id,
        forall|j: int| 0 <= j < i ==> (#[trigger] works[j]).id != id,
    ensures
        place(works, id) == i,
{
    place_finds(works, id);
    if place(works, id) < i {
        assert(works[place(works, id) as int].id != id);
    }
}

impl Runner {
    /// A runner with nothing to do.
    pub fn new(mode: RunnerMode) -> (r: Runner)
        ensures
            r@ == (RunnerView {
                mode,
                queue: Seq::empty(),
                running: Seq::empty(),
                closed: false,
                terminated: false,
            }),
            r@.wf(),
    {
        Runner { mode, queue: Vec::new(), running: Vec::new(), closed: false, terminated: false }
    }

    /// Hand a command to the runner.
    pub fn submit(&mut self, work: Work) -> (r: Submitted)
        requires
            old(self)@.wf(),
            !old(self)@.closed,
        ensures
            final(self)@.wf(),
            if old(self)@.terminated {
                r == Submitted::Terminated && final(self)@ == old(self)@
            } else if old(self)@.queue.len() >= RUNNER_QUEUE_CAPACITY {
                r == Submitted::Full && final(self)@ == old(self)@
            } else {
                &&& r == Submitted::Accepted
                &&& final(self)@ == (RunnerView {
                    queue: old(self)@.queue.push(Queued { work, abandoned: false }),
                    ..old(self)@
                })
            },
            r == Submitted::Accepted <==> !old(self)@.terminated && old(self)@.queue.len() < 64,
    {
        if self.terminated {
            return Submitted::Terminated;
        }
        if self.queue.len() >= RUNNER_QUEUE_CAPACITY {
            return Submitted::Full;
        }
        self.queue.push(Queued { work, abandoned: false });
        Submitted::Accepted
    }

    /// Whether the queue takes another command.
    pub fn has_room(&self) -> (r: bool)
        ensures
            r == (self@.queue.len() < RUNNER_QUEUE_CAPACITY),
            r == (self@.queue.len() < 64),
    {
        self.queue.len() < RUNNER_QUEUE_CAPACITY
    }

    /// Every handle is gone: what is queued still runs, nothing more comes.
    pub fn close(&mut self)
        requires
            old(self)@.wf(),
        ensures
            final(self)@.wf(),
            final(self)@ == (RunnerView { closed: true, ..old(self)@ }),
    {
        self.closed = true;
    }

    /// Take the next step. The second part lists the commands that lose their
    /// replies by it.
    pub fn next_work(&mut self) -> (r: (NextWork, Vec<u64>))
        requires
            old(self)@.wf(),
        ensures
            final(self)@.wf(),
            final(self)@ == old(self)@.next().0,
            r.0 == old(self)@.next().1,
            r.1@ == old(self)@.next_drops(),
            final(self)@.mode == old(self)@.mode,
            final(self)@.closed == old(self)@.closed,
            r.0 is Start || r.0 == NextWork::Wait ==> r.1@.len() == 0,
    {
        while self.queue.len() > 0 && self.queue[0].abandoned
            invariant
                self@.wf(),
                self@.next() == old(self)@.next(),
                self@.next_drops() == old(self)@.next_drops(),
                self@.mode == old(self)@.mode,
                self@.closed == old(self)@.closed,
            decreases self.queue@.len(),
        {
            let ghost before = self@;
            self.queue.remove(0);
            assert(self@.queue =~= before.queue.skip(1));
        }
        if self.queue.len() == 0 {
            if self.closed && self.running.len() == 0 && !self.terminated {
                self.terminated = true;
                assert(self@.queue =~= Seq::empty());
                assert(self@.running =~= Seq::empty());
                return (NextWork::Finished, Vec::new());
            }
            return (NextWork::Wait, Vec::new());
        }
        let front: Work = self.queue[0].work;
        let beside: bool = match self.mode {
            RunnerMode::Serial => false,
            RunnerMode::Interleaved => front.kind == WorkKind::Dispatch,
        };
        let free: bool = self.running.len() == 0 || (beside && self.running[0].kind
            == WorkKind::Dispatch);
        if !free {
            return (NextWork::Wait, Vec::new());
        }
        let ghost before = self@;
        self.queue.remove(0);
        assert(self@.queue =~= before.queue.skip(1));
        if front.kind == WorkKind::Shutdown {
            let dropped: Vec<u64> = self.stop();
            assert(dropped@ =~= queued_ids(before.queue.skip(1)));
            return (NextWork::ShutDown(front.id), dropped);
        }
        self.running.push(front);
        (NextWork::Start(front), Vec::new())
    }

    /// The runner ends. Gives the commands that lose their replies.
    fn stop(&mut self) -> (r: Vec<u64>)
        ensures
            final(self)@ == old(self)@.terminate(),
            final(self)@.wf(),
            r@ == old(self)@.pending(),
    {
        let mut dropped: Vec<u64> = Vec::new();
        let mut i: usize = 0;
        while i < self.running.len()
            invariant
                i <= self.running@.len(),
                dropped@ == ids(self.running@).take(i as int),
            decreases self.running@.len() - i,
        {
            dropped.push(self.running[i].id);
            i = i + 1;
            assert(dropped@ =~= ids(self.running@).take(i as int));
        }
        assert(dropped@ =~= ids(self.running@));
        let mut j: usize = 0;
        while j < self.queue.len()
            invariant
                j <= self.queue@.len(),
                dropped@ == ids(self.running@) + queued_ids(self.queue@).take(j as int),
            decreases self.queue@.len() - j,
        {
            dropped.push(self.queue[j].work.id);
            j = j + 1;
            assert(dropped@ =~= ids(self.running@) + queued_ids(self.queue@).take(j as int));
        }
        assert(dropped@ =~= self@.pending());
        self.running = Vec::new();
        self.queue = Vec::new();
        self.terminated = true;
        assert(self@.queue =~= Seq::empty());
        assert(self@.running =~= Seq::empty());
        dropped
    }

    fn position(&self, id: u64) -> (r: Option<usize>)
        ensures
            match r {
                Some(i) => i < self@.running.len() && listed(self@.running, id) && i == place(
                    self@.running,
                    id,
                ),
                None => !listed(self@.running, id),
            },
    {
        let mut i: usize = 0;
        while i < self.running.len()
            invariant
                i <= self.running@.len(),
                forall|j: int| 0 <= j < i ==> (#[trigger] self.running@[j]).id != id,
            decreases self.running@.len() - i,
        {
            if self.running[i].id == id {
                proof {
                    place_is_first(self.running@, id, i as int);
                }
                return Some(i);
            }
            i = i + 1;
        }
        None
    }

    /// The caller of a command went away. A queued command is passed over when
    /// its turn comes; a running one makes the runner unusable, since nothing
    /// shows that its body has stopped. Gives the other commands that lose their
    /// replies.
    pub fn cancel(&mut self, id: u64) -> (r: Vec<u64>)
        requires
            old(self)@.wf(),
        ensures
            final(self)@.wf(),
            if listed(old(self)@.running, id) {
                &&& final(self)@ == old(self)@.terminate()
                &&& r@ == ids(without(old(self)@.running, id)) + queued_ids(old(self)@.queue)
            } else {
                &&& r@.len() == 0
                &&& final(self)@ == (RunnerView {
                    queue: abandon(old(self)@.queue, id),
                    ..old(self)@
                })
            },
    {
        match self.position(id) {
            Some(at) => {
                self.running.remove(at);
                self.stop()
            },
            None => {
                let ghost before = self.queue@;
                let mut i: usize = 0;
                while i < self.queue.len()
                    invariant
                        self@ == (RunnerView { queue: self.queue@, ..old(self)@ }),
                        before == old(self)@.queue,
                        self.queue@.len() == before.len(),
                        i <= before.len(),
                        forall|j: int|
                            0 <= j < i ==> (#[trigger] self.queue@[j]) == abandon(before, id)[j],
                        forall|j: int| i <= j < before.len() ==> self.queue@[j] == before[j],
                    decreases before.len() - i,
                {
                    let entry: Queued = self.queue[i];
                    if entry.work.id == id && entry.work.kind != WorkKind::Shutdown {
                        self.queue.set(i, Queued { work: entry.work, abandoned: true });
                    }
                    i = i + 1;
                }
                assert(self.queue@ =~= abandon(before, id));
                Vec::new()
            },
        }
    }

    /// A running command ended, by a panic or not; its caller gets the reply that
    /// [`guarded`] gives. Gives the other commands that lose their replies.
    pub fn completed(&mut self, id: u64, panicked: bool) -> (r: Vec<u64>)
        requires
            old(self)@.wf(),
            listed(old(self)@.running, id),
        ensures
            final(self)@.wf(),
            ({
                let left = RunnerView {
                    running: without(old(self)@.running, id),
                    ..old(self)@
                };
                if old(self)@.fatal(panicked) {
                    final(self)@ == left.terminate() && r@ == left.pending()
                } else {
                    final(self)@ == left && r@.len() == 0
                }
            }),
            final(self)@.terminated <==> old(self)@.terminated || (panicked && old(self)@.mode
                == RunnerMode::Interleaved),
    {
        match self.position(id) {
            Some(at) => {
                self.running.remove(at);
            },
            None => {},
        }
        assert(self@.running == without(old(self)@.running, id));
        let fatal: bool = panicked && match self.mode {
            RunnerMode::Serial => false,
            RunnerMode::Interleaved => true,
        };
        if fatal {
            self.stop()
        } else {
            Vec::new()
        }
    }

    /// A running command exceeded its deadline: its caller is told so, and the
    /// runner ends, since state that was cut off cannot be trusted. Gives the
    /// other commands that lose their replies.
    pub fn timed_out(&mut self, id: u64) -> (r: (ActrError, Vec<u64>))
        requires
            old(self)@.wf(),
            listed(old(self)@.running, id),
        ensures
            final(self)@.wf(),
            final(self)@ == old(self)@.terminate(),
            r.0@ == ActrErrorView::TimedOut,
            r.1@ == ids(without(old(self)@.running, id)) + queued_ids(old(self)@.queue),
    {
        match self.position(id) {
            Some(at) => {
                self.running.remove(at);
            },
            None => {},
        }
        (ActrError::TimedOut, self.stop())
    }

    /// The runner is torn down at once. Gives the commands that lose their
    /// replies.
    pub fn abort(&mut self) -> (r: Vec<u64>)
        requires
            old(self)@.wf(),
        ensures
            final(self)@.wf(),
            final(self)@ == old(self)@.terminate(),
            r@ == old(self)@.pending(),
    {
        self.stop()
    }

    /// Whether the runner is over.
    pub fn is_terminated(&self) -> (r: bool)
        ensures
            r == self@.terminated,
    {
        self.terminated
    }

    /// How many commands run.
    pub fn running_len(&self) -> (r: usize)
        ensures
            r == self@.running.len(),
    {
        self.running.len()
    }
}

// ── laws ─────────────────────────────────────────────────────────────────────

/// Where the first queued command stands whose caller still waits.
pub open spec fn first_wanted(queue: Seq<Queued>) -> nat
    decreases queue.len(),
{
    if queue.len() == 0 || !queue[0].abandoned {
        0
    } else {
        1 + first_wanted(queue.skip(1))
    }
}

/// Commands start in the order of their arrival: what starts is the first queued
/// command whose caller still waits, and only what stood before it leaves the
/// queue with it.
pub proof fn commands_start_in_order(v: RunnerView, work: Work)
    requires
        v.next().1 == NextWork::Start(work),
    ensures
        first_wanted(v.queue) < v.queue.len(),
        v.queue[first_wanted(v.queue) as int] == (Queued { work, abandoned: false }),
        forall|i: int|
            0 <= i < first_wanted(v.queue) ==> (#[trigger] v.queue[i]).abandoned,
        v.next().0.queue == v.queue.skip(first_wanted(v.queue) as int + 1),
        v.next().0.running == v.running.push(work),
    decreases v.queue.len(),
{
    if v.queue.len() > 0 && v.queue[0].abandoned {
        let rest = v.dequeue();
        commands_start_in_order(rest, work);
        let k = first_wanted(rest.queue);
        assert(v.queue[k as int + 1] == rest.queue[k as int]);
        assert forall|i: int| 0 <= i < first_wanted(v.queue) implies (
        #[trigger] v.queue[i]).abandoned by {
            if i > 0 {
                assert(rest.queue[i - 1] == v.queue[i]);
            }
        }
        assert(rest.queue.skip(k as int + 1) =~= v.queue.skip(k as int + 2));
    }
}

/// A command whose caller went away while it waited never starts: it is not the
/// one that starts next, whatever its place.
pub proof fn abandoned_commands_never_start(v: RunnerView, id: u64, work: Work)
    requires
        (RunnerView { queue: abandon(v.queue, id), ..v }).next().1 == NextWork::Start(work),
    ensures
        work.id != id,
{
    let w = RunnerView { queue: abandon(v.queue, id), ..v };
    commands_start_in_order(w, work);
    let k = first_wanted(w.queue) as int;
    assert(w.queue[k] == abandon(v.queue, id)[k]);
    starting_never_starts_a_shutdown(w, work);
}

proof fn starting_never_starts_a_shutdown(v: RunnerView, work: Work)
    requires
        v.next().1 == NextWork::Start(work),
    ensures
        work.kind != WorkKind::Shutdown,
        v.may_start(work),
    decreases v.queue.len(),
{
    if v.queue.len() > 0 && v.queue[0].abandoned {
        starting_never_starts_a_shutdown(v.dequeue(), work);
    }
}

/// A step keeps the state sound: in particular a serial runner never runs two
/// commands at once.
pub proof fn steps_keep_wf(v: RunnerView)
    requires
        v.wf(),
    ensures
        v.next().0.wf(),
        v.mode == RunnerMode::Serial ==> v.next().0.running.len() <= 1,
    decreases v.queue.len(),
{
    if v.queue.len() > 0 && v.queue[0].abandoned {
        assert(v.dequeue().wf()) by {
            assert forall|i: int|
                0 <= i < v.dequeue().queue.len() && (#[trigger] v.dequeue().queue[i]).work.kind
                    == WorkKind::Shutdown implies !v.dequeue().queue[i].abandoned by {
                assert(v.dequeue().queue[i] == v.queue[i + 1]);
            }
        }
        steps_keep_wf(v.dequeue());
    } else if v.queue.len() > 0 {
        let w = v.next().0;
        assert forall|i: int|
            0 <= i < w.queue.len() && (#[trigger] w.queue[i]).work.kind
                == WorkKind::Shutdown implies !w.queue[i].abandoned by {
            if v.may_start(v.queue[0].work) {
                assert(w.queue[i] == v.queue[i + 1]);
            }
        }
    }
}

/// A barrier waits for everything in flight, and nothing starts beside it.
pub proof fn barriers_run_alone(v: RunnerView, work: Work)
    requires
        v.wf(),
        v.next().1 == NextWork::Start(work),
        v.running.len() > 0,
    ensures
        work.kind == WorkKind::Dispatch,
        v.mode == RunnerMode::Interleaved,
        forall|i: int|
            0 <= i < v.running.len() ==> (#[trigger] v.running[i]).kind == WorkKind::Dispatch,
{
    starting_never_starts_a_shutdown(v, work);
    assert forall|i: int| 0 <= i < v.running.len() implies (#[trigger] v.running[i]).kind
        == WorkKind::Dispatch by {
        if v.running[i].kind != WorkKind::Dispatch {
            assert(v.running.len() == 1);
        }
    }
}

/// An interleaved runner starts a dispatch at once while only dispatches run.
pub proof fn interleaved_dispatches_start_at_once(v: RunnerView, work: Work)
    requires
        v.wf(),
        v.mode == RunnerMode::Interleaved,
        v.queue.len() > 0,
        v.queue[0] == (Queued { work, abandoned: false }),
        work.kind == WorkKind::Dispatch,
        v.running.len() == 0 || v.running[0].kind == WorkKind::Dispatch,
    ensures
        v.next().1 == NextWork::Start(work),
{
}

/// When a running command ends the runner, every other command that runs or
/// waits loses its reply, and none twice.
pub proof fn ending_drops_everyone_else(v: RunnerView, id: u64)
    requires
        listed(v.running, id),
    ensures
        ids(without(v.running, id)) + queued_ids(v.queue) == v.pending().remove(
            place(v.running, id) as int,
        ),
        v.pending()[place(v.running, id) as int] == id,
{
    place_finds(v.running, id);
    let p = place(v.running, id) as int;
    assert(ids(v.running.remove(p)) =~= ids(v.running).remove(p));
    assert(ids(without(v.running, id)) + queued_ids(v.queue) =~= v.pending().remove(p));
}

/// A runner that is over starts nothing any more.
pub proof fn terminated_runners_start_nothing(v: RunnerView)
    requires
        v.wf(),
        v.terminated,
    ensures
        v.next() == (v, NextWork::Wait),
{
}

proof fn lemma_first_wanted(queue: Seq<Queued>)
    ensures
        first_wanted(queue) <= queue.len(),
        first_wanted(queue) < queue.len() ==> !queue[first_wanted(queue) as int].abandoned,
        forall|i: int| 0 <= i < first_wanted(queue) ==> (#[trigger] queue[i]).abandoned,
    decreases queue.len(),
{
    if queue.len() > 0 && queue[0].abandoned {
        let rest = queue.skip(1);
        lemma_first_wanted(rest);
        assert forall|i: int| 0 <= i < first_wanted(queue) implies (#[trigger] queue[i]).abandoned by {
            if i > 0 {
                assert(rest[i - 1] == queue[i]);
            }
        }
    }
}

/// An idle runner makes progress: with nothing running, the first queued command
/// whose caller still waits starts, whatever the mode and the kind, or ends the
/// runner if it is a shutdown. With no such command the runner waits, or is over
/// once no command can come.
pub proof fn idle_runners_make_progress(v: RunnerView)
    requires
        v.running.len() == 0,
    ensures
        forall|i: int|
            0 <= i < v.queue.len() && !(#[trigger] v.queue[i]).abandoned && (forall|j: int|
                0 <= j < i ==> (#[trigger] v.queue[j]).abandoned) ==> v.next().1 == (
            if v.queue[i].work.kind == WorkKind::Shutdown {
                NextWork::ShutDown(v.queue[i].work.id)
            } else {
                NextWork::Start(v.queue[i].work)
            }),
        (forall|i: int| 0 <= i < v.queue.len() ==> (#[trigger] v.queue[i]).abandoned) ==> v.next().1
            == (if v.closed && !v.terminated {
            NextWork::Finished
        } else {
            NextWork::Wait
        }),
        v.next().1 == NextWork::Wait ==> forall|i: int|
            0 <= i < v.queue.len() ==> (#[trigger] v.queue[i]).abandoned,
    decreases v.queue.len(),
{
    if v.queue.len() > 0 && v.queue[0].abandoned {
        let rest = v.dequeue();
        idle_runners_make_progress(rest);
        assert forall|i: int|
            0 <= i < v.queue.len() && !(#[trigger] v.queue[i]).abandoned && (forall|j: int|
                0 <= j < i ==> (#[trigger] v.queue[j]).abandoned) implies v.next().1 == (
        if v.queue[i].work.kind == WorkKind::Shutdown {
            NextWork::ShutDown(v.queue[i].work.id)
        } else {
            NextWork::Start(v.queue[i].work)
        }) by {
            assert(rest.queue[i - 1] == v.queue[i]);
            assert forall|j: int| 0 <= j < i - 1 implies (#[trigger] rest.queue[j]).abandoned by {
                assert(v.queue[j + 1].abandoned);
            }
        }
        assert forall|i: int| 0 <= i < rest.queue.len() implies #[trigger] rest.queue[i]
            == v.queue[i + 1] by {}
        if forall|i: int| 0 <= i < v.queue.len() ==> (#[trigger] v.queue[i]).abandoned {
            assert(forall|i: int|
                0 <= i < rest.queue.len() ==> (#[trigger] rest.queue[i]).abandoned);
        }
        if v.next().1 == NextWork::Wait {
            assert forall|i: int| 0 <= i < v.queue.len() implies (
            #[trigger] v.queue[i]).abandoned by {
                if i > 0 {
                    assert(rest.queue[i - 1].abandoned);
                }
            }
        }
    }
}

/// A busy runner starts the first wanted command exactly when both it and
/// everything that runs are dispatches of an interleaved runner; anything else
/// waits for what runs.
pub proof fn busy_runners_start_only_dispatches(v: RunnerView, i: int)
    requires
        v.wf(),
        v.running.len() > 0,
        0 <= i < v.queue.len(),
        !v.queue[i].abandoned,
        forall|j: int| 0 <= j < i ==> (#[trigger] v.queue[j]).abandoned,
    ensures
        v.next().1 == (if v.mode == RunnerMode::Interleaved && v.queue[i].work.kind
            == WorkKind::Dispatch && (forall|r: int|
            0 <= r < v.running.len() ==> (#[trigger] v.running[r]).kind == WorkKind::Dispatch) {
            NextWork::Start(v.queue[i].work)
        } else {
            NextWork::Wait
        }),
        v.next().1 == NextWork::Wait ==> v.next().0.running == v.running,
    decreases v.queue.len(),
{
    if i > 0 {
        assert(v.queue[0].abandoned);
        let rest = v.dequeue();
        assert(rest.wf()) by {
            assert forall|j: int|
                0 <= j < rest.queue.len() && (#[trigger] rest.queue[j]).work.kind
                    == WorkKind::Shutdown implies !rest.queue[j].abandoned by {
                assert(rest.queue[j] == v.queue[j + 1]);
            }
        }
        assert(rest.queue[i - 1] == v.queue[i]);
        assert forall|j: int| 0 <= j < i - 1 implies (#[trigger] rest.queue[j]).abandoned by {
            assert(v.queue[j + 1].abandoned);
        }
        busy_runners_start_only_dispatches(rest, i - 1);
    } else {
        if v.running[0].kind == WorkKind::Dispatch {
            assert forall|r: int| 0 <= r < v.running.len() implies (#[trigger] v.running[r]).kind
                == WorkKind::Dispatch by {
                if v.running[r].kind != WorkKind::Dispatch {
                    assert(v.running.len() == 1);
                }
            }
        }
    }
}

/// A step that waits loses no command but those whose callers went away, and a
/// step that ends the runner leaves nothing running or waiting.
pub proof fn steps_lose_no_wanted_command(v: RunnerView)
    requires
        v.wf(),
    ensures
        v.next().1 == NextWork::Wait ==> v.next().0.queue == v.queue.skip(
            first_wanted(v.queue) as int,
        ) && v.next().0.running == v.running && v.next().0.terminated == v.terminated,
        v.next().1 is ShutDown || v.next().1 == NextWork::Finished ==> v.next().0.terminated
            && v.next().0.running.len() == 0 && v.next().0.queue.len() == 0,
        v.next().1 is Start ==> v.next().0.terminated == v.terminated,
        v.next().0.mode == v.mode,
        v.next().0.closed == v.closed,
    decreases v.queue.len(),
{
    if v.queue.len() > 0 && v.queue[0].abandoned {
        let rest = v.dequeue();
        assert(rest.wf()) by {
            assert forall|j: int|
                0 <= j < rest.queue.len() && (#[trigger] rest.queue[j]).work.kind
                    == WorkKind::Shutdown implies !rest.queue[j].abandoned by {
                assert(rest.queue[j] == v.queue[j + 1]);
            }
        }
        steps_lose_no_wanted_command(rest);
        lemma_first_wanted(rest.queue);
        assert(v.queue.skip(1).skip(first_wanted(rest.queue) as int) =~= v.queue.skip(
            first_wanted(v.queue) as int,
        ));
    } else {
        assert(v.queue.skip(0) =~= v.queue);
    }
}

/// A shutdown costs exactly the commands behind it their replies, each under its
/// own number and in order; no other step costs any.
pub proof fn shutdown_drops_what_is_behind_it(v: RunnerView)
    requires
        v.wf(),
    ensures
        v.next().1 is ShutDown ==> {
            let k = first_wanted(v.queue);
            &&& k < v.queue.len()
            &&& v.queue[k as int].work == (Work {
                id: v.next().1->ShutDown_0,
                kind: WorkKind::Shutdown,
            })
            &&& v.running.len() == 0
            &&& v.next_drops().len() == v.queue.len() - k - 1
            &&& forall|i: int|
                0 <= i < v.next_drops().len() ==> #[trigger] v.next_drops()[i] == v.queue[k + 1
                    + i].work.id
        },
        !(v.next().1 is ShutDown) ==> v.next_drops().len() == 0,
    decreases v.queue.len(),
{
    if v.queue.len() > 0 && v.queue[0].abandoned {
        let rest = v.dequeue();
        assert(rest.wf()) by {
            assert forall|j: int|
                0 <= j < rest.queue.len() && (#[trigger] rest.queue[j]).work.kind
                    == WorkKind::Shutdown implies !rest.queue[j].abandoned by {
                assert(rest.queue[j] == v.queue[j + 1]);
            }
        }
        shutdown_drops_what_is_behind_it(rest);
        if v.next().1 is ShutDown {
            let k = first_wanted(rest.queue);
            assert(v.queue[k as int + 1] == rest.queue[k as int]);
            assert forall|i: int| 0 <= i < v.next_drops().len() implies #[trigger] v.next_drops()[i]
                == v.queue[k + 2 + i].work.id by {
                assert(rest.next_drops()[i] == rest.queue[k + 1 + i].work.id);
                assert(rest.queue[k + 1 + i] == v.queue[k + 2 + i]);
            }
        }
    } else if v.queue.len() > 0 && v.may_start(v.queue[0].work) && v.queue[0].work.kind
        == WorkKind::Shutdown {
        assert forall|i: int| 0 <= i < v.next_drops().len() implies #[trigger] v.next_drops()[i]
            == v.queue[1 + i].work.id by {
            assert(v.queue.skip(1)[i] == v.queue[1 + i]);
        }
    }
}

/// A caller that goes away gives up its own commands and nobody else's, and
/// nobody can give up a shutdown: every queued command keeps its place.
pub proof fn callers_give_up_their_own_commands(queue: Seq<Queued>, id: u64, i: int)
    requires
        0 <= i < queue.len(),
    ensures
        abandon(queue, id).len() == queue.len(),
        abandon(queue, id)[i].work == queue[i].work,
        abandon(queue, id)[i].abandoned <==> queue[i].abandoned || (queue[i].work.id == id
            && queue[i].work.kind != WorkKind::Shutdown),
{
}

/// Ending a runner leaves nothing running or waiting, and everything that ran or
/// waited is told: each running command, then each queued one, by its number.
pub proof fn ending_tells_everyone(v: RunnerView)
    ensures
        v.terminate().terminated,
        v.terminate().running.len() == 0,
        v.terminate().queue.len() == 0,
        v.pending().len() == v.running.len() + v.queue.len(),
        forall|i: int|
            0 <= i < v.running.len() ==> v.pending()[i] == (#[trigger] v.running[i]).id,
        forall|i: int|
            0 <= i < v.queue.len() ==> v.pending()[v.running.len() + i] == (
            #[trigger] v.queue[i]).work.id,
{
}

/// A command that ends leaves the others running, in their order, and is gone itself, once.
pub proof fn ended_commands_leave_the_others(works: Seq<Work>, id: u64)
    requires
        listed(works, id),
    ensures
        ({
            let at = place(works, id) as int;
            &&& 0 <= at < works.len()
            &&& works[at].id == id
            &&& without(works, id) == works.take(at) + works.skip(at + 1)
            &&& forall|i: int| 0 <= i < at ==> (#[trigger] works[i]).id != id
        }),
{
    place_finds(works, id);
    let at = place(works, id) as int;
    assert(works.remove(at) =~= works.take(at) + works.skip(at + 1));
}

/// A panic is reported as a fault of the framework, under the name of the command that
/// panicked and with what the panic said; a runner that is gone may be tried again.
pub proof fn panics_name_their_command(kind: WorkKind, info: Seq<char>)
    ensures
        panic_error(kind, info) matches ActrErrorView::Internal(m) && kind.label().is_prefix_of(m)
            && info.is_suffix_of(m),
        panic_error(kind, info).kind() == crate::protocol::ErrorKind::Internal,
        terminated_error().kind() == crate::protocol::ErrorKind::Transient,
        kind matches WorkKind::Lifecycle(phase) ==> kind.label() == phase.label(),
        kind == WorkKind::Dispatch ==> kind.label() == "dispatch"@,
        kind == WorkKind::DataStream ==> kind.label() == "data_stream"@,
        kind == WorkKind::Hook ==> kind.label() == "hook"@,
        kind == WorkKind::Shutdown ==> kind.label() == "shutdown"@,
{
    let m = kind.label() + " panicked: "@ + info;
    assert(m.take(kind.label().len() as int) =~= kind.label());
    assert(m.subrange(m.len() - info.len(), m.len() as int) =~= info);
}

/// Only a panic of an interleaved runner is fatal: its siblings share its state.
pub proof fn only_interleaved_panics_are_fatal(v: RunnerView, panicked: bool)
    ensures
        v.fatal(panicked) <==> panicked && v.mode == RunnerMode::Interleaved,
{
}

} // verus!
