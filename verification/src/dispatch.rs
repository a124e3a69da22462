//! The dispatch queue: bounded admission in front of the scheduler.
//!
//! A submitted job takes a slot and joins the scheduler, waits in line for a
//! slot, or is refused. Each completed job hands its slot to the first submitter
//! in line. After a shutdown nobody joins the line any more; those in it are
//! still served.
use crate::conflict_key::{ConflictKey, ConflictKeyView};
use crate::protocol::{ActrError, ActrErrorView};
use crate::scheduler;
use crate::scheduler::{
    scheduler_terminated, Admission, AdmissionView, Admit, Intake, Job, JobView, Scheduler,
    SchedulerView,
};
use vstd::multiset::Multiset;
use vstd::prelude::*;

verus! {

/// State of a [`DispatchQueue`].
pub struct QueueView {
    pub scheduler: SchedulerView,
    pub admission: AdmissionView,
    /// Jobs whose submitters are in line for a slot, in order.
    pub line: Seq<JobView>,
}

/// What becomes of a submission.
#[derive(Debug)]
pub enum Submission {
    /// The job was admitted; these jobs start now.
    Admitted(Vec<u64>),
    /// The submitter is in line for a slot.
    Waiting,
    /// Intake is closed.
    Refused(ActrError),
}

/// What a completion sets off.
#[derive(Debug)]
pub struct Turn {
    /// The job that leaves the line and takes the slot over.
    pub admitted: Option<u64>,
    /// The jobs that start now.
    pub started: Vec<u64>,
}

/// Position of the first job with number `id`, or the length where there is none.
pub open spec fn place_in_line(line: Seq<JobView>, id: u64) -> nat
    decreases line.len(),
{
    if line.len() == 0 || line[0].id == id {
        0
    } else {
        1 + place_in_line(line.skip(1), id)
    }
}

impl QueueView {
    /// A queue with nothing to do.
    pub open spec fn fresh(budget: usize, queue_cap: usize) -> QueueView {
        QueueView {
            scheduler: SchedulerView::fresh(budget),
            admission: AdmissionView {
                cap: scheduler::effective_cap(budget, queue_cap) as nat,
                used: 0,
                waiting: 0,
                intake: Intake::Open,
            },
            line: Seq::empty(),
        }
    }

    /// Exactly the scheduled jobs hold slots, every submitter in line is known, and
    /// work waits only while other work is in flight.
    pub open spec fn sound(self) -> bool {
        &&& self.scheduler.wf()
        &&& self.admission.wf()
        &&& self.admission.waiting == self.line.len()
        &&& self.scheduler.pending.len() + self.scheduler.inflight.len() == self.admission.used
        &&& self.scheduler.inflight.len() == 0 ==> self.scheduler.pending.len() == 0
    }

    /// State between two steps: sound, and the scheduler knows whether jobs can
    /// still come.
    pub open spec fn wf(self) -> bool {
        &&& self.sound()
        &&& self.scheduler.intake_open <==> self.admission.intake != Intake::Closed
    }

    /// A job joins the scheduler: the state, and the jobs that start.
    pub open spec fn join(self, job: JobView) -> (QueueView, Seq<u64>) {
        let queued = self.scheduler.enqueue(job);
        (
            QueueView { scheduler: queued.pump(), ..self },
            scheduler::newly_started(queued, queued.pump()),
        )
    }

    /// Once admission is closed the scheduler learns that no job will come.
    pub open spec fn seal(self) -> (QueueView, Seq<u64>) {
        if self.admission.intake == Intake::Closed && self.scheduler.intake_open {
            let closed = SchedulerView { intake_open: false, ..self.scheduler };
            (
                QueueView { scheduler: closed.pump(), ..self },
                scheduler::newly_started(closed, closed.pump()),
            )
        } else {
            (self, Seq::empty())
        }
    }

    /// What a submission leads to.
    pub open spec fn submit(self, job: JobView) -> QueueView {
        let (admission, verdict) = self.admission.submit();
        match verdict {
            Admit::Admitted => (QueueView { admission, ..self }).join(job).0,
            Admit::Wait => QueueView { admission, line: self.line.push(job), ..self },
            Admit::Terminated => self,
        }
    }

    /// The job whose submitter is first in line.
    pub open spec fn next_in_line(self) -> Option<u64> {
        if self.line.len() > 0 {
            Some(self.line[0].id)
        } else {
            None
        }
    }

    /// What the completion of the job in flight on a key leads to.
    pub open spec fn complete(self, k: ConflictKeyView) -> (QueueView, Seq<u64>) {
        let retired = QueueView {
            scheduler: self.scheduler.complete(k),
            admission: self.admission.release(),
            ..self
        };
        let first = scheduler::newly_started(self.scheduler.retire(k), retired.scheduler);
        let (joined, second) = if self.line.len() > 0 {
            (QueueView { line: self.line.skip(1), ..retired }).join(self.line[0])
        } else {
            (retired, Seq::empty())
        };
        let (sealed, third) = joined.seal();
        (sealed, first + second + third)
    }

    /// What the disappearance of a submitter in line leads to.
    pub open spec fn withdraw(self, id: u64) -> (QueueView, Seq<u64>) {
        (QueueView {
            admission: self.admission.line_shortened(),
            line: self.line.remove(place_in_line(self.line, id) as int),
            ..self
        }).seal()
    }

    /// What the disappearance of every submitter leads to.
    pub open spec fn abandon(self) -> QueueView {
        QueueView {
            scheduler: SchedulerView { intake_open: false, ..self.scheduler.drop_queued() },
            admission: AdmissionView {
                used: self.scheduler.inflight.len(),
                waiting: 0,
                intake: Intake::Closed,
                ..self.admission
            },
            line: Seq::empty(),
        }
    }

    /// What a shutdown leads to.
    pub open spec fn shutdown(self) -> (QueueView, Seq<u64>) {
        (QueueView { admission: self.admission.close(), ..self }).seal()
    }
}

proof fn lemma_join(v: SchedulerView, job: JobView)
    requires
        v.wf(),
    ensures
        v.enqueue(job).pump().pending.len() + v.enqueue(job).pump().inflight.len() == v.pending.len()
            + v.inflight.len() + 1,
        v.enqueue(job).pump().inflight.len() == 0 ==> v.enqueue(job).pump().pending.len() == 0,
        v.enqueue(job).pump().intake_open == v.intake_open,
{
    scheduler::enqueue_keeps_wf(v, job);
    scheduler::starting_moves_jobs_only(v.enqueue(job));
    scheduler::pumping_keeps_intake(v.enqueue(job));
    if v.enqueue(job).pump().inflight.len() == 0 {
        scheduler::idle_means_drained(v.enqueue(job));
    }
}

proof fn lemma_complete(v: SchedulerView, k: ConflictKeyView)
    requires
        v.wf(),
        v.is_active(k),
    ensures
        v.complete(k).pending.len() + v.complete(k).inflight.len() + 1 == v.pending.len()
            + v.inflight.len(),
        v.complete(k).inflight.len() == 0 ==> v.complete(k).pending.len() == 0,
        v.complete(k).intake_open == v.intake_open,
{
    scheduler::completion_removes_one_job(v, k);
    scheduler::retire_keeps_wf(v, k);
    scheduler::pumping_keeps_intake(v.retire(k));
    if v.complete(k).inflight.len() == 0 {
        scheduler::idle_means_drained(v.retire(k));
    }
}

/// Admits jobs and decides which of them may start.
#[derive(Debug)]
pub struct DispatchQueue {
    scheduler: Scheduler,
    admission: Admission,
    line: Vec<Job>,
}

impl View for DispatchQueue {
    type V = QueueView;

    closed spec fn view(&self) -> QueueView {
        QueueView {
            scheduler: self.scheduler@,
            admission: self.admission@,
            line: scheduler::job_views(self.line@),
        }
    }
}

fn append(all: &mut Vec<u64>, more: Vec<u64>)
    ensures
        final(all)@ == old(all)@ + more@,
{
    let mut i: usize = 0;
    while i < more.len()
        invariant
            i <= more@.len(),
            all@ == old(all)@ + more@.take(i as int),
        decreases more@.len() - i,
    {
        all.push(more[i]);
        assert(more@.take(i as int + 1) =~= more@.take(i as int).push(more@[i as int]));
        i = i + 1;
    }
    assert(more@.take(i as int) =~= more@);
}

impl DispatchQueue {
    /// A queue with a concurrency budget and a bounded number of slots.
    pub fn new(budget: usize, queue_cap: usize) -> (r: DispatchQueue)
        ensures
            r@ == QueueView::fresh(budget, queue_cap),
            r@.wf(),
    {
        let r = DispatchQueue {
            scheduler: Scheduler::new(budget),
            admission: Admission::new(budget, queue_cap),
            line: Vec::new(),
        };
        assert(r@.line =~= Seq::empty());
        r
    }

    fn seal(&mut self) -> (r: Vec<u64>)
        requires
            old(self)@.sound(),
            !old(self)@.scheduler.intake_open ==> old(self)@.admission.intake == Intake::Closed,
        ensures
            final(self)@ == old(self)@.seal().0,
            final(self)@.wf(),
            r@ == old(self)@.seal().1,
    {
        if self.admission.is_closed() && self.scheduler.takes_jobs() {
            proof {
                let closed = SchedulerView { intake_open: false, ..self@.scheduler };
                scheduler::starting_moves_jobs_only(closed);
                scheduler::pumping_keeps_intake(closed);
                assert(scheduler::job_views(Seq::<Job>::empty()) =~= Seq::empty());
            }
            let started: Vec<u64> = self.scheduler.on_shutdown(Vec::new());
            proof {
                let closed = SchedulerView { intake_open: false, ..old(self)@.scheduler };
                scheduler::lemma_wf_ignores_intake(old(self)@.scheduler, false);
                if closed.pump().inflight.len() == 0 {
                    scheduler::idle_means_drained(closed);
                }
            }
            started
        } else {
            Vec::new()
        }
    }

    /// Submit a job under its conflict key.
    pub fn submit(&mut self, job: Job) -> (r: Submission)
        requires
            old(self)@.wf(),
            old(self)@.line.len() < usize::MAX,
        ensures
            final(self)@ == old(self)@.submit(job@),
            final(self)@.wf(),
            match old(self)@.admission.submit().1 {
                Admit::Admitted => r matches Submission::Admitted(started) && started@ == old(
                    self,
                )@.join(job@).1,
                Admit::Wait => r is Waiting,
                Admit::Terminated => r matches Submission::Refused(e) && e@
                    == ActrErrorView::Unavailable("dispatch scheduler terminated"@),
            },
    {
        match self.admission.submit() {
            Admit::Admitted => {
                proof {
                    lemma_join(self@.scheduler, job@);
                }
                Submission::Admitted(self.scheduler.on_job(job))
            },
            Admit::Wait => {
                let ghost before = self.line@;
                self.line.push(job);
                assert(scheduler::job_views(self.line@) =~= scheduler::job_views(before).push(
                    job@,
                ));
                Submission::Waiting
            },
            Admit::Terminated => Submission::Refused(scheduler_terminated()),
        }
    }

    /// The job in flight on this key completed: its slot goes to the first
    /// submitter in line.
    pub fn complete(&mut self, key: &ConflictKey) -> (r: Turn)
        requires
            old(self)@.wf(),
            old(self)@.scheduler.is_active(key@),
        ensures
            final(self)@ == old(self)@.complete(key@).0,
            final(self)@.wf(),
            r.started@ == old(self)@.complete(key@).1,
            r.admitted == old(self)@.next_in_line(),
    {
        proof {
            lemma_complete(self@.scheduler, key@);
        }
        let mut started: Vec<u64> = self.scheduler.on_complete(key);
        let mut admitted: Option<u64> = None;
        if self.admission.release() {
            let ghost line = self.line@;
            let job: Job = self.line.remove(0);
            proof {
                assert(scheduler::job_views(self.line@) =~= scheduler::job_views(line).skip(1));
                assert(job@ == scheduler::job_views(line)[0]);
                lemma_join(self@.scheduler, job@);
            }
            admitted = Some(job.id);
            let more: Vec<u64> = self.scheduler.on_job(job);
            append(&mut started, more);
        }
        let more: Vec<u64> = self.seal();
        append(&mut started, more);
        assert(started@ =~= old(self)@.complete(key@).1);
        Turn { admitted, started }
    }

    /// The submitter of a job in line gave up. Returns the jobs that start now,
    /// or `None` where no such job is in line.
    pub fn withdraw(&mut self, id: u64) -> (r: Option<Vec<u64>>)
        requires
            old(self)@.wf(),
        ensures
            final(self)@.wf(),
            if place_in_line(old(self)@.line, id) < old(self)@.line.len() {
                &&& final(self)@ == old(self)@.withdraw(id).0
                &&& r matches Some(started) && started@ == old(self)@.withdraw(id).1
            } else {
                &&& final(self)@ == old(self)@
                &&& r is None
            },
    {
        let ghost line = scheduler::job_views(self.line@);
        let mut i: usize = 0;
        assert(line.skip(0) =~= line);
        while i < self.line.len() && self.line[i].id != id
            invariant
                i <= self.line@.len(),
                line == scheduler::job_views(self.line@),
                place_in_line(line, id) == i + place_in_line(line.skip(i as int), id),
            decreases self.line@.len() - i,
        {
            assert(line.skip(i as int)[0] == self.line@[i as int]@);
            assert(line.skip(i as int).skip(1) =~= line.skip(i as int + 1));
            i = i + 1;
        }
        if i >= self.line.len() {
            return None;
        }
        assert(line.skip(i as int)[0] == self.line@[i as int]@);
        let _ = self.line.remove(i);
        assert(scheduler::job_views(self.line@) =~= line.remove(i as int));
        self.admission.withdraw();
        Some(self.seal())
    }

    /// Close intake: submitters in line are still served, later ones are refused,
    /// and the queue is finished once everything has run. Returns the jobs that
    /// start now.
    pub fn shutdown(&mut self) -> (r: Vec<u64>)
        requires
            old(self)@.wf(),
        ensures
            final(self)@ == old(self)@.shutdown().0,
            final(self)@.wf(),
            r@ == old(self)@.shutdown().1,
    {
        let _ = self.admission.close();
        self.seal()
    }

    /// Every submitter disappeared without a shutdown: work that has not started
    /// is dropped with its slots, and nothing more is taken.
    pub fn abandon(&mut self)
        requires
            old(self)@.wf(),
        ensures
            final(self)@.wf(),
            final(self)@ == old(self)@.abandon(),
    {
        let mut dropped: usize = self.scheduler.pending_len();
        while self.line.len() > 0
            invariant
                self@.scheduler == old(self)@.scheduler,
                self@.admission.wf(),
                self@.admission.waiting == self.line@.len(),
                self@.admission.cap == old(self)@.admission.cap,
                self@.admission.used == old(self)@.admission.used,
            decreases self.line@.len(),
        {
            let _ = self.line.pop();
            self.admission.withdraw();
        }
        let _ = self.admission.close();
        while dropped > 0
            invariant
                self@.scheduler == old(self)@.scheduler,
                self.line@.len() == 0,
                self@.admission == (AdmissionView {
                    cap: old(self)@.admission.cap,
                    used: (old(self)@.scheduler.inflight.len() + dropped) as nat,
                    waiting: 0,
                    intake: Intake::Closed,
                }),
            decreases dropped,
        {
            let _ = self.admission.release();
            dropped = dropped - 1;
        }
        self.scheduler.on_intake_lost();
        assert(self@.line =~= Seq::empty());
    }

    /// Whether the queue has nothing left to wait for.
    pub fn is_finished(&self) -> (r: bool)
        ensures
            r == (!self@.scheduler.intake_open && self@.scheduler.inflight.len() == 0),
    {
        self.scheduler.is_finished()
    }
}

// ── laws ─────────────────────────────────────────────────────────────────────

/// A submitted job is scheduled under its own key, waits under its own key, or is
/// refused and leaves no trace: it is never lost and never filed elsewhere.
pub proof fn submitted_jobs_keep_their_key(v: QueueView, job: JobView)
    requires
        v.wf(),
    ensures
        match v.admission.submit().1 {
            Admit::Admitted => scheduler::held_jobs(v.submit(job).scheduler)
                == scheduler::held_jobs(v.scheduler).insert(job) && v.submit(job).line == v.line,
            Admit::Wait => v.submit(job).line == v.line.push(job) && v.submit(job).scheduler
                == v.scheduler,
            Admit::Terminated => v.submit(job) == v,
        },
{
    scheduler::arrival_adds_one_job(v.scheduler, job);
    scheduler::starting_moves_jobs_only(v.scheduler.enqueue(job));
}

/// Never more jobs are scheduled than there are slots.
pub proof fn scheduled_jobs_fit_the_slots(v: QueueView)
    requires
        v.wf(),
    ensures
        v.scheduler.pending.len() + v.scheduler.inflight.len() <= v.admission.cap,
{
}

/// Submitters are served in the order in which they came: a completion admits
/// exactly the first one in line.
pub proof fn the_line_is_served_in_order(v: QueueView, k: ConflictKeyView)
    requires
        v.wf(),
        v.scheduler.is_active(k),
    ensures
        v.complete(k).0.line == (if v.line.len() > 0 {
            v.line.skip(1)
        } else {
            v.line
        }),
{
}

/// Every job that a queue has taken and not finished: scheduled or in line.
pub open spec fn unfinished(v: QueueView) -> Multiset<JobView> {
    scheduler::held_jobs(v.scheduler).add(v.line.to_multiset())
}

/// How many jobs a queue has taken and not finished.
pub open spec fn unfinished_len(v: QueueView) -> nat {
    v.scheduler.pending.len() + v.scheduler.inflight.len() + v.line.len()
}

/// The job in flight on a key.
pub open spec fn job_on(v: QueueView, k: ConflictKeyView) -> JobView {
    v.scheduler.inflight[scheduler::first_with_key(v.scheduler.inflight, k) as int]
}

/// Whether jobs on these keys can complete one after the other: each is in flight
/// when it does.
pub open spec fn completions(v: QueueView, keys: Seq<ConflictKeyView>) -> bool
    decreases keys.len(),
{
    keys.len() == 0 || (v.scheduler.is_active(keys[0]) && completions(
        v.complete(keys[0]).0,
        keys.skip(1),
    ))
}

/// The state that completions lead to.
pub open spec fn completed(v: QueueView, keys: Seq<ConflictKeyView>) -> QueueView
    decreases keys.len(),
{
    if keys.len() == 0 {
        v
    } else {
        completed(v.complete(keys[0]).0, keys.skip(1))
    }
}

/// The jobs that completions finish.
pub open spec fn finished_jobs(v: QueueView, keys: Seq<ConflictKeyView>) -> Multiset<JobView>
    decreases keys.len(),
{
    if keys.len() == 0 {
        Multiset::empty()
    } else {
        finished_jobs(v.complete(keys[0]).0, keys.skip(1)).insert(job_on(v, keys[0]))
    }
}

proof fn lemma_turn(v: QueueView, k: ConflictKeyView)
    requires
        v.wf(),
        v.scheduler.is_active(k),
    ensures
        v.complete(k).0.wf(),
        v.admission.intake != Intake::Open ==> v.complete(k).0.admission.intake != Intake::Open,
        unfinished_len(v.complete(k).0) + 1 == unfinished_len(v),
        unfinished(v) == unfinished(v.complete(k).0).insert(job_on(v, k)),
{
    broadcast use vstd::seq_lib::group_to_multiset_ensures;

    let retired = QueueView {
        scheduler: v.scheduler.complete(k),
        admission: v.admission.release(),
        ..v
    };
    lemma_complete(v.scheduler, k);
    scheduler::completion_removes_one_job(v.scheduler, k);
    scheduler::retire_keeps_wf(v.scheduler, k);
    scheduler::pump_keeps_wf(v.scheduler.retire(k));
    let job = job_on(v, k);
    let held = scheduler::held_jobs(v.scheduler);
    assert(held.count(job) > 0) by {
        assert(v.scheduler.inflight.contains(job));
        assert(v.scheduler.inflight.to_multiset().count(job) > 0);
    }
    assert(held =~= scheduler::held_jobs(retired.scheduler).insert(job));
    let joined = if v.line.len() > 0 {
        let front = v.line[0];
        lemma_join(retired.scheduler, front);
        scheduler::enqueue_keeps_wf(retired.scheduler, front);
        scheduler::pump_keeps_wf(retired.scheduler.enqueue(front));
        scheduler::arrival_adds_one_job(retired.scheduler, front);
        scheduler::starting_moves_jobs_only(retired.scheduler.enqueue(front));
        assert(v.line.remove(0) =~= v.line.skip(1));
        assert(v.line.to_multiset() =~= v.line.skip(1).to_multiset().insert(front));
        (QueueView { line: v.line.skip(1), ..retired }).join(front).0
    } else {
        retired
    };
    assert(unfinished(v) =~= unfinished(joined).insert(job));
    assert(joined.sound());
    if joined.admission.intake == Intake::Closed && joined.scheduler.intake_open {
        let closed = SchedulerView { intake_open: false, ..joined.scheduler };
        scheduler::lemma_wf_ignores_intake(joined.scheduler, false);
        scheduler::starting_moves_jobs_only(closed);
        scheduler::pumping_keeps_intake(closed);
        scheduler::pump_keeps_wf(closed);
        if closed.pump().inflight.len() == 0 {
            scheduler::idle_means_drained(closed);
        }
    }
}

/// No job is lost: what completions finish and what is still unfinished is what
/// was unfinished before, and each completion finishes one job.
pub proof fn completions_lose_no_job(v: QueueView, keys: Seq<ConflictKeyView>)
    requires
        v.wf(),
        completions(v, keys),
    ensures
        completed(v, keys).wf(),
        v.admission.intake != Intake::Open ==> completed(v, keys).admission.intake != Intake::Open,
        unfinished_len(completed(v, keys)) + keys.len() == unfinished_len(v),
        unfinished(v) == finished_jobs(v, keys).add(unfinished(completed(v, keys))),
    decreases keys.len(),
{
    if keys.len() > 0 {
        let w = v.complete(keys[0]).0;
        lemma_turn(v, keys[0]);
        completions_lose_no_job(w, keys.skip(1));
    }
    assert(unfinished(v) =~= finished_jobs(v, keys).add(unfinished(completed(v, keys))));
}

/// After a shutdown, completing what is in flight drains the queue: as long as any
/// job is unfinished one is in flight, and once none is in flight every job that
/// was admitted or in line has run, and the queue is finished.
pub proof fn shutdown_drains_everything(v: QueueView, keys: Seq<ConflictKeyView>)
    requires
        v.wf(),
        v.admission.intake != Intake::Open,
        completions(v, keys),
    ensures
        unfinished_len(completed(v, keys)) > 0 <==> completed(v, keys).scheduler.inflight.len() > 0,
        keys.len() == unfinished_len(v) <==> completed(v, keys).scheduler.inflight.len() == 0,
        completed(v, keys).scheduler.inflight.len() == 0 ==> finished_jobs(v, keys) == unfinished(v)
            && !completed(v, keys).scheduler.intake_open,
{
    broadcast use vstd::seq_lib::group_to_multiset_ensures;

    completions_lose_no_job(v, keys);
    let end = completed(v, keys);
    if end.scheduler.inflight.len() == 0 {
        assert(end.scheduler.pending.len() == 0);
        assert(end.line.len() == 0);
        assert(end.scheduler.pending =~= Seq::empty());
        assert(end.scheduler.inflight =~= Seq::empty());
        assert(end.line =~= Seq::empty());
        assert(unfinished(end) =~= Multiset::empty());
        assert(finished_jobs(v, keys) =~= unfinished(v));
    }
}

/// A shutdown leaves every unfinished job in place and closes intake for others.
pub proof fn shutdown_keeps_jobs(v: QueueView)
    requires
        v.wf(),
    ensures
        v.shutdown().0.wf(),
        v.shutdown().0.admission.intake != Intake::Open,
        unfinished(v.shutdown().0) == unfinished(v),
        unfinished_len(v.shutdown().0) == unfinished_len(v),
{
    let closing = QueueView { admission: v.admission.close(), ..v };
    if closing.admission.intake == Intake::Closed && closing.scheduler.intake_open {
        let closed = SchedulerView { intake_open: false, ..v.scheduler };
        scheduler::lemma_wf_ignores_intake(v.scheduler, false);
        scheduler::starting_moves_jobs_only(closed);
        scheduler::pumping_keeps_intake(closed);
        scheduler::pump_keeps_wf(closed);
        if closed.pump().inflight.len() == 0 {
            scheduler::idle_means_drained(closed);
        }
    }
}

/// A free slot is used at once while intake is open: the job is scheduled, nobody joins the
/// line, and what starts is what comes into flight, the job itself where it can run.
pub proof fn free_slots_take_jobs_at_once(v: QueueView, job: JobView)
    requires
        v.wf(),
        v.admission.intake == Intake::Open,
        v.admission.used < v.admission.cap,
    ensures
        v.submit(job).admission.used == v.admission.used + 1,
        v.submit(job).line == v.line,
        v.scheduler.inflight.is_prefix_of(v.submit(job).scheduler.inflight),
        v.join(job).1.len() == v.submit(job).scheduler.inflight.len() - v.scheduler.inflight.len(),
        forall|i: int|
            0 <= i < v.join(job).1.len() ==> #[trigger] v.join(job).1[i] == v.submit(
                job,
            ).scheduler.inflight[v.scheduler.inflight.len() + i].id,
{
    scheduler::enqueue_keeps_wf(v.scheduler, job);
    scheduler::arrivals_never_overtake(v.scheduler, job);
    scheduler::starting_only_adds(v.scheduler.enqueue(job));
}

/// A full queue makes submitters wait at the end of the line, and one that was shut down
/// takes nobody: in neither case is anything else touched.
pub proof fn full_queues_make_submitters_wait(v: QueueView, job: JobView)
    requires
        v.wf(),
    ensures
        v.admission.intake == Intake::Open && v.admission.used == v.admission.cap ==> {
            let w = v.submit(job);
            &&& w.line == v.line.push(job)
            &&& w.scheduler == v.scheduler
            &&& w.admission.used == v.admission.used
            &&& w.admission.waiting == v.admission.waiting + 1
        },
        v.admission.intake != Intake::Open ==> v.submit(job) == v,
{
}

/// What a completion starts is what comes into flight by it, in that order; what else was
/// in flight stays there.
pub proof fn completions_start_what_comes_into_flight(v: QueueView, k: ConflictKeyView)
    requires
        v.wf(),
        v.scheduler.is_active(k),
    ensures
        v.scheduler.retire(k).inflight.is_prefix_of(v.complete(k).0.scheduler.inflight),
        v.complete(k).1.len() == v.complete(k).0.scheduler.inflight.len() - (
        v.scheduler.inflight.len() - 1),
        forall|i: int|
            0 <= i < v.complete(k).1.len() ==> #[trigger] v.complete(k).1[i] == v.complete(
                k,
            ).0.scheduler.inflight[v.scheduler.inflight.len() - 1 + i].id,
        v.complete(k).0.scheduler.budget == v.scheduler.budget,
        v.complete(k).0.admission.cap == v.admission.cap,
{
    let retired = v.scheduler.retire(k);
    scheduler::retire_keeps_wf(v.scheduler, k);
    scheduler::completions_never_overtake(v.scheduler, k);
    scheduler::pump_keeps_wf(retired);
    scheduler::starting_only_adds(retired);
    let first = v.scheduler.complete(k);
    let joined = if v.line.len() > 0 {
        scheduler::enqueue_keeps_wf(first, v.line[0]);
        scheduler::arrivals_never_overtake(first, v.line[0]);
        scheduler::pump_keeps_wf(first.enqueue(v.line[0]));
        scheduler::starting_only_adds(first.enqueue(v.line[0]));
        first.enqueue(v.line[0]).pump()
    } else {
        first
    };
    let closed = SchedulerView { intake_open: false, ..joined };
    scheduler::lemma_wf_ignores_intake(joined, false);
    scheduler::starting_only_adds(closed);
}

/// The place of a job in line is that of the first one with its number.
pub proof fn places_in_line_are_the_first(line: Seq<JobView>, id: u64)
    ensures
        place_in_line(line, id) <= line.len(),
        place_in_line(line, id) < line.len() ==> line[place_in_line(line, id) as int].id == id,
        forall|i: int| 0 <= i < place_in_line(line, id) ==> (#[trigger] line[i]).id != id,
    decreases line.len(),
{
    if line.len() > 0 && line[0].id != id {
        places_in_line_are_the_first(line.skip(1), id);
        assert forall|i: int| 0 <= i < place_in_line(line, id) implies (#[trigger] line[i]).id
            != id by {
            if i > 0 {
                assert(line.skip(1)[i - 1] == line[i]);
            }
        }
    }
}

/// A submitter that gives up leaves the line alone: the others keep their order, and no
/// scheduled job, no slot and no start is touched beyond what the end of the line allows.
pub proof fn withdrawals_leave_the_others(v: QueueView, id: u64)
    requires
        v.wf(),
        place_in_line(v.line, id) < v.line.len(),
    ensures
        ({
            let at = place_in_line(v.line, id) as int;
            let w = v.withdraw(id).0;
            &&& v.line[at].id == id
            &&& w.line == v.line.take(at) + v.line.skip(at + 1)
            &&& w.admission.used == v.admission.used
            &&& w.admission.cap == v.admission.cap
            &&& w.admission.waiting == v.admission.waiting - 1
            &&& scheduler::held_jobs(w.scheduler) == scheduler::held_jobs(v.scheduler)
            &&& v.admission.intake == Intake::Open ==> w.admission.intake == Intake::Open
            &&& v.admission.intake != Intake::Open ==> w.admission.intake != Intake::Open
        }),
{
    places_in_line_are_the_first(v.line, id);
    let at = place_in_line(v.line, id) as int;
    assert(v.line.remove(at) =~= v.line.take(at) + v.line.skip(at + 1));
    let w = QueueView {
        admission: v.admission.line_shortened(),
        line: v.line.remove(at),
        ..v
    };
    if w.admission.intake == Intake::Closed && w.scheduler.intake_open {
        let closed = SchedulerView { intake_open: false, ..v.scheduler };
        scheduler::lemma_wf_ignores_intake(v.scheduler, false);
        scheduler::starting_moves_jobs_only(closed);
    }
}

/// When every submitter has disappeared, what runs goes on and nothing else: no job waits,
/// nobody is in line, exactly the running jobs hold slots, and intake is closed.
pub proof fn abandoned_queues_finish_what_runs(v: QueueView)
    requires
        v.wf(),
    ensures
        v.abandon().scheduler.inflight == v.scheduler.inflight,
        v.abandon().scheduler.pending.len() == 0,
        v.abandon().line.len() == 0,
        v.abandon().admission.used == v.scheduler.inflight.len(),
        v.abandon().admission.cap == v.admission.cap,
        v.abandon().admission.intake == Intake::Closed,
        !v.abandon().scheduler.intake_open,
{
}

/// A shutdown with nobody in line closes intake for good; with somebody in line it stays
/// half open for them alone.
pub proof fn shutdown_waits_for_the_line(v: QueueView)
    requires
        v.wf(),
    ensures
        v.shutdown().0.line == v.line,
        v.shutdown().0.admission.used == v.admission.used,
        v.line.len() == 0 ==> v.shutdown().0.admission.intake == Intake::Closed
            && !v.shutdown().0.scheduler.intake_open,
        v.line.len() > 0 ==> v.shutdown().0.admission.intake != Intake::Closed,
{
    scheduler::pumping_keeps_intake(SchedulerView { intake_open: false, ..v.scheduler });
}

/// Whoever came first is next in line, and somebody is next exactly while anybody waits.
pub proof fn the_first_is_next(v: QueueView)
    ensures
        v.next_in_line() is Some <==> v.line.len() > 0,
        v.line.len() > 0 ==> v.next_in_line() == Some(v.line[0].id),
{
}

} // verus!
