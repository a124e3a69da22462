//! Per-key serial, budgeted-concurrent dispatch scheduling.
//!
//! The scheduler decides which admitted job may start. It owns three
//! invariants:
//!
//! * **Same-key FIFO, one in flight**: two jobs with equal [`ConflictKey`] run
//!   strictly in submission order, and the next never starts until the previous
//!   one has completed.
//! * **Distinct-key concurrency up to a budget**: jobs with different keys may
//!   run at the same time, capped at the budget, with round-robin fairness
//!   across ready keys so that no key starves.
//! * **[`ConflictKey::Serial`] is a global barrier**: a Serial job starts only
//!   when nothing else is in flight and runs alone; while a Serial job is
//!   pending, no new scoped job starts.
//!
//! Jobs are identified by numbers that the caller picks; the caller runs the
//! job bodies that [`Scheduler`] tells it to start and reports completions.
use crate::conflict_key::{ConflictKey, ConflictKeyView};
use crate::protocol::{ActrError, ActrErrorView};
use vstd::prelude::*;

verus! {

/// An admitted job: its conflict key and the caller's number for it.
#[derive(Debug)]
pub struct Job {
    pub key: ConflictKey,
    pub id: u64,
}

/// Contents of a [`Job`].
pub struct JobView {
    pub key: ConflictKeyView,
    pub id: u64,
}

impl View for Job {
    type V = JobView;

    open spec fn view(&self) -> JobView {
        JobView { key: self.key@, id: self.id }
    }
}

/// Contents of a list of jobs.
pub open spec fn job_views(jobs: Seq<Job>) -> Seq<JobView> {
    jobs.map_values(|j: Job| j@)
}

/// Contents of a list of keys.
pub open spec fn key_views(keys: Seq<ConflictKey>) -> Seq<ConflictKeyView> {
    keys.map_values(|k: ConflictKey| k@)
}

/// Position of the first job with key `k`, or the length where there is none.
pub open spec fn first_with_key(jobs: Seq<JobView>, k: ConflictKeyView) -> nat
    decreases jobs.len(),
{
    if jobs.len() == 0 || jobs[0].key == k {
        0
    } else {
        1 + first_with_key(jobs.skip(1), k)
    }
}

/// Whether a job with key `k` is in the list.
pub open spec fn holds_key(jobs: Seq<JobView>, k: ConflictKeyView) -> bool {
    exists|i: int| 0 <= i < jobs.len() && #[trigger] jobs[i].key == k
}

/// The numbers of the jobs with key `k`, in order.
pub open spec fn with_key(jobs: Seq<JobView>, k: ConflictKeyView) -> Seq<u64>
    decreases jobs.len(),
{
    if jobs.len() == 0 {
        Seq::empty()
    } else if jobs.last().key == k {
        with_key(jobs.drop_last(), k).push(jobs.last().id)
    } else {
        with_key(jobs.drop_last(), k)
    }
}

/// State of the scheduler.
pub struct SchedulerView {
    /// How many jobs may be in flight at once.
    pub budget: nat,
    /// Admitted jobs that have not started, in submission order.
    pub pending: Seq<JobView>,
    /// Scoped keys with pending work that are not in flight, in round-robin
    /// order. `Serial` is never here; the barrier rule handles it.
    pub ready: Seq<ConflictKeyView>,
    /// Jobs in flight, at most one per key.
    pub inflight: Seq<JobView>,
    /// Whether more jobs can arrive.
    pub intake_open: bool,
}

impl SchedulerView {
    /// A scheduler with nothing to do; a budget of zero counts as one.
    pub open spec fn fresh(budget: usize) -> SchedulerView {
        SchedulerView {
            budget: if budget == 0 {
                1
            } else {
                budget as nat
            },
            pending: Seq::empty(),
            ready: Seq::empty(),
            inflight: Seq::empty(),
            intake_open: true,
        }
    }

    /// Whether a job with key `k` is in flight.
    pub open spec fn is_active(self, k: ConflictKeyView) -> bool {
        holds_key(self.inflight, k)
    }

    /// Whether a job with key `k` is waiting.
    pub open spec fn has_pending(self, k: ConflictKeyView) -> bool {
        holds_key(self.pending, k)
    }

    /// What every operation keeps: the ready list names each scoped key that
    /// has waiting work and none in flight, exactly once; no key is in flight
    /// twice; the budget holds; and a job on the barrier key runs alone.
    pub open spec fn wf(self) -> bool {
        &&& self.budget >= 1
        &&& self.inflight.len() <= self.budget
        &&& forall|i: int, j: int|
            0 <= i < j < self.ready.len() ==> #[trigger] self.ready[i] != #[trigger] self.ready[j]
        &&& forall|i: int|
            0 <= i < self.ready.len() ==> (#[trigger] self.ready[i]) != ConflictKeyView::Serial
                && self.has_pending(self.ready[i]) && !self.is_active(self.ready[i])
        &&& forall|i: int, j: int|
            0 <= i < j < self.inflight.len() ==> #[trigger] self.inflight[i].key
                != #[trigger] self.inflight[j].key
        &&& forall|k: ConflictKeyView|
            k != ConflictKeyView::Serial && #[trigger] self.has_pending(k) && !self.is_active(k)
                ==> self.ready.contains(k)
        &&& self.is_active(ConflictKeyView::Serial) ==> self.inflight.len() == 1
    }

    /// A job arrives: it waits behind all others, and its key becomes ready if
    /// this is its first waiting job and none is in flight.
    pub open spec fn enqueue(self, job: JobView) -> SchedulerView {
        SchedulerView {
            pending: self.pending.push(job),
            ready: if !self.has_pending(job.key) && job.key != ConflictKeyView::Serial
                && !self.is_active(job.key) {
                self.ready.push(job.key)
            } else {
                self.ready
            },
            ..self
        }
    }

    /// The first waiting job with key `k` goes in flight.
    pub open spec fn start(self, k: ConflictKeyView) -> SchedulerView {
        let i = first_with_key(self.pending, k) as int;
        if i < self.pending.len() {
            SchedulerView {
                pending: self.pending.remove(i),
                inflight: self.inflight.push(self.pending[i]),
                ..self
            }
        } else {
            self
        }
    }

    /// Ready keys start in round-robin order while the budget lasts.
    pub open spec fn fill(self) -> SchedulerView
        decreases self.ready.len(),
    {
        if self.inflight.len() >= self.budget || self.ready.len() == 0 {
            self
        } else {
            (SchedulerView { ready: self.ready.skip(1), ..self }).start(self.ready[0]).fill()
        }
    }

    /// As many jobs start as the budget and the barrier rule allow: nothing
    /// while a barrier job is in flight; while one is waiting, only that one,
    /// once nothing is in flight; otherwise ready keys in turn.
    pub open spec fn pump(self) -> SchedulerView {
        if self.is_active(ConflictKeyView::Serial) {
            self
        } else if self.has_pending(ConflictKeyView::Serial) {
            if self.inflight.len() == 0 {
                self.start(ConflictKeyView::Serial)
            } else {
                self
            }
        } else {
            self.fill()
        }
    }

    /// The job with key `k` leaves the in-flight set; its key goes to the back
    /// of the ready list if more of its jobs wait.
    pub open spec fn retire(self, k: ConflictKeyView) -> SchedulerView {
        let i = first_with_key(self.inflight, k) as int;
        SchedulerView {
            inflight: if i < self.inflight.len() {
                self.inflight.remove(i)
            } else {
                self.inflight
            },
            ready: if self.has_pending(k) && k != ConflictKeyView::Serial && self.is_active(k) {
                self.ready.push(k)
            } else {
                self.ready
            },
            ..self
        }
    }

    /// The in-flight job with key `k` completed.
    pub open spec fn complete(self, k: ConflictKeyView) -> SchedulerView {
        self.retire(k).pump()
    }

    /// Waiting work is dropped; what is in flight goes on.
    pub open spec fn drop_queued(self) -> SchedulerView {
        SchedulerView { pending: Seq::empty(), ready: Seq::empty(), ..self }
    }

    /// Several jobs arrive in order.
    pub open spec fn enqueue_all(self, jobs: Seq<JobView>) -> SchedulerView
        decreases jobs.len(),
    {
        if jobs.len() == 0 {
            self
        } else {
            self.enqueue_all(jobs.drop_last()).enqueue(jobs.last())
        }
    }
}

proof fn lemma_first_with_key(jobs: Seq<JobView>, k: ConflictKeyView)
    ensures
        first_with_key(jobs, k) <= jobs.len(),
        first_with_key(jobs, k) < jobs.len() <==> holds_key(jobs, k),
        first_with_key(jobs, k) < jobs.len() ==> jobs[first_with_key(jobs, k) as int].key == k,
        forall|j: int| 0 <= j < first_with_key(jobs, k) ==> #[trigger] jobs[j].key != k,
    decreases jobs.len(),
{
    if jobs.len() > 0 && jobs[0].key != k {
        let rest = jobs.skip(1);
        lemma_first_with_key(rest, k);
        let n = first_with_key(rest, k);
        assert forall|j: int| 0 <= j < n + 1 implies #[trigger] jobs[j].key != k by {
            if j > 0 {
                assert(rest[j - 1] == jobs[j]);
            }
        }
        if holds_key(jobs, k) {
            let i = choose|i: int| 0 <= i < jobs.len() && #[trigger] jobs[i].key == k;
            assert(rest[i - 1].key == k);
        }
        if n < rest.len() {
            assert(jobs[n as int + 1] == rest[n as int]);
        }
    } else if jobs.len() > 0 {
        assert(jobs[0].key == k);
    }
}

/// Position of the first job with key `key`, if there is one.
fn find_key(jobs: &Vec<Job>, key: &ConflictKey) -> (r: Option<usize>)
    ensures
        r == (if holds_key(job_views(jobs@), key@) {
            Some(first_with_key(job_views(jobs@), key@) as usize)
        } else {
            None
        }),
        r matches Some(i) ==> i < jobs@.len() && i == first_with_key(job_views(jobs@), key@)
            && jobs@[i as int].key@ == key@,
{
    let ghost s = job_views(jobs@);
    proof {
        lemma_first_with_key(s, key@);
    }
    let mut i: usize = 0;
    while i < jobs.len()
        invariant
            i <= jobs@.len(),
            s == job_views(jobs@),
            forall|j: int| 0 <= j < i ==> #[trigger] s[j].key != key@,
            first_with_key(s, key@) <= s.len(),
            first_with_key(s, key@) < s.len() <==> holds_key(s, key@),
            first_with_key(s, key@) < s.len() ==> s[first_with_key(s, key@) as int].key == key@,
            forall|j: int| 0 <= j < first_with_key(s, key@) ==> #[trigger] s[j].key != key@,
        decreases jobs@.len() - i,
    {
        assert(s[i as int] == jobs@[i as int]@);
        if jobs[i].key.same_key(key) {
            proof {
                let f = first_with_key(s, key@) as int;
                assert(s[i as int].key == key@);
                assert(holds_key(s, key@));
                assert(s[f].key == key@);
                assert(f == i);
            }
            return Some(i);
        }
        i = i + 1;
    }
    None
}

/// Decides which admitted jobs may start.
#[derive(Debug)]
pub struct Scheduler {
    budget: usize,
    pending: Vec<Job>,
    ready: Vec<ConflictKey>,
    inflight: Vec<Job>,
    intake_open: bool,
}

impl View for Scheduler {
    type V = SchedulerView;

    closed spec fn view(&self) -> SchedulerView {
        SchedulerView {
            budget: self.budget as nat,
            pending: job_views(self.pending@),
            ready: key_views(self.ready@),
            inflight: job_views(self.inflight@),
            intake_open: self.intake_open,
        }
    }
}

/// The numbers of the jobs that went in flight between two states.
pub open spec fn newly_started(before: SchedulerView, after: SchedulerView) -> Seq<u64> {
    after.inflight.skip(before.inflight.len() as int).map_values(|j: JobView| j.id)
}

impl Scheduler {
    /// A scheduler with in-flight budget `budget` (at least one) and no jobs.
    pub fn new(budget: usize) -> (r: Scheduler)
        ensures
            r@ == SchedulerView::fresh(budget),
            r@.wf(),
    {
        let budget: usize = if budget == 0 {
            1
        } else {
            budget
        };
        let r = Scheduler {
            budget,
            pending: Vec::new(),
            ready: Vec::new(),
            inflight: Vec::new(),
            intake_open: true,
        };
        assert(r@.pending =~= Seq::empty());
        assert(r@.ready =~= Seq::empty());
        assert(r@.inflight =~= Seq::empty());
        r
    }

    /// A job arrives and waits behind all others.
    fn enqueue(&mut self, job: Job)
        ensures
            final(self)@ == old(self)@.enqueue(job@),
    {
        let waiting: bool = find_key(&self.pending, &job.key).is_some();
        let active: bool = find_key(&self.inflight, &job.key).is_some();
        if !waiting && !job.key.is_serial() && !active {
            let ghost before = self.ready@;
            let key: ConflictKey = job.key.duplicate();
            self.ready.push(key);
            assert(key_views(self.ready@) =~= key_views(before).push(job@.key));
        }
        let ghost before = self.pending@;
        let ghost added = job@;
        self.pending.push(job);
        assert(job_views(self.pending@) =~= job_views(before).push(added));
    }

    /// The first waiting job with key `key` goes in flight; returns its number.
    fn start(&mut self, key: &ConflictKey) -> (r: Option<u64>)
        ensures
            final(self)@ == old(self)@.start(key@),
            final(self).budget == old(self).budget,
            final(self).ready == old(self).ready,
            old(self)@.has_pending(key@) <==> r is Some,
            r is None ==> final(self)@.inflight == old(self)@.inflight,
            r matches Some(id) ==> final(self)@.inflight.len() == old(self)@.inflight.len() + 1
                && final(self)@.inflight.last().id == id && final(self)@.inflight.drop_last()
                == old(self)@.inflight,
    {
        proof {
            lemma_first_with_key(self@.pending, key@);
        }
        match find_key(&self.pending, key) {
            None => None,
            Some(i) => {
                let ghost before = self.pending@;
                let ghost running = self.inflight@;
                let job: Job = self.pending.remove(i);
                let id: u64 = job.id;
                assert(job_views(self.pending@) =~= job_views(before).remove(i as int));
                assert(job@ == job_views(before)[i as int]);
                self.inflight.push(job);
                assert(job_views(self.inflight@) =~= job_views(running).push(
                    job_views(before)[i as int],
                ));
                assert(self@.inflight.drop_last() =~= old(self)@.inflight);
                Some(id)
            },
        }
    }

    /// Start as many startable jobs as budget and the barrier rule allow;
    /// returns their numbers in starting order.
    fn pump(&mut self) -> (r: Vec<u64>)
        requires
            old(self)@.wf(),
        ensures
            final(self)@ == old(self)@.pump(),
            final(self)@.wf(),
            r@ == newly_started(old(self)@, final(self)@),
            final(self)@.inflight.len() == old(self)@.inflight.len() + r@.len(),
    {
        let mut started: Vec<u64> = Vec::new();
        proof {
            pump_keeps_wf(self@);
        }
        let barrier: ConflictKey = ConflictKey::Serial;
        if find_key(&self.inflight, &barrier).is_some() {
            assert(newly_started(self@, self@) =~= started@);
            return started;
        }
        if find_key(&self.pending, &barrier).is_some() {
            if self.inflight.len() == 0 {
                assert(self@.inflight.len() == 0);
                match self.start(&barrier) {
                    Some(id) => {
                        started.push(id);
                        assert(newly_started(old(self)@, self@) =~= started@);
                    },
                    None => {},
                }
            } else {
                assert(newly_started(self@, self@) =~= started@);
            }
            return started;
        }
        let ghost base = self@.inflight.len();
        assert(newly_started(self@, self@) =~= started@);
        while self.inflight.len() < self.budget && self.ready.len() > 0
            invariant
                old(self)@.pump() == self@.fill(),
                old(self)@.inflight.len() == base,
                self@.inflight.len() == base + started@.len(),
                started@ == newly_started(old(self)@, self@),
            decreases self.ready@.len(),
        {
            let ghost before = self@;
            let ghost keys = self.ready@;
            let key: ConflictKey = self.ready.remove(0);
            assert(key_views(self.ready@) =~= key_views(keys).skip(1));
            assert(key@ == key_views(keys)[0]);
            let ghost mid = self@;
            assert(mid == SchedulerView { ready: before.ready.skip(1), ..before });
            match self.start(&key) {
                Some(id) => {
                    started.push(id);
                    assert(newly_started(old(self)@, self@) =~= newly_started(
                        old(self)@,
                        before,
                    ).push(id)) by {
                        assert(self@.inflight.drop_last() == before.inflight);
                        assert forall|i: int| 0 <= i < before.inflight.len() implies self@.inflight[i]
                            == before.inflight[i] by {
                            assert(self@.inflight.drop_last()[i] == self@.inflight[i]);
                        }
                    }
                },
                None => {},
            }
        }
        assert(self@.fill() == self@);
        started
    }

    /// Tell the scheduler that the in-flight job on this key completed; returns
    /// the jobs that start now.
    pub fn on_complete(&mut self, key: &ConflictKey) -> (r: Vec<u64>)
        requires
            old(self)@.wf(),
            old(self)@.is_active(key@),
        ensures
            final(self)@ == old(self)@.complete(key@),
            final(self)@.wf(),
            r@ == newly_started(old(self)@.retire(key@), final(self)@),
            r@.len() == final(self)@.inflight.len() - (old(self)@.inflight.len() - 1),
            forall|i: int|
                0 <= i < r@.len() ==> #[trigger] r@[i] == final(self)@.inflight[old(
                    self,
                )@.inflight.len() - 1 + i].id,
    {
        proof {
            retire_keeps_wf(self@, key@);
            lemma_first_with_key(self@.inflight, key@);
        }
        match find_key(&self.inflight, key) {
            Some(i) => {
                let ghost running = self.inflight@;
                let _ = self.inflight.remove(i);
                assert(job_views(self.inflight@) =~= job_views(running).remove(i as int));
            },
            None => {},
        }
        if find_key(&self.pending, key).is_some() && !key.is_serial() {
            let ghost keys = self.ready@;
            let again: ConflictKey = key.duplicate();
            self.ready.push(again);
            assert(key_views(self.ready@) =~= key_views(keys).push(key@));
        }
        assert(self@ == old(self)@.retire(key@));
        proof {
            starting_only_adds(self@);
        }
        self.pump()
    }

    /// A job arrives while intake is open; returns the jobs that start now.
    pub fn on_job(&mut self, job: Job) -> (r: Vec<u64>)
        requires
            old(self)@.wf(),
        ensures
            final(self)@ == old(self)@.enqueue(job@).pump(),
            final(self)@.wf(),
            r@ == newly_started(old(self)@.enqueue(job@), final(self)@),
            r@.len() == final(self)@.inflight.len() - old(self)@.inflight.len(),
            forall|i: int|
                0 <= i < r@.len() ==> #[trigger] r@[i] == final(self)@.inflight[old(
                    self,
                )@.inflight.len() + i].id,
    {
        proof {
            enqueue_keeps_wf(self@, job@);
            starting_only_adds(self@.enqueue(job@));
        }
        self.enqueue(job);
        self.pump()
    }

    /// Ordered shutdown: intake closes, every job that was already buffered
    /// joins the queues, and all of them are still going to run. Returns the
    /// jobs that start now.
    pub fn on_shutdown(&mut self, buffered: Vec<Job>) -> (r: Vec<u64>)
        requires
            old(self)@.wf(),
        ensures
            final(self)@ == (SchedulerView { intake_open: false, ..old(self)@ }).enqueue_all(
                job_views(buffered@),
            ).pump(),
            final(self)@.wf(),
            r@ == newly_started(
                (SchedulerView { intake_open: false, ..old(self)@ }).enqueue_all(
                    job_views(buffered@),
                ),
                final(self)@,
            ),
    {
        self.intake_open = false;
        let ghost base = self@;
        let ghost all = job_views(buffered@);
        let mut rest: Vec<Job> = buffered;
        let ghost mut done: int = 0;
        assert(base == SchedulerView { intake_open: false, ..old(self)@ });
        assert(base.wf()) by {
            lemma_wf_ignores_intake(old(self)@, false);
        }
        assert(all.take(0) =~= Seq::<JobView>::empty());
        assert(base.enqueue_all(Seq::<JobView>::empty()) == base);
        while rest.len() > 0
            invariant
                0 <= done <= all.len(),
                job_views(rest@) == all.skip(done),
                self@ == base.enqueue_all(all.take(done)),
                self@.wf(),
            decreases rest@.len(),
        {
            let ghost before = rest@;
            let job: Job = rest.remove(0);
            proof {
                assert(job@ == job_views(before)[0]);
                assert(job_views(before).len() == all.len() - done);
                assert(all.skip(done)[0] == all[done]);
                assert(job_views(rest@) =~= all.skip(done + 1)) by {
                    assert(job_views(rest@) =~= job_views(before).skip(1));
                    assert(all.skip(done).skip(1) =~= all.skip(done + 1));
                }
                assert(all.take(done + 1).drop_last() =~= all.take(done));
                assert(all.take(done + 1).last() == all[done]);
                enqueue_keeps_wf(self@, job@);
            }
            self.enqueue(job);
            proof {
                done = done + 1;
            }
        }
        assert(job_views(rest@).len() == 0);
        assert(all.take(done) =~= all);
        self.pump()
    }

    /// Every submitter disappeared without an ordered shutdown: work that has
    /// not started is rejected, and intake closes.
    pub fn on_intake_lost(&mut self)
        requires
            old(self)@.wf(),
        ensures
            final(self)@ == (SchedulerView { intake_open: false, ..old(self)@.drop_queued() }),
            final(self)@.wf(),
    {
        self.intake_open = false;
        self.pending = Vec::new();
        self.ready = Vec::new();
        assert(self@.pending =~= Seq::empty());
        assert(self@.ready =~= Seq::empty());
    }

    /// Whether the scheduler has nothing left to wait for.
    pub fn is_finished(&self) -> (r: bool)
        ensures
            r == (!self@.intake_open && self@.inflight.len() == 0),
    {
        !self.intake_open && self.inflight.len() == 0
    }

    /// Whether more jobs can arrive.
    pub fn takes_jobs(&self) -> (r: bool)
        ensures
            r == self@.intake_open,
    {
        self.intake_open
    }

    /// Number of jobs in flight.
    pub fn inflight_len(&self) -> (r: usize)
        ensures
            r == self@.inflight.len(),
    {
        self.inflight.len()
    }

    /// Number of admitted jobs that have not started.
    pub fn pending_len(&self) -> (r: usize)
        ensures
            r == self@.pending.len(),
    {
        self.pending.len()
    }

    /// How many jobs may be in flight at once.
    pub fn budget(&self) -> (r: usize)
        ensures
            r == self@.budget,
    {
        self.budget
    }
}

pub(crate) proof fn lemma_wf_ignores_intake(v: SchedulerView, open: bool)
    requires
        v.wf(),
    ensures
        (SchedulerView { intake_open: open, ..v }).wf(),
{
    let w = SchedulerView { intake_open: open, ..v };
    assert forall|k: ConflictKeyView|
        k != ConflictKeyView::Serial && #[trigger] w.has_pending(k) && !w.is_active(
            k,
        ) implies w.ready.contains(k) by {
        assert(v.has_pending(k));
        assert(!v.is_active(k));
    }
    assert forall|i: int| 0 <= i < w.ready.len() implies (#[trigger] w.ready[i])
        != ConflictKeyView::Serial && w.has_pending(w.ready[i]) && !w.is_active(w.ready[i]) by {
        assert(v.has_pending(v.ready[i]) && !v.is_active(v.ready[i]));
    }
    assert(w.is_active(ConflictKeyView::Serial) == v.is_active(ConflictKeyView::Serial));
}

proof fn lemma_holds_after_push(jobs: Seq<JobView>, job: JobView, k: ConflictKeyView)
    ensures
        holds_key(jobs.push(job), k) <==> holds_key(jobs, k) || job.key == k,
{
    let s = jobs.push(job);
    if holds_key(jobs, k) {
        let i = choose|i: int| 0 <= i < jobs.len() && #[trigger] jobs[i].key == k;
        assert(s[i].key == k);
    }
    if job.key == k {
        assert(s[jobs.len() as int].key == k);
    }
    if holds_key(s, k) {
        let i = choose|i: int| 0 <= i < s.len() && #[trigger] s[i].key == k;
        if i < jobs.len() {
            assert(jobs[i].key == k);
        }
    }
}

proof fn lemma_holds_after_remove(jobs: Seq<JobView>, at: int, k: ConflictKeyView)
    requires
        0 <= at < jobs.len(),
    ensures
        holds_key(jobs.remove(at), k) ==> holds_key(jobs, k),
        holds_key(jobs, k) && jobs[at].key != k ==> holds_key(jobs.remove(at), k),
{
    let s = jobs.remove(at);
    if holds_key(s, k) {
        let i = choose|i: int| 0 <= i < s.len() && #[trigger] s[i].key == k;
        if i < at {
            assert(jobs[i].key == k);
        } else {
            assert(jobs[i + 1].key == k);
        }
    }
    if holds_key(jobs, k) && jobs[at].key != k {
        let i = choose|i: int| 0 <= i < jobs.len() && #[trigger] jobs[i].key == k;
        if i < at {
            assert(s[i].key == k);
        } else {
            assert(s[i - 1].key == k);
        }
    }
}

/// A job's arrival keeps the invariant.
pub proof fn enqueue_keeps_wf(v: SchedulerView, job: JobView)
    requires
        v.wf(),
    ensures
        v.enqueue(job).wf(),
{
    let w = v.enqueue(job);
    assert forall|k: ConflictKeyView| #[trigger] w.has_pending(k) <==> v.has_pending(k) || job.key
        == k by {
        lemma_holds_after_push(v.pending, job, k);
    }
    assert forall|k: ConflictKeyView| #[trigger] w.is_active(k) == v.is_active(k) by {}
    assert forall|i: int| 0 <= i < w.ready.len() implies (#[trigger] w.ready[i])
        != ConflictKeyView::Serial && w.has_pending(w.ready[i]) && !w.is_active(w.ready[i]) by {
        if i < v.ready.len() {
            assert(w.ready[i] == v.ready[i]);
            assert(v.has_pending(v.ready[i]));
        }
    }
    assert forall|i: int, j: int| 0 <= i < j < w.ready.len() implies #[trigger] w.ready[i]
        != #[trigger] w.ready[j] by {
        assert(w.ready[i] == v.ready[i]);
        if j == v.ready.len() {
            assert(v.has_pending(v.ready[i]));
        }
    }
    assert forall|k: ConflictKeyView|
        k != ConflictKeyView::Serial && #[trigger] w.has_pending(k) && !w.is_active(
            k,
        ) implies w.ready.contains(k) by {
        if v.has_pending(k) {
            assert(v.ready.contains(k));
            let i = choose|i: int| 0 <= i < v.ready.len() && v.ready[i] == k;
            assert(w.ready[i] == k);
        } else {
            assert(w.ready[v.ready.len() as int] == k);
        }
    }
    assert(w.is_active(ConflictKeyView::Serial) == v.is_active(ConflictKeyView::Serial));
}

/// Completion keeps the invariant.
pub proof fn retire_keeps_wf(v: SchedulerView, k: ConflictKeyView)
    requires
        v.wf(),
        v.is_active(k),
    ensures
        v.retire(k).wf(),
        !v.retire(k).is_active(k),
{
    lemma_first_with_key(v.inflight, k);
    let at = first_with_key(v.inflight, k) as int;
    let w = v.retire(k);
    assert forall|q: ConflictKeyView| #[trigger] w.is_active(q) <==> v.is_active(q) && q != k by {
        lemma_holds_after_remove(v.inflight, at, q);
        if w.is_active(k) {
            let i = choose|i: int| 0 <= i < w.inflight.len() && #[trigger] w.inflight[i].key == k;
            if i < at {
                assert(v.inflight[i].key == k);
            } else {
                assert(v.inflight[i + 1].key == k);
                assert(v.inflight[at].key != v.inflight[i + 1].key);
            }
        }
    }
    assert forall|q: ConflictKeyView| #[trigger] w.has_pending(q) == v.has_pending(q) by {}
    assert forall|i: int, j: int| 0 <= i < j < w.inflight.len() implies #[trigger] w.inflight[i].key
        != #[trigger] w.inflight[j].key by {
        let a = if i < at {
            i
        } else {
            i + 1
        };
        let b = if j < at {
            j
        } else {
            j + 1
        };
        assert(v.inflight[a].key != v.inflight[b].key);
    }
    assert forall|i: int| 0 <= i < w.ready.len() implies (#[trigger] w.ready[i])
        != ConflictKeyView::Serial && w.has_pending(w.ready[i]) && !w.is_active(w.ready[i]) by {
        if i < v.ready.len() {
            assert(w.ready[i] == v.ready[i]);
            assert(!v.is_active(v.ready[i]));
            assert(v.has_pending(v.ready[i]));
        }
    }
    assert forall|i: int, j: int| 0 <= i < j < w.ready.len() implies #[trigger] w.ready[i]
        != #[trigger] w.ready[j] by {
        assert(w.ready[i] == v.ready[i]);
        assert(!v.is_active(v.ready[i]));
    }
    assert forall|q: ConflictKeyView|
        q != ConflictKeyView::Serial && #[trigger] w.has_pending(q) && !w.is_active(
            q,
        ) implies w.ready.contains(q) by {
        if q == k {
            assert(w.ready[v.ready.len() as int] == k);
        } else {
            assert(v.has_pending(q) && !v.is_active(q));
            assert(v.ready.contains(q));
            let i = choose|i: int| 0 <= i < v.ready.len() && v.ready[i] == q;
            assert(w.ready[i] == q);
        }
    }
}

/// Starting a ready key keeps the invariant.
proof fn lemma_start_ready_keeps_wf(v: SchedulerView)
    requires
        v.wf(),
        v.ready.len() > 0,
        v.inflight.len() < v.budget,
        !v.is_active(ConflictKeyView::Serial),
    ensures
        (SchedulerView { ready: v.ready.skip(1), ..v }).start(v.ready[0]).wf(),
        !(SchedulerView { ready: v.ready.skip(1), ..v }).start(v.ready[0]).is_active(
            ConflictKeyView::Serial,
        ),
{
    let k = v.ready[0];
    let m = SchedulerView { ready: v.ready.skip(1), ..v };
    let w = m.start(k);
    lemma_first_with_key(v.pending, k);
    let at = first_with_key(v.pending, k) as int;
    assert(v.has_pending(k));
    assert forall|q: ConflictKeyView| #[trigger] w.is_active(q) <==> v.is_active(q) || q == k by {
        lemma_holds_after_push(v.inflight, v.pending[at], q);
    }
    assert forall|q: ConflictKeyView| q != k implies #[trigger] w.has_pending(q) == v.has_pending(
        q,
    ) by {
        lemma_holds_after_remove(v.pending, at, q);
    }
    assert forall|i: int, j: int| 0 <= i < j < w.inflight.len() implies #[trigger] w.inflight[i].key
        != #[trigger] w.inflight[j].key by {
        assert(w.inflight[i] == v.inflight[i]);
        if j == v.inflight.len() {
            if v.inflight[i].key == k {
                assert(v.is_active(k));
            }
        } else {
            assert(w.inflight[j] == v.inflight[j]);
        }
    }
    assert forall|i: int| 0 <= i < w.ready.len() implies (#[trigger] w.ready[i])
        != ConflictKeyView::Serial && w.has_pending(w.ready[i]) && !w.is_active(w.ready[i]) by {
        assert(w.ready[i] == v.ready[i + 1]);
        assert(v.ready[0] != v.ready[i + 1]);
        assert(v.has_pending(v.ready[i + 1]));
        assert(!v.is_active(v.ready[i + 1]));
    }
    assert forall|i: int, j: int| 0 <= i < j < w.ready.len() implies #[trigger] w.ready[i]
        != #[trigger] w.ready[j] by {
        assert(v.ready[i + 1] != v.ready[j + 1]);
    }
    assert forall|q: ConflictKeyView|
        q != ConflictKeyView::Serial && #[trigger] w.has_pending(q) && !w.is_active(
            q,
        ) implies w.ready.contains(q) by {
        assert(q != k);
        assert(v.has_pending(q) && !v.is_active(q));
        assert(v.ready.contains(q));
        let i = choose|i: int| 0 <= i < v.ready.len() && v.ready[i] == q;
        assert(w.ready[i - 1] == q);
    }
}

proof fn lemma_fill_keeps_wf(v: SchedulerView)
    requires
        v.wf(),
        !v.is_active(ConflictKeyView::Serial),
    ensures
        v.fill().wf(),
        !v.fill().is_active(ConflictKeyView::Serial),
    decreases v.ready.len(),
{
    if v.inflight.len() < v.budget && v.ready.len() > 0 {
        lemma_start_ready_keeps_wf(v);
        lemma_fill_keeps_wf(
            (SchedulerView { ready: v.ready.skip(1), ..v }).start(v.ready[0]),
        );
    }
}

/// Starting jobs keeps the invariant: the budget holds, no key runs twice and a
/// barrier job runs alone.
pub proof fn pump_keeps_wf(v: SchedulerView)
    requires
        v.wf(),
    ensures
        v.pump().wf(),
{
    if !v.is_active(ConflictKeyView::Serial) {
        if v.has_pending(ConflictKeyView::Serial) {
            if v.inflight.len() == 0 {
                let k = ConflictKeyView::Serial;
                let w = v.start(k);
                lemma_first_with_key(v.pending, k);
                let at = first_with_key(v.pending, k) as int;
                assert forall|q: ConflictKeyView| #[trigger] w.is_active(q) <==> v.is_active(q) || q
                    == k by {
                    lemma_holds_after_push(v.inflight, v.pending[at], q);
                }
                assert forall|q: ConflictKeyView| q != k implies #[trigger] w.has_pending(q)
                    == v.has_pending(q) by {
                    lemma_holds_after_remove(v.pending, at, q);
                }
                assert forall|i: int| 0 <= i < w.ready.len() implies (#[trigger] w.ready[i])
                    != ConflictKeyView::Serial && w.has_pending(w.ready[i]) && !w.is_active(
                    w.ready[i],
                ) by {
                    assert(v.has_pending(v.ready[i]));
                    assert(!v.is_active(v.ready[i]));
                }
                assert forall|q: ConflictKeyView|
                    q != ConflictKeyView::Serial && #[trigger] w.has_pending(q) && !w.is_active(
                        q,
                    ) implies w.ready.contains(q) by {
                    assert(v.has_pending(q) && !v.is_active(q));
                }
            }
        } else {
            lemma_fill_keeps_wf(v);
        }
    }
}

// ── laws ─────────────────────────────────────────────────────────────────────

proof fn lemma_with_key_remove_first(jobs: Seq<JobView>, k: ConflictKeyView, q: ConflictKeyView)
    requires
        holds_key(jobs, k),
    ensures
        q != k ==> with_key(jobs.remove(first_with_key(jobs, k) as int), q) == with_key(jobs, q),
        with_key(jobs, k).len() > 0,
        with_key(jobs, k)[0] == jobs[first_with_key(jobs, k) as int].id,
        with_key(jobs.remove(first_with_key(jobs, k) as int), k) == with_key(jobs, k).skip(1),
    decreases jobs.len(),
{
    lemma_first_with_key(jobs, k);
    let at = first_with_key(jobs, k) as int;
    let init = jobs.drop_last();
    if at == jobs.len() - 1 {
        assert(jobs.remove(at) =~= init);
        assert(jobs.last() == jobs[at]);
        assert forall|j: int| 0 <= j < init.len() implies #[trigger] init[j].key != k by {
            assert(jobs[j].key != k);
        }
        lemma_with_key_none(init, k);
        assert(with_key(jobs, k) =~= seq![jobs[at].id]);
        assert(with_key(jobs, k).skip(1) =~= Seq::<u64>::empty());
    } else {
        assert(init[at] == jobs[at]);
        assert(holds_key(init, k));
        lemma_first_with_key(init, k);
        let f = first_with_key(init, k) as int;
        assert(f == at) by {
            assert(init[f].key == k);
            if f < at {
                assert(jobs[f].key != k);
                assert(init[f] == jobs[f]);
            }
            if f > at {
                assert(init[at].key != k);
            }
        }
        lemma_with_key_remove_first(init, k, q);
        let removed = jobs.remove(at);
        assert(removed.drop_last() =~= init.remove(at));
        assert(removed.last() == jobs.last());
        let w = with_key(init, k);
        if jobs.last().key == k {
            assert(w.push(jobs.last().id).skip(1) =~= w.skip(1).push(jobs.last().id));
        }
    }
}

proof fn lemma_with_key_none(jobs: Seq<JobView>, k: ConflictKeyView)
    requires
        forall|j: int| 0 <= j < jobs.len() ==> #[trigger] jobs[j].key != k,
    ensures
        with_key(jobs, k) == Seq::<u64>::empty(),
    decreases jobs.len(),
{
    if jobs.len() > 0 {
        let init = jobs.drop_last();
        assert forall|j: int| 0 <= j < init.len() implies #[trigger] init[j].key != k by {
            assert(jobs[j].key != k);
        }
        lemma_with_key_none(init, k);
        assert(jobs.last() == jobs[jobs.len() - 1]);
    }
}

/// Same-key FIFO: a job that arrives goes behind the waiting jobs of its key,
/// and no other key's line changes.
pub proof fn arrival_goes_to_the_back_of_its_line(
    v: SchedulerView,
    job: JobView,
    k: ConflictKeyView,
)
    ensures
        with_key(v.enqueue(job).pending, k) == (if job.key == k {
            with_key(v.pending, k).push(job.id)
        } else {
            with_key(v.pending, k)
        }),
{
    assert(v.pending.push(job).drop_last() =~= v.pending);
    assert(v.pending.push(job).last() == job);
}

/// Same-key FIFO: what starts on a key is the job at the front of that key's
/// line, and no other key's line changes.
pub proof fn front_of_the_line_starts(v: SchedulerView, k: ConflictKeyView, other: ConflictKeyView)
    requires
        v.has_pending(k),
        other != k,
    ensures
        with_key(v.pending, k).len() > 0,
        v.start(k).inflight == v.inflight.push(JobView { key: k, id: with_key(v.pending, k)[0] }),
        with_key(v.start(k).pending, k) == with_key(v.pending, k).skip(1),
        with_key(v.start(k).pending, other) == with_key(v.pending, other),
{
    lemma_first_with_key(v.pending, k);
    lemma_with_key_remove_first(v.pending, k, other);
}

proof fn lemma_fill_keeps_intake(v: SchedulerView)
    ensures
        v.fill().intake_open == v.intake_open,
    decreases v.ready.len(),
{
    if v.inflight.len() < v.budget && v.ready.len() > 0 {
        lemma_fill_keeps_intake(
            (SchedulerView { ready: v.ready.skip(1), ..v }).start(v.ready[0]),
        );
    }
}

/// Starting jobs neither opens nor closes intake.
pub proof fn pumping_keeps_intake(v: SchedulerView)
    ensures
        v.pump().intake_open == v.intake_open,
{
    lemma_fill_keeps_intake(v);
}

/// The jobs that the scheduler holds: those waiting and those in flight.
pub open spec fn held_jobs(v: SchedulerView) -> vstd::multiset::Multiset<JobView> {
    v.pending.to_multiset().add(v.inflight.to_multiset())
}

proof fn lemma_start_keeps_jobs(v: SchedulerView, k: ConflictKeyView)
    ensures
        held_jobs(v.start(k)) == held_jobs(v),
        v.start(k).pending.len() + v.start(k).inflight.len() == v.pending.len() + v.inflight.len(),
{
    broadcast use vstd::seq_lib::group_to_multiset_ensures;

    lemma_first_with_key(v.pending, k);
    let i = first_with_key(v.pending, k) as int;
    if i < v.pending.len() {
        let j = v.pending[i];
        assert(v.pending.remove(i).to_multiset() =~= v.pending.to_multiset().remove(j));
        assert(v.inflight.push(j).to_multiset() =~= v.inflight.to_multiset().insert(j));
        assert(v.pending.to_multiset().count(j) > 0);
        assert(held_jobs(v.start(k)) =~= held_jobs(v));
    }
}

proof fn lemma_fill_keeps_jobs(v: SchedulerView)
    ensures
        held_jobs(v.fill()) == held_jobs(v),
        v.fill().pending.len() + v.fill().inflight.len() == v.pending.len() + v.inflight.len(),
    decreases v.ready.len(),
{
    if v.inflight.len() < v.budget && v.ready.len() > 0 {
        let m = SchedulerView { ready: v.ready.skip(1), ..v };
        lemma_start_keeps_jobs(m, v.ready[0]);
        lemma_fill_keeps_jobs(m.start(v.ready[0]));
    }
}

/// No job is lost or duplicated: starting jobs only moves them from waiting to
/// in flight.
pub proof fn starting_moves_jobs_only(v: SchedulerView)
    ensures
        held_jobs(v.pump()) == held_jobs(v),
        v.pump().pending.len() + v.pump().inflight.len() == v.pending.len() + v.inflight.len(),
{
    lemma_start_keeps_jobs(v, ConflictKeyView::Serial);
    lemma_fill_keeps_jobs(v);
}

/// Arrival adds exactly the job that arrived.
pub proof fn arrival_adds_one_job(v: SchedulerView, job: JobView)
    ensures
        held_jobs(v.enqueue(job)) == held_jobs(v).insert(job),
{
    broadcast use vstd::seq_lib::group_to_multiset_ensures;

    assert(v.pending.push(job).to_multiset() =~= v.pending.to_multiset().insert(job));
    assert(held_jobs(v.enqueue(job)) =~= held_jobs(v).insert(job));
}

/// Completion removes exactly the completed key's in-flight job.
pub proof fn completion_removes_one_job(v: SchedulerView, k: ConflictKeyView)
    requires
        v.wf(),
        v.is_active(k),
    ensures
        v.inflight[first_with_key(v.inflight, k) as int].key == k,
        held_jobs(v.complete(k)) == held_jobs(v).remove(
            v.inflight[first_with_key(v.inflight, k) as int],
        ),
        v.complete(k).pending.len() + v.complete(k).inflight.len() + 1 == v.pending.len()
            + v.inflight.len(),
{
    broadcast use vstd::seq_lib::group_to_multiset_ensures;

    lemma_first_with_key(v.inflight, k);
    let i = first_with_key(v.inflight, k) as int;
    let j = v.inflight[i];
    let w = v.retire(k);
    assert(v.inflight.remove(i).to_multiset() =~= v.inflight.to_multiset().remove(j));
    assert(v.inflight.to_multiset().count(j) > 0);
    assert(held_jobs(w) =~= held_jobs(v).remove(j));
    starting_moves_jobs_only(w);
}

/// While a barrier job waits and something is in flight, nothing starts: the
/// barrier cannot starve.
pub proof fn waiting_barrier_blocks_new_starts(v: SchedulerView)
    requires
        v.has_pending(ConflictKeyView::Serial),
        v.inflight.len() > 0,
    ensures
        v.pump() == v,
{
}

/// A barrier job starts only when nothing else is in flight, and runs alone.
pub proof fn barrier_runs_alone(v: SchedulerView)
    requires
        v.wf(),
        v.pump().is_active(ConflictKeyView::Serial),
    ensures
        v.pump().inflight.len() == 1,
        v.is_active(ConflictKeyView::Serial) || v.inflight.len() == 0,
{
    pump_keeps_wf(v);
    if !v.is_active(ConflictKeyView::Serial) && !v.has_pending(ConflictKeyView::Serial) {
        lemma_fill_keeps_wf(v);
    }
}

proof fn lemma_fill_order(v: SchedulerView) -> (m: nat)
    requires
        v.wf(),
        !v.is_active(ConflictKeyView::Serial),
    ensures
        m <= v.ready.len(),
        v.fill().ready == v.ready.skip(m as int),
        v.fill().inflight.len() == v.inflight.len() + m,
        forall|i: int|
            0 <= i < v.inflight.len() ==> #[trigger] v.fill().inflight[i] == v.inflight[i],
        forall|i: int|
            0 <= i < m ==> (#[trigger] v.fill().inflight[v.inflight.len() + i]).key == v.ready[i],
        m == v.ready.len() || v.inflight.len() + m == v.budget,
        v.fill().budget == v.budget,
    decreases v.ready.len(),
{
    if v.inflight.len() < v.budget && v.ready.len() > 0 {
        let k = v.ready[0];
        let w = (SchedulerView { ready: v.ready.skip(1), ..v }).start(k);
        lemma_first_with_key(v.pending, k);
        assert(v.has_pending(k));
        lemma_start_ready_keeps_wf(v);
        let n = lemma_fill_order(w);
        assert(w.ready.skip(n as int) =~= v.ready.skip(n as int + 1));
        assert forall|i: int| 0 <= i < n + 1 implies (#[trigger] v.fill().inflight[v.inflight.len()
            + i]).key == v.ready[i] by {
            if i == 0 {
                assert(w.fill().inflight[v.inflight.len() as int] == w.inflight[v.inflight.len() as int]);
            } else {
                assert(w.fill().inflight[w.inflight.len() + (i - 1)].key == w.ready[i - 1]);
            }
        }
        assert forall|i: int| 0 <= i < v.inflight.len() implies #[trigger] v.fill().inflight[i]
            == v.inflight[i] by {
            assert(w.fill().inflight[i] == w.inflight[i]);
        }
        n + 1
    } else {
        assert(v.ready.skip(0) =~= v.ready);
        0
    }
}

/// Round-robin: where no barrier job is involved, ready keys start in the order
/// in which they became ready, as many as the budget has room for.
pub proof fn ready_keys_start_in_turn(v: SchedulerView)
    requires
        v.wf(),
        !v.is_active(ConflictKeyView::Serial),
        !v.has_pending(ConflictKeyView::Serial),
    ensures
        v.pump().inflight.len() == (if v.inflight.len() + v.ready.len() <= v.budget {
            v.inflight.len() + v.ready.len()
        } else {
            v.budget
        }),
        forall|i: int|
            0 <= i < v.pump().inflight.len() - v.inflight.len()
                ==> (#[trigger] v.pump().inflight[v.inflight.len() + i]).key == v.ready[i],
        v.pump().ready == v.ready.skip((v.pump().inflight.len() - v.inflight.len()) as int),
{
    let m = lemma_fill_order(v);
    lemma_fill_keeps_wf(v);
}

/// A key whose job completes while more of its jobs wait goes behind every
/// other ready key, so none can starve.
pub proof fn completed_key_waits_its_turn(v: SchedulerView, k: ConflictKeyView)
    requires
        v.wf(),
        v.is_active(k),
        k != ConflictKeyView::Serial,
    ensures
        v.retire(k).ready == (if v.has_pending(k) {
            v.ready.push(k)
        } else {
            v.ready
        }),
{
}

/// Nothing is left behind: once jobs were started, waiting work implies work in
/// flight, so a drain that runs until nothing is in flight has run everything.
pub proof fn idle_means_drained(v: SchedulerView)
    requires
        v.wf(),
        v.pump().inflight.len() == 0,
    ensures
        v.pump().pending.len() == 0,
{
    let w = v.pump();
    pump_keeps_wf(v);
    if w.pending.len() > 0 {
        let k = w.pending[0].key;
        assert(w.has_pending(k));
        if v.is_active(ConflictKeyView::Serial) {
            assert(v.inflight.len() == 1);
        } else if v.has_pending(ConflictKeyView::Serial) {
            lemma_first_with_key(v.pending, ConflictKeyView::Serial);
        } else {
            let m = lemma_fill_order(v);
            if k == ConflictKeyView::Serial {
                lemma_fill_serial(v);
            } else {
                assert(w.ready.contains(k));
            }
        }
    }
}

proof fn lemma_fill_serial(v: SchedulerView)
    requires
        !v.has_pending(ConflictKeyView::Serial),
    ensures
        !v.fill().has_pending(ConflictKeyView::Serial),
    decreases v.ready.len(),
{
    if v.inflight.len() < v.budget && v.ready.len() > 0 {
        let m = SchedulerView { ready: v.ready.skip(1), ..v };
        let k = v.ready[0];
        lemma_first_with_key(m.pending, k);
        let i = first_with_key(m.pending, k) as int;
        if i < m.pending.len() {
            lemma_holds_after_remove(m.pending, i, ConflictKeyView::Serial);
        }
        lemma_fill_serial(m.start(k));
    }
}

proof fn lemma_pump_order(v: SchedulerView)
    requires
        v.wf(),
    ensures
        v.inflight.len() <= v.pump().inflight.len(),
        forall|i: int|
            0 <= i < v.inflight.len() ==> #[trigger] v.pump().inflight[i] == v.inflight[i],
        v.pump().budget == v.budget,
{
    lemma_first_with_key(v.pending, ConflictKeyView::Serial);
    if !v.is_active(ConflictKeyView::Serial) && !v.has_pending(ConflictKeyView::Serial) {
        let m = lemma_fill_order(v);
    }
}

/// Starting jobs stops none: what is in flight stays in flight, in its place, and
/// the jobs that start come after it.
pub proof fn starting_only_adds(v: SchedulerView)
    requires
        v.wf(),
    ensures
        v.inflight.is_prefix_of(v.pump().inflight),
        v.pump().budget == v.budget,
        v.pump().intake_open == v.intake_open,
        newly_started(v, v.pump()).len() == v.pump().inflight.len() - v.inflight.len(),
        forall|i: int|
            0 <= i < newly_started(v, v.pump()).len() ==> #[trigger] newly_started(v, v.pump())[i]
                == v.pump().inflight[v.inflight.len() + i].id,
{
    lemma_pump_order(v);
    pumping_keeps_intake(v);
}

/// An arrival never overtakes: every key that was ready keeps its place, and a key
/// that becomes ready by the arrival stands behind all of them.
pub proof fn arrivals_never_overtake(v: SchedulerView, job: JobView)
    requires
        v.wf(),
    ensures
        v.ready.is_prefix_of(v.enqueue(job).ready),
        v.enqueue(job).ready.len() <= v.ready.len() + 1,
        v.enqueue(job).ready.len() == v.ready.len() + 1 ==> v.enqueue(job).ready.last() == job.key,
        v.pending.is_prefix_of(v.enqueue(job).pending),
        v.enqueue(job).pending.len() == v.pending.len() + 1,
        v.enqueue(job).pending.last() == job,
        v.enqueue(job).inflight == v.inflight,
        v.enqueue(job).budget == v.budget,
        v.enqueue(job).intake_open == v.intake_open,
{
}

/// A completion never overtakes either: the other ready keys keep their places,
/// and the key whose job completed comes last if it is ready again.
pub proof fn completions_never_overtake(v: SchedulerView, k: ConflictKeyView)
    requires
        v.wf(),
        v.is_active(k),
    ensures
        v.ready.is_prefix_of(v.retire(k).ready),
        v.retire(k).ready.len() <= v.ready.len() + 1,
        v.retire(k).ready.len() == v.ready.len() + 1 ==> v.retire(k).ready.last() == k,
        v.retire(k).pending == v.pending,
        v.retire(k).budget == v.budget,
        v.retire(k).intake_open == v.intake_open,
        v.retire(k).inflight.len() == v.inflight.len() - 1,
        forall|j: JobView|
            j.key != k ==> (v.retire(k).inflight.contains(j) <==> #[trigger] v.inflight.contains(j)),
{
    lemma_first_with_key(v.inflight, k);
    let at = first_with_key(v.inflight, k) as int;
    let w = v.retire(k).inflight;
    assert forall|j: JobView| j.key != k implies (w.contains(j)
        <==> #[trigger] v.inflight.contains(j)) by {
        if v.inflight.contains(j) {
            let i = choose|i: int| 0 <= i < v.inflight.len() && v.inflight[i] == j;
            assert(w[if i < at {
                i
            } else {
                i - 1
            }] == j);
        }
        if w.contains(j) {
            let i = choose|i: int| 0 <= i < w.len() && w[i] == j;
            assert(v.inflight[if i < at {
                i
            } else {
                i + 1
            }] == j);
        }
    }
}

/// Bounded waiting: when jobs start, a ready key either starts or moves forward by
/// exactly the number of jobs that start before it; while none starts it keeps its
/// place.
pub proof fn ready_keys_only_move_forward(v: SchedulerView, n: int)
    requires
        v.wf(),
        0 <= n < v.ready.len(),
    ensures
        ({
            let started = v.pump().inflight.len() - v.inflight.len();
            let barrier = v.is_active(ConflictKeyView::Serial) || v.has_pending(
                ConflictKeyView::Serial,
            );
            if barrier {
                v.pump().ready == v.ready
            } else if n < started {
                v.pump().is_active(v.ready[n])
            } else {
                v.pump().ready[n - started] == v.ready[n] && n - started < v.pump().ready.len()
            }
        }),
{
    if !v.is_active(ConflictKeyView::Serial) && !v.has_pending(ConflictKeyView::Serial) {
        ready_keys_start_in_turn(v);
        let started = v.pump().inflight.len() - v.inflight.len();
        if n < started {
            assert(v.pump().inflight[v.inflight.len() + n].key == v.ready[n]);
        }
    } else {
        lemma_first_with_key(v.pending, ConflictKeyView::Serial);
    }
}

/// No key starves: whatever job arrives or completes, a ready key starts or comes
/// no further back in line than it was, and every start of another key in that
/// step brings it one place forward. A key at place `n` therefore starts after at
/// most `n` other starts, once no barrier is in the way.
pub proof fn no_ready_key_starves(
    v: SchedulerView,
    n: int,
    job: JobView,
    done: ConflictKeyView,
)
    requires
        v.wf(),
        0 <= n < v.ready.len(),
    ensures
        v.enqueue(job).ready[n] == v.ready[n],
        v.enqueue(job).pump().is_active(v.ready[n]) || exists|m: int|
            0 <= m <= n && m < v.enqueue(job).pump().ready.len() && #[trigger] v.enqueue(
                job,
            ).pump().ready[m] == v.ready[n],
        v.is_active(done) ==> (v.complete(done).is_active(v.ready[n]) || exists|m: int|
            0 <= m <= n && m < v.complete(done).ready.len() && #[trigger] v.complete(done).ready[m]
                == v.ready[n]),
{
    let k = v.ready[n];
    enqueue_keeps_wf(v, job);
    arrivals_never_overtake(v, job);
    let a = v.enqueue(job);
    assert(a.ready[n] == k);
    ready_keys_only_move_forward(a, n);
    starting_only_adds(a);
    let started = a.pump().inflight.len() - a.inflight.len();
    if !a.pump().is_active(k) {
        let m = if a.is_active(ConflictKeyView::Serial) || a.has_pending(ConflictKeyView::Serial) {
            n
        } else {
            n - started
        };
        assert(a.pump().ready[m] == k);
    }
    if v.is_active(done) {
        retire_keeps_wf(v, done);
        completions_never_overtake(v, done);
        let c = v.retire(done);
        assert(c.ready[n] == k);
        ready_keys_only_move_forward(c, n);
        starting_only_adds(c);
        let started = c.pump().inflight.len() - c.inflight.len();
        if !c.pump().is_active(k) {
            let m = if c.is_active(ConflictKeyView::Serial) || c.has_pending(
                ConflictKeyView::Serial,
            ) {
                n
            } else {
                n - started
            };
            assert(c.pump().ready[m] == k);
        }
    }
}

/// A barrier starts as soon as nothing is in flight, before any ready key, and in
/// the order in which barriers arrived; while it runs nothing starts.
pub proof fn barriers_start_once_idle(v: SchedulerView)
    requires
        v.wf(),
    ensures
        v.has_pending(ConflictKeyView::Serial) && v.inflight.len() == 0 ==> {
            &&& v.pump().inflight.len() == 1
            &&& v.pump().inflight[0].key == ConflictKeyView::Serial
            &&& with_key(v.pending, ConflictKeyView::Serial).len() > 0
            &&& v.pump().inflight[0].id == with_key(v.pending, ConflictKeyView::Serial)[0]
            &&& v.pump().ready == v.ready
        },
        v.is_active(ConflictKeyView::Serial) ==> v.pump().inflight == v.inflight
            && v.pump().pending == v.pending,
{
    let k = ConflictKeyView::Serial;
    if v.has_pending(k) && v.inflight.len() == 0 {
        let other = ConflictKeyView::Scoped { domain: Seq::empty(), value: Seq::empty() };
        front_of_the_line_starts(v, k, other);
        if v.is_active(k) {
            assert(v.inflight.len() == 1);
        }
    }
}

/// Work is never held back without a reason: after jobs were started, a scoped key
/// with waiting work and none in flight is waiting for the budget or for a barrier.
pub proof fn idle_capacity_is_used(v: SchedulerView, k: ConflictKeyView)
    requires
        v.wf(),
        v.pump().has_pending(k),
        !v.pump().is_active(k),
        k != ConflictKeyView::Serial,
    ensures
        v.pump().inflight.len() == v.budget || v.pump().is_active(ConflictKeyView::Serial)
            || v.pump().has_pending(ConflictKeyView::Serial),
{
    pump_keeps_wf(v);
    if !v.is_active(ConflictKeyView::Serial) && !v.has_pending(ConflictKeyView::Serial) {
        ready_keys_start_in_turn(v);
        assert(v.pump().ready.contains(k));
    } else if v.has_pending(ConflictKeyView::Serial) && v.inflight.len() == 0 {
        barriers_start_once_idle(v);
        assert(v.pump().inflight[0].key == ConflictKeyView::Serial);
    }
}

/// Jobs that were buffered when shutdown was asked for join behind the others, in
/// order on every key, and none is lost.
pub proof fn buffered_jobs_join_in_order(
    v: SchedulerView,
    jobs: Seq<JobView>,
    k: ConflictKeyView,
)
    ensures
        with_key(v.enqueue_all(jobs).pending, k) == with_key(v.pending, k) + with_key(jobs, k),
        v.enqueue_all(jobs).pending == v.pending + jobs,
        v.enqueue_all(jobs).inflight == v.inflight,
        v.enqueue_all(jobs).budget == v.budget,
        v.enqueue_all(jobs).intake_open == v.intake_open,
    decreases jobs.len(),
{
    if jobs.len() > 0 {
        let init = jobs.drop_last();
        buffered_jobs_join_in_order(v, init, k);
        arrival_goes_to_the_back_of_its_line(v.enqueue_all(init), jobs.last(), k);
        assert(with_key(v.enqueue_all(jobs).pending, k) =~= with_key(v.pending, k) + with_key(
            jobs,
            k,
        ));
        assert(v.enqueue_all(jobs).pending =~= v.pending + jobs);
    } else {
        assert(with_key(v.pending, k) + with_key(jobs, k) =~= with_key(v.pending, k));
        assert(v.pending + jobs =~= v.pending);
    }
}

/// The lines of a key list exactly its jobs, in order.
pub proof fn lines_list_their_jobs(jobs: Seq<JobView>, k: ConflictKeyView, id: u64)
    ensures
        with_key(jobs, k).contains(id) <==> jobs.contains(JobView { key: k, id }),
    decreases jobs.len(),
{
    let j = JobView { key: k, id };
    if jobs.len() > 0 {
        let init = jobs.drop_last();
        lines_list_their_jobs(init, k, id);
        if jobs.contains(j) {
            let i = choose|i: int| 0 <= i < jobs.len() && jobs[i] == j;
            if i < init.len() {
                assert(init[i] == j);
                let at = choose|at: int|
                    0 <= at < with_key(init, k).len() && with_key(init, k)[at] == id;
                assert(with_key(jobs, k)[at] == id);
            } else {
                assert(with_key(jobs, k).last() == id);
            }
        }
        if with_key(jobs, k).contains(id) {
            let at = choose|at: int| 0 <= at < with_key(jobs, k).len() && with_key(jobs, k)[at]
                == id;
            if jobs.last().key == k && at == with_key(init, k).len() {
                assert(jobs[jobs.len() - 1] == j);
            } else {
                assert(with_key(init, k)[at] == id);
                let i = choose|i: int| 0 <= i < init.len() && init[i] == j;
                assert(jobs[i] == j);
            }
        }
    }
}

/// The budget and the queue bound are those that were asked for, and never below
/// what lets work go on: at least one job may run, and every job that may run has
/// a slot.
pub proof fn bounds_are_those_asked_for(budget: usize, queue_cap: usize)
    ensures
        SchedulerView::fresh(budget).budget >= 1,
        budget >= 1 ==> SchedulerView::fresh(budget).budget == budget,
        SchedulerView::fresh(budget).wf(),
        SchedulerView::fresh(budget).intake_open,
        SchedulerView::fresh(budget).pending.len() == 0,
        SchedulerView::fresh(budget).inflight.len() == 0,
        effective_cap(budget, queue_cap) >= SchedulerView::fresh(budget).budget,
        effective_cap(budget, queue_cap) >= queue_cap,
        effective_cap(budget, queue_cap) == queue_cap || effective_cap(budget, queue_cap)
            == SchedulerView::fresh(budget).budget,
{
}

/// Losing every submitter drops what has not started and nothing else.
pub proof fn lost_intake_keeps_what_runs(v: SchedulerView)
    requires
        v.wf(),
    ensures
        v.drop_queued().inflight == v.inflight,
        v.drop_queued().pending.len() == 0,
        v.drop_queued().ready.len() == 0,
        v.drop_queued().budget == v.budget,
{
}

// ── admission ────────────────────────────────────────────────────────────────

/// What becomes of a submission.
#[derive(Debug, Clone, Copy, PartialEq, Eq, Structural)]
pub enum Admit {
    /// The job holds a queue slot and may be enqueued.
    Admitted,
    /// The queue is full: the submitter waits for a slot (back-pressure).
    Wait,
    /// Intake is closed.
    Terminated,
}

/// Bounded admission: every job holds a slot from submission to completion, and
/// submitters that find no slot wait in line.
#[derive(Debug)]
pub struct Admission {
    cap: usize,
    used: usize,
    waiting: usize,
    intake: Intake,
}

/// Whether submissions are accepted.
#[derive(Debug, Clone, Copy, PartialEq, Eq, Structural)]
pub enum Intake {
    /// Submissions are accepted.
    Open,
    /// Shutdown was asked for: submitters in line are still admitted, later ones
    /// are not.
    Closing,
    /// Nothing is admitted any more.
    Closed,
}

/// Contents of an [`Admission`].
pub struct AdmissionView {
    /// Total number of slots.
    pub cap: nat,
    /// Slots that jobs hold.
    pub used: nat,
    /// Submitters in line for a slot.
    pub waiting: nat,
    pub intake: Intake,
}

/// The queue capacity that a requested capacity and budget give: at least one
/// slot, and at least one for every job that may be in flight.
pub open spec fn effective_cap(budget: usize, queue_cap: usize) -> usize {
    let budget = if budget == 0 {
        1
    } else {
        budget
    };
    if queue_cap < budget {
        budget
    } else {
        queue_cap
    }
}

impl View for Admission {
    type V = AdmissionView;

    closed spec fn view(&self) -> AdmissionView {
        AdmissionView {
            cap: self.cap as nat,
            used: self.used as nat,
            waiting: self.waiting as nat,
            intake: self.intake,
        }
    }
}

impl AdmissionView {
    /// Slots are not overcommitted, submitters wait only while every slot is
    /// taken, a shutdown waits only for submitters in line, and nobody waits
    /// once intake is closed.
    pub open spec fn wf(self) -> bool {
        &&& self.used <= self.cap
        &&& self.cap >= 1
        &&& self.waiting > 0 ==> self.used == self.cap
        &&& self.intake == Intake::Closing ==> self.waiting > 0
        &&& self.intake == Intake::Closed ==> self.waiting == 0
    }

    /// Intake once a submitter has left the line.
    pub open spec fn line_shortened(self) -> AdmissionView {
        AdmissionView {
            waiting: (self.waiting - 1) as nat,
            intake: if self.waiting == 1 && self.intake == Intake::Closing {
                Intake::Closed
            } else {
                self.intake
            },
            ..self
        }
    }

    /// What a new submission leads to.
    pub open spec fn submit(self) -> (AdmissionView, Admit) {
        if self.intake != Intake::Open {
            (self, Admit::Terminated)
        } else if self.used < self.cap {
            (AdmissionView { used: self.used + 1, ..self }, Admit::Admitted)
        } else {
            (AdmissionView { waiting: self.waiting + 1, ..self }, Admit::Wait)
        }
    }

    /// A job gives its slot back: the first submitter in line takes it over.
    pub open spec fn release(self) -> AdmissionView {
        if self.waiting > 0 {
            self.line_shortened()
        } else {
            AdmissionView { used: (self.used - 1) as nat, ..self }
        }
    }

    /// Shutdown is asked for.
    pub open spec fn close(self) -> AdmissionView {
        AdmissionView {
            intake: if self.waiting > 0 {
                Intake::Closing
            } else {
                Intake::Closed
            },
            ..self
        }
    }
}

impl Admission {
    #[verifier::type_invariant]
    spec fn well_formed(self) -> bool {
        self@.wf()
    }

    /// Open admission with the effective capacity and no slot in use.
    pub fn new(budget: usize, queue_cap: usize) -> (r: Admission)
        ensures
            r@ == (AdmissionView {
                cap: effective_cap(budget, queue_cap) as nat,
                used: 0,
                waiting: 0,
                intake: Intake::Open,
            }),
            r@.wf(),
    {
        let budget: usize = if budget == 0 {
            1
        } else {
            budget
        };
        let cap: usize = if queue_cap < budget {
            budget
        } else {
            queue_cap
        };
        Admission { cap, used: 0, waiting: 0, intake: Intake::Open }
    }

    /// Submit one job: it takes a slot, waits in line for one, or is refused
    /// with [`scheduler_terminated`].
    pub fn submit(&mut self) -> (r: Admit)
        requires
            old(self)@.waiting < usize::MAX,
        ensures
            final(self)@ == old(self)@.submit().0,
            r == old(self)@.submit().1,
            final(self)@.wf(),
    {
        proof {
            use_type_invariant(&*self);
        }
        match self.intake {
            Intake::Open => {},
            _ => return Admit::Terminated,
        }
        if self.used < self.cap {
            *self = Admission {
                cap: self.cap,
                used: self.used + 1,
                waiting: self.waiting,
                intake: self.intake,
            };
            Admit::Admitted
        } else {
            *self = Admission {
                cap: self.cap,
                used: self.used,
                waiting: self.waiting + 1,
                intake: self.intake,
            };
            Admit::Wait
        }
    }

    fn shorten_line(&mut self)
        requires
            old(self)@.wf(),
            old(self)@.waiting > 0,
        ensures
            final(self)@ == old(self)@.line_shortened(),
    {
        let intake: Intake = match self.intake {
            Intake::Closing => if self.waiting == 1 {
                Intake::Closed
            } else {
                Intake::Closing
            },
            other => other,
        };
        *self = Admission {
            cap: self.cap,
            used: self.used,
            waiting: self.waiting - 1,
            intake,
        };
    }

    /// A job completed and gives its slot back. True if the first submitter in
    /// line is admitted with it.
    pub fn release(&mut self) -> (r: bool)
        requires
            old(self)@.used > 0,
        ensures
            final(self)@ == old(self)@.release(),
            r == (old(self)@.waiting > 0),
            final(self)@.wf(),
    {
        proof {
            use_type_invariant(&*self);
        }
        if self.waiting > 0 {
            self.shorten_line();
            true
        } else {
            *self = Admission {
                cap: self.cap,
                used: self.used - 1,
                waiting: self.waiting,
                intake: self.intake,
            };
            false
        }
    }

    /// A submitter in line gave up.
    pub fn withdraw(&mut self)
        requires
            old(self)@.waiting > 0,
        ensures
            final(self)@ == old(self)@.line_shortened(),
            final(self)@.wf(),
    {
        proof {
            use_type_invariant(&*self);
        }
        self.shorten_line();
    }

    /// Close intake. Slots that are held stay held; submitters already in line
    /// are still admitted, and intake is closed once the last of them is. True
    /// if intake is closed at once.
    pub fn close(&mut self) -> (r: bool)
        ensures
            final(self)@ == old(self)@.close(),
            r == (final(self)@.intake == Intake::Closed),
            final(self)@.wf(),
    {
        proof {
            use_type_invariant(&*self);
        }
        let intake: Intake = if self.waiting > 0 {
            Intake::Closing
        } else {
            Intake::Closed
        };
        *self = Admission { cap: self.cap, used: self.used, waiting: self.waiting, intake };
        self.waiting == 0
    }

    /// Whether nothing is admitted any more.
    pub fn is_closed(&self) -> (r: bool)
        ensures
            r == (self@.intake == Intake::Closed),
    {
        match self.intake {
            Intake::Closed => true,
            _ => false,
        }
    }
}

/// Admission never holds more jobs than it has slots.
pub proof fn slots_are_never_overcommitted(v: AdmissionView)
    requires
        v.wf(),
    ensures
        v.submit().0.wf(),
        v.submit().0.used <= v.cap,
        v.used > 0 ==> v.release().wf() && v.release().used <= v.cap,
        v.close().wf(),
{
}

/// A shutdown refuses every later submission at once, and still admits every
/// submitter that was in line before it: each completed job admits one of them,
/// and intake is closed only when none is left.
pub proof fn shutdown_admits_waiting_submitters(v: AdmissionView)
    requires
        v.wf(),
        v.waiting > 0,
    ensures
        v.close().submit() == (v.close(), Admit::Terminated),
        v.close().release().used == v.used,
        v.close().release().waiting == v.waiting - 1,
        v.close().release().intake == Intake::Closed <==> v.waiting == 1,
{
}

/// A free slot is given to whoever asks while intake is open, a full house makes
/// the submitter wait, and closed intake refuses; nothing else decides.
pub proof fn admission_depends_on_slots_and_intake(v: AdmissionView)
    requires
        v.wf(),
    ensures
        v.submit().1 == Admit::Admitted <==> v.intake == Intake::Open && v.used < v.cap,
        v.submit().1 == Admit::Wait <==> v.intake == Intake::Open && v.used == v.cap,
        v.submit().1 == Admit::Terminated <==> v.intake != Intake::Open,
        v.submit().1 == Admit::Admitted ==> v.submit().0.used == v.used + 1
            && v.submit().0.waiting == v.waiting,
        v.submit().1 == Admit::Wait ==> v.submit().0.waiting == v.waiting + 1
            && v.submit().0.used == v.used,
        v.submit().1 == Admit::Terminated ==> v.submit().0 == v,
        v.submit().0.cap == v.cap,
        v.submit().0.intake == v.intake,
{
}

/// A slot that is given back goes to the line first: as long as anybody waits, as
/// many slots stay in use, and one submitter fewer waits.
pub proof fn slots_go_to_the_line_first(v: AdmissionView)
    requires
        v.wf(),
        v.used > 0,
    ensures
        v.waiting > 0 ==> v.release().used == v.used && v.release().waiting == v.waiting - 1,
        v.waiting == 0 ==> v.release().used == v.used - 1 && v.release().waiting == 0
            && v.release().intake == v.intake,
        v.release().cap == v.cap,
        v.intake == Intake::Open ==> v.release().intake == Intake::Open,
        v.release().intake == Intake::Open ==> v.intake == Intake::Open,
        v.close().cap == v.cap,
        v.close().used == v.used,
        v.close().waiting == v.waiting,
        v.close().intake == Intake::Closed <==> v.waiting == 0,
        v.close().intake != Intake::Open,
{
}

/// A slot that is taken and given back is free again.
pub proof fn release_undoes_admission(v: AdmissionView)
    requires
        v.wf(),
        v.submit().1 == Admit::Admitted,
    ensures
        v.submit().0.release() == v,
{
}

/// Error surfaced to a submitter when the scheduler is gone before its job
/// could complete.
pub fn scheduler_terminated() -> (r: ActrError)
    ensures
        r@ == ActrErrorView::Unavailable("dispatch scheduler terminated"@),
{
    ActrError::Unavailable("dispatch scheduler terminated".to_owned())
}

} // verus!
