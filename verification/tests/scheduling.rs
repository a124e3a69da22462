//! Conflict-key scheduling, admission and the command runner.

use actr_hyper::conflict_key::ConflictKey;
use actr_hyper::dispatch::{DispatchQueue, Submission};
use actr_hyper::executor::{
    guarded, received, runner_terminated, NextWork, Runner, RunnerMode, Submitted, Work, WorkKind,
    RUNNER_QUEUE_CAPACITY,
};
use actr_hyper::lifecycle::LifecyclePhase;
use actr_hyper::protocol::ActrError;
use actr_hyper::scheduler::{scheduler_terminated, Admission, Admit, Job, Scheduler};
use bytes::Bytes;

fn scoped(domain: &str, value: &[u8]) -> ConflictKey {
    ConflictKey::Scoped {
        domain: domain.to_string(),
        value: Bytes::copy_from_slice(value),
    }
}

fn job(id: u64, key: ConflictKey) -> Job {
    Job { key, id }
}

// ── scheduler ────────────────────────────────────────────────────────────────

#[test]
fn same_key_is_strict_fifo() {
    let mut sched = Scheduler::new(8);
    let key = scoped("d", b"same");
    assert_eq!(sched.on_job(job(1, key.duplicate())), vec![1]);
    assert_eq!(
        sched.on_job(job(2, key.duplicate())),
        Vec::<u64>::new(),
        "the second job must not start until the first completes"
    );
    assert_eq!(sched.on_complete(&key), vec![2]);
    assert_eq!(sched.on_complete(&key), Vec::<u64>::new());
    assert_eq!(sched.inflight_len(), 0);
    assert_eq!(sched.pending_len(), 0);
}

#[test]
fn distinct_keys_interleave() {
    let mut sched = Scheduler::new(8);
    assert_eq!(sched.on_job(job(1, scoped("d", b"a"))), vec![1]);
    assert_eq!(sched.on_job(job(2, scoped("d", b"b"))), vec![2]);
    assert_eq!(sched.inflight_len(), 2);
    // The second completes while the first still runs.
    assert_eq!(sched.on_complete(&scoped("d", b"b")), Vec::<u64>::new());
    assert_eq!(sched.inflight_len(), 1);
    assert_eq!(sched.on_complete(&scoped("d", b"a")), Vec::<u64>::new());
    assert_eq!(sched.inflight_len(), 0);
}

#[test]
fn budget_caps_in_flight() {
    let mut sched = Scheduler::new(2);
    assert_eq!(sched.budget(), 2);
    assert_eq!(sched.on_job(job(1, scoped("d", b"k1"))), vec![1]);
    assert_eq!(sched.on_job(job(2, scoped("d", b"k2"))), vec![2]);
    assert_eq!(
        sched.on_job(job(3, scoped("d", b"k3"))),
        Vec::<u64>::new(),
        "a budget of two must hold the third job"
    );
    assert_eq!(sched.on_complete(&scoped("d", b"k1")), vec![3]);
}

#[test]
fn serial_key_is_a_global_barrier() {
    let mut sched = Scheduler::new(8);
    assert_eq!(sched.on_job(job(1, scoped("d", b"x"))), vec![1]);
    assert_eq!(
        sched.on_job(job(2, ConflictKey::Serial)),
        Vec::<u64>::new(),
        "serial must wait for the scoped job in flight"
    );
    assert_eq!(
        sched.on_job(job(3, scoped("d", b"y"))),
        Vec::<u64>::new(),
        "a waiting serial job blocks new scoped starts"
    );
    // The scoped job drains, and the serial job runs alone.
    assert_eq!(sched.on_complete(&scoped("d", b"x")), vec![2]);
    assert_eq!(sched.inflight_len(), 1);
    // After the barrier, the queued scoped job runs.
    assert_eq!(sched.on_complete(&ConflictKey::Serial), vec![3]);
}

#[test]
fn queue_cap_applies_back_pressure() {
    let mut admission = Admission::new(2, 2);
    assert_eq!(admission.submit(), Admit::Admitted);
    assert_eq!(admission.submit(), Admit::Admitted);
    assert_eq!(
        admission.submit(),
        Admit::Wait,
        "submit must wait when the queue is full"
    );
    assert!(
        admission.release(),
        "a completed job admits the waiting submitter"
    );
    assert!(!admission.release());
    assert_eq!(admission.submit(), Admit::Admitted);
}

#[test]
fn shutdown_admits_a_preexisting_submit_blocked_on_queue_capacity() {
    let mut sched = Scheduler::new(1);
    let mut admission = Admission::new(1, 1);
    assert_eq!(admission.submit(), Admit::Admitted);
    assert_eq!(sched.on_job(job(1, scoped("d", b"first"))), vec![1]);
    assert_eq!(admission.submit(), Admit::Wait);
    assert!(
        !admission.close(),
        "shutdown must wait for the submitter in line"
    );
    assert!(!admission.is_closed());
    // The first job completes and its slot goes to the waiting submitter.
    assert_eq!(sched.on_complete(&scoped("d", b"first")), Vec::<u64>::new());
    assert!(admission.release());
    assert_eq!(sched.on_job(job(2, scoped("d", b"second"))), vec![2]);
    assert!(admission.is_closed());
    assert_eq!(sched.on_shutdown(Vec::new()), Vec::<u64>::new());
    assert!(!sched.is_finished());
    assert_eq!(sched.on_complete(&scoped("d", b"second")), Vec::<u64>::new());
    assert!(sched.is_finished());
}

#[test]
fn shutdown_drains_every_admitted_job() {
    let mut sched = Scheduler::new(8);
    let mut admission = Admission::new(8, 64);
    for _ in 0..4 {
        assert_eq!(admission.submit(), Admit::Admitted);
    }
    assert_eq!(sched.on_job(job(1, scoped("d", b"A"))), vec![1]);
    assert_eq!(sched.on_job(job(2, scoped("d", b"A"))), Vec::<u64>::new());
    assert_eq!(sched.on_job(job(3, scoped("d", b"B"))), vec![3]);
    assert!(admission.close());
    // The last job was admitted but still on its way when intake closed.
    assert_eq!(
        sched.on_shutdown(vec![job(4, scoped("d", b"B"))]),
        Vec::<u64>::new()
    );
    assert_eq!(sched.on_complete(&scoped("d", b"A")), vec![2]);
    assert_eq!(sched.on_complete(&scoped("d", b"B")), vec![4]);
    assert!(!sched.is_finished());
    assert_eq!(sched.on_complete(&scoped("d", b"A")), Vec::<u64>::new());
    assert_eq!(sched.on_complete(&scoped("d", b"B")), Vec::<u64>::new());
    assert!(sched.is_finished());
    // Work submitted after shutdown is rejected.
    assert_eq!(admission.submit(), Admit::Terminated);
    assert!(matches!(scheduler_terminated(), ActrError::Unavailable(_)));
}

#[test]
fn losing_the_intake_drops_what_is_queued() {
    let mut sched = Scheduler::new(1);
    assert_eq!(sched.on_job(job(1, scoped("d", b"a"))), vec![1]);
    assert_eq!(sched.on_job(job(2, scoped("d", b"b"))), Vec::<u64>::new());
    sched.on_intake_lost();
    assert_eq!(sched.pending_len(), 0);
    assert_eq!(sched.on_complete(&scoped("d", b"a")), Vec::<u64>::new());
    assert!(sched.is_finished());
}

#[test]
fn a_completed_key_waits_its_turn() {
    // Two jobs of one key and one of another share a single slot: the other key
    // was ready first and goes before the second job of the first key.
    let mut sched = Scheduler::new(1);
    assert_eq!(sched.on_job(job(1, scoped("d", b"a"))), vec![1]);
    assert_eq!(sched.on_job(job(2, scoped("d", b"a"))), Vec::<u64>::new());
    assert_eq!(sched.on_job(job(3, scoped("d", b"b"))), Vec::<u64>::new());
    assert_eq!(sched.on_complete(&scoped("d", b"a")), vec![3]);
    assert_eq!(sched.on_complete(&scoped("d", b"b")), vec![2]);
}

#[test]
fn zero_budget_counts_as_one() {
    let sched = Scheduler::new(0);
    assert_eq!(sched.budget(), 1);
    let mut admission = Admission::new(0, 0);
    assert_eq!(admission.submit(), Admit::Admitted);
    assert_eq!(admission.submit(), Admit::Wait);
    admission.withdraw();
    assert!(admission.close());
}

// ── runner ───────────────────────────────────────────────────────────────────

fn on_start(id: u64) -> Work {
    Work {
        id,
        kind: WorkKind::Lifecycle(LifecyclePhase::OnStart),
    }
}

fn dispatch(id: u64) -> Work {
    Work {
        id,
        kind: WorkKind::Dispatch,
    }
}

fn next(runner: &mut Runner) -> NextWork {
    let (step, dropped) = runner.next_work();
    assert!(dropped.is_empty());
    step
}

#[test]
fn strict_serial_across_concurrent_submissions() {
    let mut runner = Runner::new(RunnerMode::Serial);
    for id in 0..8u64 {
        assert_eq!(runner.submit(on_start(id)), Submitted::Accepted);
    }
    for expected in 0..8u64 {
        assert_eq!(next(&mut runner), NextWork::Start(on_start(expected)));
        assert_eq!(
            next(&mut runner),
            NextWork::Wait,
            "runner must never run two bodies at once"
        );
        assert_eq!(runner.running_len(), 1);
        assert!(runner.completed(expected, false).is_empty());
    }
    assert_eq!(runner.running_len(), 0);
}

#[test]
fn mixed_cmd_kinds_serialize() {
    let mut runner = Runner::new(RunnerMode::Serial);
    let works = [dispatch(0), on_start(1), on_start(2)];
    for work in works {
        assert_eq!(runner.submit(work), Submitted::Accepted);
    }
    for work in works {
        assert_eq!(next(&mut runner), NextWork::Start(work));
        assert_eq!(next(&mut runner), NextWork::Wait);
        assert_eq!(runner.running_len(), 1);
        runner.completed(work.id, false);
    }
}

#[test]
fn shutdown_cmd_exits_cleanly_and_rejects_new_work() {
    let mut runner = Runner::new(RunnerMode::Serial);
    let stop = Work {
        id: 9,
        kind: WorkKind::Shutdown,
    };
    assert_eq!(runner.submit(stop), Submitted::Accepted);
    assert_eq!(next(&mut runner), NextWork::ShutDown(9));
    assert!(runner.is_terminated());
    assert_eq!(runner.submit(on_start(1)), Submitted::Terminated);
    let err = received::<()>(None).unwrap_err();
    assert!(matches!(err, ActrError::Unavailable(_)), "got {err:?}");
    assert_eq!(err, runner_terminated());
}

#[test]
fn drop_all_handles_closes_runner_without_orphan() {
    let mut runner = Runner::new(RunnerMode::Serial);
    runner.close();
    assert_eq!(next(&mut runner), NextWork::Finished);
    assert!(runner.is_terminated());
}

#[test]
fn queued_cmds_after_shutdown_get_no_reply() {
    let mut runner = Runner::new(RunnerMode::Serial);
    runner.submit(on_start(1));
    assert_eq!(next(&mut runner), NextWork::Start(on_start(1)));
    runner.submit(Work {
        id: 2,
        kind: WorkKind::Shutdown,
    });
    runner.submit(on_start(3));
    assert!(runner.completed(1, false).is_empty());
    let (step, dropped) = runner.next_work();
    assert_eq!(step, NextWork::ShutDown(2));
    assert_eq!(
        dropped,
        vec![3],
        "a command queued behind shutdown must get no reply"
    );
}

#[test]
fn abort_and_join_drops_a_stuck_runner() {
    let mut runner = Runner::new(RunnerMode::Serial);
    runner.submit(on_start(1));
    runner.submit(on_start(2));
    assert_eq!(next(&mut runner), NextWork::Start(on_start(1)));
    assert_eq!(runner.abort(), vec![1, 2]);
    assert!(runner.is_terminated());
    assert_eq!(next(&mut runner), NextWork::Wait);
}

#[test]
fn queued_command_with_canceled_reply_is_skipped() {
    let mut runner = Runner::new(RunnerMode::Serial);
    runner.submit(dispatch(1));
    assert_eq!(next(&mut runner), NextWork::Start(dispatch(1)));
    runner.submit(dispatch(2));
    assert!(runner.cancel(2).is_empty());
    runner.completed(1, false);
    runner.submit(dispatch(3));
    assert_eq!(
        next(&mut runner),
        NextWork::Start(dispatch(3)),
        "the canceled queued command must not enter guest code"
    );
}

#[test]
fn canceling_a_running_command_poisons_the_runner() {
    let mut runner = Runner::new(RunnerMode::Serial);
    runner.submit(dispatch(1));
    runner.submit(dispatch(2));
    assert_eq!(next(&mut runner), NextWork::Start(dispatch(1)));
    assert_eq!(runner.cancel(1), vec![2]);
    assert!(runner.is_terminated());
    assert_eq!(
        runner.submit(on_start(3)),
        Submitted::Terminated,
        "poisoned runner must reject later commands"
    );
}

#[test]
fn interleaved_dispatches_run_concurrently() {
    let mut runner = Runner::new(RunnerMode::Interleaved);
    runner.submit(dispatch(1));
    runner.submit(dispatch(2));
    assert_eq!(next(&mut runner), NextWork::Start(dispatch(1)));
    assert_eq!(next(&mut runner), NextWork::Start(dispatch(2)));
    assert_eq!(
        runner.running_len(),
        2,
        "interleaved mode must run two dispatches concurrently"
    );
    assert!(runner.completed(2, false).is_empty());
    assert!(runner.completed(1, false).is_empty());
}

#[test]
fn native_dispatch_timeout_poisons_and_terminates_runner() {
    let mut runner = Runner::new(RunnerMode::Interleaved);
    runner.submit(dispatch(1));
    runner.submit(dispatch(2));
    next(&mut runner);
    next(&mut runner);
    let (reply, dropped) = runner.timed_out(1);
    assert_eq!(reply, ActrError::TimedOut);
    assert_eq!(
        dropped,
        vec![2],
        "the sibling must be canceled when the poisoned runner exits"
    );
    assert!(runner.is_terminated());
    assert_eq!(runner.submit(on_start(3)), Submitted::Terminated);
}

#[test]
fn interleaved_lifecycle_is_a_barrier() {
    let mut runner = Runner::new(RunnerMode::Interleaved);
    runner.submit(dispatch(0));
    assert_eq!(next(&mut runner), NextWork::Start(dispatch(0)));
    runner.submit(on_start(1));
    runner.submit(dispatch(2));
    assert_eq!(
        next(&mut runner),
        NextWork::Wait,
        "lifecycle must wait for the dispatch in flight"
    );
    runner.completed(0, false);
    assert_eq!(next(&mut runner), NextWork::Start(on_start(1)));
    assert_eq!(next(&mut runner), NextWork::Wait, "barrier runs alone");
    assert_eq!(runner.running_len(), 1);
    runner.completed(1, false);
    assert_eq!(next(&mut runner), NextWork::Start(dispatch(2)));
}

#[test]
fn interleaved_panic_terminates_runner_and_fails_other_work() {
    let mut runner = Runner::new(RunnerMode::Interleaved);
    runner.submit(dispatch(1));
    runner.submit(dispatch(2));
    next(&mut runner);
    next(&mut runner);
    runner.submit(on_start(3));
    let boom = guarded::<()>(
        WorkKind::Dispatch,
        Err("intentional dispatch panic".to_string()),
    );
    assert_eq!(
        boom,
        Err(ActrError::Internal(
            "dispatch panicked: intentional dispatch panic".to_string()
        ))
    );
    assert_eq!(
        runner.completed(1, true),
        vec![2, 3],
        "the sibling and the queued barrier must lose their replies"
    );
    assert_eq!(runner.submit(on_start(4)), Submitted::Terminated);
}

#[test]
fn interleaved_lifecycle_panic_terminates_runner() {
    let mut runner = Runner::new(RunnerMode::Interleaved);
    runner.submit(on_start(1));
    assert_eq!(next(&mut runner), NextWork::Start(on_start(1)));
    let result = guarded::<()>(
        WorkKind::Lifecycle(LifecyclePhase::OnStart),
        Err("intentional lifecycle panic".to_string()),
    );
    assert!(matches!(result, Err(ActrError::Internal(_))));
    assert!(runner.completed(1, true).is_empty());
    assert_eq!(runner.submit(on_start(2)), Submitted::Terminated);
}

#[test]
fn a_serial_runner_survives_a_panic() {
    let mut runner = Runner::new(RunnerMode::Serial);
    runner.submit(dispatch(1));
    runner.submit(dispatch(2));
    next(&mut runner);
    assert!(runner.completed(1, true).is_empty());
    assert_eq!(next(&mut runner), NextWork::Start(dispatch(2)));
}

#[test]
fn a_full_queue_makes_the_sender_wait() {
    let mut runner = Runner::new(RunnerMode::Serial);
    for id in 0..RUNNER_QUEUE_CAPACITY as u64 {
        assert_eq!(runner.submit(dispatch(id)), Submitted::Accepted);
    }
    assert_eq!(runner.submit(dispatch(999)), Submitted::Full);
    next(&mut runner);
    assert_eq!(runner.submit(dispatch(999)), Submitted::Accepted);
}

#[test]
fn panic_texts_name_the_command() {
    for (kind, label) in [
        (WorkKind::Dispatch, "dispatch"),
        (WorkKind::DataStream, "data_stream"),
        (WorkKind::Hook, "hook"),
        (WorkKind::Lifecycle(LifecyclePhase::OnReady), "on_ready"),
        (WorkKind::Lifecycle(LifecyclePhase::OnStop), "on_stop"),
    ] {
        assert_eq!(
            guarded::<u8>(kind, Err("x".to_string())),
            Err(ActrError::Internal(format!("{label} panicked: x")))
        );
    }
    assert_eq!(guarded(WorkKind::Hook, Ok(Ok(7u8))), Ok(7));
}

// ── the dispatch queue ───────────────────────────────────────────────────────

fn submit(queue: &mut DispatchQueue, id: u64, value: &[u8]) -> Submission {
    queue.submit(Job {
        key: scoped("d", value),
        id,
    })
}

#[test]
fn the_line_is_served_in_order_and_may_be_left() {
    let mut queue = DispatchQueue::new(1, 1);
    assert!(matches!(submit(&mut queue, 0, b"a"), Submission::Admitted(s) if s == [0]));
    for id in 1..4 {
        assert!(matches!(submit(&mut queue, id, b"b"), Submission::Waiting));
    }
    assert_eq!(queue.withdraw(1), Some(vec![]));
    assert_eq!(queue.withdraw(1), None);
    let turn = queue.complete(&scoped("d", b"a"));
    assert_eq!((turn.admitted, turn.started), (Some(2), vec![2]));
    let turn = queue.complete(&scoped("d", b"b"));
    assert_eq!((turn.admitted, turn.started), (Some(3), vec![3]));
    let turn = queue.complete(&scoped("d", b"b"));
    assert_eq!((turn.admitted, turn.started), (None, vec![]));
}

#[test]
fn a_shutdown_serves_the_line_and_refuses_the_rest() {
    let mut queue = DispatchQueue::new(1, 1);
    submit(&mut queue, 0, b"a");
    submit(&mut queue, 1, b"a");
    assert!(queue.shutdown().is_empty());
    assert!(!queue.is_finished());
    match submit(&mut queue, 2, b"a") {
        Submission::Refused(e) => assert_eq!(e, scheduler_terminated()),
        other => panic!("unexpected submission {other:?}"),
    }
    assert_eq!(queue.complete(&scoped("d", b"a")).started, [1]);
    assert!(!queue.is_finished());
    assert!(queue.complete(&scoped("d", b"a")).started.is_empty());
    assert!(queue.is_finished());
}

#[test]
fn an_abandoned_queue_only_finishes_what_runs() {
    let mut queue = DispatchQueue::new(1, 2);
    submit(&mut queue, 0, b"a");
    submit(&mut queue, 1, b"a");
    submit(&mut queue, 2, b"a");
    queue.abandon();
    assert!(!queue.is_finished());
    assert!(queue.complete(&scoped("d", b"a")).started.is_empty());
    assert!(queue.is_finished());
}

#[test]
fn a_shutdown_drains_everything_that_was_taken() {
    let mut queue = DispatchQueue::new(2, 3);
    let keys: [&[u8]; 5] = [b"a", b"a", b"b", b"c", b"c"];
    let mut running: Vec<u64> = Vec::new();
    for (id, key) in keys.iter().enumerate() {
        if let Submission::Admitted(started) = submit(&mut queue, id as u64, key) {
            running.extend(started);
        }
    }
    running.extend(queue.shutdown());
    let mut done = Vec::new();
    while !running.is_empty() {
        assert!(!queue.is_finished());
        let id = running.remove(0);
        done.push(id);
        running.extend(queue.complete(&scoped("d", keys[id as usize])).started);
    }
    assert!(queue.is_finished());
    done.sort();
    assert_eq!(done, [0, 1, 2, 3, 4]);
}
