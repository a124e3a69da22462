//! Drivers that wire a workload to its runner, its scheduler and its observers,
//! for callers that exercise the dispatch path without a whole node.
use crate::conflict_key;
use crate::conflict_key::{ConflictKey, ConflictKeySpec};
use crate::dispatch::{DispatchQueue, QueueView, Submission, Turn};
use crate::dynclib::DynclibInstance;
use crate::executor::{Runner, RunnerMode, RunnerView, Submitted, Work, WorkKind};
use crate::hooks::{
    BackpressureEvent, CredentialEvent, PackageHookEvent, PeerEvent, WallTime, WebRtcPeerStatus,
};
use crate::pack::manifest::{BinaryKind, PackageManifest};
use crate::pack::verify::VerifiedPackage;
use crate::protocol::{ActrError, ActrErrorView, ActrId};
use crate::scheduler::{Admit, Job, JobView};
use crate::text;
use crate::text::{cat, cat3, decimal};
use crate::time::Interval;
use crate::wasm::host::{InstanceView, SerialInstance};
use vstd::prelude::*;
use vstd::string::*;

verus! {

/// An observation hook event, by what distinguishes it.
#[derive(Debug)]
pub enum TestPackageHookEvent {
    SignalingConnecting,
    SignalingConnected,
    SignalingDisconnected,
    WebSocketConnecting { peer: ActrId },
    WebSocketConnected { peer: ActrId },
    WebSocketDisconnected { peer: ActrId },
    WebRtcConnecting { peer: ActrId },
    WebRtcConnected { peer: ActrId, relayed: bool },
    WebRtcDisconnected { peer: ActrId, status: WebRtcPeerStatus },
    CredentialRenewed { new_expiry: WallTime },
    CredentialExpiring { new_expiry: WallTime },
    MailboxBackpressure { queue_len: usize, threshold: usize },
}

/// The event that a workload observes: only peer-to-peer events carry a
/// connection status, and only an established one says whether it is relayed.
pub open spec fn observed(event: TestPackageHookEvent) -> PackageHookEvent {
    match event {
        TestPackageHookEvent::SignalingConnecting => PackageHookEvent::SignalingConnecting,
        TestPackageHookEvent::SignalingConnected => PackageHookEvent::SignalingConnected,
        TestPackageHookEvent::SignalingDisconnected => PackageHookEvent::SignalingDisconnected,
        TestPackageHookEvent::WebSocketConnecting { peer } => PackageHookEvent::WebSocketConnecting(
            PeerEvent { peer, relayed: None, status: None },
        ),
        TestPackageHookEvent::WebSocketConnected { peer } => PackageHookEvent::WebSocketConnected(
            PeerEvent { peer, relayed: None, status: None },
        ),
        TestPackageHookEvent::WebSocketDisconnected { peer } => PackageHookEvent::WebSocketDisconnected(
            PeerEvent { peer, relayed: None, status: None },
        ),
        TestPackageHookEvent::WebRtcConnecting { peer } => PackageHookEvent::WebRtcConnecting(
            PeerEvent { peer, relayed: None, status: Some(WebRtcPeerStatus::Connecting) },
        ),
        TestPackageHookEvent::WebRtcConnected { peer, relayed } => PackageHookEvent::WebRtcConnected(
            PeerEvent { peer, relayed: Some(relayed), status: Some(WebRtcPeerStatus::Connected) },
        ),
        TestPackageHookEvent::WebRtcDisconnected { peer, status } => PackageHookEvent::WebRtcDisconnected(
            PeerEvent { peer, relayed: None, status: Some(status) },
        ),
        TestPackageHookEvent::CredentialRenewed { new_expiry } => PackageHookEvent::CredentialRenewed(
            CredentialEvent { new_expiry },
        ),
        TestPackageHookEvent::CredentialExpiring { new_expiry } => PackageHookEvent::CredentialExpiring(
            CredentialEvent { new_expiry },
        ),
        TestPackageHookEvent::MailboxBackpressure {
            queue_len,
            threshold,
        } => PackageHookEvent::MailboxBackpressure(BackpressureEvent { queue_len, threshold }),
    }
}

impl From<TestPackageHookEvent> for PackageHookEvent {
    fn from(event: TestPackageHookEvent) -> (r: PackageHookEvent) {
        match event {
            TestPackageHookEvent::SignalingConnecting => PackageHookEvent::SignalingConnecting,
            TestPackageHookEvent::SignalingConnected => PackageHookEvent::SignalingConnected,
            TestPackageHookEvent::SignalingDisconnected => PackageHookEvent::SignalingDisconnected,
            TestPackageHookEvent::WebSocketConnecting { peer } => PackageHookEvent::WebSocketConnecting(
                PeerEvent { peer, relayed: None, status: None },
            ),
            TestPackageHookEvent::WebSocketConnected { peer } => PackageHookEvent::WebSocketConnected(
                PeerEvent { peer, relayed: None, status: None },
            ),
            TestPackageHookEvent::WebSocketDisconnected { peer } => PackageHookEvent::WebSocketDisconnected(
                PeerEvent { peer, relayed: None, status: None },
            ),
            TestPackageHookEvent::WebRtcConnecting { peer } => PackageHookEvent::WebRtcConnecting(
                PeerEvent { peer, relayed: None, status: Some(WebRtcPeerStatus::Connecting) },
            ),
            TestPackageHookEvent::WebRtcConnected { peer, relayed } => PackageHookEvent::WebRtcConnected(
                PeerEvent { peer, relayed: Some(relayed), status: Some(WebRtcPeerStatus::Connected) },
            ),
            TestPackageHookEvent::WebRtcDisconnected { peer, status } => PackageHookEvent::WebRtcDisconnected(
                PeerEvent { peer, relayed: None, status: Some(status) },
            ),
            TestPackageHookEvent::CredentialRenewed { new_expiry } => PackageHookEvent::CredentialRenewed(
                CredentialEvent { new_expiry },
            ),
            TestPackageHookEvent::CredentialExpiring { new_expiry } => PackageHookEvent::CredentialExpiring(
                CredentialEvent { new_expiry },
            ),
            TestPackageHookEvent::MailboxBackpressure {
                queue_len,
                threshold,
            } => PackageHookEvent::MailboxBackpressure(BackpressureEvent { queue_len, threshold }),
        }
    }
}

impl vstd::std_specs::convert::FromSpecImpl<TestPackageHookEvent> for PackageHookEvent {
    open spec fn obeys_from_spec() -> bool {
        true
    }

    open spec fn from_spec(event: TestPackageHookEvent) -> PackageHookEvent {
        observed(event)
    }
}

/// The workload that a runner owns.
#[derive(Debug)]
pub enum OwnedWorkload {
    Wasm(SerialInstance),
    DynClib(DynclibInstance),
}

/// Brings observation hooks to a workload through its runner.
#[derive(Debug)]
pub struct TestPackageHookObserver {
    workload: OwnedWorkload,
    runner: Runner,
    next_id: u64,
}

impl TestPackageHookObserver {
    /// State of the workload's runner.
    pub closed spec fn runner(self) -> RunnerView {
        self.runner@
    }

    /// The workload that observes.
    pub closed spec fn workload(self) -> OwnedWorkload {
        self.workload
    }

    /// The number that the next hook goes by.
    pub closed spec fn next_id(self) -> u64 {
        self.next_id
    }

    fn from_workload(workload: OwnedWorkload) -> (r: TestPackageHookObserver)
        ensures
            r.workload() == workload,
            r.runner() == idle_runner(RunnerMode::Serial),
            r.next_id() == 0,
    {
        TestPackageHookObserver { workload, runner: Runner::new(RunnerMode::Serial), next_id: 0 }
    }

    /// Hand an event to the workload's runner. Gives the event that the workload
    /// observes, and what became of it.
    pub fn call(&mut self, event: TestPackageHookEvent) -> (r: (PackageHookEvent, Submitted))
        requires
            old(self).runner().wf(),
            !old(self).runner().closed,
        ensures
            r.0 == observed(event),
            final(self).workload() == old(self).workload(),
            final(self).runner().wf(),
            final(self).next_id() == crate::wasm::limits::bumped(old(self).next_id()),
            if old(self).runner().terminated {
                r.1 == Submitted::Terminated && final(self).runner() == old(self).runner()
            } else if old(self).runner().queue.len() >= crate::executor::RUNNER_QUEUE_CAPACITY {
                r.1 == Submitted::Full && final(self).runner() == old(self).runner()
            } else {
                &&& r.1 == Submitted::Accepted
                &&& final(self).runner() == (RunnerView {
                    queue: old(self).runner().queue.push(
                        crate::executor::Queued {
                            work: Work { id: old(self).next_id(), kind: WorkKind::Hook },
                            abandoned: false,
                        },
                    ),
                    ..old(self).runner()
                })
            },
    {
        let id: u64 = self.next_id;
        self.next_id = self.next_id.wrapping_add(1);
        let submitted: Submitted = self.runner.submit(Work { id, kind: WorkKind::Hook });
        (PackageHookEvent::from(event), submitted)
    }
}

/// A runner with nothing to do.
pub open spec fn idle_runner(mode: RunnerMode) -> RunnerView {
    RunnerView {
        mode,
        queue: Seq::empty(),
        running: Seq::empty(),
        closed: false,
        terminated: false,
    }
}

/// Waits for the result of a request that another copy of it already runs.
#[derive(Debug)]
pub struct TestDedupWaiter {
    result: Option<Result<Vec<u8>, ActrError>>,
}

impl TestDedupWaiter {
    /// The result, once it is known.
    pub closed spec fn result(self) -> Option<Result<Vec<u8>, ActrError>> {
        self.result
    }

    /// A waiter for a request that still runs.
    pub fn new() -> (r: TestDedupWaiter)
        ensures
            r.result() is None,
    {
        TestDedupWaiter { result: None }
    }

    /// The request completed.
    pub fn changed(&mut self, result: Result<Vec<u8>, ActrError>)
        ensures
            final(self).result() == Some(result),
    {
        self.result = Some(result);
    }

    /// What the waiter learns now: the result if it is known, that there will be
    /// none if whoever ran the request is gone, and nothing yet otherwise.
    pub fn wait(self, runner_gone: bool) -> (r: Result<Result<Vec<u8>, ActrError>, TestDedupWaiter>)
        ensures
            match self.result() {
                Some(result) => r == Ok::<
                    Result<Vec<u8>, ActrError>,
                    TestDedupWaiter,
                >(result),
                None => if runner_gone {
                    r matches Ok(Err(e)) && e@ == ActrErrorView::Unavailable(
                        "duplicate request result unavailable"@,
                    )
                } else {
                    r matches Err(waiter) && waiter == self
                },
            },
    {
        match self.result {
            Some(result) => Ok(result),
            None => if runner_gone {
                Ok(
                    Err(
                        ActrError::Unavailable("duplicate request result unavailable".to_owned()),
                    ),
                )
            } else {
                Err(TestDedupWaiter { result: None })
            },
        }
    }

    /// What the waiter reports when the result did not come in time.
    pub fn wait_timeout(self, timeout_ms: u64) -> (r: Result<Vec<u8>, ActrError>)
        ensures
            match self.result() {
                Some(result) => r == result,
                None => r matches Err(e) && e@ == ActrErrorView::Unavailable(
                    "duplicate request in-flight timed out after "@ + text::decimal_text(
                        timeout_ms as nat,
                    ) + "ms"@,
                ),
            },
    {
        match self.result {
            Some(result) => result,
            None => {
                let shown: String = decimal(timeout_ms);
                Err(
                    ActrError::Unavailable(
                        cat3(
                            "duplicate request in-flight timed out after ",
                            shown.as_str(),
                            "ms",
                        ),
                    ),
                )
            },
        }
    }
}

/// A workload behind its command runner.
#[derive(Debug)]
pub struct TestWorkloadRunner {
    workload: OwnedWorkload,
    runner: Runner,
    dispatch_timeout: Option<Interval>,
}

impl TestWorkloadRunner {
    /// State of the runner.
    pub closed spec fn runner(self) -> RunnerView {
        self.runner@
    }

    /// The workload that the runner owns.
    pub closed spec fn workload(self) -> OwnedWorkload {
        self.workload
    }

    /// How long a dispatch may take, where that is set.
    pub closed spec fn dispatch_timeout(self) -> Option<Interval> {
        self.dispatch_timeout
    }

    fn spawn(
        workload: OwnedWorkload,
        mode: RunnerMode,
        dispatch_timeout: Option<Interval>,
    ) -> (r: TestWorkloadRunner)
        ensures
            r.workload() == workload,
            r.runner() == idle_runner(mode),
            r.runner().wf(),
            r.dispatch_timeout() == dispatch_timeout,
    {
        TestWorkloadRunner { workload, runner: Runner::new(mode), dispatch_timeout }
    }

    /// The workload and its runner.
    pub fn into_parts(self) -> (r: (OwnedWorkload, Runner))
        ensures
            r.0 == self.workload(),
            r.1@ == self.runner(),
    {
        (self.workload, self.runner)
    }
}

/// A request that was numbered and submitted.
#[derive(Debug)]
pub struct Dispatched {
    pub request_id: String,
    /// The key under which the request is scheduled.
    pub key: ConflictKey,
    pub submission: Submission,
}

/// Whether a submission is what becomes of a job in a queue.
pub open spec fn submitted(queue: QueueView, job: JobView, r: Submission) -> bool {
    match queue.admission.submit().1 {
        Admit::Admitted => r matches Submission::Admitted(started) && started@ == queue.join(job).1,
        Admit::Wait => r is Waiting,
        Admit::Terminated => r matches Submission::Refused(e) && e@ == ActrErrorView::Unavailable(
            "dispatch scheduler terminated"@,
        ),
    }
}

/// A workload behind a conflict-key scheduler and an interleaved runner.
#[derive(Debug)]
pub struct TestConcurrentDispatcher {
    runner: TestWorkloadRunner,
    queue: DispatchQueue,
    spec: ConflictKeySpec,
    next_request_id: u64,
}

impl TestConcurrentDispatcher {
    /// The workload behind the runner.
    pub closed spec fn workload(self) -> OwnedWorkload {
        self.runner.workload()
    }

    /// State of the runner behind the scheduler.
    pub closed spec fn runner(self) -> RunnerView {
        self.runner.runner()
    }

    /// How long a dispatch may take, where that is set.
    pub closed spec fn dispatch_timeout(self) -> Option<Interval> {
        self.runner.dispatch_timeout()
    }

    /// State of the dispatch queue.
    pub closed spec fn queue(self) -> QueueView {
        self.queue@
    }

    /// The declared conflict keys.
    pub closed spec fn spec_view(self) -> <ConflictKeySpec as View>::V {
        self.spec@
    }

    /// The number of the next request.
    pub closed spec fn next_request(self) -> u64 {
        self.next_request_id
    }

    /// Number a request, project it to its conflict key and submit it under that
    /// key, as the job with its number.
    pub fn dispatch(&mut self, route_key: &str, payload: &[u8], caller_id: Option<&ActrId>) -> (r:
        Dispatched)
        requires
            old(self).queue().wf(),
            old(self).queue().line.len() < usize::MAX,
        ensures
            r.request_id@ == "concurrent-req-"@ + text::decimal_text(
                old(self).next_request() as nat,
            ),
            ({
                let job = JobView {
                    key: conflict_key::projected_key(
                        old(self).spec_view(),
                        route_key@,
                        conflict_key::caller_view(caller_id),
                        payload@,
                    ),
                    id: old(self).next_request(),
                };
                &&& final(self).queue() == old(self).queue().submit(job)
                &&& r.key@ == job.key
                &&& submitted(old(self).queue(), job, r.submission)
            }),
            final(self).queue().wf(),
            final(self).next_request() == crate::wasm::limits::bumped(old(self).next_request()),
            final(self).spec_view() == old(self).spec_view(),
            final(self).runner() == old(self).runner(),
            final(self).workload() == old(self).workload(),
            final(self).dispatch_timeout() == old(self).dispatch_timeout(),
    {
        let id: u64 = self.next_request_id;
        let shown: String = decimal(id);
        self.next_request_id = id.wrapping_add(1);
        let key: ConflictKey = self.spec.extract(route_key, caller_id, payload);
        Dispatched {
            request_id: cat("concurrent-req-", shown.as_str()),
            key: key.duplicate(),
            submission: self.queue.submit(Job { key, id }),
        }
    }

    /// The request in flight on this key completed.
    pub fn complete(&mut self, key: &ConflictKey) -> (r: Turn)
        requires
            old(self).queue().wf(),
            old(self).queue().scheduler.is_active(key@),
        ensures
            final(self).queue() == old(self).queue().complete(key@).0,
            final(self).queue().wf(),
            r.started@ == old(self).queue().complete(key@).1,
            r.admitted == old(self).queue().next_in_line(),
            final(self).next_request() == old(self).next_request(),
            final(self).spec_view() == old(self).spec_view(),
            final(self).runner() == old(self).runner(),
            final(self).workload() == old(self).workload(),
            final(self).dispatch_timeout() == old(self).dispatch_timeout(),
    {
        self.queue.complete(key)
    }

    /// Close intake; returns the requests that start now.
    pub fn shutdown(&mut self) -> (r: Vec<u64>)
        requires
            old(self).queue().wf(),
        ensures
            final(self).queue() == old(self).queue().shutdown().0,
            final(self).queue().wf(),
            r@ == old(self).queue().shutdown().1,
            final(self).next_request() == old(self).next_request(),
            final(self).spec_view() == old(self).spec_view(),
            final(self).runner() == old(self).runner(),
            final(self).workload() == old(self).workload(),
            final(self).dispatch_timeout() == old(self).dispatch_timeout(),
    {
        self.queue.shutdown()
    }
}

/// A workload behind a serial runner and no scheduler: requests carry no
/// conflict key.
#[derive(Debug)]
pub struct TestSerialDispatcher {
    runner: TestWorkloadRunner,
    next_request_id: u64,
}

impl TestSerialDispatcher {
    /// The workload behind the runner.
    pub closed spec fn workload(self) -> OwnedWorkload {
        self.runner.workload()
    }

    /// State of the runner.
    pub closed spec fn runner(self) -> RunnerView {
        self.runner.runner()
    }

    /// The number of the next request.
    pub closed spec fn next_request(self) -> u64 {
        self.next_request_id
    }

    /// Number a request.
    pub fn number_request(&mut self) -> (r: String)
        ensures
            r@ == "serial-req-"@ + text::decimal_text(old(self).next_request() as nat),
            final(self).next_request() == crate::wasm::limits::bumped(old(self).next_request()),
            final(self).runner() == old(self).runner(),
            final(self).workload() == old(self).workload(),
    {
        let shown: String = decimal(self.next_request_id);
        self.next_request_id = self.next_request_id.wrapping_add(1);
        cat("serial-req-", shown.as_str())
    }
}

/// A workload in this process behind a conflict-key scheduler and an interleaved
/// runner.
#[derive(Debug)]
pub struct TestNativeConcurrentDispatcher {
    runner: Runner,
    dispatch_timeout: Option<Interval>,
    queue: DispatchQueue,
    spec: ConflictKeySpec,
    next_request_id: u64,
}

impl TestNativeConcurrentDispatcher {
    /// State of the runner behind the scheduler.
    pub closed spec fn runner(self) -> RunnerView {
        self.runner@
    }

    /// How long a dispatch may take, where that is set.
    pub closed spec fn dispatch_timeout(self) -> Option<Interval> {
        self.dispatch_timeout
    }

    /// State of the dispatch queue.
    pub closed spec fn queue(self) -> QueueView {
        self.queue@
    }

    /// The declared conflict keys.
    pub closed spec fn spec_view(self) -> <ConflictKeySpec as View>::V {
        self.spec@
    }

    /// The number of the next request.
    pub closed spec fn next_request(self) -> u64 {
        self.next_request_id
    }

    /// Wire a workload behind the scheduler and the runner.
    pub fn spawn(
        spec: ConflictKeySpec,
        budget: usize,
        queue_cap: usize,
        dispatch_timeout: Option<Interval>,
    ) -> (r: TestNativeConcurrentDispatcher)
        ensures
            r.runner() == idle_runner(RunnerMode::Interleaved),
            r.dispatch_timeout() == dispatch_timeout,
            r.queue() == QueueView::fresh(budget, queue_cap),
            r.queue().wf(),
            r.spec_view() == spec@,
            r.next_request() == 0,
    {
        TestNativeConcurrentDispatcher {
            runner: Runner::new(RunnerMode::Interleaved),
            dispatch_timeout,
            queue: DispatchQueue::new(budget, queue_cap),
            spec,
            next_request_id: 0,
        }
    }

    /// Number a request, project it to its conflict key and submit it under that
    /// key, as the job with its number.
    pub fn dispatch(&mut self, route_key: &str, payload: &[u8], caller_id: Option<&ActrId>) -> (r:
        Dispatched)
        requires
            old(self).queue().wf(),
            old(self).queue().line.len() < usize::MAX,
        ensures
            r.request_id@ == "native-concurrent-req-"@ + text::decimal_text(
                old(self).next_request() as nat,
            ),
            ({
                let job = JobView {
                    key: conflict_key::projected_key(
                        old(self).spec_view(),
                        route_key@,
                        conflict_key::caller_view(caller_id),
                        payload@,
                    ),
                    id: old(self).next_request(),
                };
                &&& final(self).queue() == old(self).queue().submit(job)
                &&& r.key@ == job.key
                &&& submitted(old(self).queue(), job, r.submission)
            }),
            final(self).queue().wf(),
            final(self).next_request() == crate::wasm::limits::bumped(old(self).next_request()),
            final(self).spec_view() == old(self).spec_view(),
            final(self).runner() == old(self).runner(),
            final(self).dispatch_timeout() == old(self).dispatch_timeout(),
    {
        let id: u64 = self.next_request_id;
        let shown: String = decimal(id);
        self.next_request_id = id.wrapping_add(1);
        let key: ConflictKey = self.spec.extract(route_key, caller_id, payload);
        Dispatched {
            request_id: cat("native-concurrent-req-", shown.as_str()),
            key: key.duplicate(),
            submission: self.queue.submit(Job { key, id }),
        }
    }

    /// The request in flight on this key completed.
    pub fn complete(&mut self, key: &ConflictKey) -> (r: Turn)
        requires
            old(self).queue().wf(),
            old(self).queue().scheduler.is_active(key@),
        ensures
            final(self).queue() == old(self).queue().complete(key@).0,
            final(self).queue().wf(),
            r.started@ == old(self).queue().complete(key@).1,
            r.admitted == old(self).queue().next_in_line(),
            final(self).next_request() == old(self).next_request(),
            final(self).spec_view() == old(self).spec_view(),
            final(self).runner() == old(self).runner(),
            final(self).dispatch_timeout() == old(self).dispatch_timeout(),
    {
        self.queue.complete(key)
    }

    /// Close intake; returns the requests that start now.
    pub fn shutdown(&mut self) -> (r: Vec<u64>)
        requires
            old(self).queue().wf(),
        ensures
            final(self).queue() == old(self).queue().shutdown().0,
            final(self).queue().wf(),
            r@ == old(self).queue().shutdown().1,
            final(self).next_request() == old(self).next_request(),
            final(self).spec_view() == old(self).spec_view(),
            final(self).runner() == old(self).runner(),
            final(self).dispatch_timeout() == old(self).dispatch_timeout(),
    {
        self.queue.shutdown()
    }
}

/// A workload in this process behind a serial runner and no scheduler.
#[derive(Debug)]
pub struct TestNativeSerialDispatcher {
    runner: Runner,
    next_request_id: u64,
}

impl TestNativeSerialDispatcher {
    /// State of the runner.
    pub closed spec fn runner(self) -> RunnerView {
        self.runner@
    }

    /// The number of the next request.
    pub closed spec fn next_request(self) -> u64 {
        self.next_request_id
    }

    /// Wire a workload behind the runner.
    pub fn spawn() -> (r: TestNativeSerialDispatcher)
        ensures
            r.runner() == idle_runner(RunnerMode::Serial),
            r.next_request() == 0,
    {
        TestNativeSerialDispatcher { runner: Runner::new(RunnerMode::Serial), next_request_id: 0 }
    }

    /// Number a request.
    pub fn number_request(&mut self) -> (r: String)
        ensures
            r@ == "native-serial-req-"@ + text::decimal_text(old(self).next_request() as nat),
            final(self).next_request() == crate::wasm::limits::bumped(old(self).next_request()),
            final(self).runner() == old(self).runner(),
    {
        let shown: String = decimal(self.next_request_id);
        self.next_request_id = self.next_request_id.wrapping_add(1);
        cat("native-serial-req-", shown.as_str())
    }
}

/// A sandboxed workload instance.
#[derive(Debug)]
pub struct TestWasmWorkload {
    instance: SerialInstance,
}

impl TestWasmWorkload {
    /// State of the instance.
    pub closed spec fn instance(self) -> InstanceView {
        self.instance@
    }

    /// The instance.
    pub closed spec fn inner(self) -> SerialInstance {
        self.instance
    }

    /// A freshly instantiated workload.
    pub fn new() -> (r: TestWasmWorkload)
        ensures
            r.instance().wf(),
            !r.instance().poisoned,
            r.instance().rebuilds == 0,
    {
        TestWasmWorkload { instance: SerialInstance::new() }
    }

    /// The instance, for driving entries into it.
    pub fn instance_mut(&mut self) -> (r: &mut SerialInstance)
        ensures
            r@ == old(self).instance(),
            final(self).instance() == final(r)@,
    {
        &mut self.instance
    }

    /// How often the store was rebuilt after a guest trap: a trap triggers a
    /// rebuild and a guest's own error does not.
    pub fn rebuild_count(&self) -> (r: u64)
        ensures
            r == self.instance().rebuilds,
    {
        self.instance.rebuild_count()
    }

    /// Put the workload behind a hook observer.
    pub fn into_package_hook_observer(self) -> (r: TestPackageHookObserver)
        ensures
            r.workload() == OwnedWorkload::Wasm(self.inner()),
            r.runner() == idle_runner(RunnerMode::Serial),
            r.runner().wf(),
            r.next_id() == 0,
    {
        TestPackageHookObserver::from_workload(OwnedWorkload::Wasm(self.instance))
    }

    /// Put the workload behind a serial runner.
    pub fn into_workload_runner(self) -> (r: TestWorkloadRunner)
        ensures
            r.workload() == OwnedWorkload::Wasm(self.inner()),
            r.runner() == idle_runner(RunnerMode::Serial),
            r.runner().wf(),
            r.dispatch_timeout() is None,
    {
        TestWorkloadRunner::spawn(OwnedWorkload::Wasm(self.instance), RunnerMode::Serial, None)
    }

    /// Put the workload behind an interleaved runner.
    pub fn into_interleaved_runner(self, dispatch_timeout: Option<Interval>) -> (r:
        TestWorkloadRunner)
        ensures
            r.workload() == OwnedWorkload::Wasm(self.inner()),
            r.runner() == idle_runner(RunnerMode::Interleaved),
            r.runner().wf(),
            r.dispatch_timeout() == dispatch_timeout,
    {
        TestWorkloadRunner::spawn(OwnedWorkload::Wasm(self.instance), RunnerMode::Interleaved, dispatch_timeout)
    }

    /// Put the workload behind a conflict-key scheduler with a concurrency budget
    /// and a bounded queue, in front of an interleaved runner.
    pub fn into_concurrent_dispatcher(
        self,
        spec: ConflictKeySpec,
        budget: usize,
        queue_cap: usize,
        dispatch_timeout: Option<Interval>,
    ) -> (r: TestConcurrentDispatcher)
        ensures
            r.workload() == OwnedWorkload::Wasm(self.inner()),
            r.runner() == idle_runner(RunnerMode::Interleaved),
            r.dispatch_timeout() == dispatch_timeout,
            r.queue() == QueueView::fresh(budget, queue_cap),
            r.queue().wf(),
            r.spec_view() == spec@,
            r.next_request() == 0,
    {
        TestConcurrentDispatcher {
            runner: TestWorkloadRunner::spawn(OwnedWorkload::Wasm(self.instance), RunnerMode::Interleaved, dispatch_timeout),
            queue: DispatchQueue::new(budget, queue_cap),
            spec,
            next_request_id: 0,
        }
    }

    /// Put the workload behind a serial runner with no scheduler.
    pub fn into_serial_dispatcher(self) -> (r: TestSerialDispatcher)
        ensures
            r.workload() == OwnedWorkload::Wasm(self.inner()),
            r.runner() == idle_runner(RunnerMode::Serial),
            r.next_request() == 0,
    {
        TestSerialDispatcher {
            runner: TestWorkloadRunner::spawn(OwnedWorkload::Wasm(self.instance), RunnerMode::Serial, None),
            next_request_id: 0,
        }
    }
}

/// A shared-library workload instance.
#[derive(Debug)]
pub struct TestDynclibWorkload {
    instance: DynclibInstance,
}

impl TestDynclibWorkload {
    /// The instance.
    pub closed spec fn inner(self) -> DynclibInstance {
        self.instance
    }

    /// A workload around an initialized instance.
    pub fn new(instance: DynclibInstance) -> (r: TestDynclibWorkload)
        ensures
            r.inner() == instance,
    {
        TestDynclibWorkload { instance }
    }

    /// Put the workload behind a hook observer.
    pub fn into_package_hook_observer(self) -> (r: TestPackageHookObserver)
        ensures
            r.workload() == OwnedWorkload::DynClib(self.inner()),
            r.runner() == idle_runner(RunnerMode::Serial),
            r.runner().wf(),
            r.next_id() == 0,
    {
        TestPackageHookObserver::from_workload(OwnedWorkload::DynClib(self.instance))
    }
}

/// What loading a package came to: the backend that was picked and the manifest
/// that was verified.
#[derive(Debug, Clone)]
pub struct LoadedWorkloadSummary {
    pub binary_kind: BinaryKind,
    manifest: PackageManifest,
}

impl LoadedWorkloadSummary {
    /// The backend that was picked.
    pub closed spec fn backend(self) -> BinaryKind {
        self.binary_kind
    }

    /// The verified manifest.
    pub closed spec fn verified(self) -> PackageManifest {
        self.manifest
    }

    /// The verified manifest.
    pub fn manifest(&self) -> (r: &PackageManifest)
        ensures
            *r == self.verified(),
    {
        &self.manifest
    }
}

/// Summarise what loading a package returned: the backend that was picked and
/// the verified package, or the error of the load.
pub fn inspect_workload_package<E>(loaded: Result<(BinaryKind, VerifiedPackage), E>) -> (r: Result<
    LoadedWorkloadSummary,
    E,
>)
    ensures
        match loaded {
            Ok((kind, package)) => r matches Ok(s) && s.backend() == kind && s.verified()
                == package.manifest,
            Err(error) => r matches Err(e) && e == error,
        },
{
    match loaded {
        Ok((binary_kind, verified)) => Ok(
            LoadedWorkloadSummary { binary_kind, manifest: verified.manifest },
        ),
        Err(error) => Err(error),
    }
}

// ── laws ─────────────────────────────────────────────────────────────────────

/// An event is observed under its own name and for its own peer. Only peer-to-peer events
/// carry a connection status, that of what happened, and only an established connection says
/// whether it is relayed.
pub proof fn events_are_observed_as_they_happened(event: TestPackageHookEvent)
    ensures
        observed(event).observer().export() == (match event {
            TestPackageHookEvent::SignalingConnecting => "on_signaling_connecting"@,
            TestPackageHookEvent::SignalingConnected => "on_signaling_connected"@,
            TestPackageHookEvent::SignalingDisconnected => "on_signaling_disconnected"@,
            TestPackageHookEvent::WebSocketConnecting { .. } => "on_websocket_connecting"@,
            TestPackageHookEvent::WebSocketConnected { .. } => "on_websocket_connected"@,
            TestPackageHookEvent::WebSocketDisconnected { .. } => "on_websocket_disconnected"@,
            TestPackageHookEvent::WebRtcConnecting { .. } => "on_webrtc_connecting"@,
            TestPackageHookEvent::WebRtcConnected { .. } => "on_webrtc_connected"@,
            TestPackageHookEvent::WebRtcDisconnected { .. } => "on_webrtc_disconnected"@,
            TestPackageHookEvent::CredentialRenewed { .. } => "on_credential_renewed"@,
            TestPackageHookEvent::CredentialExpiring { .. } => "on_credential_expiring"@,
            TestPackageHookEvent::MailboxBackpressure { .. } => "on_mailbox_backpressure"@,
        }),
        event matches TestPackageHookEvent::WebSocketConnecting { peer } ==> (observed(event)
            matches PackageHookEvent::WebSocketConnecting(e) && e.peer == peer && e.relayed is None
            && e.status is None),
        event matches TestPackageHookEvent::WebSocketConnected { peer } ==> (observed(event)
            matches PackageHookEvent::WebSocketConnected(e) && e.peer == peer && e.relayed is None
            && e.status is None),
        event matches TestPackageHookEvent::WebSocketDisconnected { peer } ==> (observed(event)
            matches PackageHookEvent::WebSocketDisconnected(e) && e.peer == peer && e.relayed
            is None && e.status is None),
        event matches TestPackageHookEvent::WebRtcConnecting { peer } ==> (observed(event) matches
            PackageHookEvent::WebRtcConnecting(e) && e.peer == peer && e.relayed is None
            && e.status == Some(WebRtcPeerStatus::Connecting)),
        event matches TestPackageHookEvent::WebRtcConnected { peer, relayed } ==> (observed(event)
            matches PackageHookEvent::WebRtcConnected(e) && e.peer == peer && e.relayed == Some(
            relayed,
        ) && e.status == Some(WebRtcPeerStatus::Connected)),
        event matches TestPackageHookEvent::WebRtcDisconnected { peer, status } ==> (observed(event)
            matches PackageHookEvent::WebRtcDisconnected(e) && e.peer == peer && e.relayed is None
            && e.status == Some(status)),
        event matches TestPackageHookEvent::CredentialRenewed { new_expiry } ==> (observed(event)
            matches PackageHookEvent::CredentialRenewed(e) && e.new_expiry == new_expiry),
        event matches TestPackageHookEvent::CredentialExpiring { new_expiry } ==> (observed(event)
            matches PackageHookEvent::CredentialExpiring(e) && e.new_expiry == new_expiry),
        event matches TestPackageHookEvent::MailboxBackpressure { queue_len, threshold } ==> (
        observed(event) matches PackageHookEvent::MailboxBackpressure(e) && e.queue_len == queue_len
            && e.threshold == threshold),
{
}

/// A request is admitted, waits or is refused by the slots and the intake of its queue, and
/// what starts by it is what comes into flight.
pub proof fn submissions_follow_the_slots(queue: QueueView, job: JobView, r: Submission)
    requires
        queue.wf(),
        submitted(queue, job, r),
    ensures
        r is Admitted <==> queue.admission.intake == crate::scheduler::Intake::Open
            && queue.admission.used < queue.admission.cap,
        r is Waiting <==> queue.admission.intake == crate::scheduler::Intake::Open
            && queue.admission.used == queue.admission.cap,
        r is Refused <==> queue.admission.intake != crate::scheduler::Intake::Open,
        r matches Submission::Admitted(started) ==> started@.len() == queue.submit(
            job,
        ).scheduler.inflight.len() - queue.scheduler.inflight.len(),
        r matches Submission::Refused(e) ==> e@.kind() == crate::protocol::ErrorKind::Transient,
{
    crate::scheduler::admission_depends_on_slots_and_intake(queue.admission);
    if queue.admission.intake == crate::scheduler::Intake::Open && queue.admission.used
        < queue.admission.cap {
        crate::dispatch::free_slots_take_jobs_at_once(queue, job);
    }
}

/// A runner that has nothing to do is ready for work: it takes commands, and none is queued
/// or running.
pub proof fn idle_runners_are_ready(mode: RunnerMode)
    ensures
        idle_runner(mode).wf(),
        idle_runner(mode).mode == mode,
        idle_runner(mode).queue.len() == 0,
        idle_runner(mode).running.len() == 0,
        !idle_runner(mode).closed,
        !idle_runner(mode).terminated,
{
}

} // verus!
