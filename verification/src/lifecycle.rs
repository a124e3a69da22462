//! Lifecycle phases of a workload.
use vstd::prelude::*;

verus! {

/// A lifecycle hook that a workload is driven through.
#[derive(Debug, Clone, Copy, PartialEq, Eq, Structural)]
pub enum LifecyclePhase {
    OnStart,
    OnReady,
    OnStop,
}

impl LifecyclePhase {
    /// The hook's name in messages.
    pub open spec fn label(self) -> Seq<char> {
        match self {
            LifecyclePhase::OnStart => "on_start"@,
            LifecyclePhase::OnReady => "on_ready"@,
            LifecyclePhase::OnStop => "on_stop"@,
        }
    }

    /// The hook's name in messages.
    pub fn panic_label(self) -> (r: &'static str)
        ensures
            r@ == self.label(),
    {
        match self {
            LifecyclePhase::OnStart => "on_start",
            LifecyclePhase::OnReady => "on_ready",
            LifecyclePhase::OnStop => "on_stop",
        }
    }
}

/// Every phase is called by its own name, and no two phases share one.
pub proof fn phases_are_told_apart(a: LifecyclePhase, b: LifecyclePhase)
    ensures
        a.label() == b.label() <==> a == b,
        LifecyclePhase::OnStart.label() == "on_start"@,
        LifecyclePhase::OnReady.label() == "on_ready"@,
        LifecyclePhase::OnStop.label() == "on_stop"@,
{
    reveal_strlit("on_start");
    reveal_strlit("on_ready");
    reveal_strlit("on_stop");
    assert("on_start"@[3] == 's' && "on_ready"@[3] == 'r');
    assert("on_stop"@.len() == 7);
}

} // verus!
