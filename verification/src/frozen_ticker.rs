use vstd::prelude::*;

verus! {

/// The two tasks of the frozen-ticker program.
#[derive(Debug, Clone, Copy, PartialEq, Eq)]
pub enum TaskName {
    Ticker,
    SlowTask,
}

/// A resource that a misbehaving task could hold up.
#[derive(Debug, Clone, Copy, PartialEq, Eq)]
pub enum BlockedResource {
    Reactor,
    RuntimeWorkerThread,
    TimerFuture,
    TickerTask,
}

/// Why the ticker stops ticking, and which two assumptions about it are false.
#[derive(Debug, Clone, Copy, PartialEq, Eq)]
pub struct FrozenTickerDiagnosis {
    pub culprit: TaskName,
    pub blocked_resource: BlockedResource,
    pub ticker_await_causes_stall: bool,
    pub more_runtime_workers_fix_design: bool,
}

/// A kind of slow work that must not hold a runtime worker.
#[derive(Debug, Clone, Copy, PartialEq, Eq)]
pub enum SlowWork {
    /// The delay represents time passing while no machine instructions need to run.
    WaitingForTime,
    /// The operation calls an API that cannot run asynchronously and blocks its caller.
    UnavoidableBlockingOperation,
    /// The operation spends a long uninterrupted period executing machine instructions.
    CpuHeavyComputation,
}

/// The boundary that keeps a kind of slow work off the async runtime worker.
#[derive(Debug, Clone, Copy, PartialEq, Eq)]
pub enum Remedy {
    RunOnBoundedCpuPool,
    AwaitNonBlockingRuntimeOperation,
    RunOnDedicatedBlockingPool,
}

/// The diagnosis of the frozen ticker: the slow task blocks the runtime worker thread; the
/// ticker's own `.await` is not the cause, and adding runtime workers does not fix the design.
pub open spec fn frozen_ticker_diagnosis() -> FrozenTickerDiagnosis {
    FrozenTickerDiagnosis {
        culprit: TaskName::SlowTask,
        blocked_resource: BlockedResource::RuntimeWorkerThread,
        ticker_await_causes_stall: false,
        more_runtime_workers_fix_design: false,
    }
}

/// Identify the culprit, the blocked resource, and the two false assumptions.
pub fn diagnose_frozen_ticker() -> (diagnosis: FrozenTickerDiagnosis)
    ensures
        diagnosis == frozen_ticker_diagnosis(),
{
    FrozenTickerDiagnosis {
        culprit: TaskName::SlowTask,
        blocked_resource: BlockedResource::RuntimeWorkerThread,
        ticker_await_causes_stall: false,
        more_runtime_workers_fix_design: false,
    }
}

/// The boundary for each kind of slow work.
pub open spec fn remedy_for(work: SlowWork) -> Remedy {
    match work {
        SlowWork::WaitingForTime => Remedy::AwaitNonBlockingRuntimeOperation,
        SlowWork::UnavoidableBlockingOperation => Remedy::RunOnDedicatedBlockingPool,
        SlowWork::CpuHeavyComputation => Remedy::RunOnBoundedCpuPool,
    }
}

/// Choose the boundary that keeps slow work off the async runtime worker.
pub fn choose_remedy(work: SlowWork) -> (remedy: Remedy)
    ensures
        remedy == remedy_for(work),
{
    match work {
        SlowWork::WaitingForTime => Remedy::AwaitNonBlockingRuntimeOperation,
        SlowWork::UnavoidableBlockingOperation => Remedy::RunOnDedicatedBlockingPool,
        SlowWork::CpuHeavyComputation => Remedy::RunOnBoundedCpuPool,
    }
}

/// Each kind of slow work gets its own boundary, and only work that needs no instructions
/// (waiting for time) stays on the runtime, as a non-blocking await.
pub proof fn lemma_remedies_are_distinct(a: SlowWork, b: SlowWork)
    ensures
        remedy_for(a) == remedy_for(b) ==> a == b,
        remedy_for(a) == Remedy::AwaitNonBlockingRuntimeOperation <==> a == SlowWork::WaitingForTime,
{
}

} // verus!
