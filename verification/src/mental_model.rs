use vstd::prelude::*;

verus! {

/// A common but wrong belief about async Rust.
#[derive(Debug, Clone, Copy, PartialEq, Eq)]
pub enum IncorrectClaim {
    /// "Calling an async function starts it in the background."
    CallingAsyncFunctionStartsInBackground,
    /// "Every task has its own thread."
    EveryTaskHasOwnThread,
    /// "After `Pending`, the executor keeps polling the future in a loop."
    PendingMeansPollContinuously,
    /// "The reactor runs the future when a socket becomes readable."
    ReactorRunsFutureDirectly,
    /// "`.await` blocks the worker until the value is ready."
    AwaitBlocksWorkerUntilReady,
    /// "A multi-thread runtime makes every task run in parallel."
    MultiThreadRuntimeMakesEveryTaskParallel,
}

/// The accurate statement that replaces a wrong belief.
#[derive(Debug, Clone, Copy, PartialEq, Eq)]
pub enum CorrectModel {
    ReactorTriggersWakeUpInsteadOfPolling,
    FutureIsLazyUntilPolled,
    ParallelismDependsOnReadinessWorkersAndScheduling,
    PendingWaitsForWakeBeforeRepoll,
    AwaitYieldsWorkerWhenPending,
    TasksShareRuntimeWorkers,
}

/// A step on the path from socket readiness to the next poll of a future.
#[derive(Debug, Clone, Copy, PartialEq, Eq)]
pub enum WakeStep {
    SchedulerSelectsTask,
    SocketBecomesReadable,
    ExecutorPollsFuture,
    WakerMarksTaskRunnable,
    ReactorObservesReadiness,
    TaskWaitsInRunnableQueue,
}

/// The accurate model that corrects each claim.
pub open spec fn corrected(claim: IncorrectClaim) -> CorrectModel {
    match claim {
        IncorrectClaim::CallingAsyncFunctionStartsInBackground => CorrectModel::FutureIsLazyUntilPolled,
        IncorrectClaim::EveryTaskHasOwnThread => CorrectModel::TasksShareRuntimeWorkers,
        IncorrectClaim::PendingMeansPollContinuously => CorrectModel::PendingWaitsForWakeBeforeRepoll,
        IncorrectClaim::ReactorRunsFutureDirectly => CorrectModel::ReactorTriggersWakeUpInsteadOfPolling,
        IncorrectClaim::AwaitBlocksWorkerUntilReady => CorrectModel::AwaitYieldsWorkerWhenPending,
        IncorrectClaim::MultiThreadRuntimeMakesEveryTaskParallel => CorrectModel::ParallelismDependsOnReadinessWorkersAndScheduling,
    }
}

/// The claim that each accurate model corrects.
pub open spec fn claim_corrected_by(model: CorrectModel) -> IncorrectClaim {
    match model {
        CorrectModel::FutureIsLazyUntilPolled => IncorrectClaim::CallingAsyncFunctionStartsInBackground,
        CorrectModel::TasksShareRuntimeWorkers => IncorrectClaim::EveryTaskHasOwnThread,
        CorrectModel::PendingWaitsForWakeBeforeRepoll => IncorrectClaim::PendingMeansPollContinuously,
        CorrectModel::ReactorTriggersWakeUpInsteadOfPolling => IncorrectClaim::ReactorRunsFutureDirectly,
        CorrectModel::AwaitYieldsWorkerWhenPending => IncorrectClaim::AwaitBlocksWorkerUntilReady,
        CorrectModel::ParallelismDependsOnReadinessWorkersAndScheduling => IncorrectClaim::MultiThreadRuntimeMakesEveryTaskParallel,
    }
}

/// Replace each incorrect claim with the corresponding accurate mental model.
pub fn correction(claim: IncorrectClaim) -> (model: CorrectModel)
    ensures
        model == corrected(claim),
{
    match claim {
        IncorrectClaim::CallingAsyncFunctionStartsInBackground => CorrectModel::FutureIsLazyUntilPolled,
        IncorrectClaim::EveryTaskHasOwnThread => CorrectModel::TasksShareRuntimeWorkers,
        IncorrectClaim::PendingMeansPollContinuously => CorrectModel::PendingWaitsForWakeBeforeRepoll,
        IncorrectClaim::ReactorRunsFutureDirectly => CorrectModel::ReactorTriggersWakeUpInsteadOfPolling,
        IncorrectClaim::AwaitBlocksWorkerUntilReady => CorrectModel::AwaitYieldsWorkerWhenPending,
        IncorrectClaim::MultiThreadRuntimeMakesEveryTaskParallel => CorrectModel::ParallelismDependsOnReadinessWorkersAndScheduling,
    }
}

/// Every incorrect claim has its own correction, and every accurate model corrects exactly
/// one claim.
pub proof fn lemma_corrections_are_one_to_one(a: IncorrectClaim, b: IncorrectClaim, m: CorrectModel)
    ensures
        corrected(a) == corrected(b) ==> a == b,
        corrected(claim_corrected_by(m)) == m,
        claim_corrected_by(corrected(a)) == a,
{
}

/// The path from socket readiness to the future's next poll.
pub open spec fn wake_path() -> Seq<WakeStep> {
    seq![
        WakeStep::SocketBecomesReadable,
        WakeStep::ReactorObservesReadiness,
        WakeStep::WakerMarksTaskRunnable,
        WakeStep::TaskWaitsInRunnableQueue,
        WakeStep::SchedulerSelectsTask,
        WakeStep::ExecutorPollsFuture,
    ]
}

/// Order the path from socket readiness to the future's next poll.
pub fn readiness_to_poll_path() -> (path: [WakeStep; 6])
    ensures
        path@ == wake_path(),
{
    let path = [
        WakeStep::SocketBecomesReadable,
        WakeStep::ReactorObservesReadiness,
        WakeStep::WakerMarksTaskRunnable,
        WakeStep::TaskWaitsInRunnableQueue,
        WakeStep::SchedulerSelectsTask,
        WakeStep::ExecutorPollsFuture,
    ];
    assert(path@ =~= wake_path());
    path
}

/// Every step happens once; the reactor only observes readiness, the waker marks the task
/// runnable before the scheduler selects it, and only then does the executor poll.
pub proof fn lemma_wake_path_order(i: int, j: int)
    requires
        0 <= i < wake_path().len(),
        0 <= j < wake_path().len(),
    ensures
        wake_path()[i] == wake_path()[j] ==> i == j,
        wake_path()[i] == WakeStep::ReactorObservesReadiness && wake_path()[j]
            == WakeStep::WakerMarksTaskRunnable ==> i < j,
        wake_path()[i] == WakeStep::WakerMarksTaskRunnable && wake_path()[j]
            == WakeStep::SchedulerSelectsTask ==> i < j,
        wake_path()[i] == WakeStep::SchedulerSelectsTask && wake_path()[j]
            == WakeStep::ExecutorPollsFuture ==> i < j,
        wake_path()[j] == WakeStep::ExecutorPollsFuture ==> j == wake_path().len() - 1,
{
}

} // verus!
