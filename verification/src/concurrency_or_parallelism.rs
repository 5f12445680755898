use vstd::prelude::*;

verus! {

/// A situation in which two or more operations make progress.
#[derive(Debug, Clone, Copy, PartialEq, Eq)]
pub enum Scenario {
    /// Two tasks alternate at `.await` points on one current-thread runtime.
    TasksAlternateOnOneWorker,
    /// Two CPU-heavy functions execute at the same instant on two OS threads.
    CpuWorkRunsOnTwoThreadsAtOnce,
    /// Operation B is not created until operation A has completely finished.
    SecondOperationStartsAfterFirstFinishes,
    /// One worker manages 100 socket tasks, most of which are waiting for readiness.
    OneWorkerOwnsManyWaitingSocketTasks,
    /// One task blocks the only worker before the second task gets any execution time.
    OneTaskBlocksTheOnlyWorker,
}

/// How operations relate in lifetime and in execution.
#[derive(Debug, Clone, Copy, PartialEq, Eq)]
pub enum ExecutionModel {
    /// Operations neither overlap in lifetime nor execute simultaneously.
    Sequential,
    /// Operations overlap in lifetime, but only one executes at any instant.
    ConcurrentNotParallel,
    /// Operations overlap in lifetime and execute simultaneously on different threads.
    ConcurrentAndParallel,
    /// Operations coexist, but blocking prevents another task from making progress.
    ConcurrentButStarved,
}

/// Whether the operations of a scenario overlap in lifetime.
pub open spec fn lifetimes_overlap(scenario: Scenario) -> bool {
    scenario != Scenario::SecondOperationStartsAfterFirstFinishes
}

/// Whether the operations of a scenario execute instructions at the same instant.
pub open spec fn executes_simultaneously(scenario: Scenario) -> bool {
    scenario == Scenario::CpuWorkRunsOnTwoThreadsAtOnce
}

/// Whether one operation of a scenario is starved of execution time by a blocked worker.
pub open spec fn starves_another(scenario: Scenario) -> bool {
    scenario == Scenario::OneTaskBlocksTheOnlyWorker
}

/// The execution model of a scenario: first whether lifetimes overlap, then whether
/// execution is simultaneous, and separately whether a blocked worker starves a task.
pub open spec fn execution_model(scenario: Scenario) -> ExecutionModel {
    if !lifetimes_overlap(scenario) {
        ExecutionModel::Sequential
    } else if executes_simultaneously(scenario) {
        ExecutionModel::ConcurrentAndParallel
    } else if starves_another(scenario) {
        ExecutionModel::ConcurrentButStarved
    } else {
        ExecutionModel::ConcurrentNotParallel
    }
}

/// Classify the lifetime overlap, simultaneous execution, and starvation in each scenario.
pub fn classify(scenario: Scenario) -> (model: ExecutionModel)
    ensures
        model == execution_model(scenario),
        model == (match scenario {
            Scenario::TasksAlternateOnOneWorker => ExecutionModel::ConcurrentNotParallel,
            Scenario::CpuWorkRunsOnTwoThreadsAtOnce => ExecutionModel::ConcurrentAndParallel,
            Scenario::SecondOperationStartsAfterFirstFinishes => ExecutionModel::Sequential,
            Scenario::OneWorkerOwnsManyWaitingSocketTasks => ExecutionModel::ConcurrentNotParallel,
            Scenario::OneTaskBlocksTheOnlyWorker => ExecutionModel::ConcurrentButStarved,
        }),
{
    match scenario {
        Scenario::TasksAlternateOnOneWorker => ExecutionModel::ConcurrentNotParallel,
        Scenario::CpuWorkRunsOnTwoThreadsAtOnce => ExecutionModel::ConcurrentAndParallel,
        Scenario::SecondOperationStartsAfterFirstFinishes => ExecutionModel::Sequential,
        Scenario::OneWorkerOwnsManyWaitingSocketTasks => ExecutionModel::ConcurrentNotParallel,
        Scenario::OneTaskBlocksTheOnlyWorker => ExecutionModel::ConcurrentButStarved,
    }
}

/// Concurrency is not parallelism: a scenario is parallel only when its operations execute at
/// the same instant, and every parallel scenario is also concurrent (its lifetimes overlap).
pub proof fn lemma_parallel_implies_concurrent(scenario: Scenario)
    ensures
        execution_model(scenario) == ExecutionModel::ConcurrentAndParallel
            <==> executes_simultaneously(scenario),
        execution_model(scenario) == ExecutionModel::ConcurrentAndParallel ==> lifetimes_overlap(
            scenario,
        ),
        execution_model(scenario) == ExecutionModel::Sequential <==> !lifetimes_overlap(scenario),
{
}

} // verus!
