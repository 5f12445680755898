use vstd::prelude::*;

verus! {

/// The moving parts of an async system.
#[derive(Debug, Clone, Copy, PartialEq, Eq)]
pub enum AsyncActor {
    Scheduler,
    Future,
    Runtime,
    OsThread,
    Reactor,
    Task,
    Executor,
}

/// A job that exactly one of the async actors owns.
#[derive(Debug, Clone, Copy, PartialEq, Eq)]
pub enum Responsibility {
    /// A value representing a computation that may eventually produce an output.
    RepresentsDeferredComputation,
    /// A spawned, schedulable unit that owns or contains a future.
    OwnsFutureAsSpawnedUnit,
    /// A kernel-managed execution resource on which machine instructions run.
    ExecutesMachineInstructions,
    /// The component that calls `poll` on runnable futures.
    PollsRunnableFutures,
    /// The policy and machinery that decide which runnable task executes, when, and on which
    /// worker.
    SelectsRunnableTaskForExecution,
    /// The component that watches timers, sockets, and other external event sources for readiness.
    ObservesExternalReadiness,
    /// The complete environment bundling task execution, scheduling, and I/O/time drivers.
    BundlesAsyncInfrastructure,
}

/// The actor that owns a responsibility.
pub open spec fn owner(responsibility: Responsibility) -> AsyncActor {
    match responsibility {
        Responsibility::RepresentsDeferredComputation => AsyncActor::Future,
        Responsibility::OwnsFutureAsSpawnedUnit => AsyncActor::Task,
        Responsibility::ExecutesMachineInstructions => AsyncActor::OsThread,
        Responsibility::PollsRunnableFutures => AsyncActor::Executor,
        Responsibility::SelectsRunnableTaskForExecution => AsyncActor::Scheduler,
        Responsibility::ObservesExternalReadiness => AsyncActor::Reactor,
        Responsibility::BundlesAsyncInfrastructure => AsyncActor::Runtime,
    }
}

/// The responsibility that an actor owns.
pub open spec fn responsibility_of(actor: AsyncActor) -> Responsibility {
    match actor {
        AsyncActor::Future => Responsibility::RepresentsDeferredComputation,
        AsyncActor::Task => Responsibility::OwnsFutureAsSpawnedUnit,
        AsyncActor::OsThread => Responsibility::ExecutesMachineInstructions,
        AsyncActor::Executor => Responsibility::PollsRunnableFutures,
        AsyncActor::Scheduler => Responsibility::SelectsRunnableTaskForExecution,
        AsyncActor::Reactor => Responsibility::ObservesExternalReadiness,
        AsyncActor::Runtime => Responsibility::BundlesAsyncInfrastructure,
    }
}

/// Map each responsibility to the async actor that owns it.
pub fn classify(responsibility: Responsibility) -> (actor: AsyncActor)
    ensures
        actor == owner(responsibility),
{
    match responsibility {
        Responsibility::RepresentsDeferredComputation => AsyncActor::Future,
        Responsibility::OwnsFutureAsSpawnedUnit => AsyncActor::Task,
        Responsibility::ExecutesMachineInstructions => AsyncActor::OsThread,
        Responsibility::PollsRunnableFutures => AsyncActor::Executor,
        Responsibility::SelectsRunnableTaskForExecution => AsyncActor::Scheduler,
        Responsibility::ObservesExternalReadiness => AsyncActor::Reactor,
        Responsibility::BundlesAsyncInfrastructure => AsyncActor::Runtime,
    }
}

/// The actors are distinct: every actor owns exactly one responsibility, and no two
/// responsibilities share an owner (a future is not a task is not a thread; an executor is
/// not a scheduler is not a reactor is not a runtime).
pub proof fn lemma_each_actor_owns_one_responsibility(r: Responsibility, s: Responsibility, a: AsyncActor)
    ensures
        owner(r) == owner(s) ==> r == s,
        owner(responsibility_of(a)) == a,
        responsibility_of(owner(r)) == r,
{
}

} // verus!
