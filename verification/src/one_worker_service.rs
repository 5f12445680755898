use vstd::prelude::*;

verus! {

/// Where a single connection task stands with respect to the one runtime worker.
#[derive(Debug, Clone, Copy, PartialEq, Eq)]
pub enum ConnectionState {
    Runnable,
    WaitingForReadiness,
    Running,
}

/// Something that happens to the connection task in a one-worker service.
#[derive(Debug, Clone, Copy, PartialEq, Eq)]
pub enum ServiceEvent {
    /// The running connection future cannot read yet, registers its waker, and returns `Pending`.
    ReadReturnsPending,
    /// The reactor detects that the connection's socket is now readable.
    ReactorObservesSocketReadiness,
    /// The registered waker marks or enqueues the connection task as runnable.
    WakerMarksTaskRunnable,
    /// The scheduler chooses the runnable connection task for execution.
    SchedulerSelectsTask,
}

/// The state a connection moves to on an event; an event that does not apply to the
/// current state leaves it unchanged.
pub open spec fn next_state(state: ConnectionState, event: ServiceEvent) -> ConnectionState {
    match (state, event) {
        (ConnectionState::Running, ServiceEvent::ReadReturnsPending) => ConnectionState::WaitingForReadiness,
        (ConnectionState::WaitingForReadiness, ServiceEvent::WakerMarksTaskRunnable) => ConnectionState::Runnable,
        (ConnectionState::Runnable, ServiceEvent::SchedulerSelectsTask) => ConnectionState::Running,
        _ => state,
    }
}

/// Apply one event. An event that is not valid for the current state must leave it unchanged.
pub fn transition(state: ConnectionState, event: ServiceEvent) -> (next: ConnectionState)
    ensures
        next == next_state(state, event),
{
    match (state, event) {
        (ConnectionState::Running, ServiceEvent::ReadReturnsPending) => ConnectionState::WaitingForReadiness,
        (ConnectionState::WaitingForReadiness, ServiceEvent::WakerMarksTaskRunnable) => ConnectionState::Runnable,
        (ConnectionState::Runnable, ServiceEvent::SchedulerSelectsTask) => ConnectionState::Running,
        _ => state,
    }
}


/// Report whether a task in this state currently occupies the single runtime worker.
pub fn occupies_runtime_worker(state: ConnectionState) -> (occupies: bool)
    ensures
        occupies <==> state == ConnectionState::Running,
{
    match state {
        ConnectionState::Running => true,
        _ => false,
    }
}

/// How much uninterrupted CPU time a parsing step needs.
#[derive(Debug, Clone, Copy, PartialEq, Eq)]
pub enum ParsingWork {
    /// A small cooperative parsing step that returns control promptly.
    ShortCooperativeChunk,
    /// An uninterrupted 500 ms CPU-heavy parse after a socket read.
    UninterruptedCpuHeavyParse,
}

/// Where a parsing step runs.
#[derive(Debug, Clone, Copy, PartialEq, Eq)]
pub enum ParsingPlacement {
    BoundedCpuPool,
    RuntimeWorker,
}

/// Where each kind of parsing work belongs.
pub open spec fn parsing_placement(work: ParsingWork) -> ParsingPlacement {
    match work {
        ParsingWork::ShortCooperativeChunk => ParsingPlacement::RuntimeWorker,
        ParsingWork::UninterruptedCpuHeavyParse => ParsingPlacement::BoundedCpuPool,
    }
}

/// Keep long uninterrupted CPU work from monopolizing the runtime worker.
pub fn place_parsing(work: ParsingWork) -> (placement: ParsingPlacement)
    ensures
        placement == parsing_placement(work),
{
    match work {
        ParsingWork::ShortCooperativeChunk => ParsingPlacement::RuntimeWorker,
        ParsingWork::UninterruptedCpuHeavyParse => ParsingPlacement::BoundedCpuPool,
    }
}

/// Readiness observed by the reactor never changes the connection's state by itself:
/// only the waker makes a waiting task runnable.
pub proof fn lemma_reactor_alone_changes_nothing(state: ConnectionState)
    ensures
        next_state(state, ServiceEvent::ReactorObservesSocketReadiness) == state,
{
}

/// A task only starts running when the scheduler selects it out of the runnable state,
/// and only becomes runnable when its waker fires while it waits for readiness.
pub proof fn lemma_no_skipped_actors(state: ConnectionState, event: ServiceEvent)
    ensures
        next_state(state, event) == ConnectionState::Running && state != ConnectionState::Running
            ==> state == ConnectionState::Runnable && event == ServiceEvent::SchedulerSelectsTask,
        next_state(state, event) == ConnectionState::Runnable && state != ConnectionState::Runnable
            ==> state == ConnectionState::WaitingForReadiness
                && event == ServiceEvent::WakerMarksTaskRunnable,
        next_state(state, event) == ConnectionState::WaitingForReadiness && state
            != ConnectionState::WaitingForReadiness ==> state == ConnectionState::Running
            && event == ServiceEvent::ReadReturnsPending,
{
}

/// A task that returns `Pending` stops occupying the worker, and a task that is waiting or
/// queued occupies it again only after the scheduler selects it.
pub proof fn lemma_pending_releases_worker(state: ConnectionState, event: ServiceEvent)
    ensures
        state == ConnectionState::Running && event == ServiceEvent::ReadReturnsPending
            ==> next_state(state, event) != ConnectionState::Running,
        state != ConnectionState::Running && next_state(state, event) == ConnectionState::Running
            ==> event == ServiceEvent::SchedulerSelectsTask,
{
}

/// Only short cooperative chunks run on the runtime worker; long CPU-heavy parsing never does.
pub proof fn lemma_only_cooperative_work_on_worker(work: ParsingWork)
    ensures
        parsing_placement(work) == ParsingPlacement::RuntimeWorker
            <==> work == ParsingWork::ShortCooperativeChunk,
{
}

} // verus!
