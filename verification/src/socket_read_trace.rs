use vstd::prelude::*;

verus! {

/// A step in the life of a socket read inside an async task.
#[derive(Debug, Clone, Copy, PartialEq, Eq)]
pub enum Event {
    /// Calling the async function returns a future; its body has not run yet.
    AsyncFunctionCalled,
    /// Spawning wraps the future in a task and places it on a runnable queue.
    FutureSpawnedAsTask,
    /// A worker takes the task and polls its future for the first time.
    FirstPoll,
    /// The read is not ready, so it registers a waker and returns `Pending`.
    ReadReturnsPending,
    /// The reactor reports that the socket is readable.
    ReactorObservesReadiness,
    /// The task's waker marks or enqueues the task as runnable.
    WakerMakesTaskRunnable,
    /// A worker polls the task's future again, and the read completes.
    SecondPollCompletesRead,
}

/// The events of a socket read, in causal order.
pub open spec fn socket_read_lifecycle() -> Seq<Event> {
    seq![
        Event::AsyncFunctionCalled,
        Event::FutureSpawnedAsTask,
        Event::FirstPoll,
        Event::ReadReturnsPending,
        Event::ReactorObservesReadiness,
        Event::WakerMakesTaskRunnable,
        Event::SecondPollCompletesRead,
    ]
}

/// Order the socket read's events from the call of the async function to the completed read.
pub fn causal_order() -> (events: [Event; 7])
    ensures
        events@ == socket_read_lifecycle(),
{
    let events = [
        Event::AsyncFunctionCalled,
        Event::FutureSpawnedAsTask,
        Event::FirstPoll,
        Event::ReadReturnsPending,
        Event::ReactorObservesReadiness,
        Event::WakerMakesTaskRunnable,
        Event::SecondPollCompletesRead,
    ];
    assert(events@ =~= socket_read_lifecycle());
    events
}

/// Every event happens exactly once, and the task is woken only after its read became
/// pending, which in turn happens only after the future was spawned and polled.
pub proof fn lemma_wake_follows_pending(i: int, j: int)
    requires
        0 <= i < socket_read_lifecycle().len(),
        0 <= j < socket_read_lifecycle().len(),
    ensures
        socket_read_lifecycle()[i] == socket_read_lifecycle()[j] ==> i == j,
        socket_read_lifecycle()[i] == Event::ReadReturnsPending
            && socket_read_lifecycle()[j] == Event::WakerMakesTaskRunnable ==> i < j,
        socket_read_lifecycle()[i] == Event::FirstPoll
            && socket_read_lifecycle()[j] == Event::ReadReturnsPending ==> i < j,
        socket_read_lifecycle()[i] == Event::FutureSpawnedAsTask
            && socket_read_lifecycle()[j] == Event::FirstPoll ==> i < j,
        socket_read_lifecycle()[i] == Event::ReactorObservesReadiness
            && socket_read_lifecycle()[j] == Event::WakerMakesTaskRunnable ==> i < j,
{
}

} // verus!
