use async_lab::classify_actors::{AsyncActor, Responsibility};
use async_lab::concurrency_or_parallelism::{ExecutionModel, Scenario};
use async_lab::frozen_ticker::{
	BlockedResource, FrozenTickerDiagnosis, Remedy, SlowWork, TaskName, choose_remedy,
	diagnose_frozen_ticker,
};
use async_lab::mental_model::{CorrectModel, IncorrectClaim, WakeStep, correction, readiness_to_poll_path};
use async_lab::one_worker_service::{
	ConnectionState, ParsingPlacement, ParsingWork, ServiceEvent, occupies_runtime_worker,
	place_parsing, transition,
};
use async_lab::socket_read_trace::{Event, causal_order};

#[test]
fn classifies_every_responsibility() {
	let cases = [
		(Responsibility::RepresentsDeferredComputation, AsyncActor::Future),
		(Responsibility::OwnsFutureAsSpawnedUnit, AsyncActor::Task),
		(Responsibility::ExecutesMachineInstructions, AsyncActor::OsThread),
		(Responsibility::PollsRunnableFutures, AsyncActor::Executor),
		(Responsibility::SelectsRunnableTaskForExecution, AsyncActor::Scheduler),
		(Responsibility::ObservesExternalReadiness, AsyncActor::Reactor),
		(Responsibility::BundlesAsyncInfrastructure, AsyncActor::Runtime),
	];

	for (responsibility, expected) in cases {
		assert_eq!(
			async_lab::classify_actors::classify(responsibility),
			expected,
			"wrong actor for {responsibility:?}"
		);
	}
}

#[test]
fn orders_the_socket_read_lifecycle() {
	assert_eq!(
		causal_order(),
		[
			Event::AsyncFunctionCalled,
			Event::FutureSpawnedAsTask,
			Event::FirstPoll,
			Event::ReadReturnsPending,
			Event::ReactorObservesReadiness,
			Event::WakerMakesTaskRunnable,
			Event::SecondPollCompletesRead,
		]
	);
}

#[test]
fn waiting_interval_is_bounded_by_pending_and_wake_up() {
	let events = causal_order();
	let pending = events
		.iter()
		.position(|event| *event == Event::ReadReturnsPending)
		.expect("the read must become pending");
	let runnable = events
		.iter()
		.position(|event| *event == Event::WakerMakesTaskRunnable)
		.expect("the waker must make the task runnable");

	assert!(pending < runnable, "the task can only be woken after it has become pending");
}

#[test]
fn classifies_execution_models() {
	let cases = [
		(Scenario::TasksAlternateOnOneWorker, ExecutionModel::ConcurrentNotParallel),
		(Scenario::CpuWorkRunsOnTwoThreadsAtOnce, ExecutionModel::ConcurrentAndParallel),
		(Scenario::SecondOperationStartsAfterFirstFinishes, ExecutionModel::Sequential),
		(Scenario::OneWorkerOwnsManyWaitingSocketTasks, ExecutionModel::ConcurrentNotParallel),
		(Scenario::OneTaskBlocksTheOnlyWorker, ExecutionModel::ConcurrentButStarved),
	];

	for (scenario, expected) in cases {
		assert_eq!(
			async_lab::concurrency_or_parallelism::classify(scenario),
			expected,
			"wrong execution model for {scenario:?}"
		);
	}
}

#[test]
fn identifies_why_the_ticker_freezes() {
	assert_eq!(
		diagnose_frozen_ticker(),
		FrozenTickerDiagnosis {
			culprit: TaskName::SlowTask,
			blocked_resource: BlockedResource::RuntimeWorkerThread,
			ticker_await_causes_stall: false,
			more_runtime_workers_fix_design: false,
		}
	);
}

#[test]
fn chooses_a_boundary_for_each_kind_of_slow_work() {
	let cases = [
		(SlowWork::WaitingForTime, Remedy::AwaitNonBlockingRuntimeOperation),
		(SlowWork::UnavoidableBlockingOperation, Remedy::RunOnDedicatedBlockingPool),
		(SlowWork::CpuHeavyComputation, Remedy::RunOnBoundedCpuPool),
	];

	for (work, expected) in cases {
		assert_eq!(choose_remedy(work), expected, "wrong remedy for {work:?}");
	}
}

#[test]
fn moves_a_connection_through_waiting_and_wake_up() {
	let waiting = transition(ConnectionState::Running, ServiceEvent::ReadReturnsPending);
	assert_eq!(waiting, ConnectionState::WaitingForReadiness);

	let still_waiting = transition(waiting, ServiceEvent::ReactorObservesSocketReadiness);
	assert_eq!(
		still_waiting,
		ConnectionState::WaitingForReadiness,
		"the reactor observes readiness; the waker makes the task runnable"
	);

	let runnable = transition(still_waiting, ServiceEvent::WakerMarksTaskRunnable);
	assert_eq!(runnable, ConnectionState::Runnable);

	let running = transition(runnable, ServiceEvent::SchedulerSelectsTask);
	assert_eq!(running, ConnectionState::Running);
}

#[test]
fn unrelated_events_do_not_skip_required_actors() {
	assert_eq!(
		transition(ConnectionState::WaitingForReadiness, ServiceEvent::SchedulerSelectsTask),
		ConnectionState::WaitingForReadiness
	);
	assert_eq!(
		transition(ConnectionState::Runnable, ServiceEvent::ReactorObservesSocketReadiness),
		ConnectionState::Runnable
	);
}

#[test]
fn only_running_work_occupies_the_worker() {
	assert!(occupies_runtime_worker(ConnectionState::Running));
	assert!(!occupies_runtime_worker(ConnectionState::WaitingForReadiness));
	assert!(!occupies_runtime_worker(ConnectionState::Runnable));
}

#[test]
fn long_cpu_work_crosses_a_bounded_boundary() {
	assert_eq!(place_parsing(ParsingWork::ShortCooperativeChunk), ParsingPlacement::RuntimeWorker);
	assert_eq!(
		place_parsing(ParsingWork::UninterruptedCpuHeavyParse),
		ParsingPlacement::BoundedCpuPool
	);
}

#[test]
fn replaces_every_incorrect_claim() {
	let cases = [
		(
			IncorrectClaim::CallingAsyncFunctionStartsInBackground,
			CorrectModel::FutureIsLazyUntilPolled,
		),
		(IncorrectClaim::EveryTaskHasOwnThread, CorrectModel::TasksShareRuntimeWorkers),
		(
			IncorrectClaim::PendingMeansPollContinuously,
			CorrectModel::PendingWaitsForWakeBeforeRepoll,
		),
		(
			IncorrectClaim::ReactorRunsFutureDirectly,
			CorrectModel::ReactorTriggersWakeUpInsteadOfPolling,
		),
		(IncorrectClaim::AwaitBlocksWorkerUntilReady, CorrectModel::AwaitYieldsWorkerWhenPending),
		(
			IncorrectClaim::MultiThreadRuntimeMakesEveryTaskParallel,
			CorrectModel::ParallelismDependsOnReadinessWorkersAndScheduling,
		),
	];

	for (claim, expected) in cases {
		assert_eq!(correction(claim), expected, "wrong correction for {claim:?}");
	}
}

#[test]
fn traces_readiness_to_the_next_poll() {
	assert_eq!(
		readiness_to_poll_path(),
		[
			WakeStep::SocketBecomesReadable,
			WakeStep::ReactorObservesReadiness,
			WakeStep::WakerMarksTaskRunnable,
			WakeStep::TaskWaitsInRunnableQueue,
			WakeStep::SchedulerSelectsTask,
			WakeStep::ExecutorPollsFuture,
		]
	);
}

#[test]
fn a_full_wake_cycle_returns_the_connection_to_running() {
	let mut state = ConnectionState::Running;
	for event in [
		ServiceEvent::ReadReturnsPending,
		ServiceEvent::ReactorObservesSocketReadiness,
		ServiceEvent::WakerMarksTaskRunnable,
		ServiceEvent::SchedulerSelectsTask,
	] {
		state = transition(state, event);
	}
	assert_eq!(state, ConnectionState::Running);
}

#[test]
fn readiness_alone_never_changes_the_connection() {
	for state in [
		ConnectionState::Runnable,
		ConnectionState::WaitingForReadiness,
		ConnectionState::Running,
	] {
		assert_eq!(transition(state, ServiceEvent::ReactorObservesSocketReadiness), state);
	}
}

#[test]
fn pending_while_waiting_changes_nothing() {
	assert_eq!(
		transition(ConnectionState::WaitingForReadiness, ServiceEvent::ReadReturnsPending),
		ConnectionState::WaitingForReadiness
	);
	assert_eq!(
		transition(ConnectionState::Running, ServiceEvent::WakerMarksTaskRunnable),
		ConnectionState::Running
	);
}

#[test]
fn distinct_responsibilities_have_distinct_owners() {
	let all = [
		Responsibility::RepresentsDeferredComputation,
		Responsibility::OwnsFutureAsSpawnedUnit,
		Responsibility::ExecutesMachineInstructions,
		Responsibility::PollsRunnableFutures,
		Responsibility::SelectsRunnableTaskForExecution,
		Responsibility::ObservesExternalReadiness,
		Responsibility::BundlesAsyncInfrastructure,
	];
	for a in all {
		for b in all {
			let same = async_lab::classify_actors::classify(a) == async_lab::classify_actors::classify(b);
			assert_eq!(same, a == b);
		}
	}
}

#[test]
fn corrections_are_distinct() {
	let all = [
		IncorrectClaim::CallingAsyncFunctionStartsInBackground,
		IncorrectClaim::EveryTaskHasOwnThread,
		IncorrectClaim::PendingMeansPollContinuously,
		IncorrectClaim::ReactorRunsFutureDirectly,
		IncorrectClaim::AwaitBlocksWorkerUntilReady,
		IncorrectClaim::MultiThreadRuntimeMakesEveryTaskParallel,
	];
	for a in all {
		for b in all {
			assert_eq!(correction(a) == correction(b), a == b);
		}
	}
}
