use staticserve::counters::{Counters, SharedCounters};
use staticserve::dispatch::{accept_poll_timeout, accept_step, interrupt_step, worker_pool_size,
    worker_step, AcceptAction, AcceptEvent, ServerPhase, SignalAction, WorkerAction, WorkerEvent,
    MAX_POLL_MILLIS};
use staticserve::pipeline::{outcome_is_warning, read_poll_timeout, read_start, read_step,
    PollOutcome, ReadStart, ReadStep, RecvEvent};
use staticserve::telemetry::{flush_should_retry, report_for, FlushOutcome, FlushReport};

#[test]
fn counters_start_at_zero_and_count_up() {
    let mut c = Counters::new();
    assert_eq!(c.started_count(), 0);
    assert_eq!(c.finished_count(), 0);
    c.inc_started();
    c.inc_started();
    c.inc_finished();
    assert_eq!(c.started_count(), 2);
    assert_eq!(c.finished_count(), 1);
    c.inc_finished();
    c.inc_started();
    c.inc_finished();
    assert_eq!(c.started_count(), 3);
    assert_eq!(c.finished_count(), 3);
    assert!(c.finished_count() <= c.started_count());
}

#[test]
fn shared_counters_never_observe_finished_above_started() {
    let c = SharedCounters::new();
    assert_eq!(c.snapshot(), (0, 0));
    c.record_started();
    c.record_started();
    assert_eq!(c.snapshot(), (2, 0));
    c.record_finished();
    assert_eq!(c.snapshot(), (2, 1));
    c.record_finished();
    c.record_finished();
    let (started, finished) = c.snapshot();
    assert!(finished <= started);
    assert_eq!((started, finished), (2, 2));
}

#[test]
fn accept_loop_decision_table() {
    assert_eq!(accept_step(&AcceptEvent::ShutdownObserved), AcceptAction::Exit);
    assert_eq!(accept_step(&AcceptEvent::PollFailed), AcceptAction::Skip);
    assert_eq!(accept_step(&AcceptEvent::NotReady), AcceptAction::Skip);
    assert_eq!(accept_step(&AcceptEvent::Ready), AcceptAction::AcceptConnection);
}

#[test]
fn worker_loop_decision_table() {
    assert_eq!(worker_step(&WorkerEvent::ShutdownObserved), WorkerAction::Exit);
    assert_eq!(worker_step(&WorkerEvent::Received), WorkerAction::Handle);
    assert_eq!(worker_step(&WorkerEvent::RecvTimedOut), WorkerAction::Retry);
    assert_eq!(worker_step(&WorkerEvent::ChannelClosed), WorkerAction::Exit);
}

#[test]
fn first_interrupt_requests_shutdown_second_terminates() {
    let (p1, a1) = interrupt_step(&ServerPhase::Running);
    assert_eq!(p1, ServerPhase::ShutdownRequested);
    assert_eq!(a1, SignalAction::RequestShutdown);
    let (p2, a2) = interrupt_step(&p1);
    assert_eq!(p2, ServerPhase::Terminated);
    assert_eq!(a2, SignalAction::FlushAndTerminate);
    let (p3, a3) = interrupt_step(&p2);
    assert_eq!(p3, ServerPhase::Terminated);
    assert_eq!(a3, SignalAction::FlushAndTerminate);
}

#[test]
fn shutdown_event_never_accepts_a_connection() {
    assert_ne!(accept_step(&AcceptEvent::ShutdownObserved), AcceptAction::AcceptConnection);
    assert_ne!(worker_step(&WorkerEvent::ShutdownObserved), WorkerAction::Handle);
}

#[test]
fn pool_size_falls_back_to_one_worker() {
    assert_eq!(worker_pool_size(Some(8)), 8);
    assert_eq!(worker_pool_size(None), 1);
}

#[test]
fn poll_timeout_fallbacks_differ_per_loop() {
    assert_eq!(accept_poll_timeout(Some(400)), 400);
    assert_eq!(accept_poll_timeout(None), 0);
    assert_eq!(read_poll_timeout(Some(400)), 400);
    assert_eq!(read_poll_timeout(None), MAX_POLL_MILLIS);
}

#[test]
fn read_starts_only_on_readiness() {
    assert_eq!(read_start(&PollOutcome::Ready), ReadStart::Read);
    assert_eq!(read_start(&PollOutcome::NotReady), ReadStart::Abandon);
    assert_eq!(read_start(&PollOutcome::Failed), ReadStart::AbortConnection);
}

#[test]
fn read_step_appends_and_continues_only_on_full_buffer() {
    let mut acc: Vec<u8> = Vec::new();
    let s = read_step(&mut acc, RecvEvent::Data(b"abcd".to_vec()), 4);
    assert_eq!(s, ReadStep::Continue);
    assert_eq!(acc, b"abcd".to_vec());
    let s = read_step(&mut acc, RecvEvent::Data(b"ef".to_vec()), 4);
    assert_eq!(s, ReadStep::Done);
    assert_eq!(acc, b"abcdef".to_vec());
}

#[test]
fn would_block_finishes_and_failure_aborts() {
    let mut acc: Vec<u8> = b"xy".to_vec();
    assert_eq!(read_step(&mut acc, RecvEvent::WouldBlock, 4), ReadStep::Done);
    assert_eq!(acc, b"xy".to_vec());
    assert_eq!(read_step(&mut acc, RecvEvent::Failed, 4), ReadStep::Abort);
    assert_eq!(acc, b"xy".to_vec());
}

#[test]
fn anomalies_raise_the_log_level() {
    assert!(!outcome_is_warning(true, true));
    assert!(outcome_is_warning(false, true));
    assert!(outcome_is_warning(true, false));
    assert!(outcome_is_warning(false, false));
}

#[test]
fn flush_retries_once_on_timeout_only() {
    let ok = FlushOutcome::Flushed;
    let shut = FlushOutcome::AlreadyShutdown;
    let slow = FlushOutcome::TimedOut(250);
    let broken = FlushOutcome::InternalFailure(String::from("boom"));
    assert!(flush_should_retry(&ok, &slow, &ok, false));
    assert!(flush_should_retry(&slow, &slow, &slow, false));
    assert!(!flush_should_retry(&ok, &shut, &ok, false));
    assert!(!flush_should_retry(&broken, &ok, &ok, false));
    assert!(!flush_should_retry(&slow, &slow, &slow, true));
}

#[test]
fn flush_outcomes_are_reported_by_severity() {
    assert_eq!(report_for(&FlushOutcome::Flushed), FlushReport::Silent);
    assert_eq!(report_for(&FlushOutcome::AlreadyShutdown), FlushReport::Silent);
    assert_eq!(report_for(&FlushOutcome::TimedOut(7)), FlushReport::Warning);
    assert_eq!(
        report_for(&FlushOutcome::InternalFailure(String::from("x"))),
        FlushReport::Failure
    );
}
