use forge_watch::pipeline::{
    initial_status, pipeline_step, result_status, started_status, LoopAction, LoopEvent,
};
use forge_watch::runtime::{PipelineRunResult, PipelineStatus, RuntimeContext};
use forge_watch::status::WatchStatus;
use std::collections::BTreeMap;

fn result(status: PipelineStatus, reason: Option<&str>) -> PipelineRunResult {
    PipelineRunResult {
        run_id: "run-1".to_string(),
        status,
        failure_reason: reason.map(str::to_string),
        completed_nodes: vec!["a".to_string(), "b".to_string()],
        node_outcomes: BTreeMap::new(),
        context: RuntimeContext::default(),
    }
}

fn no_progress() -> WatchStatus {
    WatchStatus::Running {
        active_nodes: Vec::new(),
        completed_nodes: Vec::new(),
        failed_nodes: Vec::new(),
    }
}

fn failed(reason: &str) -> WatchStatus {
    WatchStatus::Failed { reason: reason.to_string() }
}

#[test]
fn initial_status_depends_on_the_start_signal() {
    assert_eq!(initial_status(true), WatchStatus::WaitingForStart);
    assert_eq!(initial_status(false), WatchStatus::NotStarted);
}

#[test]
fn start_signal_begins_a_run() {
    let mut status = WatchStatus::WaitingForStart;
    assert_eq!(pipeline_step(&mut status, LoopEvent::StartSignal), LoopAction::BuildExecutor);
    assert_eq!(status, no_progress());
    assert_eq!(started_status(), no_progress());
    assert_eq!(pipeline_step(&mut status, LoopEvent::ExecutorReady), LoopAction::Run);
    assert_eq!(status, no_progress());
}

#[test]
fn abandoned_start_changes_nothing() {
    let mut status = WatchStatus::WaitingForStart;
    assert_eq!(pipeline_step(&mut status, LoopEvent::StartAbandoned), LoopAction::Exit);
    assert_eq!(status, WatchStatus::WaitingForStart);
}

#[test]
fn missing_executor_fails_the_run() {
    let mut status = no_progress();
    let event = LoopEvent::ExecutorFailed { reason: "no backend".to_string() };
    assert_eq!(pipeline_step(&mut status, event), LoopAction::Exit);
    assert_eq!(status, failed("no backend"));
}

#[test]
fn broken_run_is_failed() {
    let mut status = no_progress();
    let event = LoopEvent::RunError { message: "boom, stopped by user".to_string() };
    assert_eq!(pipeline_step(&mut status, event), LoopAction::Exit);
    assert_eq!(status, failed("boom, stopped by user"));
}

#[test]
fn successful_run_is_completed() {
    let mut status = no_progress();
    let event = LoopEvent::Finished(result(PipelineStatus::Success, Some("stopped by user")));
    assert_eq!(pipeline_step(&mut status, event), LoopAction::Exit);
    assert_eq!(
        status,
        WatchStatus::Completed {
            run_id: "run-1".to_string(),
            completed_nodes: vec!["a".to_string(), "b".to_string()],
        }
    );
}

#[test]
fn run_stopped_by_the_user_is_stopped() {
    let stopped = WatchStatus::Stopped {
        completed_nodes: vec!["a".to_string(), "b".to_string()],
        reason: "Stopped by user".to_string(),
    };
    let reason = Some("pipeline stopped by user at node x");
    assert_eq!(result_status(result(PipelineStatus::Fail, reason)), stopped);
}

#[test]
fn failed_run_tells_why() {
    let why = result(PipelineStatus::Fail, Some("Stopped by user"));
    assert_eq!(result_status(why), failed("Stopped by user"));
    assert_eq!(result_status(result(PipelineStatus::Fail, Some(""))), failed(""));
    assert_eq!(result_status(result(PipelineStatus::Fail, None)), failed("pipeline failed"));
}
