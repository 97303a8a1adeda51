use forge_watch::events::{
    InterviewEvent, ParallelEvent, PipelineEvent, RuntimeEvent, RuntimeEventKind, StageEvent,
};
use forge_watch::status::{resume_status, status_after, update_status, WatchStatus};

fn s(name: &str) -> String {
    name.to_string()
}

fn list(names: &[&str]) -> Vec<String> {
    names.iter().map(|n| n.to_string()).collect()
}

fn running(active: &[&str], completed: &[&str], failed: &[&str]) -> WatchStatus {
    WatchStatus::Running {
        active_nodes: list(active),
        completed_nodes: list(completed),
        failed_nodes: list(failed),
    }
}

fn paused(active: &[&str], completed: &[&str], failed: &[&str], at: &str) -> WatchStatus {
    WatchStatus::Paused {
        active_nodes: list(active),
        completed_nodes: list(completed),
        failed_nodes: list(failed),
        paused_at_node: Some(s(at)),
    }
}

fn after(status: WatchStatus, kind: RuntimeEventKind) -> WatchStatus {
    let mut moved = status.clone();
    update_status(&mut moved, &RuntimeEvent { kind: kind.clone() });
    assert_eq!(status_after(status, &RuntimeEvent { kind }), moved);
    moved
}

fn stage_started(n: &str) -> RuntimeEventKind {
    RuntimeEventKind::Stage(StageEvent::Started { node_id: s(n) })
}

fn stage_completed(n: &str) -> RuntimeEventKind {
    RuntimeEventKind::Stage(StageEvent::Completed { node_id: s(n) })
}

fn stage_failed(n: &str, will_retry: bool) -> RuntimeEventKind {
    RuntimeEventKind::Stage(StageEvent::Failed { node_id: s(n), will_retry })
}

fn pause(n: &str) -> RuntimeEventKind {
    RuntimeEventKind::Pipeline(PipelineEvent::Paused { node_id: s(n) })
}

fn stop(reason: &str) -> RuntimeEventKind {
    RuntimeEventKind::Pipeline(PipelineEvent::Stopped { reason: s(reason) })
}

#[test]
fn started_stage_is_active_once() {
    let one = after(running(&[], &[], &[]), stage_started("a"));
    assert_eq!(one, running(&["a"], &[], &[]));
    assert_eq!(after(one, stage_started("a")), running(&["a"], &[], &[]));
}

#[test]
fn completed_stage_is_listed_once() {
    let done = after(running(&["a", "b"], &[], &[]), stage_completed("a"));
    assert_eq!(done, running(&["b"], &["a"], &[]));
    assert_eq!(after(done, stage_completed("a")), running(&["b"], &["a"], &[]));
}

#[test]
fn failed_stage_is_listed_each_time() {
    let once = after(running(&["a"], &[], &[]), stage_failed("a", false));
    assert_eq!(once, running(&[], &[], &["a"]));
    assert_eq!(after(once, stage_failed("a", false)), running(&[], &[], &["a", "a"]));
}

#[test]
fn retried_stage_stays_active() {
    let status = running(&["a"], &[], &[]);
    assert_eq!(after(status.clone(), stage_failed("a", true)), status);
    let retrying = RuntimeEventKind::Stage(StageEvent::Retrying { node_id: s("a") });
    assert_eq!(after(status.clone(), retrying), status);
}

#[test]
fn parallel_events_move_nodes() {
    let kind = RuntimeEventKind::Parallel;
    let status = running(&[], &[], &[]);
    let status = after(status, kind(ParallelEvent::Started { node_id: s("fan") }));
    let status = after(status, kind(ParallelEvent::BranchStarted { target_node: s("x") }));
    assert_eq!(status, running(&["fan", "x"], &[], &[]));
    let status = after(status, kind(ParallelEvent::BranchCompleted { target_node: s("x") }));
    assert_eq!(status, running(&["fan"], &["x"], &[]));
    let status = after(status, kind(ParallelEvent::Completed { node_id: s("fan") }));
    assert_eq!(status, running(&[], &["x", "fan"], &[]));
}

#[test]
fn interview_events_move_nodes() {
    let kind = RuntimeEventKind::Interview;
    let status = after(running(&[], &[], &[]), kind(InterviewEvent::Started { node_id: s("q") }));
    assert_eq!(status, running(&["q"], &[], &[]));
    assert_eq!(
        after(status.clone(), kind(InterviewEvent::Completed { node_id: s("q") })),
        running(&[], &["q"], &[])
    );
    assert_eq!(
        after(status, kind(InterviewEvent::Timeout { node_id: s("q") })),
        running(&[], &["q"], &[])
    );
}

#[test]
fn pause_keeps_progress_and_names_the_node() {
    let status = after(running(&["a"], &["b"], &["c"]), pause("n"));
    assert_eq!(status, paused(&["a"], &["b"], &["c"], "n"));
    assert_eq!(after(status, pause("m")), paused(&["a"], &["b"], &["c"], "m"));
}

#[test]
fn resume_undoes_pause() {
    let status = running(&["a"], &["b"], &["c"]);
    for event in [PipelineEvent::Resumed, PipelineEvent::Started] {
        let back = after(after(status.clone(), pause("n")), RuntimeEventKind::Pipeline(event));
        assert_eq!(back, status);
    }
    assert_eq!(resume_status(paused(&["a"], &["b"], &["c"], "n")), status);
    assert_eq!(resume_status(WatchStatus::NotStarted), WatchStatus::NotStarted);
}

#[test]
fn node_events_count_while_paused() {
    let status = after(paused(&["a"], &[], &[], "n"), stage_completed("a"));
    assert_eq!(status, paused(&[], &["a"], &[], "n"));
}

#[test]
fn stop_keeps_the_completed_nodes() {
    let stopped = WatchStatus::Stopped { completed_nodes: list(&["b"]), reason: s("why") };
    assert_eq!(after(running(&["a"], &["b"], &["c"]), stop("why")), stopped);
    assert_eq!(after(paused(&["a"], &["b"], &["c"], "n"), stop("why")), stopped);
}

#[test]
fn idle_pipeline_is_moved_by_a_stop_only() {
    let idle = [
        WatchStatus::WaitingForStart,
        WatchStatus::NotStarted,
        WatchStatus::Completed { run_id: s("r"), completed_nodes: list(&["a"]) },
        WatchStatus::Stopped { completed_nodes: list(&["a"]), reason: s("x") },
        WatchStatus::Failed { reason: s("x") },
    ];
    for status in idle {
        for kind in [
            stage_started("a"),
            stage_completed("a"),
            stage_failed("a", false),
            pause("n"),
            RuntimeEventKind::Pipeline(PipelineEvent::Started),
            RuntimeEventKind::Pipeline(PipelineEvent::Resumed),
            RuntimeEventKind::Pipeline(PipelineEvent::Other),
            RuntimeEventKind::Other,
        ] {
            assert_eq!(after(status.clone(), kind), status);
        }
        assert_eq!(
            after(status, stop("why")),
            WatchStatus::Stopped { completed_nodes: Vec::new(), reason: s("why") }
        );
    }
}

#[test]
fn other_events_change_nothing() {
    let status = running(&["a"], &["b"], &["c"]);
    assert_eq!(after(status.clone(), RuntimeEventKind::Other), status);
    let other = RuntimeEventKind::Pipeline(PipelineEvent::Other);
    assert_eq!(after(status.clone(), other), status);
    let resumed = RuntimeEventKind::Pipeline(PipelineEvent::Resumed);
    assert_eq!(after(status.clone(), resumed), status);
}

#[test]
fn status_tells_the_history_of_each_node() {
    let mut status = running(&[], &[], &[]);
    for kind in [
        stage_started("a"),
        pause("b"),
        stage_completed("a"),
        RuntimeEventKind::Pipeline(PipelineEvent::Resumed),
        stage_started("b"),
        stage_failed("b", false),
        stage_started("b"),
    ] {
        status = after(status, kind);
    }
    assert_eq!(status, running(&["b"], &["a"], &["b"]));
}
