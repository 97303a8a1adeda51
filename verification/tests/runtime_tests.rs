use forge_watch::runtime::{
    CxdbPersistenceMode, NodeExecutor, NodeOutcome, NodeStatus, NoopNodeExecutor, RunConfig,
    RunParts, RuntimeContext, DEFAULT_MAX_LOOP_RESTARTS,
};
use std::path::PathBuf;

#[test]
fn statuses_have_their_names() {
    assert_eq!(NodeStatus::Success.as_str(), "success");
    assert_eq!(NodeStatus::PartialSuccess.as_str(), "partial_success");
    assert_eq!(NodeStatus::Retry.as_str(), "retry");
    assert_eq!(NodeStatus::Fail.as_str(), "fail");
    assert_eq!(NodeStatus::Skipped.as_str(), "skipped");
}

#[test]
fn status_names_differ() {
    let all = [
        NodeStatus::Success,
        NodeStatus::PartialSuccess,
        NodeStatus::Retry,
        NodeStatus::Fail,
        NodeStatus::Skipped,
    ];
    for a in all {
        for b in all {
            assert_eq!(a.as_str() == b.as_str(), a == b);
        }
    }
}

#[test]
fn success_and_partial_success_are_success_like() {
    assert!(NodeStatus::Success.is_success_like());
    assert!(NodeStatus::PartialSuccess.is_success_like());
    assert!(!NodeStatus::Retry.is_success_like());
    assert!(!NodeStatus::Fail.is_success_like());
    assert!(!NodeStatus::Skipped.is_success_like());
}

#[test]
fn default_status_is_success() {
    assert_eq!(NodeStatus::default(), NodeStatus::Success);
}

#[test]
fn success_reports_nothing() {
    let outcome = NodeOutcome::success();
    assert_eq!(outcome, NodeOutcome::default());
    assert_eq!(outcome.status, NodeStatus::Success);
    assert_eq!(outcome.notes, None);
    assert_eq!(outcome.failure_reason, None);
    assert_eq!(outcome.context_updates, RuntimeContext::default());
    assert_eq!(outcome.preferred_label, None);
    assert!(outcome.suggested_next_ids.is_empty());
}

#[test]
fn failure_has_its_reason_twice() {
    let outcome = NodeOutcome::failure("disk full");
    assert_eq!(outcome, NodeOutcome::failure("disk full".to_string()));
    assert_eq!(outcome.status, NodeStatus::Fail);
    assert_eq!(outcome.notes.as_deref(), Some("disk full"));
    assert_eq!(outcome.failure_reason.as_deref(), Some("disk full"));
    assert_eq!(outcome.context_updates, RuntimeContext::default());
    assert_eq!(outcome.preferred_label, None);
    assert!(outcome.suggested_next_ids.is_empty());
}

#[test]
fn noop_executor_succeeds() {
    let executor = NoopNodeExecutor::default();
    let context = RuntimeContext { entries: vec![("a".to_string(), "1".to_string())] };
    let outcome: Result<NodeOutcome, String> = executor.execute(&"node", &context, &());
    assert_eq!(outcome, Ok(NodeOutcome::success()));
}

struct Parts;

impl RunParts for Parts {
    type TurnId = u64;
    type Storage = ();
    type Artifacts = ();
    type FsSnapshotPolicy = ();
    type Events = &'static str;
    type Executor = NoopNodeExecutor;
    type RetryBackoff = u32;
    type Control = ();

    fn default_events() -> &'static str {
        "events"
    }

    fn default_executor() -> NoopNodeExecutor {
        NoopNodeExecutor
    }

    fn default_retry_backoff() -> u32 {
        250
    }
}

#[test]
fn run_config_has_its_defaults() {
    let config = RunConfig::<Parts>::default();
    assert_eq!(config.run_id, None);
    assert_eq!(config.base_turn_id, None);
    assert!(config.storage.is_none());
    assert!(config.artifacts.is_none());
    assert_eq!(config.cxdb_persistence, CxdbPersistenceMode::Off);
    assert!(config.fs_snapshot_policy.is_none());
    assert_eq!(config.events, "events");
    assert_eq!(config.retry_backoff, 250);
    assert_eq!(config.logs_root, None);
    assert_eq!(config.workspace_root, None);
    assert_eq!(config.resume_from_checkpoint, None);
    assert_eq!(config.max_loop_restarts, 16);
    assert_eq!(DEFAULT_MAX_LOOP_RESTARTS, 16);
    assert!(config.control.is_none());
}

#[test]
fn watched_run_has_what_it_is_given() {
    let config = RunConfig::<Parts>::watched(
        Some("run-7".to_string()),
        PathBuf::from("logs"),
        "sink",
        NoopNodeExecutor,
        Some(()),
        None,
        CxdbPersistenceMode::Required,
        (),
    );
    assert_eq!(config.run_id.as_deref(), Some("run-7"));
    assert_eq!(config.logs_root, Some(PathBuf::from("logs")));
    assert_eq!(config.events, "sink");
    assert!(config.storage.is_some());
    assert!(config.artifacts.is_none());
    assert_eq!(config.cxdb_persistence, CxdbPersistenceMode::Required);
    assert!(config.control.is_some());
    assert_eq!(config.base_turn_id, None);
    assert!(config.fs_snapshot_policy.is_none());
    assert_eq!(config.retry_backoff, 250);
    assert_eq!(config.workspace_root, None);
    assert_eq!(config.resume_from_checkpoint, None);
    assert_eq!(config.max_loop_restarts, 16);
}
