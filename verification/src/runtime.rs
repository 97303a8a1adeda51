//! What nodes and runs of a pipeline give back, and how a run is configured.
use crate::text::{names, opt_text};
use std::collections::BTreeMap;
use std::path::PathBuf;
use vstd::prelude::*;

verus! {

/// `std::path::PathBuf`. Nothing is claimed of what it holds.
#[verifier::external_type_specification]
#[verifier::external_body]
pub struct ExPathBuf(std::path::PathBuf);

/// `String::from` of a string slice. Claimed of it: the string has the text of the slice.
pub assume_specification<'a>[ <String as core::convert::From<&'a str>>::from ](
    s: &str,
) -> (r: String)
    ensures
        r@ == s@,
;

/// `From::from` of a value of the type itself, by which a `String` turns into a `String` when it
/// is handed to `NodeOutcome::failure`. Claimed of it: it gives the value back.
pub assume_specification<T>[ <T as core::convert::From<T>>::from ](t: T) -> (r: T)
    ensures
        r == t,
;

/// How the execution of a node ended.
#[derive(Clone, Copy, Debug, PartialEq, Eq, Structural)]
pub enum NodeStatus {
    Success,
    PartialSuccess,
    Retry,
    Fail,
    Skipped,
}

/// The name of a node status.
pub open spec fn status_name(status: NodeStatus) -> Seq<char> {
    match status {
        NodeStatus::Success => "success"@,
        NodeStatus::PartialSuccess => "partial_success"@,
        NodeStatus::Retry => "retry"@,
        NodeStatus::Fail => "fail"@,
        NodeStatus::Skipped => "skipped"@,
    }
}

impl NodeStatus {
    /// The name of the status.
    pub fn as_str(self) -> (r: &'static str)
        ensures
            r@ == status_name(self),
    {
        match self {
            NodeStatus::Success => "success",
            NodeStatus::PartialSuccess => "partial_success",
            NodeStatus::Retry => "retry",
            NodeStatus::Fail => "fail",
            NodeStatus::Skipped => "skipped",
        }
    }

    /// Whether the node succeeded, at least in part.
    pub fn is_success_like(self) -> (r: bool)
        ensures
            r == (self is Success || self is PartialSuccess),
    {
        matches!(self, NodeStatus::Success | NodeStatus::PartialSuccess)
    }
}

impl Default for NodeStatus {
    fn default() -> (r: NodeStatus)
        ensures
            r == NodeStatus::Success,
    {
        NodeStatus::Success
    }
}

/// No two statuses share a name.
pub proof fn law_status_names_differ(a: NodeStatus, b: NodeStatus)
    requires
        status_name(a) == status_name(b),
    ensures
        a == b,
{
    reveal_strlit("success");
    reveal_strlit("partial_success");
    reveal_strlit("retry");
    reveal_strlit("fail");
    reveal_strlit("skipped");
    assert("success"@.len() == 7);
    assert("partial_success"@.len() == 15);
    assert("retry"@.len() == 5);
    assert("fail"@.len() == 4);
    assert("skipped"@.len() == 7);
    assert("success"@[1] != "skipped"@[1]);
}

/// Each status has its own name.
pub proof fn law_status_names(status: NodeStatus)
    ensures
        status_name(status) == "success"@ <==> status is Success,
        status_name(status) == "partial_success"@ <==> status is PartialSuccess,
        status_name(status) == "retry"@ <==> status is Retry,
        status_name(status) == "fail"@ <==> status is Fail,
        status_name(status) == "skipped"@ <==> status is Skipped,
{
    if status_name(status) == "success"@ {
        law_status_names_differ(status, NodeStatus::Success);
    }
    if status_name(status) == "partial_success"@ {
        law_status_names_differ(status, NodeStatus::PartialSuccess);
    }
    if status_name(status) == "retry"@ {
        law_status_names_differ(status, NodeStatus::Retry);
    }
    if status_name(status) == "fail"@ {
        law_status_names_differ(status, NodeStatus::Fail);
    }
    if status_name(status) == "skipped"@ {
        law_status_names_differ(status, NodeStatus::Skipped);
    }
}

/// The values that nodes share, each a name with the JSON text of its value.
#[derive(Clone, Debug, PartialEq, Eq)]
pub struct RuntimeContext {
    pub entries: Vec<(String, String)>,
}

impl View for RuntimeContext {
    type V = Seq<(Seq<char>, Seq<char>)>;

    open spec fn view(&self) -> Seq<(Seq<char>, Seq<char>)> {
        self.entries@.map_values(|e: (String, String)| (e.0@, e.1@))
    }
}

impl Default for RuntimeContext {
    fn default() -> (r: RuntimeContext)
        ensures
            r@ == Seq::<(Seq<char>, Seq<char>)>::empty(),
    {
        let r = RuntimeContext { entries: Vec::new() };
        assert(r@ =~= Seq::<(Seq<char>, Seq<char>)>::empty());
        r
    }
}

/// What the execution of a node gave.
#[derive(Clone, Debug, PartialEq)]
pub struct NodeOutcome {
    pub status: NodeStatus,
    pub notes: Option<String>,
    pub failure_reason: Option<String>,
    pub context_updates: RuntimeContext,
    pub preferred_label: Option<String>,
    pub suggested_next_ids: Vec<String>,
}

/// What a `NodeOutcome` says.
pub struct OutcomeView {
    pub status: NodeStatus,
    pub notes: Option<Seq<char>>,
    pub failure_reason: Option<Seq<char>>,
    pub context_updates: Seq<(Seq<char>, Seq<char>)>,
    pub preferred_label: Option<Seq<char>>,
    pub suggested_next_ids: Seq<Seq<char>>,
}

impl View for NodeOutcome {
    type V = OutcomeView;

    open spec fn view(&self) -> OutcomeView {
        OutcomeView {
            status: self.status,
            notes: opt_text(self.notes),
            failure_reason: opt_text(self.failure_reason),
            context_updates: self.context_updates@,
            preferred_label: opt_text(self.preferred_label),
            suggested_next_ids: names(self.suggested_next_ids@),
        }
    }
}

/// An outcome with this status and this reason of a failure, and with nothing else. The reason
/// stands in the notes, too.
pub open spec fn bare_outcome(status: NodeStatus, reason: Option<Seq<char>>) -> OutcomeView {
    OutcomeView {
        status,
        notes: reason,
        failure_reason: reason,
        context_updates: Seq::empty(),
        preferred_label: None,
        suggested_next_ids: Seq::empty(),
    }
}

/// An outcome is shown as it is.
pub proof fn law_outcome_is_shown(outcome: NodeOutcome)
    ensures
        outcome@.status == outcome.status,
        outcome@.notes == opt_text(outcome.notes),
        outcome@.failure_reason == opt_text(outcome.failure_reason),
        outcome@.preferred_label == opt_text(outcome.preferred_label),
        outcome@.suggested_next_ids == names(outcome.suggested_next_ids@),
        outcome@.context_updates.len() == outcome.context_updates.entries@.len(),
        forall|i: int|
            0 <= i < outcome.context_updates.entries@.len() ==> (
            #[trigger] outcome@.context_updates[i]).0 == outcome.context_updates.entries@[i].0@
                && outcome@.context_updates[i].1 == outcome.context_updates.entries@[i].1@,
{
}

/// A bare outcome tells its status and its reason, the reason both as such and in the notes, and
/// tells nothing else.
pub proof fn law_bare_outcome_tells_its_reason(status: NodeStatus, reason: Option<Seq<char>>)
    ensures
        bare_outcome(status, reason).status == status,
        bare_outcome(status, reason).failure_reason == reason,
        bare_outcome(status, reason).notes == bare_outcome(status, reason).failure_reason,
        bare_outcome(status, reason).context_updates.len() == 0,
        bare_outcome(status, reason).preferred_label is None,
        bare_outcome(status, reason).suggested_next_ids.len() == 0,
{
}

impl Default for NodeOutcome {
    fn default() -> (r: NodeOutcome)
        ensures
            r@ == bare_outcome(NodeStatus::Success, None),
    {
        let r = NodeOutcome {
            status: NodeStatus::Success,
            notes: None,
            failure_reason: None,
            context_updates: RuntimeContext::default(),
            preferred_label: None,
            suggested_next_ids: Vec::new(),
        };
        assert(r@.suggested_next_ids =~= Seq::<Seq<char>>::empty());
        r
    }
}

impl NodeOutcome {
    /// A success with nothing to report.
    pub fn success() -> (r: NodeOutcome)
        ensures
            r@ == bare_outcome(NodeStatus::Success, None),
    {
        NodeOutcome::default()
    }

    /// A failure for the given reason.
    pub fn failure(reason: impl Into<String>) -> (r: NodeOutcome)
        ensures
            exists|text: String|
                call_ensures(Into::<String>::into, (reason,), text) && r@ == bare_outcome(
                    NodeStatus::Fail,
                    Some(text@),
                ),
    {
        let reason: String = reason.into();
        let r = NodeOutcome {
            status: NodeStatus::Fail,
            notes: Some(reason.clone()),
            failure_reason: Some(reason),
            context_updates: RuntimeContext::default(),
            preferred_label: None,
            suggested_next_ids: Vec::new(),
        };
        assert(r@.suggested_next_ids =~= Seq::<Seq<char>>::empty());
        assert(r@ == bare_outcome(NodeStatus::Fail, Some(reason@)));
        r
    }
}

/// Executes the nodes of a pipeline, whose nodes, graph and errors are `N`, `G` and `E`.
pub trait NodeExecutor<N, G, E>: Send + Sync {
    /// Executes one node.
    fn execute(&self, node: &N, context: &RuntimeContext, graph: &G) -> Result<NodeOutcome, E>;
}

/// An executor under which every node succeeds at once.
#[derive(Debug)]
pub struct NoopNodeExecutor;

impl Default for NoopNodeExecutor {
    fn default() -> (r: NoopNodeExecutor)
        ensures
            r == NoopNodeExecutor,
    {
        NoopNodeExecutor
    }
}

/// Whether an execution gave a success with nothing to report.
pub open spec fn is_bare_success<E>(r: Result<NodeOutcome, E>) -> bool {
    match r {
        Ok(outcome) => outcome@ == bare_outcome(NodeStatus::Success, None),
        Err(_) => false,
    }
}

/// A bare success is a success that says nothing, and an error is none.
pub proof fn law_bare_success_says_nothing<E>(r: Result<NodeOutcome, E>)
    requires
        is_bare_success::<E>(r),
    ensures
        r is Ok,
        r->Ok_0@.status is Success,
        r->Ok_0@.notes is None,
        r->Ok_0@.failure_reason is None,
        r->Ok_0@.context_updates.len() == 0,
        r->Ok_0@.preferred_label is None,
        r->Ok_0@.suggested_next_ids.len() == 0,
{
}

impl<N, G, E> NodeExecutor<N, G, E> for NoopNodeExecutor {
    fn execute(&self, node: &N, context: &RuntimeContext, graph: &G) -> (r: Result<NodeOutcome, E>)
        ensures
            is_bare_success::<E>(r),
    {
        Ok(NodeOutcome::success())
    }
}

/// Whether a run keeps its turns in the context database.
#[derive(Clone, Copy, Debug, PartialEq, Eq, Structural)]
pub enum CxdbPersistenceMode {
    Off,
    Required,
}

/// The parts that a run is put together from, and those of them that it has unless told
/// otherwise.
pub trait RunParts {
    type TurnId;

    type Storage;

    type Artifacts;

    type FsSnapshotPolicy;

    type Events;

    type Executor;

    type RetryBackoff;

    type Control;

    fn default_events() -> Self::Events;

    fn default_executor() -> Self::Executor;

    fn default_retry_backoff() -> Self::RetryBackoff;
}

/// How often a run may restart a loop unless told otherwise.
pub const DEFAULT_MAX_LOOP_RESTARTS: u32 = 16;

/// A run restarts a loop up to sixteen times unless told otherwise.
pub proof fn law_default_loop_restarts()
    ensures
        DEFAULT_MAX_LOOP_RESTARTS == 16,
{
}

/// The configuration of a run.
pub struct RunConfig<P: RunParts> {
    pub run_id: Option<String>,
    pub base_turn_id: Option<P::TurnId>,
    pub storage: Option<P::Storage>,
    pub artifacts: Option<P::Artifacts>,
    pub cxdb_persistence: CxdbPersistenceMode,
    pub fs_snapshot_policy: Option<P::FsSnapshotPolicy>,
    pub events: P::Events,
    pub executor: P::Executor,
    pub retry_backoff: P::RetryBackoff,
    pub logs_root: Option<PathBuf>,
    pub workspace_root: Option<PathBuf>,
    pub resume_from_checkpoint: Option<PathBuf>,
    pub max_loop_restarts: u32,
    pub control: Option<P::Control>,
}

impl<P: RunParts> Default for RunConfig<P> {
    fn default() -> (r: RunConfig<P>)
        ensures
            r.run_id is None,
            r.base_turn_id is None,
            r.storage is None,
            r.artifacts is None,
            r.cxdb_persistence is Off,
            r.fs_snapshot_policy is None,
            call_ensures(P::default_events, (), r.events),
            call_ensures(P::default_executor, (), r.executor),
            call_ensures(P::default_retry_backoff, (), r.retry_backoff),
            r.logs_root is None,
            r.workspace_root is None,
            r.resume_from_checkpoint is None,
            r.max_loop_restarts == DEFAULT_MAX_LOOP_RESTARTS,
            r.control is None,
    {
        RunConfig {
            run_id: None,
            base_turn_id: None,
            storage: None,
            artifacts: None,
            cxdb_persistence: CxdbPersistenceMode::Off,
            fs_snapshot_policy: None,
            events: P::default_events(),
            executor: P::default_executor(),
            retry_backoff: P::default_retry_backoff(),
            logs_root: None,
            workspace_root: None,
            resume_from_checkpoint: None,
            max_loop_restarts: DEFAULT_MAX_LOOP_RESTARTS,
            control: None,
        }
    }
}

impl<P: RunParts> RunConfig<P> {
    /// The configuration of a run that is watched: its events, its control and its log directory
    /// are given, and what is not given is as in every run.
    pub fn watched(
        run_id: Option<String>,
        logs_root: PathBuf,
        events: P::Events,
        executor: P::Executor,
        storage: Option<P::Storage>,
        artifacts: Option<P::Artifacts>,
        cxdb_persistence: CxdbPersistenceMode,
        control: P::Control,
    ) -> (r: RunConfig<P>)
        ensures
            r.run_id == run_id,
            r.base_turn_id is None,
            r.storage == storage,
            r.artifacts == artifacts,
            r.cxdb_persistence == cxdb_persistence,
            r.fs_snapshot_policy is None,
            r.events == events,
            r.executor == executor,
            call_ensures(P::default_retry_backoff, (), r.retry_backoff),
            r.logs_root == Some(logs_root),
            r.workspace_root is None,
            r.resume_from_checkpoint is None,
            r.max_loop_restarts == DEFAULT_MAX_LOOP_RESTARTS,
            r.control == Some(control),
    {
        RunConfig {
            run_id,
            logs_root: Some(logs_root),
            events,
            executor,
            storage,
            artifacts,
            cxdb_persistence,
            control: Some(control),
            ..RunConfig::default()
        }
    }
}

/// How a run ended.
#[derive(Clone, Copy, Debug, PartialEq, Eq, Structural)]
pub enum PipelineStatus {
    Success,
    Fail,
}

/// What a run gave.
#[derive(Clone, Debug, PartialEq)]
pub struct PipelineRunResult {
    pub run_id: String,
    pub status: PipelineStatus,
    pub failure_reason: Option<String>,
    pub completed_nodes: Vec<String>,
    pub node_outcomes: BTreeMap<String, NodeOutcome>,
    pub context: RuntimeContext,
}

} // verus!
