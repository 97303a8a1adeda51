//! The runtime events of a pipeline, as far as the watch server follows them.
use vstd::prelude::*;

verus! {

/// Events of the pipeline as a whole.
#[derive(Clone, Debug, PartialEq, Eq)]
pub enum PipelineEvent {
    Started,
    Resumed,
    Paused { node_id: String },
    Stopped { reason: String },
    /// An event of the pipeline that the watch server does not act on.
    Other,
}

/// Events of one stage, that is one node's execution.
#[derive(Clone, Debug, PartialEq, Eq)]
pub enum StageEvent {
    Started { node_id: String },
    Completed { node_id: String },
    Failed { node_id: String, will_retry: bool },
    Retrying { node_id: String },
}

/// Events of a node that runs branches in parallel.
#[derive(Clone, Debug, PartialEq, Eq)]
pub enum ParallelEvent {
    Started { node_id: String },
    BranchStarted { target_node: String },
    BranchCompleted { target_node: String },
    Completed { node_id: String },
}

/// Events of a node that asks a human.
#[derive(Clone, Debug, PartialEq, Eq)]
pub enum InterviewEvent {
    Started { node_id: String },
    Completed { node_id: String },
    Timeout { node_id: String },
}

/// The kinds of runtime events.
#[derive(Clone, Debug, PartialEq, Eq)]
pub enum RuntimeEventKind {
    Pipeline(PipelineEvent),
    Stage(StageEvent),
    Parallel(ParallelEvent),
    Interview(InterviewEvent),
    /// A kind that the watch server does not act on.
    Other,
}

/// One runtime event.
#[derive(Clone, Debug, PartialEq, Eq)]
pub struct RuntimeEvent {
    pub kind: RuntimeEventKind,
}

/// What an event says of one node.
pub enum NodeChange {
    /// The node has begun to run.
    Activate(Seq<char>),
    /// The node has finished.
    Complete(Seq<char>),
    /// The node has failed for good.
    Fail(Seq<char>),
    /// Nothing of any node.
    Keep,
}

/// What an event of this kind says of a node. A failed stage that will be retried says nothing
/// yet: its node stays as it is.
pub open spec fn node_change(kind: RuntimeEventKind) -> NodeChange {
    match kind {
        RuntimeEventKind::Stage(StageEvent::Started { node_id }) => NodeChange::Activate(node_id@),
        RuntimeEventKind::Stage(StageEvent::Completed { node_id }) => NodeChange::Complete(node_id@),
        RuntimeEventKind::Stage(StageEvent::Failed { node_id, will_retry }) => if will_retry {
            NodeChange::Keep
        } else {
            NodeChange::Fail(node_id@)
        },
        RuntimeEventKind::Parallel(ParallelEvent::Started { node_id }) => NodeChange::Activate(
            node_id@,
        ),
        RuntimeEventKind::Parallel(ParallelEvent::BranchStarted { target_node }) =>
            NodeChange::Activate(target_node@),
        RuntimeEventKind::Parallel(ParallelEvent::BranchCompleted { target_node }) =>
            NodeChange::Complete(target_node@),
        RuntimeEventKind::Parallel(ParallelEvent::Completed { node_id }) => NodeChange::Complete(
            node_id@,
        ),
        RuntimeEventKind::Interview(InterviewEvent::Started { node_id }) => NodeChange::Activate(
            node_id@,
        ),
        RuntimeEventKind::Interview(InterviewEvent::Completed { node_id }) => NodeChange::Complete(
            node_id@,
        ),
        RuntimeEventKind::Interview(InterviewEvent::Timeout { node_id }) => NodeChange::Complete(
            node_id@,
        ),
        _ => NodeChange::Keep,
    }
}

} // verus!
