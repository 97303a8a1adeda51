//! The status that viewers of a pipeline see, and how events move it.
use crate::events::{
    node_change, InterviewEvent, NodeChange, ParallelEvent, PipelineEvent, RuntimeEvent,
    RuntimeEventKind, StageEvent,
};
use crate::text::{names, opt_text};
use vstd::prelude::*;

verus! {

/// The status of the watched pipeline.
#[derive(Clone, Debug, PartialEq, Eq)]
pub enum WatchStatus {
    WaitingForStart,
    NotStarted,
    Running {
        active_nodes: Vec<String>,
        completed_nodes: Vec<String>,
        failed_nodes: Vec<String>,
    },
    Paused {
        active_nodes: Vec<String>,
        completed_nodes: Vec<String>,
        failed_nodes: Vec<String>,
        paused_at_node: Option<String>,
    },
    Completed { run_id: String, completed_nodes: Vec<String> },
    Stopped { completed_nodes: Vec<String>, reason: String },
    Failed { reason: String },
}

/// Where the nodes of a pipeline stand.
#[verifier::ext_equal]
pub struct Progress {
    pub active: Set<Seq<char>>,
    pub completed: Seq<Seq<char>>,
    pub failed: Seq<Seq<char>>,
}

/// What a `WatchStatus` says.
#[verifier::ext_equal]
pub enum StatusView {
    WaitingForStart,
    NotStarted,
    Running { progress: Progress },
    Paused { progress: Progress, at: Option<Seq<char>> },
    Completed { run_id: Seq<char>, completed: Seq<Seq<char>> },
    Stopped { completed: Seq<Seq<char>>, reason: Seq<char> },
    Failed { reason: Seq<char> },
}

/// The progress that three lists of node names stand for.
pub open spec fn progress_of(
    active: Seq<String>,
    completed: Seq<String>,
    failed: Seq<String>,
) -> Progress {
    Progress {
        active: names(active).to_set(),
        completed: names(completed),
        failed: names(failed),
    }
}

impl View for WatchStatus {
    type V = StatusView;

    open spec fn view(&self) -> StatusView {
        match self {
            WatchStatus::WaitingForStart => StatusView::WaitingForStart,
            WatchStatus::NotStarted => StatusView::NotStarted,
            WatchStatus::Running { active_nodes, completed_nodes, failed_nodes } =>
                StatusView::Running {
                    progress: progress_of(active_nodes@, completed_nodes@, failed_nodes@),
                },
            WatchStatus::Paused { active_nodes, completed_nodes, failed_nodes, paused_at_node } =>
                StatusView::Paused {
                    progress: progress_of(active_nodes@, completed_nodes@, failed_nodes@),
                    at: opt_text(*paused_at_node),
                },
            WatchStatus::Completed { run_id, completed_nodes } => StatusView::Completed {
                run_id: run_id@,
                completed: names(completed_nodes@),
            },
            WatchStatus::Stopped { completed_nodes, reason } => StatusView::Stopped {
                completed: names(completed_nodes@),
                reason: reason@,
            },
            WatchStatus::Failed { reason } => StatusView::Failed { reason: reason@ },
        }
    }
}

impl WatchStatus {
    /// No node is listed as active twice.
    pub open spec fn wf(&self) -> bool {
        match self {
            WatchStatus::Running { active_nodes, .. } => names(active_nodes@).no_duplicates(),
            WatchStatus::Paused { active_nodes, .. } => names(active_nodes@).no_duplicates(),
            _ => true,
        }
    }
}

/// The progress after a change to one node. A node is listed as completed once, however often
/// it completes; a node that fails is listed each time.
pub open spec fn apply_change(p: Progress, change: NodeChange) -> Progress {
    match change {
        NodeChange::Activate(n) => Progress { active: p.active.insert(n), ..p },
        NodeChange::Complete(n) => Progress {
            active: p.active.remove(n),
            completed: if p.completed.contains(n) {
                p.completed
            } else {
                p.completed.push(n)
            },
            ..p
        },
        NodeChange::Fail(n) => Progress {
            active: p.active.remove(n),
            failed: p.failed.push(n),
            ..p
        },
        NodeChange::Keep => p,
    }
}

/// The nodes that a status reports as completed when the pipeline is stopped in it.
pub open spec fn completed_when_stopped(s: StatusView) -> Seq<Seq<char>> {
    match s {
        StatusView::Running { progress } => progress.completed,
        StatusView::Paused { progress, .. } => progress.completed,
        _ => Seq::empty(),
    }
}

/// A paused pipeline runs on with the progress it had; any other status stays.
pub open spec fn resumed(s: StatusView) -> StatusView {
    match s {
        StatusView::Paused { progress, .. } => StatusView::Running { progress },
        _ => s,
    }
}

/// The status after an event of the given kind.
pub open spec fn next_status(s: StatusView, kind: RuntimeEventKind) -> StatusView {
    match kind {
        RuntimeEventKind::Pipeline(PipelineEvent::Paused { node_id }) => match s {
            StatusView::Running { progress } => StatusView::Paused { progress, at: Some(node_id@) },
            StatusView::Paused { progress, .. } => StatusView::Paused {
                progress,
                at: Some(node_id@),
            },
            _ => s,
        },
        RuntimeEventKind::Pipeline(PipelineEvent::Stopped { reason }) => StatusView::Stopped {
            completed: completed_when_stopped(s),
            reason: reason@,
        },
        RuntimeEventKind::Pipeline(PipelineEvent::Started) => resumed(s),
        RuntimeEventKind::Pipeline(PipelineEvent::Resumed) => resumed(s),
        _ => match s {
            StatusView::Running { progress } => StatusView::Running {
                progress: apply_change(progress, node_change(kind)),
            },
            StatusView::Paused { progress, at } => StatusView::Paused {
                progress: apply_change(progress, node_change(kind)),
                at,
            },
            _ => s,
        },
    }
}

/// Whether `node` is in the list.
fn lists(v: &Vec<String>, node: &String) -> (r: bool)
    ensures
        r == names(v@).contains(node@),
{
    let mut i: usize = 0;
    while i < v.len()
        invariant
            i <= v.len(),
            forall|j: int| 0 <= j < i ==> names(v@)[j] != node@,
        decreases v.len() - i,
    {
        if v[i] == *node {
            assert(names(v@)[i as int] == node@);
            return true;
        }
        i += 1;
    }
    false
}

/// Adds `node` unless it is there.
fn insert_node(v: &mut Vec<String>, node: &String)
    ensures
        names(final(v)@) == if names(old(v)@).contains(node@) {
            names(old(v)@)
        } else {
            names(old(v)@).push(node@)
        },
        names(final(v)@).to_set() == names(old(v)@).to_set().insert(node@),
        names(old(v)@).no_duplicates() ==> names(final(v)@).no_duplicates(),
{
    if !lists(v, node) {
        v.push(node.clone());
        assert(names(v@) =~= names(old(v)@).push(node@));
        proof {
            names(old(v)@).lemma_push_to_set_commute(node@);
        }
    } else {
        assert(names(old(v)@).to_set().insert(node@) =~= names(old(v)@).to_set());
    }
}

/// Takes `node` off the list, wherever it stands.
fn remove_node(v: &mut Vec<String>, node: &String)
    ensures
        names(final(v)@).to_set() == names(old(v)@).to_set().remove(node@),
        names(old(v)@).no_duplicates() ==> names(final(v)@).no_duplicates(),
{
    let mut kept: Vec<String> = Vec::new();
    let mut i: usize = 0;
    assert(names(v@).take(0) =~= Seq::<Seq<char>>::empty());
    assert(names(kept@).to_set() =~= names(v@).take(0).to_set().remove(node@));
    while i < v.len()
        invariant
            i <= v.len(),
            v@ == old(v)@,
            names(kept@).to_set() == names(v@).take(i as int).to_set().remove(node@),
            names(v@).no_duplicates() ==> names(kept@).no_duplicates(),
        decreases v.len() - i,
    {
        let ghost all = names(v@);
        let ghost before = names(kept@);
        proof {
            assert(all.take(i + 1) =~= all.take(i as int).push(all[i as int]));
            all.take(i as int).lemma_push_to_set_commute(all[i as int]);
            if all.no_duplicates() {
                assert(!all.take(i as int).contains(all[i as int]));
                assert(!all.take(i as int).to_set().contains(all[i as int]));
                assert(!before.to_set().contains(all[i as int]));
            }
        }
        if v[i] == *node {
            assert(names(kept@).to_set() =~= all.take(i + 1).to_set().remove(node@));
        } else {
            kept.push(v[i].clone());
            proof {
                assert(names(kept@) =~= before.push(all[i as int]));
                before.lemma_push_to_set_commute(all[i as int]);
                assert(names(kept@).to_set() =~= all.take(i + 1).to_set().remove(node@));
            }
        }
        i += 1;
    }
    assert(names(v@).take(i as int) =~= names(v@));
    *v = kept;
}

/// Marks `node` as running.
fn activate(active: &mut Vec<String>, node: &String)
    ensures
        names(final(active)@).to_set() == names(old(active)@).to_set().insert(node@),
        names(old(active)@).no_duplicates() ==> names(final(active)@).no_duplicates(),
{
    insert_node(active, node)
}

/// Marks `node` as completed.
fn complete(active: &mut Vec<String>, completed: &mut Vec<String>, node: &String)
    ensures
        names(final(active)@).to_set() == names(old(active)@).to_set().remove(node@),
        names(old(active)@).no_duplicates() ==> names(final(active)@).no_duplicates(),
        names(final(completed)@) == if names(old(completed)@).contains(node@) {
            names(old(completed)@)
        } else {
            names(old(completed)@).push(node@)
        },
{
    remove_node(active, node);
    insert_node(completed, node);
}

/// Marks `node` as failed.
fn fail(active: &mut Vec<String>, failed: &mut Vec<String>, node: &String)
    ensures
        names(final(active)@).to_set() == names(old(active)@).to_set().remove(node@),
        names(old(active)@).no_duplicates() ==> names(final(active)@).no_duplicates(),
        names(final(failed)@) == names(old(failed)@).push(node@),
{
    remove_node(active, node);
    failed.push(node.clone());
    assert(names(failed@) =~= names(old(failed)@).push(node@));
}

/// Applies what an event says of a node to the three lists.
fn apply_node_event(
    active: &mut Vec<String>,
    completed: &mut Vec<String>,
    failed: &mut Vec<String>,
    kind: &RuntimeEventKind,
)
    ensures
        progress_of(final(active)@, final(completed)@, final(failed)@) == apply_change(
            progress_of(old(active)@, old(completed)@, old(failed)@),
            node_change(*kind),
        ),
        names(old(active)@).no_duplicates() ==> names(final(active)@).no_duplicates(),
{
    match kind {
        RuntimeEventKind::Stage(stage) => match stage {
            StageEvent::Started { node_id } => activate(active, node_id),
            StageEvent::Completed { node_id } => complete(active, completed, node_id),
            StageEvent::Failed { node_id, will_retry } => {
                if !*will_retry {
                    fail(active, failed, node_id);
                }
            },
            StageEvent::Retrying { .. } => {},
        },
        RuntimeEventKind::Parallel(par) => match par {
            ParallelEvent::Started { node_id } => activate(active, node_id),
            ParallelEvent::BranchStarted { target_node } => activate(active, target_node),
            ParallelEvent::BranchCompleted { target_node } => complete(
                active,
                completed,
                target_node,
            ),
            ParallelEvent::Completed { node_id } => complete(active, completed, node_id),
        },
        RuntimeEventKind::Interview(interview) => match interview {
            InterviewEvent::Started { node_id } => activate(active, node_id),
            InterviewEvent::Completed { node_id } => complete(active, completed, node_id),
            InterviewEvent::Timeout { node_id } => complete(active, completed, node_id),
        },
        RuntimeEventKind::Pipeline(_) => {},
        RuntimeEventKind::Other => {},
    }
}

/// The status with a pause lifted.
pub fn resume_status(status: WatchStatus) -> (r: WatchStatus)
    ensures
        r@ == resumed(status@),
        status.wf() ==> r.wf(),
{
    match status {
        WatchStatus::Paused { active_nodes, completed_nodes, failed_nodes, .. } =>
            WatchStatus::Running { active_nodes, completed_nodes, failed_nodes },
        other => other,
    }
}

/// The status after `event`.
pub fn status_after(status: WatchStatus, event: &RuntimeEvent) -> (r: WatchStatus)
    ensures
        r@ == next_status(status@, event.kind),
        status.wf() ==> r.wf(),
{
    if let RuntimeEventKind::Pipeline(pe) = &event.kind {
        match pe {
            PipelineEvent::Paused { node_id } => {
                return match status {
                    WatchStatus::Running { active_nodes, completed_nodes, failed_nodes } =>
                        WatchStatus::Paused {
                            active_nodes,
                            completed_nodes,
                            failed_nodes,
                            paused_at_node: Some(node_id.clone()),
                        },
                    WatchStatus::Paused { active_nodes, completed_nodes, failed_nodes, .. } =>
                        WatchStatus::Paused {
                            active_nodes,
                            completed_nodes,
                            failed_nodes,
                            paused_at_node: Some(node_id.clone()),
                        },
                    other => other,
                };
            },
            PipelineEvent::Stopped { reason } => {
                let completed: Vec<String> = match status {
                    WatchStatus::Running { completed_nodes, .. } => completed_nodes,
                    WatchStatus::Paused { completed_nodes, .. } => completed_nodes,
                    _ => Vec::new(),
                };
                assert(names(completed@) =~= completed_when_stopped(status@));
                return WatchStatus::Stopped { completed_nodes: completed, reason: reason.clone() };
            },
            PipelineEvent::Started => {
                return resume_status(status);
            },
            PipelineEvent::Resumed => {
                return resume_status(status);
            },
            PipelineEvent::Other => {},
        }
    }
    match status {
        WatchStatus::Running { active_nodes, completed_nodes, failed_nodes } => {
            let mut active_nodes = active_nodes;
            let mut completed_nodes = completed_nodes;
            let mut failed_nodes = failed_nodes;
            apply_node_event(&mut active_nodes, &mut completed_nodes, &mut failed_nodes, &event.kind);
            WatchStatus::Running { active_nodes, completed_nodes, failed_nodes }
        },
        WatchStatus::Paused { active_nodes, completed_nodes, failed_nodes, paused_at_node } => {
            let mut active_nodes = active_nodes;
            let mut completed_nodes = completed_nodes;
            let mut failed_nodes = failed_nodes;
            apply_node_event(&mut active_nodes, &mut completed_nodes, &mut failed_nodes, &event.kind);
            WatchStatus::Paused { active_nodes, completed_nodes, failed_nodes, paused_at_node }
        },
        other => other,
    }
}

/// Moves `status` on by `event`.
pub fn update_status(status: &mut WatchStatus, event: &RuntimeEvent)
    ensures
        final(status)@ == next_status(old(status)@, event.kind),
        old(status).wf() ==> final(status).wf(),
{
    let mut current = WatchStatus::NotStarted;
    core::mem::swap(status, &mut current);
    *status = status_after(current, event);
}

/// Whether the pipeline is under way, so that node events count.
pub open spec fn under_way(s: StatusView) -> bool {
    s is Running || s is Paused
}

/// The progress of a pipeline that is under way.
pub open spec fn progress_in(s: StatusView) -> Progress
    recommends
        under_way(s),
{
    match s {
        StatusView::Running { progress } => progress,
        StatusView::Paused { progress, .. } => progress,
        _ => arbitrary(),
    }
}

/// Whether no node is reported as completed twice while the pipeline is under way or stopped.
pub open spec fn completed_once(s: StatusView) -> bool {
    match s {
        StatusView::Running { progress } => progress.completed.no_duplicates(),
        StatusView::Paused { progress, .. } => progress.completed.no_duplicates(),
        StatusView::Stopped { completed, .. } => completed.no_duplicates(),
        _ => true,
    }
}

/// The status after a series of events.
pub open spec fn status_after_all(s: StatusView, kinds: Seq<RuntimeEventKind>) -> StatusView
    decreases kinds.len(),
{
    if kinds.len() == 0 {
        s
    } else {
        next_status(status_after_all(s, kinds.drop_last()), kinds.last())
    }
}

/// Pausing a running pipeline and resuming it, or starting it, leads back to where it was.
pub proof fn law_resume_undoes_pause(
    progress: Progress,
    pause: RuntimeEventKind,
    resume: RuntimeEventKind,
)
    requires
        pause matches RuntimeEventKind::Pipeline(e) && e is Paused,
        resume matches RuntimeEventKind::Pipeline(e) && (e is Resumed || e is Started),
    ensures
        next_status(next_status(StatusView::Running { progress }, pause), resume)
            == (StatusView::Running { progress }),
{
}

/// Whatever events come, a node is reported as completed at most once.
pub proof fn law_completed_once(s: StatusView, kinds: Seq<RuntimeEventKind>)
    requires
        completed_once(s),
    ensures
        completed_once(status_after_all(s, kinds)),
    decreases kinds.len(),
{
    if kinds.len() > 0 {
        law_completed_once(s, kinds.drop_last());
    }
}

/// A pipeline that is not under way, because it has not started or has ended, is moved by no
/// event but a stop, and a stop then reports no completed node.
pub proof fn law_only_stop_moves_idle(s: StatusView, kind: RuntimeEventKind)
    requires
        !under_way(s),
    ensures
        match kind {
            RuntimeEventKind::Pipeline(PipelineEvent::Stopped { reason }) => next_status(s, kind)
                == (StatusView::Stopped { completed: Seq::empty(), reason: reason@ }),
            _ => next_status(s, kind) == s,
        },
{
}

/// While the pipeline is under way, an event that is not a stop keeps it under way, and takes no
/// node off the completed or the failed ones.
pub proof fn law_reports_only_grow(s: StatusView, kind: RuntimeEventKind)
    requires
        under_way(s),
        !(kind matches RuntimeEventKind::Pipeline(e) && e is Stopped),
    ensures
        under_way(next_status(s, kind)),
        progress_in(s).completed.is_prefix_of(progress_in(next_status(s, kind)).completed),
        progress_in(s).failed.is_prefix_of(progress_in(next_status(s, kind)).failed),
{
}

/// A stop reports the nodes that had completed, and the reason of the event.
pub proof fn law_stop_keeps_completed(s: StatusView, kind: RuntimeEventKind)
    requires
        under_way(s),
        kind matches RuntimeEventKind::Pipeline(e) && e is Stopped,
    ensures
        next_status(s, kind) == (StatusView::Stopped {
            completed: progress_in(s).completed,
            reason: kind->Pipeline_0->reason@,
        }),
{
}

/// An event of a node neither pauses nor resumes the pipeline.
pub proof fn law_node_events_keep_phase(s: StatusView, kind: RuntimeEventKind)
    requires
        !(kind is Pipeline),
    ensures
        s is Running <==> next_status(s, kind) is Running,
        s is Paused <==> next_status(s, kind) is Paused,
        s is Paused ==> next_status(s, kind)->at == s->at,
{
}

/// An event of one node leaves every other node as it was.
pub proof fn law_node_events_touch_one_node(p: Progress, kind: RuntimeEventKind, other: Seq<char>)
    requires
        match node_change(kind) {
            NodeChange::Activate(n) => n != other,
            NodeChange::Complete(n) => n != other,
            NodeChange::Fail(n) => n != other,
            NodeChange::Keep => true,
        },
    ensures
        apply_change(p, node_change(kind)).active.contains(other) == p.active.contains(other),
        apply_change(p, node_change(kind)).completed.contains(other) == p.completed.contains(other),
        apply_change(p, node_change(kind)).failed.contains(other) == p.failed.contains(other),
{
    lemma_push_contains_other(p.completed, other);
    lemma_push_contains_other(p.failed, other);
}

proof fn lemma_push_contains_other(s: Seq<Seq<char>>, other: Seq<char>)
    ensures
        forall|n: Seq<char>| n != other ==> #[trigger] s.push(n).contains(other) == s.contains(
            other,
        ),
{
    assert forall|n: Seq<char>| n != other implies #[trigger] s.push(n).contains(other)
        == s.contains(other) by {
        if s.contains(other) {
            let i = choose|i: int| 0 <= i < s.len() && s[i] == other;
            assert(s.push(n)[i] == other);
        }
    }
}

/// A node that starts is active; one that completes is reported as completed and is no longer
/// active; one that fails for good is reported as failed and is no longer active.
pub proof fn law_node_life(p: Progress, kind: RuntimeEventKind)
    ensures
        match node_change(kind) {
            NodeChange::Activate(n) => apply_change(p, node_change(kind)).active.contains(n),
            NodeChange::Complete(n) => {
                &&& apply_change(p, node_change(kind)).completed.contains(n)
                &&& !apply_change(p, node_change(kind)).active.contains(n)
            },
            NodeChange::Fail(n) => {
                &&& apply_change(p, node_change(kind)).failed.contains(n)
                &&& !apply_change(p, node_change(kind)).active.contains(n)
            },
            NodeChange::Keep => apply_change(p, node_change(kind)) == p,
        },
{
    match node_change(kind) {
        NodeChange::Complete(n) => {
            assert(p.completed.push(n)[p.completed.len() as int] == n);
        },
        NodeChange::Fail(n) => {
            assert(p.failed.push(n)[p.failed.len() as int] == n);
        },
        _ => {},
    }
}

/// Whether a node is active after a series of events, by the last of them that speaks of it.
pub open spec fn active_after(was: bool, kinds: Seq<RuntimeEventKind>, node: Seq<char>) -> bool
    decreases kinds.len(),
{
    if kinds.len() == 0 {
        was
    } else {
        match node_change(kinds.last()) {
            NodeChange::Activate(n) => n == node || active_after(was, kinds.drop_last(), node),
            NodeChange::Complete(n) => n != node && active_after(was, kinds.drop_last(), node),
            NodeChange::Fail(n) => n != node && active_after(was, kinds.drop_last(), node),
            NodeChange::Keep => active_after(was, kinds.drop_last(), node),
        }
    }
}

/// Whether one of some events says that a node has finished.
pub open spec fn some_completes(kinds: Seq<RuntimeEventKind>, node: Seq<char>) -> bool {
    exists|i: int| 0 <= i < kinds.len() && #[trigger] node_change(kinds[i]) == NodeChange::Complete(
        node,
    )
}

/// Whether one of some events says that a node has failed for good.
pub open spec fn some_fails(kinds: Seq<RuntimeEventKind>, node: Seq<char>) -> bool {
    exists|i: int| 0 <= i < kinds.len() && #[trigger] node_change(kinds[i]) == NodeChange::Fail(
        node,
    )
}

/// The status tells the history of each node of a pipeline that is under way, through pauses and
/// resumes: it is active if the last event that speaks of it started it, it is reported as
/// completed if it has ever completed, and as failed if it has ever failed for good.
pub proof fn law_status_tells_history(
    s: StatusView,
    kinds: Seq<RuntimeEventKind>,
    node: Seq<char>,
)
    requires
        under_way(s),
        forall|i: int|
            0 <= i < kinds.len() ==> !(#[trigger] kinds[i] matches RuntimeEventKind::Pipeline(e)
                && e is Stopped),
    ensures
        under_way(status_after_all(s, kinds)),
        ({
            let before = progress_in(s);
            let after = progress_in(status_after_all(s, kinds));
            &&& after.active.contains(node) == active_after(
                before.active.contains(node),
                kinds,
                node,
            )
            &&& after.completed.contains(node) == (before.completed.contains(node)
                || some_completes(kinds, node))
            &&& after.failed.contains(node) == (before.failed.contains(node) || some_fails(
                kinds,
                node,
            ))
        }),
    decreases kinds.len(),
{
    if kinds.len() > 0 {
        let init = kinds.drop_last();
        let last = kinds.last();
        law_status_tells_history(s, init, node);
        let p = progress_in(status_after_all(s, init));
        lemma_push_contains_other(p.completed, node);
        lemma_push_contains_other(p.failed, node);
        assert(p.completed.push(node)[p.completed.len() as int] == node);
        assert(p.failed.push(node)[p.failed.len() as int] == node);
        assert(!(kinds[kinds.len() - 1] matches RuntimeEventKind::Pipeline(e) && e is Stopped));
        assert(progress_in(status_after_all(s, kinds)) == apply_change(p, node_change(last)));
        assert(some_completes(kinds, node) == (some_completes(init, node) || node_change(last)
            == NodeChange::Complete(node))) by {
            if some_completes(init, node) {
                let i = choose|i: int|
                    0 <= i < init.len() && #[trigger] node_change(init[i]) == NodeChange::Complete(
                        node,
                    );
                assert(node_change(kinds[i]) == NodeChange::Complete(node));
            }
            if some_completes(kinds, node) {
                let i = choose|i: int|
                    0 <= i < kinds.len() && #[trigger] node_change(kinds[i])
                        == NodeChange::Complete(node);
                if i < init.len() {
                    assert(node_change(init[i]) == NodeChange::Complete(node));
                }
            }
        }
        assert(some_fails(kinds, node) == (some_fails(init, node) || node_change(last)
            == NodeChange::Fail(node))) by {
            if some_fails(init, node) {
                let i = choose|i: int|
                    0 <= i < init.len() && #[trigger] node_change(init[i]) == NodeChange::Fail(node);
                assert(node_change(kinds[i]) == NodeChange::Fail(node));
            }
            if some_fails(kinds, node) {
                let i = choose|i: int|
                    0 <= i < kinds.len() && #[trigger] node_change(kinds[i]) == NodeChange::Fail(
                        node,
                    );
                if i < init.len() {
                    assert(node_change(init[i]) == NodeChange::Fail(node));
                }
            }
        }
    }
}

/// A pipeline that is under way and is paused keeps its progress to the last node and shows the
/// node that the event names; one that is not under way does not move.
pub proof fn law_pause_shows_where(s: StatusView, pause: RuntimeEventKind)
    requires
        pause matches RuntimeEventKind::Pipeline(e) && e is Paused,
    ensures
        s matches StatusView::Running { progress } ==> {
            &&& next_status(s, pause) is Paused
            &&& next_status(s, pause)->Paused_progress == progress
            &&& next_status(s, pause)->at == Some(pause->Pipeline_0->Paused_node_id@)
        },
        s matches StatusView::Paused { progress, at } ==> {
            &&& next_status(s, pause) is Paused
            &&& next_status(s, pause)->Paused_progress == progress
            &&& next_status(s, pause)->at == Some(pause->Pipeline_0->Paused_node_id@)
        },
        !(s is Running) && !(s is Paused) ==> next_status(s, pause) == s,
{
}

/// A paused pipeline that starts or is resumed runs with the progress it had, and so does one that
/// is resumed at a viewer's request; any other status stays.
pub proof fn law_resume_keeps_progress(s: StatusView, resume: RuntimeEventKind)
    requires
        resume matches RuntimeEventKind::Pipeline(e) && (e is Resumed || e is Started),
    ensures
        s matches StatusView::Paused { progress, at } ==> {
            &&& next_status(s, resume) is Running
            &&& next_status(s, resume)->Running_progress == progress
        },
        !(s is Paused) ==> next_status(s, resume) == s,
        resumed(s) == next_status(s, resume),
{
}

/// A stop always stops, with the reason that the event gives and with the nodes that had completed
/// while the pipeline was under way; else with none.
pub proof fn law_stop_always_stops(s: StatusView, stop: RuntimeEventKind)
    requires
        stop matches RuntimeEventKind::Pipeline(e) && e is Stopped,
    ensures
        next_status(s, stop) is Stopped,
        next_status(s, stop)->Stopped_reason == stop->Pipeline_0->reason@,
        s matches StatusView::Running { progress } ==> next_status(s, stop)->Stopped_completed
            == progress.completed,
        s matches StatusView::Paused { progress, at } ==> next_status(s, stop)->Stopped_completed
            == progress.completed,
        !(s is Running) && !(s is Paused) ==> next_status(s, stop)->Stopped_completed.len() == 0,
{
}

/// Whether between two points of progress no node but `node` became or ceased to be active.
pub open spec fn others_as_active(before: Progress, after: Progress, node: Seq<char>) -> bool {
    forall|m: Seq<char>|
        m != node ==> #[trigger] after.active.contains(m) == before.active.contains(m)
}

/// Whether between two points of progress a node began and nothing else happened.
pub open spec fn began(before: Progress, after: Progress, node: Seq<char>) -> bool {
    &&& after.active.contains(node)
    &&& others_as_active(before, after, node)
    &&& after.completed == before.completed
    &&& after.failed == before.failed
}

/// Whether between two points of progress a node finished and nothing else happened.
pub open spec fn finished(before: Progress, after: Progress, node: Seq<char>) -> bool {
    &&& !after.active.contains(node)
    &&& others_as_active(before, after, node)
    &&& before.completed.contains(node) ==> after.completed == before.completed
    &&& !before.completed.contains(node) ==> after.completed.len() == before.completed.len() + 1
        && after.completed.last() == node && after.completed.drop_last() == before.completed
    &&& after.failed == before.failed
}

/// Whether between two points of progress a node failed for good and nothing else happened.
pub open spec fn broke(before: Progress, after: Progress, node: Seq<char>) -> bool {
    &&& !after.active.contains(node)
    &&& others_as_active(before, after, node)
    &&& after.completed == before.completed
    &&& after.failed.len() == before.failed.len() + 1
    &&& after.failed.last() == node
    &&& after.failed.drop_last() == before.failed
}

/// What each event of a node does to the progress of a pipeline that is under way, running or
/// paused alike, and that it does nothing else: the pipeline stays running, or paused where it was.
pub proof fn law_node_events_do_what_they_say(
    before: Progress,
    at: Option<Seq<char>>,
    kind: RuntimeEventKind,
)
    requires
        !(kind is Pipeline) || kind->Pipeline_0 is Other,
    ensures
        next_status(StatusView::Running { progress: before }, kind) is Running,
        next_status(StatusView::Paused { progress: before, at }, kind) is Paused,
        next_status(StatusView::Paused { progress: before, at }, kind)->at == at,
        next_status(StatusView::Running { progress: before }, kind)->Running_progress
            == next_status(StatusView::Paused { progress: before, at }, kind)->Paused_progress,
        ({
            let after = next_status(
                StatusView::Running { progress: before },
                kind,
            )->Running_progress;
            match kind {
                RuntimeEventKind::Stage(StageEvent::Started { node_id }) => began(
                    before,
                    after,
                    node_id@,
                ),
                RuntimeEventKind::Stage(StageEvent::Completed { node_id }) => finished(
                    before,
                    after,
                    node_id@,
                ),
                RuntimeEventKind::Stage(StageEvent::Failed { node_id, will_retry }) => {
                    &&& will_retry ==> after == before
                    &&& !will_retry ==> broke(before, after, node_id@)
                },
                RuntimeEventKind::Stage(StageEvent::Retrying { .. }) => after == before,
                RuntimeEventKind::Parallel(ParallelEvent::Started { node_id }) => began(
                    before,
                    after,
                    node_id@,
                ),
                RuntimeEventKind::Parallel(ParallelEvent::BranchStarted { target_node }) => began(
                    before,
                    after,
                    target_node@,
                ),
                RuntimeEventKind::Parallel(ParallelEvent::BranchCompleted { target_node }) =>
                    finished(before, after, target_node@),
                RuntimeEventKind::Parallel(ParallelEvent::Completed { node_id }) => finished(
                    before,
                    after,
                    node_id@,
                ),
                RuntimeEventKind::Interview(InterviewEvent::Started { node_id }) => began(
                    before,
                    after,
                    node_id@,
                ),
                RuntimeEventKind::Interview(InterviewEvent::Completed { node_id }) => finished(
                    before,
                    after,
                    node_id@,
                ),
                RuntimeEventKind::Interview(InterviewEvent::Timeout { node_id }) => finished(
                    before,
                    after,
                    node_id@,
                ),
                RuntimeEventKind::Pipeline(_) => after == before,
                RuntimeEventKind::Other => after == before,
            }
        }),
{
    match node_change(kind) {
        NodeChange::Complete(n) => {
            assert(before.completed.push(n).drop_last() =~= before.completed);
        },
        NodeChange::Fail(n) => {
            assert(before.failed.push(n).drop_last() =~= before.failed);
        },
        _ => {},
    }
}

/// A status is shown as it is: its state, the nodes of each list, where it is paused, and what it
/// ended with.
pub proof fn law_status_is_shown(status: WatchStatus, node: Seq<char>)
    ensures
        status is WaitingForStart <==> status@ is WaitingForStart,
        status is NotStarted <==> status@ is NotStarted,
        status matches WatchStatus::Running { active_nodes, completed_nodes, failed_nodes } ==> {
            &&& status@ is Running
            &&& status@->Running_progress.active.contains(node) <==> names(active_nodes@).contains(
                node,
            )
            &&& status@->Running_progress.completed == names(completed_nodes@)
            &&& status@->Running_progress.failed == names(failed_nodes@)
        },
        status matches WatchStatus::Paused {
            active_nodes,
            completed_nodes,
            failed_nodes,
            paused_at_node,
        } ==> {
            &&& status@ is Paused
            &&& status@->Paused_progress.active.contains(node) <==> names(active_nodes@).contains(
                node,
            )
            &&& status@->Paused_progress.completed == names(completed_nodes@)
            &&& status@->Paused_progress.failed == names(failed_nodes@)
            &&& status@->at is Some <==> paused_at_node is Some
            &&& paused_at_node is Some ==> status@->at->0 == paused_at_node->0@
        },
        status matches WatchStatus::Completed { run_id, completed_nodes } ==> {
            &&& status@ is Completed
            &&& status@->run_id == run_id@
            &&& status@->Completed_completed == names(completed_nodes@)
        },
        status matches WatchStatus::Stopped { completed_nodes, reason } ==> {
            &&& status@ is Stopped
            &&& status@->Stopped_completed == names(completed_nodes@)
            &&& status@->Stopped_reason == reason@
        },
        status matches WatchStatus::Failed { reason } ==> status@ is Failed
            && status@->Failed_reason == reason@,
{
}

/// A status that is well formed lists no active node twice.
pub proof fn law_active_nodes_are_listed_once(status: WatchStatus, i: int, j: int)
    requires
        status.wf(),
        0 <= i < j,
    ensures
        status matches WatchStatus::Running { active_nodes, .. } ==> j < active_nodes@.len()
            ==> active_nodes@[i]@ != active_nodes@[j]@,
        status matches WatchStatus::Paused { active_nodes, .. } ==> j < active_nodes@.len()
            ==> active_nodes@[i]@ != active_nodes@[j]@,
{
    match status {
        WatchStatus::Running { active_nodes, .. } => {
            if j < active_nodes@.len() {
                assert(names(active_nodes@)[i] != names(active_nodes@)[j]);
            }
        },
        WatchStatus::Paused { active_nodes, .. } => {
            if j < active_nodes@.len() {
                assert(names(active_nodes@)[i] != names(active_nodes@)[j]);
            }
        },
        _ => {},
    }
}

} // verus!
