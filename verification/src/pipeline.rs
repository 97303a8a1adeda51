//! The life of a watched run, from the start signal to its end.
use crate::runtime::{PipelineRunResult, PipelineStatus};
use crate::status::{Progress, StatusView, WatchStatus};
use crate::text::{contains_text, law_occurs_means_in_between, names, occurs};
use vstd::prelude::*;
use vstd::string::*;

verus! {

/// What happens to the thread that runs the pipeline.
pub enum LoopEvent {
    /// The start signal has come, or none was to be waited for.
    StartSignal,
    /// The server went away before the start signal came.
    StartAbandoned,
    /// The executor is ready.
    ExecutorReady,
    /// There is no executor, for this reason.
    ExecutorFailed { reason: String },
    /// The run has ended with this result.
    Finished(PipelineRunResult),
    /// The run has broken off with this message.
    RunError { message: String },
}

/// What the thread that runs the pipeline does next.
#[derive(Clone, Copy, Debug, PartialEq, Eq, Structural)]
pub enum LoopAction {
    BuildExecutor,
    Run,
    Exit,
}

/// Progress in which no node has done anything.
pub open spec fn no_progress() -> Progress {
    Progress { active: Set::empty(), completed: Seq::empty(), failed: Seq::empty() }
}

/// Why a run that failed did so.
pub open spec fn failure_text(result: PipelineRunResult) -> Seq<char> {
    match result.failure_reason {
        Some(reason) => reason@,
        None => "pipeline failed"@,
    }
}

/// The status of a pipeline whose run has ended with `result`. A failure whose reason says that
/// the user stopped the run counts as a stop.
pub open spec fn ended_status(result: PipelineRunResult) -> StatusView {
    match result.status {
        PipelineStatus::Success => StatusView::Completed {
            run_id: result.run_id@,
            completed: names(result.completed_nodes@),
        },
        PipelineStatus::Fail => if occurs(failure_text(result), "stopped by user"@) {
            StatusView::Stopped {
                completed: names(result.completed_nodes@),
                reason: "Stopped by user"@,
            }
        } else {
            StatusView::Failed { reason: failure_text(result) }
        },
    }
}

/// The status after a step in the life of a run.
pub open spec fn loop_status(s: StatusView, event: LoopEvent) -> StatusView {
    match event {
        LoopEvent::StartSignal => StatusView::Running { progress: no_progress() },
        LoopEvent::StartAbandoned => s,
        LoopEvent::ExecutorReady => s,
        LoopEvent::ExecutorFailed { reason } => StatusView::Failed { reason: reason@ },
        LoopEvent::Finished(result) => ended_status(result),
        LoopEvent::RunError { message } => StatusView::Failed { reason: message@ },
    }
}

/// What is done after a step in the life of a run.
pub open spec fn loop_action(event: LoopEvent) -> LoopAction {
    match event {
        LoopEvent::StartSignal => LoopAction::BuildExecutor,
        LoopEvent::ExecutorReady => LoopAction::Run,
        _ => LoopAction::Exit,
    }
}

/// A running pipeline in which no node has done anything.
pub fn started_status() -> (r: WatchStatus)
    ensures
        r@ == (StatusView::Running { progress: no_progress() }),
        r.wf(),
{
    let r = WatchStatus::Running {
        active_nodes: Vec::new(),
        completed_nodes: Vec::new(),
        failed_nodes: Vec::new(),
    };
    proof {
        let empty = Seq::<String>::empty();
        assert(names(empty) =~= Seq::<Seq<char>>::empty());
        assert(names(empty).to_set() =~= Set::<Seq<char>>::empty());
    }
    r
}

/// The status of a pipeline whose run has ended with `result`.
pub fn result_status(result: PipelineRunResult) -> (r: WatchStatus)
    ensures
        r@ == ended_status(result),
        r.wf(),
{
    match result.status {
        PipelineStatus::Success => WatchStatus::Completed {
            run_id: result.run_id,
            completed_nodes: result.completed_nodes,
        },
        PipelineStatus::Fail => {
            let reason = match result.failure_reason {
                Some(reason) => reason,
                None => String::from("pipeline failed"),
            };
            if contains_text(reason.as_str(), "stopped by user") {
                WatchStatus::Stopped {
                    completed_nodes: result.completed_nodes,
                    reason: String::from("Stopped by user"),
                }
            } else {
                WatchStatus::Failed { reason }
            }
        },
    }
}

/// Takes a step in the life of a run: moves `status` and says what to do next.
pub fn pipeline_step(status: &mut WatchStatus, event: LoopEvent) -> (r: LoopAction)
    ensures
        final(status)@ == loop_status(old(status)@, event),
        r == loop_action(event),
        old(status).wf() ==> final(status).wf(),
{
    match event {
        LoopEvent::StartSignal => {
            *status = started_status();
            LoopAction::BuildExecutor
        },
        LoopEvent::StartAbandoned => LoopAction::Exit,
        LoopEvent::ExecutorReady => LoopAction::Run,
        LoopEvent::ExecutorFailed { reason } => {
            *status = WatchStatus::Failed { reason };
            LoopAction::Exit
        },
        LoopEvent::Finished(result) => {
            *status = result_status(result);
            LoopAction::Exit
        },
        LoopEvent::RunError { message } => {
            *status = WatchStatus::Failed { reason: message };
            LoopAction::Exit
        },
    }
}

/// The status in which a watched pipeline begins.
pub fn initial_status(wait_for_start: bool) -> (r: WatchStatus)
    ensures
        r@ == if wait_for_start {
            StatusView::WaitingForStart
        } else {
            StatusView::NotStarted
        },
        r.wf(),
{
    if wait_for_start {
        WatchStatus::WaitingForStart
    } else {
        WatchStatus::NotStarted
    }
}

/// The end of a run, however it comes, settles the status: it is completed, stopped or failed,
/// whatever it was before.
pub proof fn law_end_settles_status(s: StatusView, event: LoopEvent)
    requires
        event is Finished || event is ExecutorFailed || event is RunError,
    ensures
        loop_status(s, event) is Completed || loop_status(s, event) is Stopped || loop_status(
            s,
            event,
        ) is Failed,
        loop_action(event) == LoopAction::Exit,
{
}

/// A run that succeeded is never reported as stopped or failed, and the other way round.
pub proof fn law_success_is_completed(result: PipelineRunResult)
    ensures
        result.status is Success <==> ended_status(result) is Completed,
{
}

/// How a run ended is told by its result alone, whatever the status was before: a success is
/// completed under the run's own name and with the nodes that it completed; a failure whose reason
/// has `stopped by user` in it is stopped, with those nodes; any other failure is failed, with its
/// very reason, or with a fixed one where it gave none.
pub proof fn law_result_alone_tells_the_end(
    s: StatusView,
    other: StatusView,
    result: PipelineRunResult,
)
    ensures
        loop_status(s, LoopEvent::Finished(result)) == loop_status(
            other,
            LoopEvent::Finished(result),
        ),
        ({
            let end = loop_status(s, LoopEvent::Finished(result));
            let by_user = exists|front: Seq<char>, back: Seq<char>|
                result.failure_reason is Some && result.failure_reason->0@ == #[trigger] (front
                    + "stopped by user"@ + back);
            &&& end is Completed <==> result.status is Success
            &&& end is Stopped <==> result.status is Fail && by_user
            &&& end is Failed <==> result.status is Fail && !by_user
            &&& end is Completed ==> end->run_id == result.run_id@ && end->Completed_completed
                == names(result.completed_nodes@)
            &&& end is Stopped ==> end->Stopped_completed == names(result.completed_nodes@)
                && end->Stopped_reason == "Stopped by user"@
            &&& end is Failed && result.failure_reason is Some ==> end->Failed_reason
                == result.failure_reason->0@
            &&& end is Failed && result.failure_reason is None ==> end->Failed_reason
                == "pipeline failed"@
        }),
{
    law_occurs_means_in_between(failure_text(result), "stopped by user"@);
    reveal_strlit("stopped by user");
    reveal_strlit("pipeline failed");
    if result.failure_reason is None {
        assert("pipeline failed"@.len() == 15 && "stopped by user"@.len() == 15);
        assert(!occurs("pipeline failed"@, "stopped by user"@)) by {
            assert("pipeline failed"@.subrange(0, 15)[0] == 'p');
            assert("stopped by user"@[0] == 's');
        }
    } else {
        if occurs(failure_text(result), "stopped by user"@) {
            let (front, back) = choose|front: Seq<char>, back: Seq<char>|
                failure_text(result) == #[trigger] (front + "stopped by user"@ + back);
            assert(result.failure_reason->0@ == front + "stopped by user"@ + back);
        }
    }
}

/// A run that starts has no node active, completed or failed, whatever the status was; a run that
/// breaks off, or has no executor, is failed with the very text that was given; a start that never
/// comes and an executor that is ready change nothing.
pub proof fn law_life_of_a_run(s: StatusView, event: LoopEvent)
    ensures
        event is StartSignal ==> {
            &&& loop_status(s, event) is Running
            &&& loop_status(s, event)->Running_progress.active =~= Set::<Seq<char>>::empty()
            &&& loop_status(s, event)->Running_progress.completed.len() == 0
            &&& loop_status(s, event)->Running_progress.failed.len() == 0
        },
        event matches LoopEvent::ExecutorFailed { reason } ==> loop_status(s, event) is Failed
            && loop_status(s, event)->Failed_reason == reason@,
        event matches LoopEvent::RunError { message } ==> loop_status(s, event) is Failed
            && loop_status(s, event)->Failed_reason == message@,
        event is StartAbandoned || event is ExecutorReady ==> loop_status(s, event) == s,
        loop_action(event) is BuildExecutor <==> event is StartSignal,
        loop_action(event) is Run <==> event is ExecutorReady,
        loop_action(event) is Exit <==> event is StartAbandoned || event is ExecutorFailed
            || event is Finished || event is RunError,
{
}

} // verus!
