//! Cooperative control of a pipeline: cancel, pause and resume.
use crate::wake::WakeSignal;
use std::sync::Arc;
use vstd::prelude::*;

verus! {

/// What has been asked of the pipeline.
#[derive(Clone, Copy, Debug, PartialEq, Eq, Structural)]
pub struct ControlFlags {
    pub cancelled: bool,
    pub paused: bool,
}

/// A request to the pipeline.
#[derive(Clone, Copy, Debug, PartialEq, Eq, Structural)]
pub enum ControlSignal {
    Cancel,
    Pause,
    Resume,
}

/// The flags after a request.
pub open spec fn flags_after(flags: ControlFlags, signal: ControlSignal) -> ControlFlags {
    match signal {
        ControlSignal::Cancel => ControlFlags { cancelled: true, ..flags },
        ControlSignal::Pause => ControlFlags { paused: true, ..flags },
        ControlSignal::Resume => ControlFlags { paused: false, ..flags },
    }
}

/// Whether a request wakes a runner that waits to be resumed.
pub open spec fn wakes(signal: ControlSignal) -> bool {
    !(signal is Pause)
}

/// How many wake-ups have been given after a request, `before` of them before it.
pub open spec fn wakeups_after(before: nat, signal: ControlSignal) -> nat {
    before + if wakes(signal) {
        1nat
    } else {
        0nat
    }
}

/// Whether a runner need not wait: `Some(true)` if it is to give up, `Some(false)` if it may run
/// on, `None` if it waits.
pub open spec fn wait_result(flags: ControlFlags) -> Option<bool> {
    if flags.cancelled {
        Some(true)
    } else if !flags.paused {
        Some(false)
    } else {
        None
    }
}

impl ControlFlags {
    /// The flags after a request, and whether it wakes a runner that waits.
    pub fn after(self, signal: ControlSignal) -> (r: (ControlFlags, bool))
        ensures
            r.0 == flags_after(self, signal),
            r.1 == wakes(signal),
    {
        match signal {
            ControlSignal::Cancel => (ControlFlags { cancelled: true, paused: self.paused }, true),
            ControlSignal::Pause => (ControlFlags { cancelled: self.cancelled, paused: true }, false),
            ControlSignal::Resume => (ControlFlags { cancelled: self.cancelled, paused: false }, true),
        }
    }
}

/// Cooperative control handle of a pipeline. Its runner looks at the flags at safe points between
/// nodes.
pub struct PipelineControl {
    flags: ControlFlags,
    resume_notify: WakeSignal,
}

impl View for PipelineControl {
    type V = ControlFlags;

    closed spec fn view(&self) -> ControlFlags {
        self.flags
    }
}

impl PipelineControl {
    /// What a runner waits on.
    pub closed spec fn notify(&self) -> tokio::sync::Notify {
        self.resume_notify.notify()
    }

    /// How many wake-ups a runner has been given.
    pub closed spec fn wakeups(&self) -> nat {
        self.resume_notify.wakeups()
    }

    /// A control of a pipeline that is neither cancelled nor paused, and that has given no wake-up.
    pub fn new() -> (r: PipelineControl)
        ensures
            r@ == (ControlFlags { cancelled: false, paused: false }),
            r.wakeups() == 0,
    {
        PipelineControl {
            flags: ControlFlags { cancelled: false, paused: false },
            resume_notify: WakeSignal::new(),
        }
    }

    /// Takes a request and wakes the runner where the request is one that wakes it.
    pub fn signal(&mut self, signal: ControlSignal)
        ensures
            final(self)@ == flags_after(old(self)@, signal),
            final(self).wakeups() == wakeups_after(old(self).wakeups(), signal),
            final(self).notify() == old(self).notify(),
    {
        let (flags, wake) = self.flags.after(signal);
        self.flags = flags;
        if wake {
            self.resume_notify.wake();
        }
    }

    /// Requests cancellation: the runner gives up before the next node. One that waits is woken.
    pub fn cancel(&mut self)
        ensures
            final(self)@ == (ControlFlags { cancelled: true, ..old(self)@ }),
            final(self).wakeups() == old(self).wakeups() + 1,
            final(self).notify() == old(self).notify(),
    {
        self.signal(ControlSignal::Cancel)
    }

    /// Whether cancellation has been requested.
    pub fn is_cancelled(&self) -> (r: bool)
        ensures
            r == self@.cancelled,
    {
        self.flags.cancelled
    }

    /// Pauses the pipeline: the runner waits before the next node. None is woken.
    pub fn pause(&mut self)
        ensures
            final(self)@ == (ControlFlags { paused: true, ..old(self)@ }),
            final(self).wakeups() == old(self).wakeups(),
            final(self).notify() == old(self).notify(),
    {
        self.signal(ControlSignal::Pause)
    }

    /// Resumes a paused pipeline and wakes its runner.
    pub fn resume(&mut self)
        ensures
            final(self)@ == (ControlFlags { paused: false, ..old(self)@ }),
            final(self).wakeups() == old(self).wakeups() + 1,
            final(self).notify() == old(self).notify(),
    {
        self.signal(ControlSignal::Resume)
    }

    /// Whether the pipeline is paused.
    pub fn is_paused(&self) -> (r: bool)
        ensures
            r == self@.paused,
    {
        self.flags.paused
    }

    /// One look at the flags by a runner that waits until it is resumed or cancelled: `Some(true)`
    /// if cancelled, `Some(false)` if it may run on, `None` if it is to wait for `resume_signal`
    /// and look again.
    pub fn wait_for_resume(&self) -> (r: Option<bool>)
        ensures
            r == wait_result(self@),
    {
        if self.is_cancelled() {
            return Some(true);
        }
        if !self.is_paused() {
            return Some(false);
        }
        None
    }

    /// What a runner that is to wait waits on.
    pub fn resume_signal(&self) -> (r: &Arc<tokio::sync::Notify>)
        ensures
            **r == self.notify(),
    {
        self.resume_notify.sleep_on()
    }
}

impl Default for PipelineControl {
    fn default() -> (r: PipelineControl)
        ensures
            r@ == (ControlFlags { cancelled: false, paused: false }),
            r.wakeups() == 0,
    {
        PipelineControl::new()
    }
}

/// The flags after a series of requests.
pub open spec fn flags_after_all(flags: ControlFlags, signals: Seq<ControlSignal>) -> ControlFlags
    decreases signals.len(),
{
    if signals.len() == 0 {
        flags
    } else {
        flags_after(flags_after_all(flags, signals.drop_last()), signals.last())
    }
}

/// How many wake-ups have been given after a series of requests.
pub open spec fn wakeups_after_all(before: nat, signals: Seq<ControlSignal>) -> nat
    decreases signals.len(),
{
    if signals.len() == 0 {
        before
    } else {
        wakeups_after(wakeups_after_all(before, signals.drop_last()), signals.last())
    }
}

/// A resume or a cancellation ends a wait: after it, a runner that was to wait need not wait any
/// longer, and it has been given a wake-up to find that out.
pub proof fn law_resume_or_cancel_ends_wait(
    flags: ControlFlags,
    wakeups: nat,
    signal: ControlSignal,
)
    requires
        wait_result(flags) is None,
        !(signal is Pause),
    ensures
        wait_result(flags_after(flags, signal)) == Some(signal is Cancel),
        wakeups_after(wakeups, signal) == wakeups + 1,
{
}

/// No wake-up is lost: if a runner looked and was to wait, then whatever was asked since, it has
/// been given a wake-up since that look unless it would still have to wait.
pub proof fn law_ending_a_wait_wakes(
    flags: ControlFlags,
    wakeups: nat,
    signals: Seq<ControlSignal>,
)
    requires
        wait_result(flags) is None,
    ensures
        wakeups_after_all(wakeups, signals) >= wakeups,
        wait_result(flags_after_all(flags, signals)) is Some ==> wakeups_after_all(wakeups, signals)
            > wakeups,
    decreases signals.len(),
{
    if signals.len() > 0 {
        law_ending_a_wait_wakes(flags, wakeups, signals.drop_last());
    }
}

/// Cancellation is final: once requested, no later request takes it back, and a runner that
/// waits learns of it whether or not the pipeline is paused.
pub proof fn law_cancel_is_final(flags: ControlFlags, signals: Seq<ControlSignal>)
    requires
        flags.cancelled,
    ensures
        flags_after_all(flags, signals).cancelled,
        wait_result(flags_after_all(flags, signals)) == Some(true),
    decreases signals.len(),
{
    if signals.len() > 0 {
        law_cancel_is_final(flags, signals.drop_last());
    }
}

/// Only a cancellation cancels.
pub proof fn law_only_cancel_cancels(flags: ControlFlags, signals: Seq<ControlSignal>)
    requires
        !flags.cancelled,
        forall|i: int| 0 <= i < signals.len() ==> #[trigger] signals[i] != ControlSignal::Cancel,
    ensures
        !flags_after_all(flags, signals).cancelled,
    decreases signals.len(),
{
    if signals.len() > 0 {
        law_only_cancel_cancels(flags, signals.drop_last());
    }
}

/// A resume lets the runner of a pipeline that is not cancelled run on, whatever was asked
/// before.
pub proof fn law_resume_ends_pause(flags: ControlFlags)
    requires
        !flags.cancelled,
    ensures
        wait_result(flags_after(flags, ControlSignal::Pause)) is None,
        wait_result(flags_after(flags, ControlSignal::Resume)) == Some(false),
        wait_result(
            flags_after(flags_after(flags, ControlSignal::Pause), ControlSignal::Resume),
        ) == Some(false),
{
}

/// The last pause or resume decides whether the pipeline is paused, whatever came before it and
/// however often it was asked to be cancelled since; with neither it stays as it was.
pub proof fn law_last_pause_or_resume_decides(
    flags: ControlFlags,
    before: Seq<ControlSignal>,
    since: Seq<ControlSignal>,
)
    requires
        forall|i: int| 0 <= i < since.len() ==> #[trigger] since[i] is Cancel,
    ensures
        flags_after_all(flags, before.push(ControlSignal::Pause) + since).paused,
        !flags_after_all(flags, before.push(ControlSignal::Resume) + since).paused,
        flags_after_all(flags, since).paused == flags.paused,
    decreases since.len(),
{
    let paused = before.push(ControlSignal::Pause);
    let resumed = before.push(ControlSignal::Resume);
    if since.len() == 0 {
        assert(paused + since =~= paused);
        assert(resumed + since =~= resumed);
        assert(paused.drop_last() =~= before);
        assert(resumed.drop_last() =~= before);
    } else {
        let init = since.drop_last();
        law_last_pause_or_resume_decides(flags, before, init);
        assert((paused + since).drop_last() =~= paused + init);
        assert((resumed + since).drop_last() =~= resumed + init);
        assert((paused + since).last() == since.last());
        assert((resumed + since).last() == since.last());
        assert(since[since.len() - 1] is Cancel);
    }
}

/// A pipeline is cancelled once it has been asked to be, whatever is asked before and after, and
/// only then.
pub proof fn law_one_cancel_is_enough(
    flags: ControlFlags,
    before: Seq<ControlSignal>,
    since: Seq<ControlSignal>,
)
    ensures
        flags_after_all(flags, before.push(ControlSignal::Cancel) + since).cancelled,
        (forall|i: int| 0 <= i < since.len() ==> !(#[trigger] since[i] is Cancel))
            ==> flags_after_all(flags, since).cancelled == flags.cancelled,
    decreases since.len(),
{
    let cancelled = before.push(ControlSignal::Cancel);
    if since.len() == 0 {
        assert(cancelled + since =~= cancelled);
        assert(cancelled.drop_last() =~= before);
    } else {
        let init = since.drop_last();
        law_one_cancel_is_enough(flags, before, init);
        assert((cancelled + since).drop_last() =~= cancelled + init);
        assert((cancelled + since).last() == since.last());
        if forall|i: int| 0 <= i < since.len() ==> !(#[trigger] since[i] is Cancel) {
            assert(!(since[since.len() - 1] is Cancel));
            assert forall|i: int| 0 <= i < init.len() implies !(#[trigger] init[i] is Cancel) by {
                assert(init[i] == since[i]);
            }
        }
    }
}

/// Each request sets the one flag that it is about and leaves the other.
pub proof fn law_each_request_sets_its_flag(flags: ControlFlags, signal: ControlSignal)
    ensures
        signal is Cancel ==> flags_after(flags, signal).cancelled && flags_after(
            flags,
            signal,
        ).paused == flags.paused,
        signal is Pause ==> flags_after(flags, signal).paused && flags_after(
            flags,
            signal,
        ).cancelled == flags.cancelled,
        signal is Resume ==> !flags_after(flags, signal).paused && flags_after(
            flags,
            signal,
        ).cancelled == flags.cancelled,
{
}

/// A runner that looks is told to give up exactly if the pipeline is cancelled, to run on exactly
/// if it is neither cancelled nor paused, and else to wait.
pub proof fn law_what_a_look_tells(flags: ControlFlags)
    ensures
        wait_result(flags) == Some(true) <==> flags.cancelled,
        wait_result(flags) == Some(false) <==> !flags.cancelled && !flags.paused,
        wait_result(flags) is None <==> !flags.cancelled && flags.paused,
{
}

/// A pause gives no wake-up; a resume and a cancellation give one each.
pub proof fn law_who_wakes(before: nat, signal: ControlSignal)
    ensures
        signal is Pause ==> wakeups_after(before, signal) == before && !wakes(signal),
        !(signal is Pause) ==> wakeups_after(before, signal) == before + 1 && wakes(signal),
{
}

} // verus!
