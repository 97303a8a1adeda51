use forge_watch::control::{ControlFlags, ControlSignal, PipelineControl};
use std::time::Duration;

/// Whether a runner that waits on the control is woken.
fn woken(control: &PipelineControl) -> bool {
    let notify = control.resume_signal().clone();
    tokio::runtime::Builder::new_current_thread()
        .enable_time()
        .build()
        .unwrap()
        .block_on(async move {
            tokio::time::timeout(Duration::from_millis(50), notify.notified()).await.is_ok()
        })
}

#[test]
fn new_control_asks_for_nothing() {
    for control in [PipelineControl::new(), PipelineControl::default()] {
        assert!(!control.is_cancelled());
        assert!(!control.is_paused());
        assert_eq!(control.wait_for_resume(), Some(false));
        assert!(!woken(&control));
    }
}

#[test]
fn pause_makes_a_runner_wait() {
    let mut control = PipelineControl::new();
    control.pause();
    assert!(control.is_paused());
    assert!(!control.is_cancelled());
    assert_eq!(control.wait_for_resume(), None);
    assert!(!woken(&control));
}

#[test]
fn resume_ends_the_pause_and_wakes_the_runner() {
    let mut control = PipelineControl::new();
    control.pause();
    control.resume();
    assert!(!control.is_paused());
    assert_eq!(control.wait_for_resume(), Some(false));
    assert!(woken(&control));
}

#[test]
fn cancel_ends_the_wait_of_a_paused_runner() {
    let mut control = PipelineControl::new();
    control.pause();
    control.cancel();
    assert!(control.is_cancelled());
    assert!(control.is_paused());
    assert_eq!(control.wait_for_resume(), Some(true));
    assert!(woken(&control));
}

#[test]
fn cancel_is_final() {
    let mut control = PipelineControl::new();
    control.cancel();
    control.resume();
    control.pause();
    control.resume();
    assert!(control.is_cancelled());
    assert_eq!(control.wait_for_resume(), Some(true));
}

#[test]
fn one_wake_up_is_kept_for_the_next_wait() {
    let mut control = PipelineControl::new();
    control.resume();
    control.resume();
    assert!(woken(&control));
    assert!(!woken(&control));
}

#[test]
fn signals_move_the_flags() {
    let start = ControlFlags { cancelled: false, paused: false };
    let (cancelled, wakes) = start.after(ControlSignal::Cancel);
    assert_eq!((cancelled, wakes), (ControlFlags { cancelled: true, paused: false }, true));
    let (paused, wakes) = start.after(ControlSignal::Pause);
    assert_eq!((paused, wakes), (ControlFlags { cancelled: false, paused: true }, false));
    let (resumed, wakes) = paused.after(ControlSignal::Resume);
    assert_eq!((resumed, wakes), (start, true));
    let mut control = PipelineControl::new();
    control.signal(ControlSignal::Pause);
    control.signal(ControlSignal::Cancel);
    assert!(control.is_paused() && control.is_cancelled());
}
