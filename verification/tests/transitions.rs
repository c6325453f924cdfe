//! Each entry point on its own: the state it leaves and the effect it returns.

use blink_cursor::{BlinkCursor, Effect, Timer, Wakeup, BLINK_INTERVAL_MS, PAUSE_DELAY_MS};

fn blink_after_interval(epoch: usize) -> Effect {
    Effect {
        notify: true,
        timer: Some(Timer { delay_ms: 500, wakeup: Wakeup::Blink, epoch }),
    }
}

fn resume_after_delay(epoch: usize) -> Effect {
    Effect {
        notify: true,
        timer: Some(Timer { delay_ms: 300, wakeup: Wakeup::Resume, epoch }),
    }
}

const SILENT: Effect = Effect { notify: false, timer: None };

#[test]
fn timing_constants() {
    assert_eq!(BLINK_INTERVAL_MS, 500);
    assert_eq!(PAUSE_DELAY_MS, 300);
    assert!(PAUSE_DELAY_MS < BLINK_INTERVAL_MS);
}

#[test]
fn wakeup_delays() {
    assert_eq!(Wakeup::Blink.delay_ms(), 500);
    assert_eq!(Wakeup::Resume.delay_ms(), 300);
}

#[test]
fn new_is_stopped() {
    let cursor = BlinkCursor::new();
    assert!(!cursor.visible());
    assert!(!cursor.paused());
    assert_eq!(cursor.epoch(), 0);
}

#[test]
fn start_toggles_and_schedules_blink() {
    let mut cursor = BlinkCursor::new();
    let effect = cursor.start();
    assert_eq!(effect, blink_after_interval(1));
    assert!(cursor.visible());
    assert!(!cursor.paused());
    assert_eq!(cursor.epoch(), 1);
}

#[test]
fn start_while_running_continues_from_now() {
    let mut cursor = BlinkCursor::new();
    cursor.start();
    let effect = cursor.start();
    assert_eq!(effect, blink_after_interval(2));
    assert!(!cursor.visible());
    assert_eq!(cursor.epoch(), 2);
}

#[test]
fn start_while_paused_only_shows_caret() {
    let mut cursor = BlinkCursor::new();
    cursor.pause();
    let effect = cursor.start();
    assert_eq!(effect, SILENT);
    assert!(cursor.visible());
    assert!(cursor.paused());
    assert_eq!(cursor.epoch(), 1);
}

#[test]
fn stop_resets_epoch_and_repaints() {
    let mut cursor = BlinkCursor::new();
    cursor.start();
    cursor.blink(1);
    assert_eq!(cursor.epoch(), 2);
    let effect = cursor.stop();
    assert_eq!(effect, Effect { notify: true, timer: None });
    assert_eq!(cursor.epoch(), 0);
    assert!(!cursor.visible());
    assert!(!cursor.paused());
}

#[test]
fn stop_keeps_pause_and_flag() {
    let mut cursor = BlinkCursor::new();
    cursor.pause();
    cursor.stop();
    assert_eq!(cursor.epoch(), 0);
    assert!(cursor.paused());
    assert!(cursor.visible());
}

#[test]
fn blink_under_current_epoch_toggles() {
    let mut cursor = BlinkCursor::new();
    cursor.start();
    let effect = cursor.blink(1);
    assert_eq!(effect, blink_after_interval(2));
    assert!(!cursor.visible());
    let effect = cursor.blink(2);
    assert_eq!(effect, blink_after_interval(3));
    assert!(cursor.visible());
    assert_eq!(cursor.epoch(), 3);
}

#[test]
fn blink_under_superseded_epoch_leaves_caret_on() {
    let mut cursor = BlinkCursor::new();
    cursor.start();
    cursor.blink(1);
    assert!(!cursor.visible());
    let effect = cursor.blink(1);
    assert_eq!(effect, SILENT);
    assert!(cursor.visible());
    assert_eq!(cursor.epoch(), 2);
    assert!(!cursor.paused());
}

#[test]
fn blink_under_later_epoch_is_superseded_too() {
    let mut cursor = BlinkCursor::new();
    let effect = cursor.blink(7);
    assert_eq!(effect, SILENT);
    assert!(cursor.visible());
    assert_eq!(cursor.epoch(), 0);
}

#[test]
fn blink_during_pause_is_suppressed() {
    let mut cursor = BlinkCursor::new();
    cursor.pause();
    let effect = cursor.blink(1);
    assert_eq!(effect, SILENT);
    assert!(cursor.visible());
    assert!(cursor.paused());
    assert_eq!(cursor.epoch(), 1);
}

#[test]
fn pause_forces_caret_on_and_schedules_resume() {
    let mut cursor = BlinkCursor::new();
    cursor.start();
    cursor.blink(1);
    assert!(!cursor.visible());
    let effect = cursor.pause();
    assert_eq!(effect, resume_after_delay(3));
    assert!(cursor.visible());
    assert!(cursor.paused());
    assert_eq!(cursor.epoch(), 3);
}

#[test]
fn resume_under_current_epoch_ends_pause() {
    let mut cursor = BlinkCursor::new();
    cursor.pause();
    let effect = cursor.resume(1);
    assert_eq!(effect, blink_after_interval(2));
    assert!(cursor.visible());
    assert!(!cursor.paused());
    assert_eq!(cursor.epoch(), 2);
}

#[test]
fn resume_under_superseded_epoch_changes_nothing() {
    let mut cursor = BlinkCursor::new();
    cursor.pause();
    cursor.pause();
    let effect = cursor.resume(1);
    assert_eq!(effect, SILENT);
    assert!(cursor.visible());
    assert!(cursor.paused());
    assert_eq!(cursor.epoch(), 2);
}

#[test]
fn resume_after_stop_changes_nothing() {
    let mut cursor = BlinkCursor::new();
    cursor.pause();
    cursor.stop();
    let effect = cursor.resume(1);
    assert_eq!(effect, SILENT);
    assert!(cursor.paused());
    assert_eq!(cursor.epoch(), 0);
}

#[test]
fn fire_runs_the_named_continuation() {
    let mut cursor = BlinkCursor::new();
    cursor.pause();
    assert_eq!(cursor.fire(Wakeup::Blink, 1), SILENT);
    assert!(cursor.paused());
    assert_eq!(cursor.fire(Wakeup::Resume, 1), blink_after_interval(2));
    assert!(!cursor.paused());
    assert_eq!(cursor.fire(Wakeup::Resume, 2), blink_after_interval(3));
    assert_eq!(cursor.fire(Wakeup::Blink, 3), blink_after_interval(4));
    assert!(!cursor.visible());
}

#[test]
fn caret_is_shown_whenever_paused() {
    let mut cursor = BlinkCursor::new();
    cursor.pause();
    assert!(cursor.paused() && cursor.visible());
    cursor.blink(1);
    assert!(cursor.paused() && cursor.visible());
    cursor.blink(0);
    assert!(cursor.paused() && cursor.visible());
    cursor.start();
    assert!(cursor.paused() && cursor.visible());
    cursor.stop();
    assert!(cursor.paused() && cursor.visible());
    cursor.resume(5);
    assert!(cursor.paused() && cursor.visible());
    cursor.pause();
    assert!(cursor.paused() && cursor.visible());
}

#[test]
fn epoch_moves_up_by_one_per_request() {
    let mut cursor = BlinkCursor::new();
    let mut expected = 0;
    for round in 0..20 {
        let effect = match round % 4 {
            0 => cursor.start(),
            1 => cursor.pause(),
            2 => cursor.resume(expected),
            _ => cursor.blink(expected),
        };
        expected += 1;
        assert_eq!(cursor.epoch(), expected);
        assert_eq!(effect.timer.map(|timer| timer.epoch), Some(expected));
    }
}

#[test]
fn epoch_holds_still_without_a_request() {
    let mut cursor = BlinkCursor::new();
    cursor.start();
    cursor.pause();
    assert_eq!(cursor.epoch(), 2);
    assert_eq!(cursor.blink(1).timer, None);
    assert_eq!(cursor.epoch(), 2);
    assert_eq!(cursor.blink(2).timer, None);
    assert_eq!(cursor.epoch(), 2);
    assert_eq!(cursor.resume(1).timer, None);
    assert_eq!(cursor.epoch(), 2);
    assert_eq!(cursor.start().timer, None);
    assert_eq!(cursor.epoch(), 2);
}

#[test]
fn only_stop_returns_epoch_to_zero() {
    let mut cursor = BlinkCursor::new();
    cursor.start();
    cursor.pause();
    cursor.resume(2);
    assert_eq!(cursor.epoch(), 3);
    cursor.stop();
    assert_eq!(cursor.epoch(), 0);
    cursor.stop();
    assert_eq!(cursor.epoch(), 0);
}
