//! The scheduler driven by a host with a clock: timers are kept until they
//! fall due and are never canceled.

use blink_cursor::{BlinkCursor, Effect, Timer, Wakeup};

/// A host that keeps every timer it was asked for and fires each when the
/// clock reaches it, earliest first, in request order among equals.
struct Host {
    cursor: BlinkCursor,
    now: u64,
    pending: Vec<(u64, Timer)>,
    repaints: usize,
    fired: usize,
}

impl Host {
    fn new() -> Host {
        Host { cursor: BlinkCursor::new(), now: 0, pending: Vec::new(), repaints: 0, fired: 0 }
    }

    fn perform(&mut self, effect: Effect) {
        if effect.notify {
            self.repaints += 1;
        }
        if let Some(timer) = effect.timer {
            self.pending.push((self.now + timer.delay_ms, timer));
        }
    }

    fn start(&mut self) {
        let effect = self.cursor.start();
        self.perform(effect);
    }

    fn stop(&mut self) {
        let effect = self.cursor.stop();
        self.perform(effect);
    }

    fn pause(&mut self) {
        let effect = self.cursor.pause();
        self.perform(effect);
    }

    /// Lets `ms` milliseconds pass, firing whatever falls due on the way.
    fn wait(&mut self, ms: u64) {
        let until = self.now + ms;
        loop {
            let mut next: Option<usize> = None;
            for (at, (due, _)) in self.pending.iter().enumerate() {
                if *due <= until && next.map_or(true, |best| *due < self.pending[best].0) {
                    next = Some(at);
                }
            }
            let Some(at) = next else {
                break;
            };
            let (due, timer) = self.pending.remove(at);
            self.now = due;
            self.fired += 1;
            let effect = self.cursor.fire(timer.wakeup, timer.epoch);
            self.perform(effect);
        }
        self.now = until;
    }

    fn visible(&self) -> bool {
        self.cursor.visible()
    }

    fn paused(&self) -> bool {
        self.cursor.paused()
    }
}

#[test]
fn blink_then_pause_then_resume() {
    let mut host = Host::new();
    assert!(!host.visible());

    // The start is the first toggle: the caret is on for the first interval.
    host.start();
    assert!(host.visible());
    host.wait(499);
    assert!(host.visible());

    // It flips back and is off for the second interval.
    host.wait(1);
    assert_eq!(host.now, 500);
    assert!(!host.visible());
    host.wait(499);
    assert!(!host.visible());

    // An interaction turns it on at once.
    host.pause();
    let paused_at = host.now;
    assert!(host.visible());
    assert!(host.paused());

    // The pause ends after the pause delay, with the caret still on. The
    // blink that was in flight has fired meanwhile, to no effect.
    host.wait(299);
    assert!(host.visible());
    assert!(host.paused());
    host.wait(1);
    assert_eq!(host.now, paused_at + 300);
    assert!(host.visible());
    assert!(!host.paused());

    // The caret stays on for one whole interval, then toggles.
    host.wait(499);
    assert!(host.visible());
    host.wait(1);
    assert_eq!(host.now, paused_at + 300 + 500);
    assert!(!host.visible());
    host.wait(500);
    assert!(host.visible());
    assert_eq!(host.fired, 1 + 1 + 1 + 2);
}

#[test]
fn second_pause_restarts_the_delay() {
    let mut host = Host::new();
    host.pause();
    host.wait(100);
    host.pause();

    // The first resume falls due at 300 and does nothing.
    host.wait(200);
    assert_eq!(host.now, 300);
    assert_eq!(host.fired, 1);
    assert!(host.paused());
    assert!(host.visible());
    host.wait(99);
    assert!(host.paused());

    // The pause ends 300 after the second call.
    host.wait(1);
    assert_eq!(host.now, 400);
    assert_eq!(host.fired, 2);
    assert!(!host.paused());
    assert!(host.visible());

    // The first toggle comes a whole interval later.
    host.wait(499);
    assert!(host.visible());
    host.wait(1);
    assert!(!host.visible());
}

#[test]
fn stop_leaves_blink_in_flight_inert() {
    let mut host = Host::new();
    host.start();
    host.wait(100);
    host.stop();
    let repaints = host.repaints;
    let shown = host.visible();
    assert_eq!(host.pending.len(), 1);

    host.wait(400);
    assert_eq!(host.fired, 1);
    assert_eq!(host.visible(), shown);
    assert_eq!(host.repaints, repaints);
    assert_eq!(host.cursor.epoch(), 0);
    assert!(host.pending.is_empty());

    host.wait(5000);
    assert_eq!(host.fired, 1);
    assert_eq!(host.visible(), shown);
    assert_eq!(host.repaints, repaints);
}

#[test]
fn stop_while_caret_is_off_leaves_it_on_without_repaint() {
    let mut host = Host::new();
    host.start();
    host.wait(500);
    assert!(!host.visible());
    host.stop();
    let repaints = host.repaints;

    host.wait(500);
    assert_eq!(host.fired, 2);
    assert!(host.visible());
    assert_eq!(host.repaints, repaints);
    assert!(host.pending.is_empty());
}

#[test]
fn caret_toggles_once_per_interval() {
    let mut host = Host::new();
    host.start();
    let mut shown = true;
    for toggles in 1..=40u64 {
        host.wait(499);
        assert_eq!(host.visible(), shown);
        host.wait(1);
        shown = !shown;
        assert_eq!(host.now, 500 * toggles);
        assert_eq!(host.visible(), shown);
        assert_eq!(host.repaints as u64, 1 + toggles);
        assert_eq!(host.cursor.epoch() as u64, 1 + toggles);
        assert_eq!(host.pending.len(), 1);
    }
}

#[test]
fn restart_counts_from_the_new_start() {
    let mut host = Host::new();
    host.start();
    host.wait(1230);
    host.stop();
    host.wait(500);
    assert!(host.pending.is_empty());
    let shown = host.visible();

    host.wait(77);
    host.start();
    let began = host.now;
    assert_eq!(host.cursor.epoch(), 1);
    assert_eq!(host.visible(), !shown);
    host.wait(499);
    assert_eq!(host.visible(), !shown);
    host.wait(1);
    assert_eq!(host.now, began + 500);
    assert_eq!(host.visible(), shown);
    host.wait(500);
    assert_eq!(host.visible(), !shown);
}

#[test]
fn pause_while_blinking_holds_caret_on() {
    let mut host = Host::new();
    host.start();
    host.wait(700);
    assert!(!host.visible());

    // The blink in flight falls due at 1000, during the hold, and is inert.
    host.pause();
    let paused_at = host.now;
    assert!(host.visible());
    for _ in 0..(300 + 500 - 1) {
        host.wait(1);
        assert!(host.visible());
        assert_eq!(host.paused(), host.now < paused_at + 300);
    }
    host.wait(1);
    assert_eq!(host.now, paused_at + 300 + 500);
    assert!(!host.visible());
    assert_eq!(host.fired, 1 + 1 + 1 + 1);
}

#[test]
fn typing_keeps_the_caret_on() {
    let mut host = Host::new();
    host.start();
    for _ in 0..25 {
        host.wait(120);
        host.pause();
        assert!(host.visible());
        assert!(host.paused());
    }
    let last = host.now;
    host.wait(299);
    assert!(host.paused());
    host.wait(1);
    assert!(!host.paused());
    assert!(host.visible());
    host.wait(500);
    assert_eq!(host.now, last + 800);
    assert!(!host.visible());
}

#[test]
fn restart_with_old_blink_in_flight_is_disturbed() {
    // Without cancellation by the host, a blink left over from before a stop
    // can carry the epoch that the new chain reaches.
    let mut host = Host::new();
    host.start();
    host.wait(100);
    host.stop();
    host.wait(100);
    host.start();
    assert!(!host.visible());
    assert_eq!(
        host.pending.iter().map(|(due, timer)| (*due, timer.wakeup, timer.epoch)).collect::<Vec<_>>(),
        vec![(500, Wakeup::Blink, 1), (700, Wakeup::Blink, 1)],
    );
    host.wait(300);
    assert_eq!(host.now, 500);
    assert!(host.visible());
}

#[test]
fn pause_after_stop_with_old_resume_in_flight_ends_early() {
    // Likewise a resume left over from before a stop can carry the epoch of
    // a later pause, and then ends that pause at its own time.
    let mut host = Host::new();
    host.pause();
    host.wait(100);
    host.stop();
    host.wait(100);
    host.pause();
    assert_eq!(
        host.pending.iter().map(|(due, timer)| (*due, timer.wakeup, timer.epoch)).collect::<Vec<_>>(),
        vec![(300, Wakeup::Resume, 1), (500, Wakeup::Resume, 1)],
    );
    host.wait(100);
    assert_eq!(host.now, 300);
    assert!(!host.paused());
    assert!(host.visible());
}

#[test]
fn leftovers_are_gone_one_interval_after_stop() {
    let mut host = Host::new();
    host.start();
    host.wait(250);
    host.pause();
    host.wait(50);
    host.stop();
    assert_eq!(host.pending.len(), 2);
    let repaints = host.repaints;
    host.wait(500);
    assert!(host.pending.is_empty());
    assert_eq!(host.repaints, repaints);
    assert_eq!(host.cursor.epoch(), 0);
    assert!(host.paused());
    assert!(host.visible());
}

#[test]
fn restart_at_the_same_instant_keeps_the_cadence() {
    // The blink left over from the first start is a twin of the one the
    // second start asks for: one of them toggles, the other finds the caret on.
    let mut host = Host::new();
    host.start();
    host.stop();
    host.start();
    assert!(!host.visible());
    assert_eq!(
        host.pending.iter().map(|(due, timer)| (*due, timer.wakeup, timer.epoch)).collect::<Vec<_>>(),
        vec![(500, Wakeup::Blink, 1), (500, Wakeup::Blink, 1)],
    );
    host.wait(499);
    assert!(!host.visible());
    host.wait(1);
    assert!(host.visible());
    assert_eq!(host.fired, 2);
    assert_eq!(host.pending.len(), 1);
    host.wait(499);
    assert!(host.visible());
    host.wait(1);
    assert!(!host.visible());
    host.wait(500);
    assert!(host.visible());
}
