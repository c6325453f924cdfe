//! The executable blink scheduler.

use crate::state::{Request, Signal, State, Wakeup, BLINK_INTERVAL_MS, PAUSE_DELAY_MS};
use vstd::prelude::*;

verus! {

/// A continuation for the host to run once, `delay_ms` milliseconds from now.
/// When the time has passed the host hands `wakeup` and `epoch` to
/// [`BlinkCursor::fire`].
#[derive(Clone, Copy, Debug, PartialEq, Eq)]
pub struct Timer {
    pub delay_ms: u64,
    pub wakeup: Wakeup,
    pub epoch: usize,
}

/// What the host must do after a call into the scheduler.
#[derive(Clone, Copy, Debug, PartialEq, Eq)]
pub struct Effect {
    /// Tell observers that the caret may have changed and needs a repaint.
    pub notify: bool,
    /// Schedule this continuation. Timers scheduled earlier stay in flight.
    pub timer: Option<Timer>,
}

impl View for Timer {
    type V = Request;

    open spec fn view(&self) -> Request {
        Request { delay: self.delay_ms as nat, wakeup: self.wakeup, epoch: self.epoch as nat }
    }
}

impl View for Effect {
    type V = Signal;

    open spec fn view(&self) -> Signal {
        Signal {
            notify: self.notify,
            request: match self.timer {
                Some(timer) => Some(timer@),
                None => None,
            },
        }
    }
}

impl Wakeup {
    /// The delay after which the scheduler asks for this continuation, in
    /// milliseconds.
    pub fn delay_ms(self) -> (ms: u64)
        ensures
            ms == self.delay(),
    {
        match self {
            Wakeup::Blink => BLINK_INTERVAL_MS,
            Wakeup::Resume => PAUSE_DELAY_MS,
        }
    }
}

impl Effect {
    /// Nothing to repaint, nothing to schedule.
    fn silent() -> (effect: Effect)
        ensures
            effect@ == Signal::silent(),
    {
        Effect { notify: false, timer: None }
    }

    /// A repaint, and `wakeup` scheduled after its delay under `epoch`.
    fn repaint_then(wakeup: Wakeup, epoch: usize) -> (effect: Effect)
        ensures
            effect@ == Signal::repaint_then(wakeup, epoch as nat),
    {
        Effect { notify: true, timer: Some(Timer { delay_ms: wakeup.delay_ms(), wakeup, epoch }) }
    }
}

/// Drives the blinking of a text-input caret.
///
/// The caret toggles once per blink interval. A pause forces it on while the
/// user interacts; blinking resumes a pause delay after the last interaction,
/// with the caret on for one more whole interval.
pub struct BlinkCursor {
    visible: bool,
    paused: bool,
    epoch: usize,
}

impl View for BlinkCursor {
    type V = State;

    closed spec fn view(&self) -> State {
        State { visible: self.visible, paused: self.paused, epoch: self.epoch as nat }
    }
}

impl BlinkCursor {
    /// A scheduler that is stopped: caret off, no pause, epoch zero.
    pub fn new() -> (cursor: Self)
        ensures
            cursor@ == State::fresh(),
    {
        BlinkCursor { visible: false, paused: false, epoch: 0 }
    }

    /// Starts blinking: takes a blink step under the epoch now current.
    ///
    /// Unless a pause is in force this moves the epoch up by one, for which
    /// there must be room.
    pub fn start(&mut self) -> (effect: Effect)
        requires
            old(self)@.start().state.epoch <= usize::MAX,
        ensures
            final(self)@ == old(self)@.start().state,
            effect@ == old(self)@.start().signal,
    {
        let epoch = self.epoch;
        self.blink(epoch)
    }

    /// Stops blinking. Timers in flight are not canceled: the epoch returns
    /// to zero, which no timer was ever scheduled under.
    pub fn stop(&mut self) -> (effect: Effect)
        ensures
            final(self)@ == old(self)@.stop().state,
            effect@ == old(self)@.stop().signal,
    {
        self.epoch = 0;
        Effect { notify: true, timer: None }
    }

    /// Advances the epoch, superseding every timer in flight.
    fn next_epoch(&mut self) -> (epoch: usize)
        requires
            old(self)@.epoch < usize::MAX,
        ensures
            epoch == old(self)@.epoch + 1,
            final(self)@ == (State { epoch: old(self)@.epoch + 1, ..old(self)@ }),
    {
        self.epoch += 1;
        self.epoch
    }

    /// Runs the blink continuation that was scheduled under `epoch`.
    ///
    /// When `epoch` is current and no pause is in force the caret toggles and
    /// the next blink is requested; this moves the epoch up by one, for which
    /// there must be room. Otherwise the caret is left on and nothing is
    /// requested.
    pub fn blink(&mut self, epoch: usize) -> (effect: Effect)
        requires
            old(self)@.blink(epoch as nat).state.epoch <= usize::MAX,
        ensures
            final(self)@ == old(self)@.blink(epoch as nat).state,
            effect@ == old(self)@.blink(epoch as nat).signal,
    {
        if self.paused || epoch != self.epoch {
            self.visible = true;
            return Effect::silent();
        }
        self.visible = !self.visible;
        let epoch = self.next_epoch();
        Effect::repaint_then(Wakeup::Blink, epoch)
    }

    /// Whether the caret is to be painted now. During a pause it always is.
    pub fn visible(&self) -> (shown: bool)
        ensures
            shown == self@.shown(),
            self@.paused ==> shown,
    {
        self.paused || self.visible
    }

    /// Whether a pause is in force.
    pub fn paused(&self) -> (paused: bool)
        ensures
            paused == self@.paused,
    {
        self.paused
    }

    /// The epoch of the timer chain that may still act.
    pub fn epoch(&self) -> (epoch: usize)
        ensures
            epoch == self@.epoch,
    {
        self.epoch
    }

    /// Pauses blinking after an interaction: the caret is forced on, and the
    /// end of the pause is scheduled one pause delay ahead. A pause already
    /// pending is superseded, so the delay counts from this call.
    ///
    /// This moves the epoch up by one, for which there must be room.
    pub fn pause(&mut self) -> (effect: Effect)
        requires
            old(self)@.pause().state.epoch <= usize::MAX,
        ensures
            final(self)@ == old(self)@.pause().state,
            effect@ == old(self)@.pause().signal,
    {
        self.paused = true;
        self.visible = true;
        let epoch = self.next_epoch();
        Effect::repaint_then(Wakeup::Resume, epoch)
    }

    /// Runs the resume continuation that was scheduled under `epoch`.
    ///
    /// When `epoch` is current the pause ends with the caret on and the first
    /// blink is requested a whole interval ahead; this moves the epoch up by
    /// one, for which there must be room. Otherwise nothing changes.
    pub fn resume(&mut self, epoch: usize) -> (effect: Effect)
        requires
            old(self)@.resume(epoch as nat).state.epoch <= usize::MAX,
        ensures
            final(self)@ == old(self)@.resume(epoch as nat).state,
            effect@ == old(self)@.resume(epoch as nat).signal,
    {
        if epoch != self.epoch {
            return Effect::silent();
        }
        self.paused = false;
        self.visible = true;
        let epoch = self.next_epoch();
        Effect::repaint_then(Wakeup::Blink, epoch)
    }

    /// Runs the continuation of a timer that has expired: the blink step or
    /// the end of a pause, as `wakeup` says, with the epoch the timer was
    /// scheduled under.
    pub fn fire(&mut self, wakeup: Wakeup, epoch: usize) -> (effect: Effect)
        requires
            old(self)@.fire(wakeup, epoch as nat).state.epoch <= usize::MAX,
        ensures
            final(self)@ == old(self)@.fire(wakeup, epoch as nat).state,
            effect@ == old(self)@.fire(wakeup, epoch as nat).signal,
    {
        match wakeup {
            Wakeup::Blink => self.blink(epoch),
            Wakeup::Resume => self.resume(epoch),
        }
    }
}

} // verus!
