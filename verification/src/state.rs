//! The blink scheduler as a mathematical state machine.
//!
//! Everything here is specification: the state the scheduler keeps, the
//! requests it makes of its host, and one transition function per entry point.
//! The executable scheduler is specified against these functions.

use vstd::prelude::*;

verus! {

/// Time between two toggles of the caret while it blinks, in milliseconds.
pub const BLINK_INTERVAL_MS: u64 = 500;

/// Time the caret stays forced visible after an interaction before blinking
/// resumes, in milliseconds. Shorter than the blink interval.
pub const PAUSE_DELAY_MS: u64 = 300;

/// The continuation that a timer runs when it fires.
#[derive(Clone, Copy, Debug, PartialEq, Eq, Structural)]
pub enum Wakeup {
    /// One step of the blink loop.
    Blink,
    /// The end of a pause.
    Resume,
}

impl Wakeup {
    /// The delay after which the scheduler asks for this continuation.
    pub open spec fn delay(self) -> nat {
        match self {
            Wakeup::Blink => BLINK_INTERVAL_MS as nat,
            Wakeup::Resume => PAUSE_DELAY_MS as nat,
        }
    }
}

/// What the scheduler remembers between calls.
pub struct State {
    /// The toggle flag: whether the blink loop last turned the caret on.
    pub visible: bool,
    /// Whether a pause is in force.
    pub paused: bool,
    /// The generation of the timer chain that may still act.
    pub epoch: nat,
}

/// A continuation that the host is asked to run once, `delay` milliseconds
/// from now, handing back `epoch`.
pub struct Request {
    pub delay: nat,
    pub wakeup: Wakeup,
    pub epoch: nat,
}

/// What a transition asks of the host.
pub struct Signal {
    /// Whether observers are told to repaint.
    pub notify: bool,
    /// The continuation to schedule, if any.
    pub request: Option<Request>,
}

/// The result of a transition: the next state and what the host must do.
pub struct Outcome {
    pub state: State,
    pub signal: Signal,
}

/// Where the scheduler stands.
pub enum Phase {
    /// Epoch zero: no timer in flight can act.
    Stopped,
    /// The caret toggles once per interval.
    Blinking,
    /// The caret is forced on until the pending resume fires.
    Paused,
}

impl Signal {
    /// Nothing to repaint, nothing to schedule.
    pub open spec fn silent() -> Signal {
        Signal { notify: false, request: None }
    }

    /// A repaint, nothing to schedule.
    pub open spec fn repaint() -> Signal {
        Signal { notify: true, request: None }
    }

    /// A repaint, and `wakeup` scheduled after its delay under `epoch`.
    pub open spec fn repaint_then(wakeup: Wakeup, epoch: nat) -> Signal {
        Signal {
            notify: true,
            request: Some(Request { delay: wakeup.delay(), wakeup, epoch }),
        }
    }
}

impl Outcome {
    /// Whether the epoch kept count from `before`: a transition that makes a
    /// request moves the epoch up by one and hands the new epoch to the
    /// request, with the delay of its wakeup; one that makes none leaves the
    /// epoch alone.
    pub open spec fn keeps_count(self, before: State) -> bool {
        match self.signal.request {
            Some(request) => {
                &&& self.state.epoch == before.epoch + 1
                &&& request.epoch == self.state.epoch
                &&& request.delay == request.wakeup.delay()
            },
            None => self.state.epoch == before.epoch,
        }
    }
}

impl State {
    /// The state of a scheduler that has never been started.
    pub open spec fn fresh() -> State {
        State { visible: false, paused: false, epoch: 0 }
    }

    /// Whether the caret is to be painted: always during a pause, otherwise as
    /// the toggle flag says.
    pub open spec fn shown(self) -> bool {
        self.paused || self.visible
    }

    /// The phase the scheduler is in.
    pub open spec fn phase(self) -> Phase {
        if self.epoch == 0 {
            Phase::Stopped
        } else if self.paused {
            Phase::Paused
        } else {
            Phase::Blinking
        }
    }

    /// Whether a continuation scheduled under `epoch` belongs to the chain
    /// that may still act.
    pub open spec fn current(self, epoch: nat) -> bool {
        epoch == self.epoch
    }

    /// A blink continuation scheduled under `epoch` fires.
    ///
    /// During a pause, or when `epoch` has been superseded, the caret is left
    /// on and the chain ends. Otherwise the flag flips, observers repaint, and
    /// the next blink is requested one interval ahead under the next epoch.
    pub open spec fn blink(self, epoch: nat) -> Outcome {
        if self.paused || !self.current(epoch) {
            Outcome { state: State { visible: true, ..self }, signal: Signal::silent() }
        } else {
            Outcome {
                state: State { visible: !self.visible, epoch: self.epoch + 1, ..self },
                signal: Signal::repaint_then(Wakeup::Blink, self.epoch + 1),
            }
        }
    }

    /// Blinking starts: a blink step under the epoch now current.
    pub open spec fn start(self) -> Outcome {
        self.blink(self.epoch)
    }

    /// Blinking stops: the epoch returns to zero and observers repaint.
    pub open spec fn stop(self) -> Outcome {
        Outcome { state: State { epoch: 0, ..self }, signal: Signal::repaint() }
    }

    /// The user interacts: the caret is forced on, the epoch advances, and the
    /// end of the pause is requested one pause delay ahead.
    pub open spec fn pause(self) -> Outcome {
        Outcome {
            state: State { visible: true, paused: true, epoch: self.epoch + 1 },
            signal: Signal::repaint_then(Wakeup::Resume, self.epoch + 1),
        }
    }

    /// A resume continuation scheduled under `epoch` fires.
    ///
    /// When `epoch` is still current the pause ends with the caret on, and the
    /// first blink is requested a full interval ahead under the next epoch.
    /// A superseded continuation changes nothing.
    pub open spec fn resume(self, epoch: nat) -> Outcome {
        if self.current(epoch) {
            Outcome {
                state: State { visible: true, paused: false, epoch: self.epoch + 1 },
                signal: Signal::repaint_then(Wakeup::Blink, self.epoch + 1),
            }
        } else {
            Outcome { state: self, signal: Signal::silent() }
        }
    }

    /// The continuation `wakeup`, scheduled under `epoch`, fires.
    pub open spec fn fire(self, wakeup: Wakeup, epoch: nat) -> Outcome {
        match wakeup {
            Wakeup::Blink => self.blink(epoch),
            Wakeup::Resume => self.resume(epoch),
        }
    }
}

} // verus!
