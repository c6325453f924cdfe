//! The scheduler together with its host, as a timed transition system.
//!
//! The host keeps a clock and the alarms it was asked to raise. It cannot
//! cancel an alarm: every alarm ever requested fires when it falls due. This
//! model gives the timing properties of the scheduler a precise meaning; it is
//! specification only.

use crate::state::{Outcome, State, Wakeup, BLINK_INTERVAL_MS, PAUSE_DELAY_MS};
use vstd::prelude::*;

verus! {

/// A continuation in flight: `wakeup` will run under `epoch` once the clock
/// reads `due`.
pub struct Alarm {
    pub due: nat,
    pub wakeup: Wakeup,
    pub epoch: nat,
}

/// The scheduler and its host at one instant.
pub struct World {
    /// The scheduler's state.
    pub cursor: State,
    /// The clock, in milliseconds.
    pub now: nat,
    /// The alarms in flight, in the order they were requested.
    pub alarms: Seq<Alarm>,
    /// How often observers have been told to repaint.
    pub repaints: nat,
}

/// One thing that can happen to a world.
pub enum Step {
    /// The owner starts blinking.
    Start,
    /// The owner stops blinking.
    Stop,
    /// The user interacts.
    Pause,
    /// The host raises the alarm at this position among those in flight.
    Fire(int),
    /// This many milliseconds pass.
    Elapse(nat),
}

impl Step {
    /// Whether the step is the host's own doing, not a call by the owner.
    pub open spec fn by_host(self) -> bool {
        self is Fire || self is Elapse
    }
}

/// Whether `steps` holds no call by the owner: time passes and alarms fire,
/// nothing else.
pub open spec fn undisturbed(steps: Seq<Step>) -> bool {
    forall|i: int| 0 <= i < steps.len() ==> (#[trigger] steps[i]).by_host()
}

/// `seen` after `n` toggles.
pub open spec fn flipped(seen: bool, n: nat) -> bool {
    if n % 2 == 0 {
        seen
    } else {
        !seen
    }
}

impl World {
    /// A scheduler that was just created, with a host that has nothing to do.
    pub open spec fn fresh() -> World {
        World { cursor: State::fresh(), now: 0, alarms: Seq::empty(), repaints: 0 }
    }

    /// The host does what a transition asks: the repaint is counted and the
    /// requested continuation joins the alarms in flight.
    pub open spec fn absorb(self, outcome: Outcome) -> World {
        World {
            cursor: outcome.state,
            now: self.now,
            alarms: match outcome.signal.request {
                Some(request) => self.alarms.push(
                    Alarm {
                        due: self.now + request.delay,
                        wakeup: request.wakeup,
                        epoch: request.epoch,
                    },
                ),
                None => self.alarms,
            },
            repaints: if outcome.signal.notify {
                self.repaints + 1
            } else {
                self.repaints
            },
        }
    }

    /// The world with the alarm at position `i` taken out of flight.
    pub open spec fn without(self, i: int) -> World {
        World { alarms: self.alarms.remove(i), ..self }
    }

    /// Whether `step` can happen now. The owner may call at any time. An
    /// alarm fires only once it is due, and the clock cannot pass an alarm
    /// without it firing.
    pub open spec fn allows(self, step: Step) -> bool {
        match step {
            Step::Fire(i) => 0 <= i < self.alarms.len() && self.alarms[i].due <= self.now,
            Step::Elapse(ms) => forall|i: int|
                0 <= i < self.alarms.len() ==> self.now + ms <= (#[trigger] self.alarms[i]).due,
            _ => true,
        }
    }

    /// The world after `step`.
    pub open spec fn step(self, step: Step) -> World {
        match step {
            Step::Start => self.absorb(self.cursor.start()),
            Step::Stop => self.absorb(self.cursor.stop()),
            Step::Pause => self.absorb(self.cursor.pause()),
            Step::Fire(i) => self.without(i).absorb(
                self.cursor.fire(self.alarms[i].wakeup, self.alarms[i].epoch),
            ),
            Step::Elapse(ms) => World { now: self.now + ms, ..self },
        }
    }

    /// The world after `steps`, taken in order.
    pub open spec fn run(self, steps: Seq<Step>) -> World
        decreases steps.len(),
    {
        if steps.len() == 0 {
            self
        } else {
            self.run(steps.drop_last()).step(steps.last())
        }
    }

    /// Whether each of `steps` can happen when its turn comes.
    pub open spec fn admits(self, steps: Seq<Step>) -> bool
        decreases steps.len(),
    {
        steps.len() == 0 || (self.admits(steps.drop_last()) && self.run(steps.drop_last()).allows(
            steps.last(),
        ))
    }

    /// Whether every alarm in flight could have been requested by the
    /// scheduler: it carries an epoch of at least one, is not overdue, and
    /// falls due no later than its delay from now.
    pub open spec fn valid(self) -> bool {
        forall|i: int|
            0 <= i < self.alarms.len() ==> {
                let alarm = #[trigger] self.alarms[i];
                &&& 1 <= alarm.epoch
                &&& self.now <= alarm.due <= self.now + alarm.wakeup.delay()
            }
    }

    /// Whether `alarm`, in flight now, leaves a start alone.
    ///
    /// A resume does unless it carries the epoch that the start issues. A
    /// blink that falls due before the first toggle does if it carries another
    /// epoch and finds the caret turned on by the start. A blink that falls
    /// due together with the first toggle does if it carries the epoch that
    /// the start issues, so that one of the two is the toggle, and that
    /// toggle turns the caret on.
    pub open spec fn spares_start(self, alarm: Alarm) -> bool {
        match alarm.wakeup {
            Wakeup::Resume => alarm.epoch != self.cursor.epoch + 1,
            Wakeup::Blink => if alarm.due < self.now + interval() {
                alarm.epoch != self.cursor.epoch + 1 && !self.cursor.visible
            } else {
                alarm.epoch == self.cursor.epoch + 1 && self.cursor.visible
            },
        }
    }

    /// Whether a start now begins a blink chain that nothing in flight
    /// disturbs: no pause is in force, and every alarm in flight leaves the
    /// start alone.
    pub open spec fn clear_to_start(self) -> bool {
        &&& !self.cursor.paused
        &&& forall|i: int|
            0 <= i < self.alarms.len() ==> self.spares_start(#[trigger] self.alarms[i])
    }

    /// Whether `alarm`, in flight now, leaves a pause alone. A resume does
    /// unless it would end the pause early, carrying the epoch of the pause
    /// and falling due before the pause delay has passed, or end it twice,
    /// carrying the epoch after that and falling due with the pause delay. A
    /// blink does unless it can fire once the pause has ended and carries the
    /// epoch of the chain that then begins.
    pub open spec fn spares_pause(self, alarm: Alarm) -> bool {
        let ends = self.now + pause_delay();
        match alarm.wakeup {
            Wakeup::Resume => {
                &&& alarm.due < ends ==> alarm.epoch != self.cursor.epoch + 1
                &&& alarm.due == ends ==> alarm.epoch != self.cursor.epoch + 2
            },
            Wakeup::Blink => alarm.due >= ends ==> alarm.epoch != self.cursor.epoch + 2,
        }
    }

    /// Whether every alarm in flight leaves a pause alone.
    pub open spec fn clear_to_pause(self) -> bool {
        forall|i: int| 0 <= i < self.alarms.len() ==> self.spares_pause(#[trigger] self.alarms[i])
    }

    /// Whether no alarm in flight carries an epoch above the scheduler's.
    /// This holds until a stop returns the epoch to zero, and again once the
    /// alarms left over from before the stop have fired.
    pub open spec fn ordered(self) -> bool {
        forall|i: int|
            0 <= i < self.alarms.len() ==> (#[trigger] self.alarms[i]).epoch <= self.cursor.epoch
    }

    /// Whether at most one alarm in flight carries the scheduler's epoch.
    pub open spec fn single_chain(self) -> bool {
        forall|i: int, j: int|
            0 <= i < j < self.alarms.len() && (#[trigger] self.alarms[i]).epoch
                == self.cursor.epoch ==> (#[trigger] self.alarms[j]).epoch != self.cursor.epoch
    }
}

/// Whether `steps` holds no stop.
pub open spec fn unstopped(steps: Seq<Step>) -> bool {
    forall|i: int| 0 <= i < steps.len() ==> !((#[trigger] steps[i]) is Stop)
}

/// Whether `w` is where a blink chain puts it that began at `origin` with the
/// caret showing `first` and has toggled `toggles` times since: no pause is
/// in force, the clock stands in the interval after the last toggle, and the
/// caret shows `first` flipped that many times.
pub open spec fn in_cadence(w: World, origin: nat, first: bool, toggles: nat) -> bool {
    &&& !w.cursor.paused
    &&& origin + toggles * interval() <= w.now <= origin + (toggles + 1) * interval()
    &&& w.cursor.shown() == flipped(first, toggles)
}

/// The blink interval, in milliseconds.
#[verifier::inline]
pub open spec fn interval() -> nat {
    BLINK_INTERVAL_MS as nat
}

/// The pause delay, in milliseconds.
#[verifier::inline]
pub open spec fn pause_delay() -> nat {
    PAUSE_DELAY_MS as nat
}

} // verus!
