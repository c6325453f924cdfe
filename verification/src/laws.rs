//! What holds of the scheduler, proved from its transitions.
//!
//! The laws on single transitions speak of [`State`]. The laws on timing
//! speak of [`World`]: the scheduler together with a host that lets time pass
//! and raises every alarm when it falls due, in any order among alarms due at
//! the same instant.

use crate::phases::{
    blinking, bystander, lemma_blinking_run, lemma_chain_step, lemma_resting_run,
    lemma_stopped_run, lemma_undisturbed_prefix, lemma_valid_run, lemma_valid_step, onlooker,
    pausing, resumed, stopped,
};
use crate::state::{Phase, Signal, State, Wakeup};
use crate::timeline::{in_cadence, interval, pause_delay, undisturbed, unstopped, Step, World};
use vstd::prelude::*;

verus! {

/// While a pause is in force the caret is shown, whatever the toggle flag
/// says.
pub proof fn law_paused_caret_is_shown(state: State)
    requires
        state.paused,
    ensures
        state.shown(),
{
}

/// The pause delay is positive and strictly shorter than the blink interval.
pub proof fn law_pause_delay_below_interval()
    ensures
        0 < pause_delay() < interval(),
        Wakeup::Resume.delay() == pause_delay(),
        Wakeup::Blink.delay() == interval(),
{
}

/// A pause turns the caret on at once, whatever the scheduler was doing.
pub proof fn law_pause_shows_caret_at_once(state: State)
    ensures
        state.pause().state.paused,
        state.pause().state.shown(),
{
}

/// The scheduler moves between three phases. It is created stopped, and a
/// stop takes it there from anywhere. A start takes it from stopped to
/// blinking, unless a pause is still in force. A pause takes it to paused
/// from anywhere, and the pending resume takes it from paused to blinking. A
/// blink step under the current epoch keeps it blinking, and a continuation
/// under any other epoch leaves the phase as it is.
pub proof fn law_phases(state: State, wakeup: Wakeup, epoch: nat)
    ensures
        State::fresh().phase() is Stopped,
        state.stop().state.phase() is Stopped,
        state.phase() is Stopped && !state.paused ==> state.start().state.phase() is Blinking,
        state.pause().state.phase() is Paused,
        state.phase() is Paused ==> state.resume(state.epoch).state.phase() is Blinking,
        state.phase() is Blinking ==> state.blink(state.epoch).state.phase() is Blinking,
        !state.current(epoch) ==> state.fire(wakeup, epoch).state.phase() == state.phase(),
{
}

/// The epoch moves up by exactly one with every request for a continuation,
/// whether a blink step, a pause or the end of a pause makes it, and the
/// request carries the new epoch. A transition that makes no request leaves
/// the epoch alone, with one exception: a stop returns it to zero.
pub proof fn law_epoch_counts_requests(state: State, wakeup: Wakeup, epoch: nat)
    ensures
        state.start().keeps_count(state),
        state.pause().keeps_count(state),
        state.pause().signal.request is Some,
        state.blink(epoch).keeps_count(state),
        state.resume(epoch).keeps_count(state),
        state.fire(wakeup, epoch).keeps_count(state),
        state.stop().state.epoch == 0,
        state.stop().signal.request is None,
{
}

/// A continuation acts only under the epoch that is current when it fires.
/// Under any other it repaints nothing and requests nothing, and leaves the
/// epoch and the pause as they are. A superseded resume changes nothing at
/// all; a superseded blink leaves the toggle flag on.
pub proof fn law_superseded_wakeup_is_inert(state: State, wakeup: Wakeup, epoch: nat)
    requires
        !state.current(epoch),
    ensures
        state.fire(wakeup, epoch).signal == Signal::silent(),
        state.fire(wakeup, epoch).state == (match wakeup {
            Wakeup::Blink => State { visible: true, ..state },
            Wakeup::Resume => state,
        }),
        state.shown() ==> state.fire(wakeup, epoch).state.shown(),
{
}

/// A blink continuation that fires during a pause is inert as well, whatever
/// its epoch.
pub proof fn law_pause_suppresses_blink(state: State, epoch: nat)
    requires
        state.paused,
    ensures
        state.blink(epoch).signal == Signal::silent(),
        state.blink(epoch).state == (State { visible: true, ..state }),
{
}

/// The world of a new scheduler is valid, and every run that can happen
/// leads from a valid world to a valid world.
pub proof fn law_worlds_stay_valid(w: World, steps: Seq<Step>)
    requires
        w.valid(),
        w.admits(steps),
    ensures
        World::fresh().valid(),
        w.run(steps).valid(),
{
    lemma_valid_run(w, steps);
}

/// Only one chain acts at a time. In the world of a new scheduler no alarm
/// carries an epoch above the scheduler's and at most one carries the
/// scheduler's own, and every run without a stop keeps it so and never
/// lowers the epoch.
pub proof fn law_one_chain_at_a_time(w: World, steps: Seq<Step>)
    requires
        w.ordered(),
        w.single_chain(),
        w.admits(steps),
        unstopped(steps),
    ensures
        World::fresh().ordered(),
        World::fresh().single_chain(),
        w.run(steps).ordered(),
        w.run(steps).single_chain(),
        w.run(steps).cursor.epoch >= w.cursor.epoch,
    decreases steps.len(),
{
    if steps.len() > 0 {
        let head = steps.drop_last();
        assert forall|i: int| 0 <= i < head.len() implies !((#[trigger] head[i]) is Stop) by {
            assert(head[i] == steps[i]);
        }
        assert(steps.last() == steps[steps.len() - 1]);
        law_one_chain_at_a_time(w, head);
        lemma_chain_step(w.run(head), steps.last());
    }
}

/// Where no alarm in flight carries an epoch above the scheduler's, a pause
/// is left alone by all of them, and a start by all but a blink.
pub proof fn law_ordered_world_is_clear(w: World)
    requires
        w.ordered(),
    ensures
        w.clear_to_pause(),
        forall|i: int|
            0 <= i < w.alarms.len() && (#[trigger] w.alarms[i]).wakeup is Resume
                ==> w.spares_start(w.alarms[i]),
{
}

/// After a start the caret toggles exactly once per blink interval, for as
/// long as the owner leaves the scheduler alone.
///
/// The start itself toggles the caret. From then on, however far an
/// undisturbed run has come, the epoch has moved up once per toggle, the
/// clock stands in the interval that follows the last toggle, the caret shows
/// what the start left flipped once per toggle, and each toggle has asked for
/// one repaint.
pub proof fn law_blink_cadence(w: World, steps: Seq<Step>)
    requires
        w.valid(),
        w.clear_to_start(),
        undisturbed(steps),
        w.step(Step::Start).admits(steps),
    ensures
        ({
            let began = w.step(Step::Start);
            let end = began.run(steps);
            let toggles = (end.cursor.epoch - began.cursor.epoch) as nat;
            &&& began.now == w.now
            &&& began.cursor.shown() != w.cursor.shown()
            &&& end.cursor.epoch >= began.cursor.epoch
            &&& in_cadence(end, began.now, began.cursor.shown(), toggles)
            &&& end.repaints == began.repaints + toggles
        }),
{
    let began = w.step(Step::Start);
    let first = !w.cursor.visible;
    let base = w.cursor.epoch + 1;
    let k = w.alarms.len() as int;
    lemma_valid_step(w, Step::Start);
    assert forall|j: int| 0 <= j < began.alarms.len() && j != k implies bystander(
        #[trigger] began.alarms[j],
        w.now,
        first,
        base,
    ) by {
        assert(began.alarms[j] == w.alarms[j]);
        assert(w.spares_start(w.alarms[j]));
    }
    assert(blinking(began, k, w.now, first, base, began.repaints));
    lemma_blinking_run(began, k, w.now, first, base, began.repaints, steps);
}

/// Read against the clock, a cadence counts whole intervals: the number of
/// toggles is the number of intervals that have passed since the chain
/// began, but for the instant at which a toggle is due and has not yet
/// happened.
pub proof fn law_cadence_counts_intervals(w: World, origin: nat, first: bool, toggles: nat)
    requires
        in_cadence(w, origin, first, toggles),
    ensures
        origin <= w.now,
        (w.now - origin) % (interval() as int) != 0 ==> toggles == (w.now - origin) / (
        interval() as int),
        (w.now - origin) % (interval() as int) == 0 ==> toggles == (w.now - origin) / (
        interval() as int) || toggles + 1 == (w.now - origin) / (interval() as int),
{
    let passed = w.now - origin;
    assert(interval() == 500);
    assert(toggles * 500 <= passed <= (toggles + 1) * 500);
    assert(passed == 500 * (passed / 500) + passed % 500);
    assert(0 <= passed % 500 < 500);
}

/// A stop ends the chain. Whatever was in flight still fires, but to no
/// effect: however far an undisturbed run has come since the stop, the epoch
/// is zero, no repaint was asked for beyond the one of the stop itself, no
/// alarm was added to those in flight, the pause flag is as it was, and a
/// caret that was on is still on. Once more than an interval has passed
/// nothing is in flight any more.
pub proof fn law_stop_ends_chain(w: World, steps: Seq<Step>)
    requires
        w.valid(),
        undisturbed(steps),
        w.step(Step::Stop).admits(steps),
    ensures
        ({
            let end = w.step(Step::Stop).run(steps);
            &&& end.cursor.epoch == 0
            &&& end.repaints == w.repaints + 1
            &&& end.cursor.paused == w.cursor.paused
            &&& (w.cursor.shown() ==> end.cursor.shown())
            &&& end.alarms.len() <= w.alarms.len()
            &&& forall|j: int|
                0 <= j < end.alarms.len() ==> w.alarms.contains(#[trigger] end.alarms[j])
            &&& end.now > w.now + interval() ==> end.alarms.len() == 0
        }),
{
    let halted = w.step(Step::Stop);
    lemma_valid_step(w, Step::Stop);
    assert forall|j: int| 0 <= j < halted.alarms.len() implies w.alarms.contains(
        #[trigger] halted.alarms[j],
    ) by {
        assert(halted.alarms[j] == w.alarms[j]);
    }
    assert(stopped(halted, w));
    lemma_stopped_run(halted, w, steps);
    let end = halted.run(steps);
    if end.now > w.now + interval() && end.alarms.len() > 0 {
        let alarm = end.alarms[0];
        assert(w.alarms.contains(alarm));
        let at = choose|at: int| 0 <= at < w.alarms.len() && w.alarms[at] == alarm;
        assert(w.alarms[at].due <= w.now + interval());
        assert(end.now <= alarm.due);
    }
}

/// A stop followed by a start resets the phase: the caret toggles once per
/// interval counted from the new start, under epochs counted from one.
///
/// The start must find the scheduler clear to start: not paused, and with
/// nothing left in flight from before the stop that could act on the new
/// chain. Where no pause is in force that is so, at the latest, once more
/// than an interval has passed since the stop, for then nothing is in flight.
pub proof fn law_restart_resets_phase(w: World, idle: Seq<Step>, steps: Seq<Step>)
    requires
        w.valid(),
        undisturbed(idle),
        w.step(Step::Stop).admits(idle),
        w.step(Step::Stop).run(idle).clear_to_start(),
        undisturbed(steps),
        w.step(Step::Stop).run(idle).step(Step::Start).admits(steps),
    ensures
        ({
            let rested = w.step(Step::Stop).run(idle);
            let began = rested.step(Step::Start);
            let end = began.run(steps);
            let toggles = (end.cursor.epoch - 1) as nat;
            &&& began.now == rested.now
            &&& began.cursor.epoch == 1
            &&& began.cursor.shown() != rested.cursor.shown()
            &&& end.cursor.epoch >= 1
            &&& in_cadence(end, began.now, began.cursor.shown(), toggles)
        }),
{
    law_stop_ends_chain(w, idle);
    lemma_valid_step(w, Step::Stop);
    lemma_valid_run(w.step(Step::Stop), idle);
    law_blink_cadence(w.step(Step::Stop).run(idle), steps);
}

/// Nothing in flight stands in the way of a start: a scheduler that is not
/// paused and has no alarm in flight is clear to start.
pub proof fn law_idle_host_is_clear(w: World)
    requires
        w.alarms.len() == 0,
    ensures
        w.valid(),
        w.ordered(),
        w.clear_to_pause(),
        !w.cursor.paused ==> w.clear_to_start(),
{
}

/// A pause turns the caret on at once and holds it on: until the pause delay
/// has passed the pause is in force, and once the pause has ended the caret
/// stays on for one whole blink interval before it toggles again.
///
/// However far an undisturbed run has come since the pause: before the pause
/// delay has passed the pause is in force; while it is in force the delay has
/// not been exceeded; and once it has ended a blink chain is under way that
/// began, with the caret on, at the moment the delay had passed.
pub proof fn law_pause_holds_caret(w: World, steps: Seq<Step>)
    requires
        w.valid(),
        w.clear_to_pause(),
        undisturbed(steps),
        w.step(Step::Pause).admits(steps),
    ensures
        ({
            let held = w.step(Step::Pause);
            let end = held.run(steps);
            let resume_at = w.now + pause_delay();
            let toggles = (end.cursor.epoch - (held.cursor.epoch + 1)) as nat;
            &&& held.now == w.now
            &&& held.cursor.paused
            &&& held.cursor.shown()
            &&& end.now < resume_at ==> end.cursor.paused
            &&& end.cursor.paused ==> end.now <= resume_at && end.cursor.epoch == held.cursor.epoch
            &&& !end.cursor.paused ==> end.cursor.epoch > held.cursor.epoch && in_cadence(
                end,
                resume_at,
                true,
                toggles,
            )
            &&& end.now < resume_at + interval() ==> end.cursor.shown()
        }),
{
    let held = w.step(Step::Pause);
    let base = w.cursor.epoch + 1;
    let k = w.alarms.len() as int;
    lemma_valid_step(w, Step::Pause);
    assert forall|j: int| 0 <= j < held.alarms.len() && j != k implies onlooker(
        #[trigger] held.alarms[j],
        w.now,
        base,
    ) by {
        assert(held.alarms[j] == w.alarms[j]);
        assert(w.spares_pause(w.alarms[j]));
    }
    assert(pausing(held, k, w.now, base, held.repaints));
    lemma_resting_run(held, w.now, base, held.repaints, steps);
    let end = held.run(steps);
    if exists|k: int| #[trigger] pausing(end, k, w.now, base, held.repaints) {
        let k = choose|k: int| #[trigger] pausing(end, k, w.now, base, held.repaints);
        assert(end.now <= end.alarms[k].due);
    } else {
        let k = choose|k: int| #[trigger] resumed(end, k, w.now, base, held.repaints);
        assert(end.now <= end.alarms[k].due);
    }
}

/// A pause during a pause starts the delay afresh, and the resume that was
/// pending never takes effect.
///
/// The second pause supersedes the epoch of the first for good. However far
/// an undisturbed run has come since the second pause: before the pause delay
/// has passed, counted from the second pause, the pause is in force; while
/// it is in force that delay has not been exceeded; and once it has ended a
/// blink chain is under way that began, with the caret on, at the moment
/// that delay had passed.
pub proof fn law_pause_debounces(w: World, between: Seq<Step>, after: Seq<Step>)
    requires
        w.valid(),
        undisturbed(between),
        w.step(Step::Pause).admits(between),
        w.step(Step::Pause).run(between).cursor.paused,
        w.step(Step::Pause).run(between).clear_to_pause(),
        undisturbed(after),
        w.step(Step::Pause).run(between).step(Step::Pause).admits(after),
    ensures
        ({
            let first = w.step(Step::Pause);
            let again = first.run(between).step(Step::Pause);
            let end = again.run(after);
            let resume_at = again.now + pause_delay();
            let toggles = (end.cursor.epoch - (again.cursor.epoch + 1)) as nat;
            &&& first.now <= again.now
            &&& first.cursor.epoch < again.cursor.epoch <= end.cursor.epoch
            &&& !end.cursor.current(first.cursor.epoch)
            &&& end.now < resume_at ==> end.cursor.paused
            &&& end.cursor.paused ==> end.now <= resume_at
            &&& !end.cursor.paused ==> in_cadence(end, resume_at, true, toggles)
            &&& end.now < resume_at + interval() ==> end.cursor.shown()
        }),
{
    let first = w.step(Step::Pause);
    let mid = first.run(between);
    lemma_valid_step(w, Step::Pause);
    lemma_valid_run(first, between);
    law_undisturbed_run_goes_forward(first, between);
    law_pause_holds_caret(mid, after);
}

/// While the owner leaves the scheduler alone the clock does not go back
/// and the epoch does not go down.
pub proof fn law_undisturbed_run_goes_forward(w: World, steps: Seq<Step>)
    requires
        undisturbed(steps),
    ensures
        w.run(steps).now >= w.now,
        w.run(steps).cursor.epoch >= w.cursor.epoch,
    decreases steps.len(),
{
    if steps.len() > 0 {
        lemma_undisturbed_prefix(steps);
        law_undisturbed_run_goes_forward(w, steps.drop_last());
    }
}

} // verus!
