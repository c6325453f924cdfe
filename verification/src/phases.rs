//! The phases a world passes through while the owner leaves it alone, as
//! invariants of undisturbed runs. The public laws are read off these.

use crate::state::{State, Wakeup};
use crate::timeline::{flipped, interval, pause_delay, undisturbed, Alarm, Step, World};
use vstd::prelude::*;

verus! {

/// Dropping the last step of an undisturbed run leaves an undisturbed run
/// that ends in a step of the host.
pub(crate) proof fn lemma_undisturbed_prefix(steps: Seq<Step>)
    requires
        undisturbed(steps),
        steps.len() > 0,
    ensures
        undisturbed(steps.drop_last()),
        steps.last().by_host(),
{
    let head = steps.drop_last();
    assert forall|i: int| 0 <= i < head.len() implies (#[trigger] head[i]).by_host() by {
        assert(head[i] == steps[i]);
    }
    assert(steps.last() == steps[steps.len() - 1]);
}

/// Where the alarm at `j` comes from when the alarm at `i` is taken out.
pub(crate) open spec fn before_removal(i: int, j: int) -> int {
    if j < i {
        j
    } else {
        j + 1
    }
}

/// Taking the alarm at `i` out of flight shifts those behind it down by one.
pub(crate) proof fn lemma_without(w: World, i: int)
    requires
        0 <= i < w.alarms.len(),
    ensures
        w.without(i).alarms.len() == w.alarms.len() - 1,
        forall|j: int|
            0 <= j < w.alarms.len() - 1 ==> #[trigger] w.without(i).alarms[j]
                == w.alarms[before_removal(i, j)],
{
}

/// The alarm that makes the first toggle of the blink chain that began at
/// `origin` under epoch `base`.
pub(crate) open spec fn first_toggle(origin: nat, base: nat) -> Alarm {
    Alarm { due: origin + interval(), wakeup: Wakeup::Blink, epoch: base }
}

/// An alarm that a blink chain finds in flight does it no harm. The chain
/// began at `origin` under epoch `base` with the caret showing `first`. A
/// resume falls due before the first toggle and does not carry `base`. A
/// blink either does the same and finds the caret on, or it is a twin of the
/// alarm that makes the first toggle, and that toggle turns the caret on.
pub(crate) open spec fn bystander(alarm: Alarm, origin: nat, first: bool, base: nat) -> bool {
    match alarm.wakeup {
        Wakeup::Resume => alarm.epoch != base && alarm.due < origin + interval(),
        Wakeup::Blink => if alarm.due < origin + interval() {
            alarm.epoch != base && first
        } else {
            alarm == first_toggle(origin, base) && !first
        },
    }
}

/// A blink chain is under way. It began at `origin` under epoch `base` with
/// the caret showing `first`, after `painted` repaints. The alarm at `k` is
/// the chain's own. Until the first toggle other alarms may be in flight,
/// all of them bystanders. At the instant of the first toggle twins of the
/// alarm that made it may be left. After that instant the chain's alarm is
/// the only one.
pub(crate) open spec fn blinking(
    w: World,
    k: int,
    origin: nat,
    first: bool,
    base: nat,
    painted: nat,
) -> bool {
    let n = (w.cursor.epoch - base) as nat;
    &&& w.valid()
    &&& w.cursor.epoch >= base
    &&& !w.cursor.paused
    &&& w.cursor.visible == flipped(first, n)
    &&& origin + n * interval() <= w.now
    &&& w.repaints == painted + n
    &&& 0 <= k < w.alarms.len()
    &&& w.alarms[k] == Alarm {
        due: origin + (n + 1) * interval(),
        wakeup: Wakeup::Blink,
        epoch: w.cursor.epoch,
    }
    &&& forall|j: int|
        0 <= j < w.alarms.len() && j != k ==> if n == 0 {
            bystander(#[trigger] w.alarms[j], origin, first, base)
        } else {
            w.alarms[j] == first_toggle(origin, base) && !first
        }
}

pub(crate) proof fn lemma_blinking_step(
    w: World,
    k: int,
    origin: nat,
    first: bool,
    base: nat,
    painted: nat,
    step: Step,
) -> (k2: int)
    requires
        blinking(w, k, origin, first, base, painted),
        step.by_host(),
        w.allows(step),
    ensures
        blinking(w.step(step), k2, origin, first, base, painted),
{
    let next = w.step(step);
    let n = (w.cursor.epoch - base) as nat;
    match step {
        Step::Fire(i) => {
            lemma_without(w, i);
            let alarm = w.alarms[i];
            assert(w.now == alarm.due);
            assert(i != k ==> if n == 0 {
                bystander(alarm, origin, first, base)
            } else {
                alarm == first_toggle(origin, base) && !first
            });
            if alarm.wakeup is Blink && alarm.epoch == w.cursor.epoch {
                // The chain toggles: through its own alarm, or before the
                // first toggle through a twin of it.
                assert(w.now == origin + (n + 1) * interval());
                assert(next.cursor.epoch == w.cursor.epoch + 1);
                let k2 = w.alarms.len() - 1;
                assert(next.alarms == w.without(i).alarms.push(
                    Alarm {
                        due: w.now + interval(),
                        wakeup: Wakeup::Blink,
                        epoch: w.cursor.epoch + 1,
                    },
                ));
                assert forall|j: int| 0 <= j < next.alarms.len() implies {
                    &&& 1 <= (#[trigger] next.alarms[j]).epoch
                    &&& next.now <= next.alarms[j].due <= next.now + next.alarms[j].wakeup.delay()
                    &&& (j != k2 ==> next.alarms[j] == first_toggle(origin, base) && !first)
                } by {
                    if j != k2 {
                        let src = before_removal(i, j);
                        let other = w.alarms[src];
                        assert(next.alarms[j] == other);
                        assert(w.now <= other.due);
                        if src != k {
                            assert(if n == 0 {
                                bystander(other, origin, first, base)
                            } else {
                                other == first_toggle(origin, base) && !first
                            });
                        }
                    }
                }
                k2
            } else {
                assert(i != k);
                assert(next.cursor == w.cursor);
                assert(next.alarms == w.without(i).alarms);
                let k2 = if k < i { k } else { k - 1 };
                assert forall|j: int| 0 <= j < next.alarms.len() implies {
                    &&& 1 <= (#[trigger] next.alarms[j]).epoch
                    &&& next.now <= next.alarms[j].due <= next.now + next.alarms[j].wakeup.delay()
                    &&& (j != k2 ==> if n == 0 {
                        bystander(next.alarms[j], origin, first, base)
                    } else {
                        next.alarms[j] == first_toggle(origin, base) && !first
                    })
                } by {
                    assert(next.alarms[j] == w.alarms[before_removal(i, j)]);
                }
                k2
            }
        },
        Step::Elapse(ms) => {
            assert forall|j: int| 0 <= j < next.alarms.len() implies {
                &&& 1 <= (#[trigger] next.alarms[j]).epoch
                &&& next.now <= next.alarms[j].due <= next.now + next.alarms[j].wakeup.delay()
                &&& (j != k ==> if n == 0 {
                    bystander(next.alarms[j], origin, first, base)
                } else {
                    next.alarms[j] == first_toggle(origin, base) && !first
                })
            } by {
                assert(next.alarms[j] == w.alarms[j]);
            }
            k
        },
        _ => k,
    }
}

/// An undisturbed run keeps a blink chain going.
pub(crate) proof fn lemma_blinking_run(
    w: World,
    k: int,
    origin: nat,
    first: bool,
    base: nat,
    painted: nat,
    steps: Seq<Step>,
) -> (k2: int)
    requires
        blinking(w, k, origin, first, base, painted),
        undisturbed(steps),
        w.admits(steps),
    ensures
        blinking(w.run(steps), k2, origin, first, base, painted),
    decreases steps.len(),
{
    if steps.len() == 0 {
        k
    } else {
        lemma_undisturbed_prefix(steps);
        let head = steps.drop_last();
        let k1 = lemma_blinking_run(w, k, origin, first, base, painted, head);
        lemma_blinking_step(w.run(head), k1, origin, first, base, painted, steps.last())
    }
}

/// An alarm that a pause finds in flight does it no harm. The pause began
/// at `since` under epoch `base`. The alarm falls due within its delay of
/// `since`. A resume that falls due before the pause ends does not carry
/// `base`; an alarm that can fire once the pause has ended does not carry
/// the epoch after `base`.
pub(crate) open spec fn onlooker(alarm: Alarm, since: nat, base: nat) -> bool {
    let ends = since + pause_delay();
    &&& alarm.due <= since + alarm.wakeup.delay()
    &&& match alarm.wakeup {
        Wakeup::Resume => {
            &&& alarm.due < ends ==> alarm.epoch != base
            &&& alarm.due == ends ==> alarm.epoch != base + 1
        },
        Wakeup::Blink => alarm.due >= ends ==> alarm.epoch != base + 1,
    }
}

/// A pause is in force. It began at `since` under epoch `base`, after
/// `painted` repaints. The alarm at `k` is the one it asked for; every other
/// is an onlooker.
pub(crate) open spec fn pausing(w: World, k: int, since: nat, base: nat, painted: nat) -> bool {
    &&& w.valid()
    &&& w.cursor == State { visible: true, paused: true, epoch: base }
    &&& since <= w.now
    &&& w.repaints == painted
    &&& 0 <= k < w.alarms.len()
    &&& w.alarms[k] == Alarm {
        due: since + pause_delay(),
        wakeup: Wakeup::Resume,
        epoch: base,
    }
    &&& forall|j: int|
        0 <= j < w.alarms.len() && j != k ==> onlooker(#[trigger] w.alarms[j], since, base)
}

/// The blink chain that follows the pause begun at `since` under `base`.
pub(crate) open spec fn resumed(w: World, k: int, since: nat, base: nat, painted: nat) -> bool {
    blinking(w, k, since + pause_delay(), true, base + 1, painted + 1)
}

/// A pause is in force or has given way to its blink chain.
pub(crate) open spec fn resting(w: World, since: nat, base: nat, painted: nat) -> bool {
    ||| exists|k: int| #[trigger] pausing(w, k, since, base, painted)
    ||| exists|k: int| #[trigger] resumed(w, k, since, base, painted)
}

/// A step of the host during a pause either leaves the pause in force or
/// ends it when the pause delay has passed. The flag returned tells which.
pub(crate) proof fn lemma_pausing_step(
    w: World,
    k: int,
    since: nat,
    base: nat,
    painted: nat,
    step: Step,
) -> (then: (bool, int))
    requires
        pausing(w, k, since, base, painted),
        step.by_host(),
        w.allows(step),
    ensures
        then.0 ==> resumed(w.step(step), then.1, since, base, painted),
        !then.0 ==> pausing(w.step(step), then.1, since, base, painted),
{
    let next = w.step(step);
    match step {
        Step::Fire(i) => {
            lemma_without(w, i);
            let alarm = w.alarms[i];
            if alarm.wakeup is Resume && alarm.epoch == base {
                // The pause ends: through its own alarm, or through another
                // resume that carries its epoch and falls due with it.
                assert(i != k ==> onlooker(alarm, since, base));
                assert(w.now == since + pause_delay());
                let k2 = w.alarms.len() - 1;
                assert(next.alarms == w.without(i).alarms.push(
                    Alarm {
                        due: w.now + interval(),
                        wakeup: Wakeup::Blink,
                        epoch: base + 1,
                    },
                ));
                assert forall|j: int| 0 <= j < next.alarms.len() implies {
                    &&& 1 <= (#[trigger] next.alarms[j]).epoch
                    &&& next.now <= next.alarms[j].due <= next.now + next.alarms[j].wakeup.delay()
                    &&& (j != k2 ==> bystander(
                        next.alarms[j],
                        since + pause_delay(),
                        true,
                        base + 1,
                    ))
                } by {
                    if j != k2 {
                        let src = before_removal(i, j);
                        assert(next.alarms[j] == w.alarms[src]);
                        assert(src != k ==> onlooker(w.alarms[src], since, base));
                    }
                }
                (true, k2)
            } else {
                assert(i != k);
                assert(onlooker(alarm, since, base));
                assert(next.cursor == w.cursor);
                assert(next.alarms == w.without(i).alarms);
                let k2 = if k < i { k } else { k - 1 };
                assert forall|j: int| 0 <= j < next.alarms.len() implies {
                    &&& 1 <= (#[trigger] next.alarms[j]).epoch
                    &&& next.now <= next.alarms[j].due <= next.now + next.alarms[j].wakeup.delay()
                    &&& (j != k2 ==> onlooker(next.alarms[j], since, base))
                } by {
                    assert(next.alarms[j] == w.alarms[before_removal(i, j)]);
                }
                (false, k2)
            }
        },
        Step::Elapse(ms) => {
            assert forall|j: int| 0 <= j < next.alarms.len() implies {
                &&& 1 <= (#[trigger] next.alarms[j]).epoch
                &&& next.now <= next.alarms[j].due <= next.now + next.alarms[j].wakeup.delay()
                &&& (j != k ==> onlooker(next.alarms[j], since, base))
            } by {
                assert(next.alarms[j] == w.alarms[j]);
            }
            (false, k)
        },
        _ => (false, k),
    }
}

pub(crate) proof fn lemma_resting_step(
    w: World,
    since: nat,
    base: nat,
    painted: nat,
    step: Step,
)
    requires
        resting(w, since, base, painted),
        step.by_host(),
        w.allows(step),
    ensures
        resting(w.step(step), since, base, painted),
{
    if exists|k: int| #[trigger] pausing(w, k, since, base, painted) {
        let k = choose|k: int| #[trigger] pausing(w, k, since, base, painted);
        let then = lemma_pausing_step(w, k, since, base, painted, step);
        if then.0 {
            assert(resumed(w.step(step), then.1, since, base, painted));
        } else {
            assert(pausing(w.step(step), then.1, since, base, painted));
        }
    } else {
        let k = choose|k: int| #[trigger] resumed(w, k, since, base, painted);
        let k2 = lemma_blinking_step(w, k, since + pause_delay(), true, base + 1, painted + 1, step);
        assert(resumed(w.step(step), k2, since, base, painted));
    }
}

/// An undisturbed run takes a pause to its end and on into the blink chain.
pub(crate) proof fn lemma_resting_run(
    w: World,
    since: nat,
    base: nat,
    painted: nat,
    steps: Seq<Step>,
)
    requires
        resting(w, since, base, painted),
        undisturbed(steps),
        w.admits(steps),
    ensures
        resting(w.run(steps), since, base, painted),
    decreases steps.len(),
{
    if steps.len() > 0 {
        lemma_undisturbed_prefix(steps);
        let head = steps.drop_last();
        lemma_resting_run(w, since, base, painted, head);
        lemma_resting_step(w.run(head), since, base, painted, steps.last());
    }
}

/// Blinking was stopped in the world `from`, and nothing has acted since:
/// the alarms still in flight are left over from `from`.
pub(crate) open spec fn stopped(w: World, from: World) -> bool {
    &&& w.valid()
    &&& w.cursor.epoch == 0
    &&& w.cursor.paused == from.cursor.paused
    &&& (from.cursor.visible ==> w.cursor.visible)
    &&& w.repaints == from.repaints + 1
    &&& from.now <= w.now
    &&& w.alarms.len() <= from.alarms.len()
    &&& forall|j: int| 0 <= j < w.alarms.len() ==> from.alarms.contains(#[trigger] w.alarms[j])
}

pub(crate) proof fn lemma_stopped_step(w: World, from: World, step: Step)
    requires
        stopped(w, from),
        step.by_host(),
        w.allows(step),
    ensures
        stopped(w.step(step), from),
{
    let next = w.step(step);
    match step {
        Step::Fire(i) => {
            lemma_without(w, i);
            assert(w.alarms[i].epoch >= 1);
            assert(next.alarms == w.without(i).alarms);
            assert forall|j: int| 0 <= j < next.alarms.len() implies {
                &&& 1 <= (#[trigger] next.alarms[j]).epoch
                &&& next.now <= next.alarms[j].due <= next.now + next.alarms[j].wakeup.delay()
                &&& from.alarms.contains(next.alarms[j])
            } by {
                assert(next.alarms[j] == w.alarms[before_removal(i, j)]);
            }
        },
        Step::Elapse(ms) => {
            assert forall|j: int| 0 <= j < next.alarms.len() implies {
                &&& 1 <= (#[trigger] next.alarms[j]).epoch
                &&& next.now <= next.alarms[j].due <= next.now + next.alarms[j].wakeup.delay()
                &&& from.alarms.contains(next.alarms[j])
            } by {
                assert(next.alarms[j] == w.alarms[j]);
            }
        },
        _ => {},
    }
}

/// An undisturbed run leaves a stopped scheduler stopped.
pub(crate) proof fn lemma_stopped_run(w: World, from: World, steps: Seq<Step>)
    requires
        stopped(w, from),
        undisturbed(steps),
        w.admits(steps),
    ensures
        stopped(w.run(steps), from),
    decreases steps.len(),
{
    if steps.len() > 0 {
        lemma_undisturbed_prefix(steps);
        let head = steps.drop_last();
        lemma_stopped_run(w, from, head);
        lemma_stopped_step(w.run(head), from, steps.last());
    }
}

/// Every step that can happen takes a valid world to a valid world.
pub(crate) proof fn lemma_valid_step(w: World, step: Step)
    requires
        w.valid(),
        w.allows(step),
    ensures
        w.step(step).valid(),
{
    let next = w.step(step);
    match step {
        Step::Fire(i) => {
            lemma_without(w, i);
            assert forall|j: int| 0 <= j < next.alarms.len() implies {
                &&& 1 <= (#[trigger] next.alarms[j]).epoch
                &&& next.now <= next.alarms[j].due <= next.now + next.alarms[j].wakeup.delay()
            } by {
                if j < w.alarms.len() - 1 {
                    assert(next.alarms[j] == w.alarms[before_removal(i, j)]);
                }
            }
        },
        Step::Elapse(ms) => {
            assert forall|j: int| 0 <= j < next.alarms.len() implies {
                &&& 1 <= (#[trigger] next.alarms[j]).epoch
                &&& next.now <= next.alarms[j].due <= next.now + next.alarms[j].wakeup.delay()
            } by {
                assert(next.alarms[j] == w.alarms[j]);
            }
        },
        _ => {
            assert forall|j: int| 0 <= j < next.alarms.len() implies {
                &&& 1 <= (#[trigger] next.alarms[j]).epoch
                &&& next.now <= next.alarms[j].due <= next.now + next.alarms[j].wakeup.delay()
            } by {
                if j < w.alarms.len() {
                    assert(next.alarms[j] == w.alarms[j]);
                }
            }
        },
    }
}

/// Every run that can happen takes a valid world to a valid world.
pub(crate) proof fn lemma_valid_run(w: World, steps: Seq<Step>)
    requires
        w.valid(),
        w.admits(steps),
    ensures
        w.run(steps).valid(),
    decreases steps.len(),
{
    if steps.len() > 0 {
        lemma_valid_run(w, steps.drop_last());
        lemma_valid_step(w.run(steps.drop_last()), steps.last());
    }
}

/// Every step but a stop keeps the epochs in order and the chain single.
pub(crate) proof fn lemma_chain_step(w: World, step: Step)
    requires
        w.ordered(),
        w.single_chain(),
        w.allows(step),
        !(step is Stop),
    ensures
        w.step(step).ordered(),
        w.step(step).single_chain(),
        w.step(step).cursor.epoch >= w.cursor.epoch,
{
    let next = w.step(step);
    match step {
        Step::Fire(i) => {
            lemma_without(w, i);
            let rest = w.without(i).alarms;
            assert forall|j: int| 0 <= j < next.alarms.len() implies (#[trigger] next.alarms[j]).epoch
                <= next.cursor.epoch by {
                if j < rest.len() {
                    assert(next.alarms[j] == w.alarms[before_removal(i, j)]);
                }
            }
            assert forall|a: int, b: int|
                0 <= a < b < next.alarms.len() && (#[trigger] next.alarms[a]).epoch
                    == next.cursor.epoch implies (#[trigger] next.alarms[b]).epoch
                != next.cursor.epoch by {
                assert(next.alarms[a] == w.alarms[before_removal(i, a)]);
                if b < rest.len() {
                    assert(next.alarms[b] == w.alarms[before_removal(i, b)]);
                }
            }
        },
        Step::Elapse(ms) => {
            assert(next.alarms == w.alarms);
        },
        _ => {
            assert forall|j: int| 0 <= j < next.alarms.len() implies (#[trigger] next.alarms[j]).epoch
                <= next.cursor.epoch by {
                if j < w.alarms.len() {
                    assert(next.alarms[j] == w.alarms[j]);
                }
            }
            assert forall|a: int, b: int|
                0 <= a < b < next.alarms.len() && (#[trigger] next.alarms[a]).epoch
                    == next.cursor.epoch implies (#[trigger] next.alarms[b]).epoch
                != next.cursor.epoch by {
                assert(next.alarms[a] == w.alarms[a]);
                if b < w.alarms.len() {
                    assert(next.alarms[b] == w.alarms[b]);
                }
            }
        },
    }
}

} // verus!
