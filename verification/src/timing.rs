//! What the two timers guarantee over a run of frames: complement actions
//! keep their distance, and a dead board is given its full wait.

use vstd::prelude::*;
use crate::frame::{complement_due, cooldown_step, dead_step};
use crate::timer::TimerModel;

verus! {

/// The complement timer at the start of frame `k`, counting frames from
/// zero, when it was `cooldown` at the start of frame zero and `presses`
/// gives the state of buttons A and B frame by frame.
pub open spec fn cooldown_at(cooldown: TimerModel, presses: Seq<(bool, bool)>, k: nat) -> TimerModel
    decreases k,
{
    if k == 0 {
        cooldown
    } else {
        cooldown_step(
            cooldown_at(cooldown, presses, (k - 1) as nat),
            presses[k - 1].0,
            presses[k - 1].1,
        )
    }
}

/// Frame `k` of the run complements the board.
pub open spec fn complements_at(cooldown: TimerModel, presses: Seq<(bool, bool)>, k: nat) -> bool {
    complement_due(cooldown_at(cooldown, presses, k), presses[k as int].0, presses[k as int].1)
}

/// The dead-board timer at the start of frame `k`, counting frames from
/// zero, when it was `dead` at the start of frame zero and `quiet` says
/// frame by frame whether no button was pressed and the board was dead.
pub open spec fn dead_at(dead: TimerModel, quiet: Seq<bool>, k: nat) -> TimerModel
    decreases k,
{
    if k == 0 {
        dead
    } else {
        dead_step(dead_at(dead, quiet, (k - 1) as nat), quiet[k - 1])
    }
}

/// Frame `k` of the run is quiet and makes the dead-board timer run out,
/// so that the dead board is replaced.
pub open spec fn restarts_at(dead: TimerModel, quiet: Seq<bool>, k: nat) -> bool {
    quiet[k as int] && dead_at(dead, quiet, k).fires()
}

/// Once frame `i` has complemented the board, the complement timer has
/// counted no more than the frames since.
proof fn lemma_cooldown_counts_since_complement(
    cooldown: TimerModel,
    presses: Seq<(bool, bool)>,
    i: nat,
    k: nat,
)
    requires
        i < k <= presses.len(),
        complements_at(cooldown, presses, i),
    ensures
        cooldown_at(cooldown, presses, k).total == cooldown.total,
        cooldown_at(cooldown, presses, k).current <= k - i,
    decreases k,
{
    lemma_cooldown_keeps_total(cooldown, presses, (k - 1) as nat);
    if k > i + 1 {
        lemma_cooldown_counts_since_complement(cooldown, presses, i, (k - 1) as nat);
    }
}

/// The length of the cooldown is the same in every frame.
proof fn lemma_cooldown_keeps_total(cooldown: TimerModel, presses: Seq<(bool, bool)>, k: nat)
    ensures
        cooldown_at(cooldown, presses, k).total == cooldown.total,
    decreases k,
{
    if k > 0 {
        lemma_cooldown_keeps_total(cooldown, presses, (k - 1) as nat);
    }
}

/// Complement actions keep their distance. Whatever the buttons do, two
/// frames that both complement the board are at least a cooldown apart: with
/// a cooldown of five frames, button B is honoured in at most one frame out
/// of any five in a row.
pub proof fn lemma_complements_are_a_cooldown_apart(
    cooldown: TimerModel,
    presses: Seq<(bool, bool)>,
    i: nat,
    j: nat,
)
    requires
        i < j < presses.len(),
        complements_at(cooldown, presses, i),
        complements_at(cooldown, presses, j),
    ensures
        j - i >= cooldown.total,
{
    lemma_cooldown_counts_since_complement(cooldown, presses, i, j);
}

/// A timer that starts at zero has, at the start of every frame, counted
/// exactly the quiet frames that came directly before, and fewer of them
/// than make up the wait.
proof fn lemma_dead_counts_quiet_frames(dead: TimerModel, quiet: Seq<bool>, k: nat)
    requires
        dead.current == 0,
        dead.total > 0,
        k <= quiet.len(),
    ensures
        dead_at(dead, quiet, k).total == dead.total,
        dead_at(dead, quiet, k).current < dead.total,
        dead_at(dead, quiet, k).current <= k,
        forall|m: int| k - dead_at(dead, quiet, k).current <= m < k ==> quiet[m],
    decreases k,
{
    if k > 0 {
        lemma_dead_counts_quiet_frames(dead, quiet, (k - 1) as nat);
    }
}

/// A dead board is given its full wait. When the dead-board timer starts at
/// zero, a frame in which it runs out is the last of as many quiet frames in
/// a row as the wait is long: a button or a live cell in any of them would
/// have put the wait off.
pub proof fn lemma_restart_ends_a_full_wait(dead: TimerModel, quiet: Seq<bool>, j: nat)
    requires
        dead.current == 0,
        j < quiet.len(),
        restarts_at(dead, quiet, j),
    ensures
        j + 1 >= dead.total,
        forall|m: int| j + 1 - dead.total <= m <= j ==> quiet[m],
{
    if dead.total > 0 {
        lemma_dead_counts_quiet_frames(dead, quiet, j);
    }
}

/// And the wait is no longer than that: when the dead-board timer starts at
/// zero and the first frames of a run are quiet, as many of them as the wait
/// is long, the last of these replaces the board and none before it does.
pub proof fn lemma_full_wait_ends_in_restart(dead: TimerModel, quiet: Seq<bool>, k: nat)
    requires
        dead.current == 0,
        k < dead.total <= quiet.len(),
        forall|m: int| 0 <= m < dead.total ==> quiet[m],
    ensures
        dead_at(dead, quiet, k).current == k,
        dead_at(dead, quiet, k).total == dead.total,
        restarts_at(dead, quiet, k) <==> k + 1 == dead.total,
    decreases k,
{
    if k > 0 {
        lemma_full_wait_ends_in_restart(dead, quiet, (k - 1) as nat);
    }
}

} // verus!
