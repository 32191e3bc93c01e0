//! A frame-counting cooldown timer.
//!
//! The timer counts frames up to a fixed total and then stays there until it
//! is reset. It is used twice by the frame controller: once to delay the
//! restart of a dead board, once to space out complement actions.

use vstd::prelude::*;

verus! {

/// The mathematical state of a cooldown timer.
pub struct TimerModel {
    /// Length of the cooldown, in frames.
    pub total: nat,
    /// Frames counted since the last reset.
    pub current: nat,
}

impl TimerModel {
    /// The count has not run past the cooldown's length.
    pub open spec fn wf(self) -> bool {
        self.current <= self.total
    }

    /// The cooldown has run out.
    pub open spec fn finished(self) -> bool {
        self.current == self.total
    }

    /// The timer with its count back at zero.
    pub open spec fn reset(self) -> TimerModel {
        TimerModel { total: self.total, current: 0 }
    }

    /// The timer after one more frame has been counted. The count stops at
    /// the cooldown's length.
    pub open spec fn counted(self) -> TimerModel {
        TimerModel {
            total: self.total,
            current: if self.current < self.total {
                self.current + 1
            } else {
                self.total
            },
        }
    }

    /// Whether counting one more frame makes the cooldown run out, which is
    /// what a tick reports.
    pub open spec fn fires(self) -> bool {
        self.counted().finished()
    }

    /// The timer after one tick: a frame is counted, and a timer that has
    /// thereby run out starts over when `auto_reset` is set.
    pub open spec fn tick(self, auto_reset: bool) -> TimerModel {
        if self.fires() && auto_reset {
            self.counted().reset()
        } else {
            self.counted()
        }
    }

    /// The timer after `n` ticks, each with the same `auto_reset`.
    pub open spec fn ticks(self, n: nat, auto_reset: bool) -> TimerModel
        decreases n,
    {
        if n == 0 {
            self
        } else {
            self.ticks((n - 1) as nat, auto_reset).tick(auto_reset)
        }
    }
}

/// Counts frames up to a fixed total.
pub struct ResetTimer {
    total: u32,
    current: u32,
}

impl View for ResetTimer {
    type V = TimerModel;

    closed spec fn view(&self) -> TimerModel {
        TimerModel { total: self.total as nat, current: self.current as nat }
    }
}

impl ResetTimer {
    /// Every timer that exists has a count within its cooldown.
    #[verifier::type_invariant]
    pub closed spec fn inv(self) -> bool {
        self.current <= self.total
    }

    /// A timer over `frames` frames of which `start` have already gone by.
    /// With `start` equal to `frames` the timer begins finished.
    pub fn new(frames: u32, start: u32) -> (timer: ResetTimer)
        requires
            start <= frames,
        ensures
            timer@ == (TimerModel { total: frames as nat, current: start as nat }),
            timer@.wf(),
    {
        ResetTimer { total: frames, current: start }
    }

    /// Puts the count back to zero, the state furthest from finished. Only
    /// a timer whose cooldown has no length is finished after a reset.
    pub fn reset(&mut self)
        ensures
            final(self)@ == old(self)@.reset(),
            final(self)@.wf(),
            final(self)@.finished() <==> old(self)@.total == 0,
    {
        self.current = 0;
    }

    /// Counts one frame and reports whether the cooldown has now run out.
    /// With `reset_if_finished` a timer that has run out starts over at once.
    pub fn tick(&mut self, reset_if_finished: bool) -> (is_done: bool)
        ensures
            final(self)@ == old(self)@.tick(reset_if_finished),
            is_done == old(self)@.fires(),
            final(self)@.wf(),
    {
        if self.current < self.total {
            self.current = self.current + 1;
        } else {
            self.current = self.total;
        }
        let is_done = self.current == self.total;
        if is_done && reset_if_finished {
            self.reset();
        }
        is_done
    }

    /// Whether the cooldown has run out.
    pub fn finished(&self) -> (done: bool)
        ensures
            done == self@.finished(),
    {
        self.current == self.total
    }

    /// The cooldown's length in frames.
    pub fn total(&self) -> (frames: u32)
        ensures
            frames == self@.total,
            self@.wf(),
    {
        proof {
            use_type_invariant(self);
        }
        self.total
    }

    /// The frames counted since the last reset.
    pub fn current(&self) -> (frames: u32)
        ensures
            frames == self@.current,
            self@.wf(),
    {
        proof {
            use_type_invariant(self);
        }
        self.current
    }
}

/// Counting from zero without automatic reset, the count after `n` ticks is
/// `n`, until it reaches the cooldown's length and stays there.
pub proof fn lemma_count_after_ticks(timer: TimerModel, n: nat)
    requires
        timer.current == 0,
    ensures
        timer.ticks(n, false) == (TimerModel {
            total: timer.total,
            current: if n < timer.total {
                n
            } else {
                timer.total
            },
        }),
    decreases n,
{
    if n > 0 {
        lemma_count_after_ticks(timer, (n - 1) as nat);
    }
}

/// Counting from zero without automatic reset, the tick that follows `k`
/// earlier ones, for `k` below the cooldown's length, reports that the timer
/// has run out exactly if it is the last of them: tick number `total` does,
/// and none before it.
pub proof fn lemma_fires_on_last_tick(timer: TimerModel, k: nat)
    requires
        timer.current == 0,
        k < timer.total,
    ensures
        timer.ticks(k, false).fires() <==> k + 1 == timer.total,
{
    lemma_count_after_ticks(timer, k);
}

/// However many ticks a timer gets, with or without automatic reset, its
/// count never passes the cooldown's length, and that length never changes.
pub proof fn lemma_count_never_exceeds_total(timer: TimerModel, n: nat, auto_reset: bool)
    requires
        timer.wf(),
    ensures
        timer.ticks(n, auto_reset).wf(),
        timer.ticks(n, auto_reset).total == timer.total,
    decreases n,
{
    if n > 0 {
        lemma_count_never_exceeds_total(timer, (n - 1) as nat, auto_reset);
    }
}

/// A timer that has run out and is not reset stays as it is, tick after
/// tick, and every one of those ticks reports that it has run out.
pub proof fn lemma_stays_finished(timer: TimerModel, n: nat)
    requires
        timer.finished(),
    ensures
        timer.ticks(n, false) == timer,
        timer.ticks(n, false).fires(),
    decreases n,
{
    if n > 0 {
        lemma_stays_finished(timer, (n - 1) as nat);
    }
}

/// A reset puts the count at zero whatever it was, and leaves the timer
/// unfinished unless its cooldown has no length at all.
pub proof fn lemma_reset_restarts(timer: TimerModel)
    ensures
        timer.reset().current == 0,
        timer.reset().total == timer.total,
        timer.reset().wf(),
        timer.reset().finished() <==> timer.total == 0,
{
}

/// With automatic reset a timer that starts at zero runs in rounds: within
/// a round only the last tick reports that the cooldown has run out, and
/// after it the timer is at zero again.
pub proof fn lemma_auto_reset_round(timer: TimerModel, k: nat)
    requires
        timer.current == 0,
        k < timer.total,
    ensures
        timer.ticks(k, true).current == k,
        timer.ticks(k, true).total == timer.total,
        timer.ticks(k, true).fires() <==> k + 1 == timer.total,
        k + 1 == timer.total ==> timer.ticks(k + 1, true) == timer,
    decreases k,
{
    if k > 0 {
        lemma_auto_reset_round(timer, (k - 1) as nat);
    }
}

} // verus!
