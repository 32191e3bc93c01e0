//! The frame controller: what happens to the board and to the two cooldown
//! timers in one frame, given the state of the two buttons.

use vstd::prelude::*;
use crate::config::{COMPLEMENT_RESET_FRAMES, DEATH_RESET_FRAMES};
use crate::life::{done, is_next_generation, is_terminal, life};
use crate::state::{
    complement_state,
    is_binary,
    is_complement_of,
    is_drawn_from,
    lemma_complement_inverts,
    randomize_state,
    LEDState,
};
use crate::timer::{ResetTimer, TimerModel};

verus! {

/// What a frame does to the board. Exactly one of these happens per frame.
#[derive(Clone, Copy, Debug, PartialEq, Eq, Structural)]
pub enum FrameAction {
    /// The board is to be replaced by a random one. The controller leaves
    /// the board as it is and waits for the draw: see
    /// [`FrameController::randomize`].
    Randomize,
    /// Every cell was inverted.
    Complement,
    /// The board stays as it is.
    Hold,
    /// The board moved on by one generation.
    Step,
}

/// Button B asks for a complement, button A does not overrule it, and the
/// complement timer `cooldown` allows it.
pub open spec fn complement_due(cooldown: TimerModel, button_a: bool, button_b: bool) -> bool {
    !button_a && button_b && cooldown.finished()
}

/// The complement timer after a frame. It is reset by a complement action
/// and by nothing else, and it counts every frame.
pub open spec fn cooldown_step(cooldown: TimerModel, button_a: bool, button_b: bool) -> TimerModel {
    if complement_due(cooldown, button_a, button_b) {
        cooldown.reset().tick(false)
    } else {
        cooldown.tick(false)
    }
}

/// The dead-board timer after a frame. It counts the quiet frames, those
/// in which no button is pressed and the board is dead, and starts over
/// when it runs out; any other frame resets it.
pub open spec fn dead_step(dead: TimerModel, quiet: bool) -> TimerModel {
    if quiet {
        dead.tick(true)
    } else {
        dead.reset()
    }
}

/// The mathematical state of the controller.
pub struct FrameModel {
    /// The board on display.
    pub board: LEDState,
    /// Delays the restart of a dead board.
    pub dead: TimerModel,
    /// Spaces out complement actions.
    pub cooldown: TimerModel,
}

impl FrameModel {
    /// Both timers have counts within their cooldowns.
    pub open spec fn wf(self) -> bool {
        self.dead.wf() && self.cooldown.wf()
    }

    /// The frame is a quiet one: no button is pressed and the board is dead.
    pub open spec fn quiet(self, button_a: bool, button_b: bool) -> bool {
        !button_a && !button_b && is_terminal(self.board)
    }

    /// What a frame does to the board. The first case that applies wins:
    /// button A; button B; a dead board; otherwise a live one.
    pub open spec fn action(self, button_a: bool, button_b: bool) -> FrameAction {
        if button_a {
            FrameAction::Randomize
        } else if button_b {
            if self.cooldown.finished() {
                FrameAction::Complement
            } else {
                FrameAction::Hold
            }
        } else if is_terminal(self.board) {
            if self.dead.fires() {
                FrameAction::Randomize
            } else {
                FrameAction::Hold
            }
        } else {
            FrameAction::Step
        }
    }

    /// The dead-board timer after a frame.
    pub open spec fn dead_after(self, button_a: bool, button_b: bool) -> TimerModel {
        dead_step(self.dead, self.quiet(button_a, button_b))
    }

    /// The complement timer after a frame.
    pub open spec fn cooldown_after(self, button_a: bool, button_b: bool) -> TimerModel {
        cooldown_step(self.cooldown, button_a, button_b)
    }

    /// `after` is the board that `action` leaves behind.
    pub open spec fn board_after(self, action: FrameAction, after: LEDState) -> bool {
        match action {
            FrameAction::Randomize => after == self.board,
            FrameAction::Complement => is_complement_of(after, self.board),
            FrameAction::Hold => after == self.board,
            FrameAction::Step => is_next_generation(after, self.board),
        }
    }
}

/// Owns the board and both timers for as long as the display runs.
pub struct FrameController {
    state: LEDState,
    reset_timer: ResetTimer,
    complement_timer: ResetTimer,
}

impl View for FrameController {
    type V = FrameModel;

    closed spec fn view(&self) -> FrameModel {
        FrameModel {
            board: self.state,
            dead: self.reset_timer@,
            cooldown: self.complement_timer@,
        }
    }
}

impl FrameController {
    /// The controller as it is at startup: a board filled from
    /// `random_number`, a dead-board timer that has not run out, and a
    /// complement timer that has, so that the first press of button B is
    /// honoured at once.
    pub fn new(random_number: u32) -> (controller: FrameController)
        ensures
            is_drawn_from(controller@.board, random_number),
            is_binary(controller@.board),
            controller@.dead == (TimerModel { total: DEATH_RESET_FRAMES as nat, current: 0 }),
            controller@.cooldown == (TimerModel {
                total: COMPLEMENT_RESET_FRAMES as nat,
                current: COMPLEMENT_RESET_FRAMES as nat,
            }),
    {
        let mut state: LEDState = [[0; 5]; 5];
        randomize_state(random_number, &mut state);
        FrameController {
            state,
            reset_timer: ResetTimer::new(DEATH_RESET_FRAMES, 0),
            complement_timer: ResetTimer::new(COMPLEMENT_RESET_FRAMES, COMPLEMENT_RESET_FRAMES),
        }
    }

    /// A controller in a given state.
    pub fn from_parts(
        state: LEDState,
        reset_timer: ResetTimer,
        complement_timer: ResetTimer,
    ) -> (controller: FrameController)
        ensures
            controller@ == (FrameModel {
                board: state,
                dead: reset_timer@,
                cooldown: complement_timer@,
            }),
    {
        FrameController { state, reset_timer, complement_timer }
    }

    /// The board to put on the display.
    pub fn state(&self) -> (board: LEDState)
        ensures
            board == self@.board,
    {
        self.state
    }

    /// The timer that delays the restart of a dead board.
    pub fn reset_timer(&self) -> (timer: &ResetTimer)
        ensures
            timer@ == self@.dead,
    {
        &self.reset_timer
    }

    /// The timer that spaces out complement actions.
    pub fn complement_timer(&self) -> (timer: &ResetTimer)
        ensures
            timer@ == self@.cooldown,
    {
        &self.complement_timer
    }

    /// Runs one frame, given whether each button is pressed.
    ///
    /// Button A asks for a random board. Otherwise button B inverts the
    /// board, unless the last inversion is less than a cooldown ago, in which
    /// case nothing happens. Otherwise a dead board waits for its timer and
    /// then asks for a random board, and a live board moves on by one
    /// generation. The complement timer counts every frame.
    ///
    /// When the result is [`FrameAction::Randomize`] the frame is completed
    /// by a call of [`FrameController::randomize`] with a fresh draw.
    pub fn frame(&mut self, button_a: bool, button_b: bool) -> (action: FrameAction)
        ensures
            action == old(self)@.action(button_a, button_b),
            final(self)@.dead == old(self)@.dead_after(button_a, button_b),
            final(self)@.cooldown == old(self)@.cooldown_after(button_a, button_b),
            old(self)@.board_after(action, final(self)@.board),
            final(self)@.wf(),
            is_binary(old(self)@.board) ==> is_binary(final(self)@.board),
    {
        let action: FrameAction;
        if button_a {
            self.reset_timer.reset();
            action = FrameAction::Randomize;
        } else if button_b {
            self.reset_timer.reset();
            if self.complement_timer.finished() {
                complement_state(&mut self.state);
                proof {
                    if is_binary(old(self).state) {
                        lemma_complement_inverts(self.state, old(self).state);
                    }
                }
                self.complement_timer.reset();
                action = FrameAction::Complement;
            } else {
                action = FrameAction::Hold;
            }
        } else if done(&self.state) {
            if self.reset_timer.tick(true) {
                action = FrameAction::Randomize;
            } else {
                action = FrameAction::Hold;
            }
        } else {
            self.reset_timer.reset();
            life(&mut self.state);
            action = FrameAction::Step;
        }
        self.complement_timer.tick(false);
        action
    }

    /// Replaces the board by the one that `random_number` describes. The
    /// timers are left alone.
    pub fn randomize(&mut self, random_number: u32)
        ensures
            is_drawn_from(final(self)@.board, random_number),
            is_binary(final(self)@.board),
            final(self)@.dead == old(self)@.dead,
            final(self)@.cooldown == old(self)@.cooldown,
    {
        randomize_state(random_number, &mut self.state);
    }
}

/// Button A goes before everything else. Whatever button B, the board and
/// the timers are like, a frame with button A pressed asks for a random
/// board, puts the dead-board timer back to zero without counting, and
/// lets the complement timer count without resetting it.
pub proof fn lemma_button_a_goes_first(model: FrameModel, button_b: bool)
    ensures
        model.action(true, button_b) == FrameAction::Randomize,
        model.dead_after(true, button_b) == model.dead.reset(),
        model.cooldown_after(true, button_b) == model.cooldown.tick(false),
{
}

/// The board is complemented exactly in the frames in which a complement
/// is due, and a random board is asked for exactly when button A is
/// pressed or a quiet frame makes the dead-board timer run out.
pub proof fn lemma_action_by_cause(model: FrameModel, button_a: bool, button_b: bool)
    ensures
        model.action(button_a, button_b) == FrameAction::Complement <==> complement_due(
            model.cooldown,
            button_a,
            button_b,
        ),
        model.action(button_a, button_b) == FrameAction::Randomize <==> button_a || (model.quiet(
            button_a,
            button_b,
        ) && model.dead.fires()),
        model.action(button_a, button_b) == FrameAction::Step <==> !button_a && !button_b
            && !is_terminal(model.board),
{
}

/// While the complement timer has not run out, button B alone changes
/// nothing on the board, and it still keeps a dead board from restarting
/// and a live one from moving on.
pub proof fn lemma_button_b_waits_for_cooldown(model: FrameModel, after: LEDState)
    requires
        !model.cooldown.finished(),
        model.board_after(model.action(false, true), after),
    ensures
        model.action(false, true) == FrameAction::Hold,
        after == model.board,
        model.dead_after(false, true) == model.dead.reset(),
        model.cooldown_after(false, true) == model.cooldown.tick(false),
{
}

} // verus!
