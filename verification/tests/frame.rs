use mb2_life::frame::{FrameAction, FrameController};
use mb2_life::state::LEDState;
use mb2_life::timer::ResetTimer;

const DEAD: LEDState = [[0; 5]; 5];

const STAIRS: u32 = 1 | 3 << 5 | 7 << 10 | 15 << 15 | 31 << 20;

const STAIRS_BOARD: LEDState = [
    [1, 0, 0, 0, 0],
    [1, 1, 0, 0, 0],
    [1, 1, 1, 0, 0],
    [1, 1, 1, 1, 0],
    [1, 1, 1, 1, 1],
];

const BLINKER: LEDState = [
    [0, 0, 0, 0, 0],
    [0, 0, 0, 0, 0],
    [0, 1, 1, 1, 0],
    [0, 0, 0, 0, 0],
    [0, 0, 0, 0, 0],
];

const BLINKER_TURNED: LEDState = [
    [0, 0, 0, 0, 0],
    [0, 0, 1, 0, 0],
    [0, 0, 1, 0, 0],
    [0, 0, 1, 0, 0],
    [0, 0, 0, 0, 0],
];

const BLINKER_INVERTED: LEDState = [
    [1, 1, 1, 1, 1],
    [1, 1, 1, 1, 1],
    [1, 0, 0, 0, 1],
    [1, 1, 1, 1, 1],
    [1, 1, 1, 1, 1],
];

#[test]
fn a_new_controller_shows_the_drawn_board() {
    let controller = FrameController::new(STAIRS);
    assert_eq!(controller.state(), STAIRS_BOARD);
}

#[test]
fn a_new_controller_has_a_fresh_dead_timer_and_a_spent_complement_timer() {
    let controller = FrameController::new(0);
    assert_eq!(controller.reset_timer().total(), 5);
    assert_eq!(controller.reset_timer().current(), 0);
    assert!(!controller.reset_timer().finished());
    assert_eq!(controller.complement_timer().total(), 5);
    assert_eq!(controller.complement_timer().current(), 5);
    assert!(controller.complement_timer().finished());
}

#[test]
fn the_first_press_of_button_b_is_honoured_at_once() {
    let mut controller = FrameController::new(STAIRS);
    assert_eq!(controller.frame(false, true), FrameAction::Complement);
    assert_eq!(
        controller.state(),
        [
            [0, 1, 1, 1, 1],
            [0, 0, 1, 1, 1],
            [0, 0, 0, 1, 1],
            [0, 0, 0, 0, 1],
            [0, 0, 0, 0, 0],
        ]
    );
}

#[test]
fn from_parts_keeps_its_parts() {
    let controller =
        FrameController::from_parts(BLINKER, ResetTimer::new(7, 3), ResetTimer::new(9, 4));
    assert_eq!(controller.state(), BLINKER);
    assert_eq!(controller.reset_timer().total(), 7);
    assert_eq!(controller.reset_timer().current(), 3);
    assert_eq!(controller.complement_timer().total(), 9);
    assert_eq!(controller.complement_timer().current(), 4);
}

#[test]
fn button_a_wins_over_button_b_and_a_dead_board() {
    let mut controller =
        FrameController::from_parts(DEAD, ResetTimer::new(5, 2), ResetTimer::new(5, 5));
    let action = controller.frame(true, true);
    assert_eq!(action, FrameAction::Randomize);
    // no complement: the board is untouched, the complement timer not reset
    assert_eq!(controller.state(), DEAD);
    assert_eq!(controller.complement_timer().current(), 5);
    // no tick of the dead-board timer: it was reset
    assert_eq!(controller.reset_timer().current(), 0);
    controller.randomize(STAIRS);
    assert_eq!(controller.state(), STAIRS_BOARD);
    assert_eq!(controller.complement_timer().current(), 5);
    assert_eq!(controller.reset_timer().current(), 0);
}

#[test]
fn a_dead_board_one_tick_from_expiry_is_randomized() {
    let mut controller =
        FrameController::from_parts(DEAD, ResetTimer::new(5, 4), ResetTimer::new(5, 0));
    let action = controller.frame(false, false);
    assert_eq!(action, FrameAction::Randomize);
    controller.randomize(STAIRS);
    assert_eq!(controller.state(), STAIRS_BOARD);
    assert_eq!(controller.complement_timer().current(), 1);
    assert_eq!(controller.complement_timer().total(), 5);
    assert!(!controller.complement_timer().finished());
    assert_eq!(controller.reset_timer().current(), 0);
}

#[test]
fn button_a_randomizes_a_live_board() {
    let mut controller =
        FrameController::from_parts(BLINKER, ResetTimer::new(5, 3), ResetTimer::new(5, 2));
    assert_eq!(controller.frame(true, false), FrameAction::Randomize);
    assert_eq!(controller.state(), BLINKER);
    assert_eq!(controller.reset_timer().current(), 0);
    assert_eq!(controller.complement_timer().current(), 3);
}

#[test]
fn holding_button_a_randomizes_every_frame() {
    let mut controller = FrameController::new(0);
    for draw in [STAIRS, 0x0155_5555, 0, u32::MAX] {
        assert_eq!(controller.frame(true, false), FrameAction::Randomize);
        controller.randomize(draw);
    }
    assert_eq!(controller.state(), [[1; 5]; 5]);
    assert_eq!(controller.reset_timer().current(), 0);
}

#[test]
fn button_b_complements_when_the_cooldown_has_run_out() {
    let mut controller =
        FrameController::from_parts(BLINKER, ResetTimer::new(5, 3), ResetTimer::new(5, 5));
    assert_eq!(controller.frame(false, true), FrameAction::Complement);
    assert_eq!(controller.state(), BLINKER_INVERTED);
    assert_eq!(controller.reset_timer().current(), 0);
    assert_eq!(controller.complement_timer().current(), 1);
}

#[test]
fn button_b_is_ignored_during_the_cooldown() {
    let mut controller =
        FrameController::from_parts(BLINKER, ResetTimer::new(5, 3), ResetTimer::new(5, 2));
    assert_eq!(controller.frame(false, true), FrameAction::Hold);
    assert_eq!(controller.state(), BLINKER);
    assert_eq!(controller.reset_timer().current(), 0);
    assert_eq!(controller.complement_timer().current(), 3);
}

#[test]
fn holding_button_b_complements_once_in_five_frames() {
    let mut controller = FrameController::from_parts(
        BLINKER,
        ResetTimer::new(5, 0),
        ResetTimer::new(5, 5),
    );
    for frame in 0..20u32 {
        let action = controller.frame(false, true);
        if frame % 5 == 0 {
            assert_eq!(action, FrameAction::Complement);
        } else {
            assert_eq!(action, FrameAction::Hold);
        }
        let inverted = (frame / 5) % 2 == 0;
        assert_eq!(controller.state(), if inverted { BLINKER_INVERTED } else { BLINKER });
        assert_eq!(controller.complement_timer().current(), frame % 5 + 1);
        assert_eq!(controller.reset_timer().current(), 0);
    }
}

#[test]
fn button_b_keeps_a_dead_board_from_restarting() {
    let mut controller =
        FrameController::from_parts(DEAD, ResetTimer::new(5, 4), ResetTimer::new(5, 1));
    assert_eq!(controller.frame(false, true), FrameAction::Hold);
    assert_eq!(controller.state(), DEAD);
    assert_eq!(controller.reset_timer().current(), 0);
    assert_eq!(controller.complement_timer().current(), 2);
}

#[test]
fn button_b_complements_a_dead_board() {
    let mut controller =
        FrameController::from_parts(DEAD, ResetTimer::new(5, 4), ResetTimer::new(5, 5));
    assert_eq!(controller.frame(false, true), FrameAction::Complement);
    assert_eq!(controller.state(), [[1; 5]; 5]);
    assert_eq!(controller.reset_timer().current(), 0);
    assert_eq!(controller.complement_timer().current(), 1);
}

#[test]
fn a_dead_board_waits_for_its_timer() {
    let mut controller =
        FrameController::from_parts(DEAD, ResetTimer::new(5, 0), ResetTimer::new(5, 5));
    for frame in 1..=4u32 {
        assert_eq!(controller.frame(false, false), FrameAction::Hold);
        assert_eq!(controller.state(), DEAD);
        assert_eq!(controller.reset_timer().current(), frame);
    }
    assert_eq!(controller.frame(false, false), FrameAction::Randomize);
    assert_eq!(controller.reset_timer().current(), 0);
    assert_eq!(controller.complement_timer().current(), 5);
}

#[test]
fn a_board_that_stays_dead_is_randomized_every_fifth_frame() {
    let mut controller =
        FrameController::from_parts(DEAD, ResetTimer::new(5, 0), ResetTimer::new(5, 0));
    for frame in 1..=20u32 {
        let action = controller.frame(false, false);
        if frame % 5 == 0 {
            assert_eq!(action, FrameAction::Randomize);
            controller.randomize(0);
        } else {
            assert_eq!(action, FrameAction::Hold);
        }
        assert_eq!(controller.state(), DEAD);
        assert_eq!(controller.reset_timer().current(), frame % 5);
    }
}

#[test]
fn a_live_board_moves_on_by_one_generation() {
    let mut controller =
        FrameController::from_parts(BLINKER, ResetTimer::new(5, 3), ResetTimer::new(5, 2));
    assert_eq!(controller.frame(false, false), FrameAction::Step);
    assert_eq!(controller.state(), BLINKER_TURNED);
    assert_eq!(controller.reset_timer().current(), 0);
    assert_eq!(controller.complement_timer().current(), 3);
    assert_eq!(controller.frame(false, false), FrameAction::Step);
    assert_eq!(controller.state(), BLINKER);
    assert_eq!(controller.complement_timer().current(), 4);
}

#[test]
fn a_board_that_dies_out_is_replaced_five_frames_later() {
    let mut lonely: LEDState = [[0; 5]; 5];
    lonely[2][2] = 1;
    let mut controller =
        FrameController::from_parts(lonely, ResetTimer::new(5, 0), ResetTimer::new(5, 5));
    assert_eq!(controller.frame(false, false), FrameAction::Step);
    assert_eq!(controller.state(), DEAD);
    for _ in 0..4 {
        assert_eq!(controller.frame(false, false), FrameAction::Hold);
    }
    assert_eq!(controller.frame(false, false), FrameAction::Randomize);
    controller.randomize(STAIRS);
    assert_eq!(controller.state(), STAIRS_BOARD);
    assert_eq!(controller.frame(false, false), FrameAction::Step);
}

#[test]
fn a_button_press_restarts_the_wait_of_a_dead_board() {
    let mut controller =
        FrameController::from_parts(DEAD, ResetTimer::new(5, 0), ResetTimer::new(5, 0));
    for _ in 0..3 {
        assert_eq!(controller.frame(false, false), FrameAction::Hold);
    }
    assert_eq!(controller.reset_timer().current(), 3);
    assert_eq!(controller.frame(false, true), FrameAction::Hold);
    assert_eq!(controller.reset_timer().current(), 0);
    for _ in 0..4 {
        assert_eq!(controller.frame(false, false), FrameAction::Hold);
    }
    assert_eq!(controller.frame(false, false), FrameAction::Randomize);
}

#[test]
fn the_complement_timer_counts_every_frame_and_stops_at_its_total() {
    let mut controller =
        FrameController::from_parts(BLINKER, ResetTimer::new(5, 0), ResetTimer::new(5, 0));
    controller.frame(false, false);
    assert_eq!(controller.complement_timer().current(), 1);
    controller.frame(true, false);
    assert_eq!(controller.complement_timer().current(), 2);
    controller.frame(false, true);
    assert_eq!(controller.complement_timer().current(), 3);
    controller.frame(true, true);
    assert_eq!(controller.complement_timer().current(), 4);
    controller.frame(false, false);
    assert_eq!(controller.complement_timer().current(), 5);
    controller.frame(false, false);
    assert_eq!(controller.complement_timer().current(), 5);
}

#[test]
fn randomize_leaves_the_timers_alone() {
    let mut controller =
        FrameController::from_parts(BLINKER, ResetTimer::new(5, 3), ResetTimer::new(5, 2));
    controller.randomize(STAIRS);
    assert_eq!(controller.state(), STAIRS_BOARD);
    assert_eq!(controller.reset_timer().current(), 3);
    assert_eq!(controller.complement_timer().current(), 2);
}

/// A fixed sequence of numbers that looks irregular.
fn next_number(seed: &mut u32) -> u32 {
    *seed = seed.wrapping_mul(1_664_525).wrapping_add(1_013_904_223);
    *seed >> 8
}

#[test]
fn complements_are_at_least_five_frames_apart() {
    let mut seed: u32 = 2024;
    let mut controller = FrameController::new(STAIRS);
    let mut last_complement: Option<u32> = None;
    let mut complements = 0;
    for frame in 0..2000u32 {
        let number = next_number(&mut seed);
        let button_a = number % 7 == 0;
        let button_b = number % 3 != 0;
        let action = controller.frame(button_a, button_b);
        if action == FrameAction::Randomize {
            controller.randomize(next_number(&mut seed));
        }
        if action == FrameAction::Complement {
            if let Some(earlier) = last_complement {
                assert!(frame - earlier >= 5);
            }
            last_complement = Some(frame);
            complements += 1;
        }
    }
    assert!(complements > 100);
}

#[test]
fn a_dead_board_is_replaced_only_after_five_quiet_frames() {
    let mut seed: u32 = 7;
    let mut controller =
        FrameController::from_parts(DEAD, ResetTimer::new(5, 0), ResetTimer::new(5, 5));
    let mut quiet_in_a_row = 0;
    let mut restarts = 0;
    for _ in 0..5000u32 {
        let number = next_number(&mut seed);
        let button_a = number % 11 == 0;
        let button_b = number % 13 == 0;
        let quiet = !button_a && !button_b && controller.state() == DEAD;
        quiet_in_a_row = if quiet { quiet_in_a_row + 1 } else { 0 };
        let action = controller.frame(button_a, button_b);
        if action == FrameAction::Randomize {
            if !button_a {
                assert_eq!(quiet_in_a_row, 5);
                quiet_in_a_row = 0;
                restarts += 1;
            }
            let draw = next_number(&mut seed);
            controller.randomize(if draw % 2 == 0 { 0 } else { draw });
        } else {
            assert!(quiet_in_a_row < 5);
        }
    }
    assert!(restarts > 20);
}
