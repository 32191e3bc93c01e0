//! Conway's Game of Life on a 5x5 display, frame by frame.
//!
//! The library holds everything that is decided or computed while the
//! display runs, and nothing that touches hardware:
//!
//! - [`button`] turns three samples of a pin into "pressed" or not;
//! - [`timer`] counts frames up to a cooldown;
//! - [`state`] is the board, filled from a random draw or inverted;
//! - [`life`] computes the next generation and tells a dead board;
//! - [`frame`] decides, once per frame, what happens to the board and to
//!   the two timers;
//! - [`timing`] says what that means over many frames;
//! - [`config`] names the sizes and durations.
//!
//! A program around it samples the buttons, draws the random numbers and
//! shows the board. Each frame it calls [`frame::FrameController::frame`]
//! with the state of the two buttons, and, when the answer is
//! [`frame::FrameAction::Randomize`], draws one number and hands it to
//! [`frame::FrameController::randomize`].

pub mod button;
pub mod config;
pub mod frame;
pub mod life;
pub mod state;
pub mod timer;
pub mod timing;
