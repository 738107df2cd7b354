//! Core of a terminal word-guessing game: word selection under a length
//! constraint, guess tracking, the win/loss state machine, and the pure
//! display formatting, all with verified contracts.

pub mod chars;
pub mod config;
pub mod display;
pub mod game;
pub mod tracker;
pub mod words;

pub use config::parse_range;
pub use display::{character_list_display, handman_display, suffix};
pub use tracker::validate_input;
