//! Verified core of a terminal statusline renderer: the format-string
//! language, ANSI styling, progress bars, durations, peak-hour countdowns,
//! argument parsing and the integer bookkeeping of persisted sessions.

mod text;
pub mod color;
pub mod format;
pub mod duration;
pub mod bar;
pub mod peak;
pub mod args;
pub mod state;
pub mod ansi;
pub mod input;
pub mod rate;
pub mod tokens;
pub mod git;
pub mod settings;
