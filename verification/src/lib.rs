//! Live unix timestamps for a status bar: epoch arithmetic, format
//! rendering, parsing of user input, and the text the bar shows.

pub mod cli;
pub mod clock;
pub mod commands;
pub mod config;
pub mod convert;
pub mod formats;
pub mod history;
pub mod instant;
pub mod menu;
pub mod output;
pub mod picker;
pub mod state;
pub mod text;
pub mod theme;
