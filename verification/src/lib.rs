//! Interactive selection of a preset value for an environment variable.
//!
//! The crate holds the verified core of a terminal picker: the configuration
//! of variables and their preset values, the localized messages, the
//! two-phase selection state machine with its key handling, the projection
//! of that state into a list to draw, and the shell command that assigns the
//! chosen value.

pub mod app;
pub mod config;
pub mod i18n;
pub mod layout;
pub mod output;
pub mod table;
pub mod text;
pub mod tui;
