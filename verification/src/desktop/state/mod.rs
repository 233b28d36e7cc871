//! State handlers of the desktop front end.
pub mod config;
