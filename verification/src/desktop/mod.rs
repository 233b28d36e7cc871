//! Pieces of the desktop front end that hold logic: its views and the
//! configuration handler that tracks unsaved changes.
pub mod application;
pub mod state;
