//! Cursor-based reading and buffer-based writing of protocol fields.
pub mod lemmas;
pub mod reader;
pub mod writer;
