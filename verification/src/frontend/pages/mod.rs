//! The pages of the application and their handling of messages.
pub mod login;
pub mod room;
pub mod settings;
