//! Client-side application state: the configuration, the messages that
//! drive the application, and the state machines behind its pages and
//! handlers.  Each handler takes its state and a message to a new state and
//! a list of actions, which the front end performs (audio, network, disk,
//! drawing) and whose outcomes come back as messages.
pub mod application;
pub mod audio;
pub mod config;
pub mod events;
pub mod icons;
pub mod notification;
pub mod pages;
pub mod state;
pub mod voice_messages;
pub mod widgets;
