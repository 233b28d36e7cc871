//! Handlers of application-wide state: audio streams, configuration and
//! the voice client.
pub mod audio_manager;
pub mod voice_client;
