//! The voice client's own logic: console commands, the choice of an audio
//! stream configuration, the numbering of outgoing voice frames, the
//! reordering of incoming voice packets and their routing to the users they
//! come from.
pub mod audio;
pub mod commands;
pub mod jitter_buffer;
pub mod udp_voice_receiver;
pub mod user_voice_stream;
pub mod voice;
