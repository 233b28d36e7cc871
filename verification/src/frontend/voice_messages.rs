//! Commands the login flow sends to the voice client, and their results.
use vstd::prelude::*;

verus! {

#[derive(Debug, Clone)]
pub enum VoiceCommand {
    Connect { management_addr: String, voice_addr: String, username: String },
    JoinVoiceChannel,
    LeaveVoiceChannel,
}

#[derive(Debug)]
pub enum VoiceCommandResult {
    Connect(Result<(), String>),
    JoinVoiceChannel(Result<(), String>),
    LeaveVoiceChannel(Result<(), String>),
}

} // verus!
