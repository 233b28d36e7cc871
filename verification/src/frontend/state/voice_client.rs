//! Commands the pages send to the voice client, the results that come back,
//! and how a command's outcome becomes its result message.
use crate::frontend::application::{
    actions_view,
    host_part,
    server_host,
    AppAction,
    AppActionView,
    Message,
    MessageView,
};
use vstd::prelude::*;

verus! {

#[derive(Debug, Clone)]
pub enum VoiceCommand {
    Connect { management_addr: String, voice_addr: String, username: String },
    JoinVoiceChannel,
    LeaveVoiceChannel,
    SendChatMessage(String),
    Ping,
    GetVoiceStats,
}

#[derive(Debug)]
pub enum VoiceCommandResult {
    /// `Ok((user_id, address, username))`
    Connect(Result<(u64, String, String), String>),
    JoinVoiceChannel(Result<(), String>),
    LeaveVoiceChannel(Result<(), String>),
    SendChatMessage(Result<(), String>),
    /// Round-trip time in milliseconds.
    Ping(Result<u64, String>),
    /// `(bytes_sent, bytes_received)`
    VoiceStats(u64, u64),
}

pub enum VoiceCommandView {
    Connect { management_addr: Seq<char>, voice_addr: Seq<char>, username: Seq<char> },
    JoinVoiceChannel,
    LeaveVoiceChannel,
    SendChatMessage(Seq<char>),
    Ping,
    GetVoiceStats,
}

pub enum VoiceCommandResultView {
    Connect(Result<(u64, Seq<char>, Seq<char>), Seq<char>>),
    JoinVoiceChannel(Result<(), Seq<char>>),
    LeaveVoiceChannel(Result<(), Seq<char>>),
    SendChatMessage(Result<(), Seq<char>>),
    Ping(Result<u64, Seq<char>>),
    VoiceStats(u64, u64),
}

/// The text of an outcome that carries nothing on success.
pub open spec fn unit_result_view(r: Result<(), String>) -> Result<(), Seq<char>> {
    match r {
        Ok(()) => Ok(()),
        Err(e) => Err(e@),
    }
}

impl View for VoiceCommand {
    type V = VoiceCommandView;

    open spec fn view(&self) -> VoiceCommandView {
        match self {
            VoiceCommand::Connect { management_addr, voice_addr, username } =>
                VoiceCommandView::Connect {
                management_addr: management_addr@,
                voice_addr: voice_addr@,
                username: username@,
            },
            VoiceCommand::JoinVoiceChannel => VoiceCommandView::JoinVoiceChannel,
            VoiceCommand::LeaveVoiceChannel => VoiceCommandView::LeaveVoiceChannel,
            VoiceCommand::SendChatMessage(m) => VoiceCommandView::SendChatMessage(m@),
            VoiceCommand::Ping => VoiceCommandView::Ping,
            VoiceCommand::GetVoiceStats => VoiceCommandView::GetVoiceStats,
        }
    }
}

impl View for VoiceCommandResult {
    type V = VoiceCommandResultView;

    open spec fn view(&self) -> VoiceCommandResultView {
        match self {
            VoiceCommandResult::Connect(r) => VoiceCommandResultView::Connect(
                match r {
                    Ok((id, a, u)) => Ok((*id, a@, u@)),
                    Err(e) => Err(e@),
                },
            ),
            VoiceCommandResult::JoinVoiceChannel(r) => VoiceCommandResultView::JoinVoiceChannel(
                unit_result_view(*r),
            ),
            VoiceCommandResult::LeaveVoiceChannel(r) => VoiceCommandResultView::LeaveVoiceChannel(
                unit_result_view(*r),
            ),
            VoiceCommandResult::SendChatMessage(r) => VoiceCommandResultView::SendChatMessage(
                unit_result_view(*r),
            ),
            VoiceCommandResult::Ping(r) => VoiceCommandResultView::Ping(
                match r {
                    Ok(t) => Ok(*t),
                    Err(e) => Err(e@),
                },
            ),
            VoiceCommandResult::VoiceStats(s, r) => VoiceCommandResultView::VoiceStats(*s, *r),
        }
    }
}

impl VoiceCommand {
    /// A copy of the command.
    pub fn duplicate(&self) -> (c: Self)
        ensures
            c == *self,
    {
        match self {
            VoiceCommand::Connect { management_addr, voice_addr, username } => VoiceCommand::Connect {
                management_addr: management_addr.clone(),
                voice_addr: voice_addr.clone(),
                username: username.clone(),
            },
            VoiceCommand::JoinVoiceChannel => VoiceCommand::JoinVoiceChannel,
            VoiceCommand::LeaveVoiceChannel => VoiceCommand::LeaveVoiceChannel,
            VoiceCommand::SendChatMessage(m) => VoiceCommand::SendChatMessage(m.clone()),
            VoiceCommand::Ping => VoiceCommand::Ping,
            VoiceCommand::GetVoiceStats => VoiceCommand::GetVoiceStats,
        }
    }
}

/// The result of a connect command: on success the user id the server gave,
/// the server's host (the management address up to its first ':') and the
/// name used; on failure the error's text.
pub fn connect_result(outcome: Result<u64, String>, management_addr: &str, username: &str) -> (r:
    VoiceCommandResult)
    ensures
        match outcome {
            Ok(user_id) => r matches VoiceCommandResult::Connect(Ok((id, host, name))) && id
                == user_id && host@ == host_part(management_addr@) && name@ == username@,
            Err(e) => r matches VoiceCommandResult::Connect(Err(m)) && m@ == e@,
        },
{
    match outcome {
        Ok(user_id) => {
            let host = server_host(management_addr);
            VoiceCommandResult::Connect(Ok((user_id, host, username.to_owned())))
        },
        Err(e) => VoiceCommandResult::Connect(Err(e)),
    }
}

/// How the voice-client handler reacts to a message: commands are run on
/// the client, and the mute switch is reported to the server.
pub open spec fn voice_client_step(m: MessageView) -> Seq<AppActionView> {
    match m {
        MessageView::ExecuteVoiceCommand(c) => seq![AppActionView::RunVoiceCommand(c)],
        MessageView::MuteInput(muted) => seq![AppActionView::SendMuteState(muted)],
        _ => Seq::empty(),
    }
}

/// The handler that passes commands to the voice client.
pub struct VoiceClientState;

impl VoiceClientState {
    pub fn new() -> (s: Self) {
        VoiceClientState
    }

    /// The handler's reaction to a message (see `voice_client_step`).
    pub fn update(&self, message: &Message) -> (actions: Vec<AppAction>)
        ensures
            actions_view(actions@) == voice_client_step(message@),
    {
        let mut actions: Vec<AppAction> = Vec::new();
        match message {
            Message::ExecuteVoiceCommand(command) => {
                actions.push(AppAction::RunVoiceCommand(command.duplicate()));
            },
            Message::MuteInput(muted) => {
                actions.push(AppAction::SendMuteState(*muted));
            },
            _ => {},
        }
        assert(actions_view(actions@) =~= voice_client_step(message@));
        actions
    }
}

} // verus!
