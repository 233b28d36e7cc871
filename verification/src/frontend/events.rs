//! Events the voice client reports from the server, as the pages consume them.
use vstd::prelude::*;

verus! {

/// A participant of the server as the client knows it.
#[derive(Debug, Clone)]
pub struct ParticipantInfo {
    pub user_id: u64,
    pub username: String,
    pub in_voice: bool,
}

/// The value of a `ParticipantInfo`: its name as characters.
pub struct ParticipantView {
    pub user_id: u64,
    pub username: Seq<char>,
    pub in_voice: bool,
}

impl View for ParticipantInfo {
    type V = ParticipantView;

    open spec fn view(&self) -> ParticipantView {
        ParticipantView { user_id: self.user_id, username: self.username@, in_voice: self.in_voice }
    }
}

/// Server events delivered by the voice client.
#[derive(Debug, Clone)]
pub enum ClientEvent {
    ParticipantsList { user_id: u64, participants: Vec<ParticipantInfo> },
    UserJoinedServer { user_id: u64, username: String },
    UserJoinedVoice { user_id: u64 },
    UserLeftVoice { user_id: u64 },
    UserLeftServer { user_id: u64 },
    UserSentMessage { user_id: u64, timestamp: u64, message: String },
}

/// The value of a `ClientEvent`: strings as characters, lists as sequences.
pub enum ClientEventView {
    ParticipantsList { user_id: u64, participants: Seq<ParticipantView> },
    UserJoinedServer { user_id: u64, username: Seq<char> },
    UserJoinedVoice { user_id: u64 },
    UserLeftVoice { user_id: u64 },
    UserLeftServer { user_id: u64 },
    UserSentMessage { user_id: u64, timestamp: u64, message: Seq<char> },
}

impl View for ClientEvent {
    type V = ClientEventView;

    open spec fn view(&self) -> ClientEventView {
        match self {
            ClientEvent::ParticipantsList { user_id, participants } => ClientEventView::ParticipantsList {
                user_id: *user_id,
                participants: participants@.map_values(|p: ParticipantInfo| p@),
            },
            ClientEvent::UserJoinedServer { user_id, username } => ClientEventView::UserJoinedServer {
                user_id: *user_id,
                username: username@,
            },
            ClientEvent::UserJoinedVoice { user_id } => ClientEventView::UserJoinedVoice {
                user_id: *user_id,
            },
            ClientEvent::UserLeftVoice { user_id } => ClientEventView::UserLeftVoice {
                user_id: *user_id,
            },
            ClientEvent::UserLeftServer { user_id } => ClientEventView::UserLeftServer {
                user_id: *user_id,
            },
            ClientEvent::UserSentMessage { user_id, timestamp, message } =>
                ClientEventView::UserSentMessage {
                user_id: *user_id,
                timestamp: *timestamp,
                message: message@,
            },
        }
    }
}

} // verus!
