//! Protocol packets and their framed wire encoding.
use crate::protocol::error::ProtocolError;
use crate::protocol::io::reader::{rd_bool, rd_string, rd_u16, rd_u32, rd_u64, rd_u8, Reader};
use crate::protocol::io::lemmas::{
    lemma_rd_bool_at,
    lemma_rd_string_at,
    lemma_rd_u16_at,
    lemma_rd_u32_at,
    lemma_rd_u64_at,
    lemma_rd_u8_at,
    suffix,
};
use crate::protocol::io::writer::{bool_byte, string_field, Writer};
use crate::protocol::packet_id::{frame, id_byte, id_of_byte, lemma_id_byte_roundtrip, PacketId};
use crate::wire::{u16_be, u32_be, u64_be, utf8};
use vstd::prelude::*;

verus! {

/// User information.
#[derive(Debug, Clone, PartialEq, Eq)]
#[non_exhaustive]
pub struct ParticipantInfo {
    pub user_id: u64,
    pub username: String,
    pub in_voice: bool,
    pub is_muted: bool,
}

/// The value a `ParticipantInfo` stands for.
pub struct ParticipantView {
    pub user_id: u64,
    pub username: Seq<char>,
    pub in_voice: bool,
    pub is_muted: bool,
}

impl View for ParticipantInfo {
    type V = ParticipantView;

    open spec fn view(&self) -> ParticipantView {
        ParticipantView {
            user_id: self.user_id,
            username: self.username@,
            in_voice: self.in_voice,
            is_muted: self.is_muted,
        }
    }
}

/// Protocol packet types for client-server communication.
#[derive(Debug, Clone, PartialEq, Eq)]
#[non_exhaustive]
pub enum Packet {
    // Requests
    LoginRequest { request_id: u64, username: String },
    VoiceAuthRequest { request_id: u64, voice_token: u64 },
    JoinVoiceChannelRequest { request_id: u64 },
    LeaveVoiceChannelRequest { request_id: u64 },
    ChatMessageRequest { request_id: u64, message: String },
    PingRequest { request_id: u64 },
    // Responses
    LoginResponse {
        request_id: u64,
        id: u64,
        voice_token: u64,
        participants: Vec<ParticipantInfo>,
    },
    VoiceAuthResponse { request_id: u64, success: bool },
    JoinVoiceChannelResponse { request_id: u64, success: bool },
    LeaveVoiceChannelResponse { request_id: u64, success: bool },
    ChatMessageResponse { request_id: u64, success: bool },
    PingResponse { request_id: u64 },
    // Events
    UserJoinedServer { participant: ParticipantInfo },
    UserJoinedVoice { user_id: u64 },
    UserLeftVoice { user_id: u64 },
    UserLeftServer { user_id: u64 },
    UserSentMessage { user_id: u64, timestamp: u64, message: String },
    UserMuteState { user_id: u64, is_muted: bool },
    // UDP
    VoiceData { user_id: u64, sequence: u32, timestamp: u32, data: Vec<u8> },
}

/// The value a `Packet` stands for: strings as their characters, lists as
/// sequences.
pub enum PacketView {
    LoginRequest { request_id: u64, username: Seq<char> },
    VoiceAuthRequest { request_id: u64, voice_token: u64 },
    JoinVoiceChannelRequest { request_id: u64 },
    LeaveVoiceChannelRequest { request_id: u64 },
    ChatMessageRequest { request_id: u64, message: Seq<char> },
    PingRequest { request_id: u64 },
    LoginResponse {
        request_id: u64,
        id: u64,
        voice_token: u64,
        participants: Seq<ParticipantView>,
    },
    VoiceAuthResponse { request_id: u64, success: bool },
    JoinVoiceChannelResponse { request_id: u64, success: bool },
    LeaveVoiceChannelResponse { request_id: u64, success: bool },
    ChatMessageResponse { request_id: u64, success: bool },
    PingResponse { request_id: u64 },
    UserJoinedServer { participant: ParticipantView },
    UserJoinedVoice { user_id: u64 },
    UserLeftVoice { user_id: u64 },
    UserLeftServer { user_id: u64 },
    UserSentMessage { user_id: u64, timestamp: u64, message: Seq<char> },
    UserMuteState { user_id: u64, is_muted: bool },
    VoiceData { user_id: u64, sequence: u32, timestamp: u32, data: Seq<u8> },
}

/// The views of a list of participants.
pub open spec fn participants_view(v: Seq<ParticipantInfo>) -> Seq<ParticipantView> {
    v.map_values(|p: ParticipantInfo| p@)
}

impl View for Packet {
    type V = PacketView;

    open spec fn view(&self) -> PacketView {
        match self {
            Packet::LoginRequest { request_id, username } => PacketView::LoginRequest {
                request_id: *request_id,
                username: username@,
            },
            Packet::VoiceAuthRequest { request_id, voice_token } => PacketView::VoiceAuthRequest {
                request_id: *request_id,
                voice_token: *voice_token,
            },
            Packet::JoinVoiceChannelRequest { request_id } =>
                PacketView::JoinVoiceChannelRequest { request_id: *request_id },
            Packet::LeaveVoiceChannelRequest { request_id } =>
                PacketView::LeaveVoiceChannelRequest { request_id: *request_id },
            Packet::ChatMessageRequest { request_id, message } => PacketView::ChatMessageRequest {
                request_id: *request_id,
                message: message@,
            },
            Packet::PingRequest { request_id } => PacketView::PingRequest {
                request_id: *request_id,
            },
            Packet::LoginResponse { request_id, id, voice_token, participants } =>
                PacketView::LoginResponse {
                request_id: *request_id,
                id: *id,
                voice_token: *voice_token,
                participants: participants_view(participants@),
            },
            Packet::VoiceAuthResponse { request_id, success } => PacketView::VoiceAuthResponse {
                request_id: *request_id,
                success: *success,
            },
            Packet::JoinVoiceChannelResponse { request_id, success } =>
                PacketView::JoinVoiceChannelResponse { request_id: *request_id, success: *success },
            Packet::LeaveVoiceChannelResponse { request_id, success } =>
                PacketView::LeaveVoiceChannelResponse { request_id: *request_id, success: *success },
            Packet::ChatMessageResponse { request_id, success } =>
                PacketView::ChatMessageResponse { request_id: *request_id, success: *success },
            Packet::PingResponse { request_id } => PacketView::PingResponse {
                request_id: *request_id,
            },
            Packet::UserJoinedServer { participant } => PacketView::UserJoinedServer {
                participant: participant@,
            },
            Packet::UserJoinedVoice { user_id } => PacketView::UserJoinedVoice {
                user_id: *user_id,
            },
            Packet::UserLeftVoice { user_id } => PacketView::UserLeftVoice { user_id: *user_id },
            Packet::UserLeftServer { user_id } => PacketView::UserLeftServer { user_id: *user_id },
            Packet::UserSentMessage { user_id, timestamp, message } =>
                PacketView::UserSentMessage {
                user_id: *user_id,
                timestamp: *timestamp,
                message: message@,
            },
            Packet::UserMuteState { user_id, is_muted } => PacketView::UserMuteState {
                user_id: *user_id,
                is_muted: *is_muted,
            },
            Packet::VoiceData { user_id, sequence, timestamp, data } => PacketView::VoiceData {
                user_id: *user_id,
                sequence: *sequence,
                timestamp: *timestamp,
                data: data@,
            },
        }
    }
}

/// The kind of a packet.
pub open spec fn kind(p: PacketView) -> PacketId {
    match p {
        PacketView::LoginRequest { .. } => PacketId::LoginRequest,
        PacketView::VoiceAuthRequest { .. } => PacketId::VoiceAuthRequest,
        PacketView::JoinVoiceChannelRequest { .. } => PacketId::JoinVoiceChannelRequest,
        PacketView::LeaveVoiceChannelRequest { .. } => PacketId::LeaveVoiceChannelRequest,
        PacketView::ChatMessageRequest { .. } => PacketId::ChatMessageRequest,
        PacketView::PingRequest { .. } => PacketId::PingRequest,
        PacketView::LoginResponse { .. } => PacketId::LoginResponse,
        PacketView::VoiceAuthResponse { .. } => PacketId::VoiceAuthResponse,
        PacketView::JoinVoiceChannelResponse { .. } => PacketId::JoinVoiceChannelResponse,
        PacketView::LeaveVoiceChannelResponse { .. } => PacketId::LeaveVoiceChannelResponse,
        PacketView::ChatMessageResponse { .. } => PacketId::ChatMessageResponse,
        PacketView::PingResponse { .. } => PacketId::PingResponse,
        PacketView::UserJoinedServer { .. } => PacketId::UserJoinedServer,
        PacketView::UserJoinedVoice { .. } => PacketId::UserJoinedVoice,
        PacketView::UserLeftVoice { .. } => PacketId::UserLeftVoice,
        PacketView::UserLeftServer { .. } => PacketId::UserLeftServer,
        PacketView::UserSentMessage { .. } => PacketId::UserSentMessage,
        PacketView::UserMuteState { .. } => PacketId::UserMuteState,
        PacketView::VoiceData { .. } => PacketId::VoiceData,
    }
}

/// The request id carried by request and response packets.
pub open spec fn request_id_of(p: PacketView) -> Option<u64> {
    match p {
        PacketView::LoginRequest { request_id, .. } => Some(request_id),
        PacketView::VoiceAuthRequest { request_id, .. } => Some(request_id),
        PacketView::JoinVoiceChannelRequest { request_id } => Some(request_id),
        PacketView::LeaveVoiceChannelRequest { request_id } => Some(request_id),
        PacketView::ChatMessageRequest { request_id, .. } => Some(request_id),
        PacketView::PingRequest { request_id } => Some(request_id),
        PacketView::LoginResponse { request_id, .. } => Some(request_id),
        PacketView::VoiceAuthResponse { request_id, .. } => Some(request_id),
        PacketView::JoinVoiceChannelResponse { request_id, .. } => Some(request_id),
        PacketView::LeaveVoiceChannelResponse { request_id, .. } => Some(request_id),
        PacketView::ChatMessageResponse { request_id, .. } => Some(request_id),
        PacketView::PingResponse { request_id } => Some(request_id),
        _ => None,
    }
}

/// Exactly the requests and responses (the kinds whose byte is below 0x40)
/// carry a request id, and it is the id their payload starts with: a
/// response is matched to its request by it.  Events and voice data carry
/// none.
pub proof fn lemma_request_id_of_kinds(p: PacketView)
    ensures
        request_id_of(p) is Some <==> id_byte(kind(p)) < 0x40,
        request_id_of(p) matches Some(r) ==> payload(p).len() >= 8 && payload(p).subrange(0, 8)
            == u64_be(r),
{
    match request_id_of(p) {
        Some(r) => {
            let rest = payload(p).subrange(8, payload(p).len() as int);
            assert(payload(p) =~= u64_be(r) + rest);
            assert(payload(p).subrange(0, 8) =~= u64_be(r));
        },
        None => {},
    }
}

/// The bytes of one participant: id, name, voice flag, mute flag.
pub open spec fn participant_bytes(p: ParticipantView) -> Seq<u8> {
    u64_be(p.user_id) + string_field(p.username) + seq![bool_byte(p.in_voice), bool_byte(p.is_muted)]
}

/// The bytes of a list of participants, one after the other.
pub open spec fn participants_bytes(s: Seq<ParticipantView>) -> Seq<u8>
    decreases s.len(),
{
    if s.len() == 0 {
        Seq::empty()
    } else {
        participant_bytes(s[0]) + participants_bytes(s.drop_first())
    }
}

/// The payload of a packet.
pub open spec fn payload(p: PacketView) -> Seq<u8> {
    match p {
        PacketView::LoginRequest { request_id, username } => u64_be(request_id) + string_field(
            username,
        ),
        PacketView::VoiceAuthRequest { request_id, voice_token } => u64_be(request_id) + u64_be(
            voice_token,
        ),
        PacketView::JoinVoiceChannelRequest { request_id } => u64_be(request_id),
        PacketView::LeaveVoiceChannelRequest { request_id } => u64_be(request_id),
        PacketView::ChatMessageRequest { request_id, message } => u64_be(request_id)
            + string_field(message),
        PacketView::PingRequest { request_id } => u64_be(request_id),
        PacketView::LoginResponse { request_id, id, voice_token, participants } => u64_be(
            request_id,
        ) + u64_be(id) + u64_be(voice_token) + u16_be(participants.len() as u16)
            + participants_bytes(participants),
        PacketView::VoiceAuthResponse { request_id, success } => u64_be(request_id) + seq![
            bool_byte(success),
        ],
        PacketView::JoinVoiceChannelResponse { request_id, success } => u64_be(request_id)
            + seq![bool_byte(success)],
        PacketView::LeaveVoiceChannelResponse { request_id, success } => u64_be(request_id)
            + seq![bool_byte(success)],
        PacketView::ChatMessageResponse { request_id, success } => u64_be(request_id) + seq![
            bool_byte(success),
        ],
        PacketView::PingResponse { request_id } => u64_be(request_id),
        PacketView::UserJoinedServer { participant } => participant_bytes(participant),
        PacketView::UserJoinedVoice { user_id } => u64_be(user_id),
        PacketView::UserLeftVoice { user_id } => u64_be(user_id),
        PacketView::UserLeftServer { user_id } => u64_be(user_id),
        PacketView::UserSentMessage { user_id, timestamp, message } => u64_be(user_id) + u64_be(
            timestamp,
        ) + string_field(message),
        PacketView::UserMuteState { user_id, is_muted } => u64_be(user_id) + seq![
            bool_byte(is_muted),
        ],
        PacketView::VoiceData { user_id, sequence, timestamp, data } => u64_be(user_id) + u32_be(
            sequence,
        ) + u32_be(timestamp) + data,
    }
}

/// The wire bytes of a packet: its kind, its payload length, its payload.
pub open spec fn encoding(p: PacketView) -> Seq<u8> {
    frame(kind(p), payload(p))
}

/// A packet can be written when its payload fits a `u16` length; then every
/// string and the participant count fit one too.
pub open spec fn encodable(p: PacketView) -> bool {
    payload(p).len() <= u16::MAX
}


/// Reading one participant at `p`: id, name, voice flag, mute flag.
pub open spec fn rd_participant(d: Seq<u8>, p: int) -> Result<(ParticipantView, int), ProtocolError> {
    match rd_u64(d, p) {
        Err(e) => Err(e),
        Ok((user_id, p1)) => match rd_string(d, p1) {
            Err(e) => Err(e),
            Ok((username, p2)) => match rd_bool(d, p2) {
                Err(e) => Err(e),
                Ok((in_voice, p3)) => match rd_bool(d, p3) {
                    Err(e) => Err(e),
                    Ok((is_muted, p4)) => Ok(
                        (ParticipantView { user_id, username, in_voice, is_muted }, p4),
                    ),
                },
            },
        },
    }
}

/// Reading `n` participants one after the other from `p`.
pub open spec fn rd_participants(d: Seq<u8>, p: int, n: nat) -> Result<
    (Seq<ParticipantView>, int),
    ProtocolError,
>
    decreases n,
{
    if n == 0 {
        Ok((Seq::empty(), p))
    } else {
        match rd_participant(d, p) {
            Err(e) => Err(e),
            Ok((x, q)) => match rd_participants(d, q, (n - 1) as nat) {
                Err(e) => Err(e),
                Ok((xs, r)) => Ok((seq![x] + xs, r)),
            },
        }
    }
}

/// The lists read so far, put in front of what the rest of a read gives.
pub open spec fn prepend(
    acc: Seq<ParticipantView>,
    r: Result<(Seq<ParticipantView>, int), ProtocolError>,
) -> Result<(Seq<ParticipantView>, int), ProtocolError> {
    match r {
        Ok((xs, q)) => Ok((acc + xs, q)),
        Err(e) => Err(e),
    }
}

/// The packet a payload of the given kind holds. Bytes past the fields are
/// ignored, but for voice data, which takes the rest of the payload.
pub open spec fn decode_body(id: PacketId, d: Seq<u8>) -> Result<PacketView, ProtocolError> {
    match id {
        PacketId::LoginRequest => match rd_u64(d, 0) {
            Err(e) => Err(e),
            Ok((request_id, p1)) => match rd_string(d, p1) {
                Err(e) => Err(e),
                Ok((username, _)) => Ok(PacketView::LoginRequest { request_id, username }),
            },
        },
        PacketId::VoiceAuthRequest => match rd_u64(d, 0) {
            Err(e) => Err(e),
            Ok((request_id, p1)) => match rd_u64(d, p1) {
                Err(e) => Err(e),
                Ok((voice_token, _)) => Ok(PacketView::VoiceAuthRequest { request_id, voice_token }),
            },
        },
        PacketId::JoinVoiceChannelRequest => match rd_u64(d, 0) {
            Err(e) => Err(e),
            Ok((request_id, _)) => Ok(PacketView::JoinVoiceChannelRequest { request_id }),
        },
        PacketId::LeaveVoiceChannelRequest => match rd_u64(d, 0) {
            Err(e) => Err(e),
            Ok((request_id, _)) => Ok(PacketView::LeaveVoiceChannelRequest { request_id }),
        },
        PacketId::ChatMessageRequest => match rd_u64(d, 0) {
            Err(e) => Err(e),
            Ok((request_id, p1)) => match rd_string(d, p1) {
                Err(e) => Err(e),
                Ok((message, _)) => Ok(PacketView::ChatMessageRequest { request_id, message }),
            },
        },
        PacketId::PingRequest => match rd_u64(d, 0) {
            Err(e) => Err(e),
            Ok((request_id, _)) => Ok(PacketView::PingRequest { request_id }),
        },
        PacketId::LoginResponse => match rd_u64(d, 0) {
            Err(e) => Err(e),
            Ok((request_id, p1)) => match rd_u64(d, p1) {
                Err(e) => Err(e),
                Ok((id, p2)) => match rd_u64(d, p2) {
                    Err(e) => Err(e),
                    Ok((voice_token, p3)) => match rd_u16(d, p3) {
                        Err(e) => Err(e),
                        Ok((count, p4)) => match rd_participants(d, p4, count as nat) {
                            Err(e) => Err(e),
                            Ok((participants, _)) => Ok(
                                PacketView::LoginResponse {
                                    request_id,
                                    id,
                                    voice_token,
                                    participants,
                                },
                            ),
                        },
                    },
                },
            },
        },
        PacketId::VoiceAuthResponse => match rd_u64(d, 0) {
            Err(e) => Err(e),
            Ok((request_id, p1)) => match rd_bool(d, p1) {
                Err(e) => Err(e),
                Ok((success, _)) => Ok(PacketView::VoiceAuthResponse { request_id, success }),
            },
        },
        PacketId::JoinVoiceChannelResponse => match rd_u64(d, 0) {
            Err(e) => Err(e),
            Ok((request_id, p1)) => match rd_bool(d, p1) {
                Err(e) => Err(e),
                Ok((success, _)) => Ok(PacketView::JoinVoiceChannelResponse { request_id, success }),
            },
        },
        PacketId::LeaveVoiceChannelResponse => match rd_u64(d, 0) {
            Err(e) => Err(e),
            Ok((request_id, p1)) => match rd_bool(d, p1) {
                Err(e) => Err(e),
                Ok((success, _)) => Ok(
                    PacketView::LeaveVoiceChannelResponse { request_id, success },
                ),
            },
        },
        PacketId::ChatMessageResponse => match rd_u64(d, 0) {
            Err(e) => Err(e),
            Ok((request_id, p1)) => match rd_bool(d, p1) {
                Err(e) => Err(e),
                Ok((success, _)) => Ok(PacketView::ChatMessageResponse { request_id, success }),
            },
        },
        PacketId::PingResponse => match rd_u64(d, 0) {
            Err(e) => Err(e),
            Ok((request_id, _)) => Ok(PacketView::PingResponse { request_id }),
        },
        PacketId::UserJoinedServer => match rd_participant(d, 0) {
            Err(e) => Err(e),
            Ok((participant, _)) => Ok(PacketView::UserJoinedServer { participant }),
        },
        PacketId::UserJoinedVoice => match rd_u64(d, 0) {
            Err(e) => Err(e),
            Ok((user_id, _)) => Ok(PacketView::UserJoinedVoice { user_id }),
        },
        PacketId::UserLeftVoice => match rd_u64(d, 0) {
            Err(e) => Err(e),
            Ok((user_id, _)) => Ok(PacketView::UserLeftVoice { user_id }),
        },
        PacketId::UserLeftServer => match rd_u64(d, 0) {
            Err(e) => Err(e),
            Ok((user_id, _)) => Ok(PacketView::UserLeftServer { user_id }),
        },
        PacketId::UserSentMessage => match rd_u64(d, 0) {
            Err(e) => Err(e),
            Ok((user_id, p1)) => match rd_u64(d, p1) {
                Err(e) => Err(e),
                Ok((timestamp, p2)) => match rd_string(d, p2) {
                    Err(e) => Err(e),
                    Ok((message, _)) => Ok(
                        PacketView::UserSentMessage { user_id, timestamp, message },
                    ),
                },
            },
        },
        PacketId::UserMuteState => match rd_u64(d, 0) {
            Err(e) => Err(e),
            Ok((user_id, p1)) => match rd_bool(d, p1) {
                Err(e) => Err(e),
                Ok((is_muted, _)) => Ok(PacketView::UserMuteState { user_id, is_muted }),
            },
        },
        PacketId::VoiceData => match rd_u64(d, 0) {
            Err(e) => Err(e),
            Ok((user_id, p1)) => match rd_u32(d, p1) {
                Err(e) => Err(e),
                Ok((sequence, p2)) => match rd_u32(d, p2) {
                    Err(e) => Err(e),
                    Ok((timestamp, p3)) => Ok(
                        PacketView::VoiceData {
                            user_id,
                            sequence,
                            timestamp,
                            data: d.subrange(p3, d.len() as int),
                        },
                    ),
                },
            },
        },
    }
}

/// Decoding a buffer: the kind byte, the payload length, then a payload that
/// must be all there; the result is the packet and the bytes it took.
pub open spec fn decode_spec(buf: Seq<u8>) -> Result<(PacketView, int), ProtocolError> {
    match rd_u8(buf, 0) {
        Err(e) => Err(e),
        Ok((b, _)) => match id_of_byte(b) {
            None => Err(ProtocolError::UnknownPacketId(b)),
            Some(id) => match rd_u16(buf, 1) {
                Err(e) => Err(e),
                Ok((len, _)) => if buf.len() - 3 < len {
                    Err(
                        ProtocolError::IncompletePayload {
                            expected: len as usize,
                            got: (buf.len() - 3) as usize,
                        },
                    )
                } else {
                    match decode_body(id, buf.subrange(3, 3 + len)) {
                        Err(e) => Err(e),
                        Ok(p) => Ok((p, 3 + len)),
                    }
                },
            },
        },
    }
}


/// The bytes of two lists side by side are the bytes of each, side by side.
pub proof fn lemma_participants_bytes_concat(a: Seq<ParticipantView>, b: Seq<ParticipantView>)
    ensures
        participants_bytes(a + b) == participants_bytes(a) + participants_bytes(b),
    decreases a.len(),
{
    if a.len() == 0 {
        assert(a + b =~= b);
        assert(participants_bytes(a) + participants_bytes(b) =~= participants_bytes(b));
    } else {
        lemma_participants_bytes_concat(a.drop_first(), b);
        assert((a + b).drop_first() =~= a.drop_first() + b);
        assert((a + b)[0] == a[0]);
        assert(participants_bytes(a + b) =~= participant_bytes(a[0]) + (participants_bytes(
            a.drop_first(),
        ) + participants_bytes(b)));
    }
}

/// The bytes of a one-element list are the bytes of that element.
pub proof fn lemma_participants_bytes_single(x: ParticipantView)
    ensures
        participants_bytes(seq![x]) == participant_bytes(x),
{
    let s = seq![x];
    assert(s.drop_first() =~= Seq::<ParticipantView>::empty());
    assert(s[0] == x);
    assert(participants_bytes(s.drop_first()) == Seq::<u8>::empty());
    assert(participants_bytes(s) == participant_bytes(s[0]) + participants_bytes(s.drop_first()));
    assert(participant_bytes(x) + Seq::<u8>::empty() =~= participant_bytes(x));
}

/// Each participant takes at least twelve bytes.
pub proof fn lemma_participants_bytes_len(s: Seq<ParticipantView>)
    ensures
        participants_bytes(s).len() >= 12 * s.len(),
    decreases s.len(),
{
    if s.len() > 0 {
        lemma_participants_bytes_len(s.drop_first());
    }
}

/// The bytes of the `i`-th participant sit inside the bytes of the list.
pub proof fn lemma_participants_bytes_split(s: Seq<ParticipantView>, i: int)
    requires
        0 <= i < s.len(),
    ensures
        participants_bytes(s) == participants_bytes(s.take(i)) + participant_bytes(s[i])
            + participants_bytes(s.skip(i + 1)),
        participants_bytes(s.take(i + 1)) == participants_bytes(s.take(i)) + participant_bytes(
            s[i],
        ),
{
    assert(s =~= s.take(i) + seq![s[i]] + s.skip(i + 1));
    assert(s.take(i + 1) =~= s.take(i) + seq![s[i]]);
    lemma_participants_bytes_concat(s.take(i), seq![s[i]]);
    lemma_participants_bytes_concat(s.take(i) + seq![s[i]], s.skip(i + 1));
    lemma_participants_bytes_single(s[i]);
}

impl ParticipantInfo {
    /// Creates a new participant.
    pub fn new(user_id: u64, username: String, in_voice: bool, is_muted: bool) -> (p: Self)
        ensures
            p@ == (ParticipantView { user_id, username: username@, in_voice, is_muted }),
    {
        Self { user_id, username, in_voice, is_muted }
    }

    fn write(&self, w: &mut Writer)
        requires
            utf8(self.username@).len() <= u16::MAX,
        ensures
            final(w)@ == old(w)@ + participant_bytes(self@),
    {
        w.write_u64(self.user_id);
        w.write_string(self.username.as_str());
        w.write_bool(self.in_voice);
        w.write_bool(self.is_muted);
        assert(w@ =~= old(w)@ + participant_bytes(self@));
    }

    fn read(r: &mut Reader) -> (res: Result<Self, ProtocolError>)
        ensures
            final(r).bytes() == old(r).bytes(),
            match rd_participant(old(r).bytes(), old(r).cursor()) {
                Ok((v, q)) => res matches Ok(x) && x@ == v && final(r).cursor() == q,
                Err(e) => res == Err::<Self, ProtocolError>(e),
            },
    {
        let user_id = r.read_u64()?;
        let username = r.read_string()?;
        let in_voice = r.read_bool()?;
        let is_muted = r.read_bool()?;
        Ok(Self { user_id, username, in_voice, is_muted })
    }
}

impl Packet {
    /// Encode packet to wire format: `[packet_id: u8][payload_len: u16][payload...]`.
    /// The payload must fit a `u16` length.
    pub fn encode(&self) -> (out: Vec<u8>)
        requires
            encodable(self@),
        ensures
            out@ == encoding(self@),
    {
        let mut w = Writer::new();
        w.write_u8(self.id());
        let len_pos = w.reserve_u16();
        let payload_start = w.position();
        let ghost head = w@;
        assert(head =~= seq![id_byte(kind(self@)), 0u8, 0u8]);
        self.write_payload(&mut w);
        assert(w@ =~= head + payload(self@));
        let len = (w.position() - payload_start) as u16;
        w.write_u16_at(len_pos, len);
        assert(w@ =~= encoding(self@));
        w.into_vec()
    }

    fn write_payload(&self, w: &mut Writer)
        requires
            encodable(self@),
        ensures
            final(w)@ == old(w)@ + payload(self@),
    {
        match self {
            Packet::LoginRequest { request_id, username } => {
                w.write_u64(*request_id);
                w.write_string(username.as_str());
            },
            Packet::VoiceAuthRequest { request_id, voice_token } => {
                w.write_u64(*request_id);
                w.write_u64(*voice_token);
            },
            Packet::JoinVoiceChannelRequest { request_id } => {
                w.write_u64(*request_id);
            },
            Packet::LeaveVoiceChannelRequest { request_id } => {
                w.write_u64(*request_id);
            },
            Packet::ChatMessageRequest { request_id, message } => {
                w.write_u64(*request_id);
                w.write_string(message.as_str());
            },
            Packet::PingRequest { request_id } => {
                w.write_u64(*request_id);
            },
            Packet::LoginResponse { request_id, id, voice_token, participants } => {
                Self::write_login_response(*request_id, *id, *voice_token, participants, w);
            },
            Packet::VoiceAuthResponse { request_id, success } => {
                w.write_u64(*request_id);
                w.write_bool(*success);
            },
            Packet::JoinVoiceChannelResponse { request_id, success } => {
                w.write_u64(*request_id);
                w.write_bool(*success);
            },
            Packet::LeaveVoiceChannelResponse { request_id, success } => {
                w.write_u64(*request_id);
                w.write_bool(*success);
            },
            Packet::ChatMessageResponse { request_id, success } => {
                w.write_u64(*request_id);
                w.write_bool(*success);
            },
            Packet::PingResponse { request_id } => {
                w.write_u64(*request_id);
            },
            Packet::UserJoinedServer { participant } => participant.write(w),
            Packet::UserJoinedVoice { user_id } => {
                w.write_u64(*user_id);
            },
            Packet::UserLeftVoice { user_id } => {
                w.write_u64(*user_id);
            },
            Packet::UserLeftServer { user_id } => {
                w.write_u64(*user_id);
            },
            Packet::UserMuteState { user_id, is_muted } => {
                w.write_u64(*user_id);
                w.write_bool(*is_muted);
            },
            Packet::UserSentMessage { user_id, timestamp, message } => {
                w.write_u64(*user_id);
                w.write_u64(*timestamp);
                w.write_string(message.as_str());
            },
            Packet::VoiceData { user_id, sequence, timestamp, data } => {
                w.write_u64(*user_id);
                w.write_u32(*sequence);
                w.write_u32(*timestamp);
                w.write_bytes(data.as_slice());
            },
        }
        assert(w@ =~= old(w)@ + payload(self@));
    }

    fn write_login_response(
        request_id: u64,
        id: u64,
        voice_token: u64,
        participants: &Vec<ParticipantInfo>,
        w: &mut Writer,
    )
        requires
            encodable(
                PacketView::LoginResponse {
                    request_id,
                    id,
                    voice_token,
                    participants: participants_view(participants@),
                },
            ),
        ensures
            final(w)@ == old(w)@ + payload(
                PacketView::LoginResponse {
                    request_id,
                    id,
                    voice_token,
                    participants: participants_view(participants@),
                },
            ),
    {
        let ghost pv = participants_view(participants@);
        let ghost whole = payload(
            PacketView::LoginResponse { request_id, id, voice_token, participants: pv },
        );
        proof {
            lemma_participants_bytes_len(pv);
        }
        w.write_u64(request_id);
        w.write_u64(id);
        w.write_u64(voice_token);
        w.write_u16(participants.len() as u16);
        let ghost base = w@;
        let mut i: usize = 0;
        assert(pv.take(0) =~= Seq::<ParticipantView>::empty());
        assert(w@ =~= base + participants_bytes(pv.take(0)));
        while i < participants.len()
            invariant
                i <= participants@.len(),
                pv == participants_view(participants@),
                whole.len() <= u16::MAX,
                whole == u64_be(request_id) + u64_be(id) + u64_be(voice_token) + u16_be(
                    pv.len() as u16,
                ) + participants_bytes(pv),
                w@ == base + participants_bytes(pv.take(i as int)),
            decreases participants@.len() - i,
        {
            proof {
                lemma_participants_bytes_split(pv, i as int);
            }
            participants[i].write(w);
            i = i + 1;
        }
        assert(pv.take(i as int) =~= pv);
        assert(w@ =~= old(w)@ + whole);
    }

    /// Decode packet from wire format. Returns the packet and the number of
    /// bytes it took from the buffer.
    pub fn decode(buf: &[u8]) -> (res: Result<(Packet, usize), ProtocolError>)
        requires
            buf@.len() <= isize::MAX,
        ensures
            match decode_spec(buf@) {
                Ok((p, n)) => res matches Ok((q, m)) && q@ == p && m == n,
                Err(e) => res == Err::<(Packet, usize), ProtocolError>(e),
            },
    {
        let mut header = Reader::new(buf);
        let b = header.read_u8()?;
        let packet_id = PacketId::from_u8(b)?;
        let payload_len = header.read_u16()? as usize;
        let remaining = header.remaining();
        if remaining.len() < payload_len {
            return Err(
                ProtocolError::IncompletePayload { expected: payload_len, got: remaining.len() },
            );
        }
        let body = vstd::slice::slice_subrange(remaining, 0, payload_len);
        assert(body@ =~= buf@.subrange(3, 3 + payload_len));
        let mut r = Reader::new(body);
        let packet = Self::decode_body(packet_id, &mut r)?;
        Ok((packet, header.position() + payload_len))
    }

    fn decode_body(id: PacketId, r: &mut Reader) -> (res: Result<Packet, ProtocolError>)
        requires
            old(r).cursor() == 0,
        ensures
            match decode_body(id, old(r).bytes()) {
                Ok(p) => res matches Ok(q) && q@ == p,
                Err(e) => res == Err::<Packet, ProtocolError>(e),
            },
    {
        let ghost d = r.bytes();
        match id {
            PacketId::LoginRequest => {
                let request_id = r.read_u64()?;
                let username = r.read_string()?;
                Ok(Packet::LoginRequest { request_id, username })
            },
            PacketId::VoiceAuthRequest => {
                let request_id = r.read_u64()?;
                let voice_token = r.read_u64()?;
                Ok(Packet::VoiceAuthRequest { request_id, voice_token })
            },
            PacketId::JoinVoiceChannelRequest => {
                let request_id = r.read_u64()?;
                Ok(Packet::JoinVoiceChannelRequest { request_id })
            },
            PacketId::LeaveVoiceChannelRequest => {
                let request_id = r.read_u64()?;
                Ok(Packet::LeaveVoiceChannelRequest { request_id })
            },
            PacketId::ChatMessageRequest => {
                let request_id = r.read_u64()?;
                let message = r.read_string()?;
                Ok(Packet::ChatMessageRequest { request_id, message })
            },
            PacketId::PingRequest => {
                let request_id = r.read_u64()?;
                Ok(Packet::PingRequest { request_id })
            },
            PacketId::LoginResponse => Self::decode_login_response(r),
            PacketId::VoiceAuthResponse => {
                let request_id = r.read_u64()?;
                let success = r.read_bool()?;
                Ok(Packet::VoiceAuthResponse { request_id, success })
            },
            PacketId::JoinVoiceChannelResponse => {
                let request_id = r.read_u64()?;
                let success = r.read_bool()?;
                Ok(Packet::JoinVoiceChannelResponse { request_id, success })
            },
            PacketId::LeaveVoiceChannelResponse => {
                let request_id = r.read_u64()?;
                let success = r.read_bool()?;
                Ok(Packet::LeaveVoiceChannelResponse { request_id, success })
            },
            PacketId::ChatMessageResponse => {
                let request_id = r.read_u64()?;
                let success = r.read_bool()?;
                Ok(Packet::ChatMessageResponse { request_id, success })
            },
            PacketId::PingResponse => {
                let request_id = r.read_u64()?;
                Ok(Packet::PingResponse { request_id })
            },
            PacketId::UserJoinedServer => {
                let participant = ParticipantInfo::read(r)?;
                Ok(Packet::UserJoinedServer { participant })
            },
            PacketId::UserJoinedVoice => {
                let user_id = r.read_u64()?;
                Ok(Packet::UserJoinedVoice { user_id })
            },
            PacketId::UserLeftVoice => {
                let user_id = r.read_u64()?;
                Ok(Packet::UserLeftVoice { user_id })
            },
            PacketId::UserLeftServer => {
                let user_id = r.read_u64()?;
                Ok(Packet::UserLeftServer { user_id })
            },
            PacketId::UserSentMessage => {
                let user_id = r.read_u64()?;
                let timestamp = r.read_u64()?;
                let message = r.read_string()?;
                Ok(Packet::UserSentMessage { user_id, timestamp, message })
            },
            PacketId::UserMuteState => {
                let user_id = r.read_u64()?;
                let is_muted = r.read_bool()?;
                Ok(Packet::UserMuteState { user_id, is_muted })
            },
            PacketId::VoiceData => {
                let user_id = r.read_u64()?;
                let sequence = r.read_u32()?;
                let timestamp = r.read_u32()?;
                let data = vstd::slice::slice_to_vec(r.remaining());
                Ok(Packet::VoiceData { user_id, sequence, timestamp, data })
            },
        }
    }

    fn decode_login_response(r: &mut Reader) -> (res: Result<Packet, ProtocolError>)
        requires
            old(r).cursor() == 0,
        ensures
            match decode_body(PacketId::LoginResponse, old(r).bytes()) {
        Ok(p) => res matches Ok(q) && q@ == p,
        Err(e) => res == Err::<Packet, ProtocolError>(e),
            },
    {
        let ghost d = r.bytes();
        let request_id = r.read_u64()?;
        let id = r.read_u64()?;
        let voice_token = r.read_u64()?;
        let count = r.read_u16()? as usize;
        let ghost start = r.cursor();
        let mut participants: Vec<ParticipantInfo> = Vec::new();
        let mut i: usize = 0;
        assert(participants_view(participants@) =~= Seq::<ParticipantView>::empty());
        assert(prepend(Seq::empty(), rd_participants(d, start, count as nat))
            =~= rd_participants(d, start, count as nat)) by {
            match rd_participants(d, start, count as nat) {
                Ok((xs, q)) => {
                    assert(Seq::<ParticipantView>::empty() + xs =~= xs);
                },
                Err(_) => {},
            }
        }
        while i < count
            invariant
                r.bytes() == d,
                i <= count,
                d == old(r).bytes(),
                decode_body(PacketId::LoginResponse, d) == match rd_participants(
                    d,
                    start,
                    count as nat,
                ) {
                    Err(e) => Err(e),
                    Ok((ps, _)) => Ok(
                        PacketView::LoginResponse { request_id, id, voice_token, participants: ps },
                    ),
                },
                rd_participants(d, start, count as nat) == prepend(
                    participants_view(participants@),
                    rd_participants(d, r.cursor(), (count - i) as nat),
                ),
            decreases count - i,
        {
            let ghost acc = participants_view(participants@);
            let ghost cur = r.cursor();
            let x = match ParticipantInfo::read(r) {
                Ok(x) => x,
                Err(e) => {
                    assert(rd_participants(d, cur, (count - i) as nat) == Err::<
                        (Seq<ParticipantView>, int),
                        ProtocolError,
                    >(e));
                    assert(decode_body(PacketId::LoginResponse, d) == Err::<
                        PacketView,
                        ProtocolError,
                    >(e));
                    return Err(e);
                },
            };
            proof {
                let rest = rd_participants(d, r.cursor(), (count - i - 1) as nat);
                match rest {
                    Ok((xs, q)) => {
                        assert(acc + (seq![x@] + xs) =~= acc.push(x@) + xs);
                    },
                    Err(_) => {},
                }
            }
            participants.push(x);
            assert(participants_view(participants@) =~= acc.push(x@));
            i = i + 1;
        }
        assert(participants_view(participants@) + Seq::<ParticipantView>::empty()
            =~= participants_view(participants@));
        Ok(Packet::LoginResponse { request_id, id, voice_token, participants })
        }

    /// Returns the packet type ID.
    pub fn id(&self) -> (b: u8)
        ensures
            b == id_byte(kind(self@)),
    {
        match self {
            Packet::LoginRequest { .. } => PacketId::LoginRequest,
            Packet::VoiceAuthRequest { .. } => PacketId::VoiceAuthRequest,
            Packet::JoinVoiceChannelRequest { .. } => PacketId::JoinVoiceChannelRequest,
            Packet::LeaveVoiceChannelRequest { .. } => PacketId::LeaveVoiceChannelRequest,
            Packet::ChatMessageRequest { .. } => PacketId::ChatMessageRequest,
            Packet::PingRequest { .. } => PacketId::PingRequest,
            Packet::LoginResponse { .. } => PacketId::LoginResponse,
            Packet::VoiceAuthResponse { .. } => PacketId::VoiceAuthResponse,
            Packet::JoinVoiceChannelResponse { .. } => PacketId::JoinVoiceChannelResponse,
            Packet::LeaveVoiceChannelResponse { .. } => PacketId::LeaveVoiceChannelResponse,
            Packet::ChatMessageResponse { .. } => PacketId::ChatMessageResponse,
            Packet::PingResponse { .. } => PacketId::PingResponse,
            Packet::UserJoinedServer { .. } => PacketId::UserJoinedServer,
            Packet::UserJoinedVoice { .. } => PacketId::UserJoinedVoice,
            Packet::UserLeftVoice { .. } => PacketId::UserLeftVoice,
            Packet::UserLeftServer { .. } => PacketId::UserLeftServer,
            Packet::UserSentMessage { .. } => PacketId::UserSentMessage,
            Packet::UserMuteState { .. } => PacketId::UserMuteState,
            Packet::VoiceData { .. } => PacketId::VoiceData,
        }.as_u8()
    }

    /// Returns the request ID for request/response packets, `None` for events
    /// and voice data.
    pub fn request_id(&self) -> (r: Option<u64>)
        ensures
            r == request_id_of(self@),
    {
        match self {
            Packet::LoginRequest { request_id, .. }
            | Packet::VoiceAuthRequest { request_id, .. }
            | Packet::JoinVoiceChannelRequest { request_id }
            | Packet::LeaveVoiceChannelRequest { request_id }
            | Packet::ChatMessageRequest { request_id, .. }
            | Packet::PingRequest { request_id }
            | Packet::LoginResponse { request_id, .. }
            | Packet::VoiceAuthResponse { request_id, .. }
            | Packet::JoinVoiceChannelResponse { request_id, .. }
            | Packet::LeaveVoiceChannelResponse { request_id, .. }
            | Packet::ChatMessageResponse { request_id, .. }
            | Packet::PingResponse { request_id } => Some(*request_id),
            _ => None,
        }
    }
}


/// A participant written at `p` is read back at `p`.
pub proof fn lemma_rd_participant_at(d: Seq<u8>, p: int, x: ParticipantView, rest: Seq<u8>)
    requires
        0 <= p <= d.len(),
        participant_bytes(x).len() <= u16::MAX,
        suffix(d, p) == participant_bytes(x) + rest,
    ensures
        rd_participant(d, p) == Ok::<(ParticipantView, int), ProtocolError>(
            (x, p + participant_bytes(x).len()),
        ),
        suffix(d, p + participant_bytes(x).len()) == rest,
{
    let n = utf8(x.username).len();
    let m1 = seq![bool_byte(x.is_muted)] + rest;
    let m0 = seq![bool_byte(x.in_voice)] + m1;
    assert(suffix(d, p) =~= u64_be(x.user_id) + (string_field(x.username) + m0));
    lemma_rd_u64_at(d, p, x.user_id, string_field(x.username) + m0);
    lemma_rd_string_at(d, p + 8, x.username, m0);
    lemma_rd_bool_at(d, p + 10 + n, x.in_voice, m1);
    lemma_rd_bool_at(d, p + 11 + n, x.is_muted, rest);
}

/// A list of participants written at `p` is read back at `p`.
pub proof fn lemma_rd_participants_at(
    d: Seq<u8>,
    p: int,
    xs: Seq<ParticipantView>,
    rest: Seq<u8>,
)
    requires
        0 <= p <= d.len(),
        participants_bytes(xs).len() <= u16::MAX,
        suffix(d, p) == participants_bytes(xs) + rest,
    ensures
        rd_participants(d, p, xs.len()) == Ok::<(Seq<ParticipantView>, int), ProtocolError>(
            (xs, p + participants_bytes(xs).len()),
        ),
        suffix(d, p + participants_bytes(xs).len()) == rest,
    decreases xs.len(),
{
    if xs.len() == 0 {
        assert(participants_bytes(xs) + rest =~= rest);
        assert(xs =~= Seq::<ParticipantView>::empty());
    } else {
        let x = xs[0];
        let tail = xs.drop_first();
        assert(suffix(d, p) =~= participant_bytes(x) + (participants_bytes(tail) + rest));
        lemma_rd_participant_at(d, p, x, participants_bytes(tail) + rest);
        let q = p + participant_bytes(x).len();
        lemma_rd_participants_at(d, q, tail, rest);
        assert(seq![x] + tail =~= xs);
        assert((xs.len() - 1) as nat == tail.len());
        assert(participants_bytes(xs) == participant_bytes(x) + participants_bytes(tail));
        assert(rd_participants(d, p, xs.len()) == Ok::<(Seq<ParticipantView>, int), ProtocolError>(
            (seq![x] + tail, q + participants_bytes(tail).len()),
        ));
    }
}

proof fn lemma_decode_body_requests_a(p: PacketView)
    requires
        encodable(p),
        p is LoginRequest || p is VoiceAuthRequest || p is JoinVoiceChannelRequest || p is LeaveVoiceChannelRequest,
    ensures
        decode_body(kind(p), payload(p)) == Ok::<PacketView, ProtocolError>(p),
{
    let d = payload(p);
    let e = Seq::<u8>::empty();
    assert(suffix(d, 0) =~= d);
    match p {
        PacketView::LoginRequest { request_id, username } => {
            assert(d =~= u64_be(request_id) + (string_field(username) + e));
            lemma_rd_u64_at(d, 0, request_id, string_field(username) + e);
            lemma_rd_string_at(d, 8, username, e);
        },
        PacketView::VoiceAuthRequest { request_id, voice_token } => {
            assert(d =~= u64_be(request_id) + (u64_be(voice_token) + e));
            lemma_rd_u64_at(d, 0, request_id, u64_be(voice_token) + e);
            lemma_rd_u64_at(d, 8, voice_token, e);
        },
        PacketView::JoinVoiceChannelRequest { request_id } => {
            assert(d =~= u64_be(request_id) + e);
            lemma_rd_u64_at(d, 0, request_id, e);
        },
        PacketView::LeaveVoiceChannelRequest { request_id } => {
            assert(d =~= u64_be(request_id) + e);
            lemma_rd_u64_at(d, 0, request_id, e);
        },
        _ => {},
    }
}

proof fn lemma_decode_body_requests_b(p: PacketView)
    requires
        encodable(p),
        p is ChatMessageRequest || p is PingRequest,
    ensures
        decode_body(kind(p), payload(p)) == Ok::<PacketView, ProtocolError>(p),
{
    let d = payload(p);
    let e = Seq::<u8>::empty();
    assert(suffix(d, 0) =~= d);
    match p {
        PacketView::ChatMessageRequest { request_id, message } => {
            assert(d =~= u64_be(request_id) + (string_field(message) + e));
            lemma_rd_u64_at(d, 0, request_id, string_field(message) + e);
            lemma_rd_string_at(d, 8, message, e);
        },
        PacketView::PingRequest { request_id } => {
            assert(d =~= u64_be(request_id) + e);
            lemma_rd_u64_at(d, 0, request_id, e);
        },
        _ => {},
    }
}

proof fn lemma_decode_body_responses(p: PacketView)
    requires
        encodable(p),
        p is VoiceAuthResponse || p is JoinVoiceChannelResponse || p is LeaveVoiceChannelResponse || p is ChatMessageResponse || p is PingResponse,
    ensures
        decode_body(kind(p), payload(p)) == Ok::<PacketView, ProtocolError>(p),
{
    let d = payload(p);
    let e = Seq::<u8>::empty();
    assert(suffix(d, 0) =~= d);
    match p {
        PacketView::VoiceAuthResponse { request_id, success } => {
            assert(d =~= u64_be(request_id) + (seq![bool_byte(success)] + e));
            lemma_rd_u64_at(d, 0, request_id, seq![bool_byte(success)] + e);
            lemma_rd_bool_at(d, 8, success, e);
        },
        PacketView::JoinVoiceChannelResponse { request_id, success } => {
            assert(d =~= u64_be(request_id) + (seq![bool_byte(success)] + e));
            lemma_rd_u64_at(d, 0, request_id, seq![bool_byte(success)] + e);
            lemma_rd_bool_at(d, 8, success, e);
        },
        PacketView::LeaveVoiceChannelResponse { request_id, success } => {
            assert(d =~= u64_be(request_id) + (seq![bool_byte(success)] + e));
            lemma_rd_u64_at(d, 0, request_id, seq![bool_byte(success)] + e);
            lemma_rd_bool_at(d, 8, success, e);
        },
        PacketView::ChatMessageResponse { request_id, success } => {
            assert(d =~= u64_be(request_id) + (seq![bool_byte(success)] + e));
            lemma_rd_u64_at(d, 0, request_id, seq![bool_byte(success)] + e);
            lemma_rd_bool_at(d, 8, success, e);
        },
        PacketView::PingResponse { request_id } => {
            assert(d =~= u64_be(request_id) + e);
            lemma_rd_u64_at(d, 0, request_id, e);
        },
        _ => {},
    }
}

proof fn lemma_decode_body_events_a(p: PacketView)
    requires
        encodable(p),
        p is UserJoinedServer || p is UserJoinedVoice || p is UserLeftVoice || p is UserLeftServer,
    ensures
        decode_body(kind(p), payload(p)) == Ok::<PacketView, ProtocolError>(p),
{
    let d = payload(p);
    let e = Seq::<u8>::empty();
    assert(suffix(d, 0) =~= d);
    match p {
        PacketView::UserJoinedServer { participant } => {
            assert(d =~= participant_bytes(participant) + e);
            lemma_rd_participant_at(d, 0, participant, e);
        },
        PacketView::UserJoinedVoice { user_id } => {
            assert(d =~= u64_be(user_id) + e);
            lemma_rd_u64_at(d, 0, user_id, e);
        },
        PacketView::UserLeftVoice { user_id } => {
            assert(d =~= u64_be(user_id) + e);
            lemma_rd_u64_at(d, 0, user_id, e);
        },
        PacketView::UserLeftServer { user_id } => {
            assert(d =~= u64_be(user_id) + e);
            lemma_rd_u64_at(d, 0, user_id, e);
        },
        _ => {},
    }
}

#[verifier::spinoff_prover]
#[verifier::rlimit(30)]
proof fn lemma_decode_body_events_b(p: PacketView)
    requires
        encodable(p),
        p is UserSentMessage || p is UserMuteState || p is VoiceData,
    ensures
        decode_body(kind(p), payload(p)) == Ok::<PacketView, ProtocolError>(p),
{
    let d = payload(p);
    let e = Seq::<u8>::empty();
    assert(suffix(d, 0) =~= d);
    match p {
        PacketView::UserSentMessage { user_id, timestamp, message } => {
            assert(d =~= u64_be(user_id) + (u64_be(timestamp) + (string_field(message) + e)));
            lemma_rd_u64_at(d, 0, user_id, u64_be(timestamp) + (string_field(message) + e));
            lemma_rd_u64_at(d, 8, timestamp, string_field(message) + e);
            lemma_rd_string_at(d, 16, message, e);
        },
        PacketView::UserMuteState { user_id, is_muted } => {
            assert(d =~= u64_be(user_id) + (seq![bool_byte(is_muted)] + e));
            lemma_rd_u64_at(d, 0, user_id, seq![bool_byte(is_muted)] + e);
            lemma_rd_bool_at(d, 8, is_muted, e);
        },
        PacketView::VoiceData { user_id, sequence, timestamp, data } => {
            assert(d =~= u64_be(user_id) + (u32_be(sequence) + (u32_be(timestamp) + data)));
            lemma_rd_u64_at(d, 0, user_id, u32_be(sequence) + (u32_be(timestamp) + data));
            lemma_rd_u32_at(d, 8, sequence, u32_be(timestamp) + data);
            lemma_rd_u32_at(d, 12, timestamp, data);
        },
        _ => {},
    }
}

proof fn lemma_read_login_fields(
    d: Seq<u8>,
    request_id: u64,
    id: u64,
    voice_token: u64,
    participants: Seq<ParticipantView>,
)
    requires
        participants.len() <= u16::MAX,
        participants_bytes(participants).len() <= u16::MAX,
        d == u64_be(request_id) + u64_be(id) + u64_be(voice_token) + u16_be(
            participants.len() as u16,
        ) + participants_bytes(participants),
    ensures
        rd_u64(d, 0) == Ok::<(u64, int), ProtocolError>((request_id, 8)),
        rd_u64(d, 8) == Ok::<(u64, int), ProtocolError>((id, 16)),
        rd_u64(d, 16) == Ok::<(u64, int), ProtocolError>((voice_token, 24)),
        rd_u16(d, 24) == Ok::<(u16, int), ProtocolError>((participants.len() as u16, 26)),
        rd_participants(d, 26, participants.len()) is Ok,
        rd_participants(d, 26, participants.len())->Ok_0.0 == participants,
{
    let e = Seq::<u8>::empty();
    let pb = participants_bytes(participants) + e;
    let c = participants.len() as u16;
    assert(d =~= u64_be(request_id) + (u64_be(id) + (u64_be(voice_token) + (u16_be(c) + pb))));
    assert(suffix(d, 0) =~= d);
    lemma_rd_u64_at(d, 0, request_id, u64_be(id) + (u64_be(voice_token) + (u16_be(c) + pb)));
    lemma_rd_u64_at(d, 8, id, u64_be(voice_token) + (u16_be(c) + pb));
    lemma_rd_u64_at(d, 16, voice_token, u16_be(c) + pb);
    lemma_rd_u16_at(d, 24, c, pb);
    lemma_rd_participants_at(d, 26, participants, e);
}

proof fn lemma_decode_body_login_response(
    request_id: u64,
    id: u64,
    voice_token: u64,
    participants: Seq<ParticipantView>,
)
    requires
        encodable(PacketView::LoginResponse { request_id, id, voice_token, participants }),
    ensures
        decode_body(
            PacketId::LoginResponse,
            payload(PacketView::LoginResponse { request_id, id, voice_token, participants }),
        ) == Ok::<PacketView, ProtocolError>(
            PacketView::LoginResponse { request_id, id, voice_token, participants },
        ),
{
    let p = PacketView::LoginResponse { request_id, id, voice_token, participants };
    let d = payload(p);
    lemma_participants_bytes_len(participants);
    lemma_read_login_fields(d, request_id, id, voice_token, participants);
}

/// The payload of a packet decodes, under the packet's kind, to the packet.
pub proof fn lemma_decode_body_payload(p: PacketView)
    requires
        encodable(p),
    ensures
        decode_body(kind(p), payload(p)) == Ok::<PacketView, ProtocolError>(p),
{
    match p {
        PacketView::LoginRequest { .. } => lemma_decode_body_requests_a(p),
        PacketView::VoiceAuthRequest { .. } => lemma_decode_body_requests_a(p),
        PacketView::JoinVoiceChannelRequest { .. } => lemma_decode_body_requests_a(p),
        PacketView::LeaveVoiceChannelRequest { .. } => lemma_decode_body_requests_a(p),
        PacketView::ChatMessageRequest { .. } => lemma_decode_body_requests_b(p),
        PacketView::PingRequest { .. } => lemma_decode_body_requests_b(p),
        PacketView::LoginResponse { request_id, id, voice_token, participants } =>
            lemma_decode_body_login_response(request_id, id, voice_token, participants),
        PacketView::VoiceAuthResponse { .. } => lemma_decode_body_responses(p),
        PacketView::JoinVoiceChannelResponse { .. } => lemma_decode_body_responses(p),
        PacketView::LeaveVoiceChannelResponse { .. } => lemma_decode_body_responses(p),
        PacketView::ChatMessageResponse { .. } => lemma_decode_body_responses(p),
        PacketView::PingResponse { .. } => lemma_decode_body_responses(p),
        PacketView::UserJoinedServer { .. } => lemma_decode_body_events_a(p),
        PacketView::UserJoinedVoice { .. } => lemma_decode_body_events_a(p),
        PacketView::UserLeftVoice { .. } => lemma_decode_body_events_a(p),
        PacketView::UserLeftServer { .. } => lemma_decode_body_events_a(p),
        PacketView::UserSentMessage { .. } => lemma_decode_body_events_b(p),
        PacketView::UserMuteState { .. } => lemma_decode_body_events_b(p),
        PacketView::VoiceData { .. } => lemma_decode_body_events_b(p),
    }
}

/// Decoding what `encode` wrote gives back the packet and takes exactly its
/// bytes, whatever follows them in the buffer.
pub proof fn lemma_decode_encode(p: PacketView, rest: Seq<u8>)
    requires
        encodable(p),
    ensures
        decode_spec(encoding(p) + rest) == Ok::<(PacketView, int), ProtocolError>(
            (p, encoding(p).len() as int),
        ),
{
    let d = payload(p);
    let buf = encoding(p) + rest;
    let len = d.len() as u16;
    assert(len as int == d.len());
    assert(suffix(buf, 0) =~= seq![id_byte(kind(p))] + (u16_be(len) + (d + rest)));
    lemma_rd_u8_at(buf, 0, id_byte(kind(p)), u16_be(len) + (d + rest));
    lemma_id_byte_roundtrip(kind(p));
    lemma_rd_u16_at(buf, 1, len, d + rest);
    assert(buf.subrange(3, 3 + len) =~= d);
    lemma_decode_body_payload(p);
}

} // verus!
