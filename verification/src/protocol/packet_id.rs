//! The one-byte identifiers of packet kinds, and framing a payload under one.
use crate::protocol::error::ProtocolError;
use crate::wire::{push_bytes, push_u16_be, u16_be};
use vstd::prelude::*;

verus! {

/// Packet kinds: requests in 0x01-0x1F, responses in 0x20-0x3F, events in
/// 0x40-0x5F, UDP traffic from 0x60.
#[derive(Debug, Clone, Copy, PartialEq, Eq, Hash)]
pub enum PacketId {
    LoginRequest,
    JoinVoiceChannelRequest,
    VoiceAuthRequest,
    LeaveVoiceChannelRequest,
    ChatMessageRequest,
    PingRequest,
    LoginResponse,
    VoiceAuthResponse,
    JoinVoiceChannelResponse,
    LeaveVoiceChannelResponse,
    ChatMessageResponse,
    PingResponse,
    UserJoinedServer,
    UserJoinedVoice,
    UserLeftVoice,
    UserLeftServer,
    UserSentMessage,
    UserMuteState,
    VoiceData,
}

/// The byte that stands for each packet kind on the wire.
pub open spec fn id_byte(id: PacketId) -> u8 {
    match id {
        PacketId::LoginRequest => 0x01,
        PacketId::JoinVoiceChannelRequest => 0x02,
        PacketId::VoiceAuthRequest => 0x03,
        PacketId::LeaveVoiceChannelRequest => 0x04,
        PacketId::ChatMessageRequest => 0x05,
        PacketId::PingRequest => 0x06,
        PacketId::LoginResponse => 0x21,
        PacketId::VoiceAuthResponse => 0x22,
        PacketId::JoinVoiceChannelResponse => 0x23,
        PacketId::LeaveVoiceChannelResponse => 0x24,
        PacketId::ChatMessageResponse => 0x25,
        PacketId::PingResponse => 0x26,
        PacketId::UserJoinedServer => 0x41,
        PacketId::UserJoinedVoice => 0x42,
        PacketId::UserLeftVoice => 0x43,
        PacketId::UserLeftServer => 0x44,
        PacketId::UserSentMessage => 0x45,
        PacketId::UserMuteState => 0x46,
        PacketId::VoiceData => 0x61,
    }
}

/// The packet kind a byte stands for, if any.
pub open spec fn id_of_byte(b: u8) -> Option<PacketId> {
    if b == 0x01 {
        Some(PacketId::LoginRequest)
    } else if b == 0x02 {
        Some(PacketId::JoinVoiceChannelRequest)
    } else if b == 0x03 {
        Some(PacketId::VoiceAuthRequest)
    } else if b == 0x04 {
        Some(PacketId::LeaveVoiceChannelRequest)
    } else if b == 0x05 {
        Some(PacketId::ChatMessageRequest)
    } else if b == 0x06 {
        Some(PacketId::PingRequest)
    } else if b == 0x21 {
        Some(PacketId::LoginResponse)
    } else if b == 0x22 {
        Some(PacketId::VoiceAuthResponse)
    } else if b == 0x23 {
        Some(PacketId::JoinVoiceChannelResponse)
    } else if b == 0x24 {
        Some(PacketId::LeaveVoiceChannelResponse)
    } else if b == 0x25 {
        Some(PacketId::ChatMessageResponse)
    } else if b == 0x26 {
        Some(PacketId::PingResponse)
    } else if b == 0x41 {
        Some(PacketId::UserJoinedServer)
    } else if b == 0x42 {
        Some(PacketId::UserJoinedVoice)
    } else if b == 0x43 {
        Some(PacketId::UserLeftVoice)
    } else if b == 0x44 {
        Some(PacketId::UserLeftServer)
    } else if b == 0x45 {
        Some(PacketId::UserSentMessage)
    } else if b == 0x46 {
        Some(PacketId::UserMuteState)
    } else if b == 0x61 {
        Some(PacketId::VoiceData)
    } else {
        None
    }
}

/// Every kind's byte is read back as that kind.
pub proof fn lemma_id_byte_roundtrip(id: PacketId)
    ensures
        id_of_byte(id_byte(id)) == Some(id),
{
}

impl PacketId {
    pub fn as_u8(self) -> (b: u8)
        ensures
            b == id_byte(self),
    {
        match self {
            PacketId::LoginRequest => 0x01,
            PacketId::JoinVoiceChannelRequest => 0x02,
            PacketId::VoiceAuthRequest => 0x03,
            PacketId::LeaveVoiceChannelRequest => 0x04,
            PacketId::ChatMessageRequest => 0x05,
            PacketId::PingRequest => 0x06,
            PacketId::LoginResponse => 0x21,
            PacketId::VoiceAuthResponse => 0x22,
            PacketId::JoinVoiceChannelResponse => 0x23,
            PacketId::LeaveVoiceChannelResponse => 0x24,
            PacketId::ChatMessageResponse => 0x25,
            PacketId::PingResponse => 0x26,
            PacketId::UserJoinedServer => 0x41,
            PacketId::UserJoinedVoice => 0x42,
            PacketId::UserLeftVoice => 0x43,
            PacketId::UserLeftServer => 0x44,
            PacketId::UserSentMessage => 0x45,
            PacketId::UserMuteState => 0x46,
            PacketId::VoiceData => 0x61,
        }
    }

    /// The kind a byte stands for; an unknown byte is an error that carries it.
    pub fn from_u8(value: u8) -> (res: Result<PacketId, ProtocolError>)
        ensures
            match id_of_byte(value) {
                Some(id) => res == Ok::<PacketId, ProtocolError>(id),
                None => res == Err::<PacketId, ProtocolError>(
                    ProtocolError::UnknownPacketId(value),
                ),
            },
    {
        match value {
            0x01 => Ok(PacketId::LoginRequest),
            0x02 => Ok(PacketId::JoinVoiceChannelRequest),
            0x03 => Ok(PacketId::VoiceAuthRequest),
            0x04 => Ok(PacketId::LeaveVoiceChannelRequest),
            0x05 => Ok(PacketId::ChatMessageRequest),
            0x06 => Ok(PacketId::PingRequest),
            0x21 => Ok(PacketId::LoginResponse),
            0x22 => Ok(PacketId::VoiceAuthResponse),
            0x23 => Ok(PacketId::JoinVoiceChannelResponse),
            0x24 => Ok(PacketId::LeaveVoiceChannelResponse),
            0x25 => Ok(PacketId::ChatMessageResponse),
            0x26 => Ok(PacketId::PingResponse),
            0x41 => Ok(PacketId::UserJoinedServer),
            0x42 => Ok(PacketId::UserJoinedVoice),
            0x43 => Ok(PacketId::UserLeftVoice),
            0x44 => Ok(PacketId::UserLeftServer),
            0x45 => Ok(PacketId::UserSentMessage),
            0x46 => Ok(PacketId::UserMuteState),
            0x61 => Ok(PacketId::VoiceData),
            _ => Err(ProtocolError::UnknownPacketId(value)),
        }
    }
}

/// A framed packet: the kind's byte, the payload length as a big-endian
/// `u16` (cast, so only its low 16 bits for an oversized payload), then the
/// payload.
pub open spec fn frame(id: PacketId, payload: Seq<u8>) -> Seq<u8> {
    seq![id_byte(id)] + u16_be(payload.len() as u16) + payload
}

/// Frames `payload` under the kind `id`. The length field holds the payload
/// length cast to `u16`, as every length field of these payloads does.
pub fn serialize_packet(id: PacketId, payload: &[u8]) -> (out: Vec<u8>)
    ensures
        out@ == frame(id, payload@),
{
    let mut out: Vec<u8> = Vec::new();
    out.push(id.as_u8());
    push_u16_be(&mut out, payload.len() as u16);
    push_bytes(&mut out, payload);
    assert(out@ =~= frame(id, payload@));
    out
}

/// A frame holds its kind's byte first and its payload after the three
/// header bytes.
pub proof fn lemma_frame_parts(id: PacketId, payload: Seq<u8>)
    ensures
        frame(id, payload).len() == payload.len() + 3,
        frame(id, payload)[0] == id_byte(id),
        frame(id, payload).subrange(3, frame(id, payload).len() as int) == payload,
{
    let f = frame(id, payload);
    assert(f.subrange(3, f.len() as int) =~= payload);
}

} // verus!
