//! Request packets: login, voice authentication, voice frames, joining and
//! leaving the voice channel, chat messages.
use crate::protocol::packet_id::{frame, lemma_frame_parts, serialize_packet, PacketId};
use crate::wire::{
    be_to_u16,
    be_to_u32,
    be_to_u64,
    invalid,
    lemma_u16_roundtrip,
    lemma_u32_roundtrip,
    lemma_u64_roundtrip,
    lemma_utf8_roundtrip,
    push_bytes,
    push_u16_be,
    push_u32_be,
    push_u64_be,
    read_u16_be,
    read_u32_be,
    read_u64_be,
    string_from_utf8,
    u16_be,
    u32_be,
    u64_be,
    utf8,
    InvalidData,
};
use vstd::prelude::*;
use vstd::slice::{slice_subrange, slice_to_vec};
use vstd::utf8::{decode_utf8, valid_utf8};

verus! {

/// Voice audio frame transmission
#[derive(Debug, Clone)]
pub struct VoiceData {
    pub sequence: u32,
    pub timestamp: u32,
    pub ssrc: u64,
    pub opus_frame: Vec<u8>,
}

/// Payload of a voice frame: sequence, timestamp, source id, then the frame.
pub open spec fn voice_data_payload(sequence: u32, timestamp: u32, ssrc: u64, frame_bytes: Seq<u8>) -> Seq<u8> {
    u32_be(sequence) + u32_be(timestamp) + u64_be(ssrc) + frame_bytes
}

/// Payload of a chat message request: byte length (cast to `u16`), then the text.
pub open spec fn chat_message_payload(message: Seq<char>) -> Seq<u8> {
    u16_be(utf8(message).len() as u16) + utf8(message)
}

/// Decoding a NUL-terminated UTF-8 name that fills the whole payload.
pub open spec fn login_request_of(data: Seq<u8>) -> Result<Seq<char>, InvalidData> {
    if data.len() == 0 || data[data.len() - 1] != 0 {
        Err(invalid("username not null-terminated"))
    } else if !valid_utf8(data.subrange(0, data.len() - 1)) {
        Err(invalid("invalid UTF-8"))
    } else {
        Ok(decode_utf8(data.subrange(0, data.len() - 1)))
    }
}

/// Decoding a voice-auth token (trailing bytes are ignored).
pub open spec fn voice_auth_request_of(data: Seq<u8>) -> Result<u64, InvalidData> {
    if data.len() < 8 {
        Err(invalid("token payload too short"))
    } else {
        Ok(be_to_u64(data.subrange(0, 8)))
    }
}

/// Decoding a chat message request.
pub open spec fn chat_message_request_of(data: Seq<u8>) -> Result<Seq<char>, InvalidData> {
    if data.len() < 2 {
        Err(invalid("chat message request too short"))
    } else {
        let len = be_to_u16(data.subrange(0, 2)) as int;
        if data.len() < 2 + len {
            Err(invalid("incomplete message in chat message request"))
        } else if !valid_utf8(data.subrange(2, 2 + len)) {
            Err(invalid("invalid UTF-8 in message"))
        } else {
            Ok(decode_utf8(data.subrange(2, 2 + len)))
        }
    }
}

/// Encode login request packet.
/// Format: [packet_id: u8][payload_len: u16][username...null]
pub fn encode_login_request(username: &str) -> (out: Vec<u8>)
    ensures
        out@ == frame(PacketId::LoginRequest, utf8(username@) + seq![0u8]),
{
    let mut payload: Vec<u8> = Vec::new();
    push_bytes(&mut payload, username.as_bytes());
    payload.push(0u8);
    serialize_packet(PacketId::LoginRequest, payload.as_slice())
}

/// Encode join voice channel request packet.
/// Format: [packet_id: u8][payload_len: u16]
pub fn encode_join_voice_channel_request() -> (out: Vec<u8>)
    ensures
        out@ == frame(PacketId::JoinVoiceChannelRequest, Seq::empty()),
{
    let payload: Vec<u8> = Vec::new();
    serialize_packet(PacketId::JoinVoiceChannelRequest, payload.as_slice())
}

/// Encode UDP auth request packet.
/// Format: [packet_id: u8][payload_len: u16][token: u64 BE]
pub fn encode_voice_auth_request(voice_token: u64) -> (out: Vec<u8>)
    ensures
        out@ == frame(PacketId::VoiceAuthRequest, u64_be(voice_token)),
{
    let mut payload: Vec<u8> = Vec::new();
    push_u64_be(&mut payload, voice_token);
    serialize_packet(PacketId::VoiceAuthRequest, payload.as_slice())
}

/// Encode voice frame request packet.
/// Format: [packet_id: u8][payload_len: u16][sequence: u32 BE][timestamp: u32 BE][ssrc: u64 BE][opus_frame...]
pub fn encode_voice_data(payload: &VoiceData) -> (out: Vec<u8>)
    ensures
        out@ == frame(
            PacketId::VoiceData,
            voice_data_payload(
                payload.sequence,
                payload.timestamp,
                payload.ssrc,
                payload.opus_frame@,
            ),
        ),
{
    let mut data: Vec<u8> = Vec::new();
    push_u32_be(&mut data, payload.sequence);
    push_u32_be(&mut data, payload.timestamp);
    push_u64_be(&mut data, payload.ssrc);
    push_bytes(&mut data, payload.opus_frame.as_slice());
    serialize_packet(PacketId::VoiceData, data.as_slice())
}

/// Encode leave voice channel request packet.
/// Format: [packet_id: u8][payload_len: u16]
pub fn encode_leave_voice_channel_request() -> (out: Vec<u8>)
    ensures
        out@ == frame(PacketId::LeaveVoiceChannelRequest, Seq::empty()),
{
    let payload: Vec<u8> = Vec::new();
    serialize_packet(PacketId::LeaveVoiceChannelRequest, payload.as_slice())
}

/// Encode chat message request packet.
/// Format: [packet_id: u8][payload_len: u16][message_len: u16 BE][message...]
pub fn encode_chat_message_request(message: &str) -> (out: Vec<u8>)
    ensures
        out@ == frame(PacketId::ChatMessageRequest, chat_message_payload(message@)),
{
    let mut payload: Vec<u8> = Vec::new();
    let message_bytes = message.as_bytes();
    push_u16_be(&mut payload, message_bytes.len() as u16);
    push_bytes(&mut payload, message_bytes);
    serialize_packet(PacketId::ChatMessageRequest, payload.as_slice())
}

/// Decode login request payload.
/// Format: [username...null]
pub fn decode_login_request(data: &[u8]) -> (res: Result<String, InvalidData>)
    ensures
        match login_request_of(data@) {
            Ok(name) => res matches Ok(n) && n@ == name,
            Err(e) => res == Err::<String, InvalidData>(e),
        },
{
    if data.len() == 0 || data[data.len() - 1] != 0 {
        return Err(InvalidData { message: "username not null-terminated" });
    }
    let username_bytes = slice_subrange(data, 0, data.len() - 1);
    match string_from_utf8(slice_to_vec(username_bytes)) {
        Some(username) => Ok(username),
        None => Err(InvalidData { message: "invalid UTF-8" }),
    }
}

/// Decode UDP auth request payload.
/// Format: [token: u64 BE]
pub fn decode_voice_auth_request(data: &[u8]) -> (res: Result<u64, InvalidData>)
    ensures
        res == voice_auth_request_of(data@),
{
    if data.len() < 8 {
        return Err(InvalidData { message: "token payload too short" });
    }
    Ok(read_u64_be(data, 0))
}

/// Decode voice frame request payload.
/// Format: [sequence: u32 BE][timestamp: u32 BE][ssrc: u64 BE][opus_frame...]
pub fn decode_voice_data(data: &[u8]) -> (res: Result<VoiceData, InvalidData>)
    ensures
        data@.len() < 16 ==> res == Err::<VoiceData, InvalidData>(invalid("voice frame too short")),
        data@.len() >= 16 ==> (res matches Ok(v) && v.sequence == be_to_u32(
            data@.subrange(0, 4),
        ) && v.timestamp == be_to_u32(data@.subrange(4, 8)) && v.ssrc == be_to_u64(
            data@.subrange(8, 16),
        ) && v.opus_frame@ == data@.subrange(16, data@.len() as int)),
{
    if data.len() < 16 {
        return Err(InvalidData { message: "voice frame too short" });
    }
    let sequence = read_u32_be(data, 0);
    let timestamp = read_u32_be(data, 4);
    let ssrc = read_u64_be(data, 8);
    let opus_frame = slice_to_vec(slice_subrange(data, 16, data.len()));
    Ok(VoiceData { sequence, timestamp, ssrc, opus_frame })
}

/// Decode chat message request payload.
/// Format: [message_len: u16 BE][message...]
pub fn decode_chat_message_request(data: &[u8]) -> (res: Result<String, InvalidData>)
    ensures
        match chat_message_request_of(data@) {
            Ok(m) => res matches Ok(s) && s@ == m,
            Err(e) => res == Err::<String, InvalidData>(e),
        },
{
    if data.len() < 2 {
        return Err(InvalidData { message: "chat message request too short" });
    }
    let message_len = read_u16_be(data, 0) as usize;
    if data.len() - 2 < message_len {
        return Err(InvalidData { message: "incomplete message in chat message request" });
    }
    let bytes = slice_subrange(data, 2, 2 + message_len);
    match string_from_utf8(slice_to_vec(bytes)) {
        Some(message) => Ok(message),
        None => Err(InvalidData { message: "invalid UTF-8 in message" }),
    }
}

/// The payload of an encoded login request decodes to the name.
pub proof fn lemma_login_request_roundtrip(username: Seq<char>)
    ensures
        ({
            let f = frame(PacketId::LoginRequest, utf8(username) + seq![0u8]);
            login_request_of(f.subrange(3, f.len() as int)) == Ok::<Seq<char>, InvalidData>(
                username,
            )
        }),
{
    let d = utf8(username) + seq![0u8];
    lemma_frame_parts(PacketId::LoginRequest, d);
    assert(d.subrange(0, d.len() - 1) =~= utf8(username));
    lemma_utf8_roundtrip(username);
}

/// The payload of an encoded voice-auth request decodes to the token.
pub proof fn lemma_voice_auth_request_roundtrip(voice_token: u64)
    ensures
        ({
            let f = frame(PacketId::VoiceAuthRequest, u64_be(voice_token));
            voice_auth_request_of(f.subrange(3, f.len() as int)) == Ok::<u64, InvalidData>(
                voice_token,
            )
        }),
{
    lemma_frame_parts(PacketId::VoiceAuthRequest, u64_be(voice_token));
    assert(u64_be(voice_token).subrange(0, 8) =~= u64_be(voice_token));
    lemma_u64_roundtrip(voice_token);
}

/// The payload of an encoded voice frame gives back every field.
pub proof fn lemma_voice_data_roundtrip(sequence: u32, timestamp: u32, ssrc: u64, opus: Seq<u8>)
    ensures
        ({
            let d = voice_data_payload(sequence, timestamp, ssrc, opus);
            &&& d.len() >= 16
            &&& be_to_u32(d.subrange(0, 4)) == sequence
            &&& be_to_u32(d.subrange(4, 8)) == timestamp
            &&& be_to_u64(d.subrange(8, 16)) == ssrc
            &&& d.subrange(16, d.len() as int) == opus
        }),
{
    let d = voice_data_payload(sequence, timestamp, ssrc, opus);
    assert(d.subrange(0, 4) =~= u32_be(sequence));
    assert(d.subrange(4, 8) =~= u32_be(timestamp));
    assert(d.subrange(8, 16) =~= u64_be(ssrc));
    assert(d.subrange(16, d.len() as int) =~= opus);
    lemma_u32_roundtrip(sequence);
    lemma_u32_roundtrip(timestamp);
    lemma_u64_roundtrip(ssrc);
}

/// The payload of an encoded chat request decodes to the message, when its
/// length fits the `u16` field.
pub proof fn lemma_chat_message_request_roundtrip(message: Seq<char>)
    requires
        utf8(message).len() <= u16::MAX,
    ensures
        ({
            let f = frame(PacketId::ChatMessageRequest, chat_message_payload(message));
            chat_message_request_of(f.subrange(3, f.len() as int)) == Ok::<Seq<char>, InvalidData>(
                message,
            )
        }),
{
    let d = chat_message_payload(message);
    let n = utf8(message).len() as int;
    lemma_frame_parts(PacketId::ChatMessageRequest, d);
    assert(d.subrange(0, 2) =~= u16_be(n as u16));
    lemma_u16_roundtrip(n as u16);
    assert(d.subrange(2, 2 + n) =~= utf8(message));
    lemma_utf8_roundtrip(message);
}

} // verus!
