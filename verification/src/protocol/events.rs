//! Event packets: a user joined or left the server or the voice channel, or
//! sent a chat message.
use crate::protocol::packet_id::{frame, lemma_frame_parts, serialize_packet, PacketId};
use crate::wire::{
    invalid,
    lemma_u64_roundtrip,
    lemma_u16_roundtrip,
    lemma_utf8_roundtrip,
    push_bytes,
    push_u16_be,
    push_u64_be,
    read_u16_be,
    read_u64_be,
    string_from_utf8,
    be_to_u16,
    be_to_u64,
    str_bytes,
    u16_be,
    u64_be,
    utf8,
    InvalidData,
};
use vstd::prelude::*;
use vstd::slice::{slice_subrange, slice_to_vec};
use vstd::utf8::{decode_utf8, valid_utf8};

verus! {

/// Participant info with voice channel status
#[derive(Debug, Clone, PartialEq, Eq)]
pub struct ParticipantInfo {
    pub user_id: u64,
    pub username: String,
    pub in_voice: bool,
}

/// The value an event `ParticipantInfo` stands for.
pub struct ParticipantEntry {
    pub user_id: u64,
    pub username: Seq<char>,
    pub in_voice: bool,
}

impl View for ParticipantInfo {
    type V = ParticipantEntry;

    open spec fn view(&self) -> ParticipantEntry {
        ParticipantEntry { user_id: self.user_id, username: self.username@, in_voice: self.in_voice }
    }
}

/// Payload of a user-joined-server event: id, then the name and a zero byte.
pub open spec fn user_joined_server_payload(user_id: u64, username: Seq<char>) -> Seq<u8> {
    u64_be(user_id) + utf8(username) + seq![0u8]
}

/// Payload of a user-sent-message event: id, timestamp, then the message
/// with its byte length (cast to `u16`) in front.
pub open spec fn user_sent_message_payload(user_id: u64, timestamp: u64, message: Seq<char>) -> Seq<u8> {
    u64_be(user_id) + u64_be(timestamp) + u16_be(utf8(message).len() as u16) + utf8(message)
}

/// Decoding a user-joined-server payload.
pub open spec fn user_joined_server_of(data: Seq<u8>) -> Result<(u64, Seq<char>), InvalidData> {
    if data.len() < 9 {
        Err(invalid("user joined server payload too short"))
    } else if data[data.len() - 1] != 0 {
        Err(invalid("username not null-terminated"))
    } else if !valid_utf8(data.subrange(8, data.len() - 1)) {
        Err(invalid("invalid UTF-8"))
    } else {
        Ok((be_to_u64(data.subrange(0, 8)), decode_utf8(data.subrange(8, data.len() - 1))))
    }
}

/// Decoding a payload that is a user id (trailing bytes are ignored).
pub open spec fn user_id_of(data: Seq<u8>, too_short: &'static str) -> Result<u64, InvalidData> {
    if data.len() < 8 {
        Err(invalid(too_short))
    } else {
        Ok(be_to_u64(data.subrange(0, 8)))
    }
}

/// Decoding a user-sent-message payload.
pub open spec fn user_sent_message_of(data: Seq<u8>) -> Result<(u64, u64, Seq<char>), InvalidData> {
    if data.len() < 18 {
        Err(invalid("user sent message payload too short"))
    } else {
        let len = be_to_u16(data.subrange(16, 18)) as int;
        if data.len() < 18 + len {
            Err(invalid("incomplete message in user sent message event"))
        } else if !valid_utf8(data.subrange(18, 18 + len)) {
            Err(invalid("invalid UTF-8 in message"))
        } else {
            Ok(
                (
                    be_to_u64(data.subrange(0, 8)),
                    be_to_u64(data.subrange(8, 16)),
                    decode_utf8(data.subrange(18, 18 + len)),
                ),
            )
        }
    }
}

/// Encode user joined server event packet.
/// Format: [packet_id: u8][payload_len: u16][user_id: u64 BE][username...null]
pub fn encode_user_joined_server(user_id: u64, username: &str) -> (out: Vec<u8>)
    ensures
        out@ == frame(PacketId::UserJoinedServer, user_joined_server_payload(user_id, username@)),
{
    let mut payload: Vec<u8> = Vec::new();
    push_u64_be(&mut payload, user_id);
    push_bytes(&mut payload, username.as_bytes());
    payload.push(0u8);
    serialize_packet(PacketId::UserJoinedServer, payload.as_slice())
}

/// Encode user joined voice event packet.
/// Format: [packet_id: u8][payload_len: u16][user_id: u64 BE]
pub fn encode_user_joined_voice(user_id: u64) -> (out: Vec<u8>)
    ensures
        out@ == frame(PacketId::UserJoinedVoice, u64_be(user_id)),
{
    let mut payload: Vec<u8> = Vec::new();
    push_u64_be(&mut payload, user_id);
    serialize_packet(PacketId::UserJoinedVoice, payload.as_slice())
}

/// Encode user left voice event packet.
/// Format: [packet_id: u8][payload_len: u16][user_id: u64 BE]
pub fn encode_user_left_voice(user_id: u64) -> (out: Vec<u8>)
    ensures
        out@ == frame(PacketId::UserLeftVoice, u64_be(user_id)),
{
    let mut payload: Vec<u8> = Vec::new();
    push_u64_be(&mut payload, user_id);
    serialize_packet(PacketId::UserLeftVoice, payload.as_slice())
}

/// Encode user left server event packet.
/// Format: [packet_id: u8][payload_len: u16][user_id: u64 BE]
pub fn encode_user_left_server(user_id: u64) -> (out: Vec<u8>)
    ensures
        out@ == frame(PacketId::UserLeftServer, u64_be(user_id)),
{
    let mut payload: Vec<u8> = Vec::new();
    push_u64_be(&mut payload, user_id);
    serialize_packet(PacketId::UserLeftServer, payload.as_slice())
}

/// Decode user joined server event payload.
/// Format: [user_id: u64 BE][username...null]
pub fn decode_user_joined_server(data: &[u8]) -> (res: Result<(u64, String), InvalidData>)
    ensures
        match user_joined_server_of(data@) {
            Ok((id, name)) => res matches Ok((i, n)) && i == id && n@ == name,
            Err(e) => res == Err::<(u64, String), InvalidData>(e),
        },
{
    if data.len() < 9 {
        return Err(InvalidData { message: "user joined server payload too short" });
    }
    let user_id = read_u64_be(data, 0);
    let username_end = data.len() - 1;
    if data[username_end] != 0 {
        return Err(InvalidData { message: "username not null-terminated" });
    }
    let username_bytes = slice_subrange(data, 8, username_end);
    match string_from_utf8(slice_to_vec(username_bytes)) {
        Some(username) => Ok((user_id, username)),
        None => Err(InvalidData { message: "invalid UTF-8" }),
    }
}

/// Decode user joined voice event payload.
/// Format: [user_id: u64 BE]
pub fn decode_user_joined_voice(data: &[u8]) -> (res: Result<u64, InvalidData>)
    ensures
        res == user_id_of(data@, "user joined voice payload too short"),
{
    if data.len() < 8 {
        return Err(InvalidData { message: "user joined voice payload too short" });
    }
    Ok(read_u64_be(data, 0))
}

/// Decode user left voice event payload.
/// Format: [user_id: u64 BE]
pub fn decode_user_left_voice(data: &[u8]) -> (res: Result<u64, InvalidData>)
    ensures
        res == user_id_of(data@, "user left voice payload too short"),
{
    if data.len() < 8 {
        return Err(InvalidData { message: "user left voice payload too short" });
    }
    Ok(read_u64_be(data, 0))
}

/// Decode user left server event payload.
/// Format: [user_id: u64 BE]
pub fn decode_user_left_server(data: &[u8]) -> (res: Result<u64, InvalidData>)
    ensures
        res == user_id_of(data@, "user left server payload too short"),
{
    if data.len() < 8 {
        return Err(InvalidData { message: "user left server payload too short" });
    }
    Ok(read_u64_be(data, 0))
}

/// Encode user sent message event packet.
/// Format: [packet_id: u8][payload_len: u16][user_id: u64 BE][timestamp: u64 BE][message_len: u16 BE][message...]
pub fn encode_user_sent_message(user_id: u64, timestamp: u64, message: &str) -> (out: Vec<u8>)
    ensures
        out@ == frame(
            PacketId::UserSentMessage,
            user_sent_message_payload(user_id, timestamp, message@),
        ),
{
    let mut payload: Vec<u8> = Vec::new();
    push_u64_be(&mut payload, user_id);
    push_u64_be(&mut payload, timestamp);
    let message_bytes = message.as_bytes();
    push_u16_be(&mut payload, message_bytes.len() as u16);
    push_bytes(&mut payload, message_bytes);
    serialize_packet(PacketId::UserSentMessage, payload.as_slice())
}

/// Decode user sent message event payload.
/// Format: [user_id: u64 BE][timestamp: u64 BE][message_len: u16 BE][message...]
pub fn decode_user_sent_message(data: &[u8]) -> (res: Result<(u64, u64, String), InvalidData>)
    ensures
        match user_sent_message_of(data@) {
            Ok((id, ts, msg)) => res matches Ok((i, t, m)) && i == id && t == ts && m@ == msg,
            Err(e) => res == Err::<(u64, u64, String), InvalidData>(e),
        },
{
    if data.len() < 18 {
        return Err(InvalidData { message: "user sent message payload too short" });
    }
    let user_id = read_u64_be(data, 0);
    let timestamp = read_u64_be(data, 8);
    let message_len = read_u16_be(data, 16) as usize;
    if data.len() - 18 < message_len {
        return Err(InvalidData { message: "incomplete message in user sent message event" });
    }
    let bytes = slice_subrange(data, 18, 18 + message_len);
    match string_from_utf8(slice_to_vec(bytes)) {
        Some(message) => Ok((user_id, timestamp, message)),
        None => Err(InvalidData { message: "invalid UTF-8 in message" }),
    }
}

/// The payload of an encoded user-joined-server event decodes to its id and name.
pub proof fn lemma_user_joined_server_roundtrip(user_id: u64, username: Seq<char>)
    ensures
        ({
            let f = frame(PacketId::UserJoinedServer, user_joined_server_payload(user_id, username));
            user_joined_server_of(f.subrange(3, f.len() as int)) == Ok::<
                (u64, Seq<char>),
                InvalidData,
            >((user_id, username))
        }),
{
    let d = user_joined_server_payload(user_id, username);
    lemma_frame_parts(PacketId::UserJoinedServer, d);
    assert(d.subrange(0, 8) =~= u64_be(user_id));
    assert(d.subrange(8, d.len() - 1) =~= utf8(username));
    lemma_u64_roundtrip(user_id);
    lemma_utf8_roundtrip(username);
}

/// The payload of an encoded id-only event decodes to the id.
pub proof fn lemma_user_id_roundtrip(id: PacketId, user_id: u64, too_short: &'static str)
    ensures
        ({
            let f = frame(id, u64_be(user_id));
            user_id_of(f.subrange(3, f.len() as int), too_short) == Ok::<u64, InvalidData>(user_id)
        }),
{
    lemma_frame_parts(id, u64_be(user_id));
    assert(u64_be(user_id).subrange(0, 8) =~= u64_be(user_id));
    lemma_u64_roundtrip(user_id);
}

/// The payload of an encoded chat event decodes to its id, timestamp and
/// message, when the message length fits its `u16` field.
pub proof fn lemma_user_sent_message_roundtrip(user_id: u64, timestamp: u64, message: Seq<char>)
    requires
        utf8(message).len() <= u16::MAX,
    ensures
        ({
            let f = frame(
                PacketId::UserSentMessage,
                user_sent_message_payload(user_id, timestamp, message),
            );
            user_sent_message_of(f.subrange(3, f.len() as int)) == Ok::<
                (u64, u64, Seq<char>),
                InvalidData,
            >((user_id, timestamp, message))
        }),
{
    let d = user_sent_message_payload(user_id, timestamp, message);
    let n = utf8(message).len() as int;
    lemma_frame_parts(PacketId::UserSentMessage, d);
    assert(d.subrange(0, 8) =~= u64_be(user_id));
    assert(d.subrange(8, 16) =~= u64_be(timestamp));
    assert(d.subrange(16, 18) =~= u16_be(n as u16));
    lemma_u64_roundtrip(user_id);
    lemma_u64_roundtrip(timestamp);
    lemma_u16_roundtrip(n as u16);
    assert(d.subrange(18, 18 + n) =~= utf8(message));
    lemma_utf8_roundtrip(message);
}

} // verus!
