use voiceapp::protocol::error::{decimal_text, hex_text, ProtocolError};
use voiceapp::protocol::events::ParticipantInfo as EventParticipant;
use voiceapp::protocol::events::{
    decode_user_joined_server,
    decode_user_joined_voice,
    decode_user_left_server,
    decode_user_left_voice,
    decode_user_sent_message,
    encode_user_joined_server,
    encode_user_joined_voice,
    encode_user_left_server,
    encode_user_left_voice,
    encode_user_sent_message,
};
use voiceapp::protocol::io::reader::Reader;
use voiceapp::protocol::io::writer::Writer;
use voiceapp::protocol::packet::Packet;
use voiceapp::protocol::packet_id::{serialize_packet, PacketId};
use voiceapp::protocol::requests::{
    decode_chat_message_request,
    decode_login_request,
    decode_voice_auth_request,
    decode_voice_data,
    encode_chat_message_request,
    encode_join_voice_channel_request,
    encode_leave_voice_channel_request,
    encode_login_request,
    encode_voice_auth_request,
    encode_voice_data,
    VoiceData,
};
use voiceapp::protocol::responses::{
    decode_join_voice_channel_response,
    decode_leave_voice_channel_response,
    decode_login_response,
    decode_voice_auth_response,
    encode_join_voice_channel_response,
    encode_leave_voice_channel_response,
    encode_login_response,
    encode_voice_auth_response,
};

#[test]
fn packet_id_bytes() {
    assert_eq!(PacketId::LoginRequest.as_u8(), 0x01);
    assert_eq!(PacketId::PingRequest.as_u8(), 0x06);
    assert_eq!(PacketId::LoginResponse.as_u8(), 0x21);
    assert_eq!(PacketId::PingResponse.as_u8(), 0x26);
    assert_eq!(PacketId::UserJoinedServer.as_u8(), 0x41);
    assert_eq!(PacketId::UserMuteState.as_u8(), 0x46);
    assert_eq!(PacketId::VoiceData.as_u8(), 0x61);
    assert_eq!(PacketId::from_u8(0x45), Ok(PacketId::UserSentMessage));
    assert_eq!(PacketId::from_u8(0x07), Err(ProtocolError::UnknownPacketId(0x07)));
    assert_eq!(PacketId::from_u8(0x00), Err(ProtocolError::UnknownPacketId(0x00)));
}

#[test]
fn serialized_frame_layout() {
    let frame = serialize_packet(PacketId::ChatMessageRequest, b"hey");
    assert_eq!(frame, vec![0x05, 0x00, 0x03, b'h', b'e', b'y']);
    let empty = serialize_packet(PacketId::PingRequest, &[]);
    assert_eq!(empty, vec![0x06, 0x00, 0x00]);
}

#[test]
fn writer_and_reader_agree() {
    let mut w = Writer::new();
    w.write_u8(7);
    w.write_u16(0x1234);
    w.write_u32(0xDEADBEEF);
    w.write_u64(u64::MAX);
    w.write_bool(true);
    w.write_string("héllo");
    let bytes = w.into_vec();
    assert_eq!(&bytes[0..3], &[7, 0x12, 0x34]);
    let mut r = Reader::new(&bytes);
    assert_eq!(r.read_u8(), Ok(7));
    assert_eq!(r.read_u16(), Ok(0x1234));
    assert_eq!(r.read_u32(), Ok(0xDEADBEEF));
    assert_eq!(r.read_u64(), Ok(u64::MAX));
    assert_eq!(r.read_bool(), Ok(true));
    assert_eq!(r.read_string(), Ok("héllo".to_string()));
    assert_eq!(r.remaining().len(), 0);
    assert_eq!(r.position(), bytes.len());
}

#[test]
fn reader_reports_short_input() {
    let data = [0x01, 0x02];
    let mut r = Reader::new(&data);
    assert_eq!(r.read_u32(), Err(ProtocolError::PacketTooShort { expected: 4, got: 2 }));
    assert_eq!(r.position(), 0);
    let bad = [0x00, 0x02, 0xFF, 0xFE];
    let mut r = Reader::new(&bad);
    assert_eq!(r.read_string(), Err(ProtocolError::InvalidUtf8));
}

#[test]
fn writer_backpatches_reserved_length() {
    let mut w = Writer::new();
    w.write_u8(9);
    let at = w.reserve_u16();
    w.write_bytes(&[1, 2, 3]);
    w.write_u16_at(at, 3);
    assert_eq!(w.position(), 6);
    assert_eq!(w.into_vec(), vec![9, 0, 3, 1, 2, 3]);
}

#[test]
fn packet_decode_errors() {
    assert_eq!(
        Packet::decode(&[0x01, 0x00]),
        Err(ProtocolError::PacketTooShort { expected: 3, got: 2 })
    );
    assert_eq!(Packet::decode(&[0x7F, 0x00, 0x00]), Err(ProtocolError::UnknownPacketId(0x7F)));
    assert_eq!(
        Packet::decode(&[0x06, 0x00, 0x08, 0x00]),
        Err(ProtocolError::IncompletePayload { expected: 8, got: 1 })
    );
}

#[test]
fn packet_decode_leaves_following_bytes() {
    let p = Packet::PingRequest { request_id: 77 };
    let mut bytes = p.encode();
    let len = bytes.len();
    bytes.extend_from_slice(&[0xAA, 0xBB]);
    let (decoded, used) = Packet::decode(&bytes).expect("decode failed");
    assert_eq!(decoded, p);
    assert_eq!(used, len);
    assert_eq!(p.id(), 0x06);
    assert_eq!(p.request_id(), Some(77));
    let event = Packet::UserLeftVoice { user_id: 5 };
    assert_eq!(event.request_id(), None);
    assert_eq!(event.id(), 0x43);
}

#[test]
fn event_roundtrips() {
    let frame = encode_user_joined_server(42, "zoë");
    assert_eq!(frame[0], 0x41);
    assert_eq!(decode_user_joined_server(&frame[3..]).unwrap(), (42, "zoë".to_string()));
    assert_eq!(decode_user_joined_voice(&encode_user_joined_voice(7)[3..]).unwrap(), 7);
    assert_eq!(decode_user_left_voice(&encode_user_left_voice(8)[3..]).unwrap(), 8);
    assert_eq!(decode_user_left_server(&encode_user_left_server(9)[3..]).unwrap(), 9);
    let msg = encode_user_sent_message(3, 1_700_000_000_000, "hi there");
    assert_eq!(
        decode_user_sent_message(&msg[3..]).unwrap(),
        (3, 1_700_000_000_000, "hi there".to_string())
    );
}

#[test]
fn event_decode_errors() {
    assert!(decode_user_joined_server(&[0, 0, 0]).is_err());
    assert!(decode_user_joined_server(&[0, 0, 0, 0, 0, 0, 0, 1, b'a']).is_err());
    assert!(decode_user_joined_voice(&[1, 2, 3]).is_err());
    assert!(decode_user_sent_message(&[0; 10]).is_err());
}

#[test]
fn request_roundtrips() {
    let login = encode_login_request("alice");
    assert_eq!(login[0], 0x01);
    assert_eq!(decode_login_request(&login[3..]).unwrap(), "alice");
    assert_eq!(encode_join_voice_channel_request(), vec![0x02, 0, 0]);
    assert_eq!(encode_leave_voice_channel_request(), vec![0x04, 0, 0]);
    let auth = encode_voice_auth_request(0x0102030405060708);
    assert_eq!(decode_voice_auth_request(&auth[3..]).unwrap(), 0x0102030405060708);
    let vd = VoiceData { sequence: 5, timestamp: 4800, ssrc: 99, opus_frame: vec![1, 2, 3] };
    let frame = encode_voice_data(&vd);
    let back = decode_voice_data(&frame[3..]).unwrap();
    assert_eq!(back.sequence, 5);
    assert_eq!(back.timestamp, 4800);
    assert_eq!(back.ssrc, 99);
    assert_eq!(back.opus_frame, vec![1, 2, 3]);
    let chat = encode_chat_message_request("hello");
    assert_eq!(decode_chat_message_request(&chat[3..]).unwrap(), "hello");
}

#[test]
fn response_roundtrips() {
    let participants = vec![
        EventParticipant { user_id: 1, username: "a".to_string(), in_voice: true },
        EventParticipant { user_id: 2, username: "bee".to_string(), in_voice: false },
    ];
    let frame = encode_login_response(10, 20, &participants);
    assert_eq!(frame[0], 0x21);
    let back = decode_login_response(&frame[3..]).unwrap();
    assert_eq!(back.id, 10);
    assert_eq!(back.voice_token, 20);
    assert_eq!(back.participants, participants);
    assert!(decode_voice_auth_response(&encode_voice_auth_response(true)[3..]).unwrap());
    assert!(!decode_join_voice_channel_response(&encode_join_voice_channel_response(false)[3..]).unwrap());
    assert!(decode_leave_voice_channel_response(&encode_leave_voice_channel_response(true)[3..]).unwrap());
    assert!(decode_voice_auth_response(&[]).is_err());
}

#[test]
fn protocol_error_messages() {
    assert_eq!(
        ProtocolError::PacketTooShort { expected: 3, got: 0 }.message(),
        "packet too short: expected at least 3 bytes, got 0"
    );
    assert_eq!(ProtocolError::UnknownPacketId(0x0a).message(), "unknown packet id: 0x0a");
    assert_eq!(ProtocolError::UnknownPacketId(0xff).message(), "unknown packet id: 0xff");
    assert_eq!(ProtocolError::InvalidUtf8.message(), "invalid UTF-8 encoding");
    assert_eq!(
        ProtocolError::IncompletePayload { expected: 1024, got: 17 }.message(),
        "incomplete payload: expected 1024 bytes, got 17"
    );
}

#[test]
fn decimal_and_hex_text() {
    assert_eq!(decimal_text(0), "0");
    assert_eq!(decimal_text(7), "7");
    assert_eq!(decimal_text(10), "10");
    assert_eq!(decimal_text(65535), "65535");
    assert_eq!(decimal_text(usize::MAX), usize::MAX.to_string());
    assert_eq!(hex_text(0), "00");
    assert_eq!(hex_text(0x5c), "5c");
}

#[test]
fn reader_position_stays_within_data() {
    let data = [0x00, 0x05, b'a', 0x01, 0x02];
    let mut r = Reader::new(&data);
    assert_eq!(r.position(), 0);
    assert_eq!(r.remaining(), &data[..]);
    assert!(r.read_string().is_err());
    assert!(r.position() <= data.len());
    assert_eq!(r.remaining(), &data[r.position()..]);
    assert_eq!(r.read_u8(), Ok(b'a'));
    assert!(r.read_u64().is_err());
    assert_eq!(r.remaining(), &data[r.position()..]);
    assert_eq!(r.remaining().len(), data.len() - r.position());
}
