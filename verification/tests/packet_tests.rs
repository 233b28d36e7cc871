use voiceapp::protocol::packet::{Packet, ParticipantInfo};

fn roundtrip(packet: Packet) {
    let encoded = packet.encode();
    let (decoded, size) = Packet::decode(&encoded).expect("decode failed");
    assert_eq!(packet, decoded);
    assert_eq!(encoded.len(), size);
}

#[test]
fn roundtrip_string_encoding() {
    roundtrip(Packet::LoginRequest {
        request_id: 1,
        username: "alice".to_string(),
    });
}

#[test]
fn roundtrip_u64_encoding() {
    roundtrip(Packet::VoiceAuthRequest {
        request_id: 2,
        voice_token: 0x1234567890ABCDEF,
    });
}

#[test]
fn roundtrip_empty_payload() {
    roundtrip(Packet::JoinVoiceChannelRequest { request_id: 3 });
}

#[test]
fn roundtrip_bool_encoding() {
    roundtrip(Packet::VoiceAuthResponse {
        request_id: 4,
        success: true,
    });
    roundtrip(Packet::VoiceAuthResponse {
        request_id: 5,
        success: false,
    });
}

#[test]
fn roundtrip_struct_with_list() {
    roundtrip(Packet::LoginResponse {
        request_id: 6,
        id: 42,
        voice_token: 0xDEADBEEF,
        participants: vec![
            ParticipantInfo::new(1, "alice".to_string(), true, false),
            ParticipantInfo::new(2, "bob".to_string(), false, true),
        ],
    });
}

#[test]
fn roundtrip_multiple_strings() {
    roundtrip(Packet::UserSentMessage {
        user_id: 111,
        timestamp: 0xDEADBEEF,
        message: "Test message".to_string(),
    });
}

#[test]
fn roundtrip_binary_data() {
    roundtrip(Packet::VoiceData {
        user_id: 222,
        sequence: 1000,
        timestamp: 48000,
        data: vec![0x12, 0x34, 0x56, 0x78, 0x90, 0xAB, 0xCD, 0xEF],
    });
}

#[test]
fn roundtrip_empty_string() {
    roundtrip(Packet::LoginRequest {
        request_id: 7,
        username: String::new(),
    });
}

#[test]
fn roundtrip_unicode_string() {
    roundtrip(Packet::UserSentMessage {
        user_id: 1,
        timestamp: 0xDEADBEEF,
        message: "用户🎉 Привет мир! 🌍".to_string(),
    });
}

#[test]
fn roundtrip_empty_list() {
    roundtrip(Packet::LoginResponse {
        request_id: 8,
        id: 1,
        voice_token: 123,
        participants: vec![],
    });
}

#[test]
fn roundtrip_large_binary_data() {
    roundtrip(Packet::VoiceData {
        user_id: 1,
        sequence: 0,
        timestamp: 0,
        data: vec![0xFF; 1024],
    });
}
