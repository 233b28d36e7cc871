use voiceapp::common::{
    decode_participant_list,
    decode_username,
    decode_username_with_ssrc,
    decode_username_with_udp_port,
    decode_voice_token,
    encode_participant_list,
    encode_username,
    encode_username_with_ssrc,
    encode_username_with_udp_port,
    encode_voice_token,
    username_to_ssrc,
    PacketTypeId,
    TcpPacket,
    UdpAuthPacket,
    UdpAuthResponse,
    VoicePacket,
    PROTOCOL_VERSION,
};

#[test]
fn test_packet_type_id_conversions() {
    assert_eq!(PacketTypeId::Login.as_u8(), 0x01);
    assert_eq!(PacketTypeId::LoginResponse.as_u8(), 0x02);
    assert_eq!(PacketTypeId::UserJoinedServer.as_u8(), 0x03);
    assert_eq!(PacketTypeId::JoinVoiceChannel.as_u8(), 0x04);
    assert_eq!(PacketTypeId::UserJoinedVoice.as_u8(), 0x05);
    assert_eq!(PacketTypeId::UserLeftVoice.as_u8(), 0x06);
    assert_eq!(PacketTypeId::UserLeftServer.as_u8(), 0x07);
    assert_eq!(PacketTypeId::ServerParticipantList.as_u8(), 0x08);

    assert_eq!(PacketTypeId::from_u8(0x01), Some(PacketTypeId::Login));
    assert_eq!(PacketTypeId::from_u8(0x02), Some(PacketTypeId::LoginResponse));
    assert_eq!(PacketTypeId::from_u8(0x06), Some(PacketTypeId::UserLeftVoice));
    assert_eq!(PacketTypeId::from_u8(0x07), Some(PacketTypeId::UserLeftServer));
    assert_eq!(PacketTypeId::from_u8(0x08), Some(PacketTypeId::ServerParticipantList));
    assert_eq!(PacketTypeId::from_u8(0xFF), None);
}

#[test]
fn test_encode_decode_tcp_packet_login() {
    let username = "alice";
    let payload = encode_username(username);
    let packet = TcpPacket::new(PacketTypeId::Login, payload);

    let encoded = packet.encode().expect("encode failed");
    let (decoded, bytes_read) = TcpPacket::decode(&encoded).expect("decode failed");

    assert_eq!(packet, decoded);
    assert_eq!(bytes_read, encoded.len());
}

#[test]
fn test_encode_decode_tcp_packet_user_joined() {
    let username = "bob";
    let payload = encode_username(username);
    let packet = TcpPacket::new(PacketTypeId::UserJoinedServer, payload);

    let encoded = packet.encode().expect("encode failed");
    let (decoded, bytes_read) = TcpPacket::decode(&encoded).expect("decode failed");

    assert_eq!(packet, decoded);
    assert_eq!(bytes_read, encoded.len());
}

#[test]
fn test_encode_decode_tcp_packet_join_voice() {
    let username = "charlie";
    let payload = encode_username(username);
    let packet = TcpPacket::new(PacketTypeId::JoinVoiceChannel, payload);

    let encoded = packet.encode().expect("encode failed");
    let (decoded, bytes_read) = TcpPacket::decode(&encoded).expect("decode failed");

    assert_eq!(packet, decoded);
    assert_eq!(bytes_read, encoded.len());
}

#[test]
fn test_encode_decode_tcp_packet_user_left_voice() {
    let username = "charlie";
    let payload = encode_username(username);
    let packet = TcpPacket::new(PacketTypeId::UserLeftVoice, payload);

    let encoded = packet.encode().expect("encode failed");
    let (decoded, bytes_read) = TcpPacket::decode(&encoded).expect("decode failed");

    assert_eq!(packet, decoded);
    assert_eq!(bytes_read, encoded.len());
}

#[test]
fn test_encode_decode_tcp_packet_user_left_server() {
    let username = "dave";
    let payload = encode_username(username);
    let packet = TcpPacket::new(PacketTypeId::UserLeftServer, payload);

    let encoded = packet.encode().expect("encode failed");
    let (decoded, bytes_read) = TcpPacket::decode(&encoded).expect("decode failed");

    assert_eq!(packet, decoded);
    assert_eq!(bytes_read, encoded.len());
}

#[test]
fn test_encode_decode_tcp_packet_empty_payload() {
    let packet = TcpPacket::new(PacketTypeId::UserLeftServer, vec![]);

    let encoded = packet.encode().expect("encode failed");
    let (decoded, bytes_read) = TcpPacket::decode(&encoded).expect("decode failed");

    assert_eq!(packet, decoded);
    assert_eq!(bytes_read, encoded.len());
}

#[test]
fn test_decode_tcp_packet_too_short() {
    let data = vec![PROTOCOL_VERSION, 0x01];
    let result = TcpPacket::decode(&data);
    assert!(result.is_err());
}

#[test]
fn test_decode_tcp_packet_bad_version() {
    let data = vec![PROTOCOL_VERSION + 1, 0, 0, 0, 0, 0x01, 0, 0];
    let result = TcpPacket::decode(&data);
    assert!(result.is_err());
}

#[test]
fn test_decode_tcp_packet_unknown_type() {
    let mut data = vec![PROTOCOL_VERSION];
    data.extend_from_slice(&42u32.to_be_bytes()); // packet_id
    data.push(0xFF); // unknown packet type
    data.extend_from_slice(&0u16.to_be_bytes()); // payload_len
    let result = TcpPacket::decode(&data);
    assert!(result.is_err());
}

#[test]
fn test_decode_tcp_packet_incomplete_payload() {
    let mut data = vec![PROTOCOL_VERSION];
    data.extend_from_slice(&42u32.to_be_bytes()); // packet_id
    data.push(0x01); // packet type
    data.extend_from_slice(&100u16.to_be_bytes()); // payload_len claims 100 bytes
    data.extend_from_slice(b"only_10"); // but only 7 bytes provided
    let result = TcpPacket::decode(&data);
    assert!(result.is_err());
}

#[test]
fn test_encode_decode_username() {
    let username = "test_user";
    let encoded = encode_username(username);
    let decoded = decode_username(&encoded).expect("decode failed");
    assert_eq!(decoded, username);
}

#[test]
fn test_decode_username_not_null_terminated() {
    let data = b"no_null".to_vec();
    let result = decode_username(&data);
    assert!(result.is_err());
}

#[test]
fn test_decode_username_empty() {
    let result = decode_username(&[]);
    assert!(result.is_err());
}

#[test]
fn test_decode_username_invalid_utf8() {
    let mut data = vec![0xFF, 0xFE];
    data.push(0); // null terminator
    let result = decode_username(&data);
    assert!(result.is_err());
}

#[test]
fn test_encode_decode_username_with_ssrc() {
    let username = "alice";
    let ssrc = 12345u32;
    let encoded = encode_username_with_ssrc(username, ssrc).expect("encode failed");
    let (decoded_username, decoded_ssrc) = decode_username_with_ssrc(&encoded).expect("decode failed");
    assert_eq!(decoded_username, username);
    assert_eq!(decoded_ssrc, ssrc);
}

#[test]
fn test_encode_decode_username_with_ssrc_max_values() {
    let username = "very_long_username_with_special_chars_こんにちは";
    let ssrc = u32::MAX;
    let encoded = encode_username_with_ssrc(username, ssrc).expect("encode failed");
    let (decoded_username, decoded_ssrc) = decode_username_with_ssrc(&encoded).expect("decode failed");
    assert_eq!(decoded_username, username);
    assert_eq!(decoded_ssrc, ssrc);
}

#[test]
fn test_decode_username_with_ssrc_too_short() {
    let data = vec![0x61, 0x62, 0x63]; // "abc" without SSRC
    let result = decode_username_with_ssrc(&data);
    assert!(result.is_err());
}

#[test]
fn test_decode_username_with_ssrc_not_null_terminated() {
    let mut data = vec![0x61, 0x62, 0x63]; // "abc" without null terminator
    data.extend_from_slice(&123u32.to_be_bytes());
    let result = decode_username_with_ssrc(&data);
    assert!(result.is_err());
}

#[test]
fn test_encode_decode_participant_list_single() {
    let usernames = vec!["alice"];
    let encoded = encode_participant_list(&usernames).expect("encode failed");
    let decoded = decode_participant_list(&encoded).expect("decode failed");
    assert_eq!(decoded, usernames);
}

#[test]
fn test_encode_decode_participant_list_multiple() {
    let usernames = vec!["alice", "bob", "charlie"];
    let encoded = encode_participant_list(&usernames).expect("encode failed");
    let decoded = decode_participant_list(&encoded).expect("decode failed");
    assert_eq!(decoded, usernames);
}

#[test]
fn test_encode_decode_participant_list_empty() {
    let usernames: Vec<&str> = vec![];
    let encoded = encode_participant_list(&usernames).expect("encode failed");
    let decoded = decode_participant_list(&encoded).expect("decode failed");
    assert_eq!(decoded, usernames);
}

#[test]
fn test_decode_participant_list_too_short() {
    let data = vec![0x01]; // says 1 participant but no data
    let result = decode_participant_list(&data);
    assert!(result.is_err());
}

#[test]
fn test_decode_participant_list_incomplete() {
    let mut data = vec![0x00, 0x02]; // 2 participants
    data.extend_from_slice(b"alice\0"); // first participant
    // missing second participant
    let result = decode_participant_list(&data);
    assert!(result.is_err());
}

#[test]
fn test_encode_decode_voice_packet() {
    let opus_frame = vec![0xAB, 0xCD, 0xEF, 0x12, 0x34];
    let ssrc = username_to_ssrc("alice");
    let packet = VoicePacket::new(42, 1000, ssrc, opus_frame.clone());

    let encoded = packet.encode().expect("encode failed");
    let (decoded, bytes_read) = VoicePacket::decode(&encoded).expect("decode failed");

    assert_eq!(decoded.sequence, 42);
    assert_eq!(decoded.timestamp, 1000);
    assert_eq!(decoded.ssrc, ssrc);
    assert_eq!(decoded.opus_frame, opus_frame);
    assert_eq!(bytes_read, encoded.len());
}

#[test]
fn test_encode_decode_voice_packet_empty_opus() {
    let ssrc = username_to_ssrc("bob");
    let packet = VoicePacket::new(1, 2, ssrc, vec![]);

    let encoded = packet.encode().expect("encode failed");
    let (decoded, bytes_read) = VoicePacket::decode(&encoded).expect("decode failed");

    assert_eq!(decoded.sequence, 1);
    assert_eq!(decoded.timestamp, 2);
    assert_eq!(decoded.ssrc, ssrc);
    assert_eq!(decoded.opus_frame.len(), 0);
    assert_eq!(bytes_read, encoded.len());
}

#[test]
fn test_encode_decode_voice_packet_large_opus() {
    let opus_frame = vec![0x42; 1200]; // 1200 bytes of data
    let ssrc = username_to_ssrc("charlie");
    let packet = VoicePacket::new(999, 88888, ssrc, opus_frame.clone());

    let encoded = packet.encode().expect("encode failed");
    let (decoded, bytes_read) = VoicePacket::decode(&encoded).expect("decode failed");

    assert_eq!(decoded.sequence, 999);
    assert_eq!(decoded.timestamp, 88888);
    assert_eq!(decoded.ssrc, ssrc);
    assert_eq!(decoded.opus_frame, opus_frame);
    assert_eq!(bytes_read, encoded.len());
}

#[test]
fn test_decode_voice_packet_too_short() {
    let data = vec![PROTOCOL_VERSION, 0, 0, 0];
    let result = VoicePacket::decode(&data);
    assert!(result.is_err());
}

#[test]
fn test_decode_voice_packet_bad_version() {
    let mut data = vec![PROTOCOL_VERSION + 1];
    data.extend_from_slice(&0u32.to_be_bytes()); // sequence
    data.extend_from_slice(&0u32.to_be_bytes()); // timestamp
    data.extend_from_slice(&0u32.to_be_bytes()); // ssrc
    let result = VoicePacket::decode(&data);
    assert!(result.is_err());
}

#[test]
fn test_tcp_packet_format_example() {
    // Demonstrate the binary format with a known example
    let packet = TcpPacket::new(PacketTypeId::Login, b"user".to_vec());
    let encoded = packet.encode().expect("encode failed");

    // Format: [version(1)][packet_type(1)][payload_len(2)][payload(4)]
    // = 1 + 1 + 2 + 4 = 8 bytes
    assert_eq!(encoded.len(), 8);

    // Check header bytes
    assert_eq!(encoded[0], PROTOCOL_VERSION); // version
    assert_eq!(encoded[1], 0x01); // packet_type (Login)
    assert_eq!(&encoded[2..4], &4u16.to_be_bytes()); // payload_len
    assert_eq!(&encoded[4..], b"user"); // payload
}

#[test]
fn test_voice_packet_format_example() {
    // Demonstrate the binary format with a known example
    let opus = b"frame".to_vec();
    let ssrc = 0xAABBCCDD;
    let packet = VoicePacket::new(0x11223344, 0x55667788, ssrc, opus);
    let encoded = packet.encode().expect("encode failed");

    // Format: [version(1)][sequence(4)][timestamp(4)][ssrc(4)][opus_frame(5)]
    // = 1 + 4 + 4 + 4 + 5 = 18 bytes
    assert_eq!(encoded.len(), 18);

    // Check header bytes
    assert_eq!(encoded[0], PROTOCOL_VERSION); // version
    assert_eq!(&encoded[1..5], &0x11223344u32.to_be_bytes()); // sequence
    assert_eq!(&encoded[5..9], &0x55667788u32.to_be_bytes()); // timestamp
    assert_eq!(&encoded[9..13], &0xAABBCCDDu32.to_be_bytes()); // ssrc
    assert_eq!(&encoded[13..], b"frame"); // opus_frame
}

#[test]
fn test_encode_decode_username_with_udp_port() {
    let username = "alice";
    let port = 12345u16;

    let encoded = encode_username_with_udp_port(username, port).expect("encode failed");
    let (decoded_username, decoded_port) = decode_username_with_udp_port(&encoded).expect("decode failed");

    assert_eq!(decoded_username, username);
    assert_eq!(decoded_port, port);
}

#[test]
fn test_encode_decode_username_with_udp_port_various() {
    // Test with various port numbers
    let test_cases = vec![
        ("alice", 0u16),
        ("bob", 65535u16),
        ("charlie", 9002u16),
        ("diana", 54321u16),
    ];

    for (username, port) in test_cases {
        let encoded = encode_username_with_udp_port(username, port).expect("encode failed");
        let (decoded_username, decoded_port) = decode_username_with_udp_port(&encoded).expect("decode failed");

        assert_eq!(decoded_username, username);
        assert_eq!(decoded_port, port);
    }
}

#[test]
fn test_decode_username_with_udp_port_too_short() {
    let data = vec![0x61, 0x62, 0x63]; // "abc" with null term but missing port
    let result = decode_username_with_udp_port(&data);
    assert!(result.is_err());
}

#[test]
fn test_decode_username_with_udp_port_not_null_terminated() {
    let mut data = vec![0x61, 0x62, 0x63]; // "abc" without null terminator
    data.extend_from_slice(&12345u16.to_be_bytes());
    let result = decode_username_with_udp_port(&data);
    assert!(result.is_err());
}

#[test]
fn test_encode_decode_udp_auth_packet() {
    let token = 0x0123456789ABCDEFu64;
    let username = "alice";
    let packet = UdpAuthPacket::new(token, username.to_string());

    let encoded = packet.encode().expect("encode failed");
    let (decoded, bytes_read) = UdpAuthPacket::decode(&encoded).expect("decode failed");

    assert_eq!(decoded.token, token);
    assert_eq!(decoded.username, username);
    assert_eq!(bytes_read, encoded.len());
}

#[test]
fn test_encode_decode_udp_auth_packet_various() {
    let test_cases = vec![
        (0u64, "alice"),
        (u64::MAX, "bob"),
        (12345u64, "charlie"),
        (0x0123456789ABCDEFu64, "diana"),
    ];

    for (token, username) in test_cases {
        let packet = UdpAuthPacket::new(token, username.to_string());
        let encoded = packet.encode().expect("encode failed");
        let (decoded, _) = UdpAuthPacket::decode(&encoded).expect("decode failed");

        assert_eq!(decoded.token, token);
        assert_eq!(decoded.username, username);
    }
}

#[test]
fn test_decode_udp_auth_packet_too_short() {
    let data = vec![PROTOCOL_VERSION, 0, 0, 0, 0];
    let result = UdpAuthPacket::decode(&data);
    assert!(result.is_err());
}

#[test]
fn test_decode_udp_auth_packet_not_null_terminated() {
    let mut data = vec![PROTOCOL_VERSION];
    data.extend_from_slice(&0u64.to_be_bytes());
    data.extend_from_slice(b"alice"); // no null terminator
    let result = UdpAuthPacket::decode(&data);
    assert!(result.is_err());
}

#[test]
fn test_decode_udp_auth_packet_bad_version() {
    let mut data = vec![PROTOCOL_VERSION + 1];
    data.extend_from_slice(&0u64.to_be_bytes());
    data.extend_from_slice(b"alice\0");
    let result = UdpAuthPacket::decode(&data);
    assert!(result.is_err());
}

#[test]
fn test_encode_decode_udp_auth_response_success() {
    let response = UdpAuthResponse::new(true);
    let encoded = response.encode().expect("encode failed");
    let decoded = UdpAuthResponse::decode(&encoded).expect("decode failed");
    assert!(decoded.success);
}

#[test]
fn test_encode_decode_udp_auth_response_failure() {
    let response = UdpAuthResponse::new(false);
    let encoded = response.encode().expect("encode failed");
    let decoded = UdpAuthResponse::decode(&encoded).expect("decode failed");
    assert!(!decoded.success);
}

#[test]
fn test_decode_udp_auth_response_too_short() {
    let data = vec![PROTOCOL_VERSION];
    let result = UdpAuthResponse::decode(&data);
    assert!(result.is_err());
}

#[test]
fn test_decode_udp_auth_response_bad_version() {
    let data = vec![PROTOCOL_VERSION + 1, 1];
    let result = UdpAuthResponse::decode(&data);
    assert!(result.is_err());
}

#[test]
fn test_encode_decode_voice_token() {
    let token = 0x0123456789ABCDEFu64;
    let encoded = encode_voice_token(token).expect("encode failed");
    let decoded = decode_voice_token(&encoded).expect("decode failed");
    assert_eq!(decoded, token);
}

#[test]
fn test_encode_decode_voice_token_various() {
    let test_cases = vec![0u64, u64::MAX, 12345u64, 0x0123456789ABCDEFu64];

    for token in test_cases {
        let encoded = encode_voice_token(token).expect("encode failed");
        let decoded = decode_voice_token(&encoded).expect("decode failed");
        assert_eq!(decoded, token);
    }
}

#[test]
fn test_decode_voice_token_too_short() {
    let data = vec![0x01, 0x02, 0x03];
    let result = decode_voice_token(&data);
    assert!(result.is_err());
}

#[test]
fn test_decode_voice_token_empty() {
    let data = vec![];
    let result = decode_voice_token(&data);
    assert!(result.is_err());
}
