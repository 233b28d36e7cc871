use voiceapp::client::audio::{check_device_rate, stream_config_at_target};
use voiceapp::client::commands::{console_action, ConsoleAction, UserCommand};
use voiceapp::frontend::audio::{SampleFormat, StreamChoice, StreamConfigRange};
use voiceapp::client::jitter_buffer::{JitterBuffer, MAX_AHEAD, MAX_SKIP};
use voiceapp::client::udp_voice_receiver::{RouteOutcome, VoiceRouter, JITTER_DEPTH};
use voiceapp::client::user_voice_stream::UserVoiceStreamManager;
use voiceapp::client::voice::{FrameSequencer, OPUS_FRAME_SAMPLES};
use voiceapp::common::{username_to_ssrc, VoicePacket};

#[test]
fn user_command_keywords() {
    assert!(matches!(UserCommand::parse("join"), Some(UserCommand::Join)));
    assert!(matches!(UserCommand::parse("leave"), Some(UserCommand::Leave)));
    assert!(matches!(UserCommand::parse("  JOIN \n"), Some(UserCommand::Join)));
    assert!(matches!(UserCommand::parse("\tLeAvE"), Some(UserCommand::Leave)));
    assert!(UserCommand::parse("help").is_none());
    assert!(UserCommand::parse("").is_none());
    assert!(UserCommand::parse("join now").is_none());
    assert!(matches!(UserCommand::from_keyword(&"join".to_string()), Some(UserCommand::Join)));
    assert!(UserCommand::from_keyword(&"JOIN".to_string()).is_none());
}

#[test]
fn console_lines_answered() {
    assert!(matches!(console_action(" Join"), ConsoleAction::Join));
    assert!(matches!(console_action("LEAVE\n"), ConsoleAction::Leave));
    assert!(matches!(console_action("help"), ConsoleAction::WarnUnknown));
    assert!(matches!(console_action("  \t"), ConsoleAction::Ignore));
    assert!(matches!(console_action(""), ConsoleAction::Ignore));
}

#[test]
fn sequencer_takes_ssrc_from_name() {
    let a = FrameSequencer::new("alice");
    let b = FrameSequencer::new("bob");
    assert_eq!(a.ssrc, username_to_ssrc("alice"));
    assert_eq!(b.ssrc, username_to_ssrc("bob"));
    assert_ne!(a.ssrc, b.ssrc);
    assert_eq!(a.sequence, 0);
    assert_eq!(a.timestamp, 0);
    assert_eq!(a.buffered, 0);
}

#[test]
fn sequencer_numbers_frames() {
    let mut s = FrameSequencer::new("test_user");
    s.add_samples(2400);
    let mut packets = Vec::new();
    while s.has_full_frame() {
        s.take_frame();
        packets.push(s.frame_packet(vec![packets.len() as u8]));
    }
    assert_eq!(packets.len(), 2);
    assert_eq!(packets[0].sequence, 0);
    assert_eq!(packets[1].sequence, 1);
    assert_eq!(packets[0].timestamp, 0);
    assert_eq!(packets[1].timestamp, 960);
    assert_eq!(s.buffered, 2400 - 2 * OPUS_FRAME_SAMPLES);
    assert!(s.take_remainder());
    let last = s.remainder_packet(vec![9]);
    assert_eq!(last.sequence, 2);
    assert_eq!(last.timestamp, 1920);
    assert_eq!(s.sequence, 2);
    assert!(!s.take_remainder());
}

#[test]
fn sequencer_wraps_counters() {
    let mut s = FrameSequencer::new("test_user");
    s.sequence = u32::MAX;
    s.timestamp = u32::MAX - 100;
    let p1 = s.frame_packet(vec![]);
    let p2 = s.frame_packet(vec![]);
    assert_eq!(p1.sequence, u32::MAX);
    assert_eq!(p2.sequence, 0);
    assert_eq!(p2.timestamp, 859);
}

fn datagram(seq: u32, ssrc: u32, frame: &[u8]) -> Vec<u8> {
    VoicePacket::new(seq, seq.wrapping_mul(960), ssrc, frame.to_vec()).encode().unwrap()
}

#[test]
fn router_delivers_registered_user() {
    let mut r = VoiceRouter::new();
    let ssrc = username_to_ssrc("alice");
    r.register_user(ssrc, "alice".to_string());
    assert_eq!(r.user_of(ssrc), Some(&"alice".to_string()));
    match r.route(&datagram(5, ssrc, &[1, 2])) {
        RouteOutcome::Ready { username, packet } => {
            assert_eq!(username, "alice");
            assert_eq!(packet.sequence, 5);
            assert_eq!(packet.opus_frame, vec![1, 2]);
        }
        other => panic!("unexpected {:?}", other),
    }
    assert!(matches!(r.route(&datagram(7, ssrc, &[3])), RouteOutcome::Buffered { .. }));
    match r.route(&datagram(6, ssrc, &[4])) {
        RouteOutcome::Ready { packet, .. } => assert_eq!(packet.sequence, 6),
        other => panic!("unexpected {:?}", other),
    }
}

#[test]
fn router_reports_unknown_and_invalid() {
    let mut r = VoiceRouter::new();
    match r.route(&datagram(1, 1234, &[])) {
        RouteOutcome::UnknownSsrc { ssrc, sequence, .. } => {
            assert_eq!(ssrc, 1234);
            assert_eq!(sequence, 1);
        }
        other => panic!("unexpected {:?}", other),
    }
    assert!(matches!(r.route(&[1, 2, 3]), RouteOutcome::Invalid(_)));
    let ssrc = username_to_ssrc("bob");
    r.register_user(ssrc, "bob".to_string());
    r.unregister_user(ssrc);
    assert_eq!(r.user_of(ssrc), None);
    assert!(matches!(r.route(&datagram(1, ssrc, &[])), RouteOutcome::UnknownSsrc { .. }));
}

#[test]
fn router_reregistering_resets_buffer() {
    let mut r = VoiceRouter::new();
    r.register_user(10, "carol".to_string());
    assert!(matches!(r.route(&datagram(100, 10, &[])), RouteOutcome::Ready { .. }));
    r.register_user(10, "carol".to_string());
    match r.route(&datagram(3, 10, &[])) {
        RouteOutcome::Ready { packet, .. } => assert_eq!(packet.sequence, 3),
        other => panic!("unexpected {:?}", other),
    }
    assert_eq!(JITTER_DEPTH, 30);
}

#[test]
fn stream_manager_registry() {
    let mut m: UserVoiceStreamManager<u32> = UserVoiceStreamManager::new();
    assert_eq!(m.register_sender("alice".to_string(), 1), Ok(()));
    assert_eq!(
        m.register_sender("alice".to_string(), 2),
        Err("Sender for alice already exists".to_string())
    );
    assert_eq!(m.sender("alice"), Ok(&1));
    assert_eq!(m.sender("bob"), Err("No sender found for bob".to_string()));
    assert_eq!(m.unregister_sender("alice"), Ok(()));
    assert_eq!(m.unregister_sender("alice"), Err("No sender found for alice".to_string()));
    assert_eq!(
        UserVoiceStreamManager::<u32>::send_failed("dave"),
        "Failed to send packet to dave"
    );
}

#[test]
fn jitter_expected_packet_delivered_at_once() {
    let mut jb = JitterBuffer::new(5);
    let ssrc = username_to_ssrc("x");
    for seq in 40..50u32 {
        let p = jb.insert(VoicePacket::new(seq, 0, ssrc, vec![seq as u8])).expect("ready");
        assert_eq!(p.sequence, seq);
        assert_eq!(jb.next_sequence(), seq + 1);
    }
    assert_eq!(jb.buffered_count(), 0);
}

#[test]
fn jitter_old_and_repeated_packets_dropped() {
    let mut jb = JitterBuffer::new(5);
    let ssrc = 1;
    assert!(jb.insert(VoicePacket::new(500, 0, ssrc, vec![])).is_some());
    assert!(jb.insert(VoicePacket::new(500, 0, ssrc, vec![])).is_none());
    assert!(jb.insert(VoicePacket::new(10, 0, ssrc, vec![])).is_none());
    assert!(jb.insert(VoicePacket::new(501 + MAX_AHEAD + 1, 0, ssrc, vec![])).is_none());
    assert_eq!(jb.next_sequence(), 501);
    assert_eq!(jb.buffered_count(), 0);
}

#[test]
fn jitter_skips_small_gap_when_full() {
    let mut jb = JitterBuffer::new(2);
    assert!(jb.insert(VoicePacket::new(0, 0, 1, vec![])).is_some());
    assert!(jb.insert(VoicePacket::new(3, 0, 1, vec![])).is_none());
    assert!(jb.insert(VoicePacket::new(4, 0, 1, vec![])).is_none());
    let p = jb.insert(VoicePacket::new(5, 0, 1, vec![])).expect("skipped ahead");
    assert_eq!(p.sequence, 3);
    assert_eq!(jb.next_sequence(), 4);
    assert_eq!(jb.next_available().map(|p| p.sequence), Some(4));
    assert_eq!(jb.next_available().map(|p| p.sequence), Some(5));
    assert!(jb.next_available().is_none());
}

#[test]
fn jitter_clears_on_large_gap_when_full() {
    let mut jb = JitterBuffer::new(1);
    assert!(jb.insert(VoicePacket::new(0, 0, 1, vec![])).is_some());
    let far = 1 + MAX_SKIP + 5;
    assert!(jb.insert(VoicePacket::new(far, 0, 1, vec![])).is_none());
    assert!(jb.insert(VoicePacket::new(far + 1, 0, 1, vec![])).is_none());
    assert_eq!(jb.buffered_count(), 0);
    assert_eq!(jb.next_sequence(), 1);
    jb.clear();
    assert_eq!(jb.buffered_count(), 0);
}

#[test]
fn jitter_sequence_wraps_around() {
    let mut jb = JitterBuffer::new(4);
    assert!(jb.insert(VoicePacket::new(u32::MAX - 1, 0, 1, vec![])).is_some());
    assert!(jb.insert(VoicePacket::new(0, 0, 1, vec![])).is_none());
    assert_eq!(jb.insert(VoicePacket::new(u32::MAX, 0, 1, vec![])).map(|p| p.sequence), Some(u32::MAX));
    assert_eq!(jb.next_sequence(), 0);
    assert_eq!(jb.next_available().map(|p| p.sequence), Some(0));
    assert_eq!(jb.next_sequence(), 1);
}

#[test]
fn jitter_restarts_after_wrapping_to_zero_empty() {
    let mut jb = JitterBuffer::new(4);
    assert!(jb.insert(VoicePacket::new(u32::MAX, 0, 1, vec![])).is_some());
    assert_eq!(jb.next_sequence(), 0);
    assert_eq!(jb.insert(VoicePacket::new(7, 0, 1, vec![])).map(|p| p.sequence), Some(7));
    assert_eq!(jb.next_sequence(), 8);
}

#[test]
fn client_stream_config_at_target() {
    let range = |channels: u16, min: u32, max: u32, f: SampleFormat| StreamConfigRange {
        channels,
        min_sample_rate: min,
        max_sample_rate: max,
        sample_format: f,
    };
    let cs = vec![range(2, 8000, 48000, SampleFormat::I16), range(1, 48000, 48000, SampleFormat::F32)];
    assert_eq!(check_device_rate(&cs), Ok(()));
    assert_eq!(
        stream_config_at_target(&cs),
        Ok(StreamChoice { sample_rate: 48000, sample_format: SampleFormat::F32, channels: 1 })
    );
    let cs = vec![range(2, 8000, 44100, SampleFormat::F32), range(2, 8000, 96000, SampleFormat::I16)];
    assert_eq!(
        stream_config_at_target(&cs),
        Ok(StreamChoice { sample_rate: 48000, sample_format: SampleFormat::I16, channels: 2 })
    );
    let cs = vec![range(2, 8000, 44100, SampleFormat::F32)];
    assert_eq!(
        check_device_rate(&cs),
        Err("Device does not support 48000 Hz sample rate".to_string())
    );
    assert_eq!(
        stream_config_at_target(&cs),
        Err("Device does not support 48kHz sample rate".to_string())
    );
}

#[test]
fn jitter_never_holds_more_than_depth() {
    let mut jb = JitterBuffer::new(3);
    let seqs = [10u32, 14, 13, 12, 16, 20, 18, 17, 25, 11, 30, 29];
    for &s in seqs.iter() {
        let before = jb.buffered_count();
        match jb.insert(VoicePacket::new(s, 0, 1, vec![])) {
            Some(q) => {
                assert_eq!(jb.next_sequence(), q.sequence.wrapping_add(1));
                assert!(jb.buffered_count() <= before);
            }
            None => assert!(jb.buffered_count() <= before + 1),
        }
        assert!(jb.buffered_count() <= 3);
    }
    while let Some(q) = jb.next_available() {
        assert_eq!(jb.next_sequence(), q.sequence.wrapping_add(1));
        assert!(jb.buffered_count() <= 3);
    }
}
