//! The numbering of outgoing voice frames.  Microphone samples are gathered
//! into frames of `OPUS_FRAME_SAMPLES`; each encoded frame becomes a voice
//! packet carrying the sender's SSRC, the next sequence number and the
//! timestamp of its first sample.  The samples and the Opus encoder are the
//! front end's; this type holds what the numbering reads: the SSRC, the
//! counters, and how many samples wait for a frame.
use crate::common::{fnv1a, username_to_ssrc, VoicePacket};
use crate::wire::utf8;
use vstd::prelude::*;
use vstd::wrapping::u32_specs::wrapping_add;

verus! {

/// Samples per second of the voice stream.
pub const SAMPLE_RATE: u32 = 48000;

/// Samples per Opus frame: 20 ms at 48 kHz.
pub const OPUS_FRAME_SAMPLES: usize = 960;

/// `OPUS_FRAME_SAMPLES` as a timestamp step.
pub const FRAME_TIMESTAMP_STEP: u32 = 960;

pub struct FrameSequencer {
    /// Deterministically computed from the user name.
    pub ssrc: u32,
    pub sequence: u32,
    pub timestamp: u32,
    /// The samples that wait for a frame.
    pub buffered: usize,
}

impl FrameSequencer {
    /// The numbering of the frames of `username`: its SSRC, and sequence
    /// number and timestamp zero.
    pub fn new(username: &str) -> (s: Self)
        ensures
            s.ssrc == fnv1a(utf8(username@)),
            s.sequence == 0,
            s.timestamp == 0,
            s.buffered == 0,
    {
        FrameSequencer { ssrc: username_to_ssrc(username), sequence: 0, timestamp: 0, buffered: 0 }
    }

    /// `n` more samples arrived.
    pub fn add_samples(&mut self, n: usize)
        requires
            old(self).buffered + n <= usize::MAX,
        ensures
            final(self).buffered == old(self).buffered + n,
            final(self).ssrc == old(self).ssrc,
            final(self).sequence == old(self).sequence,
            final(self).timestamp == old(self).timestamp,
    {
        self.buffered = self.buffered + n;
    }

    /// A whole frame of samples waits.
    pub fn has_full_frame(&self) -> (b: bool)
        ensures
            b == (self.buffered >= OPUS_FRAME_SAMPLES),
    {
        self.buffered >= OPUS_FRAME_SAMPLES
    }

    /// The samples of one frame are taken for encoding.
    pub fn take_frame(&mut self)
        requires
            old(self).buffered >= OPUS_FRAME_SAMPLES,
        ensures
            final(self).buffered == old(self).buffered - OPUS_FRAME_SAMPLES,
            final(self).ssrc == old(self).ssrc,
            final(self).sequence == old(self).sequence,
            final(self).timestamp == old(self).timestamp,
    {
        self.buffered = self.buffered - OPUS_FRAME_SAMPLES;
    }

    /// The packet of an encoded frame; the sequence number then moves on by
    /// one and the timestamp by a frame's samples, both wrapping around.
    pub fn frame_packet(&mut self, opus_frame: Vec<u8>) -> (p: VoicePacket)
        ensures
            p.sequence == old(self).sequence,
            p.timestamp == old(self).timestamp,
            p.ssrc == old(self).ssrc,
            p.opus_frame@ == opus_frame@,
            final(self).sequence == wrapping_add(old(self).sequence, 1),
            final(self).timestamp == wrapping_add(old(self).timestamp, FRAME_TIMESTAMP_STEP),
            final(self).ssrc == old(self).ssrc,
            final(self).buffered == old(self).buffered,
    {
        let packet = VoicePacket::new(self.sequence, self.timestamp, self.ssrc, opus_frame);
        self.sequence = self.sequence.wrapping_add(1);
        self.timestamp = self.timestamp.wrapping_add(FRAME_TIMESTAMP_STEP);
        packet
    }

    /// Flushing: whether samples wait for a frame; they are then taken, to be
    /// padded with silence to a whole frame.
    pub fn take_remainder(&mut self) -> (pending: bool)
        ensures
            pending == (old(self).buffered > 0),
            final(self).buffered == 0,
            final(self).ssrc == old(self).ssrc,
            final(self).sequence == old(self).sequence,
            final(self).timestamp == old(self).timestamp,
    {
        let pending = self.buffered > 0;
        self.buffered = 0;
        pending
    }

    /// The packet of the flushed, padded frame: it carries the current
    /// sequence number and timestamp, which do not move on.
    pub fn remainder_packet(&self, opus_frame: Vec<u8>) -> (p: VoicePacket)
        ensures
            p.sequence == self.sequence,
            p.timestamp == self.timestamp,
            p.ssrc == self.ssrc,
            p.opus_frame@ == opus_frame@,
    {
        VoicePacket::new(self.sequence, self.timestamp, self.ssrc, opus_frame)
    }
}

} // verus!
