//! Reordering buffer for incoming voice packets.
//!
//! Packets are keyed by their sequence number.  The buffer hands them out in
//! sequence order, holds back packets that arrive early, drops packets that
//! are too far behind, and when it holds more than its depth it skips ahead to
//! the oldest buffered packet (or forgets everything when that gap is too large).
use crate::common::VoicePacket;
use std::collections::BTreeMap;
use vstd::prelude::*;
use vstd::std_specs::iter::IteratorSpec;
use vstd::wrapping::u32_specs::{wrapping_add, wrapping_sub};

verus! {

/// A packet whose sequence number is more than this far ahead of the expected
/// one (counted with wrap-around) is taken to be an old packet and dropped.
pub const MAX_AHEAD: u32 = 100000;

/// The largest gap the buffer skips over when it is full.
pub const MAX_SKIP: u32 = 1000;

/// Jitter buffer for reordering and buffering voice packets
/// Handles out-of-order packet arrival and triggers packet loss concealment
pub struct JitterBuffer {
    buffer: BTreeMap<u32, VoicePacket>,
    next_seq: u32,
    max_depth: usize,
}

/// The abstract state of a jitter buffer: the buffered packets by sequence
/// number, the next sequence number expected, and the configured depth.
pub struct JitterState {
    pub packets: Map<u32, VoicePacket>,
    pub next_seq: u32,
    pub max_depth: usize,
}

impl View for JitterBuffer {
    type V = JitterState;

    closed spec fn view(&self) -> JitterState {
        JitterState { packets: self.buffer@, next_seq: self.next_seq, max_depth: self.max_depth }
    }
}

/// Every buffered packet is stored under its own sequence number, and the
/// buffer holds at most its depth of packets.
pub open spec fn valid(s: JitterState) -> bool {
    &&& s.packets.dom().finite()
    &&& forall|k: u32| #[trigger] s.packets.contains_key(k) ==> s.packets[k].sequence == k
    &&& s.packets.len() <= s.max_depth
}

/// The smallest buffered sequence number.
pub open spec fn first_seq(m: Map<u32, VoicePacket>) -> u32 {
    choose|k: u32| m.contains_key(k) && forall|j: u32| #[trigger] m.contains_key(j) ==> k <= j
}

/// One attempt to hand out a packet: the expected one if it is buffered;
/// otherwise, when the buffer holds more than its depth, the oldest buffered
/// packet if it is at most `MAX_SKIP` ahead, or nothing, with the buffer emptied.
pub open spec fn decode_step(s: JitterState) -> (JitterState, Option<VoicePacket>) {
    if s.packets.contains_key(s.next_seq) {
        (
            JitterState {
                packets: s.packets.remove(s.next_seq),
                next_seq: wrapping_add(s.next_seq, 1),
                max_depth: s.max_depth,
            },
            Some(s.packets[s.next_seq]),
        )
    } else if s.packets.len() > s.max_depth {
        let first = first_seq(s.packets);
        if wrapping_sub(first, s.next_seq) <= MAX_SKIP {
            (
                JitterState {
                    packets: s.packets.remove(first),
                    next_seq: wrapping_add(first, 1),
                    max_depth: s.max_depth,
                },
                Some(s.packets[first]),
            )
        } else {
            (
                JitterState { packets: Map::empty(), next_seq: s.next_seq, max_depth: s.max_depth },
                None,
            )
        }
    } else {
        (s, None)
    }
}

/// The next sequence expected once `p` arrives: an empty buffer that has
/// never started takes the sequence of its first packet.
pub open spec fn start_seq(s: JitterState, p: VoicePacket) -> u32 {
    if s.packets.is_empty() && s.next_seq == 0 {
        p.sequence
    } else {
        s.next_seq
    }
}

/// Inserting a packet: a packet more than `MAX_AHEAD` ahead of the expected
/// sequence is dropped; any other is buffered, and one decode step follows.
pub open spec fn insert_step(s: JitterState, p: VoicePacket) -> (JitterState, Option<VoicePacket>) {
    let next = start_seq(s, p);
    if wrapping_sub(p.sequence, next) > MAX_AHEAD {
        (JitterState { packets: s.packets, next_seq: next, max_depth: s.max_depth }, None)
    } else {
        decode_step(
            JitterState {
                packets: s.packets.insert(p.sequence, p),
                next_seq: next,
                max_depth: s.max_depth,
            },
        )
    }
}

impl JitterBuffer {
    /// Create a new jitter buffer with configurable maximum depth
    /// max_depth: Maximum number of packets to buffer before dropping oldest
    pub fn new(max_depth: usize) -> (jb: Self)
        ensures
            jb@.packets == Map::<u32, VoicePacket>::empty(),
            jb@.next_seq == 0,
            jb@.max_depth == max_depth,
            valid(jb@),
    {
        JitterBuffer { buffer: BTreeMap::new(), next_seq: 0, max_depth }
    }

    /// The smallest sequence number in a non-empty buffer.
    fn first_buffered(&self) -> (k: u32)
        requires
            self@.packets.len() > 0,
            self@.packets.dom().finite(),
        ensures
            k == first_seq(self@.packets),
            self@.packets.contains_key(k),
    {
        let ghost m = self.buffer@;
        let mut best: u32 = 0;
        let mut found = false;
        for k in it: self.buffer.keys()
            invariant
                m == self.buffer@,
                it.seq().unref().to_set() == m.dom(),
                found <==> it.index() > 0,
                found ==> m.contains_key(best),
                forall|i: int| 0 <= i < it.index() ==> best <= *it.seq()[i],
            ensures
                found ==> m.contains_key(best),
                forall|j: u32| #[trigger] m.contains_key(j) ==> found && best <= j,
        {
            proof {
                assert(it.seq().unref()[it.index()] == *k);
                assert(it.seq().unref().to_set().contains(*k));
            }
            if !found || *k < best {
                best = *k;
            }
            found = true;
        }
        proof {
            lemma_first_seq(m);
        }
        best
    }

    /// Hand out the expected packet if it is buffered.
    fn take_expected(&mut self) -> (r: Option<VoicePacket>)
        ensures
            old(self)@.packets.contains_key(old(self)@.next_seq) ==> (final(self)@, r) == decode_step(
                old(self)@,
            ),
            !old(self)@.packets.contains_key(old(self)@.next_seq) ==> r is None && final(self)@
                == old(self)@,
    {
        let key = self.next_seq;
        let removed = self.buffer.remove(&key);
        match removed {
            Some(packet) => {
                self.next_seq = self.next_seq.wrapping_add(1);
                Some(packet)
            },
            None => {
                assert(self.buffer@ =~= old(self).buffer@);
                None
            },
        }
    }

    /// Try to decode the next packet in sequence
    /// Returns the first packet in sequence (caller may want to call again to get more)
    fn try_decode_next(&mut self) -> (r: Option<VoicePacket>)
        requires
            old(self)@.packets.dom().finite(),
            forall|k: u32| #[trigger]
                old(self)@.packets.contains_key(k) ==> old(self)@.packets[k].sequence == k,
        ensures
            (final(self)@, r) == decode_step(old(self)@),
    {
        let packet = self.take_expected();
        if packet.is_some() {
            return packet;
        }
        if self.buffer.len() > self.max_depth {
            let next_available = self.first_buffered();
            let gap = next_available.wrapping_sub(self.next_seq);
            if gap <= MAX_SKIP {
                self.next_seq = next_available;
                return self.take_expected();
            } else {
                self.buffer.clear();
            }
        }
        None
    }

    /// Insert a packet into the buffer
    /// Returns Some(packet) if this completes a sequence and packet is ready to decode
    /// Returns None if packet is buffered waiting for earlier packets
    pub fn insert(&mut self, packet: VoicePacket) -> (r: Option<VoicePacket>)
        requires
            valid(old(self)@),
        ensures
            (final(self)@, r) == insert_step(old(self)@, packet),
            valid(final(self)@),
    {
        let seq = packet.sequence;
        let ghost next = start_seq(old(self)@, packet);

        // Initialize next_seq on first packet
        if self.buffer.is_empty() && self.next_seq == 0 {
            self.next_seq = seq;
        }
        // Check if packet is too old (already decoded or very far behind)
        // Use wrapping subtraction to handle sequence number wrap-around
        let diff = seq.wrapping_sub(self.next_seq);
        if diff > MAX_AHEAD {
            assert(self@.packets == old(self)@.packets && self.next_seq == next);
            return None;
        }
        self.buffer.insert(seq, packet);
        let r = self.try_decode_next();
        proof {
            lemma_decode_step_valid(
                JitterState {
                    packets: old(self)@.packets.insert(seq, packet),
                    next_seq: next,
                    max_depth: old(self)@.max_depth,
                },
            );
        }
        r
    }

    /// Check if there are more packets available to decode
    /// Call this after insert() returns Some to get any buffered packets that are now in sequence
    pub fn next_available(&mut self) -> (r: Option<VoicePacket>)
        requires
            valid(old(self)@),
        ensures
            (final(self)@, r) == decode_step(old(self)@),
            valid(final(self)@),
    {
        let r = self.try_decode_next();
        proof {
            lemma_decode_step_valid(old(self)@);
        }
        r
    }

    /// Get the next sequence number expected
    pub fn next_sequence(&self) -> (n: u32)
        ensures
            n == self@.next_seq,
    {
        self.next_seq
    }

    /// Get number of packets currently buffered: never more than the depth
    /// the buffer was made with.
    pub fn buffered_count(&self) -> (n: usize)
        requires
            valid(self@),
        ensures
            n == self@.packets.len(),
            n <= self@.max_depth,
    {
        self.buffer.len()
    }

    /// Clear the buffer (useful on stream reset)
    pub fn clear(&mut self)
        requires
            valid(old(self)@),
        ensures
            final(self)@.packets == Map::<u32, VoicePacket>::empty(),
            final(self)@.next_seq == old(self)@.next_seq,
            final(self)@.max_depth == old(self)@.max_depth,
            valid(final(self)@),
    {
        self.buffer.clear();
    }
}

/// The packet the buffer expects is handed out as soon as it arrives, and
/// the expected sequence moves one past it.
pub proof fn lemma_expected_packet_delivered(s: JitterState, p: VoicePacket)
    requires
        valid(s),
        p.sequence == s.next_seq,
    ensures
        insert_step(s, p) == (
            JitterState {
                packets: s.packets.remove(p.sequence),
                next_seq: wrapping_add(p.sequence, 1),
                max_depth: s.max_depth,
            },
            Some(p),
        ),
{
    assert(s.packets.insert(p.sequence, p).remove(p.sequence) =~= s.packets.remove(p.sequence));
}

/// Once the buffer has started, a packet more than `MAX_AHEAD` ahead of the
/// expected sequence is dropped and the buffer is left as it was.
pub proof fn lemma_old_packet_dropped(s: JitterState, p: VoicePacket)
    requires
        !(s.packets.is_empty() && s.next_seq == 0),
        wrapping_sub(p.sequence, s.next_seq) > MAX_AHEAD,
    ensures
        insert_step(s, p) == (s, None::<VoicePacket>),
{
}

/// Once the buffer has started, a packet that arrives again right after it
/// was handed out is dropped and the buffer is left as it was.
pub proof fn lemma_repeated_packet_dropped(s: JitterState, p: VoicePacket)
    requires
        !(s.packets.is_empty() && s.next_seq == 0),
        s.next_seq == wrapping_add(p.sequence, 1),
    ensures
        insert_step(s, p) == (s, None::<VoicePacket>),
{
}

/// Whenever a decode step hands out a packet, the packet leaves the buffer
/// and the expected sequence is the one right after it.
pub proof fn lemma_decode_step_advances(s: JitterState)
    requires
        valid(s),
    ensures
        decode_step(s).1 matches Some(q) ==> decode_step(s).0.next_seq == wrapping_add(q.sequence, 1)
            && !decode_step(s).0.packets.contains_key(q.sequence) && s.packets.contains_key(
            q.sequence,
        ) && s.packets[q.sequence] == q,
{
    if !s.packets.contains_key(s.next_seq) && s.packets.len() > s.max_depth {
        lemma_first_seq(s.packets);
    }
}

/// Whenever an insertion hands out a packet, the packet is not buffered
/// afterwards, the expected sequence is the one right after it, and the
/// buffer holds no more packets than before; an insertion that hands out
/// nothing adds at most the one packet inserted.
pub proof fn lemma_insert_step_advances(s: JitterState, p: VoicePacket)
    requires
        valid(s),
    ensures
        insert_step(s, p).1 matches Some(q) ==> insert_step(s, p).0.next_seq == wrapping_add(
            q.sequence,
            1,
        ) && !insert_step(s, p).0.packets.contains_key(q.sequence) && insert_step(s, p).0.packets.len()
            <= s.packets.len(),
        insert_step(s, p).1 is None ==> insert_step(s, p).0.packets.len() <= s.packets.len() + 1,
{
    let t = JitterState {
        packets: s.packets.insert(p.sequence, p),
        next_seq: start_seq(s, p),
        max_depth: s.max_depth,
    };
    if t.packets.len() > t.max_depth && !t.packets.contains_key(t.next_seq) {
        lemma_first_seq(t.packets);
    }
}

/// A decode step that hands out nothing leaves the buffer without the
/// packet it expects: no packet is held back once it is due.
pub proof fn lemma_nothing_withheld(s: JitterState)
    requires
        valid(s),
    ensures
        decode_step(s).1 is None ==> !decode_step(s).0.packets.contains_key(decode_step(s).0.next_seq),
{
}

/// A finite, non-empty set of sequence numbers has a smallest element.
proof fn lemma_least_seq(s: Set<u32>) -> (k: u32)
    requires
        s.finite(),
        s.len() > 0,
    ensures
        s.contains(k),
        forall|j: u32| #[trigger] s.contains(j) ==> k <= j,
    decreases s.len(),
{
    let x = s.choose();
    let rest = s.remove(x);
    if rest.len() == 0 {
        assert forall|j: u32| #[trigger] s.contains(j) implies x <= j by {
            if j != x {
                assert(rest.contains(j));
            }
        }
        x
    } else {
        let m = lemma_least_seq(rest);
        if x <= m {
            assert forall|j: u32| #[trigger] s.contains(j) implies x <= j by {
                if j != x {
                    assert(rest.contains(j));
                }
            }
            x
        } else {
            assert forall|j: u32| #[trigger] s.contains(j) implies m <= j by {
                if j != x {
                    assert(rest.contains(j));
                }
            }
            m
        }
    }
}

/// A finite, non-empty buffer holds its first sequence number, and no
/// buffered sequence number is smaller.
proof fn lemma_first_seq(m: Map<u32, VoicePacket>)
    requires
        m.dom().finite(),
        m.len() > 0,
    ensures
        m.contains_key(first_seq(m)),
        forall|j: u32| #[trigger] m.contains_key(j) ==> first_seq(m) <= j,
{
    let k = lemma_least_seq(m.dom());
    assert(m.contains_key(k) && forall|j: u32| #[trigger] m.contains_key(j) ==> k <= j);
}

/// A decode step on a buffer that holds at most one packet more than its
/// depth, each under its own sequence number, leaves a valid buffer.
proof fn lemma_decode_step_valid(s: JitterState)
    requires
        s.packets.dom().finite(),
        forall|k: u32| #[trigger] s.packets.contains_key(k) ==> s.packets[k].sequence == k,
        s.packets.len() <= s.max_depth + 1,
    ensures
        valid(decode_step(s).0),
{
    if s.packets.contains_key(s.next_seq) {
    } else if s.packets.len() > s.max_depth {
        lemma_first_seq(s.packets);
    }
}

} // verus!
