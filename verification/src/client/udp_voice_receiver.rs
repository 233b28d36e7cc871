//! The routing of incoming voice datagrams: each is decoded, its SSRC
//! names the user it comes from, and it passes through that user's jitter
//! buffer, which hands out the packets ready to be played.  The socket and
//! the playback channels are the front end's.
use crate::client::jitter_buffer::{
    insert_step,
    lemma_expected_packet_delivered,
    valid,
    JitterBuffer,
    JitterState,
};
use crate::common::{voice_packet_of, VoicePacket};
use crate::wire::InvalidData;
use std::collections::HashMap;
use vstd::prelude::*;

verus! {

/// The depth of each user's jitter buffer, in packets.
pub const JITTER_DEPTH: usize = 30;

/// What became of a datagram.
#[derive(Debug)]
pub enum RouteOutcome {
    /// A packet of `username` is ready to be played.
    Ready { username: String, packet: VoicePacket },
    /// The packet waits in `username`'s jitter buffer, or was dropped by it.
    Buffered { username: String },
    /// `username` has no jitter buffer; the packet is dropped.
    NoJitterBuffer { username: String },
    /// No user has this SSRC; the packet is dropped.
    UnknownSsrc { ssrc: u32, sequence: u32, timestamp: u32 },
    /// The datagram is not a voice packet.
    Invalid(InvalidData),
}

pub enum RouteView {
    Ready { username: Seq<char>, packet: VoicePacket },
    Buffered { username: Seq<char> },
    NoJitterBuffer { username: Seq<char> },
    UnknownSsrc { ssrc: u32, sequence: u32, timestamp: u32 },
    Invalid(InvalidData),
}

impl View for RouteOutcome {
    type V = RouteView;

    open spec fn view(&self) -> RouteView {
        match self {
            RouteOutcome::Ready { username, packet } => RouteView::Ready {
                username: username@,
                packet: *packet,
            },
            RouteOutcome::Buffered { username } => RouteView::Buffered { username: username@ },
            RouteOutcome::NoJitterBuffer { username } => RouteView::NoJitterBuffer {
                username: username@,
            },
            RouteOutcome::UnknownSsrc { ssrc, sequence, timestamp } => RouteView::UnknownSsrc {
                ssrc: *ssrc,
                sequence: *sequence,
                timestamp: *timestamp,
            },
            RouteOutcome::Invalid(e) => RouteView::Invalid(*e),
        }
    }
}

/// Routes voice datagrams to the users they come from.
pub struct VoiceRouter {
    ssrc_map: HashMap<u32, String>,
    /// Kept as a list of (name, value) entries with distinct names rather
    /// than a `HashMap<String, _>`: that map form was tried, and Verus proved
    /// neither that a lookup finds a key the map holds nor the map's size
    /// after an insert, since its specification of std maps covers no
    /// `String` key.
    jitter_buffers: Vec<(String, JitterBuffer)>,
}

/// The state of the router: the user of each SSRC, and each user's jitter
/// buffer.
pub struct RouterView {
    pub users: Map<u32, Seq<char>>,
    pub buffers: Seq<(Seq<char>, JitterState)>,
}

impl View for VoiceRouter {
    type V = RouterView;

    closed spec fn view(&self) -> RouterView {
        RouterView {
            users: self.ssrc_map@.map_values(|n: String| n@),
            buffers: self.jitter_buffers@.map_values(|e: (String, JitterBuffer)| (e.0@, e.1@)),
        }
    }
}

/// No user has two jitter buffers, and each buffer is valid.
pub open spec fn router_valid(v: RouterView) -> bool {
    &&& forall|a: int, b: int| 0 <= a < b < v.buffers.len() ==> v.buffers[a].0 != v.buffers[b].0
    &&& forall|i: int| 0 <= i < v.buffers.len() ==> valid(#[trigger] v.buffers[i].1)
}

/// `name` has a jitter buffer.
pub open spec fn has_buffer(buffers: Seq<(Seq<char>, JitterState)>, name: Seq<char>) -> bool {
    exists|j: int| 0 <= j < buffers.len() && buffers[j].0 == name
}

/// Where `name`'s jitter buffer is.
pub open spec fn buffer_pos(buffers: Seq<(Seq<char>, JitterState)>, name: Seq<char>) -> int {
    choose|j: int| 0 <= j < buffers.len() && buffers[j].0 == name
}

/// A new, empty jitter buffer.
pub open spec fn fresh_buffer() -> JitterState {
    JitterState { packets: Map::empty(), next_seq: 0, max_depth: JITTER_DEPTH }
}

/// Routing a decoded packet: through the jitter buffer of the user its SSRC
/// belongs to, if that user has one.
pub open spec fn route_packet(v: RouterView, p: VoicePacket) -> (RouterView, RouteView) {
    if !v.users.contains_key(p.ssrc) {
        (v, RouteView::UnknownSsrc { ssrc: p.ssrc, sequence: p.sequence, timestamp: p.timestamp })
    } else {
        let name = v.users[p.ssrc];
        if !has_buffer(v.buffers, name) {
            (v, RouteView::NoJitterBuffer { username: name })
        } else {
            let i = buffer_pos(v.buffers, name);
            let (jitter, ready) = insert_step(v.buffers[i].1, p);
            (
                RouterView { buffers: v.buffers.update(i, (name, jitter)), ..v },
                match ready {
                    Some(q) => RouteView::Ready { username: name, packet: q },
                    None => RouteView::Buffered { username: name },
                },
            )
        }
    }
}

/// The packet `p` holds the fields decoded from a datagram.
pub open spec fn decoded_as(p: VoicePacket, fields: (u32, u32, u32, Seq<u8>)) -> bool {
    p.sequence == fields.0 && p.timestamp == fields.1 && p.ssrc == fields.2 && p.opus_frame@
        == fields.3
}

/// Registering a user: its SSRC names it, and it gets a new jitter buffer in
/// place of any it had.
pub open spec fn registered(v: RouterView, ssrc: u32, name: Seq<char>) -> RouterView {
    RouterView {
        users: v.users.insert(ssrc, name),
        buffers: if has_buffer(v.buffers, name) {
            v.buffers.update(buffer_pos(v.buffers, name), (name, fresh_buffer()))
        } else {
            v.buffers.push((name, fresh_buffer()))
        },
    }
}

/// Unregistering an SSRC: it names no user any more, and the user it named
/// loses its jitter buffer.
pub open spec fn unregistered(v: RouterView, ssrc: u32) -> RouterView {
    if v.users.contains_key(ssrc) {
        let name = v.users[ssrc];
        RouterView {
            users: v.users.remove(ssrc),
            buffers: if has_buffer(v.buffers, name) {
                v.buffers.remove(buffer_pos(v.buffers, name))
            } else {
                v.buffers
            },
        }
    } else {
        v
    }
}

/// A packet of a registered user that carries the sequence number that
/// user's buffer expects is ready at once.
pub proof fn lemma_expected_packet_ready(v: RouterView, p: VoicePacket)
    requires
        router_valid(v),
        v.users.contains_key(p.ssrc),
        has_buffer(v.buffers, v.users[p.ssrc]),
        p.sequence == v.buffers[buffer_pos(v.buffers, v.users[p.ssrc])].1.next_seq,
    ensures
        route_packet(v, p).1 == (RouteView::Ready { username: v.users[p.ssrc], packet: p }),
{
    let i = buffer_pos(v.buffers, v.users[p.ssrc]);
    lemma_expected_packet_delivered(v.buffers[i].1, p);
}

/// The first packet of a user just registered is ready at once, whatever
/// its sequence number.
pub proof fn lemma_first_packet_after_register(v: RouterView, name: Seq<char>, p: VoicePacket)
    requires
        router_valid(v),
    ensures
        route_packet(registered(v, p.ssrc, name), p).1 == (RouteView::Ready {
            username: name,
            packet: p,
        }),
{
    let w = registered(v, p.ssrc, name);
    assert(has_buffer(w.buffers, name)) by {
        if has_buffer(v.buffers, name) {
            assert(w.buffers[buffer_pos(v.buffers, name)].0 == name);
        } else {
            assert(w.buffers[v.buffers.len() as int].0 == name);
        }
    }
    let i = buffer_pos(w.buffers, name);
    assert(w.buffers[i].1 == fresh_buffer()) by {
        if has_buffer(v.buffers, name) {
            let k = buffer_pos(v.buffers, name);
            if i != k {
                assert(w.buffers[i] == v.buffers[i]);
                assert(v.buffers[i].0 == v.buffers[k].0);
            }
        } else {
            if i != v.buffers.len() {
                assert(w.buffers[i] == v.buffers[i]);
            }
        }
    }
    lemma_expected_packet_delivered(fresh_buffer(), VoicePacket { sequence: 0, ..p });
    assert(insert_step(fresh_buffer(), p).1 == Some(p)) by {
        assert(fresh_buffer().packets.insert(p.sequence, p).remove(p.sequence) =~= Map::empty());
    }
}

/// Packets from an SSRC that names no user, as after it is unregistered,
/// are reported and leave the router as it was.
pub proof fn lemma_unknown_ssrc_dropped(v: RouterView, p: VoicePacket)
    ensures
        !v.users.contains_key(p.ssrc) ==> route_packet(v, p) == (
            v,
            RouteView::UnknownSsrc { ssrc: p.ssrc, sequence: p.sequence, timestamp: p.timestamp },
        ),
        !unregistered(v, p.ssrc).users.contains_key(p.ssrc),
{
}

impl VoiceRouter {
    pub fn new() -> (r: Self)
        ensures
            r@.users == Map::<u32, Seq<char>>::empty(),
            r@.buffers == Seq::<(Seq<char>, JitterState)>::empty(),
            router_valid(r@),
    {
        let r = VoiceRouter { ssrc_map: HashMap::new(), jitter_buffers: Vec::new() };
        assert(r@.users =~= Map::<u32, Seq<char>>::empty());
        assert(r@.buffers =~= Seq::<(Seq<char>, JitterState)>::empty());
        r
    }

    /// Where `name`'s jitter buffer is, if it has one.
    fn find_buffer(&self, name: &String) -> (r: Option<usize>)
        requires
            router_valid(self@),
        ensures
            match r {
                Some(j) => j < self@.buffers.len() && has_buffer(self@.buffers, name@) && j
                    == buffer_pos(self@.buffers, name@),
                None => !has_buffer(self@.buffers, name@),
            },
    {
        let ghost h = self@.buffers;
        let mut j: usize = 0;
        while j < self.jitter_buffers.len()
            invariant
                h == self@.buffers,
                router_valid(self@),
                j <= h.len(),
                h.len() == self.jitter_buffers@.len(),
                forall|k: int| 0 <= k < j ==> h[k].0 != name@,
            decreases self.jitter_buffers.len() - j,
        {
            assert(h[j as int].0 == self.jitter_buffers@[j as int].0@);
            if self.jitter_buffers[j].0 == *name {
                proof {
                    let p = buffer_pos(h, name@);
                    assert(has_buffer(h, name@));
                    assert(p == j) by {
                        if p < j {
                            assert(h[p].0 != name@);
                        } else if p > j {
                            assert(h[j as int].0 != h[p].0);
                        }
                    }
                }
                return Some(j);
            }
            j = j + 1;
        }
        None
    }

    /// Register a user with their SSRC
    pub fn register_user(&mut self, ssrc: u32, username: String)
        requires
            router_valid(old(self)@),
        ensures
            final(self)@ == registered(old(self)@, ssrc, username@),
            router_valid(final(self)@),
    {
        let ghost before = self@;
        self.ssrc_map.insert(ssrc, username.clone());
        assert(self@.users =~= before.users.insert(ssrc, username@));
        assert(self@.buffers =~= before.buffers);
        let jb = JitterBuffer::new(JITTER_DEPTH);
        match self.find_buffer(&username) {
            Some(j) => {
                self.jitter_buffers.set(j, (username, jb));
            },
            None => {
                self.jitter_buffers.push((username, jb));
            },
        }
        assert(self@.buffers =~= registered(before, ssrc, username@).buffers);
    }

    /// Unregister a user by SSRC
    pub fn unregister_user(&mut self, ssrc: u32)
        requires
            router_valid(old(self)@),
        ensures
            final(self)@ == unregistered(old(self)@, ssrc),
            router_valid(final(self)@),
    {
        let ghost before = self@;
        match self.ssrc_map.remove(&ssrc) {
            Some(username) => {
                assert(self@.users =~= before.users.remove(ssrc));
                assert(self@.buffers =~= before.buffers);
                match self.find_buffer(&username) {
                    Some(j) => {
                        self.jitter_buffers.remove(j);
                        assert(self@.buffers =~= before.buffers.remove(j as int));
                    },
                    None => {},
                }
            },
            None => {
                assert(self@.users =~= before.users);
            },
        }
    }

    /// The user an SSRC belongs to, if any.
    pub fn user_of(&self, ssrc: u32) -> (name: Option<&String>)
        ensures
            match name {
                Some(n) => self@.users.contains_key(ssrc) && n@ == self@.users[ssrc],
                None => !self@.users.contains_key(ssrc),
            },
    {
        self.ssrc_map.get(&ssrc)
    }

    /// Route a decoded packet.
    pub fn route_packet(&mut self, packet: VoicePacket) -> (r: RouteOutcome)
        requires
            router_valid(old(self)@),
        ensures
            (final(self)@, r@) == route_packet(old(self)@, packet),
            router_valid(final(self)@),
    {
        let ghost before = self@;
        let username = match self.ssrc_map.get(&packet.ssrc) {
            Some(name) => name.clone(),
            None => {
                return RouteOutcome::UnknownSsrc {
                    ssrc: packet.ssrc,
                    sequence: packet.sequence,
                    timestamp: packet.timestamp,
                };
            },
        };
        match self.find_buffer(&username) {
            Some(j) => {
                let (name, mut jb) = self.jitter_buffers.remove(j);
                let ready = jb.insert(packet);
                self.jitter_buffers.insert(j, (name, jb));
                assert(self@.buffers =~= before.buffers.update(
                    j as int,
                    (username@, insert_step(before.buffers[j as int].1, packet).0),
                ));
                match ready {
                    Some(p) => RouteOutcome::Ready { username, packet: p },
                    None => RouteOutcome::Buffered { username },
                }
            },
            None => RouteOutcome::NoJitterBuffer { username },
        }
    }

    /// Route a datagram: decode it, then route the packet.
    pub fn route(&mut self, datagram: &[u8]) -> (r: RouteOutcome)
        requires
            router_valid(old(self)@),
        ensures
            router_valid(final(self)@),
            match voice_packet_of(datagram@) {
                Ok(fields) => exists|p: VoicePacket|
                    decoded_as(p, fields) && (final(self)@, r@) == route_packet(old(self)@, p),
                Err(e) => r@ == RouteView::Invalid(e) && final(self)@ == old(self)@,
            },
    {
        match VoicePacket::decode(datagram) {
            Ok((packet, _)) => {
                let ghost p = packet;
                let r = self.route_packet(packet);
                assert(decoded_as(p, voice_packet_of(datagram@)->Ok_0));
                r
            },
            Err(e) => RouteOutcome::Invalid(e),
        }
    }
}

} // verus!
