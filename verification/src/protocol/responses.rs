//! Response packets: the login answer with the participant list, and the
//! success flags of voice authentication, joining and leaving.
use crate::protocol::events::{ParticipantEntry, ParticipantInfo};
use crate::protocol::io::writer::bool_byte;
use crate::protocol::packet_id::{frame, lemma_frame_parts, serialize_packet, PacketId};
use crate::wire::{
    be_to_u16,
    be_to_u64,
    invalid,
    lemma_u16_roundtrip,
    lemma_u64_roundtrip,
    lemma_utf8_roundtrip,
    push_bytes,
    push_u16_be,
    push_u64_be,
    read_u16_be,
    read_u64_be,
    string_from_utf8,
    u16_be,
    u64_be,
    utf8,
    InvalidData,
};
use vstd::prelude::*;
use vstd::slice::{slice_subrange, slice_to_vec};
use vstd::utf8::{decode_utf8, valid_utf8};

verus! {

/// Response to login request, contains user id, voice token, and current participants
#[derive(Debug, Clone, PartialEq, Eq)]
pub struct LoginResponse {
    pub id: u64,
    pub voice_token: u64,
    pub participants: Vec<ParticipantInfo>,
}

/// The views of a list of participants.
pub open spec fn entries_view(v: Seq<ParticipantInfo>) -> Seq<ParticipantEntry> {
    v.map_values(|p: ParticipantInfo| p@)
}

/// The bytes of one participant entry: id, name length (cast to `u16`),
/// name, voice flag.
pub open spec fn entry_bytes(p: ParticipantEntry) -> Seq<u8> {
    u64_be(p.user_id) + u16_be(utf8(p.username).len() as u16) + utf8(p.username) + seq![
        bool_byte(p.in_voice),
    ]
}

/// The bytes of a list of entries, one after the other.
pub open spec fn entries_bytes(s: Seq<ParticipantEntry>) -> Seq<u8>
    decreases s.len(),
{
    if s.len() == 0 {
        Seq::empty()
    } else {
        entry_bytes(s[0]) + entries_bytes(s.drop_first())
    }
}

/// Payload of a login response: id, token, entry count (cast to `u16`), entries.
pub open spec fn login_response_payload(id: u64, voice_token: u64, ps: Seq<ParticipantEntry>) -> Seq<u8> {
    u64_be(id) + u64_be(voice_token) + u16_be(ps.len() as u16) + entries_bytes(ps)
}

/// Reading one participant entry at `pos`.
pub open spec fn rd_entry(d: Seq<u8>, pos: int) -> Result<(ParticipantEntry, int), InvalidData> {
    if d.len() < pos + 10 {
        Err(invalid("incomplete participant entry in login response"))
    } else {
        let len = be_to_u16(d.subrange(pos + 8, pos + 10)) as int;
        let start = pos + 10;
        if d.len() < start + len + 1 {
            Err(invalid("incomplete username in participant entry"))
        } else if !valid_utf8(d.subrange(start, start + len)) {
            Err(invalid("invalid UTF-8 in username"))
        } else {
            Ok(
                (
                    ParticipantEntry {
                        user_id: be_to_u64(d.subrange(pos, pos + 8)),
                        username: decode_utf8(d.subrange(start, start + len)),
                        in_voice: d[start + len] != 0,
                    },
                    start + len + 1,
                ),
            )
        }
    }
}

/// Reading `n` entries one after the other from `pos`.
pub open spec fn rd_entries(d: Seq<u8>, pos: int, n: nat) -> Result<
    (Seq<ParticipantEntry>, int),
    InvalidData,
>
    decreases n,
{
    if n == 0 {
        Ok((Seq::empty(), pos))
    } else {
        match rd_entry(d, pos) {
            Err(e) => Err(e),
            Ok((x, q)) => match rd_entries(d, q, (n - 1) as nat) {
                Err(e) => Err(e),
                Ok((xs, r)) => Ok((seq![x] + xs, r)),
            },
        }
    }
}

/// The entries read so far, put in front of what the rest of a read gives.
pub open spec fn prepend_entries(
    acc: Seq<ParticipantEntry>,
    r: Result<(Seq<ParticipantEntry>, int), InvalidData>,
) -> Result<(Seq<ParticipantEntry>, int), InvalidData> {
    match r {
        Ok((xs, q)) => Ok((acc + xs, q)),
        Err(e) => Err(e),
    }
}

/// Decoding a login response payload: id, token, then as many entries as
/// the count says (trailing bytes are ignored).
pub open spec fn login_response_of(d: Seq<u8>) -> Result<
    (u64, u64, Seq<ParticipantEntry>),
    InvalidData,
> {
    if d.len() < 18 {
        Err(invalid("login response payload too short"))
    } else {
        match rd_entries(d, 18, be_to_u16(d.subrange(16, 18)) as nat) {
            Err(e) => Err(e),
            Ok((ps, _)) => Ok(
                (be_to_u64(d.subrange(0, 8)), be_to_u64(d.subrange(8, 16)), ps),
            ),
        }
    }
}

/// Decoding a one-byte success flag.
pub open spec fn flag_of(data: Seq<u8>, too_short: &'static str) -> Result<bool, InvalidData> {
    if data.len() == 0 {
        Err(invalid(too_short))
    } else {
        Ok(data[0] != 0)
    }
}

/// The bytes of two lists side by side are the bytes of each, side by side.
pub proof fn lemma_entries_bytes_concat(a: Seq<ParticipantEntry>, b: Seq<ParticipantEntry>)
    ensures
        entries_bytes(a + b) == entries_bytes(a) + entries_bytes(b),
    decreases a.len(),
{
    if a.len() == 0 {
        assert(a + b =~= b);
        assert(entries_bytes(a) + entries_bytes(b) =~= entries_bytes(b));
    } else {
        lemma_entries_bytes_concat(a.drop_first(), b);
        assert((a + b).drop_first() =~= a.drop_first() + b);
        assert((a + b)[0] == a[0]);
        assert(entries_bytes(a + b) =~= entry_bytes(a[0]) + (entries_bytes(a.drop_first())
            + entries_bytes(b)));
    }
}

/// Appending one entry to a list appends its bytes.
pub proof fn lemma_entries_bytes_push(a: Seq<ParticipantEntry>, x: ParticipantEntry)
    ensures
        entries_bytes(a.push(x)) == entries_bytes(a) + entry_bytes(x),
{
    let s = seq![x];
    assert(s.drop_first() =~= Seq::<ParticipantEntry>::empty());
    assert(s[0] == x);
    assert(entries_bytes(s.drop_first()) == Seq::<u8>::empty());
    assert(entries_bytes(s) == entry_bytes(s[0]) + entries_bytes(s.drop_first()));
    assert(entry_bytes(x) + Seq::<u8>::empty() =~= entry_bytes(x));
    assert(a.push(x) =~= a + s);
    lemma_entries_bytes_concat(a, s);
}

/// Encode login response packet.
/// Format: [packet_id: u8][payload_len: u16][id: u64 BE][voice_token: u64 BE][count: u16]
///         [user_id: u64 BE][username_len: u16 BE][username: bytes][in_voice: u8]...
pub fn encode_login_response(id: u64, voice_token: u64, participants: &[ParticipantInfo]) -> (out:
    Vec<u8>)
    ensures
        out@ == frame(
            PacketId::LoginResponse,
            login_response_payload(id, voice_token, entries_view(participants@)),
        ),
{
    let ghost pv = entries_view(participants@);
    let mut payload: Vec<u8> = Vec::new();
    push_u64_be(&mut payload, id);
    push_u64_be(&mut payload, voice_token);
    push_u16_be(&mut payload, participants.len() as u16);
    let ghost head = payload@;
    let mut i: usize = 0;
    assert(pv.take(0) =~= Seq::<ParticipantEntry>::empty());
    assert(payload@ =~= head + entries_bytes(pv.take(0)));
    while i < participants.len()
        invariant
            i <= participants@.len(),
            pv == entries_view(participants@),
            payload@ == head + entries_bytes(pv.take(i as int)),
        decreases participants@.len() - i,
    {
        let participant = &participants[i];
        let ghost before = payload@;
        push_u64_be(&mut payload, participant.user_id);
        let username_bytes = participant.username.as_str().as_bytes();
        push_u16_be(&mut payload, username_bytes.len() as u16);
        push_bytes(&mut payload, username_bytes);
        payload.push(if participant.in_voice {
            1u8
        } else {
            0u8
        });
        proof {
            assert(payload@ =~= before + entry_bytes(pv[i as int]));
            assert(pv.take(i + 1) =~= pv.take(i as int).push(pv[i as int]));
            lemma_entries_bytes_push(pv.take(i as int), pv[i as int]);
        }
        i = i + 1;
    }
    assert(pv.take(i as int) =~= pv);
    assert(payload@ =~= login_response_payload(id, voice_token, pv));
    serialize_packet(PacketId::LoginResponse, payload.as_slice())
}

/// Encode UDP auth response packet.
/// Format: [packet_id: u8][payload_len: u16][success: u8]
pub fn encode_voice_auth_response(success: bool) -> (out: Vec<u8>)
    ensures
        out@ == frame(PacketId::VoiceAuthResponse, seq![bool_byte(success)]),
{
    let payload = vec![if success { 1u8 } else { 0u8 }];
    assert(payload@ =~= seq![bool_byte(success)]);
    serialize_packet(PacketId::VoiceAuthResponse, payload.as_slice())
}

/// Encode join voice channel response packet.
/// Format: [packet_id: u8][payload_len: u16][success: u8]
pub fn encode_join_voice_channel_response(success: bool) -> (out: Vec<u8>)
    ensures
        out@ == frame(PacketId::JoinVoiceChannelResponse, seq![bool_byte(success)]),
{
    let payload = vec![if success { 1u8 } else { 0u8 }];
    assert(payload@ =~= seq![bool_byte(success)]);
    serialize_packet(PacketId::JoinVoiceChannelResponse, payload.as_slice())
}

/// Encode leave voice channel response packet.
/// Format: [packet_id: u8][payload_len: u16][success: u8]
pub fn encode_leave_voice_channel_response(success: bool) -> (out: Vec<u8>)
    ensures
        out@ == frame(PacketId::LeaveVoiceChannelResponse, seq![bool_byte(success)]),
{
    let payload = vec![if success { 1u8 } else { 0u8 }];
    assert(payload@ =~= seq![bool_byte(success)]);
    serialize_packet(PacketId::LeaveVoiceChannelResponse, payload.as_slice())
}

fn read_entry(data: &[u8], pos: usize) -> (res: Result<(ParticipantInfo, usize), InvalidData>)
    requires
        pos <= data@.len(),
    ensures
        match rd_entry(data@, pos as int) {
            Ok((x, q)) => res matches Ok((p, r)) && p@ == x && r == q,
            Err(e) => res == Err::<(ParticipantInfo, usize), InvalidData>(e),
        },
{
    if data.len() - pos < 10 {
        return Err(InvalidData { message: "incomplete participant entry in login response" });
    }
    let user_id = read_u64_be(data, pos);
    let username_len = read_u16_be(data, pos + 8) as usize;
    let start = pos + 10;
    if data.len() - start < username_len + 1 {
        return Err(InvalidData { message: "incomplete username in participant entry" });
    }
    let bytes = slice_subrange(data, start, start + username_len);
    let username = match string_from_utf8(slice_to_vec(bytes)) {
        Some(s) => s,
        None => return Err(InvalidData { message: "invalid UTF-8 in username" }),
    };
    let in_voice = data[start + username_len] != 0;
    Ok((ParticipantInfo { user_id, username, in_voice }, start + username_len + 1))
}

/// Decode login response payload.
/// Format: [id: u64 BE][voice_token: u64 BE][count: u16]
///         [user_id: u64 BE][username_len: u16 BE][username: bytes][in_voice: u8]...
pub fn decode_login_response(data: &[u8]) -> (res: Result<LoginResponse, InvalidData>)
    ensures
        match login_response_of(data@) {
            Ok((id, token, ps)) => res matches Ok(r) && r.id == id && r.voice_token == token
                && entries_view(r.participants@) == ps,
            Err(e) => res == Err::<LoginResponse, InvalidData>(e),
        },
{
    if data.len() < 18 {
        return Err(InvalidData { message: "login response payload too short" });
    }
    let id = read_u64_be(data, 0);
    let voice_token = read_u64_be(data, 8);
    let count = read_u16_be(data, 16) as usize;
    let ghost d = data@;
    let mut participants: Vec<ParticipantInfo> = Vec::new();
    let mut pos: usize = 18;
    let mut i: usize = 0;
    assert(entries_view(participants@) =~= Seq::<ParticipantEntry>::empty());
    assert(prepend_entries(Seq::empty(), rd_entries(d, 18, count as nat)) =~= rd_entries(
        d,
        18,
        count as nat,
    )) by {
        match rd_entries(d, 18, count as nat) {
            Ok((xs, q)) => {
                assert(Seq::<ParticipantEntry>::empty() + xs =~= xs);
            },
            Err(_) => {},
        }
    }
    while i < count
        invariant
            d == data@,
            i <= count,
            pos <= data@.len(),
            count as nat == be_to_u16(d.subrange(16, 18)) as nat,
            d.len() >= 18,
            rd_entries(d, 18, count as nat) == prepend_entries(
                entries_view(participants@),
                rd_entries(d, pos as int, (count - i) as nat),
            ),
        decreases count - i,
    {
        let ghost acc = entries_view(participants@);
        let (x, next) = match read_entry(data, pos) {
            Ok(r) => r,
            Err(e) => {
                assert(rd_entries(d, pos as int, (count - i) as nat) == Err::<
                    (Seq<ParticipantEntry>, int),
                    InvalidData,
                >(e));
                return Err(e);
            },
        };
        proof {
            let rest = rd_entries(d, next as int, (count - i - 1) as nat);
            match rest {
                Ok((xs, q)) => {
                    assert(acc + (seq![x@] + xs) =~= acc.push(x@) + xs);
                },
                Err(_) => {},
            }
        }
        participants.push(x);
        assert(entries_view(participants@) =~= acc.push(x@));
        pos = next;
        i = i + 1;
    }
    assert(entries_view(participants@) + Seq::<ParticipantEntry>::empty() =~= entries_view(
        participants@,
    ));
    Ok(LoginResponse { id, voice_token, participants })
}

/// Decode UDP auth response payload.
/// Format: [success: u8]
pub fn decode_voice_auth_response(data: &[u8]) -> (res: Result<bool, InvalidData>)
    ensures
        res == flag_of(data@, "auth response payload too short"),
{
    if data.len() == 0 {
        return Err(InvalidData { message: "auth response payload too short" });
    }
    Ok(data[0] != 0)
}

/// Decode join voice channel response payload.
/// Format: [success: u8]
pub fn decode_join_voice_channel_response(data: &[u8]) -> (res: Result<bool, InvalidData>)
    ensures
        res == flag_of(data@, "join voice response payload too short"),
{
    if data.len() == 0 {
        return Err(InvalidData { message: "join voice response payload too short" });
    }
    Ok(data[0] != 0)
}

/// Decode leave voice channel response payload.
/// Format: [success: u8]
pub fn decode_leave_voice_channel_response(data: &[u8]) -> (res: Result<bool, InvalidData>)
    ensures
        res == flag_of(data@, "leave voice response payload too short"),
{
    if data.len() == 0 {
        return Err(InvalidData { message: "leave voice response payload too short" });
    }
    Ok(data[0] != 0)
}

/// Every name in the list fits its `u16` length field.
pub open spec fn names_fit(ps: Seq<ParticipantEntry>) -> bool {
    forall|i: int| 0 <= i < ps.len() ==> #[trigger] utf8(ps[i].username).len() <= u16::MAX
}

/// An entry written at `pos` is read back at `pos`.
pub proof fn lemma_rd_entry_at(d: Seq<u8>, pos: int, x: ParticipantEntry, rest: Seq<u8>)
    requires
        0 <= pos <= d.len(),
        utf8(x.username).len() <= u16::MAX,
        d.subrange(pos, d.len() as int) == entry_bytes(x) + rest,
    ensures
        rd_entry(d, pos) == Ok::<(ParticipantEntry, int), InvalidData>(
            (x, pos + entry_bytes(x).len()),
        ),
        d.subrange(pos + entry_bytes(x).len(), d.len() as int) == rest,
{
    let n = utf8(x.username).len() as int;
    let s = d.subrange(pos, d.len() as int);
    assert(d.subrange(pos, pos + 8) =~= u64_be(x.user_id)) by {
        assert(d.subrange(pos, pos + 8) =~= s.subrange(0, 8));
    }
    assert(d.subrange(pos + 8, pos + 10) =~= u16_be(n as u16)) by {
        assert(d.subrange(pos + 8, pos + 10) =~= s.subrange(8, 10));
    }
    assert(d.subrange(pos + 10, pos + 10 + n) =~= utf8(x.username)) by {
        assert(d.subrange(pos + 10, pos + 10 + n) =~= s.subrange(10, 10 + n));
    }
    assert(d[pos + 10 + n] == s[10 + n]);
    lemma_u64_roundtrip(x.user_id);
    lemma_u16_roundtrip(n as u16);
    lemma_utf8_roundtrip(x.username);
    assert(d.subrange(pos + entry_bytes(x).len(), d.len() as int) =~= s.subrange(
        entry_bytes(x).len() as int,
        s.len() as int,
    ));
    assert((entry_bytes(x) + rest).subrange(entry_bytes(x).len() as int, s.len() as int) =~= rest);
}

/// A list of entries written at `pos` is read back at `pos`.
pub proof fn lemma_rd_entries_at(d: Seq<u8>, pos: int, xs: Seq<ParticipantEntry>, rest: Seq<u8>)
    requires
        0 <= pos <= d.len(),
        names_fit(xs),
        d.subrange(pos, d.len() as int) == entries_bytes(xs) + rest,
    ensures
        rd_entries(d, pos, xs.len()) == Ok::<(Seq<ParticipantEntry>, int), InvalidData>(
            (xs, pos + entries_bytes(xs).len()),
        ),
    decreases xs.len(),
{
    if xs.len() == 0 {
        assert(xs =~= Seq::<ParticipantEntry>::empty());
    } else {
        let x = xs[0];
        let tail = xs.drop_first();
        assert(utf8(xs[0].username).len() <= u16::MAX);
        assert(d.subrange(pos, d.len() as int) =~= entry_bytes(x) + (entries_bytes(tail) + rest));
        lemma_rd_entry_at(d, pos, x, entries_bytes(tail) + rest);
        let q = pos + entry_bytes(x).len();
        assert(names_fit(tail)) by {
            assert forall|i: int| 0 <= i < tail.len() implies #[trigger] utf8(
                tail[i].username,
            ).len() <= u16::MAX by {
                assert(tail[i] == xs[i + 1]);
            }
        }
        lemma_rd_entries_at(d, q, tail, rest);
        assert(seq![x] + tail =~= xs);
        assert((xs.len() - 1) as nat == tail.len());
        assert(entries_bytes(xs) == entry_bytes(x) + entries_bytes(tail));
        assert(rd_entries(d, pos, xs.len()) == Ok::<(Seq<ParticipantEntry>, int), InvalidData>(
            (seq![x] + tail, q + entries_bytes(tail).len()),
        ));
    }
}

/// The payload of an encoded login response decodes to its id, token and
/// participants, when the count and every name fit their `u16` fields.
pub proof fn lemma_login_response_roundtrip(id: u64, voice_token: u64, ps: Seq<ParticipantEntry>)
    requires
        ps.len() <= u16::MAX,
        names_fit(ps),
    ensures
        ({
            let f = frame(PacketId::LoginResponse, login_response_payload(id, voice_token, ps));
            login_response_of(f.subrange(3, f.len() as int)) == Ok::<
                (u64, u64, Seq<ParticipantEntry>),
                InvalidData,
            >((id, voice_token, ps))
        }),
{
    let d = login_response_payload(id, voice_token, ps);
    lemma_frame_parts(PacketId::LoginResponse, d);
    let c = ps.len() as u16;
    assert(d.subrange(0, 8) =~= u64_be(id));
    assert(d.subrange(8, 16) =~= u64_be(voice_token));
    assert(d.subrange(16, 18) =~= u16_be(c));
    lemma_u64_roundtrip(id);
    lemma_u64_roundtrip(voice_token);
    lemma_u16_roundtrip(c);
    assert(d.subrange(18, d.len() as int) =~= entries_bytes(ps) + Seq::<u8>::empty());
    lemma_rd_entries_at(d, 18, ps, Seq::<u8>::empty());
}

/// The payload of an encoded success flag decodes to the flag.
pub proof fn lemma_flag_roundtrip(id: PacketId, success: bool, too_short: &'static str)
    ensures
        ({
            let f = frame(id, seq![bool_byte(success)]);
            flag_of(f.subrange(3, f.len() as int), too_short) == Ok::<bool, InvalidData>(success)
        }),
{
    lemma_frame_parts(id, seq![bool_byte(success)]);
}

} // verus!
