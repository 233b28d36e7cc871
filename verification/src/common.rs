//! Versioned TCP control packets, UDP authentication and voice packets, and
//! the payload helpers that carry user names, ports, tokens and participant
//! lists between client and server.
use crate::protocol::io::writer::bool_byte;
use crate::wire::{
    be_to_u16,
    be_to_u32,
    be_to_u64,
    invalid,
    lemma_u16_roundtrip,
    lemma_u32_roundtrip,
    lemma_u64_roundtrip,
    lemma_utf8_no_zero,
    lemma_utf8_roundtrip,
    push_bytes,
    push_u16_be,
    push_u32_be,
    push_u64_be,
    read_u16_be,
    read_u32_be,
    read_u64_be,
    string_from_utf8,
    u16_be,
    u32_be,
    u64_be,
    utf8,
    InvalidData,
};
use vstd::prelude::*;
use vstd::slice::{slice_subrange, slice_to_vec};
use vstd::utf8::{decode_utf8, valid_utf8};

verus! {

/// Protocol version
pub const PROTOCOL_VERSION: u8 = 1;

/// FNV-1a 32-bit offset basis.
pub const FNV_OFFSET_BASIS: u32 = 2166136261;

/// FNV-1a 32-bit prime.
pub const FNV_PRIME: u32 = 16777619;

/// One FNV-1a step: mix the byte in, then multiply (wrapping) by the prime.
pub open spec fn fnv1a_step(hash: u32, byte: u8) -> u32 {
    (hash ^ (byte as u32)).wrapping_mul(FNV_PRIME)
}

/// The 32-bit FNV-1a hash of a byte sequence.
pub open spec fn fnv1a(bytes: Seq<u8>) -> u32
    decreases bytes.len(),
{
    if bytes.len() == 0 {
        FNV_OFFSET_BASIS
    } else {
        fnv1a_step(fnv1a(bytes.drop_last()), bytes.last())
    }
}

/// The hash is the standard 32-bit FNV-1a: it starts from the offset basis
/// 2166136261 (0x811C9DC5), and each further byte is first xored into the
/// hash, which is then multiplied by the prime 16777619 modulo 2^32.
pub proof fn lemma_fnv1a_standard(bytes: Seq<u8>, b: u8)
    ensures
        fnv1a(Seq::<u8>::empty()) == 0x811C9DC5u32,
        fnv1a(bytes.push(b)) as int == ((fnv1a(bytes) ^ (b as u32)) as int * 16777619) % 0x1_0000_0000,
{
    assert(bytes.push(b).drop_last() =~= bytes);
    let h = fnv1a(bytes) ^ (b as u32);
    assert(h.wrapping_mul(FNV_PRIME) as int == (h as int * 16777619) % 0x1_0000_0000);
}

/// The hashes of the empty name and of "a": 0x811C9DC5 and 0xE40C292C, the
/// published FNV-1a 32-bit values.
pub proof fn lemma_fnv1a_vectors()
    ensures
        fnv1a(Seq::<u8>::empty()) == 0x811C9DC5u32,
        fnv1a(seq![0x61u8]) == 0xE40C292Cu32,
{
    lemma_fnv1a_standard(Seq::<u8>::empty(), 0x61);
    assert(seq![0x61u8] =~= Seq::<u8>::empty().push(0x61));
    assert(0x811C9DC5u32 ^ 0x61u32 == 0x811C9DA4u32) by (bit_vector);
    assert((0x811C9DA4int * 16777619) % 0x1_0000_0000 == 0xE40C292C);
}

/// Compute a deterministic SSRC from a username using FNV-1a hashing
/// This allows lightweight voice packets to contain only SSRC instead of full username
pub fn username_to_ssrc(username: &str) -> (ssrc: u32)
    ensures
        ssrc == fnv1a(utf8(username@)),
{
    let bytes = username.as_bytes();
    let mut hash = FNV_OFFSET_BASIS;
    let mut i: usize = 0;
    assert(bytes@.take(0) =~= Seq::<u8>::empty());
    while i < bytes.len()
        invariant
            i <= bytes@.len(),
            bytes@ == utf8(username@),
            hash == fnv1a(bytes@.take(i as int)),
        decreases bytes@.len() - i,
    {
        assert(bytes@.take(i + 1).drop_last() =~= bytes@.take(i as int));
        hash = hash ^ (bytes[i] as u32);
        hash = hash.wrapping_mul(FNV_PRIME);
        i = i + 1;
    }
    assert(bytes@.take(i as int) =~= bytes@);
    hash
}

// Packet type IDs for TCP control messages
#[derive(Debug, Clone, Copy, PartialEq, Eq)]
pub enum PacketTypeId {
    Login,
    LoginResponse,
    UserJoinedServer,
    JoinVoiceChannel,
    UserJoinedVoice,
    UserLeftVoice,
    UserLeftServer,
    ServerParticipantList,
}

/// The byte of each TCP packet type.
pub open spec fn type_byte(t: PacketTypeId) -> u8 {
    match t {
        PacketTypeId::Login => 0x01,
        PacketTypeId::LoginResponse => 0x02,
        PacketTypeId::UserJoinedServer => 0x03,
        PacketTypeId::JoinVoiceChannel => 0x04,
        PacketTypeId::UserJoinedVoice => 0x05,
        PacketTypeId::UserLeftVoice => 0x06,
        PacketTypeId::UserLeftServer => 0x07,
        PacketTypeId::ServerParticipantList => 0x08,
    }
}

/// The TCP packet type a byte stands for, if any.
pub open spec fn type_of_byte(value: u8) -> Option<PacketTypeId> {
    if value == 0x01 {
        Some(PacketTypeId::Login)
    } else if value == 0x02 {
        Some(PacketTypeId::LoginResponse)
    } else if value == 0x03 {
        Some(PacketTypeId::UserJoinedServer)
    } else if value == 0x04 {
        Some(PacketTypeId::JoinVoiceChannel)
    } else if value == 0x05 {
        Some(PacketTypeId::UserJoinedVoice)
    } else if value == 0x06 {
        Some(PacketTypeId::UserLeftVoice)
    } else if value == 0x07 {
        Some(PacketTypeId::UserLeftServer)
    } else if value == 0x08 {
        Some(PacketTypeId::ServerParticipantList)
    } else {
        None
    }
}

impl PacketTypeId {
    pub fn from_u8(value: u8) -> (res: Option<Self>)
        ensures
            res == type_of_byte(value),
    {
        match value {
            0x01 => Some(PacketTypeId::Login),
            0x02 => Some(PacketTypeId::LoginResponse),
            0x03 => Some(PacketTypeId::UserJoinedServer),
            0x04 => Some(PacketTypeId::JoinVoiceChannel),
            0x05 => Some(PacketTypeId::UserJoinedVoice),
            0x06 => Some(PacketTypeId::UserLeftVoice),
            0x07 => Some(PacketTypeId::UserLeftServer),
            0x08 => Some(PacketTypeId::ServerParticipantList),
            _ => None,
        }
    }

    pub fn as_u8(self) -> (b: u8)
        ensures
            b == type_byte(self),
    {
        match self {
            PacketTypeId::Login => 0x01,
            PacketTypeId::LoginResponse => 0x02,
            PacketTypeId::UserJoinedServer => 0x03,
            PacketTypeId::JoinVoiceChannel => 0x04,
            PacketTypeId::UserJoinedVoice => 0x05,
            PacketTypeId::UserLeftVoice => 0x06,
            PacketTypeId::UserLeftServer => 0x07,
            PacketTypeId::ServerParticipantList => 0x08,
        }
    }
}

/// Each type's byte is read back as that type.
pub proof fn lemma_type_byte_roundtrip(t: PacketTypeId)
    ensures
        type_of_byte(type_byte(t)) == Some(t),
{
}

/// TCP control packet structure
/// Format: [version: u8][packet_type: u8][payload_len: u16][payload...]
#[derive(Debug, Clone, PartialEq, Eq)]
pub struct TcpPacket {
    pub packet_type: PacketTypeId,
    pub payload: Vec<u8>,
}

/// The bytes of a TCP packet; the length field holds the payload length cast
/// to `u16`.
pub open spec fn tcp_packet_bytes(t: PacketTypeId, payload: Seq<u8>) -> Seq<u8> {
    seq![PROTOCOL_VERSION, type_byte(t)] + u16_be(payload.len() as u16) + payload
}

/// Decoding a TCP packet: the packet type and payload, and the bytes taken.
pub open spec fn tcp_packet_of(data: Seq<u8>) -> Result<(PacketTypeId, Seq<u8>, int), InvalidData> {
    if data.len() < 4 {
        Err(invalid("packet too short"))
    } else if data[0] != PROTOCOL_VERSION {
        Err(invalid("unsupported protocol version"))
    } else if type_of_byte(data[1]) is None {
        Err(invalid("unknown packet type"))
    } else {
        let len = be_to_u16(data.subrange(2, 4)) as int;
        if data.len() < 4 + len {
            Err(invalid("incomplete payload"))
        } else {
            Ok((type_of_byte(data[1])->0, data.subrange(4, 4 + len), 4 + len))
        }
    }
}

impl TcpPacket {
    pub fn new(packet_type: PacketTypeId, payload: Vec<u8>) -> (p: Self)
        ensures
            p.packet_type == packet_type,
            p.payload@ == payload@,
    {
        TcpPacket { packet_type, payload }
    }

    /// Encode packet to binary format
    pub fn encode(&self) -> (res: Result<Vec<u8>, InvalidData>)
        ensures
            res matches Ok(b) && b@ == tcp_packet_bytes(self.packet_type, self.payload@),
    {
        let mut buf: Vec<u8> = Vec::new();
        buf.push(PROTOCOL_VERSION);
        buf.push(self.packet_type.as_u8());
        push_u16_be(&mut buf, self.payload.len() as u16);
        push_bytes(&mut buf, self.payload.as_slice());
        assert(buf@ =~= tcp_packet_bytes(self.packet_type, self.payload@));
        Ok(buf)
    }

    /// Decode packet from binary format
    pub fn decode(data: &[u8]) -> (res: Result<(Self, usize), InvalidData>)
        ensures
            match tcp_packet_of(data@) {
                Ok((t, payload, n)) => res matches Ok((p, m)) && p.packet_type == t
                    && p.payload@ == payload && m == n,
                Err(e) => res == Err::<(Self, usize), InvalidData>(e),
            },
    {
        if data.len() < 4 {
            return Err(InvalidData { message: "packet too short" });
        }
        let version = data[0];
        if version != PROTOCOL_VERSION {
            return Err(InvalidData { message: "unsupported protocol version" });
        }
        let packet_type = match PacketTypeId::from_u8(data[1]) {
            Some(t) => t,
            None => return Err(InvalidData { message: "unknown packet type" }),
        };
        let payload_len = read_u16_be(data, 2) as usize;
        if data.len() - 4 < payload_len {
            return Err(InvalidData { message: "incomplete payload" });
        }
        let payload = slice_to_vec(slice_subrange(data, 4, 4 + payload_len));
        Ok((TcpPacket { packet_type, payload }, 4 + payload_len))
    }
}

/// The first position at or after `from` that holds a zero byte, or the
/// length of `d` when there is none.
pub open spec fn first_zero(d: Seq<u8>, from: int) -> int
    decreases d.len() - from,
{
    if from >= d.len() {
        d.len() as int
    } else if d[from] == 0 {
        from
    } else {
        first_zero(d, from + 1)
    }
}

/// What `first_zero` finds: a position no earlier than `from`, with no zero
/// before it, holding a zero unless it is the end.
pub proof fn lemma_first_zero(d: Seq<u8>, from: int)
    requires
        0 <= from <= d.len(),
    ensures
        from <= first_zero(d, from) <= d.len(),
        forall|i: int| from <= i < first_zero(d, from) ==> d[i] != 0,
        first_zero(d, from) < d.len() ==> d[first_zero(d, from)] == 0,
    decreases d.len() - from,
{
    if from < d.len() && d[from] != 0 {
        lemma_first_zero(d, from + 1);
    }
}

/// A zero after a run of non-zero bytes is the first zero.
pub proof fn lemma_first_zero_at(d: Seq<u8>, from: int, z: int)
    requires
        0 <= from <= z < d.len(),
        d[z] == 0,
        forall|i: int| from <= i < z ==> d[i] != 0,
    ensures
        first_zero(d, from) == z,
    decreases z - from,
{
    if from < z {
        lemma_first_zero_at(d, from + 1, z);
    }
}

/// Finds the first zero byte at or after `from`.
fn find_zero(data: &[u8], from: usize) -> (pos: usize)
    requires
        from <= data@.len(),
    ensures
        pos == first_zero(data@, from as int),
{
    let mut pos = from;
    while pos < data.len() && data[pos] != 0
        invariant
            from <= pos <= data@.len(),
            first_zero(data@, from as int) == first_zero(data@, pos as int),
        decreases data@.len() - pos,
    {
        pos = pos + 1;
    }
    pos
}

/// Helper to encode username into a payload (null-terminated UTF-8)
pub fn encode_username(username: &str) -> (buf: Vec<u8>)
    ensures
        buf@ == utf8(username@) + seq![0u8],
{
    let mut buf: Vec<u8> = Vec::new();
    push_bytes(&mut buf, username.as_bytes());
    buf.push(0u8);
    buf
}

/// Decoding a NUL-terminated UTF-8 name that fills the whole payload.
pub open spec fn username_of(data: Seq<u8>) -> Result<Seq<char>, InvalidData> {
    if data.len() == 0 || data[data.len() - 1] != 0 {
        Err(invalid("username not null-terminated"))
    } else if !valid_utf8(data.subrange(0, data.len() - 1)) {
        Err(invalid("invalid UTF-8"))
    } else {
        Ok(decode_utf8(data.subrange(0, data.len() - 1)))
    }
}

/// Helper to decode username from a payload
pub fn decode_username(data: &[u8]) -> (res: Result<String, InvalidData>)
    ensures
        match username_of(data@) {
            Ok(name) => res matches Ok(n) && n@ == name,
            Err(e) => res == Err::<String, InvalidData>(e),
        },
{
    if data.len() == 0 || data[data.len() - 1] != 0 {
        return Err(InvalidData { message: "username not null-terminated" });
    }
    let username_bytes = slice_subrange(data, 0, data.len() - 1);
    match string_from_utf8(slice_to_vec(username_bytes)) {
        Some(username) => Ok(username),
        None => Err(InvalidData { message: "invalid UTF-8" }),
    }
}

/// Decoding `[name...NUL][value: n bytes]`: the name runs to the first zero
/// byte; `short` is the message when the payload is shorter than `n + 1`
/// bytes, `missing` when the value is cut off.
pub open spec fn name_then_value_of(
    data: Seq<u8>,
    n: int,
    short: &'static str,
    missing: &'static str,
) -> Result<(Seq<char>, int), InvalidData> {
    if data.len() < n + 1 {
        Err(invalid(short))
    } else {
        let z = first_zero(data, 0);
        if z >= data.len() {
            Err(invalid("username not null-terminated"))
        } else if !valid_utf8(data.subrange(0, z)) {
            Err(invalid("invalid UTF-8"))
        } else if data.len() < z + 1 + n {
            Err(invalid(missing))
        } else {
            Ok((decode_utf8(data.subrange(0, z)), z + 1))
        }
    }
}

/// Helper to encode username with UDP port into a payload
/// Format: [username...null][port: u16 BE]
pub fn encode_username_with_udp_port(username: &str, udp_port: u16) -> (res: Result<Vec<u8>, InvalidData>)
    ensures
        res matches Ok(b) && b@ == utf8(username@) + seq![0u8] + u16_be(udp_port),
{
    let mut buf = encode_username(username);
    push_u16_be(&mut buf, udp_port);
    Ok(buf)
}

/// Helper to decode username with UDP port from a payload
pub fn decode_username_with_udp_port(data: &[u8]) -> (res: Result<(String, u16), InvalidData>)
    ensures
        match name_then_value_of(
            data@,
            2,
            "username with UDP port too short",
            "missing UDP port in payload",
        ) {
            Ok((name, at)) => res matches Ok((n, port)) && n@ == name && port == be_to_u16(
                data@.subrange(at, at + 2),
            ),
            Err(e) => res == Err::<(String, u16), InvalidData>(e),
        },
{
    if data.len() < 3 {
        return Err(InvalidData { message: "username with UDP port too short" });
    }
    let pos = find_zero(data, 0);
    if pos >= data.len() {
        return Err(InvalidData { message: "username not null-terminated" });
    }
    let username = match string_from_utf8(slice_to_vec(slice_subrange(data, 0, pos))) {
        Some(s) => s,
        None => return Err(InvalidData { message: "invalid UTF-8" }),
    };
    let pos = pos + 1;
    if data.len() - pos < 2 {
        return Err(InvalidData { message: "missing UDP port in payload" });
    }
    let udp_port = read_u16_be(data, pos);
    Ok((username, udp_port))
}

/// Helper to encode username with SSRC into a payload
/// Format: [username...null][ssrc: u32]
pub fn encode_username_with_ssrc(username: &str, ssrc: u32) -> (res: Result<Vec<u8>, InvalidData>)
    ensures
        res matches Ok(b) && b@ == utf8(username@) + seq![0u8] + u32_be(ssrc),
{
    let mut buf = encode_username(username);
    push_u32_be(&mut buf, ssrc);
    Ok(buf)
}

/// Helper to decode username with SSRC from a payload
pub fn decode_username_with_ssrc(data: &[u8]) -> (res: Result<(String, u32), InvalidData>)
    ensures
        match name_then_value_of(
            data@,
            4,
            "username with SSRC too short",
            "missing SSRC in payload",
        ) {
            Ok((name, at)) => res matches Ok((n, ssrc)) && n@ == name && ssrc == be_to_u32(
                data@.subrange(at, at + 4),
            ),
            Err(e) => res == Err::<(String, u32), InvalidData>(e),
        },
{
    if data.len() < 5 {
        return Err(InvalidData { message: "username with SSRC too short" });
    }
    let pos = find_zero(data, 0);
    if pos >= data.len() {
        return Err(InvalidData { message: "username not null-terminated" });
    }
    let username = match string_from_utf8(slice_to_vec(slice_subrange(data, 0, pos))) {
        Some(s) => s,
        None => return Err(InvalidData { message: "invalid UTF-8" }),
    };
    let pos = pos + 1;
    if data.len() - pos < 4 {
        return Err(InvalidData { message: "missing SSRC in payload" });
    }
    let ssrc = read_u32_be(data, pos);
    Ok((username, ssrc))
}

/// Participant info with voice channel status
#[derive(Debug, Clone, PartialEq, Eq)]
pub struct ParticipantInfo {
    pub username: String,
    pub in_voice: bool,
}

/// The value a `ParticipantInfo` stands for.
pub struct ParticipantStatus {
    pub username: Seq<char>,
    pub in_voice: bool,
}

impl View for ParticipantInfo {
    type V = ParticipantStatus;

    open spec fn view(&self) -> ParticipantStatus {
        ParticipantStatus { username: self.username@, in_voice: self.in_voice }
    }
}

/// The views of a list of participants.
pub open spec fn statuses_view(v: Seq<ParticipantInfo>) -> Seq<ParticipantStatus> {
    v.map_values(|p: ParticipantInfo| p@)
}

/// One entry of a participant list with voice status: name, zero, flag.
pub open spec fn status_bytes(p: ParticipantStatus) -> Seq<u8> {
    utf8(p.username) + seq![0u8, bool_byte(p.in_voice)]
}

/// The entries of a list with voice status, one after the other.
pub open spec fn statuses_bytes(s: Seq<ParticipantStatus>) -> Seq<u8>
    decreases s.len(),
{
    if s.len() == 0 {
        Seq::empty()
    } else {
        status_bytes(s[0]) + statuses_bytes(s.drop_first())
    }
}

/// One entry of a plain name list: name, zero.
pub open spec fn name_bytes(name: Seq<char>) -> Seq<u8> {
    utf8(name) + seq![0u8]
}

/// The entries of a plain name list, one after the other.
pub open spec fn names_bytes(s: Seq<Seq<char>>) -> Seq<u8>
    decreases s.len(),
{
    if s.len() == 0 {
        Seq::empty()
    } else {
        name_bytes(s[0]) + names_bytes(s.drop_first())
    }
}

/// Reading one entry with voice status at `pos`.
pub open spec fn rd_status(d: Seq<u8>, pos: int) -> Result<(ParticipantStatus, int), InvalidData> {
    let z = first_zero(d, pos);
    if z >= d.len() {
        Err(invalid("incomplete username in participant list"))
    } else if !valid_utf8(d.subrange(pos, z)) {
        Err(invalid("invalid UTF-8"))
    } else if z + 1 >= d.len() {
        Err(invalid("missing voice status in participant list"))
    } else {
        Ok(
            (
                ParticipantStatus {
                    username: decode_utf8(d.subrange(pos, z)),
                    in_voice: d[z + 1] != 0,
                },
                z + 2,
            ),
        )
    }
}

/// Reading `n` entries with voice status from `pos`.
pub open spec fn rd_statuses(d: Seq<u8>, pos: int, n: nat) -> Result<
    (Seq<ParticipantStatus>, int),
    InvalidData,
>
    decreases n,
{
    if n == 0 {
        Ok((Seq::empty(), pos))
    } else {
        match rd_status(d, pos) {
            Err(e) => Err(e),
            Ok((x, q)) => match rd_statuses(d, q, (n - 1) as nat) {
                Err(e) => Err(e),
                Ok((xs, r)) => Ok((seq![x] + xs, r)),
            },
        }
    }
}

/// Reading one plain name at `pos`.
pub open spec fn rd_name(d: Seq<u8>, pos: int) -> Result<(Seq<char>, int), InvalidData> {
    let z = first_zero(d, pos);
    if z >= d.len() {
        Err(invalid("incomplete username in participant list"))
    } else if !valid_utf8(d.subrange(pos, z)) {
        Err(invalid("invalid UTF-8"))
    } else {
        Ok((decode_utf8(d.subrange(pos, z)), z + 1))
    }
}

/// Reading `n` plain names from `pos`.
pub open spec fn rd_names(d: Seq<u8>, pos: int, n: nat) -> Result<(Seq<Seq<char>>, int), InvalidData>
    decreases n,
{
    if n == 0 {
        Ok((Seq::empty(), pos))
    } else {
        match rd_name(d, pos) {
            Err(e) => Err(e),
            Ok((x, q)) => match rd_names(d, q, (n - 1) as nat) {
                Err(e) => Err(e),
                Ok((xs, r)) => Ok((seq![x] + xs, r)),
            },
        }
    }
}

/// Decoding a participant list with voice status: the count, then the entries.
pub open spec fn statuses_of(d: Seq<u8>) -> Result<Seq<ParticipantStatus>, InvalidData> {
    if d.len() < 2 {
        Err(invalid("participant list too short"))
    } else {
        match rd_statuses(d, 2, be_to_u16(d.subrange(0, 2)) as nat) {
            Err(e) => Err(e),
            Ok((xs, _)) => Ok(xs),
        }
    }
}

/// Decoding a plain name list: the count, then the names.
pub open spec fn names_of(d: Seq<u8>) -> Result<Seq<Seq<char>>, InvalidData> {
    if d.len() < 2 {
        Err(invalid("participant list too short"))
    } else {
        match rd_names(d, 2, be_to_u16(d.subrange(0, 2)) as nat) {
            Err(e) => Err(e),
            Ok((xs, _)) => Ok(xs),
        }
    }
}

/// Appending one entry to a list appends its bytes.
pub proof fn lemma_statuses_bytes_push(a: Seq<ParticipantStatus>, x: ParticipantStatus)
    ensures
        statuses_bytes(a.push(x)) == statuses_bytes(a) + status_bytes(x),
    decreases a.len(),
{
    if a.len() == 0 {
        let s = a.push(x);
        assert(s.drop_first() =~= Seq::<ParticipantStatus>::empty());
        assert(s[0] == x);
        assert(statuses_bytes(s.drop_first()) == Seq::<u8>::empty());
        assert(statuses_bytes(a) == Seq::<u8>::empty());
        assert(statuses_bytes(s) =~= statuses_bytes(a) + status_bytes(x));
    } else {
        lemma_statuses_bytes_push(a.drop_first(), x);
        assert(a.push(x).drop_first() =~= a.drop_first().push(x));
        assert(a.push(x)[0] == a[0]);
        assert(statuses_bytes(a.push(x)) =~= status_bytes(a[0]) + (statuses_bytes(a.drop_first())
            + status_bytes(x)));
    }
}

/// Appending one name to a list appends its bytes.
pub proof fn lemma_names_bytes_push(a: Seq<Seq<char>>, x: Seq<char>)
    ensures
        names_bytes(a.push(x)) == names_bytes(a) + name_bytes(x),
    decreases a.len(),
{
    if a.len() == 0 {
        let s = a.push(x);
        assert(s.drop_first() =~= Seq::<Seq<char>>::empty());
        assert(s[0] == x);
        assert(names_bytes(s.drop_first()) == Seq::<u8>::empty());
        assert(names_bytes(a) == Seq::<u8>::empty());
        assert(names_bytes(s) =~= names_bytes(a) + name_bytes(x));
    } else {
        lemma_names_bytes_push(a.drop_first(), x);
        assert(a.push(x).drop_first() =~= a.drop_first().push(x));
        assert(a.push(x)[0] == a[0]);
        assert(names_bytes(a.push(x)) =~= name_bytes(a[0]) + (names_bytes(a.drop_first())
            + name_bytes(x)));
    }
}

/// Helper to encode participant list with voice status into a payload
/// Format: [count: u16][username1...null][in_voice: u8][username2...null][in_voice: u8]...
pub fn encode_participant_list_with_voice(participants: &[ParticipantInfo]) -> (res: Result<
    Vec<u8>,
    InvalidData,
>)
    ensures
        res matches Ok(b) && b@ == u16_be(participants@.len() as u16) + statuses_bytes(
            statuses_view(participants@),
        ),
{
    let ghost pv = statuses_view(participants@);
    let mut buf: Vec<u8> = Vec::new();
    push_u16_be(&mut buf, participants.len() as u16);
    let ghost head = buf@;
    let mut i: usize = 0;
    assert(pv.take(0) =~= Seq::<ParticipantStatus>::empty());
    assert(buf@ =~= head + statuses_bytes(pv.take(0)));
    while i < participants.len()
        invariant
            i <= participants@.len(),
            pv == statuses_view(participants@),
            buf@ == head + statuses_bytes(pv.take(i as int)),
        decreases participants@.len() - i,
    {
        let participant = &participants[i];
        let ghost before = buf@;
        push_bytes(&mut buf, participant.username.as_str().as_bytes());
        buf.push(0u8);
        buf.push(if participant.in_voice {
            1u8
        } else {
            0u8
        });
        proof {
            assert(buf@ =~= before + status_bytes(pv[i as int]));
            assert(pv.take(i + 1) =~= pv.take(i as int).push(pv[i as int]));
            lemma_statuses_bytes_push(pv.take(i as int), pv[i as int]);
        }
        i = i + 1;
    }
    assert(pv.take(i as int) =~= pv);
    Ok(buf)
}

fn read_status(data: &[u8], pos: usize) -> (res: Result<(ParticipantInfo, usize), InvalidData>)
    requires
        pos <= data@.len(),
    ensures
        match rd_status(data@, pos as int) {
            Ok((x, q)) => res matches Ok((p, r)) && p@ == x && r == q,
            Err(e) => res == Err::<(ParticipantInfo, usize), InvalidData>(e),
        },
{
    let z = find_zero(data, pos);
    proof {
        lemma_first_zero(data@, pos as int);
    }
    if z >= data.len() {
        return Err(InvalidData { message: "incomplete username in participant list" });
    }
    let username = match string_from_utf8(slice_to_vec(slice_subrange(data, pos, z))) {
        Some(s) => s,
        None => return Err(InvalidData { message: "invalid UTF-8" }),
    };
    if z + 1 >= data.len() {
        return Err(InvalidData { message: "missing voice status in participant list" });
    }
    let in_voice = data[z + 1] != 0;
    Ok((ParticipantInfo { username, in_voice }, z + 2))
}

/// Helper to decode participant list with voice status from a payload
pub fn decode_participant_list_with_voice(data: &[u8]) -> (res: Result<
    Vec<ParticipantInfo>,
    InvalidData,
>)
    ensures
        match statuses_of(data@) {
            Ok(xs) => res matches Ok(v) && statuses_view(v@) == xs,
            Err(e) => res == Err::<Vec<ParticipantInfo>, InvalidData>(e),
        },
{
    if data.len() < 2 {
        return Err(InvalidData { message: "participant list too short" });
    }
    let count = read_u16_be(data, 0) as usize;
    let ghost d = data@;
    let mut participants: Vec<ParticipantInfo> = Vec::new();
    let mut pos: usize = 2;
    let mut i: usize = 0;
    assert(statuses_view(participants@) =~= Seq::<ParticipantStatus>::empty());
    assert(rd_statuses(d, 2, count as nat) == match rd_statuses(d, 2, count as nat) {
        Ok((xs, q)) => Ok((Seq::<ParticipantStatus>::empty() + xs, q)),
        Err(e) => Err(e),
    }) by {
        match rd_statuses(d, 2, count as nat) {
            Ok((xs, q)) => {
                assert(Seq::<ParticipantStatus>::empty() + xs =~= xs);
            },
            Err(_) => {},
        }
    }
    while i < count
        invariant
            d == data@,
            i <= count,
            pos <= data@.len(),
            d.len() >= 2,
            count as nat == be_to_u16(d.subrange(0, 2)) as nat,
            rd_statuses(d, 2, count as nat) == match rd_statuses(d, pos as int, (count - i) as nat) {
                Ok((xs, q)) => Ok((statuses_view(participants@) + xs, q)),
                Err(e) => Err(e),
            },
        decreases count - i,
    {
        let ghost acc = statuses_view(participants@);
        let (x, next) = match read_status(data, pos) {
            Ok(r) => r,
            Err(e) => {
                assert(rd_statuses(d, pos as int, (count - i) as nat) == Err::<
                    (Seq<ParticipantStatus>, int),
                    InvalidData,
                >(e));
                return Err(e);
            },
        };
        proof {
            let rest = rd_statuses(d, next as int, (count - i - 1) as nat);
            match rest {
                Ok((xs, q)) => {
                    assert(acc + (seq![x@] + xs) =~= acc.push(x@) + xs);
                },
                Err(_) => {},
            }
        }
        participants.push(x);
        assert(statuses_view(participants@) =~= acc.push(x@));
        pos = next;
        i = i + 1;
    }
    assert(statuses_view(participants@) + Seq::<ParticipantStatus>::empty() =~= statuses_view(
        participants@,
    ));
    Ok(participants)
}

/// Helper to encode voice token into a payload
/// Format: [token: u64 BE]
pub fn encode_voice_token(token: u64) -> (res: Result<Vec<u8>, InvalidData>)
    ensures
        res matches Ok(b) && b@ == u64_be(token),
{
    let mut buf: Vec<u8> = Vec::new();
    push_u64_be(&mut buf, token);
    Ok(buf)
}

/// Decoding a voice token (trailing bytes are ignored).
pub open spec fn voice_token_of(data: Seq<u8>) -> Result<u64, InvalidData> {
    if data.len() < 8 {
        Err(invalid("token payload too short"))
    } else {
        Ok(be_to_u64(data.subrange(0, 8)))
    }
}

/// Helper to decode voice token from a payload
pub fn decode_voice_token(data: &[u8]) -> (res: Result<u64, InvalidData>)
    ensures
        res == voice_token_of(data@),
{
    if data.len() < 8 {
        return Err(InvalidData { message: "token payload too short" });
    }
    Ok(read_u64_be(data, 0))
}

/// The views of a list of names.
pub open spec fn names_view(v: Seq<&str>) -> Seq<Seq<char>> {
    v.map_values(|s: &str| s@)
}

/// Helper to encode participant list into a payload (legacy, no voice status)
/// Format: [count: u16][username1...null][username2...null]...[usernameN...null]
pub fn encode_participant_list(usernames: &[&str]) -> (res: Result<Vec<u8>, InvalidData>)
    ensures
        res matches Ok(b) && b@ == u16_be(usernames@.len() as u16) + names_bytes(
            names_view(usernames@),
        ),
{
    let ghost nv = names_view(usernames@);
    let mut buf: Vec<u8> = Vec::new();
    push_u16_be(&mut buf, usernames.len() as u16);
    let ghost head = buf@;
    let mut i: usize = 0;
    assert(nv.take(0) =~= Seq::<Seq<char>>::empty());
    assert(buf@ =~= head + names_bytes(nv.take(0)));
    while i < usernames.len()
        invariant
            i <= usernames@.len(),
            nv == names_view(usernames@),
            buf@ == head + names_bytes(nv.take(i as int)),
        decreases usernames@.len() - i,
    {
        let ghost before = buf@;
        push_bytes(&mut buf, usernames[i].as_bytes());
        buf.push(0u8);
        proof {
            assert(buf@ =~= before + name_bytes(nv[i as int]));
            assert(nv.take(i + 1) =~= nv.take(i as int).push(nv[i as int]));
            lemma_names_bytes_push(nv.take(i as int), nv[i as int]);
        }
        i = i + 1;
    }
    assert(nv.take(i as int) =~= nv);
    Ok(buf)
}

/// The views of a list of owned names.
pub open spec fn strings_view(v: Seq<String>) -> Seq<Seq<char>> {
    v.map_values(|s: String| s@)
}

fn read_name(data: &[u8], pos: usize) -> (res: Result<(String, usize), InvalidData>)
    requires
        pos <= data@.len(),
    ensures
        match rd_name(data@, pos as int) {
            Ok((x, q)) => res matches Ok((s, r)) && s@ == x && r == q,
            Err(e) => res == Err::<(String, usize), InvalidData>(e),
        },
{
    let z = find_zero(data, pos);
    proof {
        lemma_first_zero(data@, pos as int);
    }
    if z >= data.len() {
        return Err(InvalidData { message: "incomplete username in participant list" });
    }
    let username = match string_from_utf8(slice_to_vec(slice_subrange(data, pos, z))) {
        Some(s) => s,
        None => return Err(InvalidData { message: "invalid UTF-8" }),
    };
    Ok((username, z + 1))
}

/// Helper to decode participant list from a payload (legacy, no voice status)
pub fn decode_participant_list(data: &[u8]) -> (res: Result<Vec<String>, InvalidData>)
    ensures
        match names_of(data@) {
            Ok(xs) => res matches Ok(v) && strings_view(v@) == xs,
            Err(e) => res == Err::<Vec<String>, InvalidData>(e),
        },
{
    if data.len() < 2 {
        return Err(InvalidData { message: "participant list too short" });
    }
    let count = read_u16_be(data, 0) as usize;
    let ghost d = data@;
    let mut usernames: Vec<String> = Vec::new();
    let mut pos: usize = 2;
    let mut i: usize = 0;
    assert(strings_view(usernames@) =~= Seq::<Seq<char>>::empty());
    assert(rd_names(d, 2, count as nat) == match rd_names(d, 2, count as nat) {
        Ok((xs, q)) => Ok((Seq::<Seq<char>>::empty() + xs, q)),
        Err(e) => Err(e),
    }) by {
        match rd_names(d, 2, count as nat) {
            Ok((xs, q)) => {
                assert(Seq::<Seq<char>>::empty() + xs =~= xs);
            },
            Err(_) => {},
        }
    }
    while i < count
        invariant
            d == data@,
            i <= count,
            pos <= data@.len(),
            d.len() >= 2,
            count as nat == be_to_u16(d.subrange(0, 2)) as nat,
            rd_names(d, 2, count as nat) == match rd_names(d, pos as int, (count - i) as nat) {
                Ok((xs, q)) => Ok((strings_view(usernames@) + xs, q)),
                Err(e) => Err(e),
            },
        decreases count - i,
    {
        let ghost acc = strings_view(usernames@);
        let (x, next) = match read_name(data, pos) {
            Ok(r) => r,
            Err(e) => {
                assert(rd_names(d, pos as int, (count - i) as nat) == Err::<
                    (Seq<Seq<char>>, int),
                    InvalidData,
                >(e));
                return Err(e);
            },
        };
        proof {
            let rest = rd_names(d, next as int, (count - i - 1) as nat);
            match rest {
                Ok((xs, q)) => {
                    assert(acc + (seq![x@] + xs) =~= acc.push(x@) + xs);
                },
                Err(_) => {},
            }
        }
        usernames.push(x);
        assert(strings_view(usernames@) =~= acc.push(usernames@[usernames@.len() - 1]@));
        pos = next;
        i = i + 1;
    }
    assert(strings_view(usernames@) + Seq::<Seq<char>>::empty() =~= strings_view(usernames@));
    Ok(usernames)
}

/// UDP authentication packet structure
/// Format: [version: u8][token: u64][username...null]
/// Sent once when client joins voice channel to authenticate
#[derive(Debug, Clone)]
pub struct UdpAuthPacket {
    pub token: u64,
    pub username: String,
}

/// UDP authentication response packet structure
/// Format: [version: u8][success: u8]
/// Server responds with success (1) or failure (0)
#[derive(Debug, Clone)]
pub struct UdpAuthResponse {
    pub success: bool,
}

/// Decoding an authentication response.
pub open spec fn auth_response_of(data: Seq<u8>) -> Result<bool, InvalidData> {
    if data.len() < 2 {
        Err(invalid("auth response too short"))
    } else if data[0] != PROTOCOL_VERSION {
        Err(invalid("unsupported protocol version"))
    } else {
        Ok(data[1] != 0)
    }
}

impl UdpAuthResponse {
    pub fn new(success: bool) -> (r: Self)
        ensures
            r.success == success,
    {
        UdpAuthResponse { success }
    }

    /// Encode response to binary format
    pub fn encode(&self) -> (res: Result<Vec<u8>, InvalidData>)
        ensures
            res matches Ok(b) && b@ == seq![PROTOCOL_VERSION, bool_byte(self.success)],
    {
        let mut buf: Vec<u8> = Vec::new();
        buf.push(PROTOCOL_VERSION);
        buf.push(if self.success {
            1u8
        } else {
            0u8
        });
        assert(buf@ =~= seq![PROTOCOL_VERSION, bool_byte(self.success)]);
        Ok(buf)
    }

    /// Decode response from binary format
    pub fn decode(data: &[u8]) -> (res: Result<Self, InvalidData>)
        ensures
            match auth_response_of(data@) {
                Ok(b) => res matches Ok(r) && r.success == b,
                Err(e) => res matches Err(x) && x == e,
            },
    {
        if data.len() < 2 {
            return Err(InvalidData { message: "auth response too short" });
        }
        let version = data[0];
        if version != PROTOCOL_VERSION {
            return Err(InvalidData { message: "unsupported protocol version" });
        }
        let success = data[1] != 0;
        Ok(UdpAuthResponse { success })
    }
}

/// The bytes of an authentication packet.
pub open spec fn auth_packet_bytes(token: u64, username: Seq<char>) -> Seq<u8> {
    seq![PROTOCOL_VERSION] + u64_be(token) + utf8(username) + seq![0u8]
}

/// Decoding an authentication packet: token, name, and the bytes taken
/// (through the zero after the name).
pub open spec fn auth_packet_of(data: Seq<u8>) -> Result<(u64, Seq<char>, int), InvalidData> {
    if data.len() < 10 {
        Err(invalid("auth packet too short"))
    } else if data[0] != PROTOCOL_VERSION {
        Err(invalid("unsupported protocol version"))
    } else {
        let z = first_zero(data, 9);
        if z >= data.len() {
            Err(invalid("username not null-terminated in auth packet"))
        } else if !valid_utf8(data.subrange(9, z)) {
            Err(invalid("invalid UTF-8 in username"))
        } else {
            Ok((be_to_u64(data.subrange(1, 9)), decode_utf8(data.subrange(9, z)), z + 1))
        }
    }
}

impl UdpAuthPacket {
    pub fn new(token: u64, username: String) -> (p: Self)
        ensures
            p.token == token,
            p.username@ == username@,
    {
        UdpAuthPacket { token, username }
    }

    /// Encode auth packet to binary format
    pub fn encode(&self) -> (res: Result<Vec<u8>, InvalidData>)
        ensures
            res matches Ok(b) && b@ == auth_packet_bytes(self.token, self.username@),
    {
        let mut buf: Vec<u8> = Vec::new();
        buf.push(PROTOCOL_VERSION);
        push_u64_be(&mut buf, self.token);
        push_bytes(&mut buf, self.username.as_str().as_bytes());
        buf.push(0u8);
        assert(buf@ =~= auth_packet_bytes(self.token, self.username@));
        Ok(buf)
    }

    /// Decode auth packet from binary format
    pub fn decode(data: &[u8]) -> (res: Result<(Self, usize), InvalidData>)
        ensures
            match auth_packet_of(data@) {
                Ok((token, name, n)) => res matches Ok((p, m)) && p.token == token
                    && p.username@ == name && m == n,
                Err(e) => res matches Err(x) && x == e,
            },
    {
        if data.len() < 10 {
            return Err(InvalidData { message: "auth packet too short" });
        }
        let version = data[0];
        if version != PROTOCOL_VERSION {
            return Err(InvalidData { message: "unsupported protocol version" });
        }
        let token = read_u64_be(data, 1);
        let pos = find_zero(data, 9);
        proof {
            lemma_first_zero(data@, 9);
        }
        if pos >= data.len() {
            return Err(InvalidData { message: "username not null-terminated in auth packet" });
        }
        let username = match string_from_utf8(slice_to_vec(slice_subrange(data, 9, pos))) {
            Some(s) => s,
            None => return Err(InvalidData { message: "invalid UTF-8 in username" }),
        };
        Ok((UdpAuthPacket { token, username }, pos + 1))
    }
}

/// UDP voice packet structure
/// Format: [version: u8][sequence: u32][timestamp: u32][ssrc: u32][opus_frame...]
/// Lightweight format: SSRC is computed from username, not transmitted
#[derive(Debug, Clone)]
pub struct VoicePacket {
    pub sequence: u32,
    pub timestamp: u32,
    pub ssrc: u32,  // SSRC computed from sender's username
    pub opus_frame: Vec<u8>,
}

/// The bytes of a voice packet.
pub open spec fn voice_packet_bytes(sequence: u32, timestamp: u32, ssrc: u32, opus: Seq<u8>) -> Seq<u8> {
    seq![PROTOCOL_VERSION] + u32_be(sequence) + u32_be(timestamp) + u32_be(ssrc) + opus
}

/// Decoding a voice packet: the header fields and the frame, which runs to
/// the end of the datagram.
pub open spec fn voice_packet_of(data: Seq<u8>) -> Result<(u32, u32, u32, Seq<u8>), InvalidData> {
    if data.len() < 13 {
        Err(invalid("voice packet too short"))
    } else if data[0] != PROTOCOL_VERSION {
        Err(invalid("unsupported protocol version"))
    } else {
        Ok(
            (
                be_to_u32(data.subrange(1, 5)),
                be_to_u32(data.subrange(5, 9)),
                be_to_u32(data.subrange(9, 13)),
                data.subrange(13, data.len() as int),
            ),
        )
    }
}

impl VoicePacket {
    pub fn new(sequence: u32, timestamp: u32, ssrc: u32, opus_frame: Vec<u8>) -> (p: Self)
        ensures
            p.sequence == sequence,
            p.timestamp == timestamp,
            p.ssrc == ssrc,
            p.opus_frame@ == opus_frame@,
    {
        VoicePacket { sequence, timestamp, ssrc, opus_frame }
    }

    /// Encode voice packet to binary format
    pub fn encode(&self) -> (res: Result<Vec<u8>, InvalidData>)
        ensures
            res matches Ok(b) && b@ == voice_packet_bytes(
                self.sequence,
                self.timestamp,
                self.ssrc,
                self.opus_frame@,
            ),
    {
        let mut buf: Vec<u8> = Vec::new();
        buf.push(PROTOCOL_VERSION);
        push_u32_be(&mut buf, self.sequence);
        push_u32_be(&mut buf, self.timestamp);
        push_u32_be(&mut buf, self.ssrc);
        push_bytes(&mut buf, self.opus_frame.as_slice());
        assert(buf@ =~= voice_packet_bytes(
            self.sequence,
            self.timestamp,
            self.ssrc,
            self.opus_frame@,
        ));
        Ok(buf)
    }

    /// Decode voice packet from binary format
    pub fn decode(data: &[u8]) -> (res: Result<(Self, usize), InvalidData>)
        ensures
            match voice_packet_of(data@) {
                Ok((sequence, timestamp, ssrc, opus)) => res matches Ok((p, n)) && p.sequence
                    == sequence && p.timestamp == timestamp && p.ssrc == ssrc && p.opus_frame@
                    == opus && n == data@.len(),
                Err(e) => res matches Err(x) && x == e,
            },
    {
        if data.len() < 13 {
            return Err(InvalidData { message: "voice packet too short" });
        }
        let version = data[0];
        if version != PROTOCOL_VERSION {
            return Err(InvalidData { message: "unsupported protocol version" });
        }
        let sequence = read_u32_be(data, 1);
        let timestamp = read_u32_be(data, 5);
        let ssrc = read_u32_be(data, 9);
        let opus_frame = slice_to_vec(slice_subrange(data, 13, data.len()));
        let final_pos = data.len();
        Ok((VoicePacket { sequence, timestamp, ssrc, opus_frame }, final_pos))
    }
}

/// A TCP packet is decoded back from its bytes, whatever follows them in
/// the stream, when its payload length fits the `u16` field.
pub proof fn lemma_tcp_packet_roundtrip(t: PacketTypeId, payload: Seq<u8>, rest: Seq<u8>)
    requires
        payload.len() <= u16::MAX,
    ensures
        tcp_packet_of(tcp_packet_bytes(t, payload) + rest) == Ok::<
            (PacketTypeId, Seq<u8>, int),
            InvalidData,
        >((t, payload, 4 + payload.len() as int)),
{
    let d = tcp_packet_bytes(t, payload) + rest;
    let len = payload.len() as u16;
    assert(d.subrange(2, 4) =~= u16_be(len));
    lemma_u16_roundtrip(len);
    assert(d.subrange(4, 4 + payload.len() as int) =~= payload);
    lemma_type_byte_roundtrip(t);
}

/// A name written with its zero terminator is read back.
pub proof fn lemma_username_roundtrip(name: Seq<char>)
    ensures
        username_of(utf8(name) + seq![0u8]) == Ok::<Seq<char>, InvalidData>(name),
{
    let d = utf8(name) + seq![0u8];
    assert(d.subrange(0, d.len() - 1) =~= utf8(name));
    lemma_utf8_roundtrip(name);
}

/// In `utf8(name) + [0] + rest` at `pos`, with no NUL in the name, the first
/// zero is the terminator.
pub proof fn lemma_terminator(d: Seq<u8>, pos: int, name: Seq<char>, rest: Seq<u8>)
    requires
        !name.contains('\0'),
        0 <= pos <= d.len(),
        d.subrange(pos, d.len() as int) == utf8(name) + seq![0u8] + rest,
    ensures
        first_zero(d, pos) == pos + utf8(name).len(),
        d.subrange(pos, pos + utf8(name).len()) == utf8(name),
        d.subrange(pos + utf8(name).len() + 1, d.len() as int) == rest,
{
    let n = utf8(name).len() as int;
    let s = d.subrange(pos, d.len() as int);
    lemma_utf8_no_zero(name);
    assert(s.len() == n + 1 + rest.len());
    assert(s[n] == 0u8);
    assert(d[pos + n] == s[n]);
    assert forall|i: int| pos <= i < pos + n implies d[i] != 0 by {
        assert(s[i - pos] == d[i]);
        assert(s[i - pos] == utf8(name)[i - pos]);
        if d[i] == 0 {
            assert(utf8(name).contains(0u8));
        }
    }
    lemma_first_zero_at(d, pos, pos + n);
    assert(d.subrange(pos, pos + n) =~= utf8(name));
    assert forall|i: int| 0 <= i < rest.len() implies d.subrange(pos + n + 1, d.len() as int)[i]
        == rest[i] by {
        assert(s[n + 1 + i] == d[pos + n + 1 + i]);
        assert(s[n + 1 + i] == rest[i]);
    }
    assert(d.subrange(pos + n + 1, d.len() as int) =~= rest);
}

/// A name and port are read back, when the name holds no NUL.
pub proof fn lemma_username_with_udp_port_roundtrip(name: Seq<char>, port: u16)
    requires
        !name.contains('\0'),
    ensures
        ({
            let b = utf8(name) + seq![0u8] + u16_be(port);
            let n = utf8(name).len() as int;
            &&& name_then_value_of(
                b,
                2,
                "username with UDP port too short",
                "missing UDP port in payload",
            ) == Ok::<(Seq<char>, int), InvalidData>((name, n + 1))
            &&& be_to_u16(b.subrange(n + 1, n + 3)) == port
        }),
{
    let b = utf8(name) + seq![0u8] + u16_be(port);
    let n = utf8(name).len() as int;
    assert(b.subrange(0, b.len() as int) =~= b);
    lemma_terminator(b, 0, name, u16_be(port));
    lemma_utf8_roundtrip(name);
    assert(b.subrange(n + 1, n + 3) =~= u16_be(port));
    lemma_u16_roundtrip(port);
}

/// A name and source id are read back, when the name holds no NUL.
pub proof fn lemma_username_with_ssrc_roundtrip(name: Seq<char>, ssrc: u32)
    requires
        !name.contains('\0'),
    ensures
        ({
            let b = utf8(name) + seq![0u8] + u32_be(ssrc);
            let n = utf8(name).len() as int;
            &&& name_then_value_of(b, 4, "username with SSRC too short", "missing SSRC in payload")
                == Ok::<(Seq<char>, int), InvalidData>((name, n + 1))
            &&& be_to_u32(b.subrange(n + 1, n + 5)) == ssrc
        }),
{
    let b = utf8(name) + seq![0u8] + u32_be(ssrc);
    let n = utf8(name).len() as int;
    assert(b.subrange(0, b.len() as int) =~= b);
    lemma_terminator(b, 0, name, u32_be(ssrc));
    lemma_utf8_roundtrip(name);
    assert(b.subrange(n + 1, n + 5) =~= u32_be(ssrc));
    lemma_u32_roundtrip(ssrc);
}

/// No participant name holds a NUL.
pub open spec fn statuses_nul_free(ps: Seq<ParticipantStatus>) -> bool {
    forall|i: int| 0 <= i < ps.len() ==> !(#[trigger] ps[i]).username.contains('\0')
}

/// No name holds a NUL.
pub open spec fn names_nul_free(ns: Seq<Seq<char>>) -> bool {
    forall|i: int| 0 <= i < ns.len() ==> !(#[trigger] ns[i]).contains('\0')
}

proof fn lemma_rd_statuses_at(d: Seq<u8>, pos: int, xs: Seq<ParticipantStatus>)
    requires
        0 <= pos <= d.len(),
        statuses_nul_free(xs),
        d.subrange(pos, d.len() as int) == statuses_bytes(xs),
    ensures
        rd_statuses(d, pos, xs.len()) matches Ok((ys, _)) && ys == xs,
    decreases xs.len(),
{
    if xs.len() == 0 {
        assert(xs =~= Seq::<ParticipantStatus>::empty());
    } else {
        let x = xs[0];
        let tail = xs.drop_first();
        let n = utf8(x.username).len() as int;
        assert(!xs[0].username.contains('\0'));
        assert(d.subrange(pos, d.len() as int) =~= utf8(x.username) + seq![0u8] + (seq![
            bool_byte(x.in_voice),
        ] + statuses_bytes(tail)));
        lemma_terminator(d, pos, x.username, seq![bool_byte(x.in_voice)] + statuses_bytes(tail));
        lemma_utf8_roundtrip(x.username);
        let s = d.subrange(pos + n + 1, d.len() as int);
        assert(d[pos + n + 1] == s[0]);
        assert(d.subrange(pos + n + 2, d.len() as int) =~= s.subrange(1, s.len() as int));
        assert(s.subrange(1, s.len() as int) =~= statuses_bytes(tail));
        assert(statuses_nul_free(tail)) by {
            assert forall|i: int| 0 <= i < tail.len() implies !(
            #[trigger] tail[i]).username.contains('\0') by {
                assert(tail[i] == xs[i + 1]);
            }
        }
        assert(rd_status(d, pos) == Ok::<(ParticipantStatus, int), InvalidData>((x, pos + n + 2)));
        lemma_rd_statuses_at(d, pos + n + 2, tail);
        assert(seq![x] + tail =~= xs);
        assert((xs.len() - 1) as nat == tail.len());
    }
}

/// A participant list with voice status is read back, when the count fits
/// its `u16` field and no name holds a NUL.
pub proof fn lemma_participant_list_with_voice_roundtrip(ps: Seq<ParticipantStatus>)
    requires
        ps.len() <= u16::MAX,
        statuses_nul_free(ps),
    ensures
        statuses_of(u16_be(ps.len() as u16) + statuses_bytes(ps)) == Ok::<
            Seq<ParticipantStatus>,
            InvalidData,
        >(ps),
{
    let c = ps.len() as u16;
    let d = u16_be(c) + statuses_bytes(ps);
    assert(d.subrange(0, 2) =~= u16_be(c));
    lemma_u16_roundtrip(c);
    assert(d.subrange(2, d.len() as int) =~= statuses_bytes(ps));
    lemma_rd_statuses_at(d, 2, ps);
}

proof fn lemma_rd_names_at(d: Seq<u8>, pos: int, xs: Seq<Seq<char>>)
    requires
        0 <= pos <= d.len(),
        names_nul_free(xs),
        d.subrange(pos, d.len() as int) == names_bytes(xs),
    ensures
        rd_names(d, pos, xs.len()) matches Ok((ys, _)) && ys == xs,
    decreases xs.len(),
{
    if xs.len() == 0 {
        assert(xs =~= Seq::<Seq<char>>::empty());
    } else {
        let x = xs[0];
        let tail = xs.drop_first();
        let n = utf8(x).len() as int;
        assert(!xs[0].contains('\0'));
        assert(d.subrange(pos, d.len() as int) =~= utf8(x) + seq![0u8] + names_bytes(tail));
        lemma_terminator(d, pos, x, names_bytes(tail));
        lemma_utf8_roundtrip(x);
        assert(names_nul_free(tail)) by {
            assert forall|i: int| 0 <= i < tail.len() implies !(#[trigger] tail[i]).contains(
                '\0',
            ) by {
                assert(tail[i] == xs[i + 1]);
            }
        }
        assert(rd_name(d, pos) == Ok::<(Seq<char>, int), InvalidData>((x, pos + n + 1)));
        lemma_rd_names_at(d, pos + n + 1, tail);
        assert(seq![x] + tail =~= xs);
        assert((xs.len() - 1) as nat == tail.len());
    }
}

/// A plain name list is read back, when the count fits its `u16` field and
/// no name holds a NUL.
pub proof fn lemma_participant_list_roundtrip(ns: Seq<Seq<char>>)
    requires
        ns.len() <= u16::MAX,
        names_nul_free(ns),
    ensures
        names_of(u16_be(ns.len() as u16) + names_bytes(ns)) == Ok::<Seq<Seq<char>>, InvalidData>(
            ns,
        ),
{
    let c = ns.len() as u16;
    let d = u16_be(c) + names_bytes(ns);
    assert(d.subrange(0, 2) =~= u16_be(c));
    lemma_u16_roundtrip(c);
    assert(d.subrange(2, d.len() as int) =~= names_bytes(ns));
    lemma_rd_names_at(d, 2, ns);
}

/// A voice token is read back.
pub proof fn lemma_voice_token_roundtrip(token: u64)
    ensures
        voice_token_of(u64_be(token)) == Ok::<u64, InvalidData>(token),
{
    assert(u64_be(token).subrange(0, 8) =~= u64_be(token));
    lemma_u64_roundtrip(token);
}

/// An authentication response is read back.
pub proof fn lemma_auth_response_roundtrip(success: bool)
    ensures
        auth_response_of(seq![PROTOCOL_VERSION, bool_byte(success)]) == Ok::<bool, InvalidData>(
            success,
        ),
{
}

/// An authentication packet is read back, whatever follows it, when the name
/// holds no NUL; it takes the bytes through the terminator.
pub proof fn lemma_auth_packet_roundtrip(token: u64, name: Seq<char>, rest: Seq<u8>)
    requires
        !name.contains('\0'),
    ensures
        auth_packet_of(auth_packet_bytes(token, name) + rest) == Ok::<
            (u64, Seq<char>, int),
            InvalidData,
        >((token, name, 10 + utf8(name).len() as int)),
{
    let d = auth_packet_bytes(token, name) + rest;
    assert(d.subrange(1, 9) =~= u64_be(token));
    lemma_u64_roundtrip(token);
    assert(d.subrange(9, d.len() as int) =~= utf8(name) + seq![0u8] + rest);
    lemma_terminator(d, 9, name, rest);
    lemma_utf8_roundtrip(name);
}

/// A voice packet is read back.
pub proof fn lemma_voice_packet_roundtrip(sequence: u32, timestamp: u32, ssrc: u32, opus: Seq<u8>)
    ensures
        voice_packet_of(voice_packet_bytes(sequence, timestamp, ssrc, opus)) == Ok::<
            (u32, u32, u32, Seq<u8>),
            InvalidData,
        >((sequence, timestamp, ssrc, opus)),
{
    let d = voice_packet_bytes(sequence, timestamp, ssrc, opus);
    assert(d.subrange(1, 5) =~= u32_be(sequence));
    assert(d.subrange(5, 9) =~= u32_be(timestamp));
    assert(d.subrange(9, 13) =~= u32_be(ssrc));
    assert(d.subrange(13, d.len() as int) =~= opus);
    lemma_u32_roundtrip(sequence);
    lemma_u32_roundtrip(timestamp);
    lemma_u32_roundtrip(ssrc);
}

} // verus!
