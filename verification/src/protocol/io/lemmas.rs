//! What a read finds where a write put a field: stated over the suffix of the
//! buffer that starts at the cursor.
use crate::protocol::io::reader::{rd_bool, rd_string, rd_u16, rd_u32, rd_u64, rd_u8};
use crate::protocol::io::writer::{bool_byte, string_field};
use crate::wire::{
    lemma_u16_roundtrip,
    lemma_u32_roundtrip,
    lemma_u64_roundtrip,
    lemma_utf8_roundtrip,
    u16_be,
    u32_be,
    u64_be,
    utf8,
};
use vstd::prelude::*;

verus! {

/// The bytes of `d` from `p` to the end.
pub open spec fn suffix(d: Seq<u8>, p: int) -> Seq<u8> {
    d.subrange(p, d.len() as int)
}

/// A byte written at `p` is read back at `p`, and the cursor moves past it.
pub proof fn lemma_rd_u8_at(d: Seq<u8>, p: int, v: u8, rest: Seq<u8>)
    requires
        0 <= p <= d.len(),
        suffix(d, p) == seq![v] + rest,
    ensures
        rd_u8(d, p) == Ok::<(u8, int), crate::protocol::error::ProtocolError>((v, p + 1)),
        suffix(d, p + 1) == rest,
{
    assert(suffix(d, p)[0] == v);
    assert(suffix(d, p + 1) =~= suffix(d, p).subrange(1, suffix(d, p).len() as int));
    assert((seq![v] + rest).subrange(1, (seq![v] + rest).len() as int) =~= rest);
}

/// A flag written at `p` is read back at `p`, and the cursor moves past it.
pub proof fn lemma_rd_bool_at(d: Seq<u8>, p: int, v: bool, rest: Seq<u8>)
    requires
        0 <= p <= d.len(),
        suffix(d, p) == seq![bool_byte(v)] + rest,
    ensures
        rd_bool(d, p) == Ok::<(bool, int), crate::protocol::error::ProtocolError>((v, p + 1)),
        suffix(d, p + 1) == rest,
{
    lemma_rd_u8_at(d, p, bool_byte(v), rest);
}

/// A `u16` written at `p` is read back at `p`, and the cursor moves past it.
pub proof fn lemma_rd_u16_at(d: Seq<u8>, p: int, v: u16, rest: Seq<u8>)
    requires
        0 <= p <= d.len(),
        suffix(d, p) == u16_be(v) + rest,
    ensures
        rd_u16(d, p) == Ok::<(u16, int), crate::protocol::error::ProtocolError>((v, p + 2)),
        suffix(d, p + 2) == rest,
{
    let s = suffix(d, p);
    assert(s.len() >= 2);
    assert(d.subrange(p, p + 2) =~= u16_be(v)) by {
        assert(d.subrange(p, p + 2) =~= s.subrange(0, 2));
        assert((u16_be(v) + rest).subrange(0, 2) =~= u16_be(v));
    }
    lemma_u16_roundtrip(v);
    assert(suffix(d, p + 2) =~= s.subrange(2, s.len() as int));
    assert((u16_be(v) + rest).subrange(2, s.len() as int) =~= rest);
}

/// A `u32` written at `p` is read back at `p`, and the cursor moves past it.
pub proof fn lemma_rd_u32_at(d: Seq<u8>, p: int, v: u32, rest: Seq<u8>)
    requires
        0 <= p <= d.len(),
        suffix(d, p) == u32_be(v) + rest,
    ensures
        rd_u32(d, p) == Ok::<(u32, int), crate::protocol::error::ProtocolError>((v, p + 4)),
        suffix(d, p + 4) == rest,
{
    let s = suffix(d, p);
    assert(s.len() >= 4);
    assert(d.subrange(p, p + 4) =~= u32_be(v)) by {
        assert(d.subrange(p, p + 4) =~= s.subrange(0, 4));
        assert((u32_be(v) + rest).subrange(0, 4) =~= u32_be(v));
    }
    lemma_u32_roundtrip(v);
    assert(suffix(d, p + 4) =~= s.subrange(4, s.len() as int));
    assert((u32_be(v) + rest).subrange(4, s.len() as int) =~= rest);
}

/// A `u64` written at `p` is read back at `p`, and the cursor moves past it.
pub proof fn lemma_rd_u64_at(d: Seq<u8>, p: int, v: u64, rest: Seq<u8>)
    requires
        0 <= p <= d.len(),
        suffix(d, p) == u64_be(v) + rest,
    ensures
        rd_u64(d, p) == Ok::<(u64, int), crate::protocol::error::ProtocolError>((v, p + 8)),
        suffix(d, p + 8) == rest,
{
    let s = suffix(d, p);
    assert(s.len() >= 8);
    assert(d.subrange(p, p + 8) =~= u64_be(v)) by {
        assert(d.subrange(p, p + 8) =~= s.subrange(0, 8));
        assert((u64_be(v) + rest).subrange(0, 8) =~= u64_be(v));
    }
    lemma_u64_roundtrip(v);
    assert(suffix(d, p + 8) =~= s.subrange(8, s.len() as int));
    assert((u64_be(v) + rest).subrange(8, s.len() as int) =~= rest);
}

/// A string written with its length prefix at `p` is read back at `p`, and
/// the cursor moves past it.
pub proof fn lemma_rd_string_at(d: Seq<u8>, p: int, v: Seq<char>, rest: Seq<u8>)
    requires
        0 <= p <= d.len(),
        utf8(v).len() <= u16::MAX,
        suffix(d, p) == string_field(v) + rest,
    ensures
        rd_string(d, p) == Ok::<(Seq<char>, int), crate::protocol::error::ProtocolError>(
            (v, p + 2 + utf8(v).len()),
        ),
        suffix(d, p + 2 + utf8(v).len()) == rest,
{
    let n = utf8(v).len();
    let len16 = n as u16;
    assert(suffix(d, p) =~= u16_be(len16) + (utf8(v) + rest));
    lemma_rd_u16_at(d, p, len16, utf8(v) + rest);
    let s = suffix(d, p + 2);
    assert(d.subrange(p + 2, p + 2 + n) =~= utf8(v)) by {
        assert(d.subrange(p + 2, p + 2 + n) =~= s.subrange(0, n as int));
        assert((utf8(v) + rest).subrange(0, n as int) =~= utf8(v));
    }
    lemma_utf8_roundtrip(v);
    assert(suffix(d, p + 2 + n) =~= s.subrange(n as int, s.len() as int));
    assert((utf8(v) + rest).subrange(n as int, s.len() as int) =~= rest);
}

} // verus!
