//! The two byte orders, as sequences of bytes, for 32- and 64-bit values.
use vstd::prelude::*;

verus! {

/// The bytes of `v`, most significant first.
pub open spec fn u32_be_bytes(v: u32) -> Seq<u8> {
    seq![(v >> 24) as u8, (v >> 16) as u8, (v >> 8) as u8, v as u8]
}

/// The bytes of `v`, least significant first.
pub open spec fn u32_le_bytes(v: u32) -> Seq<u8> {
    seq![v as u8, (v >> 8) as u8, (v >> 16) as u8, (v >> 24) as u8]
}

/// The value whose most significant byte is `b[0]`.
pub open spec fn u32_from_be(b: Seq<u8>) -> u32 {
    ((b[0] as u32) << 24) | ((b[1] as u32) << 16) | ((b[2] as u32) << 8) | (b[3] as u32)
}

/// The value whose least significant byte is `b[0]`.
pub open spec fn u32_from_le(b: Seq<u8>) -> u32 {
    ((b[3] as u32) << 24) | ((b[2] as u32) << 16) | ((b[1] as u32) << 8) | (b[0] as u32)
}

/// The bytes of `v`, most significant first.
pub open spec fn u64_be_bytes(v: u64) -> Seq<u8> {
    seq![
        (v >> 56) as u8,
        (v >> 48) as u8,
        (v >> 40) as u8,
        (v >> 32) as u8,
        (v >> 24) as u8,
        (v >> 16) as u8,
        (v >> 8) as u8,
        v as u8,
    ]
}

/// The bytes of `v`, least significant first.
pub open spec fn u64_le_bytes(v: u64) -> Seq<u8> {
    seq![
        v as u8,
        (v >> 8) as u8,
        (v >> 16) as u8,
        (v >> 24) as u8,
        (v >> 32) as u8,
        (v >> 40) as u8,
        (v >> 48) as u8,
        (v >> 56) as u8,
    ]
}

/// The value of eight bytes, most significant first.
pub open spec fn u64_of8(b0: u8, b1: u8, b2: u8, b3: u8, b4: u8, b5: u8, b6: u8, b7: u8) -> u64 {
    ((b0 as u64) << 56) | ((b1 as u64) << 48) | ((b2 as u64) << 40) | ((b3 as u64) << 32) | ((
    b4 as u64) << 24) | ((b5 as u64) << 16) | ((b6 as u64) << 8) | (b7 as u64)
}

/// The value whose most significant byte is `b[0]`.
pub open spec fn u64_from_be(b: Seq<u8>) -> u64 {
    u64_of8(b[0], b[1], b[2], b[3], b[4], b[5], b[6], b[7])
}

/// The value whose least significant byte is `b[0]`.
pub open spec fn u64_from_le(b: Seq<u8>) -> u64 {
    u64_of8(b[7], b[6], b[5], b[4], b[3], b[2], b[1], b[0])
}

proof fn lemma_u32_split(v: u32)
    by (bit_vector)
    ensures
        v == ((((v >> 24) as u8) as u32) << 24) | ((((v >> 16) as u8) as u32) << 16) | ((((v
            >> 8) as u8) as u32) << 8) | ((v as u8) as u32),
{
}

proof fn lemma_u32_join(b0: u8, b1: u8, b2: u8, b3: u8)
    by (bit_vector)
    ensures
        ({
            let v = ((b0 as u32) << 24) | ((b1 as u32) << 16) | ((b2 as u32) << 8) | (b3 as u32);
            &&& (v >> 24) as u8 == b0
            &&& (v >> 16) as u8 == b1
            &&& (v >> 8) as u8 == b2
            &&& v as u8 == b3
        }),
{
}

proof fn lemma_u64_split(v: u64)
    by (bit_vector)
    ensures
        v == u64_of8(
            (v >> 56) as u8,
            (v >> 48) as u8,
            (v >> 40) as u8,
            (v >> 32) as u8,
            (v >> 24) as u8,
            (v >> 16) as u8,
            (v >> 8) as u8,
            v as u8,
        ),
{
}

proof fn lemma_u64_join(b0: u8, b1: u8, b2: u8, b3: u8, b4: u8, b5: u8, b6: u8, b7: u8)
    by (bit_vector)
    ensures
        ({
            let v = u64_of8(b0, b1, b2, b3, b4, b5, b6, b7);
            &&& (v >> 56) as u8 == b0
            &&& (v >> 48) as u8 == b1
            &&& (v >> 40) as u8 == b2
            &&& (v >> 32) as u8 == b3
            &&& (v >> 24) as u8 == b4
            &&& (v >> 16) as u8 == b5
            &&& (v >> 8) as u8 == b6
            &&& v as u8 == b7
        }),
{
}

/// Reading back the bytes that a value is stored as gives the value, in either order.
pub proof fn lemma_u32_value_round_trip(v: u32)
    ensures
        u32_from_be(u32_be_bytes(v)) == v,
        u32_from_le(u32_le_bytes(v)) == v,
{
    lemma_u32_split(v);
}

/// Four bytes read as a value and stored again are the same four bytes, in either order.
pub proof fn lemma_u32_bytes_round_trip(b: Seq<u8>)
    requires
        b.len() == 4,
    ensures
        u32_be_bytes(u32_from_be(b)) == b,
        u32_le_bytes(u32_from_le(b)) == b,
{
    lemma_u32_join(b[0], b[1], b[2], b[3]);
    lemma_u32_join(b[3], b[2], b[1], b[0]);
    assert(u32_be_bytes(u32_from_be(b)) =~= b);
    assert(u32_le_bytes(u32_from_le(b)) =~= b);
}

/// Reading back the bytes that a value is stored as gives the value, in either order.
pub proof fn lemma_u64_value_round_trip(v: u64)
    ensures
        u64_from_be(u64_be_bytes(v)) == v,
        u64_from_le(u64_le_bytes(v)) == v,
{
    lemma_u64_split(v);
}

/// Eight bytes read as a value and stored again are the same eight bytes, in either order.
pub proof fn lemma_u64_bytes_round_trip(b: Seq<u8>)
    requires
        b.len() == 8,
    ensures
        u64_be_bytes(u64_from_be(b)) == b,
        u64_le_bytes(u64_from_le(b)) == b,
{
    lemma_u64_join(b[0], b[1], b[2], b[3], b[4], b[5], b[6], b[7]);
    lemma_u64_join(b[7], b[6], b[5], b[4], b[3], b[2], b[1], b[0]);
    assert(u64_be_bytes(u64_from_be(b)) =~= b);
    assert(u64_le_bytes(u64_from_le(b)) =~= b);
}

/// Bytes that are all zero stand for zero, in either order and at either width.
pub proof fn lemma_zero_bytes()
    ensures
        u32_from_be(Seq::new(4, |_i: int| 0u8)) == 0,
        u32_from_le(Seq::new(4, |_i: int| 0u8)) == 0,
        u64_from_be(Seq::new(8, |_i: int| 0u8)) == 0,
        u64_from_le(Seq::new(8, |_i: int| 0u8)) == 0,
        u32_be_bytes(0) == Seq::new(4, |_i: int| 0u8),
        u32_le_bytes(0) == Seq::new(4, |_i: int| 0u8),
        u64_be_bytes(0) == Seq::new(8, |_i: int| 0u8),
        u64_le_bytes(0) == Seq::new(8, |_i: int| 0u8),
{
    assert(((0u8 as u32) << 24) | ((0u8 as u32) << 16) | ((0u8 as u32) << 8) | (0u8 as u32) == 0)
        by (bit_vector);
    assert(u64_of8(0, 0, 0, 0, 0, 0, 0, 0) == 0) by (bit_vector);
    assert((0u32 >> 24) as u8 == 0 && (0u32 >> 16) as u8 == 0 && (0u32 >> 8) as u8 == 0)
        by (bit_vector);
    assert((0u64 >> 56) as u8 == 0 && (0u64 >> 48) as u8 == 0 && (0u64 >> 40) as u8 == 0 && (0u64
        >> 32) as u8 == 0 && (0u64 >> 24) as u8 == 0 && (0u64 >> 16) as u8 == 0 && (0u64 >> 8) as u8
        == 0) by (bit_vector);
    assert(u32_be_bytes(0) =~= Seq::new(4, |_i: int| 0u8));
    assert(u32_le_bytes(0) =~= Seq::new(4, |_i: int| 0u8));
    assert(u64_be_bytes(0) =~= Seq::new(8, |_i: int| 0u8));
    assert(u64_le_bytes(0) =~= Seq::new(8, |_i: int| 0u8));
}

} // verus!
