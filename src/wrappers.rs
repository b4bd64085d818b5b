//! The two byte-order wrapper families and their conversions.
use core::num::Wrapping;
use vstd::prelude::*;
use vstd::std_specs::convert::{FromSpec, FromSpecImpl};

use crate::encoding::{lemma_bytes_read_back, storage_of, Encoding, Native};
use crate::order::{
    lemma_u32_bytes_round_trip,
    lemma_u32_value_round_trip,
    lemma_u64_bytes_round_trip,
    lemma_u64_value_round_trip,
    lemma_zero_bytes,
    u32_be_bytes,
    u32_from_be,
    u32_from_le,
    u32_le_bytes,
    u64_be_bytes,
    u64_from_be,
    u64_from_le,
    u64_le_bytes,
};

verus! {

#[verifier::external_type_specification]
#[verifier::reject_recursive_types(T)]
pub struct ExWrapping<T>(Wrapping<T>);

/// A `T` stored with its most significant byte first, whatever the host's own order.
pub struct BigEndian<T: Native> {
    bytes: T::Storage,
}

/// A `T` stored with its least significant byte first, whatever the host's own order.
pub struct LittleEndian<T: Native> {
    bytes: T::Storage,
}

impl<T: Native> Clone for BigEndian<T> {
    fn clone(&self) -> (r: Self)
        ensures
            r == *self,
    {
        *self
    }
}

impl<T: Native> Copy for BigEndian<T> {

}

impl<T: Native> Clone for LittleEndian<T> {
    fn clone(&self) -> (r: Self)
        ensures
            r == *self,
    {
        *self
    }
}

impl<T: Native> Copy for LittleEndian<T> {

}

/// Relies on u32::from_ne_bytes: the four bytes read in the host's byte order, which is either
/// most or least significant byte first.
#[verifier::external_body]
fn u32_from_host_order(b: [u8; 4]) -> (r: u32)
    ensures
        r == u32_from_be(b@) || r == u32_from_le(b@),
{
    u32::from_ne_bytes(b)
}

/// Relies on u64::from_ne_bytes: the eight bytes read in the host's byte order, which is either
/// most or least significant byte first.
#[verifier::external_body]
fn u64_from_host_order(b: [u8; 8]) -> (r: u64)
    ensures
        r == u64_from_be(b@) || r == u64_from_le(b@),
{
    u64::from_ne_bytes(b)
}

impl View for BigEndian<u32> {
    type V = Seq<u8>;

    closed spec fn view(&self) -> Seq<u8> {
        self.bytes@
    }
}

impl Encoding<u32> for BigEndian<u32> {
    open spec fn size() -> nat {
        4
    }

    open spec fn storage(&self) -> Seq<u8> {
        self@
    }

    open spec fn encode(v: u32) -> Seq<u8> {
        u32_be_bytes(v)
    }

    open spec fn decode(b: Seq<u8>) -> u32 {
        u32_from_be(b)
    }

    proof fn lemma_storage_size(&self) {
    }

    proof fn lemma_decode_encode(v: u32) {
        lemma_u32_value_round_trip(v);
    }

    proof fn lemma_from_encodes(v: u32) {
        assert(<Self as FromSpec<u32>>::from_spec(v)@ =~= u32_be_bytes(v));
    }

    proof fn lemma_into_decodes(&self) {
    }

    fn zero() -> (r: Self) {
        let r = BigEndian { bytes: [0u8; 4] };
        assert(r@ =~= Seq::new(4, |_i: int| 0u8));
        r
    }

    fn push_storage(&self, out: &mut Vec<u8>) {
        out.push(self.bytes[0]);
        out.push(self.bytes[1]);
        out.push(self.bytes[2]);
        out.push(self.bytes[3]);
        assert(out@ =~= old(out)@ + self@);
    }
}

impl From<u32> for BigEndian<u32> {
    fn from(v: u32) -> (r: Self)
        ensures
            r@ == u32_be_bytes(v),
    {
        let r = BigEndian { bytes: [(v >> 24) as u8, (v >> 16) as u8, (v >> 8) as u8, v as u8] };
        assert(r@ =~= u32_be_bytes(v));
        r
    }
}

impl FromSpecImpl<u32> for BigEndian<u32> {
    open spec fn obeys_from_spec() -> bool {
        true
    }

    closed spec fn from_spec(v: u32) -> Self {
        BigEndian { bytes: [(v >> 24) as u8, (v >> 16) as u8, (v >> 8) as u8, v as u8] }
    }
}

impl From<Wrapping<u32>> for BigEndian<u32> {
    fn from(w: Wrapping<u32>) -> (r: Self)
        ensures
            r@ == u32_be_bytes(w.0),
    {
        let Wrapping(v) = w;
        <Self as From<u32>>::from(v)
    }
}

impl FromSpecImpl<Wrapping<u32>> for BigEndian<u32> {
    open spec fn obeys_from_spec() -> bool {
        true
    }

    open spec fn from_spec(w: Wrapping<u32>) -> Self {
        <Self as FromSpec<u32>>::from_spec(w.0)
    }
}

impl From<BigEndian<u32>> for u32 {
    fn from(e: BigEndian<u32>) -> (r: u32)
        ensures
            r == u32_from_be(e@),
    {
        let b = e.bytes;
        ((b[0] as u32) << 24)
            | ((b[1] as u32) << 16)
            | ((b[2] as u32) << 8)
            | (b[3] as u32)
    }
}

impl FromSpecImpl<BigEndian<u32>> for u32 {
    open spec fn obeys_from_spec() -> bool {
        true
    }

    open spec fn from_spec(e: BigEndian<u32>) -> u32 {
        u32_from_be(e@)
    }
}

impl BigEndian<u32> {
    /// The stored bytes read as a native integer in the host's own byte order, with the
    /// declared order not undone. Discouraged: the result depends on the host, and converting
    /// it again swaps the bytes twice. Use `u32::from` instead.
    pub fn into_raw_value(self) -> (r: u32)
        ensures
            r == u32_from_be(self@) || r == u32_from_le(self@),
    {
        u32_from_host_order(self.bytes)
    }
}

impl View for BigEndian<u64> {
    type V = Seq<u8>;

    closed spec fn view(&self) -> Seq<u8> {
        self.bytes@
    }
}

impl Encoding<u64> for BigEndian<u64> {
    open spec fn size() -> nat {
        8
    }

    open spec fn storage(&self) -> Seq<u8> {
        self@
    }

    open spec fn encode(v: u64) -> Seq<u8> {
        u64_be_bytes(v)
    }

    open spec fn decode(b: Seq<u8>) -> u64 {
        u64_from_be(b)
    }

    proof fn lemma_storage_size(&self) {
    }

    proof fn lemma_decode_encode(v: u64) {
        lemma_u64_value_round_trip(v);
    }

    proof fn lemma_from_encodes(v: u64) {
        assert(<Self as FromSpec<u64>>::from_spec(v)@ =~= u64_be_bytes(v));
    }

    proof fn lemma_into_decodes(&self) {
    }

    fn zero() -> (r: Self) {
        let r = BigEndian { bytes: [0u8; 8] };
        assert(r@ =~= Seq::new(8, |_i: int| 0u8));
        r
    }

    fn push_storage(&self, out: &mut Vec<u8>) {
        out.push(self.bytes[0]);
        out.push(self.bytes[1]);
        out.push(self.bytes[2]);
        out.push(self.bytes[3]);
        out.push(self.bytes[4]);
        out.push(self.bytes[5]);
        out.push(self.bytes[6]);
        out.push(self.bytes[7]);
        assert(out@ =~= old(out)@ + self@);
    }
}

impl From<u64> for BigEndian<u64> {
    fn from(v: u64) -> (r: Self)
        ensures
            r@ == u64_be_bytes(v),
    {
        let r = BigEndian { bytes: [(v >> 56) as u8, (v >> 48) as u8, (v >> 40) as u8, (v >> 32) as u8, (v >> 24) as u8, (v >> 16) as u8, (v >> 8) as u8, v as u8] };
        assert(r@ =~= u64_be_bytes(v));
        r
    }
}

impl FromSpecImpl<u64> for BigEndian<u64> {
    open spec fn obeys_from_spec() -> bool {
        true
    }

    closed spec fn from_spec(v: u64) -> Self {
        BigEndian { bytes: [(v >> 56) as u8, (v >> 48) as u8, (v >> 40) as u8, (v >> 32) as u8, (v >> 24) as u8, (v >> 16) as u8, (v >> 8) as u8, v as u8] }
    }
}

impl From<Wrapping<u64>> for BigEndian<u64> {
    fn from(w: Wrapping<u64>) -> (r: Self)
        ensures
            r@ == u64_be_bytes(w.0),
    {
        let Wrapping(v) = w;
        <Self as From<u64>>::from(v)
    }
}

impl FromSpecImpl<Wrapping<u64>> for BigEndian<u64> {
    open spec fn obeys_from_spec() -> bool {
        true
    }

    open spec fn from_spec(w: Wrapping<u64>) -> Self {
        <Self as FromSpec<u64>>::from_spec(w.0)
    }
}

impl From<BigEndian<u64>> for u64 {
    fn from(e: BigEndian<u64>) -> (r: u64)
        ensures
            r == u64_from_be(e@),
    {
        let b = e.bytes;
        ((b[0] as u64) << 56)
            | ((b[1] as u64) << 48)
            | ((b[2] as u64) << 40)
            | ((b[3] as u64) << 32)
            | ((b[4] as u64) << 24)
            | ((b[5] as u64) << 16)
            | ((b[6] as u64) << 8)
            | (b[7] as u64)
    }
}

impl FromSpecImpl<BigEndian<u64>> for u64 {
    open spec fn obeys_from_spec() -> bool {
        true
    }

    open spec fn from_spec(e: BigEndian<u64>) -> u64 {
        u64_from_be(e@)
    }
}

impl BigEndian<u64> {
    /// The stored bytes read as a native integer in the host's own byte order, with the
    /// declared order not undone. Discouraged: the result depends on the host, and converting
    /// it again swaps the bytes twice. Use `u64::from` instead.
    pub fn into_raw_value(self) -> (r: u64)
        ensures
            r == u64_from_be(self@) || r == u64_from_le(self@),
    {
        u64_from_host_order(self.bytes)
    }
}

impl View for LittleEndian<u32> {
    type V = Seq<u8>;

    closed spec fn view(&self) -> Seq<u8> {
        self.bytes@
    }
}

impl Encoding<u32> for LittleEndian<u32> {
    open spec fn size() -> nat {
        4
    }

    open spec fn storage(&self) -> Seq<u8> {
        self@
    }

    open spec fn encode(v: u32) -> Seq<u8> {
        u32_le_bytes(v)
    }

    open spec fn decode(b: Seq<u8>) -> u32 {
        u32_from_le(b)
    }

    proof fn lemma_storage_size(&self) {
    }

    proof fn lemma_decode_encode(v: u32) {
        lemma_u32_value_round_trip(v);
    }

    proof fn lemma_from_encodes(v: u32) {
        assert(<Self as FromSpec<u32>>::from_spec(v)@ =~= u32_le_bytes(v));
    }

    proof fn lemma_into_decodes(&self) {
    }

    fn zero() -> (r: Self) {
        let r = LittleEndian { bytes: [0u8; 4] };
        assert(r@ =~= Seq::new(4, |_i: int| 0u8));
        r
    }

    fn push_storage(&self, out: &mut Vec<u8>) {
        out.push(self.bytes[0]);
        out.push(self.bytes[1]);
        out.push(self.bytes[2]);
        out.push(self.bytes[3]);
        assert(out@ =~= old(out)@ + self@);
    }
}

impl From<u32> for LittleEndian<u32> {
    fn from(v: u32) -> (r: Self)
        ensures
            r@ == u32_le_bytes(v),
    {
        let r = LittleEndian { bytes: [v as u8, (v >> 8) as u8, (v >> 16) as u8, (v >> 24) as u8] };
        assert(r@ =~= u32_le_bytes(v));
        r
    }
}

impl FromSpecImpl<u32> for LittleEndian<u32> {
    open spec fn obeys_from_spec() -> bool {
        true
    }

    closed spec fn from_spec(v: u32) -> Self {
        LittleEndian { bytes: [v as u8, (v >> 8) as u8, (v >> 16) as u8, (v >> 24) as u8] }
    }
}

impl From<Wrapping<u32>> for LittleEndian<u32> {
    fn from(w: Wrapping<u32>) -> (r: Self)
        ensures
            r@ == u32_le_bytes(w.0),
    {
        let Wrapping(v) = w;
        <Self as From<u32>>::from(v)
    }
}

impl FromSpecImpl<Wrapping<u32>> for LittleEndian<u32> {
    open spec fn obeys_from_spec() -> bool {
        true
    }

    open spec fn from_spec(w: Wrapping<u32>) -> Self {
        <Self as FromSpec<u32>>::from_spec(w.0)
    }
}

impl From<LittleEndian<u32>> for u32 {
    fn from(e: LittleEndian<u32>) -> (r: u32)
        ensures
            r == u32_from_le(e@),
    {
        let b = e.bytes;
        ((b[3] as u32) << 24)
            | ((b[2] as u32) << 16)
            | ((b[1] as u32) << 8)
            | (b[0] as u32)
    }
}

impl FromSpecImpl<LittleEndian<u32>> for u32 {
    open spec fn obeys_from_spec() -> bool {
        true
    }

    open spec fn from_spec(e: LittleEndian<u32>) -> u32 {
        u32_from_le(e@)
    }
}

impl LittleEndian<u32> {
    /// The stored bytes read as a native integer in the host's own byte order, with the
    /// declared order not undone. Discouraged: the result depends on the host, and converting
    /// it again swaps the bytes twice. Use `u32::from` instead.
    pub fn into_raw_value(self) -> (r: u32)
        ensures
            r == u32_from_be(self@) || r == u32_from_le(self@),
    {
        u32_from_host_order(self.bytes)
    }
}

impl View for LittleEndian<u64> {
    type V = Seq<u8>;

    closed spec fn view(&self) -> Seq<u8> {
        self.bytes@
    }
}

impl Encoding<u64> for LittleEndian<u64> {
    open spec fn size() -> nat {
        8
    }

    open spec fn storage(&self) -> Seq<u8> {
        self@
    }

    open spec fn encode(v: u64) -> Seq<u8> {
        u64_le_bytes(v)
    }

    open spec fn decode(b: Seq<u8>) -> u64 {
        u64_from_le(b)
    }

    proof fn lemma_storage_size(&self) {
    }

    proof fn lemma_decode_encode(v: u64) {
        lemma_u64_value_round_trip(v);
    }

    proof fn lemma_from_encodes(v: u64) {
        assert(<Self as FromSpec<u64>>::from_spec(v)@ =~= u64_le_bytes(v));
    }

    proof fn lemma_into_decodes(&self) {
    }

    fn zero() -> (r: Self) {
        let r = LittleEndian { bytes: [0u8; 8] };
        assert(r@ =~= Seq::new(8, |_i: int| 0u8));
        r
    }

    fn push_storage(&self, out: &mut Vec<u8>) {
        out.push(self.bytes[0]);
        out.push(self.bytes[1]);
        out.push(self.bytes[2]);
        out.push(self.bytes[3]);
        out.push(self.bytes[4]);
        out.push(self.bytes[5]);
        out.push(self.bytes[6]);
        out.push(self.bytes[7]);
        assert(out@ =~= old(out)@ + self@);
    }
}

impl From<u64> for LittleEndian<u64> {
    fn from(v: u64) -> (r: Self)
        ensures
            r@ == u64_le_bytes(v),
    {
        let r = LittleEndian { bytes: [v as u8, (v >> 8) as u8, (v >> 16) as u8, (v >> 24) as u8, (v >> 32) as u8, (v >> 40) as u8, (v >> 48) as u8, (v >> 56) as u8] };
        assert(r@ =~= u64_le_bytes(v));
        r
    }
}

impl FromSpecImpl<u64> for LittleEndian<u64> {
    open spec fn obeys_from_spec() -> bool {
        true
    }

    closed spec fn from_spec(v: u64) -> Self {
        LittleEndian { bytes: [v as u8, (v >> 8) as u8, (v >> 16) as u8, (v >> 24) as u8, (v >> 32) as u8, (v >> 40) as u8, (v >> 48) as u8, (v >> 56) as u8] }
    }
}

impl From<Wrapping<u64>> for LittleEndian<u64> {
    fn from(w: Wrapping<u64>) -> (r: Self)
        ensures
            r@ == u64_le_bytes(w.0),
    {
        let Wrapping(v) = w;
        <Self as From<u64>>::from(v)
    }
}

impl FromSpecImpl<Wrapping<u64>> for LittleEndian<u64> {
    open spec fn obeys_from_spec() -> bool {
        true
    }

    open spec fn from_spec(w: Wrapping<u64>) -> Self {
        <Self as FromSpec<u64>>::from_spec(w.0)
    }
}

impl From<LittleEndian<u64>> for u64 {
    fn from(e: LittleEndian<u64>) -> (r: u64)
        ensures
            r == u64_from_le(e@),
    {
        let b = e.bytes;
        ((b[7] as u64) << 56)
            | ((b[6] as u64) << 48)
            | ((b[5] as u64) << 40)
            | ((b[4] as u64) << 32)
            | ((b[3] as u64) << 24)
            | ((b[2] as u64) << 16)
            | ((b[1] as u64) << 8)
            | (b[0] as u64)
    }
}

impl FromSpecImpl<LittleEndian<u64>> for u64 {
    open spec fn obeys_from_spec() -> bool {
        true
    }

    open spec fn from_spec(e: LittleEndian<u64>) -> u64 {
        u64_from_le(e@)
    }
}

impl LittleEndian<u64> {
    /// The stored bytes read as a native integer in the host's own byte order, with the
    /// declared order not undone. Discouraged: the result depends on the host, and converting
    /// it again swaps the bytes twice. Use `u64::from` instead.
    pub fn into_raw_value(self) -> (r: u64)
        ensures
            r == u64_from_be(self@) || r == u64_from_le(self@),
    {
        u64_from_host_order(self.bytes)
    }
}

/// Wrapping a native value and converting it back gives the value again, in either order and
/// at either width.
pub proof fn lemma_native_round_trip(a: u32, b: u64)
    ensures
        <u32 as FromSpec<BigEndian<u32>>>::from_spec(
            <BigEndian<u32> as FromSpec<u32>>::from_spec(a),
        ) == a,
        <u32 as FromSpec<LittleEndian<u32>>>::from_spec(
            <LittleEndian<u32> as FromSpec<u32>>::from_spec(a),
        ) == a,
        <u64 as FromSpec<BigEndian<u64>>>::from_spec(
            <BigEndian<u64> as FromSpec<u64>>::from_spec(b),
        ) == b,
        <u64 as FromSpec<LittleEndian<u64>>>::from_spec(
            <LittleEndian<u64> as FromSpec<u64>>::from_spec(b),
        ) == b,
{
    lemma_u32_value_round_trip(a);
    lemma_u64_value_round_trip(b);
    assert(<BigEndian<u32> as FromSpec<u32>>::from_spec(a)@ =~= u32_be_bytes(a));
    assert(<LittleEndian<u32> as FromSpec<u32>>::from_spec(a)@ =~= u32_le_bytes(a));
    assert(<BigEndian<u64> as FromSpec<u64>>::from_spec(b)@ =~= u64_be_bytes(b));
    assert(<LittleEndian<u64> as FromSpec<u64>>::from_spec(b)@ =~= u64_le_bytes(b));
}

/// Converting a wrapped value out to native and back in reproduces its stored bytes exactly.
pub proof fn lemma_storage_round_trip(
    a: BigEndian<u32>,
    b: LittleEndian<u32>,
    c: BigEndian<u64>,
    d: LittleEndian<u64>,
)
    ensures
        <BigEndian<u32> as FromSpec<u32>>::from_spec(
            <u32 as FromSpec<BigEndian<u32>>>::from_spec(a),
        )@ == a@,
        <LittleEndian<u32> as FromSpec<u32>>::from_spec(
            <u32 as FromSpec<LittleEndian<u32>>>::from_spec(b),
        )@ == b@,
        <BigEndian<u64> as FromSpec<u64>>::from_spec(
            <u64 as FromSpec<BigEndian<u64>>>::from_spec(c),
        )@ == c@,
        <LittleEndian<u64> as FromSpec<u64>>::from_spec(
            <u64 as FromSpec<LittleEndian<u64>>>::from_spec(d),
        )@ == d@,
{
    lemma_u32_bytes_round_trip(a@);
    lemma_u32_bytes_round_trip(b@);
    lemma_u64_bytes_round_trip(c@);
    lemma_u64_bytes_round_trip(d@);
    let (a1, b1, c1, d1) = (u32_from_be(a@), u32_from_le(b@), u64_from_be(c@), u64_from_le(d@));
    assert(<BigEndian<u32> as FromSpec<u32>>::from_spec(a1)@ =~= u32_be_bytes(a1));
    assert(<LittleEndian<u32> as FromSpec<u32>>::from_spec(b1)@ =~= u32_le_bytes(b1));
    assert(<BigEndian<u64> as FromSpec<u64>>::from_spec(c1)@ =~= u64_be_bytes(c1));
    assert(<LittleEndian<u64> as FromSpec<u64>>::from_spec(d1)@ =~= u64_le_bytes(d1));
}

/// The all-zero stored form, which `zero` gives, is what native zero is stored as, and it
/// converts out to zero; in either order and at either width.
pub proof fn lemma_zero_is_native_zero(
    a: BigEndian<u32>,
    b: LittleEndian<u32>,
    c: BigEndian<u64>,
    d: LittleEndian<u64>,
)
    requires
        a@ == Seq::new(4, |_i: int| 0u8),
        b@ == Seq::new(4, |_i: int| 0u8),
        c@ == Seq::new(8, |_i: int| 0u8),
        d@ == Seq::new(8, |_i: int| 0u8),
    ensures
        <BigEndian<u32> as FromSpec<u32>>::from_spec(0)@ == a@,
        <LittleEndian<u32> as FromSpec<u32>>::from_spec(0)@ == b@,
        <BigEndian<u64> as FromSpec<u64>>::from_spec(0)@ == c@,
        <LittleEndian<u64> as FromSpec<u64>>::from_spec(0)@ == d@,
        <u32 as FromSpec<BigEndian<u32>>>::from_spec(a) == 0,
        <u32 as FromSpec<LittleEndian<u32>>>::from_spec(b) == 0,
        <u64 as FromSpec<BigEndian<u64>>>::from_spec(c) == 0,
        <u64 as FromSpec<LittleEndian<u64>>>::from_spec(d) == 0,
{
    lemma_zero_bytes();
    assert(<BigEndian<u32> as FromSpec<u32>>::from_spec(0)@ =~= u32_be_bytes(0));
    assert(<LittleEndian<u32> as FromSpec<u32>>::from_spec(0)@ =~= u32_le_bytes(0));
    assert(<BigEndian<u64> as FromSpec<u64>>::from_spec(0)@ =~= u64_be_bytes(0));
    assert(<LittleEndian<u64> as FromSpec<u64>>::from_spec(0)@ =~= u64_le_bytes(0));
}

/// Wrapping a value that carries wrapped-overflow arithmetic stores exactly what wrapping its
/// underlying value stores.
pub proof fn lemma_wrapping_source(a: Wrapping<u32>, b: Wrapping<u64>)
    ensures
        <BigEndian<u32> as FromSpec<Wrapping<u32>>>::from_spec(a) == <BigEndian<
            u32,
        > as FromSpec<u32>>::from_spec(a.0),
        <LittleEndian<u32> as FromSpec<Wrapping<u32>>>::from_spec(a) == <LittleEndian<
            u32,
        > as FromSpec<u32>>::from_spec(a.0),
        <BigEndian<u64> as FromSpec<Wrapping<u64>>>::from_spec(b) == <BigEndian<
            u64,
        > as FromSpec<u64>>::from_spec(b.0),
        <LittleEndian<u64> as FromSpec<Wrapping<u64>>>::from_spec(b) == <LittleEndian<
            u64,
        > as FromSpec<u64>>::from_spec(b.0),
{
}

/// The byte view of `n` wrapped 32-bit values is `4 * n` bytes long, and reading it back four
/// bytes at a time in the matching order gives the values that were wrapped, in order.
pub proof fn lemma_u32_bytes_read_back(
    vals: Seq<u32>,
    big: Seq<BigEndian<u32>>,
    little: Seq<LittleEndian<u32>>,
)
    requires
        big.len() == vals.len(),
        little.len() == vals.len(),
        forall|i: int|
            0 <= i < vals.len() ==> #[trigger] big[i] == <BigEndian<u32> as FromSpec<
                u32,
            >>::from_spec(vals[i]),
        forall|i: int|
            0 <= i < vals.len() ==> #[trigger] little[i] == <LittleEndian<u32> as FromSpec<
                u32,
            >>::from_spec(vals[i]),
    ensures
        storage_of::<BigEndian<u32>, u32>(big).len() == 4 * vals.len(),
        storage_of::<LittleEndian<u32>, u32>(little).len() == 4 * vals.len(),
        forall|i: int|
            0 <= i < vals.len() ==> u32_from_be(
                #[trigger] storage_of::<BigEndian<u32>, u32>(big).subrange(4 * i, 4 * i + 4),
            ) == vals[i],
        forall|i: int|
            0 <= i < vals.len() ==> u32_from_le(
                #[trigger] storage_of::<LittleEndian<u32>, u32>(little).subrange(4 * i, 4 * i + 4),
            ) == vals[i],
{
    assert forall|i: int| 0 <= i < vals.len() implies #[trigger] big[i].storage()
        == u32_be_bytes(vals[i]) by {
        assert(big[i]@ =~= u32_be_bytes(vals[i]));
    }
    assert forall|i: int| 0 <= i < vals.len() implies #[trigger] little[i].storage()
        == u32_le_bytes(vals[i]) by {
        assert(little[i]@ =~= u32_le_bytes(vals[i]));
    }
    lemma_bytes_read_back::<BigEndian<u32>, u32>(vals, big);
    lemma_bytes_read_back::<LittleEndian<u32>, u32>(vals, little);
    assert forall|i: int| 0 <= i < vals.len() implies u32_from_be(
        #[trigger] storage_of::<BigEndian<u32>, u32>(big).subrange(4 * i, 4 * i + 4),
    ) == vals[i] by {
        assert(vals[i] == vals[i]);
        assert(i * 4 == 4 * i);
    }
    assert forall|i: int| 0 <= i < vals.len() implies u32_from_le(
        #[trigger] storage_of::<LittleEndian<u32>, u32>(little).subrange(4 * i, 4 * i + 4),
    ) == vals[i] by {
        assert(vals[i] == vals[i]);
        assert(i * 4 == 4 * i);
    }
}

} // verus!
