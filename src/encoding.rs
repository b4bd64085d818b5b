//! The capability of a byte-order-tagged integer, and the byte view of a run of them.
use vstd::prelude::*;
use vstd::std_specs::convert::{FromSpec, IntoSpec};

verus! {

/// A native unsigned integer that a byte-order wrapper can carry, with the array that holds
/// its bytes.
pub trait Native {
    type Storage: Copy;
}

impl Native for u32 {
    type Storage = [u8; 4];
}

impl Native for u64 {
    type Storage = [u8; 8];
}

/// A type that holds a native value of type `T` as bytes in a fixed order.
///
/// Converting in (`From<T>`) stores the value's bytes in that order; converting out
/// (`Into<T>`) reads them back. Neither can fail.
pub trait Encoding<T>: Sized + From<T> + Into<T> {
    /// How many bytes a value occupies.
    spec fn size() -> nat;

    /// The stored bytes, in memory order.
    spec fn storage(&self) -> Seq<u8>;

    /// The bytes that the native value `v` is stored as.
    spec fn encode(v: T) -> Seq<u8>;

    /// The native value that the stored bytes `b` stand for.
    spec fn decode(b: Seq<u8>) -> T;

    /// Every stored form is `size()` bytes long.
    proof fn lemma_storage_size(&self)
        ensures
            self.storage().len() == Self::size(),
    ;

    /// Decoding the bytes that `v` is stored as gives `v`.
    proof fn lemma_decode_encode(v: T)
        ensures
            Self::encode(v).len() == Self::size(),
            Self::decode(Self::encode(v)) == v,
    ;

    /// Converting in stores the encoded bytes.
    proof fn lemma_from_encodes(v: T)
        ensures
            <Self as FromSpec<T>>::obeys_from_spec(),
            <Self as FromSpec<T>>::from_spec(v).storage() == Self::encode(v),
    ;

    /// Converting out decodes the stored bytes.
    proof fn lemma_into_decodes(&self)
        ensures
            <Self as IntoSpec<T>>::obeys_into_spec(),
            <Self as IntoSpec<T>>::into_spec(*self) == Self::decode(self.storage()),
    ;

    /// The canonical zero: every stored byte is zero.
    fn zero() -> (r: Self)
        ensures
            r.storage() == Seq::new(Self::size(), |_i: int| 0u8),
    ;

    /// Appends the stored bytes, unchanged, to `out`.
    fn push_storage(&self, out: &mut Vec<u8>)
        ensures
            final(out)@ == old(out)@ + self.storage(),
    ;
}

/// The stored bytes of each of `x`, one after the other.
pub open spec fn storage_of<E: Encoding<T>, T>(x: Seq<E>) -> Seq<u8>
    decreases x.len(),
{
    if x.len() == 0 {
        Seq::empty()
    } else {
        storage_of::<E, T>(x.drop_last()) + x.last().storage()
    }
}

/// The bytes of `x` form `x.len()` chunks of `E::size()` bytes, the `i`-th being the stored
/// form of `x[i]`.
pub proof fn lemma_storage_of_chunks<E: Encoding<T>, T>(x: Seq<E>)
    ensures
        storage_of::<E, T>(x).len() == x.len() * E::size(),
        forall|i: int|
            0 <= i < x.len() ==> storage_of::<E, T>(x).subrange(
                i * E::size(),
                i * E::size() + E::size(),
            ) == #[trigger] x[i].storage(),
    decreases x.len(),
{
    if x.len() > 0 {
        let p = x.drop_last();
        let s = E::size();
        let n = p.len();
        lemma_storage_of_chunks::<E, T>(p);
        x.last().lemma_storage_size();
        let sp = storage_of::<E, T>(p);
        let all = storage_of::<E, T>(x);
        assert((n + 1) * s == n * s + s) by (nonlinear_arith);
        assert forall|i: int| 0 <= i < x.len() implies all.subrange(i * s, i * s + s)
            == #[trigger] x[i].storage() by {
            if i < n {
                assert(i * s + s <= n * s) by (nonlinear_arith)
                    requires
                        i < n,
                ;
                assert(0 <= i * s) by (nonlinear_arith)
                    requires
                        0 <= i,
                ;
                assert(p[i] == x[i]);
                assert(all.subrange(i * s, i * s + s) =~= sp.subrange(i * s, i * s + s));
            } else {
                assert(all.subrange(i * s, i * s + s) =~= x.last().storage());
            }
        }
    }
}

/// Copies the stored bytes of `x`, in order, into one byte buffer: `x.len()` chunks of
/// `E::size()` bytes, the `i`-th holding `x[i]` exactly as it is stored.
pub fn as_bytes<E: Encoding<T>, T>(x: &[E]) -> (r: Vec<u8>)
    where
        T: From<E>,
    ensures
        r@ == storage_of::<E, T>(x@),
        r@.len() == x@.len() * E::size(),
        forall|i: int|
            0 <= i < x@.len() ==> r@.subrange(i * E::size(), i * E::size() + E::size())
                == #[trigger] x@[i].storage(),
{
    let mut out: Vec<u8> = Vec::new();
    let mut i: usize = 0;
    while i < x.len()
        invariant
            i <= x@.len(),
            out@ == storage_of::<E, T>(x@.take(i as int)),
        decreases x@.len() - i,
    {
        x[i].push_storage(&mut out);
        assert(x@.take(i + 1).drop_last() =~= x@.take(i as int));
        i = i + 1;
    }
    assert(x@.take(i as int) =~= x@);
    proof {
        lemma_storage_of_chunks::<E, T>(x@);
    }
    out
}

/// Cutting the bytes of a run of wrapped values into chunks of `E::size()` bytes and decoding
/// each chunk in the same order gives back the native values that were wrapped, in order.
pub proof fn lemma_bytes_read_back<E: Encoding<T>, T>(vals: Seq<T>, x: Seq<E>)
    requires
        x.len() == vals.len(),
        forall|i: int| 0 <= i < x.len() ==> #[trigger] x[i].storage() == E::encode(vals[i]),
    ensures
        storage_of::<E, T>(x).len() == vals.len() * E::size(),
        forall|i: int|
            0 <= i < vals.len() ==> E::decode(
                storage_of::<E, T>(x).subrange(i * E::size(), i * E::size() + E::size()),
            ) == #[trigger] vals[i],
{
    lemma_storage_of_chunks::<E, T>(x);
    assert forall|i: int| 0 <= i < vals.len() implies E::decode(
        storage_of::<E, T>(x).subrange(i * E::size(), i * E::size() + E::size()),
    ) == #[trigger] vals[i] by {
        assert(x[i].storage() == E::encode(vals[i]));
        E::lemma_decode_encode(vals[i]);
    }
}

/// For every encoding, wrapping a native value and converting it back gives the value again.
pub proof fn lemma_round_trip<E: Encoding<T>, T>(v: T)
    ensures
        <E as IntoSpec<T>>::into_spec(<E as FromSpec<T>>::from_spec(v)) == v,
{
    E::lemma_from_encodes(v);
    <E as FromSpec<T>>::from_spec(v).lemma_into_decodes();
    E::lemma_decode_encode(v);
}

} // verus!
