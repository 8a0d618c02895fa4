//! The bit-vector that backs the playing field, and what is taken on trust
//! about it.

use vstd::prelude::*;
use bitvec::order::Lsb0;
use bitvec::vec::BitVec;

verus! {

/// A growable sequence of bits, one bit of storage per cell.
///
/// The storage is a `bitvec::vec::BitVec<usize, Lsb0>`; the verifier sees the
/// value only through [`bits_of`].
#[verifier::external_body]
pub struct Bits {
    inner: BitVec<usize, Lsb0>,
}

/// The bits that a bit-vector holds, first to last.
pub uninterp spec fn bits_of(v: Bits) -> Seq<bool>;

/// The largest number of bits that a bit-vector can hold.
pub open spec fn max_bits() -> int {
    (usize::MAX as int) / 8
}

/// Calls `BitVec::repeat` with a clear bit: the result holds `len` bits,
/// none of them set. The outside function panics where `len` exceeds
/// `BitSlice::MAX_BITS`, an eighth of the `usize` range, which the
/// precondition leaves out.
#[verifier::external_body]
pub(crate) fn cleared_bits(len: usize) -> (v: Bits)
    requires
        len <= max_bits(),
    ensures
        bits_of(v).len() == len,
        forall|i: int| 0 <= i < len ==> !(#[trigger] bits_of(v)[i]),
{
    Bits { inner: BitVec::repeat(false, len) }
}

/// Indexes the bit-vector with a `usize` (`Index<usize>` of `BitSlice`): the
/// bit at `index`. Indexing at or past the length panics, which the
/// precondition leaves out.
#[verifier::external_body]
pub(crate) fn bit_at(v: &Bits, index: usize) -> (bit: bool)
    requires
        index < bits_of(*v).len(),
    ensures
        bit == bits_of(*v)[index as int],
{
    v.inner[index]
}

/// Calls `BitSlice::set`: the bit at `index` becomes `bit`, and every other
/// bit stays as it was. The outside function panics at or past the length,
/// which the precondition leaves out.
#[verifier::external_body]
pub(crate) fn set_bit(v: &mut Bits, index: usize, bit: bool)
    requires
        index < bits_of(*old(v)).len(),
    ensures
        bits_of(*final(v)) == bits_of(*old(v)).update(index as int, bit),
    no_unwind
{
    v.inner.set(index, bit);
}

} // verus!
