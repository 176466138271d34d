//! The bit buffer under the tag stream, and the numbers that runs of bits
//! stand for.

use bitvec::field::BitField;
use bitvec::order::Lsb0;
use bitvec::slice::BitSlice;
use bitvec::vec::BitVec;
use vstd::arithmetic::div_mod::{lemma_div_denominator, lemma_fundamental_div_mod};
use vstd::arithmetic::power2::{lemma2_to64, lemma_pow2_pos, lemma_pow2_unfold, pow2};
use vstd::prelude::*;

verus! {

/// A growable sequence of bits: a `BitVec` of the bitvec crate, over machine
/// words, with the least significant bit of each word first. Verus sees
/// nothing inside it. What it knows of one comes from the contracts of the
/// methods below, each of which makes one call into that crate and is
/// believed, not proved.
#[verifier::external_body]
pub struct Bits {
    inner: BitVec<usize, Lsb0>,
}

/// The bits that a buffer holds, first to last.
pub uninterp spec fn bits_of(bits: Bits) -> Seq<bool>;

/// The largest number of bits that a buffer can hold: an eighth of what a
/// `usize` counts, rounded down.
pub open spec fn spec_max_bits() -> nat {
    (usize::MAX / 8) as nat
}

/// Binary digit `k` of `value`, the least significant being digit 0.
pub open spec fn bit_at(value: nat, k: nat) -> bool {
    (value / pow2(k)) % 2 == 1
}

/// The number that a run of bits spells, least significant bit first. The
/// empty run spells 0.
pub open spec fn bits_value(bits: Seq<bool>) -> nat
    decreases bits.len(),
{
    if bits.len() == 0 {
        0
    } else {
        (if bits[0] {
            1nat
        } else {
            0nat
        }) + 2 * bits_value(bits.skip(1))
    }
}

/// The first `width` binary digits of `value`, least significant first.
pub open spec fn bits_from(value: nat, width: nat) -> Seq<bool> {
    Seq::new(width, |k: int| bit_at(value, k as nat))
}

impl Bits {
    /// `BitSlice::MAX_BITS` of bitvec: the length that no bit vector exceeds,
    /// which that crate sets to all ones shifted right by three places.
    #[verifier::external_body]
    pub(crate) fn max_bits() -> (limit: usize)
        ensures
            limit == spec_max_bits(),
    {
        BitSlice::<usize, Lsb0>::MAX_BITS
    }

    /// `BitVec::new` of bitvec: a vector of no bits.
    #[verifier::external_body]
    pub(crate) fn new() -> (bits: Bits)
        ensures
            bits_of(bits) == Seq::<bool>::empty(),
    {
        Bits { inner: BitVec::new() }
    }

    /// `BitVec::with_capacity` of bitvec: a vector of no bits with room for
    /// `capacity` of them. It panics for a capacity above the limit, which
    /// `requires` leaves out.
    #[verifier::external_body]
    pub(crate) fn with_capacity(capacity: usize) -> (bits: Bits)
        requires
            capacity <= spec_max_bits(),
        ensures
            bits_of(bits) == Seq::<bool>::empty(),
    {
        Bits { inner: BitVec::with_capacity(capacity) }
    }

    /// `BitVec::len` of bitvec: the number of bits held.
    #[verifier::external_body]
    pub(crate) fn len(&self) -> (len: usize)
        ensures
            len == bits_of(*self).len(),
    {
        self.inner.len()
    }

    /// `BitVec::capacity` of bitvec: the number of bits that fit before the
    /// vector allocates again, which is never less than the number held. It
    /// panics where that number exceeds a `usize`; no vector within the
    /// limit has so much room.
    #[verifier::external_body]
    pub(crate) fn capacity(&self) -> (capacity: usize)
        ensures
            capacity >= bits_of(*self).len(),
    {
        self.inner.capacity()
    }

    /// `BitVec::reserve` of bitvec: makes room for `additional` more bits and
    /// leaves the bits held as they are. It panics where the sum of the two
    /// lengths exceeds the limit, which `requires` leaves out.
    #[verifier::external_body]
    pub(crate) fn reserve(&mut self, additional: usize)
        requires
            bits_of(*old(self)).len() + additional <= spec_max_bits(),
        ensures
            bits_of(*final(self)) == bits_of(*old(self)),
    {
        self.inner.reserve(additional)
    }

    /// `BitVec::push` of bitvec: appends one bit. It panics on a vector that
    /// is at the limit, which `requires` leaves out.
    #[verifier::external_body]
    pub(crate) fn push(&mut self, bit: bool)
        requires
            bits_of(*old(self)).len() < spec_max_bits(),
        ensures
            bits_of(*final(self)) == bits_of(*old(self)).push(bit),
    {
        self.inner.push(bit)
    }

    /// `BitVec::truncate` of bitvec: keeps the first `len` bits, and all of
    /// them where there are no more than `len`.
    #[verifier::external_body]
    pub(crate) fn truncate(&mut self, len: usize)
        ensures
            len < bits_of(*old(self)).len() ==> bits_of(*final(self)) == bits_of(*old(self)).take(
                len as int,
            ),
            len >= bits_of(*old(self)).len() ==> bits_of(*final(self)) == bits_of(*old(self)),
    {
        self.inner.truncate(len)
    }

    /// `BitVec::clear` of bitvec: drops every bit.
    #[verifier::external_body]
    pub(crate) fn clear(&mut self)
        ensures
            bits_of(*final(self)) == Seq::<bool>::empty(),
    {
        self.inner.clear()
    }

    /// `BitField::load_le` of bitvec on the bits from `start` up to `end`:
    /// the number that they spell, the first bit being the least
    /// significant. It panics on an empty run, on one longer than a word and
    /// on one that leaves the vector, all of which `requires` leaves out.
    #[verifier::external_body]
    pub(crate) fn load(&self, start: usize, end: usize) -> (value: usize)
        requires
            start < end <= bits_of(*self).len(),
            end - start <= usize::BITS,
        ensures
            value == bits_value(bits_of(*self).subrange(start as int, end as int)),
    {
        self.inner[start..end].load_le::<usize>()
    }

    /// `BitField::store_le` of bitvec on the bits from `start` up to `end`:
    /// writes the low binary digits of `value` there, the least significant
    /// first, and leaves every other bit as it is. It panics on the runs on
    /// which `load` does.
    #[verifier::external_body]
    pub(crate) fn store(&mut self, start: usize, end: usize, value: usize)
        requires
            start < end <= bits_of(*old(self)).len(),
            end - start <= usize::BITS,
        ensures
            bits_of(*final(self)) == bits_of(*old(self)).take(start as int) + bits_from(
                value as nat,
                (end - start) as nat,
            ) + bits_of(*old(self)).skip(end as int),
    {
        self.inner[start..end].store_le::<usize>(value)
    }

    /// `Clone::clone` of bitvec's `BitVec`: a vector of the same bits.
    #[verifier::external_body]
    pub(crate) fn duplicate(&self) -> (copy: Bits)
        ensures
            bits_of(copy) == bits_of(*self),
    {
        Bits { inner: self.inner.clone() }
    }

    /// `PartialEq::eq` of bitvec's `BitVec`: whether the two vectors have the
    /// same length and the same bit at each place.
    #[verifier::external_body]
    pub(crate) fn same_bits(&self, other: &Bits) -> (same: bool)
        ensures
            same == (bits_of(*self) == bits_of(*other)),
    {
        self.inner == other.inner
    }
}

/// A run of `n` bits spells a number below `2^n`.
pub proof fn lemma_bits_value_bound(bits: Seq<bool>)
    ensures
        bits_value(bits) < pow2(bits.len()),
    decreases bits.len(),
{
    if bits.len() == 0 {
        lemma2_to64();
    } else {
        lemma_bits_value_bound(bits.skip(1));
        lemma_pow2_unfold(bits.len());
    }
}

/// The first `width` digits of a number below `2^width` spell that number.
pub proof fn lemma_bits_from_value(value: nat, width: nat)
    requires
        value < pow2(width),
    ensures
        bits_value(bits_from(value, width)) == value,
    decreases width,
{
    let bits = bits_from(value, width);
    if width == 0 {
        lemma2_to64();
    } else {
        let rest = (width - 1) as nat;
        lemma_pow2_unfold(width);
        lemma2_to64();
        assert(bits.skip(1) =~= bits_from(value / 2, rest)) by {
            assert forall|k: int| 0 <= k < rest implies bits.skip(1)[k] == bit_at(
                value / 2,
                k as nat,
            ) by {
                lemma_pow2_unfold((k + 1) as nat);
                lemma_pow2_pos(k as nat);
                lemma_div_denominator(value as int, 2, pow2(k as nat) as int);
            }
        }
        lemma_bits_from_value(value / 2, rest);
        lemma_fundamental_div_mod(value as int, 2);
    }
}

} // verus!
