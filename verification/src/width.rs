//! How many bits a tag takes, and how many bytes an element takes with it.

use vstd::arithmetic::power2::{
    lemma2_to64, lemma_pow2_strictly_increases, lemma_pow2_unfold, pow2,
};
use vstd::layout::size_of;
use vstd::prelude::*;

verus! {

/// The number of binary digits of `x` without leading zeros: 0 for 0.
pub open spec fn spec_bit_length(x: nat) -> nat
    decreases x,
{
    if x == 0 {
        0
    } else {
        1 + spec_bit_length(x / 2)
    }
}

/// The logarithm of `x` to base 2, rounded down; 0 for 0.
pub open spec fn spec_log2(x: nat) -> nat
    decreases x,
{
    if x <= 1 {
        0
    } else {
        1 + spec_log2(x / 2)
    }
}

/// The width of a tag for `n` variants: the logarithm of `n` to base 2,
/// rounded up. One variant needs no bits; so does none.
pub open spec fn spec_tag_bits(n: nat) -> nat
    decreases n,
{
    if n <= 1 {
        0
    } else {
        1 + spec_tag_bits((n + 1) / 2)
    }
}

/// The number of whole bytes that hold `bits` bits.
pub open spec fn spec_tag_bytes(bits: nat) -> nat {
    (bits + 7) / 8
}

/// `usize::leading_zeros` of std: the zeros in front of the binary digits of
/// `x`, in a word of `usize::BITS` bits. All bits of 0 are leading zeros.
pub assume_specification[ usize::leading_zeros ](x: usize) -> (zeros: u32)
    ensures
        zeros == usize::BITS - spec_bit_length(x as nat),
;

/// A number below `2^n` has at most `n` binary digits.
pub proof fn lemma_bit_length_bound(x: nat, n: nat)
    requires
        x < pow2(n),
    ensures
        spec_bit_length(x) <= n,
    decreases x,
{
    if x > 0 {
        if n == 0 {
            lemma2_to64();
        } else {
            lemma_pow2_unfold(n);
            lemma_bit_length_bound(x / 2, (n - 1) as nat);
        }
    }
}

/// A positive number has one binary digit more than its logarithm says.
pub proof fn lemma_bit_length_is_log2(x: nat)
    requires
        x > 0,
    ensures
        spec_bit_length(x) == spec_log2(x) + 1,
    decreases x,
{
    if x > 1 {
        lemma_bit_length_is_log2(x / 2);
    } else {
        assert(spec_bit_length(0) == 0);
    }
}

/// The logarithm rounded down is the exponent of the largest power of two
/// that does not exceed `x`.
pub proof fn lemma_log2_bounds(x: nat)
    requires
        x > 0,
    ensures
        pow2(spec_log2(x)) <= x < pow2(spec_log2(x) + 1),
    decreases x,
{
    if x > 1 {
        lemma_log2_bounds(x / 2);
        lemma_pow2_unfold(spec_log2(x));
        lemma_pow2_unfold(spec_log2(x) + 1);
    } else {
        lemma2_to64();
    }
}

/// The width of a tag is the least number of bits that tells `n` variants
/// apart: `n` values fit in it, and they do not fit in one bit less.
pub proof fn lemma_tag_bits_is_least(n: nat)
    requires
        n > 0,
    ensures
        n <= pow2(spec_tag_bits(n)),
        spec_tag_bits(n) > 0 ==> pow2((spec_tag_bits(n) - 1) as nat) < n,
    decreases n,
{
    if n > 1 {
        let half = (n + 1) / 2;
        lemma_tag_bits_is_least(half);
        lemma_pow2_unfold(spec_tag_bits(n));
        if spec_tag_bits(half) > 0 {
            lemma_pow2_unfold(spec_tag_bits(half));
        } else {
            lemma2_to64();
        }
    } else {
        lemma2_to64();
    }
}

/// Powers of two are ordered as their exponents are.
pub proof fn lemma_pow2_order(a: nat, b: nat)
    ensures
        a < b <==> pow2(a) < pow2(b),
        a <= b <==> pow2(a) <= pow2(b),
{
    if a < b {
        lemma_pow2_strictly_increases(a, b);
    } else if b < a {
        lemma_pow2_strictly_increases(b, a);
    }
}

/// The width rounds the logarithm up: it is the logarithm itself for a power
/// of two, and one more for any other number.
pub proof fn lemma_tag_bits_from_log2(n: nat)
    requires
        n > 0,
    ensures
        spec_tag_bits(n) == if pow2(spec_log2(n)) < n {
            spec_log2(n) + 1
        } else {
            spec_log2(n)
        },
{
    lemma_log2_bounds(n);
    lemma_tag_bits_is_least(n);
    let low = spec_log2(n);
    let width = spec_tag_bits(n);
    lemma_pow2_order(low, width);
    if width > 0 {
        lemma_pow2_order((width - 1) as nat, low);
        lemma_pow2_order((width - 1) as nat, low + 1);
    }
}

/// A machine word holds the numbers below `2^usize::BITS`.
pub proof fn lemma_word_limit()
    ensures
        usize::MAX + 1 == pow2(usize::BITS as nat),
{
    lemma2_to64();
}

/// No tag of a `usize` count of variants is wider than a machine word.
pub proof fn lemma_tag_bits_fit_word(n: usize)
    ensures
        spec_tag_bits(n as nat) <= usize::BITS,
{
    if n > 0 {
        lemma_tag_bits_is_least(n as nat);
        lemma_word_limit();
        if spec_tag_bits(n as nat) > 0 {
            lemma_pow2_order(usize::BITS as nat, (spec_tag_bits(n as nat) - 1) as nat);
        }
    }
}

/// The number of bits in a value of type `T`.
pub fn num_bits<T>() -> (bits: usize)
    requires
        size_of::<T>() * 8 <= usize::MAX,
    ensures
        bits == size_of::<T>() * 8,
{
    core::mem::size_of::<T>() * 8
}

/// The logarithm of `x` to base 2, rounded down.
pub fn log2(x: usize) -> (log: u32)
    requires
        x > 0,
    ensures
        log == spec_log2(x as nat),
        log < usize::BITS,
        pow2(log as nat) <= x < pow2(log as nat + 1),
{
    broadcast use vstd::layout::layout_of_primitives;

    proof {
        lemma_word_limit();
        lemma_bit_length_bound(x as nat, usize::BITS as nat);
        lemma_bit_length_is_log2(x as nat);
        lemma_log2_bounds(x as nat);
    }
    num_bits::<usize>() as u32 - x.leading_zeros() - 1
}

/// The width of a tag for `num_variants` variants, in bits: the logarithm to
/// base 2, rounded up. A set of no variants has no tag: `None`.
pub fn tag_bits(num_variants: usize) -> (bits: Option<usize>)
    ensures
        num_variants == 0 <==> bits is None,
        bits matches Some(width) ==> {
            &&& width == spec_tag_bits(num_variants as nat)
            &&& width <= usize::BITS
            &&& num_variants <= pow2(width as nat)
            &&& width > 0 ==> pow2((width - 1) as nat) < num_variants
        },
{
    if num_variants == 0 {
        return None;
    }
    let log: u32 = log2(num_variants);
    let pow: usize = 1usize << log;
    proof {
        vstd::bits::lemma_usize_shl_is_mul(1usize, log as usize);
        lemma_tag_bits_from_log2(num_variants as nat);
        lemma_tag_bits_is_least(num_variants as nat);
        lemma_tag_bits_fit_word(num_variants);
    }
    if pow < num_variants {
        Some(log as usize + 1)
    } else {
        Some(log as usize)
    }
}

/// The number of whole bytes that the tag of one element takes.
pub fn tag_bytes(bits: usize) -> (bytes: usize)
    ensures
        bytes == spec_tag_bytes(bits as nat),
        bytes * 8 >= bits,
        bits > 0 ==> (bytes - 1) * 8 < bits,
{
    bits / 8 + if bits % 8 == 0 {
        0
    } else {
        1
    }
}

/// The number of bytes that one element takes in the container: the bytes of
/// its tag and the bytes of its data. `None` where that number exceeds a
/// `usize`.
pub fn peapod_size(bits: usize, value_size: usize) -> (size: Option<usize>)
    ensures
        size == if spec_tag_bytes(bits as nat) + value_size <= usize::MAX {
            Some((spec_tag_bytes(bits as nat) + value_size) as usize)
        } else {
            None
        },
{
    tag_bytes(bits).checked_add(value_size)
}

} // verus!
