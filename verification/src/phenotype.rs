//! The adapter between a type of several variants and the container: how a
//! value parts into a tag and its data, and how the two make the value again.

use crate::width::spec_tag_bits;
use vstd::prelude::*;

verus! {

/// Whether `whole` parts into `tag` and `value`: whether `cleave` may hand
/// back that pair for it.
pub open spec fn splits_into<T: Phenotype>(whole: T, tag: usize, value: T::Value) -> bool {
    call_ensures(T::cleave, (whole,), (tag, value))
}

/// A type of a closed set of variants whose values part into a tag, which
/// says which variant a value is, and a record that holds the data of any one
/// variant.
///
/// An implementation written outside verified code is taken at its word:
/// what the container proves holds for the implementations that keep the
/// contracts below.
pub trait Phenotype: Sized {
    /// The number of variants.
    const NUM_VARIANTS: usize;

    /// The width of a tag in bits: the logarithm of `NUM_VARIANTS` to base 2,
    /// rounded up.
    const BITS: usize;

    /// The number of bytes that one value takes in the container, or `None`
    /// where the implementation does not say: for a type with type
    /// parameters it cannot.
    const PEAPOD_SIZE: Option<usize>;

    /// Whether a value takes no more bytes in the container than on its own,
    /// or `None` where `PEAPOD_SIZE` is.
    const IS_MORE_COMPACT: Option<bool>;

    /// The record that holds the data of any one variant.
    type Value;

    /// Parts a value into its tag and its data. The tag is below
    /// `NUM_VARIANTS`, and `BITS` is the width that `NUM_VARIANTS` calls
    /// for, so that the tag fits in `BITS` bits.
    fn cleave(self) -> (parts: (usize, Self::Value))
        ensures
            parts.0 < Self::NUM_VARIANTS,
            Self::BITS == spec_tag_bits(Self::NUM_VARIANTS as nat),
    ;

    /// Makes a value of a tag and the data that go together: of what some
    /// value has parted into. The result is that value.
    fn reknit(tag: usize, value: Self::Value) -> (whole: Self)
        requires
            exists|w: Self| call_ensures(Self::cleave, (w,), (tag, value)),
        ensures
            forall|w: Self| call_ensures(Self::cleave, (w,), (tag, value)) ==> whole == w,
    ;
}

/// What helps to inspect the values of a `Phenotype`.
pub trait PhenotypeDebug: Phenotype {
    /// The tag that `cleave` would give for this value.
    fn discriminant(&self) -> (tag: usize)
        ensures
            tag < Self::NUM_VARIANTS,
            forall|t: usize, value: Self::Value| splits_into(*self, t, value) ==> t == tag,
    ;

    /// The name of the variant with this tag.
    fn debug_tag(tag: usize) -> (name: &'static str)
        requires
            tag < Self::NUM_VARIANTS,
    ;
}

/// Parts a value and makes it again: the result is the value.
pub fn round_trip<T: Phenotype>(whole: T) -> (again: T)
    ensures
        again == whole,
{
    let (tag, value) = whole.cleave();
    T::reknit(tag, value)
}

impl Phenotype for bool {
    const NUM_VARIANTS: usize = 2;

    const BITS: usize = 1;

    const PEAPOD_SIZE: Option<usize> = None;

    const IS_MORE_COMPACT: Option<bool> = None;

    type Value = ();

    /// `false` has the tag 0 and `true` the tag 1; neither has data.
    fn cleave(self) -> (parts: (usize, ()))
        ensures
            parts.0 == if self {
                1usize
            } else {
                0usize
            },
    {
        assert(spec_tag_bits(2) == 1) by {
            assert(spec_tag_bits(1) == 0);
        }
        if self {
            (1, ())
        } else {
            (0, ())
        }
    }

    fn reknit(tag: usize, value: ()) -> (whole: bool) {
        tag == 1
    }
}

impl PhenotypeDebug for bool {
    fn discriminant(&self) -> (tag: usize) {
        if *self {
            1
        } else {
            0
        }
    }

    /// `bool::false` for the tag 0 and `bool::true` for the tag 1.
    fn debug_tag(tag: usize) -> (name: &'static str)
        ensures
            name@ == if tag == 0 {
                "bool::false"@
            } else {
                "bool::true"@
            },
    {
        if tag == 0 {
            "bool::false"
        } else {
            "bool::true"
        }
    }
}

impl Phenotype for () {
    const NUM_VARIANTS: usize = 1;

    const BITS: usize = 0;

    const PEAPOD_SIZE: Option<usize> = None;

    const IS_MORE_COMPACT: Option<bool> = None;

    type Value = ();

    /// The one value has the tag 0 and no data.
    fn cleave(self) -> (parts: (usize, ()))
        ensures
            parts.0 == 0,
    {
        (0, ())
    }

    fn reknit(tag: usize, value: ()) -> (whole: ()) {
        ()
    }
}

impl PhenotypeDebug for () {
    fn discriminant(&self) -> (tag: usize) {
        0
    }

    /// `()` for the one tag there is.
    fn debug_tag(tag: usize) -> (name: &'static str)
        ensures
            name@ == "()"@,
    {
        "()"
    }
}

} // verus!
