//! What holds of the container and its iterator whatever values they hold,
//! stated over the functions by which their contracts say what they do.

use crate::iter::{spec_first, spec_without_first};
use crate::peapod::{spec_last, spec_truncated, spec_without_last};
use crate::phenotype::Phenotype;
use crate::width::spec_tag_bits;
use vstd::prelude::*;

verus! {

/// A value that has parted into a tag and its data is what the two make
/// again: whatever `cleave` hands back for a value, `reknit` makes of it
/// that value.
pub proof fn lemma_round_trip<T: Phenotype>(whole: T, tag: usize, value: T::Value, again: T)
    requires
        call_ensures(T::cleave, (whole,), (tag, value)),
        call_ensures(T::reknit, (tag, value), again),
    ensures
        again == whole,
{
}

/// Values leave from the end in the reverse of the order in which they
/// came: after three values are appended, three removals hand out the third,
/// the second and the first, and leave the container as it was before. At
/// each step the length is the number appended less the number removed.
pub proof fn lemma_last_in_first_out<A>(items: Seq<A>, v1: A, v2: A, v3: A)
    ensures
        ({
            let three = items.push(v1).push(v2).push(v3);
            let two = spec_without_last(three);
            let one = spec_without_last(two);
            let none = spec_without_last(one);
            &&& spec_last(three) == Some(v3)
            &&& spec_last(two) == Some(v2)
            &&& spec_last(one) == Some(v1)
            &&& none == items
            &&& three.len() == items.len() + 3
            &&& two.len() == items.len() + 2
            &&& one.len() == items.len() + 1
        }),
{
    let three = items.push(v1).push(v2).push(v3);
    let two = spec_without_last(three);
    let one = spec_without_last(two);
    assert(two =~= items.push(v1).push(v2));
    assert(one =~= items.push(v1));
    assert(spec_without_last(one) =~= items);
}

/// Taken in turn from the front and from the back, four values come out as
/// the first, the fourth, the second and the third, and none is left.
pub proof fn lemma_both_ends<A>(v1: A, v2: A, v3: A, v4: A)
    ensures
        ({
            let four = seq![v1, v2, v3, v4];
            let three = spec_without_first(four);
            let two = spec_without_last(three);
            let one = spec_without_first(two);
            let none = spec_without_last(one);
            &&& spec_first(four) == Some(v1)
            &&& spec_last(three) == Some(v4)
            &&& spec_first(two) == Some(v2)
            &&& spec_last(one) == Some(v3)
            &&& none.len() == 0
            &&& spec_first(none) == None::<A>
            &&& spec_last(none) == None::<A>
        }),
{
    let four = seq![v1, v2, v3, v4];
    let three = spec_without_first(four);
    let two = spec_without_last(three);
    let one = spec_without_first(two);
    assert(three =~= seq![v2, v3, v4]);
    assert(two =~= seq![v2, v3]);
    assert(one =~= seq![v3]);
}

/// The number of values that are left is the number of values that can
/// still be taken: a value comes from either end as long as the number is
/// above zero, each one taken lowers it by one, and at zero none comes and
/// nothing changes.
pub proof fn lemma_exact_size<A>(items: Seq<A>)
    ensures
        items.len() > 0 <==> spec_first(items) is Some,
        items.len() > 0 <==> spec_last(items) is Some,
        items.len() > 0 ==> spec_without_first(items).len() == items.len() - 1,
        items.len() > 0 ==> spec_without_last(items).len() == items.len() - 1,
        items.len() == 0 ==> spec_without_first(items) == items,
        items.len() == 0 ==> spec_without_last(items) == items,
{
}

/// An empty container hands out nothing and stays empty, and a container
/// cut to a length that it does not exceed stays as it is.
pub proof fn lemma_nothing_to_remove<A>(items: Seq<A>, len: nat)
    ensures
        spec_last(Seq::<A>::empty()) == None::<A>,
        spec_without_last(Seq::<A>::empty()) == Seq::<A>::empty(),
        len >= items.len() ==> spec_truncated(items, len) == items,
        len < items.len() ==> spec_truncated(items, len).len() == len,
        spec_truncated(items, 0) == Seq::<A>::empty(),
{
    assert(spec_truncated(items, 0) =~= Seq::<A>::empty());
}

/// One variant needs no tag bits; two need one; and no number of variants
/// above one needs none.
pub proof fn lemma_one_variant_needs_no_bits(n: nat)
    ensures
        spec_tag_bits(1) == 0,
        spec_tag_bits(2) == 1,
        n > 1 ==> spec_tag_bits(n) > 0,
{
    assert(spec_tag_bits(2) == 1 + spec_tag_bits(1));
}

} // verus!
