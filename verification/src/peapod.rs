//! The container: a tag stream and a payload stream that move together.

use crate::phenotype::{splits_into, Phenotype};
use crate::tag_stream::{spec_max_slots, TagStream};
use crate::width::{lemma_tag_bits_fit_word, lemma_tag_bits_is_least};
use vstd::prelude::*;

verus! {

/// The largest number of elements that a container of `T` can hold: the
/// number of tags of `T::BITS` bits that the tag stream can hold.
pub open spec fn spec_max_len<T: Phenotype>() -> nat {
    spec_max_slots(T::BITS as nat)
}

/// What is left of a sequence when its last element is taken away; an empty
/// sequence stays as it is.
pub open spec fn spec_without_last<A>(items: Seq<A>) -> Seq<A> {
    if items.len() == 0 {
        items
    } else {
        items.drop_last()
    }
}

/// The last element of a sequence, if it has one.
pub open spec fn spec_last<A>(items: Seq<A>) -> Option<A> {
    if items.len() == 0 {
        None
    } else {
        Some(items.last())
    }
}

/// The first `len` elements of a sequence, and all of them where it has no
/// more than `len`.
pub open spec fn spec_truncated<A>(items: Seq<A>, len: nat) -> Seq<A> {
    if len < items.len() {
        items.take(len as int)
    } else {
        items
    }
}

/// The smaller of the two capacities: the number of elements for which both
/// streams have room.
pub open spec fn spec_capacity_of(tag_capacity: usize, payload_capacity: usize) -> usize {
    if tag_capacity <= payload_capacity {
        tag_capacity
    } else {
        payload_capacity
    }
}

/// `Vec::capacity` of std: the number of elements that the vector can hold
/// before it allocates again, which is never less than the number it holds.
#[verifier::external_body]
fn payload_capacity<V>(data: &Vec<V>) -> (capacity: usize)
    ensures
        capacity >= data@.len(),
{
    data.capacity()
}

/// A growable sequence of values of `T`, each kept as a tag of `T::BITS`
/// bits and a record of its data.
pub struct Peapod<T: Phenotype> {
    pub(crate) tags: TagStream,
    pub(crate) data: Vec<T::Value>,
    pub(crate) items: Ghost<Seq<T>>,
}

impl<T: Phenotype> Peapod<T> {
    /// The values held, first to last.
    pub open(crate) spec fn view(&self) -> Seq<T> {
        self.items@
    }

    /// The tags of the values held, first to last.
    pub open(crate) spec fn spec_tags(&self) -> Seq<usize> {
        self.tags@
    }

    /// The data of the values held, first to last.
    pub open(crate) spec fn spec_payloads(&self) -> Seq<T::Value> {
        self.data@
    }

    /// The number of bits that the tags take.
    pub open(crate) spec fn spec_tag_bit_len(&self) -> nat {
        self.tags.spec_bit_len()
    }

    /// The two streams are of one length, the tags are `T::BITS` bits wide,
    /// and each tag with the data beside it is what one value has parted
    /// into.
    pub open(crate) spec fn wf(&self) -> bool {
        &&& self.tags.wf()
        &&& self.tags.spec_width() == T::BITS
        &&& self.tags@.len() == self.items@.len()
        &&& self.data@.len() == self.items@.len()
        &&& forall|i: int|
            0 <= i < self.items@.len() ==> splits_into(
                #[trigger] self.items@[i],
                self.tags@[i],
                self.data@[i],
            )
    }

    /// The streams are of the length of the container, and the tags take
    /// `T::BITS` bits each and no bit more.
    pub proof fn lemma_length_invariant(&self)
        requires
            self.wf(),
        ensures
            self.spec_tags().len() == self@.len(),
            self.spec_payloads().len() == self@.len(),
            self.spec_tag_bit_len() == self@.len() * T::BITS,
            self@.len() <= spec_max_len::<T>(),
            self@.len() <= usize::MAX,
    {
        self.tags.lemma_bit_len();
    }

    /// The tag and the data at a place are what the value at that place has
    /// parted into.
    pub proof fn lemma_parts(&self, index: int)
        requires
            self.wf(),
            0 <= index < self@.len(),
        ensures
            splits_into(self@[index], self.spec_tags()[index], self.spec_payloads()[index]),
    {
    }

    /// A type of one variant takes no tag storage, however many of its
    /// values the container holds.
    pub proof fn lemma_one_variant_takes_no_bits(&self)
        requires
            self.wf(),
            T::BITS == 0,
        ensures
            self.spec_tag_bit_len() == 0,
    {
        self.tags.lemma_bit_len();
        assert(self@.len() * 0 == 0) by (nonlinear_arith);
    }

    /// A container of no elements, with no storage.
    pub fn new() -> (pod: Self)
        ensures
            pod.wf(),
            pod@ == Seq::<T>::empty(),
    {
        Peapod { tags: TagStream::new(T::BITS), data: Vec::new(), items: Ghost(Seq::empty()) }
    }

    /// The largest number of elements that a container of `T` can hold.
    pub fn max_len() -> (len: usize)
        ensures
            len == spec_max_len::<T>(),
    {
        TagStream::max_slots(T::BITS)
    }

    /// A container of no elements, with room for `capacity` of them.
    pub fn with_capacity(capacity: usize) -> (pod: Self)
        requires
            capacity <= spec_max_len::<T>(),
        ensures
            pod.wf(),
            pod@ == Seq::<T>::empty(),
    {
        Peapod {
            tags: TagStream::with_capacity(T::BITS, capacity),
            data: Vec::with_capacity(capacity),
            items: Ghost(Seq::empty()),
        }
    }

    /// The number of elements.
    pub fn len(&self) -> (len: usize)
        requires
            self.wf(),
        ensures
            len == self@.len(),
    {
        self.data.len()
    }

    /// Whether the container holds no element.
    pub fn is_empty(&self) -> (empty: bool)
        requires
            self.wf(),
        ensures
            empty == (self@.len() == 0),
    {
        self.data.len() == 0
    }

    /// The smaller of the capacities of the two streams.
    pub fn capacity_of(tag_capacity: usize, payload_capacity: usize) -> (capacity: usize)
        ensures
            capacity == spec_capacity_of(tag_capacity, payload_capacity),
    {
        if tag_capacity <= payload_capacity {
            tag_capacity
        } else {
            payload_capacity
        }
    }

    /// The number of elements that the container can hold before it
    /// allocates again: the smaller of the capacities of its two streams. It
    /// is never less than the number of elements held.
    pub fn capacity(&self) -> (capacity: usize)
        requires
            self.wf(),
        ensures
            capacity >= self@.len(),
            exists|tag_capacity: usize, payload_capacity: usize|
                tag_capacity >= self@.len() && payload_capacity >= self@.len() && capacity
                    == #[trigger] spec_capacity_of(tag_capacity, payload_capacity),
    {
        let tag_capacity: usize = self.tags.capacity();
        let data_capacity: usize = payload_capacity(&self.data);
        let capacity = Self::capacity_of(tag_capacity, data_capacity);
        assert(capacity == spec_capacity_of(tag_capacity, data_capacity));
        capacity
    }

    /// Makes room for `elements` more elements. The elements held stay as
    /// they are.
    pub fn reserve(&mut self, elements: usize)
        requires
            old(self).wf(),
            old(self)@.len() + elements <= spec_max_len::<T>(),
        ensures
            final(self).wf(),
            final(self)@ == old(self)@,
    {
        self.data.reserve(elements);
        self.tags.reserve(elements);
    }

    /// Appends a value. The data goes to its stream before the tag does.
    pub fn push(&mut self, t: T)
        requires
            old(self).wf(),
            old(self)@.len() < spec_max_len::<T>(),
        ensures
            final(self).wf(),
            final(self)@ == old(self)@.push(t),
    {
        let (tag, value) = t.cleave();
        proof {
            lemma_tag_bits_is_least(T::NUM_VARIANTS as nat);
            lemma_tag_bits_fit_word(T::NUM_VARIANTS);
        }
        self.data.push(value);
        self.tags.append_slot(tag);
        proof {
            self.items@ = self.items@.push(t);
        }
    }

    /// Appends a value where there is room for it, and hands it back where
    /// there is none. Nothing is written before the room is known.
    pub fn try_push(&mut self, t: T) -> (outcome: Result<(), T>)
        requires
            old(self).wf(),
        ensures
            final(self).wf(),
            old(self)@.len() < spec_max_len::<T>() ==> outcome is Ok && final(self)@ == old(
                self,
            )@.push(t),
            old(self)@.len() >= spec_max_len::<T>() ==> outcome == Err::<(), T>(t) && final(self)@
                == old(self)@,
    {
        if self.data.len() < Self::max_len() {
            self.push(t);
            Ok(())
        } else {
            Err(t)
        }
    }

    /// Takes the last value off the container and hands it out; `None` from
    /// an empty container, which stays as it is.
    pub fn pop(&mut self) -> (last: Option<T>)
        requires
            old(self).wf(),
        ensures
            final(self).wf(),
            last == spec_last(old(self)@),
            final(self)@ == spec_without_last(old(self)@),
    {
        let len = self.data.len();
        if len == 0 {
            return None;
        }
        let value = self.data.pop().unwrap();
        let tag: usize = self.tags.read_slot(len - 1);
        self.tags.truncate_to(len - 1);
        let ghost whole = self.items@.last();
        proof {
            self.items@ = self.items@.drop_last();
        }
        assert(splits_into(whole, tag, value));
        Some(T::reknit(tag, value))
    }

    /// Shortens the container to its first `len` elements: takes the others
    /// off one by one, last first, makes each a value again and drops it. A
    /// container of no more than `len` elements stays as it is.
    pub fn truncate(&mut self, len: usize)
        requires
            old(self).wf(),
        ensures
            final(self).wf(),
            final(self)@ == spec_truncated(old(self)@, len as nat),
    {
        while self.data.len() > len
            invariant
                self.wf(),
                self@.len() <= old(self)@.len(),
                self@.len() >= len || self@.len() == old(self)@.len(),
                self@ == old(self)@.take(self@.len() as int),
            decreases self@.len(),
        {
            let dropped = self.pop();
            assert(self@ =~= old(self)@.take(self@.len() as int));
        }
        assert(self@ =~= spec_truncated(old(self)@, len as nat));
    }

    /// Empties the container: takes the data of every element off, last
    /// first, makes each a value again with its tag and drops it, and then
    /// drops the tags.
    pub fn clear(&mut self)
        requires
            old(self).wf(),
        ensures
            final(self).wf(),
            final(self)@ == Seq::<T>::empty(),
    {
        let mut left: usize = self.data.len();
        while left > 0
            invariant
                self.tags.wf(),
                self.tags == old(self).tags,
                self.items == old(self).items,
                old(self).wf(),
                left == self.data@.len(),
                left <= old(self).data@.len(),
                self.data@ == old(self).data@.take(left as int),
            decreases left,
        {
            let value = self.data.pop().unwrap();
            left -= 1;
            let tag: usize = self.tags.read_slot(left);
            assert(splits_into(self.items@[left as int], tag, value));
            let dropped = T::reknit(tag, value);
            assert(self.data@ =~= old(self).data@.take(left as int));
        }
        self.tags.clear();
        proof {
            self.items@ = Seq::empty();
        }
    }

    /// The tags of the elements, first to last.
    pub fn tags(&self) -> (tags: Vec<usize>)
        requires
            self.wf(),
        ensures
            tags@ == self.spec_tags(),
    {
        let mut tags: Vec<usize> = Vec::new();
        let mut index: usize = 0;
        while index < self.data.len()
            invariant
                self.wf(),
                index <= self.data@.len(),
                tags@ == self.tags@.take(index as int),
            decreases self.data@.len() - index,
        {
            tags.push(self.tags.read_slot(index));
            index += 1;
            assert(tags@ =~= self.tags@.take(index as int));
        }
        assert(tags@ =~= self.tags@);
        tags
    }

    /// The number of bits that the tags take.
    pub fn tag_bit_len(&self) -> (len: usize)
        requires
            self.wf(),
        ensures
            len == self.spec_tag_bit_len(),
            len == self@.len() * T::BITS,
    {
        self.tags.bit_len()
    }
}

} // verus!
