//! The consuming iterator: it takes both streams of a container and hands
//! the values out from either end.

use crate::peapod::Peapod;
use crate::phenotype::{splits_into, Phenotype};
use crate::tag_stream::TagStream;
use std::collections::VecDeque;
use vstd::prelude::*;

verus! {

/// `VecDeque::from` of std on a vector: a deque of the same elements in the
/// same order.
#[verifier::external_body]
pub(crate) fn into_deque<V>(data: Vec<V>) -> (deque: VecDeque<V>)
    ensures
        deque@ == data@,
{
    VecDeque::from(data)
}

/// What is left of a sequence when its first element is taken away; an empty
/// sequence stays as it is.
pub open spec fn spec_without_first<A>(items: Seq<A>) -> Seq<A> {
    if items.len() == 0 {
        items
    } else {
        items.drop_first()
    }
}

/// The first element of a sequence, if it has one.
pub open spec fn spec_first<A>(items: Seq<A>) -> Option<A> {
    if items.len() == 0 {
        None
    } else {
        Some(items.first())
    }
}

/// The values of a container that are still to come, which leave from the
/// front or from the back.
pub struct IntoIter<T: Phenotype> {
    pub(crate) tags: TagStream,
    pub(crate) data: VecDeque<T::Value>,
    pub(crate) index: usize,
    pub(crate) items: Ghost<Seq<T>>,
}

impl<T: Phenotype> IntoIter<T> {
    /// The values that are still to come, first to last.
    pub open(crate) spec fn view(&self) -> Seq<T> {
        self.items@
    }

    /// The data still held lies beside its tags, from the cursor on, and each
    /// tag with the data beside it is what one value has parted into.
    pub open(crate) spec fn wf(&self) -> bool {
        &&& self.tags.wf()
        &&& self.data@.len() == self.items@.len()
        &&& self.index + self.data@.len() <= self.tags@.len()
        &&& forall|i: int|
            0 <= i < self.items@.len() ==> splits_into(
                #[trigger] self.items@[i],
                self.tags@[self.index + i],
                self.data@[i],
            )
    }

    /// The next value from the front; `None` when none is left.
    pub fn next(&mut self) -> (first: Option<T>)
        requires
            old(self).wf(),
        ensures
            final(self).wf(),
            first == spec_first(old(self)@),
            final(self)@ == spec_without_first(old(self)@),
    {
        proof {
            self.tags.lemma_bit_len();
        }
        match self.data.pop_front() {
            None => None,
            Some(value) => {
                let tag: usize = self.tags.read_slot(self.index);
                let ghost whole = self.items@.first();
                self.index += 1;
                proof {
                    self.items@ = self.items@.drop_first();
                }
                assert(splits_into(whole, tag, value));
                Some(T::reknit(tag, value))
            },
        }
    }

    /// The next value from the back; `None` when none is left.
    pub fn next_back(&mut self) -> (last: Option<T>)
        requires
            old(self).wf(),
        ensures
            final(self).wf(),
            last == crate::peapod::spec_last(old(self)@),
            final(self)@ == crate::peapod::spec_without_last(old(self)@),
    {
        proof {
            self.tags.lemma_bit_len();
        }
        match self.data.pop_back() {
            None => None,
            Some(value) => {
                let tag: usize = self.tags.read_slot(self.index + self.data.len());
                let ghost whole = self.items@.last();
                proof {
                    self.items@ = self.items@.drop_last();
                }
                assert(splits_into(whole, tag, value));
                Some(T::reknit(tag, value))
            },
        }
    }

    /// The number of values that are still to come.
    pub fn len(&self) -> (len: usize)
        requires
            self.wf(),
        ensures
            len == self@.len(),
    {
        self.data.len()
    }

    /// The number of values that are still to come, as the least and as the
    /// most that it can be: the two are the same.
    pub fn size_hint(&self) -> (hint: (usize, Option<usize>))
        requires
            self.wf(),
        ensures
            hint.0 == self@.len(),
            hint.1 == Some(hint.0),
    {
        let len = self.data.len();
        (len, Some(len))
    }
}

impl<T: Phenotype> Peapod<T> {
    /// Gives both streams to an iterator over the values held.
    pub fn into_iter(self) -> (iter: IntoIter<T>)
        requires
            self.wf(),
        ensures
            iter.wf(),
            iter@ == self@,
    {
        let Peapod { tags, data, items } = self;
        IntoIter { tags, data: into_deque(data), index: 0, items }
    }
}

} // verus!
