//! A container from a vector of values and back, and containers that take
//! in the values of a vector or of another container.

use crate::iter::into_deque;
use crate::peapod::{spec_max_len, Peapod};
use crate::phenotype::Phenotype;
use vstd::prelude::*;

verus! {

impl<T: Phenotype> Peapod<T> {
    /// The values held, in a vector, first to last.
    pub fn into_vec(self) -> (values: Vec<T>)
        requires
            self.wf(),
        ensures
            values@ == self@,
    {
        let mut iter = self.into_iter();
        let mut values: Vec<T> = Vec::new();
        loop
            invariant
                iter.wf(),
                values@ + iter@ == self@,
            ensures
                iter@.len() == 0,
            decreases iter@.len(),
        {
            let ghost before = iter@;
            match iter.next() {
                None => {
                    break ;
                },
                Some(value) => {
                    values.push(value);
                    assert(values@ + iter@ =~= values@.drop_last() + before);
                },
            }
        }
        assert(values@ =~= values@ + iter@);
        values
    }

    /// Appends the values of a vector, first to last.
    pub fn extend(&mut self, values: Vec<T>)
        requires
            old(self).wf(),
            old(self)@.len() + values@.len() <= spec_max_len::<T>(),
        ensures
            final(self).wf(),
            final(self)@ == old(self)@ + values@,
    {
        self.reserve(values.len());
        let mut rest = into_deque(values);
        loop
            invariant
                self.wf(),
                self@ + rest@ == old(self)@ + values@,
                self@.len() + rest@.len() <= spec_max_len::<T>(),
            ensures
                rest@.len() == 0,
            decreases rest@.len(),
        {
            let ghost before = rest@;
            match rest.pop_front() {
                None => {
                    break ;
                },
                Some(value) => {
                    self.push(value);
                    assert(self@ + rest@ =~= self@.drop_last() + before);
                },
            }
        }
        assert(self@ =~= self@ + rest@);
    }

    /// Appends the values of another container, first to last.
    pub fn append(&mut self, other: Peapod<T>)
        requires
            old(self).wf(),
            other.wf(),
            old(self)@.len() + other@.len() <= spec_max_len::<T>(),
        ensures
            final(self).wf(),
            final(self)@ == old(self)@ + other@,
    {
        let mut iter = other.into_iter();
        self.reserve(iter.len());
        loop
            invariant
                self.wf(),
                iter.wf(),
                self@ + iter@ == old(self)@ + other@,
                self@.len() + iter@.len() <= spec_max_len::<T>(),
            ensures
                iter@.len() == 0,
            decreases iter@.len(),
        {
            let ghost before = iter@;
            match iter.next() {
                None => {
                    break ;
                },
                Some(value) => {
                    self.push(value);
                    assert(self@ + iter@ =~= self@.drop_last() + before);
                },
            }
        }
        assert(self@ =~= self@ + iter@);
    }

    /// A container of the values of a vector, first to last, with room for
    /// all of them from the start.
    pub fn from(values: Vec<T>) -> (pod: Self)
        requires
            values@.len() <= spec_max_len::<T>(),
        ensures
            pod.wf(),
            pod@ == values@,
    {
        let mut pod = Peapod::with_capacity(values.len());
        pod.extend(values);
        assert(pod@ =~= values@);
        pod
    }
}

impl<T: Phenotype> Default for Peapod<T> {
    /// A container of no elements.
    fn default() -> (pod: Self)
        ensures
            pod.wf(),
            pod@ == Seq::<T>::empty(),
    {
        Peapod::new()
    }
}

} // verus!
