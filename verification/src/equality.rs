//! Copies of a container, and whether two containers hold the same bits and
//! the same data.

use crate::peapod::Peapod;
use crate::phenotype::Phenotype;
use vstd::prelude::*;
use vstd::std_specs::cmp::PartialEqSpec;

verus! {

impl<T: Phenotype> Clone for Peapod<T> where T::Value: Clone {
    /// A container of the same tags and of a clone of each record of data.
    /// Where the clones are the records themselves, it holds the same
    /// values.
    fn clone(&self) -> (copy: Self)
        ensures
            copy.spec_tags() == self.spec_tags(),
            copy.spec_payloads().len() == self.spec_payloads().len(),
            forall|i: int|
                0 <= i < self.spec_payloads().len() ==> cloned(
                    #[trigger] self.spec_payloads()[i],
                    copy.spec_payloads()[i],
                ),
            self.wf() && copy.spec_payloads() == self.spec_payloads() ==> copy.wf() && copy@
                == self@,
    {
        Peapod { tags: self.tags.duplicate(), data: self.data.clone(), items: self.items }
    }
}

impl<T: Phenotype> PartialEq for Peapod<T> where T::Value: PartialEq {
    fn eq(&self, other: &Self) -> (same: bool) {
        self.tags.same_bits(&other.tags) && self.data == other.data
    }
}

impl<T: Phenotype> vstd::std_specs::cmp::PartialEqSpecImpl for Peapod<T> where T::Value: PartialEq {
    /// `==` on containers means what `eq_spec` says wherever `==` on the
    /// data does so.
    open(crate) spec fn obeys_eq_spec() -> bool {
        <T::Value as PartialEqSpec>::obeys_eq_spec()
    }

    /// The tags take the same bits, and the data is of one length and equal
    /// place by place.
    open(crate) spec fn eq_spec(&self, other: &Self) -> bool {
        &&& self.tags.spec_bits() == other.tags.spec_bits()
        &&& PartialEqSpec::eq_spec(&self.data, &other.data)
    }
}

impl<T: Phenotype> Eq for Peapod<T> where T::Value: Eq {

}

} // verus!
