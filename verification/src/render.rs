//! Text that shows what a container holds: the tag of each element, and a
//! mark in place of its data, which cannot be read without the adapter.

use crate::peapod::Peapod;
use crate::phenotype::Phenotype;
use vstd::prelude::*;
use vstd::string::StringExecFns;

verus! {

/// The character of a decimal digit.
pub open spec fn spec_digit(digit: nat) -> Seq<char> {
    if digit == 0 {
        "0"@
    } else if digit == 1 {
        "1"@
    } else if digit == 2 {
        "2"@
    } else if digit == 3 {
        "3"@
    } else if digit == 4 {
        "4"@
    } else if digit == 5 {
        "5"@
    } else if digit == 6 {
        "6"@
    } else if digit == 7 {
        "7"@
    } else if digit == 8 {
        "8"@
    } else {
        "9"@
    }
}

/// A number in decimal digits, without leading zeros.
pub open spec fn spec_decimal(n: nat) -> Seq<char>
    decreases n,
{
    if n < 10 {
        spec_digit(n)
    } else {
        spec_decimal(n / 10) + spec_digit(n % 10)
    }
}

/// One element as the list form shows it: its tag, and two dots for its
/// data.
pub open spec fn spec_entry(tag: usize) -> Seq<char> {
    "{ tag: "@ + spec_decimal(tag as nat) + ", data: .. }"@
}

/// The elements as the list form shows them: each after a space and with a
/// comma behind it.
pub open spec fn spec_entries(tags: Seq<usize>) -> Seq<char>
    decreases tags.len(),
{
    if tags.len() == 0 {
        Seq::<char>::empty()
    } else {
        spec_entries(tags.drop_last()) + " "@ + spec_entry(tags.last()) + ","@
    }
}

/// The list form of a container: its elements between square brackets.
pub open spec fn spec_list_text(tags: Seq<usize>) -> Seq<char> {
    "["@ + spec_entries(tags) + " ]"@
}

/// The tags as numbers with a comma and a space between them.
pub open spec fn spec_numbers(tags: Seq<usize>) -> Seq<char>
    decreases tags.len(),
{
    if tags.len() == 0 {
        Seq::<char>::empty()
    } else if tags.len() == 1 {
        spec_decimal(tags.last() as nat)
    } else {
        spec_numbers(tags.drop_last()) + ", "@ + spec_decimal(tags.last() as nat)
    }
}

/// The record form of a container: the list of its tags, and two dots for
/// its data.
pub open spec fn spec_record_text(tags: Seq<usize>) -> Seq<char> {
    "Peapod { tags: ["@ + spec_numbers(tags) + "], data: [..] }"@
}

/// The character of a decimal digit, as text.
fn digit_text(digit: usize) -> (text: &'static str)
    requires
        digit < 10,
    ensures
        text@ == spec_digit(digit as nat),
{
    if digit == 0 {
        "0"
    } else if digit == 1 {
        "1"
    } else if digit == 2 {
        "2"
    } else if digit == 3 {
        "3"
    } else if digit == 4 {
        "4"
    } else if digit == 5 {
        "5"
    } else if digit == 6 {
        "6"
    } else if digit == 7 {
        "7"
    } else if digit == 8 {
        "8"
    } else {
        "9"
    }
}

/// Appends a number in decimal digits to a text.
pub fn push_decimal(text: &mut String, n: usize)
    ensures
        final(text)@ == old(text)@ + spec_decimal(n as nat),
    decreases n,
{
    if n >= 10 {
        push_decimal(text, n / 10);
    }
    text.append(digit_text(n % 10));
    assert(text@ =~= old(text)@ + spec_decimal(n as nat));
}

impl<T: Phenotype> Peapod<T> {
    /// The list form of the container: between square brackets each element
    /// as `{ tag: n, data: .. }`, after a space and with a comma behind it,
    /// and a space before the closing bracket.
    pub fn to_string(&self) -> (text: String)
        requires
            self.wf(),
        ensures
            text@ == spec_list_text(self.spec_tags()),
    {
        let mut text = String::new();
        text.append("[");
        let mut index: usize = 0;
        while index < self.data.len()
            invariant
                self.wf(),
                index <= self.data@.len(),
                text@ == "["@ + spec_entries(self.tags@.take(index as int)),
            decreases self.data@.len() - index,
        {
            let ghost before = text@;
            let tag: usize = self.tags.read_slot(index);
            text.append(" ");
            text.append("{ tag: ");
            push_decimal(&mut text, tag);
            text.append(", data: .. }");
            text.append(",");
            index += 1;
            proof {
                let shown = self.tags@.take(index as int);
                assert(shown.drop_last() =~= self.tags@.take(index - 1));
                assert(shown.last() == tag);
                assert(text@ =~= "["@ + spec_entries(shown));
            }
        }
        text.append(" ]");
        proof {
            assert(self.tags@.take(index as int) =~= self.tags@);
        }
        text
    }

    /// The record form of the container: `Peapod { tags: [..], data: [..] }`
    /// with the tags as numbers in place of the first two dots.
    pub fn debug_string(&self) -> (text: String)
        requires
            self.wf(),
        ensures
            text@ == spec_record_text(self.spec_tags()),
    {
        let mut text = String::new();
        text.append("Peapod { tags: [");
        let mut index: usize = 0;
        while index < self.data.len()
            invariant
                self.wf(),
                index <= self.data@.len(),
                text@ == "Peapod { tags: ["@ + spec_numbers(self.tags@.take(index as int)),
            decreases self.data@.len() - index,
        {
            let tag: usize = self.tags.read_slot(index);
            if index > 0 {
                text.append(", ");
            }
            push_decimal(&mut text, tag);
            index += 1;
            proof {
                let shown = self.tags@.take(index as int);
                assert(shown.drop_last() =~= self.tags@.take(index - 1));
                assert(shown.last() == tag);
                assert(text@ =~= "Peapod { tags: ["@ + spec_numbers(shown));
            }
        }
        text.append("], data: [..] }");
        proof {
            assert(self.tags@.take(index as int) =~= self.tags@);
        }
        text
    }
}

} // verus!
