//! The tag stream: one tag per element, each in a slot of the same width,
//! the slots packed into a bit buffer without gaps.

use crate::bits::{
    bits_from, bits_of, bits_value, lemma_bits_from_value, lemma_bits_value_bound, spec_max_bits,
    Bits,
};
use vstd::arithmetic::power2::{lemma2_to64, pow2};
use vstd::prelude::*;

verus! {

/// The bits of slot `index` in a run of slots that are `width` bits wide.
pub open spec fn slot_bits(bits: Seq<bool>, width: nat, index: int) -> Seq<bool> {
    bits.subrange(index * width, (index + 1) * width)
}

/// The tag in slot `index`: the number that the bits of the slot spell.
pub open spec fn slot_value(bits: Seq<bool>, width: nat, index: int) -> nat {
    bits_value(slot_bits(bits, width, index))
}

/// The number of slots of `width` bits that a bit buffer can hold. Slots of
/// no bits take no room: there the limit is that of the counter.
pub open spec fn spec_max_slots(width: nat) -> nat {
    if width == 0 {
        usize::MAX as nat
    } else {
        spec_max_bits() / width
    }
}

/// The number of slots of `width` bits that fit in `bit_capacity` bits,
/// rounded down. Slots of no bits fit without end.
pub open spec fn spec_slots_in(bit_capacity: nat, width: nat) -> nat {
    if width == 0 {
        usize::MAX as nat
    } else {
        bit_capacity / width
    }
}

/// The product of two numbers, or the largest `usize` where the product
/// exceeds it.
pub open spec fn spec_saturating_mul(x: usize, y: usize) -> usize {
    if x * y > usize::MAX {
        usize::MAX
    } else {
        (x * y) as usize
    }
}

/// `usize::saturating_mul` of std: the product, held at the largest `usize`
/// where it would overflow.
pub assume_specification[ usize::saturating_mul ](x: usize, y: usize) -> (product: usize)
    ensures
        product == spec_saturating_mul(x, y),
;

/// A sequence of tags, each kept in `width` bits.
pub struct TagStream {
    bits: Bits,
    width: usize,
    slots: Ghost<nat>,
}

impl TagStream {
    /// The tags held, first to last.
    pub closed spec fn view(&self) -> Seq<usize> {
        Seq::new(
            self.slots@,
            |i: int| slot_value(bits_of(self.bits), self.width as nat, i) as usize,
        )
    }

    /// The width of a slot, in bits.
    pub closed spec fn spec_width(&self) -> nat {
        self.width as nat
    }

    /// The number of bits held.
    pub open spec fn spec_bit_len(&self) -> nat {
        self.spec_bits().len()
    }

    /// The slots fill the bits held exactly, within the limits of the buffer
    /// and of the machine word.
    pub closed spec fn wf(&self) -> bool {
        &&& bits_of(self.bits).len() == self.slots@ * self.width
        &&& bits_of(self.bits).len() <= spec_max_bits()
        &&& self.slots@ <= usize::MAX
        &&& self.slots@ > 0 ==> self.width <= usize::BITS
    }

    /// The bits held are the slots and nothing else.
    pub proof fn lemma_bit_len(&self)
        requires
            self.wf(),
        ensures
            self.spec_bit_len() == self@.len() * self.spec_width(),
            self.spec_bit_len() <= spec_max_bits(),
            self@.len() <= spec_max_slots(self.spec_width()),
    {
        let w = self.width as nat;
        let n = self.slots@;
        if w > 0 {
            assert(n * w <= spec_max_bits() ==> n <= spec_max_bits() / w) by (nonlinear_arith)
                requires
                    w > 0,
            ;
        }
    }

    /// Every tag held fits in the width of a slot.
    pub proof fn lemma_tags_fit(&self, index: int)
        requires
            self.wf(),
            0 <= index < self@.len(),
        ensures
            self@[index] < pow2(self.spec_width()),
    {
        let w = self.width as nat;
        let run = slot_bits(bits_of(self.bits), w, index);
        lemma_slot_len(bits_of(self.bits), w, self.slots@, index);
        lemma_bits_value_bound(run);
    }

    /// An empty stream of slots of `width` bits.
    pub fn new(width: usize) -> (stream: Self)
        ensures
            stream.wf(),
            stream@ == Seq::<usize>::empty(),
            stream.spec_width() == width,
    {
        let stream = TagStream { bits: Bits::new(), width, slots: Ghost(0) };
        assert(stream@ =~= Seq::<usize>::empty());
        stream
    }

    /// An empty stream of slots of `width` bits, with room for `slots` of
    /// them.
    pub fn with_capacity(width: usize, slots: usize) -> (stream: Self)
        requires
            slots <= spec_max_slots(width as nat),
        ensures
            stream.wf(),
            stream@ == Seq::<usize>::empty(),
            stream.spec_width() == width,
    {
        proof {
            lemma_slots_within(slots as nat, width as nat);
        }
        let stream = TagStream { bits: Bits::with_capacity(slots * width), width, slots: Ghost(0) };
        assert(stream@ =~= Seq::<usize>::empty());
        stream
    }

    /// The width of a slot, in bits.
    pub fn width(&self) -> (width: usize)
        ensures
            width == self.spec_width(),
    {
        self.width
    }

    /// The number of bits held.
    pub fn bit_len(&self) -> (len: usize)
        requires
            self.wf(),
        ensures
            len == self.spec_bit_len(),
            len == self@.len() * self.spec_width(),
    {
        self.bits.len()
    }

    /// The number of slots of `width` bits that a stream can hold.
    pub fn max_slots(width: usize) -> (slots: usize)
        ensures
            slots == spec_max_slots(width as nat),
    {
        if width == 0 {
            usize::MAX
        } else {
            Bits::max_bits() / width
        }
    }

    /// The number of slots of `width` bits that fit in `bit_capacity` bits.
    pub fn slots_in(bit_capacity: usize, width: usize) -> (slots: usize)
        ensures
            slots == spec_slots_in(bit_capacity as nat, width as nat),
    {
        if width == 0 {
            usize::MAX
        } else {
            bit_capacity / width
        }
    }

    /// The number of slots that the stream can hold before it allocates
    /// again: the bits that its buffer has room for, divided by the width and
    /// rounded down. It is never less than the number of slots held.
    pub fn capacity(&self) -> (slots: usize)
        requires
            self.wf(),
        ensures
            slots >= self@.len(),
            exists|bit_capacity: nat|
                bit_capacity >= self.spec_bit_len() && slots == #[trigger] spec_slots_in(
                    bit_capacity,
                    self.spec_width(),
                ),
    {
        let bit_capacity: usize = self.bits.capacity();
        let slots = Self::slots_in(bit_capacity, self.width);
        proof {
            let w = self.width as nat;
            let n = self.slots@;
            if w > 0 {
                assert(bit_capacity >= n * w ==> bit_capacity as nat / w >= n)
                    by (nonlinear_arith)
                    requires
                        w > 0,
                ;
            }
            assert(slots == spec_slots_in(bit_capacity as nat, self.spec_width()));
        }
        slots
    }

    /// Makes room for `additional` more slots. The tags held stay as they
    /// are.
    pub fn reserve(&mut self, additional: usize)
        requires
            old(self).wf(),
            old(self)@.len() + additional <= spec_max_slots(old(self).spec_width()),
        ensures
            final(self).wf(),
            final(self)@ == old(self)@,
            final(self).spec_width() == old(self).spec_width(),
    {
        proof {
            let w = self.width as nat;
            let n = self.slots@;
            lemma_slots_within(n + additional as nat, w);
            assert((n + additional) * w == n * w + additional * w) by (nonlinear_arith);
        }
        self.bits.reserve(additional * self.width);
        assert(self@ =~= old(self)@);
    }

    /// The tag in slot `index`.
    pub fn read_slot(&self, index: usize) -> (tag: usize)
        requires
            self.wf(),
            index < self@.len(),
        ensures
            tag == self@[index as int],
    {
        if self.width == 0 {
            proof {
                lemma_empty_slot(bits_of(self.bits), index as int);
            }
            0
        } else {
            proof {
                lemma_slot_len(bits_of(self.bits), self.width as nat, self.slots@, index as int);
                self.lemma_tags_fit(index as int);
                crate::width::lemma_word_limit();
                crate::width::lemma_pow2_order(self.width as nat, usize::BITS as nat);
            }
            self.bits.load(index * self.width, (index + 1) * self.width)
        }
    }

    /// Puts `tag` in slot `index`, in place of the tag that was there.
    pub fn write_slot(&mut self, index: usize, tag: usize)
        requires
            old(self).wf(),
            index < old(self)@.len(),
            tag < pow2(old(self).spec_width()),
        ensures
            final(self).wf(),
            final(self)@ == old(self)@.update(index as int, tag),
            final(self).spec_width() == old(self).spec_width(),
    {
        let ghost before = bits_of(self.bits);
        let ghost w = self.width as nat;
        let ghost n = self.slots@;
        if self.width == 0 {
            proof {
                lemma2_to64();
                lemma_empty_slot(before, index as int);
                assert(self@ =~= old(self)@.update(index as int, tag));
            }
        } else {
            proof {
                lemma_slot_len(before, w, n, index as int);
            }
            self.bits.store(index * self.width, (index + 1) * self.width, tag);
            proof {
                let run = bits_from(tag as nat, w);
                assert((index + 1) * w - index * w == w) by (nonlinear_arith);
                lemma_slot_replaced(before, w, n, index as int, run);
                lemma_bits_from_value(tag as nat, w);
                assert(self@ =~= old(self)@.update(index as int, tag));
            }
        }
    }

    /// Adds a slot at the end and puts `tag` in it.
    pub fn append_slot(&mut self, tag: usize)
        requires
            old(self).wf(),
            old(self).spec_width() <= usize::BITS,
            tag < pow2(old(self).spec_width()),
            old(self)@.len() < spec_max_slots(old(self).spec_width()),
        ensures
            final(self).wf(),
            final(self)@ == old(self)@.push(tag),
            final(self).spec_width() == old(self).spec_width(),
    {
        let ghost before = bits_of(self.bits);
        let ghost w = self.width as nat;
        let ghost n = self.slots@;
        if self.width == 0 {
            proof {
                lemma2_to64();
                self.slots@ = n + 1;
                lemma_empty_slot(before, n as int);
                assert(self@ =~= old(self)@.push(tag));
            }
        } else {
            proof {
                lemma_slots_within(n + 1, w);
                assert((n + 1) * w == n * w + w) by (nonlinear_arith);
                assert((n * w) / w == n) by (nonlinear_arith)
                    requires
                        w > 0,
                ;
            }
            let index: usize = self.bits.len() / self.width;
            let mut grown: usize = 0;
            while grown < self.width
                invariant
                    grown <= self.width,
                    self.width == w,
                    self.slots@ == n,
                    before.len() == n * w,
                    n * w + w <= spec_max_bits(),
                    bits_of(self.bits) == before + Seq::new(grown as nat, |k: int| false),
                decreases self.width - grown,
            {
                self.bits.push(false);
                grown += 1;
                assert(bits_of(self.bits) =~= before + Seq::new(grown as nat, |k: int| false));
            }
            proof {
                let blank = Seq::new(w, |k: int| false);
                lemma_slot_appended(before, w, n, blank);
                self.slots@ = n + 1;
                assert(self@.take(n as int) =~= old(self)@);
            }
            self.write_slot(index, tag);
            assert(self@ =~= old(self)@.push(tag));
        }
    }

    /// Keeps the first `len` tags, and all of them where there are no more
    /// than `len`. The length in bits is the product of `len` and the width,
    /// held at the largest `usize`: a product beyond that is beyond the
    /// length of any stream, so that nothing is dropped by it.
    pub fn truncate_to(&mut self, len: usize)
        requires
            old(self).wf(),
        ensures
            final(self).wf(),
            len < old(self)@.len() ==> final(self)@ == old(self)@.take(len as int),
            len >= old(self)@.len() ==> final(self)@ == old(self)@,
            final(self).spec_width() == old(self).spec_width(),
    {
        let ghost before = bits_of(self.bits);
        let ghost w = self.width as nat;
        let ghost n = self.slots@;
        let bit_len: usize = len.saturating_mul(self.width);
        self.bits.truncate(bit_len);
        proof {
            if len < n {
                assert(len * w <= n * w) by (nonlinear_arith)
                    requires
                        len < n,
                ;
                assert(w > 0 ==> len * w < n * w) by (nonlinear_arith)
                    requires
                        len < n,
                ;
                self.slots@ = len as nat;
                lemma_slot_truncated(before, w, n, len as nat);
                assert(self@ =~= old(self)@.take(len as int));
            } else {
                assert(len * w >= n * w) by (nonlinear_arith)
                    requires
                        len >= n,
                ;
                assert(self@ =~= old(self)@);
            }
        }
    }

    /// Drops every tag.
    pub fn clear(&mut self)
        requires
            old(self).wf(),
        ensures
            final(self).wf(),
            final(self)@ == Seq::<usize>::empty(),
            final(self).spec_width() == old(self).spec_width(),
    {
        self.bits.clear();
        proof {
            self.slots@ = 0;
        }
        assert(self@ =~= Seq::<usize>::empty());
    }

    /// A stream of the same tags in slots of the same width.
    pub fn duplicate(&self) -> (copy: Self)
        ensures
            copy@ == self@,
            copy.spec_width() == self.spec_width(),
            copy.spec_bits() == self.spec_bits(),
            copy.wf() == self.wf(),
    {
        let copy = TagStream { bits: self.bits.duplicate(), width: self.width, slots: self.slots };
        assert(copy@ =~= self@);
        copy
    }

    /// Whether the two streams hold the same bits. Of two streams of one
    /// width and one length that is so where they hold the same tags, and
    /// only there.
    pub fn same_bits(&self, other: &TagStream) -> (same: bool)
        ensures
            same == (self.spec_bits() == other.spec_bits()),
            self.wf() && other.wf() && self.spec_width() == other.spec_width() && self@.len()
                == other@.len() ==> same == (self@ == other@),
    {
        let same = self.bits.same_bits(&other.bits);
        proof {
            let a = bits_of(self.bits);
            let b = bits_of(other.bits);
            let w = self.width as nat;
            let n = self.slots@;
            if self.wf() && other.wf() && self.width == other.width && n == other.slots@ {
                if same {
                    assert(self@ =~= other@);
                } else if self@ == other@ {
                    assert forall|i: int| 0 <= i < n implies slot_value(a, w, i) == slot_value(
                        b,
                        w,
                        i,
                    ) by {
                        self.lemma_tags_fit(i);
                        other.lemma_tags_fit(i);
                        lemma_slot_len(a, w, n, i);
                        lemma_slot_len(b, w, n, i);
                        lemma_bits_value_bound(slot_bits(a, w, i));
                        lemma_bits_value_bound(slot_bits(b, w, i));
                        crate::width::lemma_word_limit();
                        crate::width::lemma_pow2_order(w, usize::BITS as nat);
                        assert(self@[i] == other@[i]);
                    }
                    lemma_same_slots(a, b, w, n);
                }
            }
        }
        same
    }

    /// The bits held, first to last.
    pub closed spec fn spec_bits(&self) -> Seq<bool> {
        bits_of(self.bits)
    }
}

/// As many slots as the limit allows take no more bits than the buffer
/// holds.
pub proof fn lemma_slots_within(slots: nat, width: nat)
    requires
        slots <= spec_max_slots(width),
    ensures
        slots * width <= spec_max_bits(),
{
    if width > 0 {
        assert(slots <= spec_max_bits() / width ==> slots * width <= spec_max_bits())
            by (nonlinear_arith)
            requires
                width > 0,
        ;
    } else {
        assert(slots * width == 0) by (nonlinear_arith)
            requires
                width == 0,
        ;
    }
}

/// A slot of no bits holds the tag 0.
pub proof fn lemma_empty_slot(bits: Seq<bool>, index: int)
    ensures
        slot_bits(bits, 0, index) == Seq::<bool>::empty(),
        slot_value(bits, 0, index) == 0,
{
    assert(index * 0 == 0 && (index + 1) * 0 == 0) by (nonlinear_arith);
    assert(slot_bits(bits, 0, index) =~= Seq::<bool>::empty());
}

/// A slot of a run of `slots` slots lies within the run and has the width of
/// a slot.
pub proof fn lemma_slot_len(bits: Seq<bool>, width: nat, slots: nat, index: int)
    requires
        bits.len() == slots * width,
        0 <= index < slots,
    ensures
        0 <= index * width <= (index + 1) * width <= bits.len(),
        (index + 1) * width - index * width == width,
        slot_bits(bits, width, index).len() == width,
{
    assert(0 <= index * width) by (nonlinear_arith)
        requires
            0 <= index,
    ;
    assert((index + 1) * width == index * width + width) by (nonlinear_arith);
    assert((index + 1) * width <= slots * width) by (nonlinear_arith)
        requires
            index + 1 <= slots,
    ;
}

/// A slot added at the end leaves the slots before it as they are.
pub proof fn lemma_slot_appended(bits: Seq<bool>, width: nat, slots: nat, run: Seq<bool>)
    requires
        bits.len() == slots * width,
        run.len() == width,
    ensures
        (bits + run).len() == (slots + 1) * width,
        slot_bits(bits + run, width, slots as int) == run,
        forall|i: int|
            0 <= i < slots ==> #[trigger] slot_bits(bits + run, width, i) == slot_bits(
                bits,
                width,
                i,
            ),
{
    assert((slots + 1) * width == slots * width + width) by (nonlinear_arith);
    assert(slot_bits(bits + run, width, slots as int) =~= run);
    assert forall|i: int| 0 <= i < slots implies #[trigger] slot_bits(bits + run, width, i)
        == slot_bits(bits, width, i) by {
        lemma_slot_len(bits, width, slots, i);
        assert(slot_bits(bits + run, width, i) =~= slot_bits(bits, width, i));
    }
}

/// A run written over one slot becomes that slot and leaves the others as
/// they are.
pub proof fn lemma_slot_replaced(
    bits: Seq<bool>,
    width: nat,
    slots: nat,
    index: int,
    run: Seq<bool>,
)
    requires
        bits.len() == slots * width,
        0 <= index < slots,
        run.len() == width,
    ensures
        ({
            let after = bits.take(index * width) + run + bits.skip((index + 1) * width);
            &&& after.len() == bits.len()
            &&& forall|i: int|
                0 <= i < slots ==> #[trigger] slot_bits(after, width, i) == if i == index {
                    run
                } else {
                    slot_bits(bits, width, i)
                }
        }),
{
    let after = bits.take(index * width) + run + bits.skip((index + 1) * width);
    lemma_slot_len(bits, width, slots, index);
    assert forall|i: int| 0 <= i < slots implies #[trigger] slot_bits(after, width, i) == if i
        == index {
        run
    } else {
        slot_bits(bits, width, i)
    } by {
        lemma_slot_len(bits, width, slots, i);
        if i < index {
            assert((i + 1) * width <= index * width) by (nonlinear_arith)
                requires
                    i + 1 <= index,
            ;
        } else if i > index {
            assert((index + 1) * width <= i * width) by (nonlinear_arith)
                requires
                    index + 1 <= i,
            ;
        }
        if i == index {
            assert(slot_bits(after, width, i) =~= run);
        } else {
            assert(slot_bits(after, width, i) =~= slot_bits(bits, width, i));
        }
    }
}

/// A run cut after `len` slots keeps those slots as they are.
pub proof fn lemma_slot_truncated(bits: Seq<bool>, width: nat, slots: nat, len: nat)
    requires
        bits.len() == slots * width,
        len <= slots,
    ensures
        len * width <= bits.len(),
        forall|i: int|
            0 <= i < len ==> #[trigger] slot_bits(bits.take((len * width) as int), width, i)
                == slot_bits(bits, width, i),
{
    assert(len * width <= slots * width) by (nonlinear_arith)
        requires
            len <= slots,
    ;
    assert forall|i: int| 0 <= i < len implies #[trigger] slot_bits(
        bits.take((len * width) as int),
        width,
        i,
    ) == slot_bits(bits, width, i) by {
        lemma_slot_len(bits, width, slots, i);
        assert((i + 1) * width <= len * width) by (nonlinear_arith)
            requires
                i + 1 <= len,
        ;
        assert(slot_bits(bits.take((len * width) as int), width, i) =~= slot_bits(bits, width, i));
    }
}

/// Two runs of bits of one length spell the same number only where they are
/// the same run.
pub proof fn lemma_bits_value_injective(a: Seq<bool>, b: Seq<bool>)
    requires
        a.len() == b.len(),
        bits_value(a) == bits_value(b),
    ensures
        a == b,
    decreases a.len(),
{
    if a.len() > 0 {
        lemma_bits_value_injective(a.skip(1), b.skip(1));
        assert(a =~= seq![a[0]] + a.skip(1));
        assert(b =~= seq![b[0]] + b.skip(1));
    }
    assert(a =~= b);
}

/// Two runs of slots of one width that hold the same tags are the same run.
pub proof fn lemma_same_slots(a: Seq<bool>, b: Seq<bool>, width: nat, slots: nat)
    requires
        a.len() == slots * width,
        b.len() == slots * width,
        forall|i: int| 0 <= i < slots ==> slot_value(a, width, i) == slot_value(b, width, i),
    ensures
        a == b,
{
    assert forall|k: int| 0 <= k < a.len() implies a[k] == b[k] by {
        assert(width > 0) by (nonlinear_arith)
            requires
                0 <= k < slots * width,
        ;
        let i = k / (width as int);
        assert(0 <= i < slots && i * width <= k < (i + 1) * width) by (nonlinear_arith)
            requires
                0 <= k < slots * width,
                width > 0,
                i == k / (width as int),
        ;
        lemma_slot_len(a, width, slots, i);
        lemma_slot_len(b, width, slots, i);
        let run_a = slot_bits(a, width, i);
        let run_b = slot_bits(b, width, i);
        assert(slot_value(a, width, i) == slot_value(b, width, i));
        lemma_bits_value_injective(run_a, run_b);
        assert(a[k] == run_a[k - i * width]);
        assert(b[k] == run_b[k - i * width]);
    }
    assert(a =~= b);
}

} // verus!
