//! A block: sixty-four typed slots with saturating values, merged slot by slot.

use std::ops::{AddAssign, SubAssign};
use vstd::array::spec_array_fill_for_copy_type;
use vstd::prelude::*;
use vstd::std_specs::ops::{AddSpecImpl, SubSpecImpl};

verus! {

/// A fixed set of slots at a pair of coordinates. Slot `i` holds the type
/// `types[i]`, 0 for none, and the value `values[i]`; `members` counts the
/// slots in use, which are the first ones.
#[derive(PartialEq, Eq, Copy, Clone, Debug)]
pub struct Block {
    pub coords: (u16, u16),
    pub types: [u32; 64],
    pub values: [u32; 64],
    pub members: u16,
}

/// The type that a slot of type `t` has once a slot of type `ot` was merged
/// into it: an empty slot takes the other's type, any other keeps its own.
pub open spec fn merged_type(t: u32, ot: u32) -> u32 {
    if t == 0 {
        ot
    } else {
        t
    }
}

/// The value that a slot `(t, v)` has once `(ot, ov)` was merged into it: the
/// saturating sum where the types agree, the other's value where the slot
/// was empty, else its own.
pub open spec fn merged_value(t: u32, v: u32, ot: u32, ov: u32) -> u32 {
    if t == ot {
        if v + ov > u32::MAX {
            u32::MAX
        } else {
            (v + ov) as u32
        }
    } else if t == 0 {
        ov
    } else {
        v
    }
}

/// What is left of a slot `(t, v)` once `(ot, ov)` was taken from it: the slot
/// itself where the types differ, the positive rest of the value where they
/// agree, and nothing where no value is left.
pub open spec fn reduced_slot(t: u32, v: u32, ot: u32, ov: u32) -> Option<(u32, u32)> {
    if t != ot {
        Some((t, v))
    } else if v > ov {
        Some((t, (v - ov) as u32))
    } else {
        None
    }
}

/// The slots among the first `n` of `(types, values)` of which something is
/// left once the slots of `(otypes, ovalues)` were taken from them, in order.
pub open spec fn survivors(
    types: Seq<u32>,
    values: Seq<u32>,
    otypes: Seq<u32>,
    ovalues: Seq<u32>,
    n: nat,
) -> Seq<(u32, u32)>
    decreases n,
{
    if n == 0 {
        Seq::empty()
    } else {
        let i = n - 1;
        let before = survivors(types, values, otypes, ovalues, i as nat);
        match reduced_slot(types[i], values[i], otypes[i], ovalues[i]) {
            Some(slot) => before.push(slot),
            None => before,
        }
    }
}

/// Of empty slots only empty slots are left.
proof fn lemma_survivors_of_empty(
    types: Seq<u32>,
    values: Seq<u32>,
    otypes: Seq<u32>,
    ovalues: Seq<u32>,
    n: nat,
)
    requires
        forall|i: int| 0 <= i < n ==> types[i] == 0 && values[i] == 0,
    ensures
        forall|i: int|
            0 <= i < survivors(types, values, otypes, ovalues, n).len() ==> survivors(
                types,
                values,
                otypes,
                ovalues,
                n,
            )[i] == (0u32, 0u32),
        survivors(types, values, otypes, ovalues, n).len() <= n,
    decreases n,
{
    if n > 0 {
        lemma_survivors_of_empty(types, values, otypes, ovalues, (n - 1) as nat);
    }
}

impl Block {
    /// The larger of the two member counts: the slots that a merge looks at.
    pub open spec fn merge_span(self, other: Block) -> int {
        if self.members >= other.members {
            self.members as int
        } else {
            other.members as int
        }
    }

    /// The smaller of the two member counts: the slots that a reduction looks at.
    pub open spec fn reduce_span(self, other: Block) -> int {
        if self.members <= other.members {
            self.members as int
        } else {
            other.members as int
        }
    }

    /// The slots of `self` that survive when `other` is taken from it.
    pub open spec fn kept(self, other: Block) -> Seq<(u32, u32)> {
        survivors(
            self.types@,
            self.values@,
            other.types@,
            other.values@,
            self.reduce_span(other) as nat,
        )
    }

    /// Whether `self` is `base` with `other` merged into its first
    /// `base.merge_span(other)` slots.
    pub open spec fn is_merge_of(self, base: Block, other: Block) -> bool {
        &&& self.coords == base.coords
        &&& self.members == base.merge_span(other)
        &&& forall|i: int|
            0 <= i < 64 ==> #[trigger] self.types[i] == if i < base.merge_span(other) {
                merged_type(base.types[i], other.types[i])
            } else {
                base.types[i]
            }
        &&& forall|i: int|
            0 <= i < 64 ==> #[trigger] self.values[i] == if i < base.merge_span(other) {
                merged_value(base.types[i], base.values[i], other.types[i], other.values[i])
            } else {
                base.values[i]
            }
    }

    /// Whether `self` is `base` with `other` taken from its first
    /// `base.reduce_span(other)` slots: the survivors move to the front, the
    /// slots behind the span follow them, and zeros fill the end.
    pub open spec fn is_reduction_of(self, base: Block, other: Block) -> bool {
        let kept = base.kept(other);
        let dropped = base.reduce_span(other) - kept.len();
        &&& self.coords == base.coords
        &&& self.members == base.members - dropped
        &&& forall|i: int|
            0 <= i < 64 ==> (#[trigger] self.types[i], self.values[i]) == if i < kept.len() {
                kept[i]
            } else if i < 64 - dropped {
                (base.types[i + dropped], base.values[i + dropped])
            } else {
                (0u32, 0u32)
            }
    }

    /// `self` with every slot emptied: the coordinates and the count stay.
    pub open spec fn emptied(self) -> Block {
        Block {
            coords: self.coords,
            types: spec_array_fill_for_copy_type::<u32, 64>(0),
            values: spec_array_fill_for_copy_type::<u32, 64>(0),
            members: self.members,
        }
    }

    /// The block that is `base` with `other` merged into it.
    pub open spec fn merge_of(base: Block, other: Block) -> Block {
        choose|merged: Block| merged.is_merge_of(base, other)
    }

    /// The block that is `base` with `other` taken from it.
    pub open spec fn reduction_of(base: Block, other: Block) -> Block {
        choose|reduced: Block| reduced.is_reduction_of(base, other)
    }

    /// An empty block at `coords`.
    pub fn new(coords: (u16, u16)) -> (block: Block)
        ensures
            block.coords == coords,
            block.members == 0,
            forall|i: int| 0 <= i < 64 ==> #[trigger] block.types[i] == 0,
            forall|i: int| 0 <= i < 64 ==> #[trigger] block.values[i] == 0,
    {
        Block { coords, types: [0; 64], values: [0; 64], members: 0 }
    }

    /// A block with the coordinates and the count of `self` and empty slots.
    fn cleared(&self) -> (block: Block)
        ensures
            block == self.emptied(),
    {
        Block { coords: self.coords, types: [0; 64], values: [0; 64], members: self.members }
    }
}

impl AddAssign<Block> for Block {
    /// Merges `other` into the first slots of `self`, as many as the larger of
    /// the two counts, which becomes the count.
    fn add_assign(&mut self, other: Block)
        requires
            old(self).merge_span(other) <= 64,
        ensures
            final(self).is_merge_of(*old(self), other),
    {
        let count: usize = if self.members >= other.members {
            self.members as usize
        } else {
            other.members as usize
        };
        let mut i: usize = 0;
        while i < count
            invariant
                i <= count <= 64,
                count == old(self).merge_span(other),
                self.coords == old(self).coords,
                forall|j: int|
                    0 <= j < 64 ==> #[trigger] self.types[j] == if j < i {
                        merged_type(old(self).types[j], other.types[j])
                    } else {
                        old(self).types[j]
                    },
                forall|j: int|
                    0 <= j < 64 ==> #[trigger] self.values[j] == if j < i {
                        merged_value(
                            old(self).types[j],
                            old(self).values[j],
                            other.types[j],
                            other.values[j],
                        )
                    } else {
                        old(self).values[j]
                    },
            decreases count - i,
        {
            if self.types[i] != other.types[i] {
                if self.types[i] == 0 {
                    self.values[i] = other.values[i];
                    self.types[i] = other.types[i];
                }
            } else {
                self.values[i] = self.values[i].saturating_add(other.values[i]);
            }
            i += 1;
        }
        self.members = count as u16;
    }
}

impl SubAssign<Block> for Block {
    /// Takes `other` from the first slots of `self`, as many as the smaller of
    /// the two counts. A slot of which nothing is left is dropped: the slots
    /// behind it move up, zeros fill the end, and the count goes down by one.
    fn sub_assign(&mut self, other: Block)
        requires
            old(self).reduce_span(other) <= 64,
        ensures
            final(self).is_reduction_of(*old(self), other),
    {
        let count: usize = if self.members <= other.members {
            self.members as usize
        } else {
            other.members as usize
        };
        let ghost before = *self;
        let mut n: usize = 0;
        let mut i: usize = 0;
        while i < count
            invariant
                n <= i <= count <= 64,
                count == before.reduce_span(other),
                self.coords == before.coords,
                self.members == before.members - n,
                before.members >= count,
                i - n == survivors(
                    before.types@,
                    before.values@,
                    other.types@,
                    other.values@,
                    i as nat,
                ).len(),
                forall|j: int|
                    0 <= j < i - n ==> (#[trigger] self.types[j], self.values[j]) == survivors(
                        before.types@,
                        before.values@,
                        other.types@,
                        other.values@,
                        i as nat,
                    )[j],
                forall|j: int| i <= j < 64 ==> #[trigger] self.types[j] == before.types[j],
                forall|j: int| i <= j < 64 ==> #[trigger] self.values[j] == before.values[j],
            decreases count - i,
        {
            let idx = i - n;
            if self.types[i] != other.types[i] {
                self.types[idx] = self.types[i];
                self.values[idx] = self.values[i];
            } else {
                let rest = self.values[i].saturating_sub(other.values[i]);
                if rest != 0 {
                    self.types[idx] = self.types[i];
                    self.values[idx] = rest;
                } else {
                    n += 1;
                    self.members -= 1;
                }
            }
            i += 1;
        }
        let kept = count - n;
        let mut p: usize = kept;
        while p < 64 - n
            invariant
                kept <= p <= 64 - n,
                n <= count <= 64,
                kept == count - n,
                self.coords == before.coords,
                self.members == before.members - n,
                kept == before.kept(other).len(),
                forall|j: int|
                    0 <= j < kept ==> (#[trigger] self.types[j], self.values[j]) == before.kept(
                        other,
                    )[j],
                forall|j: int|
                    kept <= j < p ==> (#[trigger] self.types[j], self.values[j]) == (
                        before.types[j + n],
                        before.values[j + n],
                    ),
                forall|j: int|
                    count <= j < 64 && p + n <= j ==> #[trigger] self.types[j] == before.types[j],
                forall|j: int|
                    count <= j < 64 && p + n <= j ==> #[trigger] self.values[j]
                        == before.values[j],
            decreases 64 - n - p,
        {
            self.types[p] = self.types[p + n];
            self.values[p] = self.values[p + n];
            p += 1;
        }
        while p < 64
            invariant
                64 - n <= p <= 64,
                n <= count <= 64,
                kept == count - n,
                self.coords == before.coords,
                self.members == before.members - n,
                kept == before.kept(other).len(),
                forall|j: int|
                    0 <= j < kept ==> (#[trigger] self.types[j], self.values[j]) == before.kept(
                        other,
                    )[j],
                forall|j: int|
                    kept <= j < 64 - n ==> (#[trigger] self.types[j], self.values[j]) == (
                        before.types[j + n],
                        before.values[j + n],
                    ),
                forall|j: int|
                    64 - n <= j < p ==> (#[trigger] self.types[j], self.values[j]) == (0u32, 0u32),
            decreases 64 - p,
        {
            self.types[p] = 0;
            self.values[p] = 0;
            p += 1;
        }
    }
}

impl std::ops::Add<Block> for Block {
    type Output = Block;

    /// Merges `other` into a block that has the coordinates and the count of
    /// `self` and empty slots: of the slots of `self` nothing goes into the sum.
    fn add(self, other: Block) -> (sum: Block)
        ensures
            sum.is_merge_of(self.emptied(), other),
            forall|i: int|
                0 <= i < 64 ==> #[trigger] sum.types[i] == if i < self.merge_span(other) {
                    other.types[i]
                } else {
                    0
                },
            forall|i: int|
                0 <= i < 64 ==> #[trigger] sum.values[i] == if i < self.merge_span(other) {
                    other.values[i]
                } else {
                    0
                },
    {
        let mut sum = self.cleared();
        sum.add_assign(other);
        proof {
            lemma_one_merge(sum, Block::merge_of(self.emptied(), other), self.emptied(), other);
        }
        sum
    }
}

impl AddSpecImpl<Block> for Block {
    open spec fn obeys_add_spec() -> bool {
        true
    }

    open spec fn add_req(self, other: Block) -> bool {
        self.merge_span(other) <= 64
    }

    open spec fn add_spec(self, other: Block) -> Block {
        Block::merge_of(self.emptied(), other)
    }
}

impl std::ops::Sub<Block> for Block {
    type Output = Block;

    /// Takes `other` from a block that has the coordinates and the count of
    /// `self` and empty slots: of the slots of `self` nothing goes into the
    /// difference.
    fn sub(self, other: Block) -> (difference: Block)
        ensures
            difference.is_reduction_of(self.emptied(), other),
            forall|i: int| 0 <= i < 64 ==> #[trigger] difference.types[i] == 0,
            forall|i: int| 0 <= i < 64 ==> #[trigger] difference.values[i] == 0,
    {
        let mut difference = self.cleared();
        difference.sub_assign(other);
        proof {
            let base = self.emptied();
            lemma_survivors_of_empty(
                base.types@,
                base.values@,
                other.types@,
                other.values@,
                base.reduce_span(other) as nat,
            );
            assert forall|i: int| 0 <= i < 64 implies #[trigger] difference.values[i] == 0 by {
                assert((difference.types[i], difference.values[i]) == (0u32, 0u32));
            }
            lemma_one_reduction(
                difference,
                Block::reduction_of(self.emptied(), other),
                self.emptied(),
                other,
            );
        }
        difference
    }
}

impl SubSpecImpl<Block> for Block {
    open spec fn obeys_sub_spec() -> bool {
        true
    }

    open spec fn sub_req(self, other: Block) -> bool {
        self.reduce_span(other) <= 64
    }

    open spec fn sub_spec(self, other: Block) -> Block {
        Block::reduction_of(self.emptied(), other)
    }
}

/// A base and a block to merge into it leave one result.
pub proof fn lemma_one_merge(a: Block, b: Block, base: Block, other: Block)
    requires
        a.is_merge_of(base, other),
    ensures
        b.is_merge_of(base, other) ==> a == b,
        Block::merge_of(base, other) == a,
{
    if b.is_merge_of(base, other) {
        assert(a.types =~= b.types);
        assert(a.values =~= b.values);
    }
    let c = Block::merge_of(base, other);
    assert(a.types =~= c.types);
    assert(a.values =~= c.values);
}

/// A base and a block to take from it leave one result.
pub proof fn lemma_one_reduction(a: Block, b: Block, base: Block, other: Block)
    requires
        a.is_reduction_of(base, other),
    ensures
        b.is_reduction_of(base, other) ==> a == b,
        Block::reduction_of(base, other) == a,
{
    if b.is_reduction_of(base, other) {
        assert forall|i: int| 0 <= i < 64 implies a.types[i] == b.types[i] && a.values[i]
            == b.values[i] by {
        }
        assert(a.types =~= b.types);
        assert(a.values =~= b.values);
    }
    let c = Block::reduction_of(base, other);
    assert forall|i: int| 0 <= i < 64 implies a.types[i] == c.types[i] && a.values[i]
        == c.values[i] by {
    }
    assert(a.types =~= c.types);
    assert(a.values =~= c.values);
}

} // verus!
