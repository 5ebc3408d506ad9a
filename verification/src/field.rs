//! The field algebra: a `(kind, magnitude)` pair and its saturating merges.

use std::cmp::Ordering;
use std::ops::{AddAssign, SubAssign};
use vstd::prelude::*;
use vstd::std_specs::cmp::{PartialEqSpecImpl, PartialOrdSpecImpl};
use vstd::std_specs::ops::{AddSpecImpl, SubSpecImpl};

verus! {

/// A typed weight: `.0` is the kind, `.1` the magnitude.
///
/// Only the kind identifies a field; the magnitude is what merges change.
#[derive(Copy, Clone, Debug)]
pub struct Field(pub u32, pub u32);

impl Field {
    /// Whether the two fields are of one kind, whatever their magnitudes.
    pub open spec fn same_kind(self, other: Field) -> bool {
        self.0 == other.0
    }

    /// The sum of the magnitudes of two fields of one kind, held at `u32::MAX`;
    /// `self` where the kinds differ.
    pub open spec fn merged_add(self, other: Field) -> Field {
        if self.same_kind(other) {
            Field(
                self.0,
                if self.1 + other.1 > u32::MAX {
                    u32::MAX
                } else {
                    (self.1 + other.1) as u32
                },
            )
        } else {
            self
        }
    }

    /// The difference of the magnitudes of two fields of one kind, held at 0;
    /// `self` where the kinds differ.
    pub open spec fn merged_sub(self, other: Field) -> Field {
        if self.same_kind(other) {
            Field(
                self.0,
                if self.1 < other.1 {
                    0
                } else {
                    (self.1 - other.1) as u32
                },
            )
        } else {
            self
        }
    }

    /// Adds `other` to `self`: fields of different kinds never interact.
    pub fn merge_add(self, other: Field) -> (merged: Field)
        ensures
            merged == self.merged_add(other),
    {
        if self.0 == other.0 {
            Field(self.0, self.1.saturating_add(other.1))
        } else {
            self
        }
    }

    /// Takes `other` from `self`: fields of different kinds never interact.
    pub fn merge_sub(self, other: Field) -> (merged: Field)
        ensures
            merged == self.merged_sub(other),
    {
        if self.0 == other.0 {
            Field(self.0, self.1.saturating_sub(other.1))
        } else {
            self
        }
    }
}

impl PartialEq<Field> for Field {
    /// Two fields are equal where their kinds are: the magnitude does not count.
    fn eq(&self, other: &Field) -> (r: bool) {
        self.0 == other.0
    }
}

impl PartialEqSpecImpl<Field> for Field {
    open spec fn obeys_eq_spec() -> bool {
        true
    }

    open spec fn eq_spec(&self, other: &Field) -> bool {
        self.0 == other.0
    }
}

impl Eq for Field {

}

/// `Hash::hash` of `u32`: feeds the number to the hasher. Nothing is said of
/// what the hasher makes of it.
pub assume_specification<H: std::hash::Hasher>[ <u32 as std::hash::Hash>::hash::<H> ](
    value: &u32,
    state: &mut H,
);

impl std::hash::Hash for Field {
    /// A field is hashed by its kind, as it is compared.
    fn hash<H: std::hash::Hasher>(&self, state: &mut H) {
        self.0.hash(state);
    }
}

impl PartialOrd<Field> for Field {
    /// Fields are ordered by kind.
    fn partial_cmp(&self, other: &Field) -> (r: Option<Ordering>) {
        if self.0 < other.0 {
            Some(Ordering::Less)
        } else if self.0 == other.0 {
            Some(Ordering::Equal)
        } else {
            Some(Ordering::Greater)
        }
    }
}

impl PartialOrdSpecImpl<Field> for Field {
    open spec fn obeys_partial_cmp_spec() -> bool {
        true
    }

    open spec fn partial_cmp_spec(&self, other: &Field) -> Option<Ordering> {
        if self.0 < other.0 {
            Some(Ordering::Less)
        } else if self.0 == other.0 {
            Some(Ordering::Equal)
        } else {
            Some(Ordering::Greater)
        }
    }
}

impl std::ops::Add<Field> for Field {
    type Output = Field;

    fn add(self, rhs: Field) -> (sum: Field) {
        self.merge_add(rhs)
    }
}

impl AddSpecImpl<Field> for Field {
    open spec fn obeys_add_spec() -> bool {
        true
    }

    open spec fn add_req(self, rhs: Field) -> bool {
        true
    }

    open spec fn add_spec(self, rhs: Field) -> Field {
        self.merged_add(rhs)
    }
}

impl std::ops::Sub<Field> for Field {
    type Output = Field;

    fn sub(self, rhs: Field) -> (difference: Field) {
        self.merge_sub(rhs)
    }
}

impl SubSpecImpl<Field> for Field {
    open spec fn obeys_sub_spec() -> bool {
        true
    }

    open spec fn sub_req(self, rhs: Field) -> bool {
        true
    }

    open spec fn sub_spec(self, rhs: Field) -> Field {
        self.merged_sub(rhs)
    }
}

impl AddAssign<Field> for Field {
    fn add_assign(&mut self, other: Field)
        ensures
            *final(self) == old(self).merged_add(other),
    {
        *self = self.merge_add(other);
    }
}

impl SubAssign<Field> for Field {
    fn sub_assign(&mut self, other: Field)
        ensures
            *final(self) == old(self).merged_sub(other),
    {
        *self = self.merge_sub(other);
    }
}

/// A merge is total: of two fields of one kind it keeps the kind and holds the
/// sum of the magnitudes at `u32::MAX`, or their difference at 0; of two
/// fields of different kinds it gives back the left one.
pub proof fn lemma_merge_total(a: Field, b: Field)
    ensures
        a.same_kind(b) ==> a.merged_add(b).0 == a.0 && a.merged_add(b).1 == if a.1 + b.1
            <= u32::MAX {
            a.1 + b.1
        } else {
            u32::MAX as int
        },
        a.same_kind(b) ==> a.merged_sub(b).0 == a.0 && a.merged_sub(b).1 == if a.1 - b.1 >= 0 {
            a.1 - b.1
        } else {
            0
        },
        !a.same_kind(b) ==> a.merged_add(b) == a && a.merged_sub(b) == a,
{
}

/// Among fields of one kind the order of the operands of a sum does not
/// change its magnitude.
pub proof fn lemma_merge_add_commutes(a: Field, b: Field)
    requires
        a.same_kind(b),
    ensures
        a.merged_add(b) == b.merged_add(a),
{
}

} // verus!
