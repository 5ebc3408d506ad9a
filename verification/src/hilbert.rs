//! The Hilbert curve as an order of coordinates: the index of a point on the
//! curve, and the order of chunk coordinates that follows from it.

use crate::point::Point;
use std::cmp::Ordering;
use vstd::arithmetic::power2::{lemma2_to64, pow2};
use vstd::prelude::*;
use vstd::std_specs::cmp::PartialOrdSpecImpl;

verus! {

/// The curve order that holds every tile place given in `u8`.
pub const TILE_ORDER: u8 = 8;

/// The curve order that holds every chunk coordinate.
pub const CHUNK_ORDER: u8 = 16;

/// The index of the point `(x, y)` on the Hilbert curve of `bits` bits per
/// coordinate, as the `hilbert` crate computes it by Skilling's algorithm.
pub uninterp spec fn curve_position(bits: usize, x: u32, y: u32) -> u64;

/// `hilbert::Point::hilbert_transform` of the point that `hilbert::Point::new`
/// makes of `(x, y)`, brought to a `u64` by way of its digits
/// (`BigUint::to_radix_be`, `BigUint::from_radix_be`, `u64::try_from`).
///
/// The contract only names the index. It rests on three things that the
/// crate's source shows: `new` sums the squares of the coordinates in a `u64`;
/// the transform shifts by `bits - 1` in a `u32`; and the index is laid out in
/// `2 * bits` bits, so that with at most 32 bits per coordinate it is a `u64`.
#[verifier::external_body]
fn transform(bits: usize, x: u32, y: u32) -> (index: u64)
    requires
        1 <= bits <= 32,
        x * x + y * y <= u64::MAX,
    ensures
        index == curve_position(bits, x, y),
{
    let digits = hilbert::Point::new(0, &[x, y]).hilbert_transform(bits).to_radix_be(16);
    let index = num_bigint::BigUint::from_radix_be(&digits, 16).expect("hex digits");
    u64::try_from(index).expect("an index of at most 64 bits")
}

/// Whether `coord` lies on the grid of side `2^grid_order`, and the outside
/// transform can take it.
pub open spec fn on_grid(grid_order: u8, coord: (u32, u32)) -> bool {
    &&& 1 <= grid_order <= 32
    &&& coord.0 < pow2(grid_order as nat)
    &&& coord.1 < pow2(grid_order as nat)
    &&& coord.0 * coord.0 + coord.1 * coord.1 <= u64::MAX
}

/// The position of `coord` along the Hilbert curve of side `2^grid_order`.
pub fn hilbert_index(grid_order: u8, coord: (u32, u32)) -> (index: u64)
    requires
        on_grid(grid_order, coord),
    ensures
        index == curve_position(grid_order as usize, coord.0, coord.1),
{
    transform(grid_order as usize, coord.0, coord.1)
}

/// Every pair of `u8` lies on the grid of tile places, every pair of `u16` on
/// the grid of chunk coordinates.
pub proof fn lemma_grids(a: u8, b: u8, c: u16, d: u16)
    ensures
        on_grid(TILE_ORDER, (a as u32, b as u32)),
        on_grid(CHUNK_ORDER, (c as u32, d as u32)),
{
    lemma2_to64();
    assert(a * a + b * b <= u64::MAX) by (nonlinear_arith)
        requires
            a <= 255,
            b <= 255,
    ;
    assert(c * c + d * d <= u64::MAX) by (nonlinear_arith)
        requires
            c <= 65535,
            d <= 65535,
    ;
}

impl Point<u8> {
    /// The index of this place on the curve of tile places.
    pub open spec fn curve_index(self) -> u64 {
        curve_position(8, self.0 as u32, self.1 as u32)
    }

    /// The index of this place on the curve of tile places. The curve does
    /// not depend on `_origin`.
    pub fn hilbert_index(&self, _origin: &usize) -> (index: u64)
        ensures
            index == self.curve_index(),
    {
        proof {
            lemma_grids(self.0, self.1, 0, 0);
        }
        hilbert_index(TILE_ORDER, (self.0 as u32, self.1 as u32))
    }

    /// Whether `self` comes before `other` along the curve. Two places with
    /// one index are told apart by the places themselves, the first part
    /// first, so that no two different places share a rank.
    pub open spec fn curve_before(self, other: Point<u8>) -> bool {
        ||| self.curve_index() < other.curve_index()
        ||| self.curve_index() == other.curve_index() && self.0 < other.0
        ||| self.curve_index() == other.curve_index() && self.0 == other.0 && self.1 < other.1
    }

    /// Where `self` stands to `other` along the curve.
    pub open spec fn curve_rank(self, other: Point<u8>) -> Ordering {
        if self.curve_before(other) {
            Ordering::Less
        } else if self == other {
            Ordering::Equal
        } else {
            Ordering::Greater
        }
    }

    /// Where `self` stands to `other` along the curve.
    pub fn curve_order(&self, other: &Point<u8>) -> (rank: Ordering)
        ensures
            rank == self.curve_rank(*other),
    {
        let mine = self.hilbert_index(&0);
        let theirs = other.hilbert_index(&1);
        if mine < theirs {
            Ordering::Less
        } else if mine > theirs {
            Ordering::Greater
        } else if self.0 < other.0 {
            Ordering::Less
        } else if self.0 > other.0 {
            Ordering::Greater
        } else if self.1 < other.1 {
            Ordering::Less
        } else if self.1 > other.1 {
            Ordering::Greater
        } else {
            Ordering::Equal
        }
    }
}

impl PartialOrd<Point<u8>> for Point<u8> {
    /// Places are ordered along the curve.
    fn partial_cmp(&self, other: &Point<u8>) -> (r: Option<Ordering>) {
        Some(self.curve_order(other))
    }
}

impl PartialOrdSpecImpl<Point<u8>> for Point<u8> {
    open spec fn obeys_partial_cmp_spec() -> bool {
        true
    }

    open spec fn partial_cmp_spec(&self, other: &Point<u8>) -> Option<Ordering> {
        Some(self.curve_rank(*other))
    }
}

impl Point<u16> {
    /// The index of this chunk coordinate on the curve of chunk coordinates.
    pub open spec fn curve_index(self) -> u64 {
        curve_position(16, self.0 as u32, self.1 as u32)
    }

    /// The index of this chunk coordinate on the curve of chunk coordinates.
    /// The curve does not depend on `_origin`.
    pub fn hilbert_index(&self, _origin: &usize) -> (index: u64)
        ensures
            index == self.curve_index(),
    {
        proof {
            lemma_grids(0, 0, self.0, self.1);
        }
        hilbert_index(CHUNK_ORDER, (self.0 as u32, self.1 as u32))
    }

    /// Whether `self` comes before `other` along the curve. Two coordinates
    /// with one index are told apart by the coordinates themselves, the first
    /// one first, so that no two different coordinates share a rank.
    pub open spec fn curve_before(self, other: Point<u16>) -> bool {
        ||| self.curve_index() < other.curve_index()
        ||| self.curve_index() == other.curve_index() && self.0 < other.0
        ||| self.curve_index() == other.curve_index() && self.0 == other.0 && self.1 < other.1
    }

    /// Where `self` stands to `other` along the curve.
    pub open spec fn curve_rank(self, other: Point<u16>) -> Ordering {
        if self.curve_before(other) {
            Ordering::Less
        } else if self == other {
            Ordering::Equal
        } else {
            Ordering::Greater
        }
    }

    /// Where `self` stands to `other` along the curve.
    pub fn curve_order(&self, other: &Point<u16>) -> (rank: Ordering)
        ensures
            rank == self.curve_rank(*other),
    {
        let mine = self.hilbert_index(&0);
        let theirs = other.hilbert_index(&1);
        if mine < theirs {
            Ordering::Less
        } else if mine > theirs {
            Ordering::Greater
        } else if self.0 < other.0 {
            Ordering::Less
        } else if self.0 > other.0 {
            Ordering::Greater
        } else if self.1 < other.1 {
            Ordering::Less
        } else if self.1 > other.1 {
            Ordering::Greater
        } else {
            Ordering::Equal
        }
    }
}

impl PartialOrd<Point<u16>> for Point<u16> {
    /// Chunk coordinates are ordered along the curve.
    fn partial_cmp(&self, other: &Point<u16>) -> (r: Option<Ordering>) {
        Some(self.curve_order(other))
    }
}

impl PartialOrdSpecImpl<Point<u16>> for Point<u16> {
    open spec fn obeys_partial_cmp_spec() -> bool {
        true
    }

    open spec fn partial_cmp_spec(&self, other: &Point<u16>) -> Option<Ordering> {
        Some(self.curve_rank(*other))
    }
}

/// The order of chunk coordinates along the curve is a strict total order:
/// no coordinate comes before itself, of two different coordinates exactly
/// one comes before the other, and the order is transitive.
pub proof fn lemma_curve_order_is_strict_total(a: Point<u16>, b: Point<u16>, c: Point<u16>)
    ensures
        !a.curve_before(a),
        a != b ==> (a.curve_before(b) <==> !b.curve_before(a)),
        a.curve_before(b) && b.curve_before(c) ==> a.curve_before(c),
{
}

/// The order of tile places along the curve is a strict total order too.
pub proof fn lemma_place_order_is_strict_total(a: Point<u8>, b: Point<u8>, c: Point<u8>)
    ensures
        !a.curve_before(a),
        a != b ==> (a.curve_before(b) <==> !b.curve_before(a)),
        a.curve_before(b) && b.curve_before(c) ==> a.curve_before(c),
{
}

/// Along the curve the index never goes down: of two chunk coordinates the
/// one that comes first has the index that is not the larger one.
pub proof fn lemma_curve_order_ascends(a: Point<u16>, b: Point<u16>)
    requires
        !b.curve_before(a),
    ensures
        a.curve_index() <= b.curve_index(),
        a != b ==> a.curve_before(b),
{
}

} // verus!
