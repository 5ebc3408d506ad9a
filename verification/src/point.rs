//! Coordinates: a pair that serves as a chunk coordinate (`Point<u16>`), as a
//! tile's place inside its chunk (`Point<u8>`), and, with a tile index as its
//! second part, as a place in the world (`Point<Point<u16>, usize>`).

use vstd::prelude::*;
use vstd::std_specs::convert::FromSpecImpl;

verus! {

/// The side of a chunk, in tiles.
pub const CHUNK_SIDE: usize = 32;

/// The number of tiles in a chunk.
pub const CHUNK_TILES: usize = 1024;

/// A pair of coordinates, or a coordinate with something attached to it.
#[derive(PartialEq, Eq, Structural, Copy, Clone, Debug, Hash, Default)]
pub struct Point<T, D = T>(pub T, pub D);

/// The coordinate of a chunk in the world.
pub type ChunkCoord = Point<u16>;

/// The place of a tile inside its chunk: row and column.
pub type LocalCoord = Point<u8>;

/// A place in the world: the coordinate of a chunk, and the slot of a tile in
/// that chunk's tile array.
pub type WorldCoord = Point<Point<u16>, usize>;

impl Point<u8> {
    /// The slot of this place in its chunk's row-major tile array.
    pub open spec fn index(self) -> int {
        self.0 * 32 + self.1
    }

    /// The place that tile slot `i` stands for: row `i / 32`, column `i % 32`.
    pub open spec fn at(i: int) -> Point<u8> {
        Point::<u8>(((i / 32) % 256) as u8, (i % 32) as u8)
    }

    /// The slot of this place in its chunk's row-major tile array.
    pub fn pos(&self) -> (index: usize)
        ensures
            index == self.index(),
    {
        self.0 as usize * CHUNK_SIDE + self.1 as usize
    }

    /// The place `x` rows and `y` columns away, wrapping around at the ends of `u8`.
    pub fn neighb(&self, x: i8, y: i8) -> (p: Point<u8>)
        ensures
            p.0 == (self.0 + x) % 256,
            p.1 == (self.1 + y) % 256,
    {
        Point(self.0.wrapping_add_signed(x), self.1.wrapping_add_signed(y))
    }
}

impl Point<u16> {
    /// `32 * self.0 + self.1`, which has to fit in `u16`.
    pub fn pos(&self) -> (index: usize)
        requires
            self.0 * 32 + self.1 <= u16::MAX,
        ensures
            index == self.0 * 32 + self.1,
    {
        (self.0 * 32 + self.1) as usize
    }

    /// The chunk coordinate `x` and `y` chunks away, wrapping around at the
    /// ends of `u16`: the world has no edge.
    pub fn neighb(&self, x: i16, y: i16) -> (p: Point<u16>)
        ensures
            p.0 == (self.0 + x) % 65536,
            p.1 == (self.1 + y) % 65536,
    {
        Point(self.0.wrapping_add_signed(x), self.1.wrapping_add_signed(y))
    }
}

impl From<usize> for Point<u8> {
    /// The place that tile slot `i` stands for.
    fn from(i: usize) -> (p: Point<u8>) {
        Point::<u8>(((i / CHUNK_SIDE) % 256) as u8, (i % CHUNK_SIDE) as u8)
    }
}

impl FromSpecImpl<usize> for Point<u8> {
    open spec fn obeys_from_spec() -> bool {
        true
    }

    open spec fn from_spec(i: usize) -> Point<u8> {
        Point::<u8>::at(i as int)
    }
}

/// A slot below 1024 and its place name each other.
pub proof fn lemma_slot_round_trip(i: int)
    requires
        0 <= i < 1024,
    ensures
        Point::<u8>::at(i).index() == i,
        Point::<u8>::at(i).0 < 32,
        Point::<u8>::at(i).1 < 32,
{
}

/// A place inside a chunk and its slot name each other.
pub proof fn lemma_place_round_trip(p: Point<u8>)
    requires
        p.0 < 32,
        p.1 < 32,
    ensures
        0 <= p.index() < 1024,
        Point::<u8>::at(p.index()) == p,
{
}

} // verus!
