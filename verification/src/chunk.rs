//! A chunk: a block of 32 by 32 tiles, the unit in which the world grows.

use crate::field::Field;
use crate::point::{Point, CHUNK_TILES};
use crate::tile::{Tile, TileView};
use vstd::prelude::*;
use std::cmp::Ordering;
use vstd::std_specs::cmp::{PartialEqSpecImpl, PartialOrdSpecImpl};

verus! {

/// The number of places in a chunk's cache of border tiles.
pub const BORDER_TILES: usize = 128;

/// What a chunk is, whatever the order in which its tiles keep their fields.
pub struct ChunkView {
    /// The chunk's coordinate in the world.
    pub pos: Point<u16>,
    /// The tiles, row by row.
    pub tiles: Seq<TileView>,
    /// The cached border tiles.
    pub border: Seq<Option<TileView>>,
    /// Whether the chunk has changed since the world was last put in order.
    pub changed: bool,
}

impl ChunkView {
    /// A chunk at `pos` as it is first made: every tile empty and at its own
    /// place, no border tile cached.
    pub open spec fn fresh(pos: Point<u16>) -> ChunkView {
        ChunkView {
            pos,
            tiles: Seq::new(1024, |i: int| TileView::empty(Point::<u8>::at(i))),
            border: Seq::new(128, |i: int| None),
            changed: false,
        }
    }

    /// The chunk with `tile` in slot `index`.
    pub open spec fn with_tile(self, index: int, tile: TileView) -> ChunkView {
        ChunkView {
            pos: self.pos,
            tiles: self.tiles.update(index, tile),
            border: self.border,
            changed: self.changed,
        }
    }
}

/// A block of 32 by 32 tiles.
#[derive(Debug)]
pub struct Chunk {
    /// The chunk's coordinate in the world.
    pub pos: Point<u16>,
    /// The 1024 tiles, row by row: slot `i` is row `i / 32`, column `i % 32`.
    pub tiles: Vec<Tile>,
    /// The 128 places for cached border tiles.
    pub border: Vec<Option<Tile>>,
    /// Whether the chunk has changed since the world was last put in order.
    pub changed: bool,
}

impl View for Chunk {
    type V = ChunkView;

    open spec fn view(&self) -> ChunkView {
        ChunkView {
            pos: self.pos,
            tiles: Seq::new(self.tiles@.len(), |i: int| self.tiles@[i]@),
            border: Seq::new(
                self.border@.len(),
                |i: int|
                    match self.border@[i] {
                        Some(tile) => Some(tile@),
                        None => None,
                    },
            ),
            changed: self.changed,
        }
    }
}

impl Chunk {
    /// What every chunk has to be: 1024 tiles, each one well formed and at
    /// the place that its slot stands for, and 128 border places.
    pub open spec fn wf(&self) -> bool {
        &&& self.tiles@.len() == 1024
        &&& self.border@.len() == 128
        &&& forall|i: int|
            0 <= i < 1024 ==> (#[trigger] self.tiles@[i]).wf() && self.tiles@[i].pos == Point::<
                u8,
            >::at(i)
        &&& forall|i: int|
            0 <= i < 128 ==> match #[trigger] self.border@[i] {
                Some(tile) => tile.wf(),
                None => true,
            }
    }

    /// A chunk at `pos` with every tile empty.
    pub fn at(pos: Point<u16>) -> (chunk: Chunk)
        ensures
            chunk.wf(),
            chunk@ == ChunkView::fresh(pos),
            forall|i: int| 0 <= i < 1024 ==> (#[trigger] chunk.tiles@[i]).members == 0,
    {
        let mut tiles: Vec<Tile> = Vec::new();
        let mut i: usize = 0;
        while i < CHUNK_TILES
            invariant
                i <= 1024,
                tiles@.len() == i,
                forall|j: int|
                    0 <= j < i ==> (#[trigger] tiles@[j]).wf() && tiles@[j]@ == TileView::empty(
                        Point::<u8>::at(j),
                    ) && tiles@[j].members == 0,
            decreases 1024 - i,
        {
            let place: Point<u8> = Point::<u8>::from(i);
            tiles.push(Tile::new(&place));
            i += 1;
        }
        let mut border: Vec<Option<Tile>> = Vec::new();
        let mut k: usize = 0;
        while k < BORDER_TILES
            invariant
                k <= 128,
                border@.len() == k,
                forall|j: int| 0 <= j < k ==> (#[trigger] border@[j]) is None,
            decreases 128 - k,
        {
            border.push(None);
            k += 1;
        }
        let chunk = Chunk { pos, tiles, border, changed: false };
        assert(chunk@.tiles =~= ChunkView::fresh(pos).tiles);
        assert(chunk@.border =~= ChunkView::fresh(pos).border);
        chunk
    }

    /// Whether the chunk lies in the window of the camera `(x, y, half_w,
    /// half_h)`: from `x - half_w` to `x + half_w` and from `y - half_h` to
    /// `y + half_h`, both ends counted, and each end held inside `u16`.
    pub fn on_screen(&self, camera: (u16, u16, u16, u16)) -> (visible: bool)
        ensures
            visible <==> {
                &&& camera.0 - camera.2 <= self.pos.0 <= camera.0 + camera.2
                &&& camera.1 - camera.3 <= self.pos.1 <= camera.1 + camera.3
            },
    {
        self.pos.0 >= camera.0.saturating_sub(camera.2) && self.pos.1 >= camera.1.saturating_sub(
            camera.3,
        ) && self.pos.0 <= camera.0.saturating_add(camera.2) && self.pos.1
            <= camera.1.saturating_add(camera.3)
    }

    /// The index of the chunk's coordinate on the curve of chunk coordinates.
    /// The curve does not depend on `origin`.
    pub fn hilbert_index(&self, origin: &usize) -> (index: u64)
        ensures
            index == self.pos.curve_index(),
    {
        self.pos.hilbert_index(origin)
    }

    /// Puts an empty tile in slot `index`.
    pub fn reset(&mut self, index: usize)
        requires
            old(self).wf(),
            index < 1024,
        ensures
            final(self).wf(),
            final(self)@ == old(self)@.with_tile(
                index as int,
                TileView::empty(Point::<u8>::at(index as int)),
            ),
    {
        let place: Point<u8> = Point::<u8>::from(index);
        self.tiles[index] = Tile::new(&place);
        assert(self@.tiles =~= old(self)@.tiles.update(
            index as int,
            TileView::empty(Point::<u8>::at(index as int)),
        ));
    }

    /// Adds `field` to the tile in slot `index`, and writes the tile's place
    /// anew.
    pub fn deposit(&mut self, index: usize, field: Field)
        requires
            old(self).wf(),
            index < 1024,
            old(self)@.tiles[index as int].accepts(field),
        ensures
            final(self).wf(),
            final(self)@ == old(self)@.with_tile(
                index as int,
                old(self)@.tiles[index as int].with_field(field),
            ),
    {
        self.tiles[index].pos = Point::<u8>::from(index);
        self.tiles[index].add_field(field);
        assert(self@.tiles =~= old(self)@.tiles.update(
            index as int,
            old(self)@.tiles[index as int].with_field(field),
        ));
    }
}

impl Default for Chunk {
    /// A chunk at the origin with every tile empty.
    fn default() -> (chunk: Chunk)
        ensures
            chunk.wf(),
            chunk@ == ChunkView::fresh(Point(0, 0)),
            chunk.tiles@.len() == 1024,
            forall|i: int|
                0 <= i < 1024 ==> (#[trigger] chunk.tiles@[i]).members == 0
                    && chunk.tiles@[i].pos.index() == i,
    {
        Chunk::at(Point(0, 0))
    }
}

impl PartialEq<Chunk> for Chunk {
    /// Two chunks are equal where their coordinates are: a chunk stands for
    /// its part of the world, whatever its tiles hold.
    fn eq(&self, other: &Chunk) -> (r: bool) {
        self.pos == other.pos
    }
}

impl PartialEqSpecImpl<Chunk> for Chunk {
    open spec fn obeys_eq_spec() -> bool {
        true
    }

    open spec fn eq_spec(&self, other: &Chunk) -> bool {
        self.pos == other.pos
    }
}

impl Eq for Chunk {

}

impl std::hash::Hash for Chunk {
    /// A chunk is hashed by its coordinate, as it is compared.
    fn hash<H: std::hash::Hasher>(&self, state: &mut H) {
        let coordinate: u32 = self.pos.0 as u32 * 65536 + self.pos.1 as u32;
        coordinate.hash(state);
    }
}

impl PartialOrd<Chunk> for Chunk {
    /// Chunks are ordered by their coordinates along the curve.
    fn partial_cmp(&self, other: &Chunk) -> (r: Option<Ordering>) {
        Some(self.pos.curve_order(&other.pos))
    }
}

impl PartialOrdSpecImpl<Chunk> for Chunk {
    open spec fn obeys_partial_cmp_spec() -> bool {
        true
    }

    open spec fn partial_cmp_spec(&self, other: &Chunk) -> Option<Ordering> {
        Some(self.pos.curve_rank(other.pos))
    }
}

impl Clone for Chunk {
    /// A chunk with the same coordinate, tiles, border and mark.
    fn clone(&self) -> (copy: Chunk)
        ensures
            copy@ == self@,
            self.wf() ==> copy.wf(),
    {
        let mut tiles: Vec<Tile> = Vec::new();
        let mut i: usize = 0;
        while i < self.tiles.len()
            invariant
                i <= self.tiles@.len(),
                tiles@.len() == i,
                forall|j: int|
                    0 <= j < i ==> {
                        &&& (#[trigger] tiles@[j]).pos == self.tiles@[j].pos
                        &&& tiles@[j].members == self.tiles@[j].members
                        &&& tiles@[j].rule == self.tiles@[j].rule
                        &&& tiles@[j].fields@ == self.tiles@[j].fields@
                    },
            decreases self.tiles@.len() - i,
        {
            tiles.push(self.tiles[i].clone());
            i += 1;
        }
        let mut border: Vec<Option<Tile>> = Vec::new();
        let mut k: usize = 0;
        while k < self.border.len()
            invariant
                k <= self.border@.len(),
                border@.len() == k,
                forall|j: int|
                    0 <= j < k ==> match (#[trigger] border@[j], self.border@[j]) {
                        (Some(copy), Some(tile)) => {
                            &&& copy.pos == tile.pos
                            &&& copy.members == tile.members
                            &&& copy.rule == tile.rule
                            &&& copy.fields@ == tile.fields@
                        },
                        (None, None) => true,
                        _ => false,
                    },
            decreases self.border@.len() - k,
        {
            let cached = match &self.border[k] {
                Some(tile) => Some(tile.clone()),
                None => None,
            };
            border.push(cached);
            k += 1;
        }
        let copy = Chunk { pos: self.pos, tiles, border, changed: self.changed };
        assert(copy@.tiles =~= self@.tiles);
        assert(copy@.border =~= self@.border);
        copy
    }
}

} // verus!
