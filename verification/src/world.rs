//! The world: a sparse map of chunks that grows as fields reach new ground,
//! and that is walked through along the Hilbert curve.

use crate::chunk::Chunk;
use crate::field::Field;
use crate::logic::{effective_rule, Rule};
use crate::model::{
    lemma_propagation, neighbour, seed, targets, WorldView, SEED_KIND, SEED_MAGNITUDE,
};
use crate::point::{Point, WorldCoord};
use crate::store::{
    chunks_of, entries, holds_key, keys_distinct, lemma_entries_rearranged, lemma_entry_pushed,
    lemma_entry_updated, map_clear, map_get, map_get_mut, map_insert, map_keys, map_len, map_new,
    map_sort, order_of, place_of,
};
use crate::tile::Tile;
use indexmap::IndexMap;
use vstd::prelude::*;

verus! {

/// All the chunks there are, by coordinate.
pub struct World {
    /// The chunks, each under its coordinate, in the order in which the
    /// world walks through them.
    pub chunks: IndexMap<(u16, u16), Chunk>,
    changed: bool,
}

impl View for World {
    type V = WorldView;

    closed spec fn view(&self) -> WorldView {
        WorldView {
            order: order_of(entries(self.chunks)),
            chunks: chunks_of(entries(self.chunks)),
            changed: self.changed,
        }
    }
}

/// A chunk whose tiles all had room for the seed, and which took the seed on
/// one of them, still has room for the seed on all of them.
proof fn lemma_room_kept(before: Chunk, after: Chunk, slot: int)
    requires
        before.wf(),
        after.wf(),
        0 <= slot < 1024,
        forall|j: int| 0 <= j < 1024 ==> (#[trigger] before.tiles@[j])@.accepts(seed()),
        after@ == before@.with_tile(slot, before@.tiles[slot].with_field(seed())),
    ensures
        forall|j: int| 0 <= j < 1024 ==> (#[trigger] after.tiles@[j])@.accepts(seed()),
        after.pos == before.pos,
{
    assert forall|j: int| 0 <= j < 1024 implies (#[trigger] after.tiles@[j])@.accepts(seed()) by {
        assert(after@.tiles[j] == after.tiles@[j]@);
    }
}

impl World {
    /// What every world has to be: no coordinate stands twice in the map,
    /// every chunk is well formed and stands under its own coordinate, every
    /// tile has room for the seed, and a world that is not marked as changed
    /// is in curve order.
    pub closed spec fn wf(&self) -> bool {
        let e = entries(self.chunks);
        &&& keys_distinct(e)
        &&& forall|i: int|
            0 <= i < e.len() ==> {
                &&& (#[trigger] e[i]).1.wf()
                &&& e[i].1.pos == Point(e[i].0.0, e[i].0.1)
            }
        &&& forall|i: int, j: int|
            0 <= i < e.len() && 0 <= j < 1024 ==> (#[trigger] e[i].1.tiles@[j])@.accepts(seed())
        &&& !self.changed ==> self@.in_curve_order()
    }

    /// A well-formed world has a well-formed view.
    pub proof fn lemma_wf(&self)
        requires
            self.wf(),
        ensures
            self@.wf(),
    {
        let e = entries(self.chunks);
        let v = self@;
        assert forall|c: Point<u16>| v.has(c) <==> v.order.contains(c) by {
            if v.has(c) {
                assert(v.order[place_of(e, c)] == c);
            }
        }
    }

    /// A world without chunks. It is marked as changed.
    pub fn new() -> (world: World)
        ensures
            world.wf(),
            world@ == WorldView::empty(true),
    {
        let world = World { chunks: map_new(), changed: true };
        assert(world@.order =~= Seq::empty());
        assert(world@.chunks =~= Map::empty());
        world
    }

    /// Whether a chunk came or a tile was reset since the chunks were last
    /// put in order.
    pub fn changed(&self) -> (changed: bool)
        ensures
            changed == self@.changed,
    {
        self.changed
    }

    /// The number of chunks.
    pub fn len(&self) -> (len: usize)
        ensures
            len == self@.order.len(),
    {
        map_len(&self.chunks)
    }

    /// The coordinates of the chunks, in the order in which the world walks
    /// through them.
    pub fn coords(&self) -> (coords: Vec<Point<u16>>)
        ensures
            coords@ == self@.order,
    {
        map_keys(&self.chunks)
    }

    /// The chunk at `c`, where there is one.
    pub fn chunk(&self, c: &Point<u16>) -> (found: Option<&Chunk>)
        requires
            self.wf(),
        ensures
            found is Some <==> self@.has(*c),
            found matches Some(chunk) ==> chunk.wf() && chunk@ == self@.chunks[*c],
    {
        let found = map_get(&self.chunks, (c.0, c.1));
        proof {
            let e = entries(self.chunks);
            if let Some(chunk) = found {
                let i = choose|i: int|
                    0 <= i < e.len() && #[trigger] e[i] == ((c.0, c.1), *chunk);
                assert(place_of(e, *c) == i);
            }
        }
        found
    }

    /// Puts the seed on slot `slot` of the chunk under `key`, where there is
    /// such a chunk, and says whether there is.
    fn seed_chunk(&mut self, key: (u16, u16), slot: usize) -> (found: bool)
        requires
            old(self).wf(),
            slot < 1024,
        ensures
            final(self).wf(),
            found == old(self)@.has(Point(key.0, key.1)),
            found ==> final(self)@ == old(self)@.put(Point(key.0, key.1), slot as int),
            !found ==> entries(final(self).chunks) == entries(old(self).chunks),
            !found ==> final(self).changed == old(self).changed,
    {
        let ghost before = entries(self.chunks);
        let ghost was = self@;
        let ghost c = Point(key.0, key.1);
        match map_get_mut(&mut self.chunks, key) {
            Some(chunk) => {
                let ghost at = choose|i: int|
                    0 <= i < before.len() && #[trigger] before[i] == (key, *chunk);
                chunk.deposit(slot, Field(SEED_KIND, SEED_MAGNITUDE));
                proof {
                    lemma_entry_updated(before, at, *chunk);
                    lemma_room_kept(before[at].1, *chunk, slot as int);
                    assert(self@.order == was.put(c, slot as int).order);
                }
                true
            },
            None => false,
        }
    }

    /// Puts the seed on the tile that `coords` names: slot `coords.1` of the
    /// chunk at `coords.0`. Where there is no such chunk yet, it is made.
    pub fn put(&mut self, coords: &WorldCoord)
        requires
            old(self).wf(),
            coords.1 < 1024,
        ensures
            final(self).wf(),
            final(self)@ == old(self)@.put(coords.0, coords.1 as int),
    {
        let key = (coords.0.0, coords.0.1);
        let ghost before = entries(self.chunks);
        if !self.seed_chunk(key, coords.1) {
            let mut chunk = Chunk::at(coords.0);
            let ghost fresh = chunk;
            chunk.deposit(coords.1, Field(SEED_KIND, SEED_MAGNITUDE));
            proof {
                lemma_entry_pushed(before, key, chunk);
                lemma_room_kept(fresh, chunk, coords.1 as int);
            }
            map_insert(&mut self.chunks, key, chunk);
            self.changed = true;
        }
    }

    /// Resets the tile that `pos` names to an empty tile and marks the world
    /// as changed. Where there is no chunk at `pos.0`, nothing happens.
    pub fn remove(&mut self, pos: &WorldCoord)
        requires
            old(self).wf(),
            pos.1 < 1024,
        ensures
            final(self).wf(),
            final(self)@ == old(self)@.remove(pos.0, pos.1 as int),
    {
        let key = (pos.0.0, pos.0.1);
        let ghost before = entries(self.chunks);
        match map_get_mut(&mut self.chunks, key) {
            Some(chunk) => {
                let ghost at = choose|i: int|
                    0 <= i < before.len() && #[trigger] before[i] == (key, *chunk);
                chunk.reset(pos.1);
                self.changed = true;
                proof {
                    lemma_entry_updated(before, at, *chunk);
                    assert forall|j: int| 0 <= j < 1024 implies (
                    #[trigger] chunk.tiles@[j])@.accepts(seed()) by {
                        assert(chunk@.tiles[j] == chunk.tiles@[j]@);
                    }
                }
            },
            None => {},
        }
    }

    /// Takes every chunk out of the world.
    pub fn end(&mut self)
        requires
            old(self).wf(),
        ensures
            final(self).wf(),
            final(self)@ == WorldView::empty(old(self)@.changed),
    {
        map_clear(&mut self.chunks);
        proof {
            assert(self@.order =~= Seq::empty());
            assert(self@.chunks =~= Map::empty());
        }
    }

    /// Puts the chunks in the order of their coordinates along the curve.
    /// No chunk comes or goes or changes.
    pub fn hilbert(&mut self)
        requires
            old(self).wf(),
        ensures
            final(self).wf(),
            final(self)@.in_curve_order(),
            final(self)@.chunks == old(self)@.chunks,
            final(self)@.changed == old(self)@.changed,
            final(self)@.order.len() == old(self)@.order.len(),
            final(self)@.order.to_set() == old(self)@.order.to_set(),
    {
        let ghost before = entries(self.chunks);
        map_sort(&mut self.chunks);
        proof {
            let after = entries(self.chunks);
            lemma_entries_rearranged(before, after);
        }
    }

    /// Consults the rule of the tile at the place of `pos.1` in the chunk at
    /// `pos.0`, where there is such a chunk. No rule changes the world yet.
    pub fn interract(&mut self, pos: Point<Point<u16>, Tile>)
        requires
            old(self).wf(),
            old(self)@.has(pos.0) ==> pos.1.pos.index() < 1024,
        ensures
            *final(self) == *old(self),
    {
        match self.chunk(&pos.0) {
            Some(chunk) => {
                match effective_rule(chunk.tiles[pos.1.pos()].rule) {
                    Rule::Collect => {},
                    Rule::Spread => {},
                    Rule::Multiply => {},
                }
            },
            None => {},
        }
    }

    /// The places that the tiles of all the chunks hand their fields on to,
    /// chunk after chunk in the world's order, and slot after slot. The
    /// world is only read.
    pub fn neighbours(&self) -> (places: Vec<WorldCoord>)
        ensures
            places@ == targets(self@.order),
    {
        let coords = self.coords();
        let mut places: Vec<WorldCoord> = Vec::new();
        let mut a: usize = 0;
        while a < coords.len()
            invariant
                a <= coords@.len(),
                coords@ == self@.order,
                places@ == targets(coords@).take(a * 1024),
            decreases coords@.len() - a,
        {
            let mut i: usize = 0;
            while i < 1024
                invariant
                    i <= 1024,
                    a < coords@.len(),
                    places@ == targets(coords@).take(a * 1024 + i),
                decreases 1024 - i,
            {
                places.push(neighbour_of(Point(coords[a], i)));
                i += 1;
            }
            a += 1;
        }
        places
    }

    /// One tick. Every tile of every chunk hands the seed on to its
    /// neighbour, and a neighbour in a chunk that there is not yet has that
    /// chunk made. Then, if a chunk came or the world was marked as changed
    /// before, the chunks are put in curve order and the mark is cleared;
    /// if not, their order stays as it was.
    pub fn update(&mut self)
        requires
            old(self).wf(),
        ensures
            final(self).wf(),
            final(self)@.chunks == old(self)@.propagated(),
            !final(self)@.changed,
            final(self)@.in_curve_order(),
            !old(self)@.changed && final(self)@.chunks.dom() == old(self)@.chunks.dom()
                ==> final(self)@.order == old(self)@.order,
    {
        let places = self.neighbours();
        let ghost was = self@;
        proof {
            self.lemma_wf();
            lemma_propagation(was);
            crate::model::lemma_targets_distinct(was.order);
        }
        let mut k: usize = 0;
        while k < places.len()
            invariant
                k <= places@.len(),
                places@ == targets(was.order),
                forall|m: int| 0 <= m < places@.len() ==> (#[trigger] places@[m]).1 < 1024,
                self.wf(),
                self@ == was.deposit_all(places@, k as nat),
            decreases places@.len() - k,
        {
            let to = places[k];
            if !self.seed_chunk((to.0.0, to.0.1), to.1) {
                self.put(&to);
            }
            k += 1;
        }
        if self.changed {
            self.hilbert();
            self.changed = false;
        }
    }
}

/// The place that the tile at `from` hands its field on to.
pub fn neighbour_of(from: WorldCoord) -> (to: WorldCoord)
    requires
        from.1 < 1024,
    ensures
        to == neighbour(from),
        to.1 < 1024,
{
    if from.1 % 32 == 31 {
        Point(from.0.neighb(1, 0), from.1 - 31)
    } else {
        Point(from.0, from.1 + 1)
    }
}

} // verus!
