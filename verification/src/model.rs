//! The world as mathematics: which chunks there are, in which order, what
//! their tiles hold, and what each step of the world does to that.

use crate::chunk::ChunkView;
use crate::field::Field;
use crate::point::{Point, WorldCoord};
use crate::tile::TileView;
use vstd::prelude::*;

verus! {

/// The kind of the field that a tile is seeded with.
pub const SEED_KIND: u32 = 1;

/// The magnitude of the field that a tile is seeded with.
pub const SEED_MAGNITUDE: u32 = 10;

/// The field that `put` and the propagation add to a tile.
pub open spec fn seed() -> Field {
    Field(SEED_KIND, SEED_MAGNITUDE)
}

/// The chunk coordinate to the east of `c`. The world wraps around.
pub open spec fn east(c: Point<u16>) -> Point<u16> {
    Point(
        if c.0 == u16::MAX {
            0u16
        } else {
            (c.0 + 1) as u16
        },
        c.1,
    )
}

/// The chunk coordinate to the west of `c`. The world wraps around.
pub open spec fn west(c: Point<u16>) -> Point<u16> {
    Point(
        if c.0 == 0 {
            u16::MAX
        } else {
            (c.0 - 1) as u16
        },
        c.1,
    )
}

/// The place that the tile at `from` hands its field on to: the next slot of
/// its chunk, or, from the last column, the first column of the same row in
/// the chunk to the east.
pub open spec fn neighbour(from: WorldCoord) -> WorldCoord {
    if from.1 % 32 == 31 {
        Point(east(from.0), (from.1 - 31) as usize)
    } else {
        Point(from.0, (from.1 + 1) as usize)
    }
}

/// The place whose tile hands its field on to the tile at `to`.
pub open spec fn source(to: WorldCoord) -> WorldCoord {
    if to.1 % 32 == 0 {
        Point(west(to.0), (to.1 + 31) as usize)
    } else {
        Point(to.0, (to.1 - 1) as usize)
    }
}

/// What a world is, whatever the order in which its tiles keep their fields.
pub struct WorldView {
    /// The coordinates of the chunks, in the order in which the world walks
    /// through them.
    pub order: Seq<Point<u16>>,
    /// The chunk at each coordinate that has one.
    pub chunks: Map<Point<u16>, ChunkView>,
    /// Whether a chunk came or a tile was reset since the chunks were last
    /// put in order.
    pub changed: bool,
}

impl WorldView {
    /// Whether there is a chunk at `c`.
    pub open spec fn has(self, c: Point<u16>) -> bool {
        self.chunks.dom().contains(c)
    }

    /// The chunk at `c`, or the chunk that would be made there.
    pub open spec fn base(self, c: Point<u16>) -> ChunkView {
        if self.has(c) {
            self.chunks[c]
        } else {
            ChunkView::fresh(c)
        }
    }

    /// Whether the world walks through its chunks along the curve.
    pub open spec fn in_curve_order(self) -> bool {
        forall|i: int, j: int|
            0 <= i < j < self.order.len() ==> !(#[trigger] self.order[j]).curve_before(
                #[trigger] self.order[i],
            )
    }

    /// What holds of every world: the order names each chunk once; each
    /// chunk knows its coordinate and has its 1024 tiles, each at its own
    /// place and with room for the seed; and a world that is not marked as
    /// changed is in curve order.
    pub open spec fn wf(self) -> bool {
        &&& self.order.no_duplicates()
        &&& forall|c: Point<u16>| self.has(c) <==> self.order.contains(c)
        &&& forall|c: Point<u16>| #[trigger]
            self.has(c) ==> {
                &&& self.chunks[c].pos == c
                &&& self.chunks[c].tiles.len() == 1024
                &&& self.chunks[c].border.len() == 128
            }
        &&& forall|c: Point<u16>, j: int|
            self.has(c) && 0 <= j < 1024 ==> {
                &&& (#[trigger] self.chunks[c].tiles[j]).pos == Point::<u8>::at(j)
                &&& self.chunks[c].tiles[j].fields.dom().finite()
                &&& self.chunks[c].tiles[j].accepts(seed())
            }
        &&& !self.changed ==> self.in_curve_order()
    }

    /// The world without chunks.
    pub open spec fn empty(changed: bool) -> WorldView {
        WorldView { order: Seq::empty(), chunks: Map::empty(), changed }
    }

    /// The world once the seed was put on slot `slot` of the chunk at `c`.
    /// Where there is no chunk at `c`, one is made first, it goes last in
    /// the order, and the world is marked as changed.
    pub open spec fn put(self, c: Point<u16>, slot: int) -> WorldView {
        WorldView {
            order: if self.has(c) {
                self.order
            } else {
                self.order.push(c)
            },
            chunks: self.chunks.insert(
                c,
                self.base(c).with_tile(slot, self.base(c).tiles[slot].with_field(seed())),
            ),
            changed: self.changed || !self.has(c),
        }
    }

    /// The world once slot `slot` of the chunk at `c` was reset to an empty
    /// tile, which marks the world as changed. Where there is no chunk at
    /// `c`, nothing happens.
    pub open spec fn remove(self, c: Point<u16>, slot: int) -> WorldView {
        if self.has(c) {
            WorldView {
                order: self.order,
                chunks: self.chunks.insert(
                    c,
                    self.chunks[c].with_tile(slot, TileView::empty(Point::<u8>::at(slot))),
                ),
                changed: true,
            }
        } else {
            self
        }
    }
}

/// The places that the tiles of the chunks in `order` hand their fields on
/// to: chunk after chunk, and slot after slot of each chunk.
pub open spec fn targets(order: Seq<Point<u16>>) -> Seq<WorldCoord> {
    Seq::new(
        order.len() * 1024,
        |m: int| neighbour(Point(order[m / 1024], (m % 1024) as usize)),
    )
}

/// Whether `to` is among the first `n` of `places`.
pub open spec fn hit(
    places: Seq<WorldCoord>,
    n: int,
    to: WorldCoord,
) -> bool {
    exists|m: int| 0 <= m < n && #[trigger] places[m] == to
}

/// Whether a place in the chunk at `c` is among the first `n` of `places`.
pub open spec fn reached(places: Seq<WorldCoord>, n: int, c: Point<u16>) -> bool {
    exists|m: int| 0 <= m < n && (#[trigger] places[m]).0 == c
}

impl WorldView {
    /// The world once the seed was put on the first `n` of `places`, one
    /// after the other.
    pub open spec fn deposit_all(self, places: Seq<WorldCoord>, n: nat) -> WorldView
        decreases n,
    {
        if n == 0 {
            self
        } else {
            let to = places[n - 1];
            self.deposit_all(places, (n - 1) as nat).put(to.0, to.1 as int)
        }
    }

    /// Whether slot `slot` of the chunk at `c` takes a field when the world
    /// propagates: it does where its source lies in a chunk that there is.
    pub open spec fn receives(self, c: Point<u16>, slot: int) -> bool {
        self.has(source(Point(c, slot as usize)).0)
    }

    /// The chunks after one propagation. Every tile of every chunk hands the
    /// seed on to its neighbour; a neighbour in a chunk that there is not
    /// yet has that chunk made. So there is a chunk wherever there was one
    /// or one to the west, and each tile that has a source took the seed
    /// once.
    pub open spec fn propagated(self) -> Map<Point<u16>, ChunkView> {
        Map::new(
            |c: Point<u16>| self.has(c) || self.has(west(c)),
            |c: Point<u16>|
                ChunkView {
                    pos: self.base(c).pos,
                    tiles: Seq::new(
                        1024,
                        |j: int|
                            if self.receives(c, j) {
                                self.base(c).tiles[j].with_field(seed())
                            } else {
                                self.base(c).tiles[j]
                            },
                    ),
                    border: self.base(c).border,
                    changed: self.base(c).changed,
                },
        )
    }

    /// What holds of `after` when it is `self` with the seed put on the
    /// first `n` of `places`, none of which stands twice.
    pub open spec fn deposited(
        self,
        places: Seq<WorldCoord>,
        n: int,
        after: WorldView,
    ) -> bool {
        &&& forall|c: Point<u16>| #[trigger] after.has(c) <==> self.has(c) || reached(places, n, c)
        &&& forall|c: Point<u16>| #[trigger]
            after.has(c) ==> {
                &&& after.chunks[c].pos == self.base(c).pos
                &&& after.chunks[c].border == self.base(c).border
                &&& after.chunks[c].changed == self.base(c).changed
                &&& after.chunks[c].tiles.len() == 1024
            }
        &&& forall|c: Point<u16>, j: int|
            after.has(c) && 0 <= j < 1024 ==> #[trigger] after.chunks[c].tiles[j] == if hit(
                places,
                n,
                Point(c, j as usize),
            ) {
                self.base(c).tiles[j].with_field(seed())
            } else {
                self.base(c).tiles[j]
            }
        &&& self.order.len() <= after.order.len()
        &&& after.order.take(self.order.len() as int) == self.order
        &&& after.changed == (self.changed || self.order.len() < after.order.len())
        &&& self.order.len() == after.order.len() <==> forall|c: Point<u16>| #[trigger]
            after.has(c) ==> self.has(c)
    }
}

/// Each place in a chunk hands on to a place in a chunk, and is that
/// place's only source.
pub proof fn lemma_neighbour_source(from: WorldCoord)
    requires
        from.1 < 1024,
    ensures
        neighbour(from).1 < 1024,
        source(neighbour(from)) == from,
{
}

/// Each place in a chunk has a source in a chunk, and is that place's only
/// neighbour.
pub proof fn lemma_source_neighbour(to: WorldCoord)
    requires
        to.1 < 1024,
    ensures
        source(to).1 < 1024,
        neighbour(source(to)) == to,
{
}

/// No place is handed a field twice in one propagation: the places that the
/// tiles of different chunks, or different tiles of one chunk, hand on to are
/// different.
pub proof fn lemma_targets_distinct(order: Seq<Point<u16>>)
    requires
        order.no_duplicates(),
    ensures
        targets(order).no_duplicates(),
        forall|m: int| 0 <= m < targets(order).len() ==> (#[trigger] targets(order)[m]).1 < 1024,
{
}

/// A place is handed a field in a propagation exactly where its source lies
/// in one of the chunks.
pub proof fn lemma_targets_hit(order: Seq<Point<u16>>, to: WorldCoord)
    requires
        to.1 < 1024,
    ensures
        hit(targets(order), targets(order).len() as int, to) <==> order.contains(source(to).0),
{
    let t = targets(order);
    lemma_source_neighbour(to);
    if hit(t, t.len() as int, to) {
        let m = choose|m: int| 0 <= m < t.len() && #[trigger] t[m] == to;
        let from = Point(order[m / 1024], (m % 1024) as usize);
        lemma_neighbour_source(from);
    }
    if order.contains(source(to).0) {
        let a = choose|a: int| 0 <= a < order.len() && order[a] == source(to).0;
        let m = a * 1024 + source(to).1;
        assert(t[m] == to);
    }
}

/// A chunk is reached by a propagation exactly where there is a chunk at its
/// own coordinate or at the one to its west.
pub proof fn lemma_targets_reach(order: Seq<Point<u16>>, c: Point<u16>)
    ensures
        reached(targets(order), targets(order).len() as int, c) <==> order.contains(c)
            || order.contains(west(c)),
{
    let t = targets(order);
    if order.contains(c) {
        let a = choose|a: int| 0 <= a < order.len() && order[a] == c;
        let m = a * 1024;
        assert(t[m].0 == c);
    }
    if order.contains(west(c)) {
        let a = choose|a: int| 0 <= a < order.len() && order[a] == west(c);
        let m = a * 1024 + 31;
        assert(t[m].0 == c);
    }
}

/// Putting the seed on places of which none stands twice leaves every chunk
/// that was there in its place, makes the chunks that the places lie in, and
/// adds the seed once to each of the places and to no other tile.
pub proof fn lemma_deposit_all(w: WorldView, places: Seq<WorldCoord>, n: nat)
    requires
        w.wf(),
        places.no_duplicates(),
        forall|m: int| 0 <= m < places.len() ==> (#[trigger] places[m]).1 < 1024,
        n <= places.len(),
    ensures
        w.deposited(places, n as int, w.deposit_all(places, n)),
    decreases n,
{
    if n == 0 {
        assert(w.order.take(w.order.len() as int) =~= w.order);
    } else {
        let k = (n - 1) as nat;
        lemma_deposit_all(w, places, k);
        let mid = w.deposit_all(places, k);
        let to = places[k as int];
        let after = mid.put(to.0, to.1 as int);
        assert forall|c: Point<u16>| #[trigger] after.has(c) <==> w.has(c) || reached(
            places,
            n as int,
            c,
        ) by {
            assert(after.has(c) <==> mid.has(c) || c == to.0);
        }
        assert forall|c: Point<u16>| #[trigger] after.has(c) implies {
            &&& after.chunks[c].pos == w.base(c).pos
            &&& after.chunks[c].border == w.base(c).border
            &&& after.chunks[c].changed == w.base(c).changed
            &&& after.chunks[c].tiles.len() == 1024
        } by {
            if c != to.0 {
                assert(mid.has(c));
            }
        }
        assert(after.order.take(w.order.len() as int) =~= mid.order.take(w.order.len() as int));
        if mid.has(to.0) {
            assert forall|c: Point<u16>| #[trigger] after.has(c) == mid.has(c) by {}
            if forall|c: Point<u16>| #[trigger] after.has(c) ==> w.has(c) {
                assert forall|c: Point<u16>| #[trigger] mid.has(c) implies w.has(c) by {
                    assert(after.has(c));
                }
            }
        } else {
            assert(after.has(to.0));
        }
    }
}

/// A full propagation, put place after place, gives the chunks that
/// [`WorldView::propagated`] describes. The order of the chunks that were
/// there stays, and only a new chunk marks the world as changed.
pub proof fn lemma_propagation(w: WorldView)
    requires
        w.wf(),
    ensures
        ({
            let places = targets(w.order);
            let after = w.deposit_all(places, places.len());
            &&& after.chunks == w.propagated()
            &&& w.order.len() <= after.order.len()
            &&& after.order.take(w.order.len() as int) == w.order
            &&& after.changed == (w.changed || w.order.len() < after.order.len())
            &&& after.chunks.dom() == w.chunks.dom() ==> after.order == w.order
        }),
{
    let places = targets(w.order);
    let n = places.len();
    let after = w.deposit_all(places, n);
    lemma_targets_distinct(w.order);
    lemma_deposit_all(w, places, n);
    assert forall|c: Point<u16>| #[trigger] after.has(c) <==> w.has(c) || w.has(west(c)) by {
        lemma_targets_reach(w.order, c);
    }
    assert forall|c: Point<u16>| after.chunks.dom().contains(c) <==> w.propagated().dom().contains(
        c,
    ) by {
        assert(after.has(c) <==> w.has(c) || w.has(west(c)));
    }
    assert forall|c: Point<u16>| after.chunks.dom().contains(c) implies #[trigger] after.chunks[c]
        == w.propagated()[c] by {
        assert(after.has(c));
        assert forall|j: int| 0 <= j < 1024 implies #[trigger] after.chunks[c].tiles[j]
            == w.propagated()[c].tiles[j] by {
            lemma_targets_hit(w.order, Point(c, j as usize));
        }
        assert(after.chunks[c].tiles =~= w.propagated()[c].tiles);
    }
}

/// A put on a place whose chunk is not there yet makes exactly that chunk:
/// it stands under its own coordinate, last in the order, the tile at the
/// place holds the seed and nothing else, and no other chunk changes.
pub proof fn lemma_put_allocates(w: WorldView, c: Point<u16>, slot: int)
    requires
        w.wf(),
        !w.has(c),
        0 <= slot < 1024,
    ensures
        w.put(c, slot).chunks.dom() == w.chunks.dom().insert(c),
        w.put(c, slot).order == w.order.push(c),
        w.put(c, slot).changed,
        w.put(c, slot).chunks[c].pos == c,
        w.put(c, slot).chunks[c].tiles.len() == 1024,
        w.put(c, slot).chunks[c].tiles[slot].fields == Map::<u32, u32>::empty().insert(
            SEED_KIND,
            SEED_MAGNITUDE,
        ),
        forall|j: int|
            0 <= j < 1024 && j != slot ==> (#[trigger] w.put(c, slot).chunks[c].tiles[j]).fields
                == Map::<u32, u32>::empty(),
        forall|d: Point<u16>| #[trigger] w.has(d) ==> w.put(c, slot).chunks[d] == w.chunks[d],
{
}

/// In one propagation a tile that is not in the first column takes the seed
/// from the tile before it, once: it is merged into the seed that the tile
/// holds, or put there with its own magnitude where the tile holds none.
pub proof fn lemma_propagation_adds_once(w: WorldView, c: Point<u16>, slot: int)
    requires
        w.wf(),
        w.has(c),
        0 <= slot < 1024,
        slot % 32 != 31,
    ensures
        neighbour(Point(c, slot as usize)) == Point(c, (slot + 1) as usize),
        w.propagated().dom().contains(c),
        w.propagated()[c].tiles[slot + 1] == w.chunks[c].tiles[slot + 1].with_field(seed()),
        !w.chunks[c].tiles[slot + 1].holds(SEED_KIND) ==> w.propagated()[c].tiles[slot
            + 1].fields[SEED_KIND] == SEED_MAGNITUDE,
        w.chunks[c].tiles[slot + 1].holds(SEED_KIND) ==> w.propagated()[c].tiles[slot
            + 1].fields[SEED_KIND] == if w.chunks[c].tiles[slot + 1].fields[SEED_KIND]
            + SEED_MAGNITUDE > u32::MAX {
            u32::MAX as int
        } else {
            w.chunks[c].tiles[slot + 1].fields[SEED_KIND] + SEED_MAGNITUDE
        },
{
}

/// In one propagation the tile in the last column of row `row` hands the
/// seed on to the first column of the same row in the chunk to the east,
/// and that chunk is there afterwards, made if it was not.
pub proof fn lemma_propagation_crosses_edge(w: WorldView, c: Point<u16>, row: int)
    requires
        w.wf(),
        w.has(c),
        0 <= row < 32,
    ensures
        neighbour(Point(c, (row * 32 + 31) as usize)) == Point(east(c), (row * 32) as usize),
        w.propagated().dom().contains(east(c)),
        w.propagated()[east(c)].pos == east(c),
        w.propagated()[east(c)].tiles[row * 32] == w.base(east(c)).tiles[row * 32].with_field(
            seed(),
        ),
        w.propagated()[east(c)].tiles[row * 32].holds(SEED_KIND),
{
}

} // verus!
