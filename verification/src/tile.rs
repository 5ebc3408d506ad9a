//! A tile: one cell of the grid, which holds at most one field of each kind.

use crate::field::Field;
use crate::logic::Rule;
use crate::point::Point;
use rand::Rng;
use std::ops::AddAssign;
use vstd::prelude::*;
use std::cmp::Ordering;
use vstd::std_specs::cmp::{PartialEqSpecImpl, PartialOrdSpecImpl};
use vstd::std_specs::ops::AddSpecImpl;

verus! {

/// Whether no two fields of `s` are of one kind.
pub open spec fn kinds_distinct(s: Seq<Field>) -> bool {
    forall|i: int, j: int| 0 <= i < j < s.len() ==> (#[trigger] s[i]).0 != (#[trigger] s[j]).0
}

/// Whether `s` holds a field of the kind `kind`.
pub open spec fn holds_kind(s: Seq<Field>, kind: u32) -> bool {
    exists|i: int| 0 <= i < s.len() && (#[trigger] s[i]).0 == kind
}

/// A place in `s` at which a field of the kind `kind` stands.
pub open spec fn slot_of(s: Seq<Field>, kind: u32) -> int {
    choose|i: int| 0 <= i < s.len() && (#[trigger] s[i]).0 == kind
}

/// The magnitude that `s` holds of each kind.
pub open spec fn magnitudes(s: Seq<Field>) -> Map<u32, u32> {
    Map::new(|kind: u32| holds_kind(s, kind), |kind: u32| s[slot_of(s, kind)].1)
}

/// What a tile is, whatever the order in which it keeps its fields.
pub struct TileView {
    /// The tile's place inside its chunk.
    pub pos: Point<u8>,
    /// The tile's behaviour tag.
    pub rule: Option<Rule>,
    /// The magnitude of each kind of field that the tile holds.
    pub fields: Map<u32, u32>,
}

impl TileView {
    /// A tile at `pos` without fields and without a rule.
    pub open spec fn empty(pos: Point<u8>) -> TileView {
        TileView { pos, rule: None, fields: Map::empty() }
    }

    /// Whether the tile holds a field of the kind `kind`.
    pub open spec fn holds(self, kind: u32) -> bool {
        self.fields.dom().contains(kind)
    }

    /// The tile once `field` was added: merged into the field of its kind
    /// where the tile holds one, put beside the others where it does not.
    pub open spec fn with_field(self, field: Field) -> TileView {
        TileView {
            pos: self.pos,
            rule: self.rule,
            fields: self.fields.insert(
                field.0,
                if self.holds(field.0) {
                    Field(field.0, self.fields[field.0]).merged_add(field).1
                } else {
                    field.1
                },
            ),
        }
    }

    /// The tile without its field of the kind `kind`.
    pub open spec fn without(self, kind: u32) -> TileView {
        TileView { pos: self.pos, rule: self.rule, fields: self.fields.remove(kind) }
    }

    /// Whether the tile's count of fields stays a `u16` when `field` is added.
    pub open spec fn accepts(self, field: Field) -> bool {
        self.holds(field.0) || self.fields.dom().len() < u16::MAX
    }

    /// The number of the kinds 2, 3 and 4 that the tile does not hold.
    pub open spec fn sample_kinds_missing(self) -> int {
        (if self.holds(2) {
            0int
        } else {
            1int
        }) + (if self.holds(3) {
            0int
        } else {
            1int
        }) + (if self.holds(4) {
            0int
        } else {
            1int
        })
    }
}

/// `rand::Rng::gen_range` on `rand::thread_rng()`: some value of the range
/// `low..high`, which may not be empty.
#[verifier::external_body]
fn random_in(low: u32, high: u32) -> (value: u32)
    requires
        low < high,
    ensures
        low <= value < high,
{
    rand::thread_rng().gen_range(low..high)
}

/// One cell of the grid.
#[derive(Debug)]
pub struct Tile {
    /// The tile's place inside its chunk.
    pub pos: Point<u8>,
    /// The number of fields that the tile holds.
    pub members: u16,
    /// The tile's behaviour tag.
    pub rule: Option<Rule>,
    /// The fields, one of each kind at most, in the order in which their
    /// kinds arrived.
    pub fields: Vec<Field>,
}

impl View for Tile {
    type V = TileView;

    open spec fn view(&self) -> TileView {
        TileView { pos: self.pos, rule: self.rule, fields: magnitudes(self.fields@) }
    }
}

/// A field of a new kind put behind the others adds its kind and nothing else.
pub proof fn lemma_magnitudes_push(s: Seq<Field>, field: Field)
    requires
        kinds_distinct(s),
        !holds_kind(s, field.0),
    ensures
        kinds_distinct(s.push(field)),
        magnitudes(s.push(field)) == magnitudes(s).insert(field.0, field.1),
{
    let t = s.push(field);
    assert forall|kind: u32| holds_kind(t, kind) <==> (holds_kind(s, kind) || kind == field.0) by {
        if holds_kind(s, kind) {
            let i = slot_of(s, kind);
            assert(t[i].0 == kind);
        }
        if kind == field.0 {
            assert(t[s.len() as int].0 == kind);
        }
    }
}

/// A field put in the place of the field of its kind changes that kind's
/// magnitude and nothing else.
pub proof fn lemma_magnitudes_update(s: Seq<Field>, at: int, field: Field)
    requires
        kinds_distinct(s),
        0 <= at < s.len(),
        s[at].0 == field.0,
    ensures
        kinds_distinct(s.update(at, field)),
        magnitudes(s.update(at, field)) == magnitudes(s).insert(field.0, field.1),
{
    let t = s.update(at, field);
    assert forall|kind: u32| holds_kind(t, kind) <==> holds_kind(s, kind) by {
        if holds_kind(s, kind) {
            let i = slot_of(s, kind);
            assert(t[i].0 == kind);
        }
    }
}

/// A field taken out takes its kind with it and nothing else.
pub proof fn lemma_magnitudes_remove(s: Seq<Field>, at: int)
    requires
        kinds_distinct(s),
        0 <= at < s.len(),
    ensures
        kinds_distinct(s.remove(at)),
        magnitudes(s.remove(at)) == magnitudes(s).remove(s[at].0),
{
    let t = s.remove(at);
    let gone = s[at].0;
    assert forall|kind: u32| holds_kind(t, kind) <==> (holds_kind(s, kind) && kind != gone) by {
        if holds_kind(s, kind) && kind != gone {
            let a = slot_of(s, kind);
            let i = if a < at { a } else { a - 1 };
            assert(t[i] == s[a]);
        }
    }
}

impl Tile {
    /// What every tile has to be: no two of its fields are of one kind, and
    /// `members` is the number of the kinds that it holds.
    pub open spec fn wf(&self) -> bool {
        &&& kinds_distinct(self.fields@)
        &&& self@.fields.dom().finite()
        &&& self.members == self@.fields.dom().len()
    }

    /// An empty tile at `pos`.
    pub fn new(pos: &Point<u8>) -> (tile: Tile)
        ensures
            tile.wf(),
            tile@ == TileView::empty(*pos),
            tile.members == 0,
    {
        let tile = Tile { pos: *pos, members: 0, rule: None, fields: Vec::new() };
        assert(tile@.fields =~= Map::empty());
        tile
    }

    /// The place in `fields` of the field of the kind `kind`.
    fn find(&self, kind: u32) -> (found: Option<usize>)
        ensures
            match found {
                Some(i) => i < self.fields@.len() && self.fields@[i as int].0 == kind,
                None => !holds_kind(self.fields@, kind),
            },
    {
        let mut i: usize = 0;
        while i < self.fields.len()
            invariant
                i <= self.fields@.len(),
                forall|j: int| 0 <= j < i ==> (#[trigger] self.fields@[j]).0 != kind,
            decreases self.fields@.len() - i,
        {
            if self.fields[i].0 == kind {
                return Some(i);
            }
            i += 1;
        }
        None
    }

    /// Adds `field`: merges it into the field of its kind where the tile
    /// holds one, and else puts it beside the others and counts it.
    pub fn add_field(&mut self, field: Field)
        requires
            old(self).wf(),
            old(self)@.accepts(field),
        ensures
            final(self).wf(),
            final(self)@ == old(self)@.with_field(field),
    {
        match self.find(field.0) {
            Some(i) => {
                let merged = self.fields[i].merge_add(field);
                proof {
                    lemma_magnitudes_update(self.fields@, i as int, merged);
                }
                self.fields[i] = merged;
            },
            None => {
                proof {
                    lemma_magnitudes_push(self.fields@, field);
                }
                self.fields.push(field);
                self.members += 1;
            },
        }
    }

    /// Takes the field of the kind of `field` out, if the tile holds one.
    pub fn remove_field(&mut self, field: Field)
        requires
            old(self).wf(),
        ensures
            final(self).wf(),
            final(self)@ == old(self)@.without(field.0),
    {
        match self.find(field.0) {
            Some(i) => {
                proof {
                    lemma_magnitudes_remove(self.fields@, i as int);
                    assert(self@.fields.dom().contains(field.0));
                }
                self.fields.remove(i);
                self.members -= 1;
            },
            None => {
                assert(self@.fields.remove(field.0) =~= self@.fields);
            },
        }
    }

    /// The slot of the tile in its chunk's tile array.
    pub fn pos(&self) -> (index: usize)
        ensures
            index == self.pos.index(),
    {
        self.pos.pos()
    }

    /// The index of the tile's place on the curve of tile places. The curve
    /// does not depend on `origin`.
    pub fn hilbert_index(&self, origin: &usize) -> (index: u64)
        ensures
            index == self.pos.curve_index(),
    {
        self.pos.hilbert_index(origin)
    }

    /// The tile's fields, in the order in which it keeps them.
    pub fn fields(&self) -> (fields: Vec<Field>)
        ensures
            fields@ == self.fields@,
    {
        let mut fields: Vec<Field> = Vec::new();
        let mut i: usize = 0;
        while i < self.fields.len()
            invariant
                i <= self.fields@.len(),
                fields@ == self.fields@.take(i as int),
            decreases self.fields@.len() - i,
        {
            fields.push(self.fields[i]);
            i += 1;
        }
        fields
    }

    /// What the colour of the tile is made of: the magnitudes of its first
    /// three fields, or of all where it holds fewer, and the largest of them,
    /// 0 where there is none.
    pub fn shades(&self) -> (shades: (Vec<u32>, u32))
        ensures
            shades.0@.len() == if self.fields@.len() < 3 {
                self.fields@.len()
            } else {
                3
            },
            forall|i: int| 0 <= i < shades.0@.len() ==> shades.0@[i] == self.fields@[i].1,
            forall|i: int| 0 <= i < shades.0@.len() ==> shades.0@[i] <= shades.1,
            shades.0@.len() == 0 ==> shades.1 == 0,
            shades.0@.len() > 0 ==> exists|i: int|
                0 <= i < shades.0@.len() && shades.0@[i] == shades.1,
    {
        let mut magnitudes: Vec<u32> = Vec::new();
        let mut peak: u32 = 0;
        let mut i: usize = 0;
        while i < self.fields.len() && i < 3
            invariant
                i <= self.fields@.len(),
                i <= 3,
                magnitudes@.len() == i,
                forall|j: int| 0 <= j < i ==> magnitudes@[j] == self.fields@[j].1,
                forall|j: int| 0 <= j < i ==> magnitudes@[j] <= peak,
                i == 0 ==> peak == 0,
                i > 0 ==> exists|j: int| 0 <= j < i && magnitudes@[j] == peak,
            decreases 3 - i,
        {
            let magnitude = self.fields[i].1;
            let ghost before = magnitudes@;
            magnitudes.push(magnitude);
            if magnitude >= peak {
                peak = magnitude;
                assert(magnitudes@[i as int] == peak);
            } else {
                let ghost at = choose|j: int| 0 <= j < i && before[j] == peak;
                assert(magnitudes@[at] == peak);
            }
            i += 1;
        }
        (magnitudes, peak)
    }

    /// Adds a field of each of the kinds 2, 3 and 4, with the magnitudes `a`,
    /// `b` and `c`, and gives back a copy of the tile.
    pub fn sample(&mut self, a: u32, b: u32, c: u32) -> (copy: Tile)
        requires
            old(self).wf(),
            old(self).members + old(self)@.sample_kinds_missing() <= u16::MAX,
        ensures
            final(self).wf(),
            final(self)@ == old(self)@.with_field(Field(2, a)).with_field(Field(3, b)).with_field(
                Field(4, c),
            ),
            copy.wf(),
            copy@ == final(self)@,
            copy.members == final(self).members,
    {
        self.add_field(Field(2, a));
        self.add_field(Field(3, b));
        self.add_field(Field(4, c));
        self.clone()
    }

    /// Adds a field of each of the kinds 2, 3 and 4, each with a magnitude
    /// drawn from `1..8`, and gives back a copy of the tile.
    pub fn test(&mut self) -> (copy: Tile)
        requires
            old(self).wf(),
            old(self).members + old(self)@.sample_kinds_missing() <= u16::MAX,
        ensures
            final(self).wf(),
            exists|a: u32, b: u32, c: u32|
                {
                    &&& 1 <= a < 8 && 1 <= b < 8 && 1 <= c < 8
                    &&& final(self)@ == #[trigger] old(self)@.with_field(Field(2, a)).with_field(
                        Field(3, b),
                    ).with_field(Field(4, c))
                },
            copy.wf(),
            copy@ == final(self)@,
            copy.members == final(self).members,
    {
        let a = random_in(1, 8);
        let b = random_in(1, 8);
        let c = random_in(1, 8);
        self.sample(a, b, c)
    }
}

impl Clone for Tile {
    /// A tile with the same place, rule and fields.
    fn clone(&self) -> (copy: Tile)
        ensures
            copy.pos == self.pos,
            copy.members == self.members,
            copy.rule == self.rule,
            copy.fields@ == self.fields@,
    {
        Tile { pos: self.pos, members: self.members, rule: self.rule, fields: self.fields() }
    }
}

impl PartialEq<Tile> for Tile {
    /// Two tiles are equal where their places are: a tile stands for its
    /// cell, whatever the cell holds.
    fn eq(&self, other: &Tile) -> (r: bool) {
        self.pos == other.pos
    }
}

impl PartialEqSpecImpl<Tile> for Tile {
    open spec fn obeys_eq_spec() -> bool {
        true
    }

    open spec fn eq_spec(&self, other: &Tile) -> bool {
        self.pos == other.pos
    }
}

impl Eq for Tile {

}

impl std::hash::Hash for Tile {
    /// A tile is hashed by its place, as it is compared.
    fn hash<H: std::hash::Hasher>(&self, state: &mut H) {
        let place: u32 = self.pos.0 as u32 * 256 + self.pos.1 as u32;
        place.hash(state);
    }
}

impl Default for Tile {
    /// An empty tile at the first place.
    fn default() -> (tile: Tile)
        ensures
            tile.wf(),
            tile@ == TileView::empty(Point(0, 0)),
            tile.members == 0,
    {
        Tile::new(&Point(0, 0))
    }
}

impl PartialOrd<Tile> for Tile {
    /// Tiles are ordered by their places along the curve.
    fn partial_cmp(&self, other: &Tile) -> (r: Option<Ordering>) {
        Some(self.pos.curve_order(&other.pos))
    }
}

impl PartialOrdSpecImpl<Tile> for Tile {
    open spec fn obeys_partial_cmp_spec() -> bool {
        true
    }

    open spec fn partial_cmp_spec(&self, other: &Tile) -> Option<Ordering> {
        Some(self.pos.curve_rank(other.pos))
    }
}

impl AddAssign<Field> for Tile {
    /// Adds `field` to the tile, as `add_field` does.
    fn add_assign(&mut self, field: Field)
        requires
            old(self).wf(),
            old(self)@.accepts(field),
        ensures
            final(self).wf(),
            final(self)@ == old(self)@.with_field(field),
    {
        self.add_field(field);
    }
}

impl std::ops::Add<Field> for Tile {
    type Output = Tile;

    /// The tile with `field` added, as `add_field` adds it.
    fn add(self, field: Field) -> (sum: Tile)
        ensures
            sum.wf(),
            sum@ == self@.with_field(field),
    {
        let mut sum = self;
        sum.add_field(field);
        sum
    }
}

impl AddSpecImpl<Field> for Tile {
    /// No spec function gives the sum: the order in which a tile keeps its
    /// fields is left open, and the contract of `add` speaks of the view.
    open spec fn obeys_add_spec() -> bool {
        false
    }

    open spec fn add_req(self, field: Field) -> bool {
        self.wf() && self@.accepts(field)
    }

    open spec fn add_spec(self, field: Field) -> Tile {
        self
    }
}

} // verus!
