//! The chunk map: an `indexmap::IndexMap` from chunk coordinates to chunks,
//! which keeps its entries in an order of their own. What the map holds is
//! named by [`entries`]; every call into the map stands here, with a contract
//! over that name.

use crate::chunk::{Chunk, ChunkView};
use crate::point::Point;
use indexmap::IndexMap;
use vstd::prelude::*;

verus! {

/// `indexmap::IndexMap`, taken as it is: of a map nothing is known but what
/// the functions below say of its [`entries`].
#[verifier::external_type_specification]
#[verifier::external_body]
#[verifier::reject_recursive_types(K)]
#[verifier::reject_recursive_types(V)]
#[verifier::reject_recursive_types(S)]
pub struct ExIndexMap<K, V, S>(IndexMap<K, V, S>);

/// What an `indexmap::IndexMap` of chunks holds: its entries, each a key with
/// its chunk, in the map's order.
pub uninterp spec fn entries(map: IndexMap<(u16, u16), Chunk>) -> Seq<((u16, u16), Chunk)>;

/// Whether no two entries have one key.
pub open spec fn keys_distinct(e: Seq<((u16, u16), Chunk)>) -> bool {
    forall|i: int, j: int| 0 <= i < j < e.len() ==> (#[trigger] e[i]).0 != (#[trigger] e[j]).0
}

/// Whether an entry stands under the coordinate `c`.
pub open spec fn holds_key(e: Seq<((u16, u16), Chunk)>, c: Point<u16>) -> bool {
    exists|i: int| 0 <= i < e.len() && (#[trigger] e[i]).0 == (c.0, c.1)
}

/// A place at which an entry stands under the coordinate `c`.
pub open spec fn place_of(e: Seq<((u16, u16), Chunk)>, c: Point<u16>) -> int {
    choose|i: int| 0 <= i < e.len() && (#[trigger] e[i]).0 == (c.0, c.1)
}

/// The coordinates of the entries, in the map's order.
pub open spec fn order_of(e: Seq<((u16, u16), Chunk)>) -> Seq<Point<u16>> {
    Seq::new(e.len(), |i: int| Point(e[i].0.0, e[i].0.1))
}

/// The chunk that stands under each coordinate.
pub open spec fn chunks_of(e: Seq<((u16, u16), Chunk)>) -> Map<Point<u16>, ChunkView> {
    Map::new(|c: Point<u16>| holds_key(e, c), |c: Point<u16>| e[place_of(e, c)].1@)
}

/// `IndexMap::new`: a map without entries.
#[verifier::external_body]
pub(crate) fn map_new() -> (map: IndexMap<(u16, u16), Chunk>)
    ensures
        entries(map) == Seq::<((u16, u16), Chunk)>::empty(),
{
    IndexMap::new()
}

/// `IndexMap::len`: the number of entries.
#[verifier::external_body]
pub(crate) fn map_len(map: &IndexMap<(u16, u16), Chunk>) -> (len: usize)
    ensures
        len == entries(*map).len(),
{
    map.len()
}

/// `IndexMap::get`: the chunk of an entry with the key `key`, where there is one.
#[verifier::external_body]
pub(crate) fn map_get(map: &IndexMap<(u16, u16), Chunk>, key: (u16, u16)) -> (found: Option<
    &Chunk,
>)
    ensures
        match found {
            Some(chunk) => exists|i: int|
                0 <= i < entries(*map).len() && #[trigger] entries(*map)[i] == (key, *chunk),
            None => forall|i: int|
                0 <= i < entries(*map).len() ==> (#[trigger] entries(*map)[i]).0 != key,
        },
{
    map.get(&key)
}

/// `IndexMap::get_mut`: the chunk of an entry with the key `key`, where there
/// is one, to be changed in place. The keys and the order stay; where there is
/// no such entry, so does the map.
#[verifier::external_body]
pub(crate) fn map_get_mut(map: &mut IndexMap<(u16, u16), Chunk>, key: (u16, u16)) -> (found:
    Option<&mut Chunk>)
    ensures
        match found {
            Some(chunk) => exists|i: int|
                0 <= i < entries(*old(map)).len() && #[trigger] entries(*old(map))[i] == (
                    key,
                    *chunk,
                ) && entries(*final(map)) == entries(*old(map)).update(i, (key, *final(chunk))),
            None => entries(*final(map)) == entries(*old(map)) && forall|i: int|
                0 <= i < entries(*old(map)).len() ==> (#[trigger] entries(*old(map))[i]).0 != key,
        },
{
    map.get_mut(&key)
}

/// `IndexMap::insert`: where an entry has the key `key`, that entry keeps its
/// place and takes `chunk`, and the chunk that it held comes back; where none
/// has, the new entry goes behind the others.
#[verifier::external_body]
pub(crate) fn map_insert(
    map: &mut IndexMap<(u16, u16), Chunk>,
    key: (u16, u16),
    chunk: Chunk,
) -> (replaced: Option<Chunk>)
    ensures
        match replaced {
            Some(before) => exists|i: int|
                0 <= i < entries(*old(map)).len() && #[trigger] entries(*old(map))[i] == (
                    key,
                    before,
                ) && entries(*final(map)) == entries(*old(map)).update(i, (key, chunk)),
            None => entries(*final(map)) == entries(*old(map)).push((key, chunk)) && forall|i: int|
                0 <= i < entries(*old(map)).len() ==> (#[trigger] entries(*old(map))[i]).0 != key,
        },
{
    map.insert(key, chunk)
}

/// `IndexMap::clear`: no entry stays.
#[verifier::external_body]
pub(crate) fn map_clear(map: &mut IndexMap<(u16, u16), Chunk>)
    ensures
        entries(*final(map)) == Seq::<((u16, u16), Chunk)>::empty(),
{
    map.clear()
}

/// `IndexMap::keys`: the keys of the entries, in the map's order.
#[verifier::external_body]
pub(crate) fn map_keys(map: &IndexMap<(u16, u16), Chunk>) -> (keys: Vec<Point<u16>>)
    ensures
        keys@ == order_of(entries(*map)),
{
    map.keys().map(|key| Point(key.0, key.1)).collect()
}

/// `IndexMap::sort_by` with [`Point::curve_order`] on the keys: the same
/// entries, and none of them before one that comes before it along the curve.
/// The order along the curve is a strict total order
/// ([`crate::hilbert::lemma_curve_order_is_strict_total`]), as the sort asks.
#[verifier::external_body]
pub(crate) fn map_sort(map: &mut IndexMap<(u16, u16), Chunk>)
    ensures
        entries(*final(map)).to_multiset() == entries(*old(map)).to_multiset(),
        forall|i: int, j: int|
            0 <= i < j < entries(*final(map)).len() ==> !(#[trigger] order_of(
                entries(*final(map)),
            )[j]).curve_before(#[trigger] order_of(entries(*final(map)))[i]),
{
    map.sort_by(|a, _, b, _| Point(a.0, a.1).curve_order(&Point(b.0, b.1)))
}

/// An entry that takes another chunk under its own key changes that key's
/// chunk and nothing else.
pub proof fn lemma_entry_updated(e: Seq<((u16, u16), Chunk)>, at: int, chunk: Chunk)
    requires
        keys_distinct(e),
        0 <= at < e.len(),
    ensures
        keys_distinct(e.update(at, (e[at].0, chunk))),
        order_of(e.update(at, (e[at].0, chunk))) == order_of(e),
        chunks_of(e.update(at, (e[at].0, chunk))) == chunks_of(e).insert(
            Point(e[at].0.0, e[at].0.1),
            chunk@,
        ),
        holds_key(e, Point(e[at].0.0, e[at].0.1)),
        place_of(e, Point(e[at].0.0, e[at].0.1)) == at,
{
    let key = e[at].0;
    let t = e.update(at, (key, chunk));
    assert forall|d: Point<u16>| holds_key(t, d) <==> holds_key(e, d) by {
        if holds_key(e, d) {
            assert(t[place_of(e, d)].0 == (d.0, d.1));
        }
    }
}

/// An entry under a new key that goes behind the others adds its key and
/// its chunk and changes nothing else.
pub proof fn lemma_entry_pushed(e: Seq<((u16, u16), Chunk)>, key: (u16, u16), chunk: Chunk)
    requires
        keys_distinct(e),
        !holds_key(e, Point(key.0, key.1)),
    ensures
        keys_distinct(e.push((key, chunk))),
        order_of(e.push((key, chunk))) == order_of(e).push(Point(key.0, key.1)),
        chunks_of(e.push((key, chunk))) == chunks_of(e).insert(Point(key.0, key.1), chunk@),
{
    let c = Point(key.0, key.1);
    let t = e.push((key, chunk));
    assert forall|d: Point<u16>| holds_key(t, d) <==> (holds_key(e, d) || d == c) by {
        if holds_key(e, d) {
            assert(t[place_of(e, d)].0 == (d.0, d.1));
        }
        if d == c {
            assert(t[e.len() as int].0 == (d.0, d.1));
        }
    }
}

/// Entries put in another order stand under the same keys with the same
/// chunks.
pub proof fn lemma_entries_rearranged(e: Seq<((u16, u16), Chunk)>, t: Seq<((u16, u16), Chunk)>)
    requires
        keys_distinct(e),
        t.to_multiset() == e.to_multiset(),
    ensures
        keys_distinct(t),
        t.len() == e.len(),
        chunks_of(t) == chunks_of(e),
        order_of(t).to_set() == order_of(e).to_set(),
        forall|i: int| 0 <= i < t.len() ==> e.contains(#[trigger] t[i]),
{
    broadcast use vstd::seq_lib::group_to_multiset_ensures;

    assert(t.len() == e.len()) by {
        vstd::seq_lib::to_multiset_len(t);
        vstd::seq_lib::to_multiset_len(e);
    }
    e.lemma_multiset_has_no_duplicates();
    t.lemma_multiset_has_no_duplicates_conv();
    assert forall|i: int| 0 <= i < t.len() implies e.contains(#[trigger] t[i]) by {
        assert(t.to_multiset().count(t[i]) > 0);
    }
    assert forall|i: int| 0 <= i < e.len() implies t.contains(#[trigger] e[i]) by {
        assert(e.to_multiset().count(e[i]) > 0);
    }
    assert forall|d: Point<u16>| order_of(t).to_set().contains(d) <==> order_of(
        e,
    ).to_set().contains(d) by {
        if order_of(t).contains(d) {
            let j = place_of(e, d);
            assert(order_of(e)[j] == d);
        }
        if order_of(e).contains(d) {
            let j = place_of(t, d);
            assert(order_of(t)[j] == d);
        }
    }
}

} // verus!
