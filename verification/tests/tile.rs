use ca04::field::Field;
use ca04::point::Point;
use ca04::tile::Tile;
use std::collections::HashMap;

fn magnitudes(tile: &Tile) -> HashMap<u32, u32> {
    tile.fields().iter().map(|f| (f.0, f.1)).collect()
}

#[test]
fn tile_new_is_empty() {
    let tile = Tile::new(&Point(3, 4));
    assert_eq!(tile.pos, Point(3, 4));
    assert_eq!(tile.members, 0);
    assert_eq!(tile.rule, None);
    assert!(tile.fields().is_empty());
}

#[test]
fn tile_add_field_counts_each_kind_once() {
    let mut tile = Tile::new(&Point(0, 0));
    tile.add_field(Field(1, 10));
    assert_eq!(tile.members, 1);
    tile.add_field(Field(2, 5));
    assert_eq!(tile.members, 2);
    tile.add_field(Field(1, 7));
    assert_eq!(tile.members, 2);
    assert_eq!(magnitudes(&tile), HashMap::from([(1, 17), (2, 5)]));
}

#[test]
fn tile_add_field_saturates() {
    let mut tile = Tile::new(&Point(0, 0));
    tile.add_field(Field(1, u32::MAX - 1));
    tile.add_field(Field(1, 10));
    assert_eq!(magnitudes(&tile), HashMap::from([(1, u32::MAX)]));
    assert_eq!(tile.members, 1);
}

#[test]
fn tile_remove_field_takes_the_kind_out() {
    let mut tile = Tile::new(&Point(0, 0));
    tile.add_field(Field(1, 10));
    tile.add_field(Field(2, 20));
    tile.add_field(Field(3, 30));
    tile.remove_field(Field(2, 0));
    assert_eq!(tile.members, 2);
    assert_eq!(magnitudes(&tile), HashMap::from([(1, 10), (3, 30)]));
    tile.remove_field(Field(2, 0));
    assert_eq!(tile.members, 2);
    tile.remove_field(Field(1, 999));
    tile.remove_field(Field(3, 1));
    assert_eq!(tile.members, 0);
    assert!(tile.fields().is_empty());
}

#[test]
fn tile_members_is_the_number_of_kinds_after_any_calls() {
    let mut tile = Tile::new(&Point(1, 1));
    let mut model: HashMap<u32, u32> = HashMap::new();
    let mut state: u32 = 12345;
    for _ in 0..2000 {
        state = state.wrapping_mul(1103515245).wrapping_add(12345);
        let kind = (state >> 16) % 7;
        let magnitude = (state >> 8) % 1000;
        if (state >> 3) % 3 == 0 {
            tile.remove_field(Field(kind, magnitude));
            model.remove(&kind);
        } else {
            tile.add_field(Field(kind, magnitude));
            let held = model.entry(kind).or_insert(0);
            *held = held.saturating_add(magnitude);
        }
        assert_eq!(tile.members as usize, model.len());
        assert_eq!(magnitudes(&tile), model);
    }
}

#[test]
fn tile_pos_is_row_major() {
    assert_eq!(Tile::new(&Point(0, 0)).pos(), 0);
    assert_eq!(Tile::new(&Point(0, 31)).pos(), 31);
    assert_eq!(Tile::new(&Point(5, 6)).pos(), 166);
    assert_eq!(Tile::new(&Point(31, 31)).pos(), 1023);
}

#[test]
fn tile_sample_adds_the_three_kinds() {
    let mut tile = Tile::new(&Point(2, 2));
    tile.add_field(Field(3, 100));
    let copy = tile.sample(1, 2, 3);
    assert_eq!(tile.members, 3);
    assert_eq!(magnitudes(&tile), HashMap::from([(2, 1), (3, 102), (4, 3)]));
    assert_eq!(copy.members, 3);
    assert_eq!(copy.pos, Point(2, 2));
    assert_eq!(magnitudes(&copy), magnitudes(&tile));
}

#[test]
fn tile_test_draws_magnitudes_from_one_to_seven() {
    for _ in 0..200 {
        let mut tile = Tile::new(&Point(0, 0));
        let copy = tile.test();
        assert_eq!(tile.members, 3);
        let held = magnitudes(&tile);
        assert_eq!(held.len(), 3);
        for kind in [2u32, 3, 4] {
            let magnitude = held[&kind];
            assert!((1..8).contains(&magnitude));
        }
        assert_eq!(magnitudes(&copy), held);
    }
}

#[test]
fn tile_clone_copies_the_fields() {
    let mut tile = Tile::new(&Point(7, 8));
    tile.add_field(Field(1, 10));
    let copy = tile.clone();
    tile.add_field(Field(1, 10));
    assert_eq!(magnitudes(&copy), HashMap::from([(1, 10)]));
    assert_eq!(magnitudes(&tile), HashMap::from([(1, 20)]));
    assert_eq!(copy.pos, Point(7, 8));
    assert_eq!(copy.members, 1);
}

#[test]
fn tile_equality_is_by_place() {
    let mut a = Tile::new(&Point(1, 2));
    let b = Tile::new(&Point(1, 2));
    a.add_field(Field(1, 1));
    assert!(a == b);
    assert!(a != Tile::new(&Point(2, 1)));
}

#[test]
fn tile_add_operators_add_the_field() {
    let mut tile = Tile::new(&Point(0, 0)) + Field(1, 10);
    assert_eq!(tile.members, 1);
    tile += Field(1, 5);
    tile += Field(2, 5);
    assert_eq!(tile.members, 2);
    assert_eq!(magnitudes(&tile), HashMap::from([(1, 15), (2, 5)]));
}

#[test]
fn tile_hilbert_index_is_the_index_of_its_place() {
    let tile = Tile::new(&Point(5, 6));
    assert_eq!(tile.hilbert_index(&0), 45);
    assert_eq!(tile.hilbert_index(&7), 45);
}

#[test]
fn tile_order_is_by_place_along_the_curve() {
    let mut a = Tile::new(&Point(1, 0));
    let b = Tile::new(&Point(0, 1));
    a.add_field(Field(9, 9));
    assert!(a < b);
    assert!(b > a);
    assert_eq!(a.partial_cmp(&Tile::new(&Point(1, 0))), Some(std::cmp::Ordering::Equal));
}

#[test]
fn tile_hash_is_by_place() {
    let mut set = std::collections::HashSet::new();
    let mut a = Tile::new(&Point(1, 2));
    a.add_field(Field(1, 1));
    assert!(set.insert(a));
    assert!(!set.insert(Tile::new(&Point(1, 2))));
    assert!(set.insert(Tile::new(&Point(2, 1))));
    assert_eq!(set.len(), 2);
}

#[test]
fn tile_default_is_empty_at_the_first_place() {
    let tile = Tile::default();
    assert_eq!(tile.pos, Point(0, 0));
    assert_eq!(tile.members, 0);
    assert_eq!(tile.rule, None);
    assert!(tile.fields.is_empty());
}

#[test]
fn tile_sample_counts_only_the_kinds_that_are_new() {
    let mut tile = Tile::new(&Point(0, 0));
    tile.add_field(Field(2, 1));
    tile.add_field(Field(4, 1));
    tile.add_field(Field(7, 1));
    tile.sample(5, 6, 7);
    assert_eq!(tile.members, 4);
    assert_eq!(magnitudes(&tile), HashMap::from([(2, 6), (3, 6), (4, 8), (7, 1)]));
}

#[test]
fn tile_shades_are_the_first_three_magnitudes_and_their_peak() {
    let mut tile = Tile::new(&Point(0, 0));
    assert_eq!(tile.shades(), (vec![], 0));
    tile.add_field(Field(5, 7));
    assert_eq!(tile.shades(), (vec![7], 7));
    tile.add_field(Field(6, 9));
    tile.add_field(Field(7, 2));
    tile.add_field(Field(8, 100));
    assert_eq!(tile.shades(), (vec![7, 9, 2], 9));
    tile.add_field(Field(7, 20));
    assert_eq!(tile.shades(), (vec![7, 9, 22], 22));
    let mut flat = Tile::new(&Point(0, 0));
    flat.add_field(Field(1, 0));
    assert_eq!(flat.shades(), (vec![0], 0));
}
