use ca04::chunk::Chunk;
use ca04::field::Field;
use ca04::point::Point;

#[test]
fn chunk_default_has_1024_empty_tiles_in_their_slots() {
    let chunk = Chunk::default();
    assert_eq!(chunk.pos, Point(0, 0));
    assert!(!chunk.changed);
    assert_eq!(chunk.tiles.len(), 1024);
    for (i, tile) in chunk.tiles.iter().enumerate() {
        assert_eq!(tile.members, 0);
        assert_eq!(tile.pos(), i);
        assert_eq!(tile.pos, Point((i / 32) as u8, (i % 32) as u8));
        assert!(tile.fields().is_empty());
        assert_eq!(tile.rule, None);
    }
    assert_eq!(chunk.border.len(), 128);
    assert!(chunk.border.iter().all(|cached| cached.is_none()));
}

#[test]
fn chunk_at_stands_at_its_coordinate() {
    let chunk = Chunk::at(Point(7, 9));
    assert_eq!(chunk.pos, Point(7, 9));
    assert_eq!(chunk.tiles.len(), 1024);
    assert!(chunk.tiles.iter().all(|tile| tile.members == 0));
}

#[test]
fn chunk_on_screen_is_the_window_with_both_ends() {
    let chunk = Chunk::at(Point(10, 20));
    assert!(chunk.on_screen((10, 20, 0, 0)));
    assert!(chunk.on_screen((12, 18, 2, 2)));
    assert!(chunk.on_screen((8, 22, 2, 2)));
    assert!(!chunk.on_screen((13, 20, 2, 2)));
    assert!(!chunk.on_screen((7, 20, 2, 2)));
    assert!(!chunk.on_screen((10, 23, 2, 2)));
    assert!(!chunk.on_screen((10, 17, 2, 2)));
}

#[test]
fn chunk_on_screen_holds_the_window_inside_u16() {
    let origin = Chunk::at(Point(0, 0));
    assert!(origin.on_screen((3, 3, 5, 5)));
    assert!(!origin.on_screen((3, 3, 2, 5)));
    let corner = Chunk::at(Point(65535, 65535));
    assert!(corner.on_screen((65530, 65530, 10, 10)));
    assert!(!corner.on_screen((65530, 65530, 4, 10)));
    assert!(origin.on_screen((65535, 65535, 65535, 65535)));
}

#[test]
fn chunk_equality_is_by_coordinate() {
    let mut a = Chunk::at(Point(1, 2));
    let b = Chunk::at(Point(1, 2));
    a.deposit(5, Field(1, 10));
    assert!(a == b);
    assert!(a != Chunk::at(Point(2, 1)));
}

#[test]
fn chunk_deposit_and_reset_touch_one_tile() {
    let mut chunk = Chunk::at(Point(0, 0));
    chunk.deposit(100, Field(1, 10));
    chunk.deposit(100, Field(1, 10));
    chunk.deposit(101, Field(2, 3));
    assert_eq!(chunk.tiles[100].members, 1);
    assert_eq!(chunk.tiles[100].fields()[0].1, 20);
    assert_eq!(chunk.tiles[101].members, 1);
    assert_eq!(chunk.tiles.iter().filter(|tile| tile.members > 0).count(), 2);
    chunk.reset(100);
    assert_eq!(chunk.tiles[100].members, 0);
    assert_eq!(chunk.tiles[100].pos, Point(3, 4));
    assert_eq!(chunk.tiles[101].members, 1);
}

#[test]
fn chunk_clone_copies_the_tiles() {
    let mut chunk = Chunk::at(Point(4, 4));
    chunk.deposit(9, Field(1, 10));
    let copy = chunk.clone();
    chunk.deposit(9, Field(1, 10));
    assert_eq!(copy.pos, Point(4, 4));
    assert_eq!(copy.tiles.len(), 1024);
    assert_eq!(copy.border.len(), 128);
    assert_eq!(copy.tiles[9].fields()[0].1, 10);
    assert_eq!(chunk.tiles[9].fields()[0].1, 20);
}

#[test]
fn chunk_hilbert_index_is_the_index_of_its_coordinate() {
    assert_eq!(Chunk::at(Point(2, 0)).hilbert_index(&0), 14);
    assert_eq!(Chunk::at(Point(65535, 0)).hilbert_index(&3), 4294967295);
}

#[test]
fn chunk_order_is_by_coordinate_along_the_curve() {
    let a = Chunk::at(Point(1, 0));
    let b = Chunk::at(Point(0, 1));
    let c = Chunk::at(Point(2, 0));
    assert!(a < b);
    assert!(b < c);
    assert!(c > a);
    assert_eq!(a.partial_cmp(&Chunk::at(Point(1, 0))), Some(std::cmp::Ordering::Equal));
}

#[test]
fn chunk_hash_is_by_coordinate() {
    let mut set = std::collections::HashSet::new();
    let mut a = Chunk::at(Point(1, 2));
    a.deposit(0, Field(1, 1));
    assert!(set.insert(a));
    assert!(!set.insert(Chunk::at(Point(1, 2))));
    assert!(set.insert(Chunk::at(Point(2, 1))));
    assert_eq!(set.len(), 2);
}
