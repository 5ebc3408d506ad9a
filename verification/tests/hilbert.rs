use ca04::hilbert::hilbert_index;
use ca04::point::Point;
use std::cmp::Ordering;
use std::collections::HashSet;

#[test]
fn hilbert_index_of_the_first_cells() {
    assert_eq!(hilbert_index(1, (0, 0)), 0);
    assert_eq!(hilbert_index(1, (0, 1)), 1);
    assert_eq!(hilbert_index(1, (1, 1)), 2);
    assert_eq!(hilbert_index(1, (1, 0)), 3);
    assert_eq!(hilbert_index(2, (1, 0)), 1);
    assert_eq!(hilbert_index(2, (1, 1)), 2);
    assert_eq!(hilbert_index(2, (0, 1)), 3);
    assert_eq!(hilbert_index(2, (2, 3)), 9);
    assert_eq!(hilbert_index(2, (3, 3)), 10);
}

#[test]
fn hilbert_index_on_the_named_grids() {
    assert_eq!(hilbert_index(5, (5, 5)), 34);
    assert_eq!(hilbert_index(5, (31, 31)), 682);
    assert_eq!(hilbert_index(8, (5, 5)), 34);
    assert_eq!(hilbert_index(8, (31, 31)), 682);
    assert_eq!(hilbert_index(16, (2, 3)), 9);
    assert_eq!(hilbert_index(16, (65535, 65535)), 2863311530);
    assert_eq!(hilbert_index(16, (0, 65535)), 1431655765);
    assert_eq!(hilbert_index(16, (65535, 0)), 4294967295);
    assert_eq!(hilbert_index(32, (4294967295, 0)), u64::MAX);
}

#[test]
fn hilbert_index_is_what_the_transform_gives() {
    for (x, y) in [(0u32, 0u32), (1, 2), (300, 7), (65535, 1), (12345, 54321)] {
        let digits = hilbert::Point::new(0, &[x, y]).hilbert_transform(16).to_bytes_be();
        let mut expected: u64 = 0;
        for d in digits {
            expected = expected * 256 + d as u64;
        }
        assert_eq!(hilbert_index(16, (x, y)), expected);
    }
}

#[test]
fn hilbert_index_visits_every_cell_of_a_chunk_once() {
    let mut seen = HashSet::new();
    for x in 0..32u32 {
        for y in 0..32u32 {
            let index = hilbert_index(5, (x, y));
            assert!(index < 1024);
            assert!(seen.insert(index));
        }
    }
    assert_eq!(seen.len(), 1024);
}

#[test]
fn hilbert_index_tells_all_tile_places_apart() {
    let mut seen = HashSet::new();
    for x in 0..=255u8 {
        for y in 0..=255u8 {
            assert!(seen.insert(Point::<u8>(x, y).hilbert_index(&0)));
        }
    }
    assert_eq!(seen.len(), 65536);
}

#[test]
fn hilbert_index_tells_chunk_coordinates_apart() {
    let mut seen = HashSet::new();
    for x in (0..=65535u16).step_by(257) {
        for y in (0..=65535u16).step_by(255) {
            assert!(seen.insert(Point::<u16>(x, y).hilbert_index(&0)));
        }
    }
    assert_eq!(seen.len(), 256 * 258);
}

#[test]
fn hilbert_index_steps_to_a_neighbouring_cell() {
    let mut cells = vec![(0u32, 0u32); 1024];
    for x in 0..32u32 {
        for y in 0..32u32 {
            cells[hilbert_index(5, (x, y)) as usize] = (x, y);
        }
    }
    for pair in cells.windows(2) {
        let dx = pair[0].0.abs_diff(pair[1].0);
        let dy = pair[0].1.abs_diff(pair[1].1);
        assert_eq!(dx + dy, 1);
    }
}

#[test]
fn point_hilbert_index_does_not_depend_on_the_origin() {
    assert_eq!(Point::<u16>(2, 0).hilbert_index(&0), 14);
    assert_eq!(Point::<u16>(2, 0).hilbert_index(&1), 14);
    assert_eq!(Point::<u8>(5, 6).hilbert_index(&0), 45);
    assert_eq!(Point::<u8>(5, 6).hilbert_index(&9), 45);
    assert_eq!(Point::<u8>(255, 255).hilbert_index(&0), 43690);
}

#[test]
fn curve_order_follows_the_index() {
    let a = Point::<u16>(1, 0);
    let b = Point::<u16>(0, 1);
    let c = Point::<u16>(2, 0);
    assert_eq!(a.curve_order(&b), Ordering::Less);
    assert_eq!(b.curve_order(&a), Ordering::Greater);
    assert_eq!(b.curve_order(&c), Ordering::Less);
    assert_eq!(a.curve_order(&c), Ordering::Less);
    assert_eq!(c.curve_order(&c), Ordering::Equal);
    assert!(a < b);
    assert!(c > b);
    assert_eq!(a.partial_cmp(&a), Some(Ordering::Equal));
}

#[test]
fn curve_order_is_a_strict_total_order_on_a_grid() {
    let mut points = Vec::new();
    for x in 0..12u16 {
        for y in 0..12u16 {
            points.push(Point::<u16>(x * 5000, y * 5000));
        }
    }
    for a in &points {
        for b in &points {
            let ab = a.curve_order(b);
            let ba = b.curve_order(a);
            if a == b {
                assert_eq!(ab, Ordering::Equal);
            } else {
                assert_ne!(ab, Ordering::Equal);
                assert_eq!(ab, ba.reverse());
            }
        }
    }
}

#[test]
fn place_order_follows_the_index() {
    let a = Point::<u8>(1, 0);
    let b = Point::<u8>(0, 1);
    assert_eq!(a.curve_order(&b), Ordering::Less);
    assert_eq!(b.curve_order(&a), Ordering::Greater);
    assert_eq!(b.curve_order(&b), Ordering::Equal);
    assert!(a < b);
}
