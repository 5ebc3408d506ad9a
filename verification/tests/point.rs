use ca04::point::Point;

#[test]
fn place_pos_is_row_times_32_plus_column() {
    assert_eq!(Point::<u8>(0, 0).pos(), 0);
    assert_eq!(Point::<u8>(1, 0).pos(), 32);
    assert_eq!(Point::<u8>(5, 5).pos(), 165);
    assert_eq!(Point::<u8>(31, 31).pos(), 1023);
    assert_eq!(Point::<u8>(255, 255).pos(), 8415);
}

#[test]
fn place_from_slot_round_trips() {
    for i in 0..1024usize {
        let place = Point::<u8>::from(i);
        assert_eq!(place, Point((i / 32) as u8, (i % 32) as u8));
        assert_eq!(place.pos(), i);
    }
}

#[test]
fn place_from_large_slot_wraps_the_row() {
    assert_eq!(Point::<u8>::from(32 * 256 + 5), Point(0, 5));
    assert_eq!(Point::<u8>::from(32 * 257 + 31), Point(1, 31));
}

#[test]
fn place_neighb_wraps_around() {
    assert_eq!(Point::<u8>(5, 5).neighb(1, -1), Point(6, 4));
    assert_eq!(Point::<u8>(0, 255).neighb(-1, 1), Point(255, 0));
    assert_eq!(Point::<u8>(200, 100).neighb(127, -128), Point(71, 228));
}

#[test]
fn chunk_coordinate_pos() {
    assert_eq!(Point::<u16>(0, 0).pos(), 0);
    assert_eq!(Point::<u16>(3, 7).pos(), 103);
    assert_eq!(Point::<u16>(2047, 31).pos(), 65535);
}

#[test]
fn chunk_coordinate_neighb_wraps_around() {
    assert_eq!(Point::<u16>(5, 5).neighb(1, 0), Point(6, 5));
    assert_eq!(Point::<u16>(65535, 0).neighb(1, -1), Point(0, 65535));
    assert_eq!(Point::<u16>(0, 0).neighb(-1, -1), Point(65535, 65535));
    assert_eq!(Point::<u16>(10, 10).neighb(i16::MIN, i16::MAX), Point(32778, 32777));
}
