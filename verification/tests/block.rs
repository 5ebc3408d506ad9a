use ca04::block::Block;

fn block_of(coords: (u16, u16), slots: &[(u32, u32)], members: u16) -> Block {
    let mut block = Block::new(coords);
    for (i, (t, v)) in slots.iter().enumerate() {
        block.types[i] = *t;
        block.values[i] = *v;
    }
    block.members = members;
    block
}

fn slots_of(block: &Block, n: usize) -> Vec<(u32, u32)> {
    (0..n).map(|i| (block.types[i], block.values[i])).collect()
}

#[test]
fn block_new_is_empty() {
    let block = Block::new((3, 4));
    assert_eq!(block.coords, (3, 4));
    assert_eq!(block.members, 0);
    assert_eq!(block.types, [0u32; 64]);
    assert_eq!(block.values, [0u32; 64]);
}

#[test]
fn block_add_assign_merges_slot_by_slot() {
    let mut a = block_of((1, 1), &[(1, 5), (2, 6), (0, 0), (4, u32::MAX - 1)], 4);
    let b = block_of((9, 9), &[(1, 7), (3, 8), (5, 9), (4, 2), (6, 1)], 5);
    a += b;
    assert_eq!(a.coords, (1, 1));
    assert_eq!(a.members, 5);
    assert_eq!(slots_of(&a, 6), vec![(1, 12), (2, 6), (5, 9), (4, u32::MAX), (6, 1), (0, 0)]);
}

#[test]
fn block_add_assign_looks_at_the_larger_count_only() {
    let mut a = block_of((1, 1), &[(1, 5), (2, 6), (3, 7)], 1);
    let b = block_of((0, 0), &[(1, 1), (2, 1), (3, 1)], 2);
    a += b;
    assert_eq!(a.members, 2);
    assert_eq!(slots_of(&a, 3), vec![(1, 6), (2, 7), (3, 7)]);
}

#[test]
fn block_add_starts_from_empty_slots() {
    let a = block_of((1, 1), &[(1, 5), (2, 6)], 2);
    let b = block_of((9, 9), &[(1, 7), (3, 8), (5, 9)], 3);
    let sum = a + b;
    assert_eq!(sum.coords, (1, 1));
    assert_eq!(sum.members, 3);
    assert_eq!(slots_of(&sum, 4), vec![(1, 7), (3, 8), (5, 9), (0, 0)]);
}

#[test]
fn block_sub_assign_drops_the_slots_that_run_out() {
    let mut a = block_of((2, 2), &[(1, 5), (2, 5), (3, 5), (4, 5), (77, 8)], 4);
    let b = block_of((0, 0), &[(1, 5), (2, 3), (9, 1), (4, 7)], 4);
    a -= b;
    assert_eq!(a.coords, (2, 2));
    assert_eq!(a.members, 2);
    assert_eq!(slots_of(&a, 5), vec![(2, 2), (3, 5), (77, 8), (0, 0), (0, 0)]);
    assert_eq!((a.types[62], a.values[62]), (0, 0));
    assert_eq!((a.types[63], a.values[63]), (0, 0));
}

#[test]
fn block_sub_assign_keeps_all_when_nothing_runs_out() {
    let mut a = block_of((2, 2), &[(1, 5), (2, 5), (3, 5)], 3);
    let b = block_of((0, 0), &[(1, 1), (7, 9)], 2);
    a -= b;
    assert_eq!(a.members, 3);
    assert_eq!(slots_of(&a, 4), vec![(1, 4), (2, 5), (3, 5), (0, 0)]);
}

#[test]
fn block_sub_assign_moves_the_last_slot_up() {
    let mut a = Block::new((0, 0));
    for i in 0..64 {
        a.types[i] = i as u32 + 1;
        a.values[i] = 10;
    }
    a.members = 2;
    let b = block_of((0, 0), &[(1, 10), (2, 10)], 2);
    a -= b;
    assert_eq!(a.members, 0);
    assert_eq!((a.types[0], a.values[0]), (3, 10));
    assert_eq!((a.types[61], a.values[61]), (64, 10));
    assert_eq!((a.types[62], a.values[62]), (0, 0));
    assert_eq!((a.types[63], a.values[63]), (0, 0));
}

#[test]
fn block_sub_starts_from_empty_slots() {
    let a = block_of((1, 1), &[(1, 5), (2, 6), (3, 7)], 3);
    let b = block_of((9, 9), &[(1, 7), (0, 8), (5, 9), (6, 1)], 4);
    let difference = a - b;
    assert_eq!(difference.coords, (1, 1));
    assert_eq!(difference.members, 2);
    assert_eq!(difference.types, [0u32; 64]);
    assert_eq!(difference.values, [0u32; 64]);
}

#[test]
fn block_operations_take_full_blocks() {
    let mut a = Block::new((0, 0));
    let mut b = Block::new((0, 0));
    for i in 0..64 {
        a.types[i] = 1;
        a.values[i] = 3;
        b.types[i] = 1;
        b.values[i] = 3;
    }
    a.members = 64;
    b.members = 64;
    let mut sum = a;
    sum += b;
    assert_eq!(sum.members, 64);
    assert_eq!(sum.values, [6u32; 64]);
    let mut rest = a;
    rest -= b;
    assert_eq!(rest.members, 0);
    assert_eq!(rest.types, [0u32; 64]);
    assert_eq!(rest.values, [0u32; 64]);
}
