use procedural_city_gen::split::split_ring;
use procedural_city_gen::town::{block_id, block_seed};

#[test]
fn split_square_through_opposite_edges() {
    let square = vec![(0, 0), (2, 0), (2, 2), (0, 2)];
    let (a, b) = split_ring(&square, 0, 2, (1, 0), (1, 2));
    assert_eq!(a, vec![(1, 0), (2, 0), (2, 2), (1, 2)]);
    assert_eq!(b, vec![(1, 2), (0, 2), (0, 0), (1, 0)]);
}

#[test]
fn split_through_last_edge_wraps_around() {
    let ring = vec!['a', 'b', 'c', 'd', 'e'];
    let (first, second) = split_ring(&ring, 1, 4, 'X', 'Y');
    assert_eq!(first, vec!['X', 'c', 'd', 'e', 'Y']);
    assert_eq!(second, vec!['Y', 'a', 'b', 'X']);
    assert_eq!(first.len() + second.len(), ring.len() + 4);
}

#[test]
fn block_seed_wraps() {
    assert_eq!(block_seed(10, 5), 15);
    assert_eq!(block_seed(u64::MAX, 2), 1);
}

#[test]
fn block_id_truncates() {
    assert_eq!(block_id(7), 7);
    assert_eq!(block_id(u32::MAX as usize), u32::MAX);
}

