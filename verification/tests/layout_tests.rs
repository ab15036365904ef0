use chizu::layout::layout_levels;

#[test]
fn chain_levels_count_steps_from_the_root() {
    assert_eq!(layout_levels(3, &vec![(0, 1), (1, 2)]), vec![0, 1, 2]);
}

#[test]
fn levels_are_shortest_distances() {
    assert_eq!(layout_levels(4, &vec![(0, 1), (1, 2), (2, 3), (0, 3)]), vec![0, 1, 2, 1]);
}

#[test]
fn every_node_without_incoming_edges_starts_a_layer() {
    assert_eq!(layout_levels(4, &vec![(0, 2), (1, 2), (2, 3)]), vec![0, 0, 1, 2]);
}

#[test]
fn a_cycle_without_roots_starts_at_the_first_node() {
    assert_eq!(layout_levels(3, &vec![(0, 1), (1, 2), (2, 0)]), vec![0, 1, 2]);
}

#[test]
fn unreached_nodes_get_level_zero() {
    assert_eq!(layout_levels(4, &vec![(0, 1), (2, 3), (3, 2)]), vec![0, 1, 0, 0]);
}

#[test]
fn no_nodes_no_levels() {
    assert_eq!(layout_levels(0, &vec![]), Vec::<usize>::new());
    assert_eq!(layout_levels(2, &vec![]), vec![0, 0]);
}
