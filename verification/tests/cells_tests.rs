use procedural_city_gen::cells::{
    collect_cell_lists, contains_index, faces_around_vertex, point_to_triangles, select_cells,
};

#[test]
fn cell_lists_follow_face_order_without_repeats() {
    // Four faces around vertex 0; faces 1 and 2 merged into circumcenter 1.
    let faces = vec![(0, 1, 2), (0, 2, 3), (0, 3, 4), (0, 4, 1)];
    let mapping = vec![0, 1, 1, 2];
    let gens = vec![Some(0), Some(2), None, Some(9)];
    let lists = collect_cell_lists(&faces, &mapping, &gens);
    assert_eq!(lists.len(), 4);
    assert_eq!(lists[0], vec![0, 1, 2]);
    assert_eq!(lists[1], vec![0, 1]);
    assert!(lists[2].is_empty(), "a generator missing from the triangulation has no faces");
    assert!(lists[3].is_empty());
}

#[test]
fn cell_lists_skip_faces_without_a_mapping() {
    let faces = vec![(0, 1, 2), (0, 2, 3), (0, 3, 1)];
    let mapping = vec![5, 6];
    let lists = collect_cell_lists(&faces, &mapping, &vec![Some(0)]);
    assert_eq!(lists[0], vec![5, 6]);
}

#[test]
fn select_keeps_accepted_cells_with_three_corners() {
    let lists = vec![vec![0, 1, 2], vec![3, 4], vec![5, 6, 7], vec![8, 9, 10, 11]];
    let accepted = vec![true, true, false, true];
    let cells = select_cells(&lists, &accepted);
    assert_eq!(cells, vec![vec![0, 1, 2], vec![8, 9, 10, 11]]);
}

#[test]
fn select_of_nothing_is_empty() {
    assert!(select_cells(&vec![], &vec![]).is_empty());
}

#[test]
fn point_to_triangles_lists_each_triangle_once() {
    // Triangle 1 names point 2 twice; a trailing partial triangle is ignored.
    let tris = vec![0, 1, 2, 2, 3, 2, 1, 3];
    let res = point_to_triangles(4, &tris);
    assert_eq!(res, vec![vec![0], vec![0], vec![0, 1], vec![1]]);
}

#[test]
fn faces_around_vertex_in_face_order() {
    let faces = vec![(0, 1, 2), (1, 2, 3), (3, 0, 1)];
    assert_eq!(faces_around_vertex(&faces, Some(1)), vec![0, 1, 2]);
    assert_eq!(faces_around_vertex(&faces, Some(0)), vec![0, 2]);
    assert!(faces_around_vertex(&faces, None).is_empty());
}

#[test]
fn contains_index_finds_members() {
    assert!(contains_index(&vec![3, 5, 7], 5));
    assert!(!contains_index(&vec![3, 5, 7], 4));
    assert!(!contains_index(&vec![], 0));
}

#[test]
fn reorder_applies_a_permutation() {
    let list = vec![10, 20, 30];
    assert_eq!(procedural_city_gen::cells::reorder(&list, &vec![2, 0, 1]), Some(vec![30, 10, 20]));
    assert_eq!(procedural_city_gen::cells::reorder(&list, &vec![0, 1, 2]), Some(list.clone()));
    assert_eq!(procedural_city_gen::cells::reorder(&list, &vec![0, 0, 1]), None, "a repeated position is not an order");
    assert_eq!(procedural_city_gen::cells::reorder(&list, &vec![0, 1, 3]), None, "a position past the end is not an order");
    assert_eq!(procedural_city_gen::cells::reorder(&list, &vec![0, 1]), None, "an order must cover every position");
    assert_eq!(procedural_city_gen::cells::reorder(&vec![], &vec![]), Some(vec![]));
}
