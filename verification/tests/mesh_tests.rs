use procedural_city_gen::mesh::{building_indices, footprint_indices, road_indices};

#[test]
fn test_footprint_index_count() {
    // 4 triangles * 3 indices
    assert_eq!(footprint_indices(4).len(), 12);
}

#[test]
fn test_footprint_triangle() {
    // 3 triangles * 3 indices = 9
    assert_eq!(footprint_indices(3).len(), 9);
}

#[test]
fn test_footprint_indices_in_bounds() {
    // 1 centre + 4 outline vertices
    for &idx in &footprint_indices(4) {
        assert!((idx as usize) < 5);
    }
}

#[test]
fn test_footprint_degenerate_polygon() {
    assert!(footprint_indices(2).is_empty());
}

#[test]
fn footprint_fan_layout() {
    assert_eq!(footprint_indices(3), vec![0, 2, 1, 0, 3, 2, 0, 1, 3]);
}

#[test]
fn test_building_index_count() {
    // n=4: walls = 4*6=24, bottom = 4*3=12, top = 4*3=12 -> total 48
    assert_eq!(building_indices(4).len(), 48);
}

#[test]
fn test_building_indices_in_bounds() {
    let n = 6 * 4 + 2;
    for &idx in &building_indices(4) {
        assert!((idx as usize) < n, "index {idx} out of bounds (total: {n})");
    }
}

#[test]
fn test_building_triangle_footprint() {
    // n=3: walls=3*6=18, bottom=3*3=9, top=3*3=9 -> total 36
    assert_eq!(building_indices(3).len(), 36);
}

#[test]
fn test_building_degenerate_polygon() {
    assert!(building_indices(2).is_empty());
}

#[test]
fn test_building_index_count_formula() {
    for n in [3usize, 4, 5, 6, 8] {
        let expected = 12 * n;
        assert_eq!(building_indices(n).len(), expected, "n={n}: expected {expected} indices");
    }
}

#[test]
fn building_layout_walls_floor_roof() {
    let idx = building_indices(3);
    // walls
    assert_eq!(&idx[0..6], &[0, 2, 1, 1, 2, 3]);
    assert_eq!(&idx[12..18], &[8, 10, 9, 9, 10, 11]);
    // floor fan around vertex 12
    assert_eq!(&idx[18..27], &[12, 13, 14, 12, 14, 15, 12, 15, 13]);
    // roof fan around vertex 16, wound the other way
    assert_eq!(&idx[27..36], &[16, 18, 17, 16, 19, 18, 16, 17, 19]);
    assert_eq!(*idx.iter().max().unwrap(), 19);
}

#[test]
fn road_and_sidewalk_quads() {
    assert_eq!(road_indices(2, false), vec![0, 1, 2, 0, 2, 3, 4, 5, 6, 4, 6, 7]);
    assert_eq!(road_indices(1, true), vec![0, 1, 2, 0, 1, 3]);
    assert!(road_indices(0, false).is_empty());
}
