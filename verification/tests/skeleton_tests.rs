use procedural_city_gen::skeleton::{apply_voronoi_to_skeleton, SkeletonData, VoronoiResult};

type P2 = (f32, f32);
type P3 = (f32, f32, f32);

fn square_boundary() -> Vec<P2> {
    vec![(50.0, 0.0), (0.0, 50.0), (-50.0, 0.0), (0.0, -50.0)]
}

#[test]
fn test_apply_voronoi_to_skeleton() {
    let boundary = square_boundary();
    let mut skeleton: SkeletonData<P3, P2> = SkeletonData::new_empty(boundary.clone(), (0.0, 0.0));

    let generators = vec![(1.0, 0.0, 2.0)];
    let result = VoronoiResult {
        circumcenters: vec![(0.0, 0.0, 0.0), (1.0, 0.0, 0.0), (0.0, 0.0, 1.0)],
        cells: vec![vec![0, 1, 2]],
    };

    apply_voronoi_to_skeleton(&mut skeleton, generators.clone(), result);

    assert_eq!(skeleton.generator_points.len(), 1);
    assert_eq!(skeleton.circumcenters.len(), 3);
    assert_eq!(skeleton.cells.len(), 1);
    assert!(skeleton.road_path.is_empty());
    assert_eq!(skeleton.boundary, boundary);
    assert!(skeleton.is_valid());
}

#[test]
fn test_skeleton_invalid_when_empty() {
    let skeleton: SkeletonData<P3, P2> = SkeletonData::new_empty(square_boundary(), (0.0, 0.0));
    assert!(!skeleton.is_valid());
}

#[test]
fn new_empty_has_one_zero_offset_per_boundary_vertex() {
    let skeleton: SkeletonData<P3, P2> = SkeletonData::new_empty(square_boundary(), (0.0, 0.0));
    assert_eq!(skeleton.boundary_offsets, vec![(0.0, 0.0); 4]);
    assert_eq!(skeleton.boundary_vertex_count(), 4);
    assert!(!skeleton.has_town_data());
}

#[test]
fn boundary_vertices_can_be_read_and_moved() {
    let mut skeleton: SkeletonData<P3, P2> = SkeletonData::new_empty(square_boundary(), (0.0, 0.0));
    assert_eq!(skeleton.get_boundary_vertex(1), Some((0.0, 50.0)));
    assert_eq!(skeleton.get_boundary_vertex(4), None);
    skeleton.set_boundary_vertex(1, (3.0, 4.0));
    assert_eq!(skeleton.get_boundary_vertex(1), Some((3.0, 4.0)));
    skeleton.set_boundary_vertex(7, (9.0, 9.0));
    assert_eq!(skeleton.boundary.len(), 4);
}

fn skeleton_with(count: usize, cells: Vec<Vec<usize>>) -> SkeletonData<P3, P2> {
    let mut s: SkeletonData<P3, P2> = SkeletonData::new_empty(square_boundary(), (0.0, 0.0));
    s.circumcenters = vec![(0.0, 0.0, 0.0); count];
    s.cells = cells;
    s
}

#[test]
fn skeleton_with_short_cell_is_invalid() {
    assert!(!skeleton_with(3, vec![vec![0, 1, 2], vec![0, 1]]).is_valid());
}

#[test]
fn skeleton_with_out_of_range_corner_is_invalid() {
    assert!(!skeleton_with(3, vec![vec![0, 1, 3]]).is_valid());
}

#[test]
fn skeleton_without_cells_is_invalid() {
    let s = skeleton_with(3, vec![]);
    assert!(!s.is_valid());
    assert!(!s.has_town_data());
}

#[test]
fn skeleton_with_good_cells_is_valid() {
    let s = skeleton_with(5, vec![vec![0, 1, 2], vec![2, 3, 4, 0]]);
    assert!(s.is_valid());
    assert!(s.has_town_data());
}

#[test]
fn offsets_move_only_the_vertices_they_cover() {
    let base = vec![(0, 0), (10, 0), (10, 10)];
    let moved = procedural_city_gen::skeleton::add_offsets(base.clone(), &vec![(1, 2), (3, 4)], |a: (i32, i32), b: (i32, i32)| (a.0 + b.0, a.1 + b.1));
    assert_eq!(moved, vec![(1, 2), (13, 4), (10, 10)]);
    let extra = procedural_city_gen::skeleton::add_offsets(base.clone(), &vec![(1, 1); 5], |a: (i32, i32), b: (i32, i32)| (a.0 + b.0, a.1 + b.1));
    assert_eq!(extra, vec![(1, 1), (11, 1), (11, 11)]);
    let none = procedural_city_gen::skeleton::add_offsets(base.clone(), &vec![], |a: (i32, i32), _b: (i32, i32)| a);
    assert_eq!(none, base);
}
