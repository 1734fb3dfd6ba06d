use procedural_city_gen::obj::{build_obj, ObjBuilding, ObjOpenSpace, VertexText};

fn text(points: &[(f32, f32)]) -> Vec<VertexText> {
    points
        .iter()
        .map(|(x, y)| VertexText { x: format!("{}", x), y: format!("{}", y) })
        .collect()
}

fn square() -> Vec<VertexText> {
    text(&[(0.0, 0.0), (2.0, 0.0), (2.0, 2.0), (0.0, 2.0)])
}

fn building(id: u32, height: f32) -> ObjBuilding {
    ObjBuilding { id, footprint: square(), height: format!("{}", height) }
}

#[test]
fn test_obj_has_both_rings_per_building() {
    let obj = build_obj(&vec![building(0, 5.0)], &vec![]);
    let verts = obj.lines().filter(|l| l.starts_with("v ")).count();
    // 4 bottom + 4 top
    assert_eq!(verts, 8);
    assert!(obj.contains("v 0 5 0"), "missing top ring at wall height");
}

#[test]
fn test_obj_face_indices_stay_in_range() {
    let obj = build_obj(&vec![building(0, 3.0), building(1, 4.0)], &vec![]);

    let vertex_count = obj.lines().filter(|l| l.starts_with("v ")).count();
    for line in obj.lines().filter(|l| l.starts_with("f ")) {
        for tok in line.split_whitespace().skip(1) {
            let idx: usize = tok.parse().expect("face index should parse");
            assert!(idx >= 1, "OBJ indices are 1-based, got {idx}");
            assert!(idx <= vertex_count, "face index {idx} exceeds {vertex_count} vertices");
        }
    }
}

#[test]
fn test_obj_includes_open_space() {
    let s = ObjOpenSpace { block_id: 7, polygon: square() };
    let obj = build_obj(&vec![], &vec![s]);
    assert!(obj.contains("o open_space_7"));
    assert_eq!(obj.lines().filter(|l| l.starts_with("v ")).count(), 4);
}

#[test]
fn test_obj_skips_degenerate() {
    let b = ObjBuilding {
        id: 0,
        footprint: text(&[(0.0, 0.0), (1.0, 1.0)]),
        height: "3".to_string(),
    };
    let obj = build_obj(&vec![b], &vec![]);
    assert_eq!(obj.lines().filter(|l| l.starts_with("v ")).count(), 0);
}

#[test]
fn obj_exact_layout_of_a_building_and_an_open_space() {
    let b = ObjBuilding {
        id: 12,
        footprint: text(&[(0.0, 0.0), (1.5, 0.0), (0.0, 2.0)]),
        height: "4.5".to_string(),
    };
    let s = ObjOpenSpace { block_id: 3, polygon: text(&[(1.0, 1.0), (2.0, 1.0), (2.0, 2.0)]) };
    let obj = build_obj(&vec![b], &vec![s]);
    let expected = "# procedural-city-gen export\n\
o building_12\n\
v 0 0 0\nv 1.5 0 0\nv 0 0 2\n\
v 0 4.5 0\nv 1.5 4.5 0\nv 0 4.5 2\n\
f 1 2 5 4\nf 2 3 6 5\nf 3 1 4 6\n\
f 4 5 6\n\
o open_space_3\n\
v 1 0 1\nv 2 0 1\nv 2 0 2\n\
f 7 8 9\n";
    assert_eq!(obj, expected);
}

#[test]
fn obj_of_nothing_is_the_header() {
    assert_eq!(build_obj(&vec![], &vec![]), "# procedural-city-gen export\n");
}

#[test]
fn obj_indices_continue_past_skipped_buildings() {
    let degenerate = ObjBuilding { id: 1, footprint: text(&[(0.0, 0.0)]), height: "1".to_string() };
    let obj = build_obj(&vec![degenerate, building(2, 1.0)], &vec![]);
    assert!(obj.contains("o building_2\n"));
    assert!(!obj.contains("o building_1\n"));
    assert!(obj.contains("f 1 2 6 5\n"));
    assert!(obj.contains("f 5 6 7 8\n"));
}
