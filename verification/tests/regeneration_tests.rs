use procedural_city_gen::regeneration::{plan_regeneration, SkeletonStep};
use procedural_city_gen::types::{EditMode, GenerationMode, RegenerateEvent};

fn event(seed: u64, user_edit: bool, rebuild_skeleton: bool) -> RegenerateEvent {
    RegenerateEvent { seed, user_edit, rebuild_skeleton }
}

#[test]
fn param_only_change_keeps_the_skeleton() {
    let plan = plan_regeneration(5, &event(5, false, false), GenerationMode::Auto, EditMode::Boundary, 4, 4);
    assert_eq!(plan.seed, 5);
    assert!(plan.steps.is_empty());
}

#[test]
fn randomize_rebuilds_the_skeleton() {
    let plan = plan_regeneration(5, &event(987_654_321, false, true), GenerationMode::Auto, EditMode::Boundary, 4, 4);
    assert_eq!(plan.seed, 987_654_321);
    assert_eq!(plan.steps, vec![SkeletonStep::RebuildBoundaryFromParams, SkeletonStep::RunPipeline]);
}

#[test]
fn new_seed_alone_rebuilds_the_skeleton() {
    let plan = plan_regeneration(5, &event(6, false, false), GenerationMode::Auto, EditMode::Roads, 4, 4);
    assert_eq!(plan.steps, vec![SkeletonStep::RebuildBoundaryFromParams, SkeletonStep::RunPipeline]);
}

#[test]
fn manual_generator_edits_keep_the_moved_points() {
    let hand = plan_regeneration(5, &event(5, true, false), GenerationMode::Manual, EditMode::Generators, 4, 4);
    assert_eq!(hand.steps, vec![SkeletonStep::RebuildVoronoi]);
    let panel = plan_regeneration(5, &event(5, false, false), GenerationMode::Manual, EditMode::Generators, 4, 4);
    assert_eq!(panel.steps, vec![SkeletonStep::PlaceGenerators, SkeletonStep::RebuildVoronoi]);
}

#[test]
fn manual_circumcenter_edits_keep_the_diagram() {
    let hand = plan_regeneration(5, &event(5, true, true), GenerationMode::Manual, EditMode::Circumcenters, 4, 4);
    assert!(hand.steps.is_empty());
    let panel = plan_regeneration(5, &event(5, false, true), GenerationMode::Manual, EditMode::Circumcenters, 4, 4);
    assert_eq!(panel.steps, vec![SkeletonStep::RebuildVoronoi]);
}

#[test]
fn manual_road_edit_reruns_the_pipeline() {
    let plan = plan_regeneration(1, &event(2, true, false), GenerationMode::Manual, EditMode::Roads, 4, 4);
    assert_eq!(plan.steps, vec![SkeletonStep::RunPipeline]);
    assert_eq!(plan.seed, 2);
}

#[test]
fn manual_boundary_resets_offsets_when_the_vertex_count_changes() {
    let same = plan_regeneration(1, &event(1, true, false), GenerationMode::Manual, EditMode::Boundary, 6, 6);
    assert_eq!(same.steps, vec![SkeletonStep::RebuildBoundaryWithOffsets, SkeletonStep::RunPipeline]);
    let changed = plan_regeneration(1, &event(1, false, true), GenerationMode::Manual, EditMode::Boundary, 6, 9);
    assert_eq!(
        changed.steps,
        vec![
            SkeletonStep::ResetBoundaryOffsets { count: 9 },
            SkeletonStep::RebuildBoundaryWithOffsets,
            SkeletonStep::RunPipeline,
        ]
    );
}
