//! What a regeneration request does to the skeleton.
//!
//! The application performs the steps (they place points and build the
//! triangulation); this module decides which steps a request calls for.
use vstd::prelude::*;

use crate::types::{EditMode, GenerationMode, RegenerateEvent};

verus! {

/// One change to the skeleton, performed in order by the application.
#[derive(Clone, Copy, PartialEq, Eq, Debug, Structural)]
pub enum SkeletonStep {
    /// Boundary rebuilt from the parameters alone (no hand offsets), then one
    /// zero offset stored per vertex of the new boundary.
    RebuildBoundaryFromParams,
    /// The stored hand offsets replaced by `count` zero offsets.
    ResetBoundaryOffsets { count: usize },
    /// Boundary rebuilt from the parameters with the stored hand offsets added.
    RebuildBoundaryWithOffsets,
    /// Generator points placed afresh (relaxed spiral points plus the fixed
    /// road and boundary generators) and stored in the skeleton.
    PlaceGenerators,
    /// Circumcenters and cells rebuilt from the stored generator points.
    RebuildVoronoi,
    /// Generators placed afresh and the whole diagram installed with them.
    RunPipeline,
}

/// The outcome of a regeneration request: the seed to keep and the skeleton
/// steps to run before the town is rebuilt on top of the skeleton.
pub struct RegenerationPlan {
    pub seed: u64,
    pub steps: Vec<SkeletonStep>,
}

/// The steps a request calls for.
///
/// In automatic mode the skeleton is rebuilt from the parameters only when the
/// seed changed or a skeleton-shaping parameter did; otherwise it is reused.
/// In manual mode the edit target decides: hand edits of generators or
/// circumcenters are kept as they are.
pub open spec fn planned_steps(
    seed_changed: bool,
    event: RegenerateEvent,
    mode: GenerationMode,
    edit_mode: EditMode,
    boundary_len: usize,
    boundary_vertex_count: usize,
) -> Seq<SkeletonStep> {
    match mode {
        GenerationMode::Auto => if seed_changed || event.rebuild_skeleton {
            seq![SkeletonStep::RebuildBoundaryFromParams, SkeletonStep::RunPipeline]
        } else {
            seq![]
        },
        GenerationMode::Manual => match edit_mode {
            EditMode::Generators => if event.user_edit {
                seq![SkeletonStep::RebuildVoronoi]
            } else {
                seq![SkeletonStep::PlaceGenerators, SkeletonStep::RebuildVoronoi]
            },
            EditMode::Circumcenters => if event.user_edit {
                seq![]
            } else {
                seq![SkeletonStep::RebuildVoronoi]
            },
            EditMode::Roads => seq![SkeletonStep::RunPipeline],
            EditMode::Boundary => if boundary_len != boundary_vertex_count {
                seq![
                    SkeletonStep::ResetBoundaryOffsets { count: boundary_vertex_count },
                    SkeletonStep::RebuildBoundaryWithOffsets,
                    SkeletonStep::RunPipeline,
                ]
            } else {
                seq![SkeletonStep::RebuildBoundaryWithOffsets, SkeletonStep::RunPipeline]
            },
        },
    }
}

/// Decides how to handle a regeneration request, given the seed the current
/// city was built from, the mode and edit target, the current boundary length
/// and the wanted number of boundary vertices.
pub fn plan_regeneration(
    current_seed: u64,
    event: &RegenerateEvent,
    mode: GenerationMode,
    edit_mode: EditMode,
    boundary_len: usize,
    boundary_vertex_count: usize,
) -> (plan: RegenerationPlan)
    ensures
        plan.seed == event.seed,
        plan.steps@ == planned_steps(
            current_seed != event.seed,
            *event,
            mode,
            edit_mode,
            boundary_len,
            boundary_vertex_count,
        ),
        // A change that only affects subdivision keeps the skeleton as it is.
        mode == GenerationMode::Auto && current_seed == event.seed && !event.rebuild_skeleton
            ==> plan.steps@.len() == 0,
        // A new seed in automatic mode rebuilds the whole skeleton.
        mode == GenerationMode::Auto && current_seed != event.seed ==> plan.steps@.last()
            == SkeletonStep::RunPipeline,
        // A request in automatic mode after a seed change or a structural
        // change rebuilds the boundary from the parameters and reruns everything.
        mode == GenerationMode::Auto && (current_seed != event.seed || event.rebuild_skeleton)
            ==> plan.steps@ == seq![SkeletonStep::RebuildBoundaryFromParams, SkeletonStep::RunPipeline],
        // Manual mode never throws the hand offsets of the boundary away.
        mode == GenerationMode::Manual ==> forall|i: int|
            0 <= i < plan.steps@.len() ==> (#[trigger] plan.steps@[i]) != SkeletonStep::RebuildBoundaryFromParams,
        // Hand-moved generators are kept: only the diagram is rebuilt over them.
        mode == GenerationMode::Manual && edit_mode == EditMode::Generators && event.user_edit
            ==> plan.steps@ == seq![SkeletonStep::RebuildVoronoi],
        mode == GenerationMode::Manual && edit_mode == EditMode::Generators && !event.user_edit
            ==> plan.steps@ == seq![SkeletonStep::PlaceGenerators, SkeletonStep::RebuildVoronoi],
        // Hand-moved circumcenters are kept as they are: nothing is rebuilt.
        mode == GenerationMode::Manual && edit_mode == EditMode::Circumcenters && event.user_edit
            ==> plan.steps@.len() == 0,
        mode == GenerationMode::Manual && edit_mode == EditMode::Circumcenters && !event.user_edit
            ==> plan.steps@ == seq![SkeletonStep::RebuildVoronoi],
        mode == GenerationMode::Manual && edit_mode == EditMode::Roads ==> plan.steps@ == seq![
            SkeletonStep::RunPipeline,
        ],
        // A boundary edit resets the hand offsets exactly when the boundary
        // vertex count changed, up or down.
        mode == GenerationMode::Manual && edit_mode == EditMode::Boundary ==> {
            &&& plan.steps@.len() >= 2
            &&& plan.steps@.last() == SkeletonStep::RunPipeline
            &&& (plan.steps@[0] == (SkeletonStep::ResetBoundaryOffsets { count: boundary_vertex_count })
                <==> boundary_len != boundary_vertex_count)
            &&& (boundary_len != boundary_vertex_count ==> plan.steps@.len() == 3)
            &&& (boundary_len == boundary_vertex_count ==> plan.steps@.len() == 2
                && plan.steps@[0] == SkeletonStep::RebuildBoundaryWithOffsets)
        },
{
    let seed_changed = current_seed != event.seed;
    let mut steps: Vec<SkeletonStep> = Vec::new();
    match mode {
        GenerationMode::Auto => {
            if seed_changed || event.rebuild_skeleton {
                steps.push(SkeletonStep::RebuildBoundaryFromParams);
                steps.push(SkeletonStep::RunPipeline);
            }
        },
        GenerationMode::Manual => {
            match edit_mode {
                EditMode::Generators => {
                    if !event.user_edit {
                        steps.push(SkeletonStep::PlaceGenerators);
                    }
                    steps.push(SkeletonStep::RebuildVoronoi);
                },
                EditMode::Circumcenters => {
                    if !event.user_edit {
                        steps.push(SkeletonStep::RebuildVoronoi);
                    }
                },
                EditMode::Roads => {
                    steps.push(SkeletonStep::RunPipeline);
                },
                EditMode::Boundary => {
                    if boundary_len != boundary_vertex_count {
                        steps.push(SkeletonStep::ResetBoundaryOffsets { count: boundary_vertex_count });
                    }
                    steps.push(SkeletonStep::RebuildBoundaryWithOffsets);
                    steps.push(SkeletonStep::RunPipeline);
                },
            }
        },
    }
    proof {
        assert(steps@ =~= planned_steps(
            seed_changed,
            *event,
            mode,
            edit_mode,
            boundary_len,
            boundary_vertex_count,
        ));
    }
    RegenerationPlan { seed: event.seed, steps }
}

/// In manual mode with the boundary as edit target, the plan starts by
/// resetting the hand offsets to `boundary_vertex_count` zero offsets exactly
/// when the current boundary length differs from that count, whether the count
/// went up or down; otherwise the stored offsets are reused as they are.
pub proof fn boundary_edit_resets_offsets_on_count_change(
    seed_changed: bool,
    event: RegenerateEvent,
    boundary_len: usize,
    boundary_vertex_count: usize,
)
    ensures
        ({
            let steps = planned_steps(
                seed_changed,
                event,
                GenerationMode::Manual,
                EditMode::Boundary,
                boundary_len,
                boundary_vertex_count,
            );
            &&& steps.len() > 0
            &&& (steps[0] == (SkeletonStep::ResetBoundaryOffsets { count: boundary_vertex_count })
                <==> boundary_len != boundary_vertex_count)
            &&& (boundary_len < boundary_vertex_count ==> steps[0]
                == (SkeletonStep::ResetBoundaryOffsets { count: boundary_vertex_count }))
            &&& (boundary_len > boundary_vertex_count ==> steps[0]
                == (SkeletonStep::ResetBoundaryOffsets { count: boundary_vertex_count }))
            &&& (forall|i: int| 1 <= i < steps.len() ==> !((#[trigger] steps[i]) is ResetBoundaryOffsets))
            &&& steps.last() == SkeletonStep::RunPipeline
        }),
{
}

} // verus!
