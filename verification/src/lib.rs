//! Verified core of a procedural city generator: the combinatorial and
//! bookkeeping logic behind the Voronoi skeleton, the mesh index buffers,
//! the OBJ export and the regeneration decisions.

pub mod types;
pub mod merge;
pub mod cells;
pub mod skeleton;
pub mod mesh;
pub mod decimal;
pub mod obj;
pub mod obj_lines;
pub mod panel;
pub mod town;
pub mod regeneration;
pub mod split;
