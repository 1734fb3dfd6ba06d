//! The Voronoi skeleton the town is grown from.
//!
//! Point types are parameters: the skeleton only moves points around and
//! reasons about the integer topology of its cells, never about coordinates.
use vstd::prelude::*;

verus! {

/// Generators, merged circumcenters, and the cells as index lists into the
/// circumcenters, together with the boundary polygon and its editing offsets.
pub struct SkeletonData<P, Q> {
    pub generator_points: Vec<P>,
    pub circumcenters: Vec<P>,
    pub cells: Vec<Vec<usize>>,
    pub road_path: Vec<P>,
    pub boundary: Vec<Q>,
    pub boundary_offsets: Vec<Q>,
}

/// A freshly built Voronoi diagram: merged circumcenters and the cells over them.
pub struct VoronoiResult<P> {
    pub circumcenters: Vec<P>,
    pub cells: Vec<Vec<usize>>,
}

/// Every cell has at least three corners, each naming one of `count` circumcenters.
pub open spec fn cells_well_formed(cells: Seq<Vec<usize>>, count: nat) -> bool {
    forall|c: int|
        0 <= c < cells.len() ==> {
            &&& (#[trigger] cells[c])@.len() >= 3
            &&& forall|t: int| 0 <= t < cells[c]@.len() ==> (#[trigger] cells[c]@[t]) < count
        }
}

/// The skeleton has something to build a town from and all its cells are well formed.
pub open spec fn skeleton_valid(circumcenter_count: nat, cells: Seq<Vec<usize>>) -> bool {
    &&& circumcenter_count > 0
    &&& cells.len() > 0
    &&& cells_well_formed(cells, circumcenter_count)
}

impl<P, Q> SkeletonData<P, Q> {
    /// The skeleton is valid (see [`skeleton_valid`]).
    pub open spec fn valid(&self) -> bool {
        skeleton_valid(self.circumcenters@.len(), self.cells@)
    }

    /// An empty skeleton around `boundary`, with one `zero` offset per boundary vertex.
    pub fn new_empty(boundary: Vec<Q>, zero: Q) -> (s: Self)
        where
            Q: Copy,
        ensures
            s.generator_points@.len() == 0,
            s.circumcenters@.len() == 0,
            s.cells@.len() == 0,
            s.road_path@.len() == 0,
            s.boundary@ == boundary@,
            s.boundary_offsets@ == Seq::new(boundary@.len(), |i: int| zero),
    {
        let len = boundary.len();
        let mut offsets: Vec<Q> = Vec::new();
        let mut i: usize = 0;
        while i < len
            invariant
                i <= len,
                offsets@ == Seq::new(i as nat, |k: int| zero),
            decreases len - i,
        {
            offsets.push(zero);
            i = i + 1;
            assert(offsets@ =~= Seq::new(i as nat, |k: int| zero));
        }
        SkeletonData {
            generator_points: Vec::new(),
            circumcenters: Vec::new(),
            cells: Vec::new(),
            road_path: Vec::new(),
            boundary,
            boundary_offsets: offsets,
        }
    }

    /// Number of boundary vertices.
    pub fn boundary_vertex_count(&self) -> (n: usize)
        ensures
            n == self.boundary@.len(),
    {
        self.boundary.len()
    }

    /// The boundary vertex at `idx`, if there is one.
    pub fn get_boundary_vertex(&self, idx: usize) -> (v: Option<Q>)
        where
            Q: Copy,
        ensures
            v == if idx < self.boundary@.len() {
                Some(self.boundary@[idx as int])
            } else {
                None
            },
    {
        if idx < self.boundary.len() {
            Some(self.boundary[idx])
        } else {
            None
        }
    }

    /// Moves the boundary vertex at `idx` to `pos`; an index past the end changes nothing.
    pub fn set_boundary_vertex(&mut self, idx: usize, pos: Q)
        ensures
            final(self).boundary@ == if idx < old(self).boundary@.len() {
                old(self).boundary@.update(idx as int, pos)
            } else {
                old(self).boundary@
            },
            final(self).generator_points == old(self).generator_points,
            final(self).circumcenters == old(self).circumcenters,
            final(self).cells == old(self).cells,
            final(self).road_path == old(self).road_path,
            final(self).boundary_offsets == old(self).boundary_offsets,
    {
        if idx < self.boundary.len() {
            self.boundary.set(idx, pos);
        }
    }

    /// Whether the skeleton can be turned into a town: it has circumcenters,
    /// it has cells, every cell has at least three corners, and every corner
    /// names an existing circumcenter.
    pub fn is_valid(&self) -> (r: bool)
        ensures
            r == self.valid(),
            r <==> {
                &&& self.circumcenters@.len() > 0
                &&& self.cells@.len() > 0
                &&& forall|c: int| 0 <= c < self.cells@.len() ==> (#[trigger] self.cells@[c])@.len() >= 3
                &&& forall|c: int, t: int|
                    0 <= c < self.cells@.len() && 0 <= t < self.cells@[c]@.len()
                        ==> (#[trigger] self.cells@[c]@[t]) < self.circumcenters@.len()
            },
            // A corner that names no circumcenter, at any position of any cell, refuses the skeleton.
            forall|c: int, t: int|
                0 <= c < self.cells@.len() && 0 <= t < self.cells@[c]@.len()
                    && (#[trigger] self.cells@[c]@[t]) >= self.circumcenters@.len() ==> !r,
    {
        if self.circumcenters.len() == 0 || self.cells.len() == 0 {
            return false;
        }
        let count = self.circumcenters.len();
        let mut c: usize = 0;
        while c < self.cells.len()
            invariant
                c <= self.cells@.len(),
                count == self.circumcenters@.len(),
                cells_well_formed(self.cells@.subrange(0, c as int), count as nat),
            decreases self.cells@.len() - c,
        {
            let cell = &self.cells[c];
            if cell.len() < 3 {
                proof {
                    assert(self.cells@[c as int]@.len() < 3);
                }
                return false;
            }
            let mut t: usize = 0;
            while t < cell.len()
                invariant
                    t <= cell@.len(),
                    c < self.cells@.len(),
                    *cell == self.cells@[c as int],
                    count == self.circumcenters@.len(),
                    forall|k: int| 0 <= k < t ==> #[trigger] cell@[k] < count,
                decreases cell@.len() - t,
            {
                if cell[t] >= count {
                    proof {
                        assert(self.cells@[c as int]@[t as int] >= count);
                    }
                    return false;
                }
                t = t + 1;
            }
            proof {
                let sub = self.cells@.subrange(0, c + 1);
                assert forall|d: int| 0 <= d < sub.len() implies {
                    &&& (#[trigger] sub[d])@.len() >= 3
                    &&& forall|k: int| 0 <= k < sub[d]@.len() ==> (#[trigger] sub[d]@[k]) < count
                } by {
                    if d < c {
                        assert(sub[d] == self.cells@.subrange(0, c as int)[d]);
                    }
                }
            }
            c = c + 1;
        }
        proof {
            assert(self.cells@.subrange(0, self.cells@.len() as int) =~= self.cells@);
        }
        true
    }

    /// Whether there is anything to build a town from: some circumcenter and some cell.
    pub fn has_town_data(&self) -> (r: bool)
        ensures
            r == (self.circumcenters@.len() > 0 && self.cells@.len() > 0),
    {
        self.circumcenters.len() > 0 && self.cells.len() > 0
    }
}

/// Installs a new set of generators and the Voronoi diagram built from them,
/// keeping the boundary, its offsets and the road path.
pub fn apply_voronoi_to_skeleton<P, Q>(
    skeleton: &mut SkeletonData<P, Q>,
    generators: Vec<P>,
    result: VoronoiResult<P>,
)
    ensures
        final(skeleton).generator_points@ == generators@,
        final(skeleton).circumcenters@ == result.circumcenters@,
        final(skeleton).cells@ == result.cells@,
        final(skeleton).road_path == old(skeleton).road_path,
        final(skeleton).boundary == old(skeleton).boundary,
        final(skeleton).boundary_offsets == old(skeleton).boundary_offsets,
{
    skeleton.generator_points = generators;
    skeleton.circumcenters = result.circumcenters;
    skeleton.cells = result.cells;
}

/// Moves each boundary vertex by its hand offset: vertex `i` becomes
/// `shift(base[i], offsets[i])` for every `i` both lists have; vertices without
/// an offset stay where they are and offsets past the end are ignored.
pub fn add_offsets<Q: Copy, F: Fn(Q, Q) -> Q>(base: Vec<Q>, offsets: &Vec<Q>, shift: F) -> (moved: Vec<Q>)
    requires
        forall|a: Q, b: Q| #[trigger] shift.requires((a, b)),
    ensures
        moved@.len() == base@.len(),
        forall|i: int|
            0 <= i < base@.len() && i < offsets@.len() ==> #[trigger] shift.ensures(
                (base@[i], offsets@[i]),
                moved@[i],
            ),
        forall|i: int| offsets@.len() <= i < base@.len() ==> #[trigger] moved@[i] == base@[i],
{
    let mut moved = base;
    let ghost unmoved = moved@;
    let mut i: usize = 0;
    while i < offsets.len()
        invariant
            i <= offsets@.len(),
            moved@.len() == unmoved.len(),
            forall|a: Q, b: Q| #[trigger] shift.requires((a, b)),
            forall|k: int|
                0 <= k < i && k < unmoved.len() ==> #[trigger] shift.ensures(
                    (unmoved[k], offsets@[k]),
                    moved@[k],
                ),
            forall|k: int| i <= k < unmoved.len() ==> #[trigger] moved@[k] == unmoved[k],
        decreases offsets@.len() - i,
    {
        if i < moved.len() {
            let v = shift(moved[i], offsets[i]);
            moved.set(i, v);
        }
        i = i + 1;
    }
    moved
}

} // verus!
