//! Triangle index buffers of the generated meshes.
//!
//! The vertex positions are laid out by the caller in the order documented on
//! each function; these functions produce the matching triangle lists.
use vstd::prelude::*;

verus! {

/// Corner `r` of fan triangle `i` of a flat footprint with `n` outline vertices.
/// Vertex 0 is the centre, vertices `1..=n` the outline.
pub open spec fn footprint_corner(n: int, i: int, r: int) -> int {
    if r == 0 {
        0
    } else if r == 1 {
        1 + (i + 1) % n
    } else {
        1 + i
    }
}

/// Vertices in a footprint mesh with `n` outline vertices (none below three).
pub open spec fn footprint_vertex_count(n: nat) -> nat {
    if n < 3 {
        0
    } else {
        n + 1
    }
}

/// Triangle indices of a flat footprint: a fan around the centre vertex 0 over
/// the outline vertices `1..=n`. Outlines with fewer than three vertices give
/// an empty mesh.
pub fn footprint_indices(n: usize) -> (idx: Vec<u32>)
    requires
        n < u32::MAX,
    ensures
        n < 3 ==> idx@.len() == 0,
        n >= 3 ==> idx@.len() == 3 * n,
        n >= 3 ==> forall|i: int, r: int|
            0 <= i < n && 0 <= r < 3 ==> #[trigger] idx@[3 * i + r] == footprint_corner(
                n as int,
                i,
                r,
            ),
        forall|k: int| 0 <= k < idx@.len() ==> #[trigger] idx@[k] < footprint_vertex_count(n as nat),
        // Each fan triangle joins the centre 0 to two neighbouring outline vertices.
        n >= 3 ==> forall|i: int|
            0 <= i < n ==> {
                &&& #[trigger] idx@[3 * i] == 0
                &&& idx@[3 * i + 1] == 1 + (i + 1) % (n as int)
                &&& idx@[3 * i + 2] == 1 + i
            },
        forall|k: int| 0 <= k < idx@.len() ==> #[trigger] idx@[k] <= n,
{
    let mut idx: Vec<u32> = Vec::new();
    if n < 3 {
        return idx;
    }
    let m = n as u32;
    let mut i: u32 = 0;
    while i < m
        invariant
            m == n,
            3 <= n < u32::MAX,
            i <= m,
            idx@.len() == 3 * i,
            forall|j: int, r: int|
                0 <= j < i && 0 <= r < 3 ==> #[trigger] idx@[3 * j + r] == footprint_corner(
                    n as int,
                    j,
                    r,
                ),
            forall|k: int| 0 <= k < idx@.len() ==> #[trigger] idx@[k] < n + 1,
        decreases m - i,
    {
        let curr = 1 + i;
        let next = 1 + (i + 1) % m;
        let ghost before = idx@;
        idx.push(0);
        idx.push(next);
        idx.push(curr);
        proof {
            assert forall|j: int, r: int| 0 <= j < i + 1 && 0 <= r < 3 implies #[trigger] idx@[3
                * j + r] == footprint_corner(n as int, j, r) by {
                if j < i {
                    assert(idx@[3 * j + r] == before[3 * j + r]);
                }
            }
        }
        i = i + 1;
    }
    proof {
        assert forall|i: int| 0 <= i < n implies {
            &&& #[trigger] idx@[3 * i] == 0
            &&& idx@[3 * i + 1] == 1 + (i + 1) % (n as int)
            &&& idx@[3 * i + 2] == 1 + i
        } by {
            assert(idx@[3 * i + 0] == footprint_corner(n as int, i, 0));
            assert(idx@[3 * i + 1] == footprint_corner(n as int, i, 1));
            assert(idx@[3 * i + 2] == footprint_corner(n as int, i, 2));
        }
    }
    idx
}

/// Corner `r` of the two wall triangles of edge `i` (each wall is four
/// vertices starting at `4 * i`: bottom start, bottom end, top start, top end).
pub open spec fn wall_corner(i: int, r: int) -> int {
    let b = 4 * i;
    if r == 0 {
        b
    } else if r == 1 {
        b + 2
    } else if r == 2 {
        b + 1
    } else if r == 3 {
        b + 1
    } else if r == 4 {
        b + 2
    } else {
        b + 3
    }
}

/// Corner `r` of the floor fan triangle `i`: centre `4n`, outline `4n + 1 ..`.
pub open spec fn floor_corner(n: int, i: int, r: int) -> int {
    let c = 4 * n;
    if r == 0 {
        c
    } else if r == 1 {
        c + 1 + i
    } else {
        c + 1 + (i + 1) % n
    }
}

/// Corner `r` of the roof fan triangle `i`: centre `5n + 1`, outline after it.
pub open spec fn roof_corner(n: int, i: int, r: int) -> int {
    let c = 5 * n + 1;
    if r == 0 {
        c
    } else if r == 1 {
        c + 1 + (i + 1) % n
    } else {
        c + 1 + i
    }
}

/// Vertices in an extruded building with `n` outline vertices (none below three).
pub open spec fn building_vertex_count(n: nat) -> nat {
    if n < 3 {
        0
    } else {
        6 * n + 2
    }
}

/// Triangle indices of an extruded building over an outline of `n` vertices:
/// two triangles per wall, then a fan for the floor and a fan for the roof.
/// Outlines with fewer than three vertices give an empty mesh.
pub fn building_indices(n: usize) -> (idx: Vec<u32>)
    requires
        6 * n + 2 <= u32::MAX,
    ensures
        n < 3 ==> idx@.len() == 0,
        n >= 3 ==> idx@.len() == 12 * n,
        n >= 3 ==> forall|i: int, r: int|
            0 <= i < n && 0 <= r < 6 ==> #[trigger] idx@[6 * i + r] == wall_corner(i, r),
        n >= 3 ==> forall|i: int, r: int|
            0 <= i < n && 0 <= r < 3 ==> #[trigger] idx@[6 * n + 3 * i + r] == floor_corner(
                n as int,
                i,
                r,
            ),
        n >= 3 ==> forall|i: int, r: int|
            0 <= i < n && 0 <= r < 3 ==> #[trigger] idx@[9 * n + 3 * i + r] == roof_corner(
                n as int,
                i,
                r,
            ),
        forall|k: int| 0 <= k < idx@.len() ==> #[trigger] idx@[k] < building_vertex_count(n as nat),
        // The vertex layout: walls `0 .. 4n`, floor centre `4n` and floor ring
        // `4n + 1 ..= 5n`, roof centre `5n + 1` and roof ring `5n + 2 ..= 6n + 1`.
        n >= 3 ==> forall|k: int| 0 <= k < 6 * n ==> (#[trigger] idx@[k]) < 4 * n,
        // The two triangles of wall `i` stay on its own four vertices and share
        // the diagonal from bottom end to top start.
        n >= 3 ==> forall|i: int|
            0 <= i < n ==> {
                &&& #[trigger] idx@[6 * i] == 4 * i
                &&& idx@[6 * i + 1] == 4 * i + 2
                &&& idx@[6 * i + 2] == 4 * i + 1
                &&& idx@[6 * i + 3] == 4 * i + 1
                &&& idx@[6 * i + 4] == 4 * i + 2
                &&& idx@[6 * i + 5] == 4 * i + 3
            },
        n >= 3 ==> forall|k: int|
            6 * n <= k < 9 * n ==> 4 * n <= (#[trigger] idx@[k]) < 5 * n + 1,
        n >= 3 ==> forall|k: int|
            9 * n <= k < 12 * n ==> 5 * n + 1 <= (#[trigger] idx@[k]) < 6 * n + 2,
        n >= 3 ==> forall|i: int|
            0 <= i < n ==> {
                &&& #[trigger] idx@[6 * n + 3 * i] == 4 * n
                &&& idx@[6 * n + 3 * i + 1] == 4 * n + 1 + i
                &&& idx@[6 * n + 3 * i + 2] == 4 * n + 1 + (i + 1) % (n as int)
            },
        n >= 3 ==> forall|i: int|
            0 <= i < n ==> {
                &&& #[trigger] idx@[9 * n + 3 * i] == 5 * n + 1
                &&& idx@[9 * n + 3 * i + 1] == 5 * n + 2 + (i + 1) % (n as int)
                &&& idx@[9 * n + 3 * i + 2] == 5 * n + 2 + i
            },
{
    let mut idx: Vec<u32> = Vec::new();
    if n < 3 {
        return idx;
    }
    let m = n as u32;
    let mut i: u32 = 0;
    while i < m
        invariant
            m == n,
            3 <= n,
            6 * n + 2 <= u32::MAX,
            i <= m,
            idx@.len() == 6 * i,
            forall|j: int, r: int|
                0 <= j < i && 0 <= r < 6 ==> #[trigger] idx@[6 * j + r] == wall_corner(j, r),
            forall|k: int| 0 <= k < idx@.len() ==> #[trigger] idx@[k] < 6 * n + 2,
        decreases m - i,
    {
        let base = 4 * i;
        let ghost before = idx@;
        idx.push(base);
        idx.push(base + 2);
        idx.push(base + 1);
        idx.push(base + 1);
        idx.push(base + 2);
        idx.push(base + 3);
        proof {
            assert forall|j: int, r: int| 0 <= j < i + 1 && 0 <= r < 6 implies #[trigger] idx@[6
                * j + r] == wall_corner(j, r) by {
                if j < i {
                    assert(idx@[6 * j + r] == before[6 * j + r]);
                }
            }
        }
        i = i + 1;
    }
    let floor = 4 * m;
    let ghost walls = idx@;
    i = 0;
    while i < m
        invariant
            m == n,
            3 <= n,
            6 * n + 2 <= u32::MAX,
            floor == 4 * n,
            i <= m,
            walls.len() == 6 * n,
            idx@.len() == 6 * n + 3 * i,
            idx@.subrange(0, 6 * n) == walls,
            forall|j: int, r: int|
                0 <= j < i && 0 <= r < 3 ==> #[trigger] idx@[6 * n + 3 * j + r] == floor_corner(
                    n as int,
                    j,
                    r,
                ),
            forall|k: int| 0 <= k < idx@.len() ==> #[trigger] idx@[k] < 6 * n + 2,
        decreases m - i,
    {
        let ghost before = idx@;
        idx.push(floor);
        idx.push(floor + 1 + i);
        idx.push(floor + 1 + (i + 1) % m);
        proof {
            assert(idx@.subrange(0, 6 * n) =~= before.subrange(0, 6 * n));
            assert forall|j: int, r: int| 0 <= j < i + 1 && 0 <= r < 3 implies #[trigger] idx@[6
                * n + 3 * j + r] == floor_corner(n as int, j, r) by {
                if j < i {
                    assert(idx@[6 * n + 3 * j + r] == before[6 * n + 3 * j + r]);
                }
            }
        }
        i = i + 1;
    }
    let roof = floor + 1 + m;
    let ghost lower = idx@;
    i = 0;
    while i < m
        invariant
            m == n,
            3 <= n,
            6 * n + 2 <= u32::MAX,
            roof == 5 * n + 1,
            i <= m,
            lower.len() == 9 * n,
            idx@.len() == 9 * n + 3 * i,
            idx@.subrange(0, 9 * n) == lower,
            forall|j: int, r: int|
                0 <= j < i && 0 <= r < 3 ==> #[trigger] idx@[9 * n + 3 * j + r] == roof_corner(
                    n as int,
                    j,
                    r,
                ),
            forall|k: int| 0 <= k < idx@.len() ==> #[trigger] idx@[k] < 6 * n + 2,
        decreases m - i,
    {
        let ghost before = idx@;
        idx.push(roof);
        idx.push(roof + 1 + (i + 1) % m);
        idx.push(roof + 1 + i);
        proof {
            assert(idx@.subrange(0, 9 * n) =~= before.subrange(0, 9 * n));
            assert forall|j: int, r: int| 0 <= j < i + 1 && 0 <= r < 3 implies #[trigger] idx@[9
                * n + 3 * j + r] == roof_corner(n as int, j, r) by {
                if j < i {
                    assert(idx@[9 * n + 3 * j + r] == before[9 * n + 3 * j + r]);
                }
            }
        }
        i = i + 1;
    }
    proof {
        assert forall|i: int, r: int| 0 <= i < n && 0 <= r < 6 implies #[trigger] idx@[6 * i + r]
            == wall_corner(i, r) by {
            assert(idx@[6 * i + r] == lower[6 * i + r]);
            assert(lower[6 * i + r] == walls[6 * i + r]);
        }
        assert forall|i: int, r: int| 0 <= i < n && 0 <= r < 3 implies #[trigger] idx@[6 * n + 3
            * i + r] == floor_corner(n as int, i, r) by {
            assert(idx@[6 * n + 3 * i + r] == lower[6 * n + 3 * i + r]);
        }
        assert forall|i: int| 0 <= i < n implies {
            &&& #[trigger] idx@[6 * n + 3 * i] == 4 * n
            &&& idx@[6 * n + 3 * i + 1] == 4 * n + 1 + i
            &&& idx@[6 * n + 3 * i + 2] == 4 * n + 1 + (i + 1) % (n as int)
        } by {
            assert(idx@[6 * n + 3 * i + 0] == floor_corner(n as int, i, 0));
            assert(idx@[6 * n + 3 * i + 1] == floor_corner(n as int, i, 1));
            assert(idx@[6 * n + 3 * i + 2] == floor_corner(n as int, i, 2));
        }
        assert forall|i: int| 0 <= i < n implies {
            &&& #[trigger] idx@[9 * n + 3 * i] == 5 * n + 1
            &&& idx@[9 * n + 3 * i + 1] == 5 * n + 2 + (i + 1) % (n as int)
            &&& idx@[9 * n + 3 * i + 2] == 5 * n + 2 + i
        } by {
            assert(idx@[9 * n + 3 * i + 0] == roof_corner(n as int, i, 0));
            assert(idx@[9 * n + 3 * i + 1] == roof_corner(n as int, i, 1));
            assert(idx@[9 * n + 3 * i + 2] == roof_corner(n as int, i, 2));
        }
        assert forall|i: int| 0 <= i < n implies {
            &&& #[trigger] idx@[6 * i] == 4 * i
            &&& idx@[6 * i + 1] == 4 * i + 2
            &&& idx@[6 * i + 2] == 4 * i + 1
            &&& idx@[6 * i + 3] == 4 * i + 1
            &&& idx@[6 * i + 4] == 4 * i + 2
            &&& idx@[6 * i + 5] == 4 * i + 3
        } by {
            assert(idx@[6 * i + 0] == wall_corner(i, 0));
            assert(idx@[6 * i + 1] == wall_corner(i, 1));
            assert(idx@[6 * i + 2] == wall_corner(i, 2));
            assert(idx@[6 * i + 3] == wall_corner(i, 3));
            assert(idx@[6 * i + 4] == wall_corner(i, 4));
            assert(idx@[6 * i + 5] == wall_corner(i, 5));
        }
        assert forall|k: int| 0 <= k < 6 * n implies (#[trigger] idx@[k]) < 4 * n by {
            let i = k / 6;
            let r = k % 6;
            assert(k == 6 * i + r && 0 <= i < n && 0 <= r < 6) by (nonlinear_arith)
                requires 0 <= k < 6 * n, i == k / 6, r == k % 6;
            assert(idx@[6 * i + r] == wall_corner(i, r));
            assert(4 * i + 3 < 4 * n) by (nonlinear_arith) requires 0 <= i < n;
        }
        assert forall|k: int| 6 * n <= k < 9 * n implies 4 * n <= (#[trigger] idx@[k]) < 5 * n
            + 1 by {
            let i = (k - 6 * n) / 3;
            let r = (k - 6 * n) % 3;
            assert(k == 6 * n + 3 * i + r && 0 <= i < n && 0 <= r < 3) by (nonlinear_arith)
                requires 6 * n <= k < 9 * n, i == (k - 6 * n) / 3, r == (k - 6 * n) % 3;
            assert(idx@[6 * n + 3 * i + r] == floor_corner(n as int, i, r));
            assert(0 <= (i + 1) % (n as int) < n);
        }
        assert forall|k: int| 9 * n <= k < 12 * n implies 5 * n + 1 <= (#[trigger] idx@[k]) < 6
            * n + 2 by {
            let i = (k - 9 * n) / 3;
            let r = (k - 9 * n) % 3;
            assert(k == 9 * n + 3 * i + r && 0 <= i < n && 0 <= r < 3) by (nonlinear_arith)
                requires 9 * n <= k < 12 * n, i == (k - 9 * n) / 3, r == (k - 9 * n) % 3;
            assert(idx@[9 * n + 3 * i + r] == roof_corner(n as int, i, r));
            assert(0 <= (i + 1) % (n as int) < n);
        }
    }
    idx
}

/// Corner `r` of the two road-quad triangles of segment `k` (vertices `4k .. 4k + 3`).
pub open spec fn road_corner(k: int, r: int) -> int {
    let b = 4 * k;
    if r == 0 || r == 3 {
        b
    } else if r == 1 {
        b + 1
    } else if r == 2 || r == 4 {
        b + 2
    } else {
        b + 3
    }
}

/// Corner `r` of the two sidewalk triangles of segment `k` (vertices `4k .. 4k + 3`).
pub open spec fn sidewalk_corner(k: int, r: int) -> int {
    let b = 4 * k;
    if r == 0 || r == 3 {
        b
    } else if r == 1 || r == 4 {
        b + 1
    } else if r == 2 {
        b + 2
    } else {
        b + 3
    }
}

/// Triangle indices of the road strips (`sidewalk == false`) or of the
/// sidewalk strips (`sidewalk == true`) of `segments` road segments, each a
/// quad of four vertices.
pub fn road_indices(segments: usize, sidewalk: bool) -> (idx: Vec<u32>)
    requires
        4 * segments <= u32::MAX,
    ensures
        idx@.len() == 6 * segments,
        forall|k: int, r: int|
            0 <= k < segments && 0 <= r < 6 ==> #[trigger] idx@[6 * k + r] == if sidewalk {
                sidewalk_corner(k, r)
            } else {
                road_corner(k, r)
            },
        forall|j: int| 0 <= j < idx@.len() ==> #[trigger] idx@[j] < 4 * segments,
        // Both triangles of segment `k` stay on its own four vertices.
        forall|k: int, r: int|
            0 <= k < segments && 0 <= r < 6 ==> 4 * k <= (#[trigger] idx@[6 * k + r]) < 4 * k + 4,
{
    let mut idx: Vec<u32> = Vec::new();
    let m = segments as u32;
    let mut k: u32 = 0;
    while k < m
        invariant
            m == segments,
            4 * segments <= u32::MAX,
            k <= m,
            idx@.len() == 6 * k,
            forall|j: int, r: int|
                0 <= j < k && 0 <= r < 6 ==> #[trigger] idx@[6 * j + r] == if sidewalk {
                    sidewalk_corner(j, r)
                } else {
                    road_corner(j, r)
                },
            forall|j: int| 0 <= j < idx@.len() ==> #[trigger] idx@[j] < 4 * segments,
        decreases m - k,
    {
        let base = 4 * k;
        let ghost before = idx@;
        idx.push(base);
        idx.push(base + 1);
        idx.push(base + 2);
        idx.push(base);
        if sidewalk {
            idx.push(base + 1);
        } else {
            idx.push(base + 2);
        }
        idx.push(base + 3);
        proof {
            assert forall|j: int, r: int| 0 <= j < k + 1 && 0 <= r < 6 implies #[trigger] idx@[6
                * j + r] == if sidewalk {
                sidewalk_corner(j, r)
            } else {
                road_corner(j, r)
            } by {
                if j < k {
                    assert(idx@[6 * j + r] == before[6 * j + r]);
                }
            }
        }
        k = k + 1;
    }
    idx
}

} // verus!
