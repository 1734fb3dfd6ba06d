//! Assembling Voronoi cells from a Delaunay triangulation.
//!
//! The triangulation itself is computed by the caller. Here each triangular
//! face is given by the indices of its three vertices, each generator by the
//! triangulation vertex it was inserted as, and each face by the merged
//! circumcenter it was mapped to. A generator's cell lists the merged
//! circumcenters of the faces around it, in face order, without repeats.
use vstd::prelude::*;

use crate::merge::groups_match;
use crate::skeleton::{cells_well_formed, skeleton_valid};

verus! {

/// Face `f` has the triangulation vertex `v` as one of its corners.
pub open spec fn face_touches(faces: Seq<(usize, usize, usize)>, f: int, v: Option<usize>) -> bool {
    match v {
        Some(x) => faces[f].0 == x || faces[f].1 == x || faces[f].2 == x,
        None => false,
    }
}

/// The circumcenters collected for a generator inserted as `v`, after the first `nf` faces.
pub open spec fn cell_list(
    faces: Seq<(usize, usize, usize)>,
    mapping: Seq<usize>,
    v: Option<usize>,
    nf: int,
) -> Seq<usize>
    decreases nf,
{
    if nf <= 0 {
        seq![]
    } else {
        let prev = cell_list(faces, mapping, v, nf - 1);
        let f = nf - 1;
        if f < mapping.len() && face_touches(faces, f, v) && !prev.contains(mapping[f]) {
            prev.push(mapping[f])
        } else {
            prev
        }
    }
}

/// Whether `x` occurs in `v`.
pub fn contains_index(v: &Vec<usize>, x: usize) -> (r: bool)
    ensures
        r == v@.contains(x),
{
    let mut i: usize = 0;
    while i < v.len()
        invariant
            i <= v@.len(),
            forall|k: int| 0 <= k < i ==> v@[k] != x,
        decreases v@.len() - i,
    {
        if v[i] == x {
            assert(v@[i as int] == x);
            return true;
        }
        i = i + 1;
    }
    false
}

/// For every generator, the merged circumcenters of the faces around it.
///
/// `faces[f]` holds the vertex indices of face `f`, `mapping[f]` the merged
/// circumcenter of face `f` (faces without an entry are skipped), and
/// `generator_vertex[g]` the triangulation vertex of generator `g`, or `None`
/// when the generator could not be inserted.
pub fn collect_cell_lists(
    faces: &Vec<(usize, usize, usize)>,
    mapping: &Vec<usize>,
    generator_vertex: &Vec<Option<usize>>,
) -> (lists: Vec<Vec<usize>>)
    ensures
        lists@.len() == generator_vertex@.len(),
        forall|g: int|
            0 <= g < lists@.len() ==> (#[trigger] lists@[g])@ == cell_list(
                faces@,
                mapping@,
                generator_vertex@[g],
                faces@.len() as int,
            ),
        // Every face with the generator's vertex as a corner, and a merged
        // circumcenter, puts that circumcenter in the generator's list.
        forall|g: int, f: int|
            0 <= g < lists@.len() && 0 <= f < faces@.len() && f < mapping@.len() && (
            generator_vertex@[g] == Some(faces@[f].0) || generator_vertex@[g] == Some(faces@[f].1)
                || generator_vertex@[g] == Some(faces@[f].2)) ==> (#[trigger] lists@[g])@.contains(
                #[trigger] mapping@[f],
            ),
        // Every entry of a list is the merged circumcenter of such a face.
        forall|g: int, t: int|
            0 <= g < lists@.len() && 0 <= t < lists@[g]@.len() ==> exists|f: int|
                0 <= f < faces@.len() && f < mapping@.len() && (generator_vertex@[g] == Some(
                    faces@[f].0,
                ) || generator_vertex@[g] == Some(faces@[f].1) || generator_vertex@[g] == Some(
                    faces@[f].2,
                )) && #[trigger] lists@[g]@[t] == mapping@[f],
        // No circumcenter is listed twice for one generator.
        forall|g: int| 0 <= g < lists@.len() ==> (#[trigger] lists@[g])@.no_duplicates(),
        // Entries come in face order: a face that gives a later entry comes
        // after some face that gives an earlier one.
        forall|g: int, a: int, b: int, f2: int|
            #![trigger lists@[g]@[a], lists@[g]@[b], mapping@[f2]]
            0 <= g < lists@.len() && 0 <= a < b < lists@[g]@.len() && 0 <= f2 < faces@.len() && f2
                < mapping@.len() && face_touches(faces@, f2, generator_vertex@[g]) && mapping@[f2]
                == lists@[g]@[b] ==> given_by_earlier_face(
                faces@,
                mapping@,
                generator_vertex@[g],
                lists@[g]@[a],
                f2,
            ),
{
    let ng = generator_vertex.len();
    let mut lists: Vec<Vec<usize>> = Vec::new();
    let mut g: usize = 0;
    while g < ng
        invariant
            g <= ng,
            ng == generator_vertex@.len(),
            lists@.len() == g,
            forall|h: int| 0 <= h < g ==> (#[trigger] lists@[h])@ == Seq::<usize>::empty(),
        decreases ng - g,
    {
        lists.push(Vec::new());
        g = g + 1;
    }
    let mut f: usize = 0;
    while f < faces.len()
        invariant
            f <= faces@.len(),
            ng == generator_vertex@.len(),
            lists@.len() == ng,
            forall|h: int|
                0 <= h < ng ==> (#[trigger] lists@[h])@ == cell_list(
                    faces@,
                    mapping@,
                    generator_vertex@[h],
                    f as int,
                ),
        decreases faces@.len() - f,
    {
        if f < mapping.len() {
            let new_idx = mapping[f];
            let (a, b, c) = faces[f];
            let mut h: usize = 0;
            while h < ng
                invariant
                    f < faces@.len(),
                    f < mapping@.len(),
                    new_idx == mapping@[f as int],
                    (a, b, c) == faces@[f as int],
                    h <= ng,
                    ng == generator_vertex@.len(),
                    lists@.len() == ng,
                    forall|k: int|
                        0 <= k < ng ==> (#[trigger] lists@[k])@ == cell_list(
                            faces@,
                            mapping@,
                            generator_vertex@[k],
                            if k < h {
                                f + 1
                            } else {
                                f as int
                            },
                        ),
                decreases ng - h,
            {
                let touches = match generator_vertex[h] {
                    Some(x) => a == x || b == x || c == x,
                    None => false,
                };
                proof {
                    assert(touches == face_touches(faces@, f as int, generator_vertex@[h as int]));
                }
                if touches && !contains_index(&lists[h], new_idx) {
                    let mut cell: Vec<usize> = Vec::new();
                    std::mem::swap(&mut cell, &mut lists[h]);
                    cell.push(new_idx);
                    lists.set(h, cell);
                }
                h = h + 1;
            }
        } else {
            proof {
                assert forall|k: int| 0 <= k < ng implies (#[trigger] lists@[k])@ == cell_list(
                    faces@,
                    mapping@,
                    generator_vertex@[k],
                    f + 1,
                ) by {}
            }
        }
        f = f + 1;
    }
    proof {
        let nf = faces@.len() as int;
        assert forall|g: int| 0 <= g < lists@.len() implies (#[trigger] lists@[g])@.no_duplicates() by {
            cell_list_has_no_repeats(faces@, mapping@, generator_vertex@[g], nf);
        }
        assert forall|g: int, f: int|
            0 <= g < lists@.len() && 0 <= f < faces@.len() && f < mapping@.len() && (
            generator_vertex@[g] == Some(faces@[f].0) || generator_vertex@[g] == Some(faces@[f].1)
                || generator_vertex@[g] == Some(faces@[f].2)) implies (#[trigger] lists@[g])@.contains(
            #[trigger] mapping@[f],
        ) by {
            cell_list_holds_every_touching_face(faces@, mapping@, generator_vertex@[g], nf);
            assert(face_touches(faces@, f, generator_vertex@[g]));
        }
        assert forall|g: int, t: int| 0 <= g < lists@.len() && 0 <= t < lists@[g]@.len() implies exists|f: int|
            0 <= f < faces@.len() && f < mapping@.len() && (generator_vertex@[g] == Some(faces@[f].0)
                || generator_vertex@[g] == Some(faces@[f].1) || generator_vertex@[g] == Some(
                faces@[f].2,
            )) && #[trigger] lists@[g]@[t] == mapping@[f] by {
            cell_list_entries_come_from_faces(faces@, mapping@, generator_vertex@[g], nf);
            let f = choose|f: int|
                0 <= f < nf && f < mapping@.len() && face_touches(faces@, f, generator_vertex@[g])
                    && #[trigger] cell_list(faces@, mapping@, generator_vertex@[g], nf)[t] == mapping@[f];
            assert(face_touches(faces@, f, generator_vertex@[g]));
        }
        assert forall|g: int, a: int, b: int, f2: int|
            #![trigger lists@[g]@[a], lists@[g]@[b], mapping@[f2]]
            0 <= g < lists@.len() && 0 <= a < b < lists@[g]@.len() && 0 <= f2 < faces@.len() && f2
                < mapping@.len() && face_touches(faces@, f2, generator_vertex@[g]) && mapping@[f2]
                == lists@[g]@[b] implies given_by_earlier_face(
            faces@,
            mapping@,
            generator_vertex@[g],
            lists@[g]@[a],
            f2,
        ) by {
            cell_list_is_in_face_order(faces@, mapping@, generator_vertex@[g], nf);
        }
    }
    lists
}

/// The faces among the first `k` that have vertex `v` as a corner, in order.
pub open spec fn faces_around(faces: Seq<(usize, usize, usize)>, v: Option<usize>, k: int) -> Seq<usize>
    decreases k,
{
    if k <= 0 {
        seq![]
    } else if face_touches(faces, k - 1, v) {
        faces_around(faces, v, k - 1).push((k - 1) as usize)
    } else {
        faces_around(faces, v, k - 1)
    }
}

/// The faces around triangulation vertex `v`, in face order; none when the
/// point never made it into the triangulation.
pub fn faces_around_vertex(faces: &Vec<(usize, usize, usize)>, v: Option<usize>) -> (res: Vec<usize>)
    ensures
        res@ == faces_around(faces@, v, faces@.len() as int),
        // Exactly the faces with `v` as a corner, each once, in increasing order.
        forall|i: int|
            0 <= i < res@.len() ==> {
                &&& #[trigger] res@[i] < faces@.len()
                &&& (v == Some(faces@[res@[i] as int].0) || v == Some(faces@[res@[i] as int].1) || v
                    == Some(faces@[res@[i] as int].2))
            },
        forall|f: int|
            0 <= f < faces@.len() && (v == Some(faces@[f].0) || v == Some(faces@[f].1) || v == Some(
                faces@[f].2,
            )) ==> res@.contains(f as usize),
        forall|a: int, b: int| 0 <= a < b < res@.len() ==> res@[a] < res@[b],
{
    let mut res: Vec<usize> = Vec::new();
    let mut f: usize = 0;
    while f < faces.len()
        invariant
            f <= faces@.len(),
            res@ == faces_around(faces@, v, f as int),
        decreases faces@.len() - f,
    {
        let (a, b, c) = faces[f];
        let touches = match v {
            Some(x) => a == x || b == x || c == x,
            None => false,
        };
        if touches {
            res.push(f);
        }
        f = f + 1;
    }
    proof {
        faces_around_are_the_touching_faces(faces@, v, faces@.len() as int);
        assert forall|f: int|
            0 <= f < faces@.len() && (v == Some(faces@[f].0) || v == Some(faces@[f].1) || v == Some(
                faces@[f].2,
            )) implies res@.contains(f as usize) by {
            assert(face_touches(faces@, f, v));
        }
    }
    res
}

/// The faces listed around `v` among the first `k` are exactly those with `v`
/// as a corner, each once, in increasing order.
pub proof fn faces_around_are_the_touching_faces(
    faces: Seq<(usize, usize, usize)>,
    v: Option<usize>,
    k: int,
)
    requires
        k <= usize::MAX,
    ensures
        forall|i: int|
            0 <= i < faces_around(faces, v, k).len() ==> {
                &&& 0 <= #[trigger] faces_around(faces, v, k)[i] < k
                &&& face_touches(faces, faces_around(faces, v, k)[i] as int, v)
            },
        forall|f: int|
            0 <= f < k && face_touches(faces, f, v) ==> faces_around(faces, v, k).contains(
                f as usize,
            ),
        forall|a: int, b: int|
            0 <= a < b < faces_around(faces, v, k).len() ==> faces_around(faces, v, k)[a]
                < faces_around(faces, v, k)[b],
    decreases k,
{
    if k > 0 {
        faces_around_are_the_touching_faces(faces, v, k - 1);
        let prev = faces_around(faces, v, k - 1);
        let cur = faces_around(faces, v, k);
        assert forall|i: int| 0 <= i < cur.len() implies {
            &&& 0 <= #[trigger] cur[i] < k
            &&& face_touches(faces, cur[i] as int, v)
        } by {
            if i < prev.len() {
                assert(cur[i] == prev[i]);
            }
        }
        assert forall|f: int| 0 <= f < k && face_touches(faces, f, v) implies cur.contains(
            f as usize,
        ) by {
            if f < k - 1 {
                let t = choose|t: int| 0 <= t < prev.len() && prev[t] == f as usize;
                assert(cur[t] == prev[t]);
            } else {
                assert(cur[prev.len() as int] == f as usize);
            }
        }
        assert forall|a: int, b: int| 0 <= a < b < cur.len() implies cur[a] < cur[b] by {
            assert(cur[a] == prev[a]);
            if b < prev.len() {
                assert(cur[b] == prev[b]);
            } else {
                assert(prev[a] < k - 1);
            }
        }
    }
}

/// Triangle `t` of a flat triangle list has point `p` as a corner.
pub open spec fn triangle_has(triangles: Seq<usize>, t: int, p: int) -> bool {
    triangles[3 * t] == p || triangles[3 * t + 1] == p || triangles[3 * t + 2] == p
}

/// Corner `r` of triangle `t`.
pub open spec fn corner(triangles: Seq<usize>, t: int, r: int) -> usize {
    triangles[3 * t + r]
}

/// The triangles among the first `k` that have point `p` as a corner, in order.
pub open spec fn triangles_around(triangles: Seq<usize>, p: int, k: int) -> Seq<usize>
    decreases k,
{
    if k <= 0 {
        seq![]
    } else if triangle_has(triangles, k - 1, p) {
        triangles_around(triangles, p, k - 1).push((k - 1) as usize)
    } else {
        triangles_around(triangles, p, k - 1)
    }
}

/// For every point, the triangles it is a corner of, in increasing order and
/// without repeats. `triangles` lists three point indices per triangle; a
/// trailing incomplete triangle is ignored.
pub fn point_to_triangles(num_points: usize, triangles: &Vec<usize>) -> (res: Vec<Vec<usize>>)
    requires
        forall|i: int| 0 <= i < triangles@.len() ==> #[trigger] triangles@[i] < num_points,
    ensures
        res@.len() == num_points,
        forall|p: int|
            0 <= p < num_points ==> (#[trigger] res@[p])@ == triangles_around(
                triangles@,
                p,
                (triangles@.len() / 3) as int,
            ),
        // Point `p` lists exactly the complete triangles it is a corner of,
        // each once, in increasing order.
        forall|p: int, t: int|
            #![trigger res@[p]@.contains(t as usize)]
            0 <= p < num_points && 0 <= t < triangles@.len() / 3 ==> ((res@[p])@.contains(
                t as usize,
            ) <==> (triangles@[3 * t] == p || triangles@[3 * t + 1] == p || triangles@[3 * t + 2]
                == p)),
        forall|p: int, i: int|
            0 <= p < num_points && 0 <= i < res@[p]@.len() ==> (#[trigger] res@[p]@[i]) < triangles@.len() / 3,
        forall|p: int, a: int, b: int|
            0 <= p < num_points && 0 <= a < b < res@[p]@.len() ==> (#[trigger] res@[p]@[a]) < (#[trigger] res@[p]@[b]),
{
    let tlen = triangles.len();
    let num_triangles = tlen / 3;
    let mut res: Vec<Vec<usize>> = Vec::new();
    let mut p: usize = 0;
    while p < num_points
        invariant
            p <= num_points,
            res@.len() == p,
            forall|q: int| 0 <= q < p ==> (#[trigger] res@[q])@ == Seq::<usize>::empty(),
        decreases num_points - p,
    {
        res.push(Vec::new());
        p = p + 1;
    }
    let mut t: usize = 0;
    while t < num_triangles
        invariant
            t <= num_triangles,
            tlen == triangles@.len(),
            num_triangles == triangles@.len() / 3,
            res@.len() == num_points,
            forall|i: int| 0 <= i < triangles@.len() ==> #[trigger] triangles@[i] < num_points,
            forall|q: int|
                0 <= q < num_points ==> (#[trigger] res@[q])@ == triangles_around(
                    triangles@,
                    q,
                    t as int,
                ),
        decreases num_triangles - t,
    {
        assert(3 * t + 3 <= triangles@.len()) by (nonlinear_arith)
            requires
                t < num_triangles,
                num_triangles == triangles@.len() / 3,
        ;
        let mut k: usize = 0;
        while k < 3
            invariant
                k <= 3,
                t < num_triangles,
                tlen == triangles@.len(),
                3 * t + 3 <= triangles@.len(),
                num_triangles == triangles@.len() / 3,
                res@.len() == num_points,
                forall|i: int| 0 <= i < triangles@.len() ==> #[trigger] triangles@[i] < num_points,
                forall|q: int|
                    0 <= q < num_points ==> (#[trigger] res@[q])@ == if (exists|r: int|
                        0 <= r < k && #[trigger] corner(triangles@, t as int, r) == q) {
                        triangles_around(triangles@, q, t as int).push(t)
                    } else {
                        triangles_around(triangles@, q, t as int)
                    },
            decreases 3 - k,
        {
            let pt = triangles[3 * t + k];
            let ghost seen = exists|r: int| 0 <= r < k && #[trigger] corner(triangles@, t as int, r) == pt;
            if !contains_index(&res[pt], t) {
                let mut list: Vec<usize> = Vec::new();
                std::mem::swap(&mut list, &mut res[pt]);
                list.push(t);
                res.set(pt, list);
            }
            proof {
                let before_t = triangles_around(triangles@, pt as int, t as int);
                lemma_triangles_around_below(triangles@, pt as int, t as int);
                if !seen {
                    assert(!before_t.contains(t));
                }
                assert forall|q: int| 0 <= q < num_points implies (#[trigger] res@[q])@ == if (exists|
                    r: int,
                | 0 <= r < k + 1 && #[trigger] corner(triangles@, t as int, r) == q) {
                    triangles_around(triangles@, q, t as int).push(t)
                } else {
                    triangles_around(triangles@, q, t as int)
                } by {
                    if q == pt {
                        assert(corner(triangles@, t as int, k as int) == q);
                        if seen {
                            let r = choose|r: int| 0 <= r < k && #[trigger] corner(triangles@, t as int, r) == pt;
                            assert(triangles_around(triangles@, q, t as int).push(t)[before_t.len() as int] == t);
                        }
                    } else {
                        if exists|r: int| 0 <= r < k + 1 && #[trigger] corner(triangles@, t as int, r) == q {
                            let r = choose|r: int| 0 <= r < k + 1 && #[trigger] corner(triangles@, t as int, r) == q;
                            assert(r < k);
                        }
                    }
                }
            }
            k = k + 1;
        }
        proof {
            assert forall|q: int| 0 <= q < num_points implies (#[trigger] res@[q])@ == triangles_around(
                triangles@,
                q,
                t + 1,
            ) by {
                if triangle_has(triangles@, t as int, q) {
                    if triangles@[3 * t] == q {
                        assert(corner(triangles@, t as int, 0) == q);
                    } else if triangles@[3 * t + 1] == q {
                        assert(corner(triangles@, t as int, 1) == q);
                    } else {
                        assert(corner(triangles@, t as int, 2) == q);
                    }
                }
            }
        }
        t = t + 1;
    }
    proof {
        let nt = (triangles@.len() / 3) as int;
        assert forall|p: int, t: int| #![trigger res@[p]@.contains(t as usize)] 0 <= p < num_points && 0 <= t < nt implies ((
        res@[p])@.contains(t as usize) <==> (triangles@[3 * t] == p || triangles@[3 * t
            + 1] == p || triangles@[3 * t + 2] == p)) by {
            triangles_around_are_the_touching_triangles(triangles@, p, nt);
            lemma_triangles_around_below(triangles@, p, nt);
            let l = triangles_around(triangles@, p, nt);
            assert(res@[p]@ == l);
            if res@[p]@.contains(t as usize) {
                let j = choose|j: int| 0 <= j < res@[p]@.len() && res@[p]@[j] == t as usize;
                assert(l[j] == t as usize);
                assert(triangle_has(triangles@, l[j] as int, p));
                assert(triangle_has(triangles@, t, p));
            }
            if triangle_has(triangles@, t, p) {
                assert(l.contains(t as usize));
            }
        }
        assert forall|p: int, i: int| 0 <= p < num_points && 0 <= i < res@[p]@.len() implies (
        #[trigger] res@[p]@[i]) < nt by {
            lemma_triangles_around_below(triangles@, p, nt);
        }
        assert forall|p: int, a: int, b: int|
            0 <= p < num_points && 0 <= a < b < res@[p]@.len() implies (#[trigger] res@[p]@[a]) < (
        #[trigger] res@[p]@[b]) by {
            triangles_around_is_increasing(triangles@, p, nt);
        }
    }
    res
}

/// Each triangle is listed around a point at most once, in increasing order.
pub proof fn triangles_around_is_increasing(triangles: Seq<usize>, p: int, k: int)
    requires
        k <= usize::MAX,
    ensures
        forall|a: int, b: int|
            0 <= a < b < triangles_around(triangles, p, k).len() ==> triangles_around(
                triangles,
                p,
                k,
            )[a] < triangles_around(triangles, p, k)[b],
    decreases k,
{
    if k > 0 {
        triangles_around_is_increasing(triangles, p, k - 1);
        lemma_triangles_around_below(triangles, p, k - 1);
        let prev = triangles_around(triangles, p, k - 1);
        let cur = triangles_around(triangles, p, k);
        assert forall|a: int, b: int| 0 <= a < b < cur.len() implies cur[a] < cur[b] by {
            assert(cur[a] == prev[a]);
            if b < prev.len() {
                assert(cur[b] == prev[b]);
            } else {
                assert(prev[a] < k - 1);
            }
        }
    }
}

/// Every triangle among the first `k` that has `p` as a corner is listed
/// around `p`, and every triangle listed around `p` has it as a corner.
pub proof fn triangles_around_are_the_touching_triangles(triangles: Seq<usize>, p: int, k: int)
    requires
        k <= usize::MAX,
    ensures
        forall|t: int|
            0 <= t < k && triangle_has(triangles, t, p) ==> triangles_around(triangles, p, k).contains(
                t as usize,
            ),
        forall|i: int|
            0 <= i < triangles_around(triangles, p, k).len() ==> triangle_has(
                triangles,
                #[trigger] triangles_around(triangles, p, k)[i] as int,
                p,
            ),
    decreases k,
{
    if k > 0 {
        triangles_around_are_the_touching_triangles(triangles, p, k - 1);
        let prev = triangles_around(triangles, p, k - 1);
        let cur = triangles_around(triangles, p, k);
        assert forall|t: int| 0 <= t < k && triangle_has(triangles, t, p) implies cur.contains(
            t as usize,
        ) by {
            if t < k - 1 {
                let j = choose|j: int| 0 <= j < prev.len() && prev[j] == t as usize;
                assert(cur[j] == prev[j]);
            } else {
                assert(cur[prev.len() as int] == t as usize);
            }
        }
        assert forall|i: int| 0 <= i < cur.len() implies triangle_has(
            triangles,
            #[trigger] cur[i] as int,
            p,
        ) by {
            if i < prev.len() {
                assert(cur[i] == prev[i]);
            }
        }
    }
}

/// The triangles listed around a point all come before `k`.
proof fn lemma_triangles_around_below(triangles: Seq<usize>, p: int, k: int)
    requires
        k <= usize::MAX,
    ensures
        forall|i: int|
            0 <= i < triangles_around(triangles, p, k).len() ==> #[trigger] triangles_around(
                triangles,
                p,
                k,
            )[i] < k,
    decreases k,
{
    if k > 0 {
        lemma_triangles_around_below(triangles, p, k - 1);
        let prev = triangles_around(triangles, p, k - 1);
        let cur = triangles_around(triangles, p, k);
        assert forall|i: int| 0 <= i < cur.len() implies #[trigger] cur[i] < k by {
            if i < prev.len() {
                assert(cur[i] == prev[i]);
            } else {
                assert(cur[i] == (k - 1) as usize);
            }
        }
    }
}

/// The cells kept for the skeleton: in generator order, the lists with at
/// least three circumcenters whose generator the caller accepted (it lies
/// inside the boundary, away from the hull, with no far-off circumcenter).
pub open spec fn kept_cells(lists: Seq<Vec<usize>>, accepted: Seq<bool>, k: int) -> Seq<Seq<usize>>
    decreases k,
{
    if k <= 0 {
        seq![]
    } else {
        let prev = kept_cells(lists, accepted, k - 1);
        if lists[k - 1]@.len() >= 3 && accepted[k - 1] {
            prev.push(lists[k - 1]@)
        } else {
            prev
        }
    }
}

/// Keeps the cell lists with at least three entries whose generator is accepted.
pub fn select_cells(lists: &Vec<Vec<usize>>, accepted: &Vec<bool>) -> (cells: Vec<Vec<usize>>)
    requires
        accepted@.len() == lists@.len(),
    ensures
        cells@.map_values(|c: Vec<usize>| c@) == kept_cells(
            lists@,
            accepted@,
            lists@.len() as int,
        ),
        // Each cell is the list of an accepted generator with at least three entries ...
        forall|i: int|
            0 <= i < cells@.len() ==> (#[trigger] cells@[i])@.len() >= 3 && exists|g: int|
                0 <= g < lists@.len() && accepted@[g] && lists@[g]@.len() >= 3 && cells@[i]@
                    == lists@[g]@,
        // ... and every such list is among the cells.
        forall|g: int|
            0 <= g < lists@.len() && accepted@[g] && lists@[g]@.len() >= 3 ==> exists|c: int|
                0 <= c < cells@.len() && cells@[c]@ == (#[trigger] lists@[g])@,
{
    let mut cells: Vec<Vec<usize>> = Vec::new();
    let mut g: usize = 0;
    while g < lists.len()
        invariant
            g <= lists@.len(),
            accepted@.len() == lists@.len(),
            cells@.map_values(|c: Vec<usize>| c@) == kept_cells(lists@, accepted@, g as int),
        decreases lists@.len() - g,
    {
        if lists[g].len() >= 3 && accepted[g] {
            let ghost before = cells@;
            cells.push(lists[g].clone());
            proof {
                assert(cells@.map_values(|c: Vec<usize>| c@) =~= before.map_values(
                    |c: Vec<usize>| c@,
                ).push(lists@[g as int]@));
            }
        }
        g = g + 1;
    }
    proof {
        let n = lists@.len() as int;
        let kept = kept_cells(lists@, accepted@, n);
        lemma_kept_cells_origin(lists@, accepted@, n);
        kept_cells_keep_every_accepted_list(lists@, accepted@, n);
        assert(cells@.len() == kept.len());
        assert forall|i: int| 0 <= i < cells@.len() implies (#[trigger] cells@[i])@.len() >= 3 && exists|g: int|
            0 <= g < lists@.len() && accepted@[g] && lists@[g]@.len() >= 3 && cells@[i]@
                == lists@[g]@ by {
            assert(cells@[i]@ == kept[i]);
            let h = choose|h: int|
                0 <= h < n && accepted@[h] && lists@[h]@.len() >= 3 && #[trigger] kept[i] == lists@[h]@;
            assert(0 <= h < lists@.len() && accepted@[h] && lists@[h]@.len() >= 3 && cells@[i]@
                == lists@[h]@);
        }

        assert forall|h: int| 0 <= h < lists@.len() && accepted@[h] && lists@[h]@.len() >= 3 implies exists|c: int|
            0 <= c < cells@.len() && cells@[c]@ == (#[trigger] lists@[h])@ by {
            assert(kept.contains(lists@[h]@));
            let c = choose|c: int| 0 <= c < kept.len() && kept[c] == lists@[h]@;
            assert(cells@[c]@ == kept[c]);
        }
    }
    cells
}


/// No circumcenter appears twice in a cell list.
pub proof fn cell_list_has_no_repeats(
    faces: Seq<(usize, usize, usize)>,
    mapping: Seq<usize>,
    v: Option<usize>,
    nf: int,
)
    ensures
        cell_list(faces, mapping, v, nf).no_duplicates(),
    decreases nf,
{
    if nf > 0 {
        cell_list_has_no_repeats(faces, mapping, v, nf - 1);
        let prev = cell_list(faces, mapping, v, nf - 1);
        let f = nf - 1;
        if f < mapping.len() && face_touches(faces, f, v) && !prev.contains(mapping[f]) {
            let cur = prev.push(mapping[f]);
            assert forall|a: int, b: int| 0 <= a < cur.len() && 0 <= b < cur.len() && a != b implies cur[a]
                != cur[b] by {
                if a == prev.len() as int {
                    assert(cur[b] == prev[b]);
                } else if b == prev.len() as int {
                    assert(cur[a] == prev[a]);
                }
            }
        }
    }
}

/// Every entry of a cell list is the merged circumcenter of a face around the generator.
pub proof fn cell_list_entries_come_from_faces(
    faces: Seq<(usize, usize, usize)>,
    mapping: Seq<usize>,
    v: Option<usize>,
    nf: int,
)
    ensures
        forall|t: int|
            0 <= t < cell_list(faces, mapping, v, nf).len() ==> exists|f: int|
                0 <= f < nf && f < mapping.len() && face_touches(faces, f, v) && #[trigger] cell_list(
                    faces,
                    mapping,
                    v,
                    nf,
                )[t] == mapping[f],
    decreases nf,
{
    if nf > 0 {
        cell_list_entries_come_from_faces(faces, mapping, v, nf - 1);
        let prev = cell_list(faces, mapping, v, nf - 1);
        let cur = cell_list(faces, mapping, v, nf);
        assert forall|t: int| 0 <= t < cur.len() implies exists|f: int|
            0 <= f < nf && f < mapping.len() && face_touches(faces, f, v) && #[trigger] cur[t]
                == mapping[f] by {
            if t < prev.len() {
                assert(cur[t] == prev[t]);
                let f = choose|f: int|
                    0 <= f < nf - 1 && f < mapping.len() && face_touches(faces, f, v) && #[trigger] prev[t]
                        == mapping[f];
                assert(0 <= f < nf && f < mapping.len() && face_touches(faces, f, v) && cur[t]
                    == mapping[f]);
            } else {
                assert(cur[t] == mapping[nf - 1]);
            }
        }
    }
}

/// A cell list misses no face: the merged circumcenter of every face among the
/// first `nf` that has the generator's vertex as a corner is in the list,
/// whichever faces come between.
pub proof fn cell_list_holds_every_touching_face(
    faces: Seq<(usize, usize, usize)>,
    mapping: Seq<usize>,
    v: Option<usize>,
    nf: int,
)
    ensures
        forall|f: int|
            0 <= f < nf && f < mapping.len() && face_touches(faces, f, v) ==> cell_list(
                faces,
                mapping,
                v,
                nf,
            ).contains(#[trigger] mapping[f]),
    decreases nf,
{
    if nf > 0 {
        cell_list_holds_every_touching_face(faces, mapping, v, nf - 1);
        let prev = cell_list(faces, mapping, v, nf - 1);
        let cur = cell_list(faces, mapping, v, nf);
        assert forall|f: int|
            0 <= f < nf && f < mapping.len() && face_touches(faces, f, v) implies cur.contains(
            #[trigger] mapping[f]) by {
            if f < nf - 1 {
                assert(prev.contains(mapping[f]));
                let t = choose|t: int| 0 <= t < prev.len() && prev[t] == mapping[f];
                if cur != prev {
                    assert(cur[t] == prev[t]);
                }
                assert(cur[t] == mapping[f]);
            } else if !prev.contains(mapping[f]) {
                assert(cur[prev.len() as int] == mapping[f]);
            } else {
                assert(cur == prev);
            }
        }
    }
}

/// Some face before `f2` with `v` as a corner has the merged circumcenter `x`.
pub open spec fn given_by_earlier_face(
    faces: Seq<(usize, usize, usize)>,
    mapping: Seq<usize>,
    v: Option<usize>,
    x: usize,
    f2: int,
) -> bool {
    exists|f1: int| 0 <= f1 < f2 && f1 < mapping.len() && face_touches(faces, f1, v) && #[trigger] mapping[f1] == x
}

/// A cell list is in face order: whenever entry `a` comes before entry `b`,
/// every face that gives entry `b` comes after some face that gives entry `a`.
pub proof fn cell_list_is_in_face_order(
    faces: Seq<(usize, usize, usize)>,
    mapping: Seq<usize>,
    v: Option<usize>,
    nf: int,
)
    ensures
        forall|a: int, b: int, f2: int|
            #![trigger cell_list(faces, mapping, v, nf)[a], cell_list(faces, mapping, v, nf)[b], mapping[f2]]
            0 <= a < b < cell_list(faces, mapping, v, nf).len() && 0 <= f2 < nf && f2 < mapping.len()
                && face_touches(faces, f2, v) && mapping[f2] == cell_list(faces, mapping, v, nf)[b]
                ==> given_by_earlier_face(faces, mapping, v, cell_list(faces, mapping, v, nf)[a], f2),
    decreases nf,
{
    if nf > 0 {
        cell_list_is_in_face_order(faces, mapping, v, nf - 1);
        cell_list_entries_come_from_faces(faces, mapping, v, nf - 1);
        cell_list_holds_every_touching_face(faces, mapping, v, nf - 1);
        let prev = cell_list(faces, mapping, v, nf - 1);
        let cur = cell_list(faces, mapping, v, nf);
        assert forall|a: int, b: int, f2: int|
            #![trigger cur[a], cur[b], mapping[f2]]
            0 <= a < b < cur.len() && 0 <= f2 < nf && f2 < mapping.len() && face_touches(faces, f2, v)
                && mapping[f2] == cur[b] implies given_by_earlier_face(faces, mapping, v, cur[a], f2) by {
            assert(cur[a] == prev[a]);
            if b < prev.len() && f2 < nf - 1 {
                assert(cur[b] == prev[b]);
                assert(mapping[f2] == prev[b]);
                assert(given_by_earlier_face(faces, mapping, v, prev[a], f2));
            } else {
                if b >= prev.len() && f2 < nf - 1 {
                    assert(prev.contains(mapping[f2]));
                    assert(cur[b] == mapping[nf - 1]);
                    assert(false);
                }
                assert(f2 == nf - 1);
                let f1 = choose|f1: int|
                    0 <= f1 < nf - 1 && f1 < mapping.len() && face_touches(faces, f1, v)
                        && #[trigger] prev[a] == mapping[f1];
                assert(0 <= f1 < f2 && f1 < mapping.len() && face_touches(faces, f1, v)
                    && mapping[f1] == cur[a]);
            }
        }
    } else {
        assert(cell_list(faces, mapping, v, nf).len() == 0);
    }
}

/// Every accepted generator whose list has at least three entries has its list kept.
pub proof fn kept_cells_keep_every_accepted_list(lists: Seq<Vec<usize>>, accepted: Seq<bool>, k: int)
    requires
        0 <= k <= lists.len(),
        accepted.len() == lists.len(),
    ensures
        forall|g: int|
            0 <= g < k && accepted[g] && lists[g]@.len() >= 3 ==> kept_cells(lists, accepted, k).contains(
                (#[trigger] lists[g])@,
            ),
    decreases k,
{
    if k > 0 {
        kept_cells_keep_every_accepted_list(lists, accepted, k - 1);
        let prev = kept_cells(lists, accepted, k - 1);
        let cur = kept_cells(lists, accepted, k);
        assert forall|g: int| 0 <= g < k && accepted[g] && lists[g]@.len() >= 3 implies cur.contains(
            (#[trigger] lists[g])@,
        ) by {
            if g < k - 1 {
                let j = choose|j: int| 0 <= j < prev.len() && prev[j] == lists[g]@;
                assert(cur[j] == prev[j]);
            } else {
                assert(cur[prev.len() as int] == lists[g]@);
            }
        }
    }
}

/// Every kept cell is the list of an accepted generator with at least three entries.
proof fn lemma_kept_cells_origin(lists: Seq<Vec<usize>>, accepted: Seq<bool>, k: int)
    requires
        0 <= k <= lists.len(),
        accepted.len() == lists.len(),
    ensures
        forall|c: int|
            0 <= c < kept_cells(lists, accepted, k).len() ==> exists|g: int|
                0 <= g < k && accepted[g] && lists[g]@.len() >= 3 && #[trigger] kept_cells(
                    lists,
                    accepted,
                    k,
                )[c] == lists[g]@,
    decreases k,
{
    if k > 0 {
        lemma_kept_cells_origin(lists, accepted, k - 1);
        let prev = kept_cells(lists, accepted, k - 1);
        let cur = kept_cells(lists, accepted, k);
        assert forall|c: int| 0 <= c < cur.len() implies exists|g: int|
            0 <= g < k && accepted[g] && lists[g]@.len() >= 3 && #[trigger] cur[c] == lists[g]@ by {
            if c < prev.len() {
                assert(cur[c] == prev[c]);
                let g = choose|g: int|
                    0 <= g < k - 1 && accepted[g] && lists[g]@.len() >= 3 && #[trigger] prev[c]
                        == lists[g]@;
                assert(0 <= g < k && accepted[g] && lists[g]@.len() >= 3 && cur[c] == lists[g]@);
            } else {
                assert(cur[c] == lists[k - 1]@);
            }
        }
    }
}

/// `order` lists every position `0 .. n` exactly once.
pub open spec fn is_order(order: Seq<usize>, n: nat) -> bool {
    &&& order.len() == n
    &&& forall|k: int| 0 <= k < order.len() ==> #[trigger] order[k] < n
    &&& order.no_duplicates()
}

/// `s` read in the order `order`.
pub open spec fn reordered(s: Seq<usize>, order: Seq<usize>) -> Seq<usize> {
    Seq::new(order.len(), |k: int| s[order[k] as int])
}

/// `list` read in the order `order`, when `order` lists every position of
/// `list` exactly once; `None` otherwise.
pub fn reorder(list: &Vec<usize>, order: &Vec<usize>) -> (r: Option<Vec<usize>>)
    ensures
        r is Some <==> is_order(order@, list@.len()),
        r matches Some(v) ==> v@ == reordered(list@, order@),
        // Spelled out: a permutation of the positions is accepted, anything
        // else refused, and entry `k` of the result is entry `order[k]` of `list`.
        r is Some <==> (order@.len() == list@.len() && (forall|k: int|
            0 <= k < order@.len() ==> #[trigger] order@[k] < list@.len()) && (forall|a: int, b: int|
            0 <= a < b < order@.len() ==> order@[a] != order@[b])),
        r matches Some(v) ==> v@.len() == list@.len() && forall|k: int|
            0 <= k < v@.len() ==> #[trigger] v@[k] == list@[order@[k] as int],
{
    let n = list.len();
    if order.len() != n {
        return None;
    }
    let mut seen: Vec<bool> = Vec::new();
    let mut k: usize = 0;
    while k < n
        invariant
            k <= n,
            seen@.len() == k,
            forall|j: int| 0 <= j < k ==> !#[trigger] seen@[j],
        decreases n - k,
    {
        seen.push(false);
        k = k + 1;
    }
    let mut out: Vec<usize> = Vec::new();
    let mut k: usize = 0;
    while k < n
        invariant
            k <= n,
            n == list@.len(),
            n == order@.len(),
            seen@.len() == n,
            forall|j: int| 0 <= j < k ==> #[trigger] order@[j] < n,
            forall|a: int, b: int| 0 <= a < b < k ==> order@[a] != order@[b],
            forall|p: int|
                0 <= p < n ==> (#[trigger] seen@[p] <==> exists|j: int|
                    0 <= j < k && order@[j] == p),
            out@ == reordered(list@, order@.subrange(0, k as int)),
        decreases n - k,
    {
        let p = order[k];
        if p >= n {
            proof {
                assert(!(order@[k as int] < n));
            }
            return None;
        }
        if seen[p] {
            proof {
                let j = choose|j: int| 0 <= j < k && order@[j] == p;
                assert(order@[j] == order@[k as int]);
            }
            return None;
        }
        seen.set(p, true);
        out.push(list[p]);
        proof {
            assert forall|q: int| 0 <= q < n implies (#[trigger] seen@[q] <==> exists|j: int|
                0 <= j < k + 1 && order@[j] == q) by {
                if q == p {
                    assert(order@[k as int] == q);
                } else if exists|j: int| 0 <= j < k + 1 && order@[j] == q {
                    let j = choose|j: int| 0 <= j < k + 1 && order@[j] == q;
                    assert(j < k);
                }
            }
            assert(out@ =~= reordered(list@, order@.subrange(0, k + 1)));
        }
        k = k + 1;
    }
    proof {
        assert(order@.subrange(0, n as int) =~= order@);
    }
    Some(out)
}

/// Entry `j` of `s` sits at some position of `s` read in the order `order`.
pub open spec fn placed_at_some_position(s: Seq<usize>, order: Seq<usize>, j: int) -> bool {
    exists|k: int| 0 <= k < order.len() && order[k] == j && #[trigger] reordered(s, order)[k] == s[j]
}

/// Reordering by an order loses nothing: the result has the same length and
/// every entry of the input appears in it, at the position that names it.
pub proof fn reordering_keeps_every_entry(s: Seq<usize>, order: Seq<usize>)
    requires
        is_order(order, s.len()),
    ensures
        reordered(s, order).len() == s.len(),
        forall|j: int| 0 <= j < s.len() ==> #[trigger] placed_at_some_position(s, order, j),
{
    let n = s.len() as int;
    let ints = order.map_values(|x: usize| x as int);
    assert forall|a: int, b: int| 0 <= a < ints.len() && 0 <= b < ints.len() && a != b implies ints[a]
        != ints[b] by {
        assert(order[a] != order[b]);
    }
    ints.unique_seq_to_set();
    let range = vstd::set_lib::set_int_range(0, n);
    vstd::set_lib::lemma_int_range(0, n);
    assert forall|x: int| ints.to_set().contains(x) implies range.contains(x) by {
        let k = choose|k: int| 0 <= k < ints.len() && ints[k] == x;
        assert(order[k] < n);
    }
    vstd::set_lib::lemma_subset_equality(ints.to_set(), range);
    assert forall|j: int| 0 <= j < n implies #[trigger] placed_at_some_position(s, order, j) by {
        assert(range.contains(j));
        assert(ints.to_set().contains(j));
        let k = choose|k: int| 0 <= k < ints.len() && ints[k] == j;
        assert(order[k] == j);
        assert(reordered(s, order)[k] == s[j]);
    }
}

/// The cells built from a merged triangulation are well formed: each has at
/// least three corners, no corner twice, and every corner names one of the
/// merged circumcenters. This holds whatever order each cell list was put in
/// before selection. A non-empty set of such cells, placed over the merged
/// circumcenters, makes a valid skeleton.
pub proof fn voronoi_cells_are_well_formed(
    near: Seq<Vec<bool>>,
    groups: Seq<Vec<usize>>,
    mapping: Seq<usize>,
    faces: Seq<(usize, usize, usize)>,
    generator_vertex: Seq<Option<usize>>,
    orders: Seq<Seq<usize>>,
    lists: Seq<Vec<usize>>,
    accepted: Seq<bool>,
    cells: Seq<Vec<usize>>,
)
    requires
        groups_match(near, groups, mapping),
        lists.len() == generator_vertex.len(),
        orders.len() == lists.len(),
        forall|g: int|
            0 <= g < lists.len() ==> is_order(
                #[trigger] orders[g],
                cell_list(faces, mapping, generator_vertex[g], faces.len() as int).len(),
            ),
        forall|g: int|
            0 <= g < lists.len() ==> (#[trigger] lists[g])@ == reordered(
                cell_list(faces, mapping, generator_vertex[g], faces.len() as int),
                orders[g],
            ),
        accepted.len() == lists.len(),
        cells.map_values(|c: Vec<usize>| c@) == kept_cells(lists, accepted, lists.len() as int),
    ensures
        cells_well_formed(cells, groups.len()),
        forall|c: int| 0 <= c < cells.len() ==> (#[trigger] cells[c])@.no_duplicates(),
        cells.len() > 0 ==> skeleton_valid(groups.len(), cells),
{
    let kept = kept_cells(lists, accepted, lists.len() as int);
    lemma_kept_cells_origin(lists, accepted, lists.len() as int);
    assert forall|c: int| 0 <= c < cells.len() implies {
        &&& (#[trigger] cells[c])@.len() >= 3
        &&& forall|t: int| 0 <= t < cells[c]@.len() ==> (#[trigger] cells[c]@[t]) < groups.len()
        &&& cells[c]@.no_duplicates()
    } by {
        assert(cells[c]@ == kept[c]);
        let g = choose|g: int|
            0 <= g < lists.len() && accepted[g] && lists[g]@.len() >= 3 && #[trigger] kept[c]
                == lists[g]@;
        let gv = generator_vertex[g];
        let l = cell_list(faces, mapping, gv, faces.len() as int);
        let order = orders[g];
        cell_list_has_no_repeats(faces, mapping, gv, faces.len() as int);
        cell_list_entries_come_from_faces(faces, mapping, gv, faces.len() as int);
        assert(is_order(order, l.len()));
        assert(lists[g]@ == reordered(l, order));
        assert forall|t: int| 0 <= t < cells[c]@.len() implies (#[trigger] cells[c]@[t])
            < groups.len() by {
            assert(cells[c]@[t] == l[order[t] as int]);
            assert(order[t] < l.len());
            let f = choose|f: int|
                0 <= f < faces.len() && f < mapping.len() && face_touches(faces, f, gv)
                    && #[trigger] l[order[t] as int] == mapping[f];
            assert(mapping[f] < groups.len());
        }
        assert forall|a: int, b: int|
            0 <= a < cells[c]@.len() && 0 <= b < cells[c]@.len() && a != b implies cells[c]@[a]
            != cells[c]@[b] by {
            assert(cells[c]@[a] == l[order[a] as int]);
            assert(cells[c]@[b] == l[order[b] as int]);
            assert(order[a] != order[b]);
        }
    }
    if cells.len() > 0 {
        assert(cells[0]@.len() >= 3);
        assert(cells[0]@[0] < groups.len());
    }
}

/// Without generators there are no cell lists and so no cells; without
/// circumcenters there are no merged circumcenters.
pub proof fn no_generators_no_cells(
    near: Seq<Vec<bool>>,
    groups: Seq<Vec<usize>>,
    mapping: Seq<usize>,
    lists: Seq<Vec<usize>>,
    accepted: Seq<bool>,
)
    requires
        groups_match(near, groups, mapping),
    ensures
        lists.len() == 0 ==> kept_cells(lists, accepted, lists.len() as int).len() == 0,
        near.len() == 0 ==> groups.len() == 0,
{
}

} // verus!
