//! Wavefront OBJ export of the buildings and open spaces.
//!
//! Each building becomes an extruded prism (a bottom ring, a top ring, one
//! quad per wall and the roof as one n-gon), each open space a flat polygon.
//! OBJ vertex indices are 1-based and global to the file. Coordinates arrive
//! already written as decimal text, so this module only lays out the file.
use vstd::prelude::*;

use crate::decimal::{decimal, push_decimal};
use crate::obj_lines::{obj_fields_single_line, obj_vertex_lines_match_total, vertex_line_count};

verus! {

/// A footprint vertex, its two coordinates written as decimal text.
pub struct VertexText {
    pub x: String,
    pub y: String,
}

/// A building as the export sees it: its id, its footprint and its height text.
pub struct ObjBuilding {
    pub id: u32,
    pub footprint: Vec<VertexText>,
    pub height: String,
}

/// An open space as the export sees it: the block it fills and its outline.
pub struct ObjOpenSpace {
    pub block_id: u32,
    pub polygon: Vec<VertexText>,
}

/// `v x 0 y`: a vertex on the ground.
pub open spec fn ground_line(v: VertexText) -> Seq<char> {
    "v "@ + v.x@ + " 0 "@ + v.y@ + "\n"@
}

/// `v x h y`: a vertex at height `h`.
pub open spec fn top_line(v: VertexText, h: Seq<char>) -> Seq<char> {
    "v "@ + v.x@ + " "@ + h + " "@ + v.y@ + "\n"@
}

/// Ground vertex lines of the first `k` vertices.
pub open spec fn ground_lines(vs: Seq<VertexText>, k: int) -> Seq<char>
    decreases k,
{
    if k <= 0 {
        seq![]
    } else {
        ground_lines(vs, k - 1) + ground_line(vs[k - 1])
    }
}

/// Top vertex lines of the first `k` vertices.
pub open spec fn top_lines(vs: Seq<VertexText>, h: Seq<char>, k: int) -> Seq<char>
    decreases k,
{
    if k <= 0 {
        seq![]
    } else {
        top_lines(vs, h, k - 1) + top_line(vs[k - 1], h)
    }
}

/// The indices of a face, separated by single spaces.
pub open spec fn joined(ix: Seq<int>) -> Seq<char>
    decreases ix.len(),
{
    if ix.len() == 0 {
        seq![]
    } else if ix.len() == 1 {
        decimal(ix[0] as nat)
    } else {
        joined(ix.drop_last()) + " "@ + decimal(ix.last() as nat)
    }
}

/// `f i j k ...`: one face.
pub open spec fn face_line(ix: Seq<int>) -> Seq<char> {
    "f "@ + joined(ix) + "\n"@
}

/// Lines of the first `k` faces.
pub open spec fn face_lines(faces: Seq<Seq<int>>, k: int) -> Seq<char>
    decreases k,
{
    if k <= 0 {
        seq![]
    } else {
        face_lines(faces, k - 1) + face_line(faces[k - 1])
    }
}

/// The wall quad over edge `i` of a prism whose `n` bottom vertices start at
/// `base` and whose top vertices follow them.
pub open spec fn wall_face(base: int, n: int, i: int) -> Seq<int> {
    seq![base + i, base + (i + 1) % n, base + n + (i + 1) % n, base + n + i]
}

/// Consecutive indices `start .. start + count`.
pub open spec fn index_run(start: int, count: nat) -> Seq<int> {
    Seq::new(count, |k: int| start + k)
}

/// Faces of a prism with `n` outline vertices starting at `base`: the walls, then the roof.
pub open spec fn prism_faces(base: int, n: nat) -> Seq<Seq<int>> {
    Seq::new(n, |i: int| wall_face(base, n as int, i)).push(index_run(base + n, n))
}

/// Vertices a building adds to the file: two rings, or none for a degenerate footprint.
pub open spec fn building_vertices(b: ObjBuilding) -> nat {
    if b.footprint@.len() >= 3 {
        2 * b.footprint@.len()
    } else {
        0
    }
}

/// Vertices an open space adds to the file: one ring, or none when degenerate.
pub open spec fn space_vertices(s: ObjOpenSpace) -> nat {
    if s.polygon@.len() >= 3 {
        s.polygon@.len()
    } else {
        0
    }
}

/// The text a building adds to the file when its first vertex gets index `base`.
pub open spec fn building_text(b: ObjBuilding, base: int) -> Seq<char> {
    let n = b.footprint@.len();
    if n < 3 {
        seq![]
    } else {
        "o building_"@ + decimal(b.id as nat) + "\n"@ + ground_lines(b.footprint@, n as int)
            + top_lines(b.footprint@, b.height@, n as int) + face_lines(
            prism_faces(base, n),
            n + 1int,
        )
    }
}

/// The text an open space adds to the file when its first vertex gets index `base`.
pub open spec fn space_text(s: ObjOpenSpace, base: int) -> Seq<char> {
    let n = s.polygon@.len();
    if n < 3 {
        seq![]
    } else {
        "o open_space_"@ + decimal(s.block_id as nat) + "\n"@ + ground_lines(s.polygon@, n as int)
            + face_line(index_run(base, n))
    }
}

/// Index of the first vertex of building `k`.
pub open spec fn building_base(bs: Seq<ObjBuilding>, k: int) -> int
    decreases k,
{
    if k <= 0 {
        1
    } else {
        building_base(bs, k - 1) + building_vertices(bs[k - 1])
    }
}

/// Index of the first vertex of open space `k`, after all buildings.
pub open spec fn space_base(bs: Seq<ObjBuilding>, ss: Seq<ObjOpenSpace>, k: int) -> int
    decreases k,
{
    if k <= 0 {
        building_base(bs, bs.len() as int)
    } else {
        space_base(bs, ss, k - 1) + space_vertices(ss[k - 1])
    }
}

/// Text of the first `k` buildings.
pub open spec fn buildings_text(bs: Seq<ObjBuilding>, k: int) -> Seq<char>
    decreases k,
{
    if k <= 0 {
        seq![]
    } else {
        buildings_text(bs, k - 1) + building_text(bs[k - 1], building_base(bs, k - 1))
    }
}

/// Text of the first `k` open spaces.
pub open spec fn spaces_text(bs: Seq<ObjBuilding>, ss: Seq<ObjOpenSpace>, k: int) -> Seq<char>
    decreases k,
{
    if k <= 0 {
        seq![]
    } else {
        spaces_text(bs, ss, k - 1) + space_text(ss[k - 1], space_base(bs, ss, k - 1))
    }
}

/// The whole OBJ file.
pub open spec fn obj_text(bs: Seq<ObjBuilding>, ss: Seq<ObjOpenSpace>) -> Seq<char> {
    "# procedural-city-gen export\n"@ + buildings_text(bs, bs.len() as int) + spaces_text(
        bs,
        ss,
        ss.len() as int,
    )
}

/// Number of vertices in the whole file.
pub open spec fn obj_vertex_total(bs: Seq<ObjBuilding>, ss: Seq<ObjOpenSpace>) -> int {
    space_base(bs, ss, ss.len() as int) - 1
}

proof fn lemma_building_base_monotone(bs: Seq<ObjBuilding>, a: int, b: int)
    requires
        0 <= a <= b,
    ensures
        building_base(bs, a) <= building_base(bs, b),
        building_base(bs, a) >= 1,
    decreases b - a,
{
    if a < b {
        lemma_building_base_monotone(bs, a, b - 1);
    } else {
        lemma_building_base_at_least_one(bs, a);
    }
}

proof fn lemma_building_base_at_least_one(bs: Seq<ObjBuilding>, a: int)
    ensures
        building_base(bs, a) >= 1,
    decreases a,
{
    if a > 0 {
        lemma_building_base_at_least_one(bs, a - 1);
    }
}

proof fn lemma_space_base_monotone(bs: Seq<ObjBuilding>, ss: Seq<ObjOpenSpace>, a: int, b: int)
    requires
        0 <= a <= b,
    ensures
        space_base(bs, ss, a) <= space_base(bs, ss, b),
        space_base(bs, ss, a) >= building_base(bs, bs.len() as int),
    decreases b - a,
{
    if a < b {
        lemma_space_base_monotone(bs, ss, a, b - 1);
    } else {
        lemma_space_base_at_least(bs, ss, a);
    }
}

proof fn lemma_space_base_at_least(bs: Seq<ObjBuilding>, ss: Seq<ObjOpenSpace>, a: int)
    ensures
        space_base(bs, ss, a) >= building_base(bs, bs.len() as int),
    decreases a,
{
    if a > 0 {
        lemma_space_base_at_least(bs, ss, a - 1);
    }
}

/// Every face index in the file is at least 1 and at most the number of
/// vertices in the file.
pub proof fn obj_face_indices_in_range(bs: Seq<ObjBuilding>, ss: Seq<ObjOpenSpace>)
    ensures
        forall|k: int, f: int, t: int|
            0 <= k < bs.len() && bs[k].footprint@.len() >= 3 && 0 <= f < prism_faces(
                building_base(bs, k),
                bs[k].footprint@.len(),
            ).len() && 0 <= t < prism_faces(building_base(bs, k), bs[k].footprint@.len())[f].len()
                ==> 1 <= #[trigger] prism_faces(building_base(bs, k), bs[k].footprint@.len())[f][t]
                <= obj_vertex_total(bs, ss),
        forall|k: int, t: int|
            0 <= k < ss.len() && ss[k].polygon@.len() >= 3 && 0 <= t < ss[k].polygon@.len() ==> 1
                <= #[trigger] index_run(space_base(bs, ss, k), ss[k].polygon@.len())[t]
                <= obj_vertex_total(bs, ss),
{
    assert forall|k: int, f: int, t: int|
        0 <= k < bs.len() && bs[k].footprint@.len() >= 3 && 0 <= f < prism_faces(
            building_base(bs, k),
            bs[k].footprint@.len(),
        ).len() && 0 <= t < prism_faces(building_base(bs, k), bs[k].footprint@.len())[f].len()
        implies 1 <= #[trigger] prism_faces(building_base(bs, k), bs[k].footprint@.len())[f][t]
        <= obj_vertex_total(bs, ss) by {
        let n = bs[k].footprint@.len();
        let base = building_base(bs, k);
        lemma_building_base_monotone(bs, k, k);
        lemma_building_base_monotone(bs, k + 1, bs.len() as int);
        lemma_space_base_monotone(bs, ss, 0, ss.len() as int);
        assert(building_base(bs, k + 1) == base + 2 * n);
        let faces = prism_faces(base, n);
        if f < n {
            assert(faces[f] == wall_face(base, n as int, f));
            assert(0 <= (f + 1) % (n as int) < n);
        } else {
            assert(faces[f] == index_run(base + n, n));
        }
    }
    assert forall|k: int, t: int|
        0 <= k < ss.len() && ss[k].polygon@.len() >= 3 && 0 <= t < ss[k].polygon@.len() implies 1
        <= #[trigger] index_run(space_base(bs, ss, k), ss[k].polygon@.len())[t] <= obj_vertex_total(
        bs,
        ss,
    ) by {
        lemma_space_base_monotone(bs, ss, k, k);
        lemma_space_base_monotone(bs, ss, k + 1, ss.len() as int);
        lemma_building_base_at_least_one(bs, bs.len() as int);
    }
}


/// The indices of a face as integers.
pub open spec fn face_ints(ix: Seq<usize>) -> Seq<int> {
    ix.map_values(|x: usize| x as int)
}

fn push_face(out: &mut String, ix: &Vec<usize>)
    requires
        ix@.len() > 0,
    ensures
        final(out)@ == old(out)@ + face_line(face_ints(ix@)),
{
    let ghost pre = out@;
    let ghost s = face_ints(ix@);
    out.append("f ");
    let mut k: usize = 0;
    while k < ix.len()
        invariant
            k <= ix@.len(),
            ix@.len() > 0,
            s == face_ints(ix@),
            out@ == pre + "f "@ + joined(s.subrange(0, k as int)),
        decreases ix@.len() - k,
    {
        let ghost before = out@;
        if k > 0 {
            out.append(" ");
        }
        push_decimal(out, ix[k] as u64);
        proof {
            let next = s.subrange(0, k + 1);
            assert(next.drop_last() =~= s.subrange(0, k as int));
            assert(next.last() == ix@[k as int] as int);
            if k == 0 {
                assert(joined(s.subrange(0, 0)) =~= Seq::<char>::empty());
                assert(joined(next) == decimal(next[0] as nat));
            }
            assert(out@ =~= pre + "f "@ + joined(next));
        }
        k = k + 1;
    }
    out.append("\n");
    proof {
        assert(s.subrange(0, ix@.len() as int) =~= s);
        assert(out@ =~= old(out)@ + face_line(s));
    }
}

fn push_ground_lines(out: &mut String, vs: &Vec<VertexText>)
    ensures
        final(out)@ == old(out)@ + ground_lines(vs@, vs@.len() as int),
{
    let ghost pre = out@;
    let mut k: usize = 0;
    while k < vs.len()
        invariant
            k <= vs@.len(),
            out@ == pre + ground_lines(vs@, k as int),
        decreases vs@.len() - k,
    {
        let v = &vs[k];
        out.append("v ");
        out.append(v.x.as_str());
        out.append(" 0 ");
        out.append(v.y.as_str());
        out.append("\n");
        proof {
            assert(out@ =~= pre + ground_lines(vs@, k + 1));
        }
        k = k + 1;
    }
}

fn push_top_lines(out: &mut String, vs: &Vec<VertexText>, h: &String)
    ensures
        final(out)@ == old(out)@ + top_lines(vs@, h@, vs@.len() as int),
{
    let ghost pre = out@;
    let mut k: usize = 0;
    while k < vs.len()
        invariant
            k <= vs@.len(),
            out@ == pre + top_lines(vs@, h@, k as int),
        decreases vs@.len() - k,
    {
        let v = &vs[k];
        out.append("v ");
        out.append(v.x.as_str());
        out.append(" ");
        out.append(h.as_str());
        out.append(" ");
        out.append(v.y.as_str());
        out.append("\n");
        proof {
            assert(out@ =~= pre + top_lines(vs@, h@, k + 1));
        }
        k = k + 1;
    }
}

/// The run `start .. start + count` as a vector.
fn run_vec(start: usize, count: usize) -> (v: Vec<usize>)
    requires
        start + count <= usize::MAX,
    ensures
        v@.len() == count,
        face_ints(v@) == index_run(start as int, count as nat),
{
    let mut v: Vec<usize> = Vec::new();
    let mut k: usize = 0;
    while k < count
        invariant
            k <= count,
            start + count <= usize::MAX,
            v@.len() == k,
            face_ints(v@) == index_run(start as int, k as nat),
        decreases count - k,
    {
        let ghost before = v@;
        v.push(start + k);
        proof {
            assert forall|t: int| 0 <= t < k + 1 implies face_ints(v@)[t] == index_run(
                start as int,
                (k + 1) as nat,
            )[t] by {
                if t < k {
                    assert(face_ints(v@)[t] == v@[t] as int);
                    assert(v@[t] == before[t]);
                    assert(face_ints(before)[t] == index_run(start as int, k as nat)[t]);
                } else {
                    assert(face_ints(v@)[t] == v@[t] as int);
                }
            }
            assert(face_ints(v@) =~= index_run(start as int, (k + 1) as nat));
        }
        k = k + 1;
    }
    v
}

fn push_building(out: &mut String, b: &ObjBuilding, base: usize)
    requires
        b.footprint@.len() >= 3,
        base + 2 * b.footprint@.len() <= usize::MAX,
    ensures
        final(out)@ == old(out)@ + building_text(*b, base as int),
{
    let n = b.footprint.len();
    let ghost pre = out@;
    let ghost faces = prism_faces(base as int, n as nat);
    out.append("o building_");
    push_decimal(out, b.id as u64);
    out.append("\n");
    push_ground_lines(out, &b.footprint);
    push_top_lines(out, &b.footprint, &b.height);
    let ghost head = out@;
    let mut i: usize = 0;
    while i < n
        invariant
            i <= n,
            n == b.footprint@.len(),
            n >= 3,
            base + 2 * n <= usize::MAX,
            faces == prism_faces(base as int, n as nat),
            out@ == head + face_lines(faces, i as int),
        decreases n - i,
    {
        let j = (i + 1) % n;
        let mut quad: Vec<usize> = Vec::new();
        quad.push(base + i);
        quad.push(base + j);
        quad.push(base + n + j);
        quad.push(base + n + i);
        push_face(out, &quad);
        proof {
            assert(face_ints(quad@) =~= wall_face(base as int, n as int, i as int));
            assert(faces[i as int] == wall_face(base as int, n as int, i as int));
            assert(out@ =~= head + face_lines(faces, i + 1));
        }
        i = i + 1;
    }
    let roof = run_vec(base + n, n);
    push_face(out, &roof);
    proof {
        assert(faces[n as int] == index_run(base + n, n as nat));
        assert(out@ =~= head + face_lines(faces, n + 1));
        assert(out@ =~= pre + building_text(*b, base as int));
    }
}

fn push_open_space(out: &mut String, s: &ObjOpenSpace, base: usize)
    requires
        s.polygon@.len() >= 3,
        base + s.polygon@.len() <= usize::MAX,
    ensures
        final(out)@ == old(out)@ + space_text(*s, base as int),
{
    let n = s.polygon.len();
    let ghost pre = out@;
    out.append("o open_space_");
    push_decimal(out, s.block_id as u64);
    out.append("\n");
    push_ground_lines(out, &s.polygon);
    let face = run_vec(base, n);
    push_face(out, &face);
    proof {
        assert(out@ =~= pre + space_text(*s, base as int));
    }
}

/// Writes the buildings and open spaces as a Wavefront OBJ file. Buildings
/// and open spaces with fewer than three outline vertices are skipped.
pub fn build_obj(buildings: &Vec<ObjBuilding>, open_spaces: &Vec<ObjOpenSpace>) -> (out: String)
    requires
        obj_vertex_total(buildings@, open_spaces@) < usize::MAX,
    ensures
        out@ == obj_text(buildings@, open_spaces@),
        // With single-line coordinate and height texts, the file holds one
        // vertex line per vertex counted in its face indices.
        obj_fields_single_line(buildings@, open_spaces@) ==> vertex_line_count(out@)
            == obj_vertex_total(buildings@, open_spaces@),
{
    let ghost bs = buildings@;
    let ghost ss = open_spaces@;
    let mut out = String::new();
    out.append("# procedural-city-gen export\n");
    let ghost header = out@;
    let mut vertex_base: usize = 1;
    proof {
        lemma_building_base_monotone(bs, bs.len() as int, bs.len() as int);
        lemma_space_base_monotone(bs, ss, 0, ss.len() as int);
    }
    let mut k: usize = 0;
    while k < buildings.len()
        invariant
            k <= bs.len(),
            bs == buildings@,
            ss == open_spaces@,
            obj_vertex_total(bs, ss) < usize::MAX,
            building_base(bs, bs.len() as int) <= space_base(bs, ss, ss.len() as int),
            vertex_base == building_base(bs, k as int),
            out@ == header + buildings_text(bs, k as int),
        decreases bs.len() - k,
    {
        let b = &buildings[k];
        let n = b.footprint.len();
        proof {
            lemma_building_base_monotone(bs, k + 1, bs.len() as int);
        }
        if n >= 3 {
            push_building(&mut out, b, vertex_base);
            vertex_base = vertex_base + 2 * n;
        }
        proof {
            assert(out@ =~= header + buildings_text(bs, k + 1));
        }
        k = k + 1;
    }
    let mut k: usize = 0;
    while k < open_spaces.len()
        invariant
            k <= ss.len(),
            bs == buildings@,
            ss == open_spaces@,
            obj_vertex_total(bs, ss) < usize::MAX,
            vertex_base == space_base(bs, ss, k as int),
            out@ == header + buildings_text(bs, bs.len() as int) + spaces_text(bs, ss, k as int),
        decreases ss.len() - k,
    {
        let s = &open_spaces[k];
        let n = s.polygon.len();
        proof {
            lemma_space_base_monotone(bs, ss, k + 1, ss.len() as int);
        }
        if n >= 3 {
            push_open_space(&mut out, s, vertex_base);
            vertex_base = vertex_base + n;
        }
        proof {
            assert(out@ =~= header + buildings_text(bs, bs.len() as int) + spaces_text(
                bs,
                ss,
                k + 1,
            ));
        }
        k = k + 1;
    }
    proof {
        assert(out@ =~= obj_text(bs, ss));
        if obj_fields_single_line(bs, ss) {
            obj_vertex_lines_match_total(bs, ss);
        }
    }
    out
}

} // verus!
