//! Reading an OBJ text back line by line: which lines are vertex lines, and
//! how many of them come before a given point of the file.
use vstd::prelude::*;

use crate::decimal::{decimal, digit_char};
use crate::obj::{
    building_base, building_text, building_vertices, buildings_text, face_line, face_lines,
    ground_line, ground_lines, joined, obj_text, obj_vertex_total, space_base, space_text,
    space_vertices, spaces_text, top_line, top_lines, ObjBuilding, ObjOpenSpace, VertexText,
};

verus! {

/// Position `i` of `t` begins a vertex line: a line that starts with `v `.
pub open spec fn starts_vertex_line(t: Seq<char>, i: int) -> bool {
    &&& 0 <= i
    &&& i + 1 < t.len()
    &&& t[i] == 'v'
    &&& t[i + 1] == ' '
    &&& (i == 0 || t[i - 1] == '\n')
}

/// Number of vertex lines of `t` that begin before position `k`.
pub open spec fn vertex_lines_before(t: Seq<char>, k: int) -> nat
    decreases k,
{
    if k <= 0 {
        0
    } else {
        vertex_lines_before(t, k - 1) + if starts_vertex_line(t, k - 1) {
            1nat
        } else {
            0nat
        }
    }
}

/// Number of vertex lines in `t`.
pub open spec fn vertex_line_count(t: Seq<char>) -> nat {
    vertex_lines_before(t, t.len() as int)
}

/// `t` holds no line break.
pub open spec fn single_line(t: Seq<char>) -> bool {
    forall|i: int| 0 <= i < t.len() ==> t[i] != '\n'
}

/// `t` is empty or ends with a line break: whatever follows starts a new line.
pub open spec fn ends_line(t: Seq<char>) -> bool {
    t.len() == 0 || t[t.len() - 1] == '\n'
}

pub proof fn lemma_single_line_concat(a: Seq<char>, b: Seq<char>)
    requires
        single_line(a),
        single_line(b),
    ensures
        single_line(a + b),
{
    assert forall|i: int| 0 <= i < (a + b).len() implies (a + b)[i] != '\n' by {
        if i >= a.len() {
            assert((a + b)[i] == b[i - a.len()]);
        }
    }
}

proof fn lemma_prefix_count(a: Seq<char>, b: Seq<char>, k: int)
    requires
        ends_line(a),
        0 <= k <= a.len(),
    ensures
        vertex_lines_before(a + b, k) == vertex_lines_before(a, k),
    decreases k,
{
    if k > 0 {
        lemma_prefix_count(a, b, k - 1);
        let i = k - 1;
        if i + 1 < a.len() {
            assert((a + b)[i] == a[i]);
            assert((a + b)[i + 1] == a[i + 1]);
            if i > 0 {
                assert((a + b)[i - 1] == a[i - 1]);
            }
        } else {
            assert((a + b)[i] == a[i]);
            assert(!starts_vertex_line(a + b, i));
        }
    }
}

proof fn lemma_suffix_count(a: Seq<char>, b: Seq<char>, k: int)
    requires
        ends_line(a),
        0 <= k <= b.len(),
    ensures
        vertex_lines_before(a + b, a.len() + k) == vertex_line_count(a) + vertex_lines_before(b, k),
    decreases k,
{
    if k == 0 {
        lemma_prefix_count(a, b, a.len() as int);
    } else {
        lemma_suffix_count(a, b, k - 1);
        let j = k - 1;
        let i = a.len() + j;
        assert((a + b)[i] == b[j]);
        if j + 1 < b.len() {
            assert((a + b)[i + 1] == b[j + 1]);
        }
        if j > 0 {
            assert((a + b)[i - 1] == b[j - 1]);
        } else if a.len() > 0 {
            assert((a + b)[i - 1] == a[a.len() - 1]);
        }
        assert(starts_vertex_line(a + b, i) == starts_vertex_line(b, j));
    }
}

/// Vertex lines of two texts joined at a line boundary add up.
pub proof fn lemma_count_concat(a: Seq<char>, b: Seq<char>)
    requires
        ends_line(a),
    ensures
        vertex_line_count(a + b) == vertex_line_count(a) + vertex_line_count(b),
        ends_line(b) ==> ends_line(a + b),
{
    lemma_suffix_count(a, b, b.len() as int);
    if b.len() > 0 {
        assert((a + b)[(a + b).len() - 1] == b[b.len() - 1]);
    }
}

proof fn lemma_one_line_prefix(t: Seq<char>, k: int)
    requires
        single_line(t.drop_last()),
        t.len() >= 1,
        1 <= k <= t.len(),
    ensures
        vertex_lines_before(t, k) == if starts_vertex_line(t, 0) {
            1nat
        } else {
            0nat
        },
    decreases k,
{
    if k > 1 {
        lemma_one_line_prefix(t, k - 1);
        let i = k - 1;
        assert(t[i - 1] == t.drop_last()[i - 1]);
        assert(!starts_vertex_line(t, i));
    } else {
        assert(vertex_lines_before(t, 0) == 0);
    }
}

/// A text that is one line, its break included, holds one vertex line if it
/// starts with `v ` and none otherwise.
pub proof fn lemma_one_line(body: Seq<char>)
    requires
        single_line(body),
    ensures
        vertex_line_count(body + "\n"@) == if body.len() >= 2 && body[0] == 'v' && body[1] == ' ' {
            1nat
        } else {
            0nat
        },
        ends_line(body + "\n"@),
{
    reveal_strlit("\n");
    let t = body + "\n"@;
    assert(t.drop_last() =~= body);
    lemma_one_line_prefix(t, t.len() as int);
    if body.len() >= 2 {
        assert(t[0] == body[0] && t[1] == body[1]);
    } else if body.len() == 1 {
        assert(t[1] == '\n');
    }
}


proof fn lemma_decimal_single_line(n: nat)
    ensures
        single_line(decimal(n)),
    decreases n,
{
    if n >= 10 {
        lemma_decimal_single_line(n / 10);
        let d = decimal(n / 10);
        let e = d.push(digit_char(n % 10));
        assert forall|i: int| 0 <= i < e.len() implies #[trigger] e[i] != '\n' by {
            if i < d.len() {
                assert(e[i] == d[i]);
            }
        }
    }
}

proof fn lemma_joined_single_line(ix: Seq<int>)
    ensures
        single_line(joined(ix)),
    decreases ix.len(),
{
    reveal_strlit(" ");
    if ix.len() == 1 {
        lemma_decimal_single_line(ix[0] as nat);
    } else if ix.len() > 1 {
        lemma_joined_single_line(ix.drop_last());
        lemma_decimal_single_line(ix.last() as nat);
        lemma_single_line_concat(joined(ix.drop_last()), " "@);
        lemma_single_line_concat(joined(ix.drop_last()) + " "@, decimal(ix.last() as nat));
    }
}

proof fn lemma_face_line_count(ix: Seq<int>)
    ensures
        vertex_line_count(face_line(ix)) == 0,
        ends_line(face_line(ix)),
{
    reveal_strlit("f ");
    lemma_joined_single_line(ix);
    lemma_single_line_concat("f "@, joined(ix));
    let body = "f "@ + joined(ix);
    assert(body[0] == 'f');
    lemma_one_line(body);
}

proof fn lemma_face_lines_count(faces: Seq<Seq<int>>, k: int)
    ensures
        vertex_line_count(face_lines(faces, k)) == 0,
        ends_line(face_lines(faces, k)),
    decreases k,
{
    if k > 0 {
        lemma_face_lines_count(faces, k - 1);
        lemma_face_line_count(faces[k - 1]);
        lemma_count_concat(face_lines(faces, k - 1), face_line(faces[k - 1]));
    } else {
        assert(vertex_lines_before(seq![], 0) == 0);
    }
}

/// The coordinate texts of `v` are single lines.
pub open spec fn vertex_single_line(v: VertexText) -> bool {
    single_line(v.x@) && single_line(v.y@)
}

proof fn lemma_ground_lines_count(vs: Seq<VertexText>, k: int)
    requires
        0 <= k <= vs.len(),
        forall|i: int| 0 <= i < vs.len() ==> vertex_single_line(#[trigger] vs[i]),
    ensures
        vertex_line_count(ground_lines(vs, k)) == k,
        ends_line(ground_lines(vs, k)),
    decreases k,
{
    if k > 0 {
        lemma_ground_lines_count(vs, k - 1);
        let v = vs[k - 1];
        assert(vertex_single_line(v));
        reveal_strlit("v ");
        reveal_strlit(" 0 ");
        lemma_single_line_concat("v "@, v.x@);
        lemma_single_line_concat("v "@ + v.x@, " 0 "@);
        lemma_single_line_concat("v "@ + v.x@ + " 0 "@, v.y@);
        let body = "v "@ + v.x@ + " 0 "@ + v.y@;
        assert(body[0] == 'v' && body[1] == ' ');
        lemma_one_line(body);
        assert(ground_line(v) == body + "\n"@);
        lemma_count_concat(ground_lines(vs, k - 1), ground_line(v));
    } else {
        assert(vertex_lines_before(seq![], 0) == 0);
    }
}

proof fn lemma_top_lines_count(vs: Seq<VertexText>, h: Seq<char>, k: int)
    requires
        0 <= k <= vs.len(),
        single_line(h),
        forall|i: int| 0 <= i < vs.len() ==> vertex_single_line(#[trigger] vs[i]),
    ensures
        vertex_line_count(top_lines(vs, h, k)) == k,
        ends_line(top_lines(vs, h, k)),
    decreases k,
{
    if k > 0 {
        lemma_top_lines_count(vs, h, k - 1);
        let v = vs[k - 1];
        assert(vertex_single_line(v));
        reveal_strlit("v ");
        reveal_strlit(" ");
        lemma_single_line_concat("v "@, v.x@);
        lemma_single_line_concat("v "@ + v.x@, " "@);
        lemma_single_line_concat("v "@ + v.x@ + " "@, h);
        lemma_single_line_concat("v "@ + v.x@ + " "@ + h, " "@);
        lemma_single_line_concat("v "@ + v.x@ + " "@ + h + " "@, v.y@);
        let body = "v "@ + v.x@ + " "@ + h + " "@ + v.y@;
        assert(body[0] == 'v' && body[1] == ' ');
        lemma_one_line(body);
        assert(top_line(v, h) == body + "\n"@);
        lemma_count_concat(top_lines(vs, h, k - 1), top_line(v, h));
    } else {
        assert(vertex_lines_before(seq![], 0) == 0);
    }
}

proof fn lemma_object_line_count(name: Seq<char>, id: nat)
    requires
        single_line(name),
        name.len() >= 1,
        name[0] == 'o',
    ensures
        vertex_line_count(name + decimal(id) + "\n"@) == 0,
        ends_line(name + decimal(id) + "\n"@),
{
    lemma_decimal_single_line(id);
    lemma_single_line_concat(name, decimal(id));
    let body = name + decimal(id);
    assert(body[0] == 'o');
    lemma_one_line(body);
}

/// Every text field of the buildings and open spaces is a single line, as
/// number formatting writes them.
pub open spec fn obj_fields_single_line(bs: Seq<ObjBuilding>, ss: Seq<ObjOpenSpace>) -> bool {
    &&& forall|k: int| 0 <= k < bs.len() ==> single_line((#[trigger] bs[k]).height@)
    &&& forall|k: int, i: int|
        0 <= k < bs.len() && 0 <= i < bs[k].footprint@.len() ==> vertex_single_line(
            #[trigger] bs[k].footprint@[i],
        )
    &&& forall|k: int, i: int|
        0 <= k < ss.len() && 0 <= i < ss[k].polygon@.len() ==> vertex_single_line(
            #[trigger] ss[k].polygon@[i],
        )
}

proof fn lemma_building_text_count(b: ObjBuilding, base: int)
    requires
        single_line(b.height@),
        forall|i: int| 0 <= i < b.footprint@.len() ==> vertex_single_line(#[trigger] b.footprint@[i]),
    ensures
        vertex_line_count(building_text(b, base)) == building_vertices(b),
        ends_line(building_text(b, base)),
{
    let n = b.footprint@.len();
    if n >= 3 {
        reveal_strlit("o building_");
        let head = "o building_"@ + decimal(b.id as nat) + "\n"@;
        let ground = ground_lines(b.footprint@, n as int);
        let top = top_lines(b.footprint@, b.height@, n as int);
        let faces = face_lines(crate::obj::prism_faces(base, n), n + 1int);
        lemma_object_line_count("o building_"@, b.id as nat);
        lemma_ground_lines_count(b.footprint@, n as int);
        lemma_top_lines_count(b.footprint@, b.height@, n as int);
        lemma_face_lines_count(crate::obj::prism_faces(base, n), n + 1int);
        lemma_count_concat(head, ground);
        lemma_count_concat(head + ground, top);
        lemma_count_concat(head + ground + top, faces);
    } else {
        assert(vertex_lines_before(seq![], 0) == 0);
    }
}

proof fn lemma_space_text_count(s: ObjOpenSpace, base: int)
    requires
        forall|i: int| 0 <= i < s.polygon@.len() ==> vertex_single_line(#[trigger] s.polygon@[i]),
    ensures
        vertex_line_count(space_text(s, base)) == space_vertices(s),
        ends_line(space_text(s, base)),
{
    let n = s.polygon@.len();
    if n >= 3 {
        reveal_strlit("o open_space_");
        let head = "o open_space_"@ + decimal(s.block_id as nat) + "\n"@;
        let ground = ground_lines(s.polygon@, n as int);
        let face = face_line(crate::obj::index_run(base, n));
        lemma_object_line_count("o open_space_"@, s.block_id as nat);
        lemma_ground_lines_count(s.polygon@, n as int);
        lemma_face_line_count(crate::obj::index_run(base, n));
        lemma_count_concat(head, ground);
        lemma_count_concat(head + ground, face);
    } else {
        assert(vertex_lines_before(seq![], 0) == 0);
    }
}

proof fn lemma_buildings_text_count(bs: Seq<ObjBuilding>, ss: Seq<ObjOpenSpace>, k: int)
    requires
        obj_fields_single_line(bs, ss),
        0 <= k <= bs.len(),
    ensures
        vertex_line_count(buildings_text(bs, k)) == building_base(bs, k) - 1,
        ends_line(buildings_text(bs, k)),
    decreases k,
{
    if k > 0 {
        lemma_buildings_text_count(bs, ss, k - 1);
        let b = bs[k - 1];
        assert(single_line(b.height@));
        assert forall|i: int| 0 <= i < b.footprint@.len() implies vertex_single_line(
            #[trigger] b.footprint@[i],
        ) by {
            assert(vertex_single_line(bs[k - 1].footprint@[i]));
        }
        lemma_building_text_count(b, building_base(bs, k - 1));
        lemma_count_concat(buildings_text(bs, k - 1), building_text(b, building_base(bs, k - 1)));
    } else {
        assert(vertex_lines_before(seq![], 0) == 0);
    }
}

proof fn lemma_spaces_text_count(bs: Seq<ObjBuilding>, ss: Seq<ObjOpenSpace>, k: int)
    requires
        obj_fields_single_line(bs, ss),
        0 <= k <= ss.len(),
    ensures
        vertex_line_count(spaces_text(bs, ss, k)) == space_base(bs, ss, k) - building_base(
            bs,
            bs.len() as int,
        ),
        ends_line(spaces_text(bs, ss, k)),
    decreases k,
{
    if k > 0 {
        lemma_spaces_text_count(bs, ss, k - 1);
        let s = ss[k - 1];
        assert forall|i: int| 0 <= i < s.polygon@.len() implies vertex_single_line(
            #[trigger] s.polygon@[i],
        ) by {
            assert(vertex_single_line(ss[k - 1].polygon@[i]));
        }
        lemma_space_text_count(s, space_base(bs, ss, k - 1));
        lemma_count_concat(spaces_text(bs, ss, k - 1), space_text(s, space_base(bs, ss, k - 1)));
    } else {
        assert(vertex_lines_before(seq![], 0) == 0);
    }
}

proof fn lemma_header_count()
    ensures
        vertex_line_count("# procedural-city-gen export\n"@) == 0,
        ends_line("# procedural-city-gen export\n"@),
{
    reveal_strlit("# procedural-city-gen export\n");
    reveal_strlit("# procedural-city-gen export");
    reveal_strlit("\n");
    assert("# procedural-city-gen export\n"@ =~= "# procedural-city-gen export"@ + "\n"@);
    lemma_one_line("# procedural-city-gen export"@);
}

proof fn lemma_spaces_text_prefix(bs: Seq<ObjBuilding>, ss: Seq<ObjOpenSpace>, k: int, j: int)
    requires
        0 <= k <= j,
    ensures
        spaces_text(bs, ss, j).len() >= spaces_text(bs, ss, k).len(),
        spaces_text(bs, ss, j).subrange(0, spaces_text(bs, ss, k).len() as int) == spaces_text(
            bs,
            ss,
            k,
        ),
    decreases j - k,
{
    if k < j {
        lemma_spaces_text_prefix(bs, ss, k, j - 1);
        let a = spaces_text(bs, ss, j - 1);
        let b = space_text(ss[j - 1], space_base(bs, ss, j - 1));
        assert((a + b).subrange(0, spaces_text(bs, ss, k).len() as int) =~= a.subrange(
            0,
            spaces_text(bs, ss, k).len() as int,
        ));
    } else {
        assert(spaces_text(bs, ss, j).subrange(0, spaces_text(bs, ss, k).len() as int)
            =~= spaces_text(bs, ss, k));
    }
}

proof fn lemma_buildings_text_prefix(bs: Seq<ObjBuilding>, k: int, j: int)
    requires
        0 <= k <= j,
    ensures
        buildings_text(bs, j).len() >= buildings_text(bs, k).len(),
        buildings_text(bs, j).subrange(0, buildings_text(bs, k).len() as int) == buildings_text(
            bs,
            k,
        ),
    decreases j - k,
{
    if k < j {
        lemma_buildings_text_prefix(bs, k, j - 1);
        let a = buildings_text(bs, j - 1);
        let b = building_text(bs[j - 1], building_base(bs, j - 1));
        assert((a + b).subrange(0, buildings_text(bs, k).len() as int) =~= a.subrange(
            0,
            buildings_text(bs, k).len() as int,
        ));
    } else {
        assert(buildings_text(bs, j).subrange(0, buildings_text(bs, k).len() as int)
            =~= buildings_text(bs, k));
    }
}

/// The file holds exactly as many vertex lines as its vertex total, so every
/// face index, which lies between 1 and that total, names a vertex line
/// actually written.
pub proof fn obj_vertex_lines_match_total(bs: Seq<ObjBuilding>, ss: Seq<ObjOpenSpace>)
    requires
        obj_fields_single_line(bs, ss),
    ensures
        vertex_line_count(obj_text(bs, ss)) == obj_vertex_total(bs, ss),
{
    let header = "# procedural-city-gen export\n"@;
    let bt = buildings_text(bs, bs.len() as int);
    let st = spaces_text(bs, ss, ss.len() as int);
    lemma_header_count();
    lemma_buildings_text_count(bs, ss, bs.len() as int);
    lemma_spaces_text_count(bs, ss, ss.len() as int);
    lemma_count_concat(header, bt);
    lemma_count_concat(header + bt, st);
}

/// Open space `k` with `n >= 3` outline vertices is written, right after the
/// `m` vertex lines that come before it in the file, as its name line, its `n`
/// vertex lines, and one face over exactly those lines: `m + 1 ..= m + n`.
pub proof fn obj_open_space_face_is_its_own_vertex_run(
    bs: Seq<ObjBuilding>,
    ss: Seq<ObjOpenSpace>,
    k: int,
)
    requires
        obj_fields_single_line(bs, ss),
        0 <= k < ss.len(),
        ss[k].polygon@.len() >= 3,
    ensures
        ({
            let before = "# procedural-city-gen export\n"@ + buildings_text(bs, bs.len() as int)
                + spaces_text(bs, ss, k);
            let n = ss[k].polygon@.len();
            let m = vertex_line_count(before);
            let own = "o open_space_"@ + decimal(ss[k].block_id as nat) + "\n"@ + ground_lines(
                ss[k].polygon@,
                n as int,
            ) + face_line(Seq::new(n, |i: int| m + 1 + i));
            &&& obj_text(bs, ss).len() >= (before + own).len()
            &&& obj_text(bs, ss).subrange(0, (before + own).len() as int) == before + own
            &&& vertex_line_count(before + own) == m + n
        }),
{
    let header = "# procedural-city-gen export\n"@;
    let bt = buildings_text(bs, bs.len() as int);
    let sk = spaces_text(bs, ss, k);
    let before = header + bt + sk;
    let s = ss[k];
    let n = s.polygon@.len();
    let base = space_base(bs, ss, k);
    lemma_header_count();
    lemma_buildings_text_count(bs, ss, bs.len() as int);
    lemma_spaces_text_count(bs, ss, k);
    lemma_count_concat(header, bt);
    lemma_count_concat(header + bt, sk);
    let m = vertex_line_count(before);
    assert(m == base - 1);
    assert(crate::obj::index_run(base, n) =~= Seq::new(n, |i: int| m + 1 + i));
    let own = space_text(s, base);
    assert(own == "o open_space_"@ + decimal(s.block_id as nat) + "\n"@ + ground_lines(
        s.polygon@,
        n as int,
    ) + face_line(Seq::new(n, |i: int| m + 1 + i)));
    assert forall|i: int| 0 <= i < s.polygon@.len() implies vertex_single_line(
        #[trigger] s.polygon@[i],
    ) by {
        assert(vertex_single_line(ss[k].polygon@[i]));
    }
    lemma_space_text_count(s, base);
    lemma_count_concat(before, own);
    lemma_spaces_text_prefix(bs, ss, k + 1, ss.len() as int);
    let st = spaces_text(bs, ss, ss.len() as int);
    let sk1 = spaces_text(bs, ss, k + 1);
    assert(sk1 == sk + own);
    let file = obj_text(bs, ss);
    assert(file == header + bt + st);
    assert(file.subrange(0, (before + own).len() as int) =~= before + own) by {
        assert(st.subrange(0, sk1.len() as int) == sk1);
        assert forall|i: int| 0 <= i < (before + own).len() implies #[trigger] file[i] == (before
            + own)[i] by {
            if i >= (header + bt).len() {
                let j = i - (header + bt).len();
                assert(file[i] == st[j]);
                assert(st[j] == st.subrange(0, sk1.len() as int)[j]);
            }
        }
    }
}

/// Building `k` with `n >= 3` footprint vertices is written, right after the
/// `m` vertex lines that come before it in the file, as its name line, its
/// `2n` vertex lines (bottom ring `m + 1 ..= m + n`, then top ring
/// `m + n + 1 ..= m + 2n`), one quad per wall (bottom `i`, bottom `i + 1`, top
/// `i + 1`, top `i`, wrapping around), and the roof over the whole top ring.
pub proof fn obj_building_faces_use_its_own_vertex_run(
    bs: Seq<ObjBuilding>,
    ss: Seq<ObjOpenSpace>,
    k: int,
)
    requires
        obj_fields_single_line(bs, ss),
        0 <= k < bs.len(),
        bs[k].footprint@.len() >= 3,
    ensures
        ({
            let before = "# procedural-city-gen export\n"@ + buildings_text(bs, k);
            let n = bs[k].footprint@.len();
            let m = vertex_line_count(before);
            let own = "o building_"@ + decimal(bs[k].id as nat) + "\n"@ + ground_lines(
                bs[k].footprint@,
                n as int,
            ) + top_lines(bs[k].footprint@, bs[k].height@, n as int) + face_lines(
                Seq::new(
                    n,
                    |i: int|
                        seq![
                            m + 1 + i,
                            m + 1 + (i + 1) % (n as int),
                            m + 1 + n + (i + 1) % (n as int),
                            m + 1 + n + i,
                        ],
                ).push(Seq::new(n, |i: int| m + 1 + n + i)),
                n + 1int,
            );
            &&& obj_text(bs, ss).len() >= (before + own).len()
            &&& obj_text(bs, ss).subrange(0, (before + own).len() as int) == before + own
            &&& vertex_line_count(before + own) == m + 2 * n
        }),
{
    let header = "# procedural-city-gen export\n"@;
    let bk = buildings_text(bs, k);
    let before = header + bk;
    let b = bs[k];
    let n = b.footprint@.len();
    let base = building_base(bs, k);
    lemma_header_count();
    lemma_buildings_text_count(bs, ss, k);
    lemma_count_concat(header, bk);
    let m = vertex_line_count(before);
    assert(m == base - 1);
    let own = building_text(b, base);
    assert(crate::obj::prism_faces(base, n) =~= Seq::new(
        n,
        |i: int|
            seq![
                m + 1 + i,
                m + 1 + (i + 1) % (n as int),
                m + 1 + n + (i + 1) % (n as int),
                m + 1 + n + i,
            ],
    ).push(Seq::new(n, |i: int| m + 1 + n + i))) by {
        let pf = crate::obj::prism_faces(base, n);
        let ex = Seq::new(
            n,
            |i: int|
                seq![
                    m + 1 + i,
                    m + 1 + (i + 1) % (n as int),
                    m + 1 + n + (i + 1) % (n as int),
                    m + 1 + n + i,
                ],
        ).push(Seq::new(n, |i: int| m + 1 + n + i));
        assert forall|f: int| 0 <= f < pf.len() implies #[trigger] pf[f] == ex[f] by {
            if f < n {
                assert(pf[f] =~= ex[f]);
            } else {
                assert(pf[f] =~= ex[f]);
            }
        }
    }
    assert(single_line(b.height@));
    assert forall|i: int| 0 <= i < b.footprint@.len() implies vertex_single_line(
        #[trigger] b.footprint@[i],
    ) by {
        assert(vertex_single_line(bs[k].footprint@[i]));
    }
    lemma_building_text_count(b, base);
    lemma_count_concat(before, own);
    lemma_buildings_text_prefix(bs, k + 1, bs.len() as int);
    let bt = buildings_text(bs, bs.len() as int);
    let bk1 = buildings_text(bs, k + 1);
    assert(bk1 == bk + own);
    let st = spaces_text(bs, ss, ss.len() as int);
    let file = obj_text(bs, ss);
    assert(file == header + bt + st);
    assert(file.subrange(0, (before + own).len() as int) =~= before + own) by {
        assert(bt.subrange(0, bk1.len() as int) == bk1);
        assert forall|i: int| 0 <= i < (before + own).len() implies #[trigger] file[i] == (before
            + own)[i] by {
            if i >= header.len() {
                let j = i - header.len();
                assert(file[i] == (header + bt)[i]);
                assert((header + bt)[i] == bt[j]);
                assert(bt[j] == bt.subrange(0, bk1.len() as int)[j]);
            }
        }
    }
}

} // verus!
