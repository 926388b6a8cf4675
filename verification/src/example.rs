//! The exporters of the example program: a mesh showing the frames along a developed
//! surface, and a drawing of its flattened curve.
use crate::obj::{
    corner_of_frame, frame_start, lemma_quad_text, lemma_xyz_line, line_record, quad_record, xyz_record,
    face_line, line_element, normal_line, push_coords_line, push_face, push_line_element,
    usize_refs, vertex_line, Coords,
};
use crate::svg::{
    lemma_index_of_after, lemma_no_gt_concat, no_gt,
    lemma_tick_records, tick_records,
    collect_positions, path_vertices, positions, push_path_vertices, push_ticks, ticks_text,
    FlatSample,
};
use crate::text::{
    concat, index_of, insert_after_tag, lemma_concat_new_step, lemma_index_of_first, push_str,
    split_after_tag,
};
use crate::records::{
    join_groups, lemma_join_groups_index, lemma_records_text_append, lemma_records_text_groups,
    lemma_records_text_lines, lemma_records_text_new, lemma_records_text_small, records_text,
};
use vstd::prelude::*;

verus! {

/// The rendered vertices of one frame: the curve point, the tips of the scaled tangent,
/// normal and horizontal, and the surface normal.
pub struct SurfaceSample {
    pub base: Coords,
    pub tangent_tip: Coords,
    pub normal_tip: Coords,
    pub horizontal_tip: Coords,
    pub normal: Coords,
}

pub open spec fn sample_vertices(s: SurfaceSample) -> Seq<char> {
    vertex_line(s.base) + vertex_line(s.tangent_tip) + vertex_line(s.normal_tip) + vertex_line(
        s.horizontal_tip,
    )
}

/// The quad from frame `i` to frame `i + 1`: horizontal tip, base, next base, next
/// horizontal tip; the corners of each frame carry that frame's normal.
pub open spec fn sample_face(i: nat) -> Seq<(nat, nat)> {
    let b = 4 * i + 1;
    seq![(b + 3, i + 1), (b, i + 1), (b + 4, i + 2), (b + 7, i + 2)]
}

/// Base to tangent tip, base to normal tip.
pub open spec fn sample_lines(i: nat) -> Seq<char> {
    let b = 4 * i + 1;
    line_element(b, b + 1) + line_element(b, b + 2)
}

/// The whole mesh: four vertices per frame, one normal per frame, quads between
/// consecutive frames, two line elements per frame.
pub open spec fn example_obj_text(curve: Seq<SurfaceSample>) -> Seq<char> {
    let n = curve.len();
    concat(Seq::new(n, |i: int| sample_vertices(curve[i]))) + concat(
        Seq::new(n, |i: int| normal_line(curve[i].normal)),
    ) + concat(Seq::new((n - 1) as nat, |i: int| face_line(sample_face(i as nat)))) + concat(
        Seq::new(n, |i: int| sample_lines(i as nat)),
    )
}

/// The mesh of the frames along a developed surface.
pub fn to_obj(curve: &[SurfaceSample]) -> (r: Result<String, core::fmt::Error>)
    requires
        curve.len() >= 1,
        curve.len() * 4 + 8 <= usize::MAX,
    ensures
        r matches Ok(s) && s@ == example_obj_text(curve@),
{
    let mut string = String::new();
    let n = curve.len();
    let ghost c = curve@;

    let ghost fv = |i: int| sample_vertices(c[i]);
    let mut i: usize = 0;
    assert(string@ =~= concat(Seq::new(0, fv)));
    while i < n
        invariant
            i <= n,
            n == curve.len(),
            c == curve@,
            fv == (|i: int| sample_vertices(c[i])),
            string@ == concat(Seq::new(i as nat, fv)),
        decreases n - i,
    {
        let s = &curve[i];
        let ghost before = string@;
        push_coords_line(&mut string, "v ", &s.base);
        push_coords_line(&mut string, "v ", &s.tangent_tip);
        push_coords_line(&mut string, "v ", &s.normal_tip);
        push_coords_line(&mut string, "v ", &s.horizontal_tip);
        proof {
            assert(string@ =~= before + fv(i as int));
            lemma_concat_new_step(i as nat, fv);
        }
        i += 1;
    }

    let ghost c1 = string@;
    let ghost fnl = |i: int| normal_line(c[i].normal);
    let mut i: usize = 0;
    while i < n
        invariant
            i <= n,
            n == curve.len(),
            c == curve@,
            fnl == (|i: int| normal_line(c[i].normal)),
            string@ == c1 + concat(Seq::new(i as nat, fnl)),
        decreases n - i,
    {
        push_coords_line(&mut string, "vn ", &curve[i].normal);
        proof {
            lemma_concat_new_step(i as nat, fnl);
        }
        i += 1;
    }

    let ghost c2 = string@;
    let ghost ff = |i: int| face_line(sample_face(i as nat));
    let mut i: usize = 0;
    while i < n - 1
        invariant
            i <= n - 1,
            n >= 1,
            n * 4 + 8 <= usize::MAX,
            ff == (|i: int| face_line(sample_face(i as nat))),
            string@ == c2 + concat(Seq::new(i as nat, ff)),
        decreases n - 1 - i,
    {
        let normal = i + 1;
        let next_normal = normal + 1;
        let base = i * 4 + 1;
        let refs = vec![
            (base + 3, normal),
            (base, normal),
            (base + 4, next_normal),
            (base + 3 + 4, next_normal),
        ];
        push_face(&mut string, &refs);
        proof {
            assert(usize_refs(refs@) =~= sample_face(i as nat));
            lemma_concat_new_step(i as nat, ff);
        }
        i += 1;
    }

    let ghost c3 = string@;
    let ghost fl = |i: int| sample_lines(i as nat);
    let mut i: usize = 0;
    while i < n
        invariant
            i <= n,
            n * 4 + 8 <= usize::MAX,
            fl == (|i: int| sample_lines(i as nat)),
            string@ == c3 + concat(Seq::new(i as nat, fl)),
        decreases n - i,
    {
        let base = i * 4 + 1;
        let ghost before = string@;
        push_line_element(&mut string, base, base + 1);
        push_line_element(&mut string, base, base + 2);
        proof {
            assert(string@ =~= before + fl(i as int));
            lemma_concat_new_step(i as nat, fl);
        }
        i += 1;
    }
    Ok(string)
}

/// The view box of the example drawing, rendered as text.
pub struct ViewBox {
    pub x: String,
    pub y: String,
    pub width: String,
    pub height: String,
}

/// The opening `svg` tag up to, not including, its closing `>`.
pub open spec fn view_box_open(v: ViewBox) -> Seq<char> {
    "<svg version=\"1.1\" viewBox=\""@ + v.x@ + " "@ + v.y@ + " "@ + v.width@ + " "@ + v.height@
        + "\" xmlns=\"http://www.w3.org/2000/svg\" transform=\"scale(1,-1)\" "@
}

/// The empty drawing; between its tags stands a backslash and an `n`, not a line break.
pub open spec fn view_box_text(v: ViewBox) -> Seq<char> {
    view_box_open(v) + ">\\n</svg>"@
}

/// The group drawn: the flattened curve as one path, then the ticks.
pub open spec fn example_svg_body(curve: Seq<FlatSample>) -> Seq<char> {
    "  <g>\n"@ + "  <path d=\""@ + path_vertices(positions(curve))
        + "\" stroke=\"black\" fill=\"transparent\" />\n"@ + ticks_text(curve) + "</g>\n"@
}

fn start_svg(v: &ViewBox) -> (s: String)
    ensures
        s@ == view_box_text(*v),
        index_of(s@, '>') + 2 <= s@.len(),
{
    let mut s = String::new();
    push_str(&mut s, "<svg version=\"1.1\" viewBox=\"");
    push_str(&mut s, v.x.as_str());
    push_str(&mut s, " ");
    push_str(&mut s, v.y.as_str());
    push_str(&mut s, " ");
    push_str(&mut s, v.width.as_str());
    push_str(&mut s, " ");
    push_str(&mut s, v.height.as_str());
    push_str(&mut s, "\" xmlns=\"http://www.w3.org/2000/svg\" transform=\"scale(1,-1)\" ");
    push_str(&mut s, ">\\n</svg>");
    proof {
        reveal_strlit(">\\n</svg>");
        assert(s@ =~= view_box_text(*v));
        let j = s@.len() - 9;
        assert(s@[j] == '>');
        lemma_index_of_first(s@, '>', j);
    }
    s
}

/// The drawing of the flattened curve, with a tick at every sample but the first.
pub fn to_svg(view_box: &ViewBox, curve: &[FlatSample]) -> (r: Result<String, core::fmt::Error>)
    ensures
        r matches Ok(s) && s@ == insert_after_tag(view_box_text(*view_box), example_svg_body(curve@)),
{
    let doc = start_svg(view_box);
    let (mut string, eof) = split_after_tag(&doc);
    push_str(&mut string, "  <g>\n");
    push_str(&mut string, "  <path d=\"");
    let pts = collect_positions(curve);
    push_path_vertices(&mut string, &pts);
    push_str(&mut string, "\" stroke=\"black\" fill=\"transparent\" />\n");
    push_ticks(&mut string, curve);
    push_str(&mut string, "</g>\n");
    push_str(&mut string, eof.as_str());
    assert(string@ =~= insert_after_tag(view_box_text(*view_box), example_svg_body(curve@)));
    Ok(string)
}

/// Each quad of the example mesh joins frame `i` to frame `i + 1` (two corners on each,
/// with that frame's normal), and names only vertices and normals the document writes.
pub proof fn lemma_sample_faces_join_consecutive_frames(n: nat, i: nat)
    requires
        i + 1 < n,
    ensures
        sample_face(i).len() == 4,
        corner_of_frame(sample_face(i)[0], i, 4),
        corner_of_frame(sample_face(i)[1], i, 4),
        corner_of_frame(sample_face(i)[2], i + 1, 4),
        corner_of_frame(sample_face(i)[3], i + 1, 4),
        forall|k: int|
            0 <= k < 4 ==> 1 <= #[trigger] sample_face(i)[k].0 <= n * 4 && 1 <= sample_face(
                i,
            )[k].1 <= n,
{
    assert(frame_start(i, 4) == 4 * i + 1);
    assert(frame_start(i + 1, 4) == 4 * i + 5);
    assert(frame_start(i + 2, 4) == 4 * i + 9);
}

/// The vertices of one example frame: base, tangent tip, normal tip, horizontal tip.
pub open spec fn sample_vertex_records(s: SurfaceSample) -> Seq<Seq<char>> {
    seq![
        xyz_record("v "@, s.base),
        xyz_record("v "@, s.tangent_tip),
        xyz_record("v "@, s.normal_tip),
        xyz_record("v "@, s.horizontal_tip),
    ]
}

/// The records of the example mesh, in order: four vertices per frame; one normal per
/// frame, frame `i`'s own; for frames `i`, `i + 1` the quad through the horizontal tip and
/// base of frame `i` (`4i+4//i+1 4i+1//i+1`) and the base and horizontal tip of frame
/// `i + 1` (`4i+5//i+2 4i+8//i+2`); per frame the lines from its base to its tangent tip
/// and to its normal tip.
pub open spec fn example_obj_records(curve: Seq<SurfaceSample>) -> Seq<Seq<char>> {
    let n = curve.len();
    join_groups(Seq::new(n, |i: int| sample_vertex_records(curve[i]))) + Seq::new(
        n,
        |i: int| xyz_record("vn "@, curve[i].normal),
    ) + Seq::new(
        (n - 1) as nat,
        |i: int|
            quad_record(
                ((4 * i + 4) as nat, (i + 1) as nat),
                ((4 * i + 1) as nat, (i + 1) as nat),
                ((4 * i + 5) as nat, (i + 2) as nat),
                ((4 * i + 8) as nat, (i + 2) as nat),
            ),
    ) + join_groups(
        Seq::new(
            n,
            |i: int|
                seq![
                    line_record((4 * i + 1) as nat, (4 * i + 2) as nat),
                    line_record((4 * i + 1) as nat, (4 * i + 3) as nat),
                ],
        ),
    )
}

proof fn lemma_sample_vertices_text(s: SurfaceSample)
    ensures
        records_text(sample_vertex_records(s)) == sample_vertices(s),
{
    let a = xyz_record("v "@, s.base);
    let b = xyz_record("v "@, s.tangent_tip);
    let c = xyz_record("v "@, s.normal_tip);
    let d = xyz_record("v "@, s.horizontal_tip);
    lemma_records_text_lines(a, b, c, d);
    lemma_xyz_line("v "@, s.base);
    lemma_xyz_line("v "@, s.tangent_tip);
    lemma_xyz_line("v "@, s.normal_tip);
    lemma_xyz_line("v "@, s.horizontal_tip);
    assert(sample_vertices(s) =~= ((a + "\n"@) + (b + "\n"@)) + ((c + "\n"@) + (d + "\n"@)));
}

proof fn lemma_sample_lines_text(i: int)
    requires
        0 <= i,
    ensures
        records_text(
            seq![
                line_record((4 * i + 1) as nat, (4 * i + 2) as nat),
                line_record((4 * i + 1) as nat, (4 * i + 3) as nat),
            ],
        ) == sample_lines(i as nat),
{
    let a = line_record((4 * i + 1) as nat, (4 * i + 2) as nat);
    let b = line_record((4 * i + 1) as nat, (4 * i + 3) as nat);
    lemma_records_text_lines(a, b, a, a);
    assert(records_text(seq![a, b]) =~= sample_lines(i as nat));
}

/// The example mesh consists of exactly the records `example_obj_records`, one per line: in
/// particular frame `i`'s normal record carries frame `i`'s own normal.
pub proof fn lemma_example_obj_records(curve: Seq<SurfaceSample>)
    requires
        curve.len() >= 1,
    ensures
        example_obj_text(curve) == records_text(example_obj_records(curve)),
{
    let n = curve.len();
    let gv = Seq::new(n, |i: int| sample_vertex_records(curve[i]));
    let rn = |i: int| xyz_record("vn "@, curve[i].normal);
    let rf = |i: int|
        quad_record(
            ((4 * i + 4) as nat, (i + 1) as nat),
            ((4 * i + 1) as nat, (i + 1) as nat),
            ((4 * i + 5) as nat, (i + 2) as nat),
            ((4 * i + 8) as nat, (i + 2) as nat),
        );
    let gl = Seq::new(
        n,
        |i: int|
            seq![
                line_record((4 * i + 1) as nat, (4 * i + 2) as nat),
                line_record((4 * i + 1) as nat, (4 * i + 3) as nat),
            ],
    );
    let a = join_groups(gv);
    let b = Seq::new(n, rn);
    let c = Seq::new((n - 1) as nat, rf);
    let d = join_groups(gl);
    assert(example_obj_records(curve) =~= a + b + c + d);
    lemma_records_text_append(a + b + c, d);
    lemma_records_text_append(a + b, c);
    lemma_records_text_append(a, b);

    lemma_records_text_groups(gv);
    assert forall|i: int| 0 <= i < n implies #[trigger] records_text(gv[i]) == sample_vertices(curve[i]) by {
        lemma_sample_vertices_text(curve[i]);
    }
    assert(gv.map_values(|g: Seq<Seq<char>>| records_text(g)) =~= Seq::new(
        n,
        |i: int| sample_vertices(curve[i]),
    ));

    lemma_records_text_new(n, rn);
    assert forall|i: int| 0 <= i < n implies #[trigger] rn(i) + "\n"@ == normal_line(curve[i].normal) by {
        lemma_xyz_line("vn "@, curve[i].normal);
    }
    assert(Seq::new(n, |i: int| rn(i) + "\n"@) =~= Seq::new(n, |i: int| normal_line(curve[i].normal)));

    lemma_records_text_new((n - 1) as nat, rf);
    assert forall|i: int| 0 <= i < n - 1 implies #[trigger] rf(i) + "\n"@ == face_line(
        sample_face(i as nat),
    ) by {
        let f = sample_face(i as nat);
        lemma_quad_text(f);
        assert(rf(i) == quad_record(f[0], f[1], f[2], f[3]));
    }
    assert(Seq::new((n - 1) as nat, |i: int| rf(i) + "\n"@) =~= Seq::new(
        (n - 1) as nat,
        |i: int| face_line(sample_face(i as nat)),
    ));

    lemma_records_text_groups(gl);
    assert forall|i: int| 0 <= i < n implies #[trigger] records_text(gl[i]) == sample_lines(i as nat) by {
        lemma_sample_lines_text(i);
    }
    assert(gl.map_values(|g: Seq<Seq<char>>| records_text(g)) =~= Seq::new(
        n,
        |i: int| sample_lines(i as nat),
    ));
}

/// Record by record: record `4 * i + s` is vertex `s` of frame `i`, and record `4 * n + i`
/// is the normal of frame `i` itself.
pub proof fn lemma_example_record_positions(curve: Seq<SurfaceSample>, i: int)
    requires
        0 <= i < curve.len(),
    ensures
        ({
            let n = curve.len();
            let rs = example_obj_records(curve);
            &&& rs[4 * i] == xyz_record("v "@, curve[i].base)
            &&& rs[4 * i + 1] == xyz_record("v "@, curve[i].tangent_tip)
            &&& rs[4 * i + 2] == xyz_record("v "@, curve[i].normal_tip)
            &&& rs[4 * i + 3] == xyz_record("v "@, curve[i].horizontal_tip)
            &&& rs[4 * n + i] == xyz_record("vn "@, curve[i].normal)
        }),
{
    let n = curve.len();
    let g = |j: int| sample_vertex_records(curve[j]);
    lemma_join_groups_index(n, 4, g);
    assert(g(i)[0] == xyz_record("v "@, curve[i].base));
    assert(g(i)[1] == xyz_record("v "@, curve[i].tangent_tip));
    assert(g(i)[2] == xyz_record("v "@, curve[i].normal_tip));
    assert(g(i)[3] == xyz_record("v "@, curve[i].horizontal_tip));
    assert(Seq::new(n, |j: int| sample_vertex_records(curve[j])) == Seq::new(n, g));
}

/// The records of the example drawing's group: its opening, the path through the
/// positions, a tick for every sample but the first (from that sample's origin along that
/// sample's direction), its closing.
pub open spec fn example_svg_records(curve: Seq<FlatSample>) -> Seq<Seq<char>> {
    seq![
        "  <g>"@,
        "  <path d=\""@ + path_vertices(curve.map_values(|s: FlatSample| s.position))
            + "\" stroke=\"black\" fill=\"transparent\" />"@,
    ] + tick_records(curve) + seq!["</g>"@]
}

/// The example drawing's group consists of exactly the records `example_svg_records`, one
/// per line.
pub proof fn lemma_example_svg_records(curve: Seq<FlatSample>)
    ensures
        example_svg_body(curve) == records_text(example_svg_records(curve)),
{
    reveal_strlit("  <g>\n");
    reveal_strlit("  <g>");
    reveal_strlit("</g>\n");
    reveal_strlit("</g>");
    reveal_strlit("\n");
    reveal_strlit("\" stroke=\"black\" fill=\"transparent\" />");
    reveal_strlit("\" stroke=\"black\" fill=\"transparent\" />\n");
    let p = "  <path d=\""@ + path_vertices(curve.map_values(|s: FlatSample| s.position))
        + "\" stroke=\"black\" fill=\"transparent\" />"@;
    assert(curve.map_values(|s: FlatSample| s.position) =~= positions(curve));
    let a = seq!["  <g>"@, p];
    let t = tick_records(curve);
    let z = seq!["</g>"@];
    assert(example_svg_records(curve) =~= a + t + z);
    lemma_records_text_append(a + t, z);
    lemma_records_text_append(a, t);
    lemma_records_text_small("  <g>"@, p, p, p);
    lemma_records_text_small("</g>"@, p, p, p);
    lemma_tick_records(curve);
    assert(example_svg_body(curve) =~= records_text(a) + records_text(t) + records_text(z));
}

/// The example drawing's group lands right after its opening tag and the backslash that
/// follows it; an `n` and the closing tag come after the group (the tag's line break is
/// written as a backslash and an `n`). This holds when the rendered numbers hold no `>`.
pub proof fn lemma_example_drawing_placement(v: ViewBox, body: Seq<char>)
    requires
        no_gt(v.x@),
        no_gt(v.y@),
        no_gt(v.width@),
        no_gt(v.height@),
    ensures
        insert_after_tag(view_box_text(v), body) == view_box_open(v) + ">\\"@ + body + "n</svg>"@,
{
    reveal_strlit("<svg version=\"1.1\" viewBox=\"");
    reveal_strlit(" ");
    reveal_strlit("\" xmlns=\"http://www.w3.org/2000/svg\" transform=\"scale(1,-1)\" ");
    reveal_strlit(">\\n</svg>");
    reveal_strlit(">\\");
    reveal_strlit("n</svg>");
    let l1 = "<svg version=\"1.1\" viewBox=\""@;
    let sp = " "@;
    let l2 = "\" xmlns=\"http://www.w3.org/2000/svg\" transform=\"scale(1,-1)\" "@;
    assert(no_gt(l1));
    assert(no_gt(sp));
    assert(no_gt(l2));
    lemma_no_gt_concat(l1, v.x@);
    lemma_no_gt_concat(l1 + v.x@, sp);
    lemma_no_gt_concat(l1 + v.x@ + sp, v.y@);
    lemma_no_gt_concat(l1 + v.x@ + sp + v.y@, sp);
    lemma_no_gt_concat(l1 + v.x@ + sp + v.y@ + sp, v.width@);
    lemma_no_gt_concat(l1 + v.x@ + sp + v.y@ + sp + v.width@, sp);
    lemma_no_gt_concat(l1 + v.x@ + sp + v.y@ + sp + v.width@ + sp, v.height@);
    lemma_no_gt_concat(l1 + v.x@ + sp + v.y@ + sp + v.width@ + sp + v.height@, l2);
    let open = view_box_open(v);
    assert(no_gt(open));
    let tail = ">\\n</svg>"@;
    lemma_index_of_after(open, tail);
    assert(index_of(tail, '>') == 0);
    let text = view_box_text(v);
    assert(text.take(open.len() as int + 2) =~= open + ">\\"@);
    assert(text.skip(open.len() as int + 2) =~= "n</svg>"@);
}

} // verus!
