//! Wavefront `.obj` meshes of developed surfaces and triangular pipes.
//!
//! Coordinates arrive already rendered as text; this module lays out the records,
//! numbers the vertices and normals (1-based, as the format requires) and connects
//! consecutive frames with faces.
use crate::text::{
    concat, decimal, gaps, lemma_concat_new_step, lemma_concat_push, lines, push_chars, push_decimal,
    push_str, split_lines,
};
use crate::records::{
    join_groups, lemma_concat_small, lemma_join_groups_index, lemma_records_text_append,
    lemma_records_text_groups, lemma_records_text_new, lemma_records_text_lines, lemma_records_text_small, records_text,
};
use crate::StrFileData;
use vstd::prelude::*;

verus! {

/// Three coordinates, each already rendered as text.
pub struct Coords {
    pub x: String,
    pub y: String,
    pub z: String,
}

pub open spec fn coords_text(c: Coords) -> Seq<char> {
    c.x@ + " "@ + c.y@ + " "@ + c.z@
}

/// `v x y z`
pub open spec fn vertex_line(c: Coords) -> Seq<char> {
    "v "@ + coords_text(c) + "\n"@
}

/// `vn x y z`
pub open spec fn normal_line(c: Coords) -> Seq<char> {
    "vn "@ + coords_text(c) + "\n"@
}

/// One corner of a face: ` vertex//normal`.
pub open spec fn face_ref(r: (nat, nat)) -> Seq<char> {
    " "@ + decimal(r.0) + "//"@ + decimal(r.1)
}

/// `f v//n v//n ...`
pub open spec fn face_line(refs: Seq<(nat, nat)>) -> Seq<char> {
    "f"@ + concat(refs.map_values(|r: (nat, nat)| face_ref(r))) + "\n"@
}

/// `l a b`
pub open spec fn line_element(a: nat, b: nat) -> Seq<char> {
    "l "@ + decimal(a) + " "@ + decimal(b) + "\n"@
}

/// `# line`
pub open spec fn comment_line(l: Seq<char>) -> Seq<char> {
    "# "@ + l + "\n"@
}

/// One comment record per line of the comment, if there is one.
pub open spec fn comment_text(comment: Option<String>) -> Seq<char> {
    match comment {
        Some(c) => concat(lines(c@).map_values(|l: Seq<char>| comment_line(l))),
        None => Seq::empty(),
    }
}

pub open spec fn usize_refs(refs: Seq<(usize, usize)>) -> Seq<(nat, nat)> {
    refs.map_values(|r: (usize, usize)| (r.0 as nat, r.1 as nat))
}

/// Appends `tag`, the three coordinates and a line feed.
pub(crate) fn push_coords_line(out: &mut String, tag: &str, c: &Coords)
    ensures
        final(out)@ == old(out)@ + (tag@ + coords_text(*c) + "\n"@),
{
    let ghost start = out@;
    push_str(out, tag);
    push_str(out, c.x.as_str());
    push_str(out, " ");
    push_str(out, c.y.as_str());
    push_str(out, " ");
    push_str(out, c.z.as_str());
    push_str(out, "\n");
    assert(out@ =~= start + (tag@ + coords_text(*c) + "\n"@));
}

/// Appends a face record.
pub(crate) fn push_face(out: &mut String, refs: &Vec<(usize, usize)>)
    ensures
        final(out)@ == old(out)@ + face_line(usize_refs(refs@)),
{
    let ghost start = out@;
    let ghost all = usize_refs(refs@);
    let ghost fr = |r: (nat, nat)| face_ref(r);
    push_str(out, "f");
    let mut i: usize = 0;
    while i < refs.len()
        invariant
            i <= refs.len(),
            all == usize_refs(refs@),
            fr == (|r: (nat, nat)| face_ref(r)),
            out@ == start + "f"@ + concat(all.take(i as int).map_values(fr)),
        decreases refs.len() - i,
    {
        let (v, n) = refs[i];
        push_str(out, " ");
        push_decimal(out, v);
        push_str(out, "//");
        push_decimal(out, n);
        proof {
            assert(all.take(i as int + 1).map_values(fr) =~= all.take(i as int).map_values(
                fr,
            ).push(face_ref(all[i as int])));
            lemma_concat_push(all.take(i as int).map_values(fr), face_ref(all[i as int]));
        }
        i += 1;
        assert(out@ =~= start + "f"@ + concat(all.take(i as int).map_values(fr)));
    }
    push_str(out, "\n");
    assert(all.take(i as int) =~= all);
    assert(out@ =~= start + face_line(all));
}

/// Appends a line element record.
pub(crate) fn push_line_element(out: &mut String, a: usize, b: usize)
    ensures
        final(out)@ == old(out)@ + line_element(a as nat, b as nat),
{
    let ghost start = out@;
    push_str(out, "l ");
    push_decimal(out, a);
    push_str(out, " ");
    push_decimal(out, b);
    push_str(out, "\n");
    assert(out@ =~= start + line_element(a as nat, b as nat));
}

/// Appends one comment record per line of `comment`.
fn push_comments(out: &mut String, comment: &Option<String>)
    ensures
        final(out)@ == old(out)@ + comment_text(*comment),
{
    match comment {
        None => {
            assert(old(out)@ + comment_text(*comment) =~= old(out)@);
        },
        Some(c) => {
            let ghost start = out@;
            let ghost cl = |l: Seq<char>| comment_line(l);
            let ls = split_lines(c.as_str());
            let ghost all = lines(c@);
            let mut i: usize = 0;
            while i < ls.len()
                invariant
                    i <= ls.len(),
                    ls@.len() == all.len(),
                    all == lines(c@),
                    forall|j: int| 0 <= j < ls@.len() ==> #[trigger] ls@[j]@ == all[j],
                    cl == (|l: Seq<char>| comment_line(l)),
                    out@ == start + concat(all.take(i as int).map_values(cl)),
                decreases ls.len() - i,
            {
                push_str(out, "# ");
                push_chars(out, &ls[i]);
                push_str(out, "\n");
                proof {
                    assert(all.take(i as int + 1).map_values(cl) =~= all.take(i as int).map_values(
                        cl,
                    ).push(comment_line(all[i as int])));
                    lemma_concat_push(all.take(i as int).map_values(cl), comment_line(all[i as int]));
                }
                i += 1;
                assert(out@ =~= start + concat(all.take(i as int).map_values(cl)));
            }
            assert(all.take(i as int) =~= all);
        },
    }
}


/// The layout choices of a surface export.
pub struct ObjConfig {
    /// Written first, one comment record per line.
    pub comment: Option<String>,
    /// Also write the tangent and normal tips of each frame, and line elements to them.
    pub write_frame: bool,
}

impl Default for ObjConfig {
    fn default() -> (cfg: Self)
        ensures
            cfg.comment is None,
            cfg.write_frame,
    {
        ObjConfig { comment: None, write_frame: true }
    }
}

/// The rendered vertices of one frame of a developed surface.
pub struct SurfaceFrame {
    /// The point on the curve.
    pub base: Coords,
    /// The far end of the ruling through `base`.
    pub ruling_tip: Coords,
    /// The tip of the (scaled) tangent.
    pub tangent_tip: Coords,
    /// The tip of the (scaled) surface normal.
    pub normal_tip: Coords,
    /// The surface normal, written as the frame's vertex normal.
    pub normal: Coords,
}

pub open spec fn vertices_per_frame(write_frame: bool) -> nat {
    if write_frame {
        4
    } else {
        2
    }
}

/// The vertex records of one frame: base and ruling tip, then tangent and normal tips.
pub open spec fn surface_frame_vertices(f: SurfaceFrame, write_frame: bool) -> Seq<char> {
    vertex_line(f.base) + vertex_line(f.ruling_tip) + if write_frame {
        vertex_line(f.tangent_tip) + vertex_line(f.normal_tip)
    } else {
        Seq::<char>::empty()
    }
}

/// The first vertex number of frame `i`.
pub open spec fn frame_start(i: nat, vpf: nat) -> nat {
    i * vpf + 1
}

/// The quad from frame `i` to frame `i + 1`: ruling tip, base, next base, next ruling tip;
/// the corners of each frame carry that frame's normal.
pub open spec fn surface_face(i: nat, vpf: nat) -> Seq<(nat, nat)> {
    let b = frame_start(i, vpf);
    seq![(b + 1, i + 1), (b, i + 1), (b + vpf, i + 2), (b + 1 + vpf, i + 2)]
}

/// The line elements of frame `i`: base to tangent tip, base to normal tip.
pub open spec fn surface_frame_lines(i: nat, vpf: nat) -> Seq<char> {
    let b = frame_start(i, vpf);
    line_element(b, b + 2) + line_element(b, b + 3)
}

/// The whole surface document.
pub open spec fn surface_text(cfg: ObjConfig, frames: Seq<SurfaceFrame>) -> Seq<char> {
    let n = frames.len();
    let vpf = vertices_per_frame(cfg.write_frame);
    comment_text(cfg.comment) + concat(
        Seq::new(n, |i: int| surface_frame_vertices(frames[i], cfg.write_frame)),
    ) + concat(Seq::new(n, |i: int| normal_line(frames[i].normal))) + concat(
        Seq::new((n - 1) as nat, |i: int| face_line(surface_face(i as nat, vpf))),
    ) + if cfg.write_frame {
        concat(Seq::new(n, |i: int| surface_frame_lines(i as nat, vpf)))
    } else {
        Seq::<char>::empty()
    }
}

proof fn lemma_frame_start_bound(i: nat, n: nat, vpf: nat)
    requires
        i < n,
        vpf <= 4,
    ensures
        i * vpf + 2 * vpf + 1 <= n * 4 + 8,
        i * vpf + 1 + vpf == (i + 1) * vpf + 1,
{
    assert(i * vpf <= n * 4) by (nonlinear_arith)
        requires
            i < n,
            vpf <= 4,
    ;
    assert(i * vpf + 1 + vpf == (i + 1) * vpf + 1) by (nonlinear_arith);
}

impl ObjConfig {
    /// The mesh of a developed surface: per frame its vertices and one vertex normal,
    /// a quad between each pair of consecutive frames, and (with `write_frame`) line
    /// elements along the tangent and normal.
    pub fn surface(&self, curve: &[SurfaceFrame]) -> (r: Result<StrFileData, core::fmt::Error>)
        requires
            curve.len() >= 1,
            curve.len() * 4 + 8 <= usize::MAX,
        ensures
            r matches Ok(d) && d.contents@ == surface_text(*self, curve@),
    {
        let mut string = String::new();
        push_comments(&mut string, &self.comment);
        let ghost c0 = string@;
        let write_frame = self.write_frame;
        let vpf: usize = if write_frame {
            4
        } else {
            2
        };
        let n = curve.len();
        let ghost frames = curve@;

        let ghost fv = |i: int| surface_frame_vertices(frames[i], write_frame);
        let mut i: usize = 0;
        while i < n
            invariant
                i <= n,
                n == curve.len(),
                frames == curve@,
                fv == (|i: int| surface_frame_vertices(frames[i], write_frame)),
                string@ == c0 + concat(Seq::new(i as nat, fv)),
            decreases n - i,
        {
            let f = &curve[i];
            let ghost before = string@;
            push_coords_line(&mut string, "v ", &f.base);
            push_coords_line(&mut string, "v ", &f.ruling_tip);
            if write_frame {
                push_coords_line(&mut string, "v ", &f.tangent_tip);
                push_coords_line(&mut string, "v ", &f.normal_tip);
            }
            proof {
                assert(string@ =~= before + fv(i as int));
                lemma_concat_new_step(i as nat, fv);
            }
            i += 1;
        }
        let ghost c1 = string@;

        let ghost fnl = |i: int| normal_line(frames[i].normal);
        let mut i: usize = 0;
        while i < n
            invariant
                i <= n,
                n == curve.len(),
                frames == curve@,
                fnl == (|i: int| normal_line(frames[i].normal)),
                string@ == c1 + concat(Seq::new(i as nat, fnl)),
            decreases n - i,
        {
            let ghost before = string@;
            push_coords_line(&mut string, "vn ", &curve[i].normal);
            proof {
                assert(string@ =~= before + fnl(i as int));
                lemma_concat_new_step(i as nat, fnl);
            }
            i += 1;
        }
        let ghost c2 = string@;

        let ghost ff = |i: int| face_line(surface_face(i as nat, vertices_per_frame(write_frame)));
        let mut i: usize = 0;
        while i < n - 1
            invariant
                i <= n - 1,
                n == curve.len(),
                n >= 1,
                n * 4 + 8 <= usize::MAX,
                vpf == vertices_per_frame(write_frame),
                ff == (|i: int| face_line(surface_face(i as nat, vertices_per_frame(write_frame)))),
                string@ == c2 + concat(Seq::new(i as nat, ff)),
            decreases n - 1 - i,
        {
            proof {
                lemma_frame_start_bound(i as nat, n as nat, vpf as nat);
            }
            let normal = i + 1;
            let next_normal = normal + 1;
            let base = i * vpf + 1;
            let refs = vec![
                (base + 1, normal),
                (base, normal),
                (base + vpf, next_normal),
                (base + 1 + vpf, next_normal),
            ];
            let ghost before = string@;
            push_face(&mut string, &refs);
            proof {
                assert(usize_refs(refs@) =~= surface_face(i as nat, vpf as nat));
                assert(string@ =~= before + ff(i as int));
                lemma_concat_new_step(i as nat, ff);
            }
            i += 1;
        }
        let ghost c3 = string@;

        if write_frame {
            let ghost fl = |i: int| surface_frame_lines(i as nat, 4);
            let mut i: usize = 0;
            while i < n
                invariant
                    i <= n,
                    n == curve.len(),
                    n * 4 + 8 <= usize::MAX,
                    vpf == 4,
                    fl == (|i: int| surface_frame_lines(i as nat, 4)),
                    string@ == c3 + concat(Seq::new(i as nat, fl)),
                decreases n - i,
            {
                proof {
                    lemma_frame_start_bound(i as nat, n as nat, vpf as nat);
                }
                let base = i * vpf + 1;
                let ghost before = string@;
                push_line_element(&mut string, base, base + 2);
                push_line_element(&mut string, base, base + 3);
                proof {
                    assert(string@ =~= before + fl(i as int));
                    lemma_concat_new_step(i as nat, fl);
                }
                i += 1;
            }
        } else {
            assert(string@ =~= c3 + Seq::<char>::empty());
        }
        Ok(StrFileData { contents: string })
    }
}

/// The mesh of `curve` with the default layout: no comment, frame vertices and lines written.
pub fn to_obj(curve: &[SurfaceFrame]) -> (r: Result<StrFileData, core::fmt::Error>)
    requires
        curve.len() >= 1,
        curve.len() * 4 + 8 <= usize::MAX,
    ensures
        r matches Ok(d) && d.contents@ == surface_text(
            ObjConfig { comment: None, write_frame: true },
            curve@,
        ),
{
    ObjConfig::default().surface(curve)
}

/// The mesh of `curve` with the layout `cfg`.
pub fn to_obj_with(curve: &[SurfaceFrame], cfg: ObjConfig) -> (r: Result<
    StrFileData,
    core::fmt::Error,
>)
    requires
        curve.len() >= 1,
        curve.len() * 4 + 8 <= usize::MAX,
    ensures
        r matches Ok(d) && d.contents@ == surface_text(cfg, curve@),
{
    cfg.surface(curve)
}

/// The rendered vertices and normals of one cross section of a triangular pipe.
pub struct PipeSample {
    /// The point on the curve.
    pub base: Coords,
    /// The first support point.
    pub base1: Coords,
    /// The second support point.
    pub base2: Coords,
    /// Normal of the cross-section triangle.
    pub forward_normal: Coords,
    /// Normal of the face opposite to the curve.
    pub opposing_normal: Coords,
    /// Normal of the face between the curve and the first support.
    pub normal1: Coords,
    /// Normal of the face between the curve and the second support.
    pub normal2: Coords,
}

pub open spec fn pipe_sample_vertices(s: PipeSample) -> Seq<char> {
    vertex_line(s.base) + vertex_line(s.base1) + vertex_line(s.base2)
}

pub open spec fn pipe_sample_normals(s: PipeSample) -> Seq<char> {
    normal_line(s.forward_normal) + normal_line(s.opposing_normal) + normal_line(s.normal1)
        + normal_line(s.normal2)
}

/// The cross-section triangle of sample `i`, with that sample's forward normal.
pub open spec fn pipe_triangle(i: nat) -> Seq<(nat, nat)> {
    let b = 3 * i + 1;
    let n = 4 * i + 1;
    seq![(b, n), (b + 1, n), (b + 2, n)]
}

/// The three side quads from sample `j` to sample `j + 1`.
pub open spec fn pipe_quads(j: nat) -> Seq<Seq<(nat, nat)>> {
    let prev = 3 * j + 1;
    let prevn = 4 * j + 1;
    let base = prev + 3;
    let basen = prevn + 4;
    seq![
        seq![(prev, prevn + 2), (base, basen + 2), (base + 1, basen + 2), (prev + 1, prevn + 2)],
        seq![(prev + 1, prevn + 1), (base + 1, basen + 1), (base + 2, basen + 1), (prev + 2, prevn + 1)],
        seq![(prev + 2, prevn + 3), (base + 2, basen + 3), (base, basen + 3), (prev, prevn + 3)],
    ]
}

pub open spec fn pipe_quads_text(j: nat) -> Seq<char> {
    let q = pipe_quads(j);
    face_line(q[0]) + face_line(q[1]) + face_line(q[2])
}

/// The whole pipe document.
pub open spec fn pipe_text(cfg: ObjConfig, segments: Seq<PipeSample>) -> Seq<char> {
    let n = segments.len();
    comment_text(cfg.comment) + concat(Seq::new(n, |i: int| pipe_sample_vertices(segments[i])))
        + concat(Seq::new(n, |i: int| pipe_sample_normals(segments[i]))) + concat(
        Seq::new(n, |i: int| face_line(pipe_triangle(i as nat))),
    ) + concat(Seq::new(gaps(n), |j: int| pipe_quads_text(j as nat)))
}

fn push_face4(out: &mut String, refs: [(usize, usize); 4])
    ensures
        final(out)@ == old(out)@ + face_line(usize_refs(refs@)),
{
    let v = vec![refs[0], refs[1], refs[2], refs[3]];
    assert(v@ =~= refs@);
    push_face(out, &v);
}

/// Appends the three side quads from sample `j` to sample `j + 1`.
fn push_pipe_quads(out: &mut String, j: usize)
    requires
        j * 4 + 8 <= usize::MAX,
    ensures
        final(out)@ == old(out)@ + pipe_quads_text(j as nat),
{
    let ghost start = out@;
    let ghost q = pipe_quads(j as nat);
    let prev = j * 3 + 1;
    let prevn = j * 4 + 1;
    let base = prev + 3;
    let basen = prevn + 4;
    let r0 = [(prev, prevn + 2), (base, basen + 2), (base + 1, basen + 2), (prev + 1, prevn + 2)];
    push_face4(out, r0);
    assert(usize_refs(r0@) =~= q[0]);
    let r1 = [(prev + 1, prevn + 1), (base + 1, basen + 1), (base + 2, basen + 1), (prev + 2, prevn + 1)];
    push_face4(out, r1);
    assert(usize_refs(r1@) =~= q[1]);
    let r2 = [(prev + 2, prevn + 3), (base + 2, basen + 3), (base, basen + 3), (prev, prevn + 3)];
    push_face4(out, r2);
    assert(usize_refs(r2@) =~= q[2]);
    assert(out@ =~= start + pipe_quads_text(j as nat));
}

impl ObjConfig {
    /// The mesh of a triangular pipe: per cross section its three corners and four
    /// normals, the cross-section triangle, and three quads between consecutive sections.
    pub fn pipe(&self, segments: &[PipeSample]) -> (r: Result<StrFileData, core::fmt::Error>)
        requires
            segments.len() * 4 + 8 <= usize::MAX,
        ensures
            r matches Ok(d) && d.contents@ == pipe_text(*self, segments@),
    {
        let mut string = String::new();
        push_comments(&mut string, &self.comment);
        let n = segments.len();
        let ghost segs = segments@;

        let ghost c0 = string@;
        let ghost fv = |i: int| pipe_sample_vertices(segs[i]);
        let mut i: usize = 0;
        while i < n
            invariant
                i <= n,
                n == segments.len(),
                segs == segments@,
                fv == (|i: int| pipe_sample_vertices(segs[i])),
                string@ == c0 + concat(Seq::new(i as nat, fv)),
            decreases n - i,
        {
            let s = &segments[i];
            let ghost before = string@;
            push_coords_line(&mut string, "v ", &s.base);
            push_coords_line(&mut string, "v ", &s.base1);
            push_coords_line(&mut string, "v ", &s.base2);
            proof {
                assert(string@ =~= before + fv(i as int));
                lemma_concat_new_step(i as nat, fv);
            }
            i += 1;
        }

        let ghost c1 = string@;
        let ghost fnl = |i: int| pipe_sample_normals(segs[i]);
        let mut i: usize = 0;
        while i < n
            invariant
                i <= n,
                n == segments.len(),
                segs == segments@,
                fnl == (|i: int| pipe_sample_normals(segs[i])),
                string@ == c1 + concat(Seq::new(i as nat, fnl)),
            decreases n - i,
        {
            let s = &segments[i];
            let ghost before = string@;
            push_coords_line(&mut string, "vn ", &s.forward_normal);
            push_coords_line(&mut string, "vn ", &s.opposing_normal);
            push_coords_line(&mut string, "vn ", &s.normal1);
            push_coords_line(&mut string, "vn ", &s.normal2);
            proof {
                assert(string@ =~= before + fnl(i as int));
                lemma_concat_new_step(i as nat, fnl);
            }
            i += 1;
        }

        let ghost c2 = string@;
        let ghost ft = |i: int| face_line(pipe_triangle(i as nat));
        let mut i: usize = 0;
        while i < n
            invariant
                i <= n,
                n * 4 + 8 <= usize::MAX,
                ft == (|i: int| face_line(pipe_triangle(i as nat))),
                string@ == c2 + concat(Seq::new(i as nat, ft)),
            decreases n - i,
        {
            let base = i * 3 + 1;
            let normal = i * 4 + 1;
            let refs = vec![(base, normal), (base + 1, normal), (base + 2, normal)];
            let ghost before = string@;
            push_face(&mut string, &refs);
            proof {
                assert(usize_refs(refs@) =~= pipe_triangle(i as nat));
                assert(string@ =~= before + ft(i as int));
                lemma_concat_new_step(i as nat, ft);
            }
            i += 1;
        }

        let ghost c3 = string@;
        let ghost fq = |j: int| pipe_quads_text(j as nat);
        let mut i: usize = 1;
        while i < n
            invariant
                1 <= i,
                i <= n || n == 0,
                n == 0 ==> i == 1,
                n * 4 + 8 <= usize::MAX,
                fq == (|j: int| pipe_quads_text(j as nat)),
                string@ == c3 + concat(Seq::new((i - 1) as nat, fq)),
            decreases n - i,
        {
            let ghost before = string@;
            push_pipe_quads(&mut string, i - 1);
            proof {
                lemma_concat_new_step((i - 1) as nat, fq);
            }
            i += 1;
        }
        proof {
            if n == 0 {
                assert(Seq::new(gaps(n as nat), fq) =~= Seq::new((i - 1) as nat, fq));
            } else {
                assert(i == n);
            }
        }
        Ok(StrFileData { contents: string })
    }
}

/// A corner `(vertex, normal)` belongs to frame `f`: its vertex is one of that frame's
/// `vpf` vertices and its normal is that frame's normal.
pub open spec fn corner_of_frame(r: (nat, nat), f: nat, vpf: nat) -> bool {
    frame_start(f, vpf) <= r.0 < frame_start(f + 1, vpf) && r.1 == f + 1
}

proof fn lemma_frame_starts(i: nat, vpf: nat)
    ensures
        frame_start(i + 1, vpf) == frame_start(i, vpf) + vpf,
        frame_start(i + 2, vpf) == frame_start(i, vpf) + 2 * vpf,
{
    assert((i + 1) * vpf == i * vpf + vpf) by (nonlinear_arith);
    assert((i + 2) * vpf == i * vpf + 2 * vpf) by (nonlinear_arith);
}

proof fn lemma_frame_start_within(i: nat, n: nat, vpf: nat)
    requires
        i < n,
    ensures
        frame_start(i + 1, vpf) <= n * vpf + 1,
{
    assert((i + 1) * vpf <= n * vpf) by (nonlinear_arith)
        requires
            i < n,
    ;
}

/// Each quad of a surface mesh joins frame `i` to frame `i + 1`: two corners lie on each
/// of the two frames and carry that frame's normal, so every vertex and normal it names
/// is written in the document.
pub proof fn lemma_surface_faces_join_consecutive_frames(n: nat, write_frame: bool, i: nat)
    requires
        i + 1 < n,
    ensures
        surface_face(i, vertices_per_frame(write_frame)).len() == 4,
        corner_of_frame(surface_face(i, vertices_per_frame(write_frame))[0], i, vertices_per_frame(write_frame)),
        corner_of_frame(surface_face(i, vertices_per_frame(write_frame))[1], i, vertices_per_frame(write_frame)),
        corner_of_frame(surface_face(i, vertices_per_frame(write_frame))[2], i + 1, vertices_per_frame(write_frame)),
        corner_of_frame(surface_face(i, vertices_per_frame(write_frame))[3], i + 1, vertices_per_frame(write_frame)),
        forall|k: int|
            0 <= k < 4 ==> 1 <= #[trigger] surface_face(i, vertices_per_frame(write_frame))[k].0
                <= n * vertices_per_frame(write_frame) && 1 <= surface_face(
                i,
                vertices_per_frame(write_frame),
            )[k].1 <= n,
{
    let vpf = vertices_per_frame(write_frame);
    lemma_frame_starts(i, vpf);
    lemma_frame_starts(i + 1, vpf);
    lemma_frame_start_within(i + 1, n, vpf);
}

/// The line elements of frame `i` stay within that frame's vertices: from its base to its
/// tangent tip and to its normal tip.
pub proof fn lemma_surface_lines_within_frame(n: nat, i: nat)
    requires
        i < n,
    ensures
        frame_start(i, 4) + 3 < frame_start(i + 1, 4),
        frame_start(i + 1, 4) <= n * 4 + 1,
{
    lemma_frame_starts(i, 4);
    lemma_frame_start_within(i, n, 4);
}

/// A corner `(vertex, normal)` belongs to cross section `s` of a pipe: its vertex is one
/// of the section's three corners and its normal one of the section's four normals.
pub open spec fn corner_of_section(r: (nat, nat), s: nat) -> bool {
    3 * s + 1 <= r.0 <= 3 * s + 3 && 4 * s + 1 <= r.1 <= 4 * s + 4
}

/// Each cross-section triangle of a pipe mesh is made of the three corners of its own
/// section and carries that section's forward normal.
pub proof fn lemma_pipe_triangle_in_section(n: nat, i: nat)
    requires
        i < n,
    ensures
        pipe_triangle(i).len() == 3,
        forall|k: int|
            0 <= k < 3 ==> corner_of_section(#[trigger] pipe_triangle(i)[k], i) && pipe_triangle(
                i,
            )[k].1 == 4 * i + 1 && pipe_triangle(i)[k].0 <= 3 * n,
        pipe_triangle(i)[0].0 != pipe_triangle(i)[1].0,
        pipe_triangle(i)[1].0 != pipe_triangle(i)[2].0,
        pipe_triangle(i)[0].0 != pipe_triangle(i)[2].0,
{
}

/// Each side quad of a pipe mesh joins section `j` to section `j + 1`: two corners on
/// each, carrying a side normal (never the forward normal) of their own section, and
/// every vertex and normal it names is written in the document.
pub proof fn lemma_pipe_quads_join_consecutive_sections(n: nat, j: nat)
    requires
        j + 1 < n,
    ensures
        pipe_quads(j).len() == 3,
        forall|q: int|
            0 <= q < 3 ==> {
                let f = #[trigger] pipe_quads(j)[q];
                &&& f.len() == 4
                &&& corner_of_section(f[0], j) && corner_of_section(f[3], j)
                &&& corner_of_section(f[1], j + 1) && corner_of_section(f[2], j + 1)
                &&& f[0].1 != 4 * j + 1 && f[3].1 != 4 * j + 1
                &&& f[1].1 != 4 * j + 5 && f[2].1 != 4 * j + 5
                &&& forall|k: int| 0 <= k < 4 ==> 1 <= #[trigger] f[k].0 <= 3 * n && 1 <= f[k].1 <= 4 * n
            },
{
    assert forall|q: int| 0 <= q < 3 implies {
        let f = #[trigger] pipe_quads(j)[q];
        &&& f.len() == 4
        &&& corner_of_section(f[0], j) && corner_of_section(f[3], j)
        &&& corner_of_section(f[1], j + 1) && corner_of_section(f[2], j + 1)
        &&& f[0].1 != 4 * j + 1 && f[3].1 != 4 * j + 1
        &&& f[1].1 != 4 * j + 5 && f[2].1 != 4 * j + 5
        &&& forall|k: int| 0 <= k < 4 ==> 1 <= #[trigger] f[k].0 <= 3 * n && 1 <= f[k].1 <= 4 * n
    } by {
        let f = pipe_quads(j)[q];
        assert(q == 0 || q == 1 || q == 2);
    }
}

/// A record of three coordinates after `tag`: `tag x y z`.
pub open spec fn xyz_record(tag: Seq<char>, c: Coords) -> Seq<char> {
    tag + c.x@ + " "@ + c.y@ + " "@ + c.z@
}

/// A face corner ` vertex//normal`.
pub open spec fn corner(v: nat, n: nat) -> Seq<char> {
    " "@ + decimal(v) + "//"@ + decimal(n)
}

/// A line element record `l a b`.
pub open spec fn line_record(a: nat, b: nat) -> Seq<char> {
    "l "@ + decimal(a) + " "@ + decimal(b)
}

/// The comment records: `# ` and each line of the comment.
pub open spec fn comment_records(comment: Option<String>) -> Seq<Seq<char>> {
    match comment {
        Some(c) => lines(c@).map_values(|l: Seq<char>| "# "@ + l),
        None => Seq::empty(),
    }
}

/// The vertices of one surface frame: base, ruling tip, then tangent and normal tips.
pub open spec fn frame_vertex_records(f: SurfaceFrame, write_frame: bool) -> Seq<Seq<char>> {
    if write_frame {
        seq![
            xyz_record("v "@, f.base),
            xyz_record("v "@, f.ruling_tip),
            xyz_record("v "@, f.tangent_tip),
            xyz_record("v "@, f.normal_tip),
        ]
    } else {
        seq![xyz_record("v "@, f.base), xyz_record("v "@, f.ruling_tip)]
    }
}

/// The records of a surface mesh, in order: the comment lines; the vertices of each frame
/// (2 or 4); one normal per frame, frame `i`'s own, numbered `i + 1`; for each pair of
/// consecutive frames `i`, `i + 1` with `w` vertices per frame and `b = i * w + 1` the quad
/// `b+1//i+1 b//i+1 b+w//i+2 b+1+w//i+2`; with the frame written, per frame the lines from
/// its base `b` to `b + 2` and to `b + 3`.
pub open spec fn surface_records(cfg: ObjConfig, frames: Seq<SurfaceFrame>) -> Seq<Seq<char>> {
    let n = frames.len();
    let w: nat = if cfg.write_frame {
        4
    } else {
        2
    };
    comment_records(cfg.comment) + join_groups(
        Seq::new(n, |i: int| frame_vertex_records(frames[i], cfg.write_frame)),
    ) + Seq::new(n, |i: int| xyz_record("vn "@, frames[i].normal)) + Seq::new(
        (n - 1) as nat,
        |i: int|
            "f"@ + corner((i * w + 2) as nat, (i + 1) as nat) + corner((i * w + 1) as nat, (i + 1) as nat)
                + corner((i * w + 1 + w) as nat, (i + 2) as nat) + corner(
                (i * w + 2 + w) as nat,
                (i + 2) as nat,
            ),
    ) + if cfg.write_frame {
        join_groups(
            Seq::new(
                n,
                |i: int|
                    seq![
                        line_record((4 * i + 1) as nat, (4 * i + 3) as nat),
                        line_record((4 * i + 1) as nat, (4 * i + 4) as nat),
                    ],
            ),
        )
    } else {
        Seq::<Seq<char>>::empty()
    }
}

pub proof fn lemma_comment_records(comment: Option<String>)
    ensures
        records_text(comment_records(comment)) == comment_text(comment),
{
    match comment {
        Some(c) => {
            let ls = lines(c@);
            let r = |k: int| "# "@ + ls[k];
            let rn = |k: int| r(k) + "\n"@;
            assert(comment_records(comment) =~= Seq::new(ls.len(), r));
            lemma_records_text_new(ls.len(), r);
            assert(ls.map_values(|l: Seq<char>| comment_line(l)) =~= Seq::new(ls.len(), rn));
            assert(Seq::new(ls.len(), |i: int| r(i) + "\n"@) =~= Seq::new(ls.len(), rn));
        },
        None => {
            assert(comment_records(comment) =~= Seq::<Seq<char>>::empty());
        },
    }
}

pub proof fn lemma_xyz_line(tag: Seq<char>, c: Coords)
    ensures
        xyz_record(tag, c) + "\n"@ == tag + coords_text(c) + "\n"@,
{
    assert(xyz_record(tag, c) + "\n"@ =~= tag + coords_text(c) + "\n"@);
}

/// Appending four parts of records text.
proof fn lemma_records_text_append5(
    a: Seq<Seq<char>>,
    b: Seq<Seq<char>>,
    c: Seq<Seq<char>>,
    d: Seq<Seq<char>>,
    e: Seq<Seq<char>>,
)
    ensures
        records_text(a + b + c + d + e) == records_text(a) + records_text(b) + records_text(c)
            + records_text(d) + records_text(e),
{
    lemma_records_text_append(a + b + c + d, e);
    lemma_records_text_append(a + b + c, d);
    lemma_records_text_append(a + b, c);
    lemma_records_text_append(a, b);
}

/// The surface mesh consists of exactly the records `surface_records`, one per line: in
/// particular frame `i`'s normal record is `vn` with frame `i`'s own normal, and each quad
/// joins frame `i` to frame `i + 1`.
pub proof fn lemma_surface_records(cfg: ObjConfig, frames: Seq<SurfaceFrame>)
    requires
        frames.len() >= 1,
    ensures
        surface_text(cfg, frames) == records_text(surface_records(cfg, frames)),
{
    let n = frames.len();
    let wf = cfg.write_frame;
    let w = vertices_per_frame(wf);
    let rc = comment_records(cfg.comment);
    let gv = Seq::new(n, |i: int| frame_vertex_records(frames[i], wf));
    let rn = |i: int| xyz_record("vn "@, frames[i].normal);
    let rf = |i: int|
        "f"@ + corner((i * w + 2) as nat, (i + 1) as nat) + corner((i * w + 1) as nat, (i + 1) as nat)
            + corner((i * w + 1 + w) as nat, (i + 2) as nat) + corner(
            (i * w + 2 + w) as nat,
            (i + 2) as nat,
        );
    let gl = Seq::new(
        n,
        |i: int|
            seq![
                line_record((4 * i + 1) as nat, (4 * i + 3) as nat),
                line_record((4 * i + 1) as nat, (4 * i + 4) as nat),
            ],
    );
    let rl = if wf {
        join_groups(gl)
    } else {
        Seq::<Seq<char>>::empty()
    };
    assert(surface_records(cfg, frames) =~= rc + join_groups(gv) + Seq::new(n, rn) + Seq::new(
        (n - 1) as nat,
        rf,
    ) + rl);
    lemma_records_text_append5(rc, join_groups(gv), Seq::new(n, rn), Seq::new((n - 1) as nat, rf), rl);

    lemma_comment_records(cfg.comment);
    lemma_surface_vertex_block(frames, wf);
    lemma_surface_normal_block(frames);
    lemma_surface_face_block(n, w);
    if wf {
        lemma_surface_line_block(n);
    } else {
        assert(records_text(rl) =~= Seq::<char>::empty());
    }
}

proof fn lemma_frame_vertices_text(f: SurfaceFrame, wf: bool)
    ensures
        records_text(frame_vertex_records(f, wf)) == surface_frame_vertices(f, wf),
{
    let a = xyz_record("v "@, f.base);
    let b = xyz_record("v "@, f.ruling_tip);
    let c = xyz_record("v "@, f.tangent_tip);
    let d = xyz_record("v "@, f.normal_tip);
    lemma_records_text_lines(a, b, c, d);
    lemma_xyz_line("v "@, f.base);
    lemma_xyz_line("v "@, f.ruling_tip);
    lemma_xyz_line("v "@, f.tangent_tip);
    lemma_xyz_line("v "@, f.normal_tip);
}

proof fn lemma_surface_vertex_block(frames: Seq<SurfaceFrame>, wf: bool)
    ensures
        records_text(join_groups(Seq::new(frames.len(), |i: int| frame_vertex_records(frames[i], wf))))
            == concat(Seq::new(frames.len(), |i: int| surface_frame_vertices(frames[i], wf))),
{
    let n = frames.len();
    let gv = Seq::new(n, |i: int| frame_vertex_records(frames[i], wf));
    lemma_records_text_groups(gv);
    assert forall|i: int| 0 <= i < n implies #[trigger] records_text(gv[i]) == surface_frame_vertices(
        frames[i],
        wf,
    ) by {
        lemma_frame_vertices_text(frames[i], wf);
    }
    assert(gv.map_values(|g: Seq<Seq<char>>| records_text(g)) =~= Seq::new(
        n,
        |i: int| surface_frame_vertices(frames[i], wf),
    ));
}

proof fn lemma_surface_normal_block(frames: Seq<SurfaceFrame>)
    ensures
        records_text(Seq::new(frames.len(), |i: int| xyz_record("vn "@, frames[i].normal)))
            == concat(Seq::new(frames.len(), |i: int| normal_line(frames[i].normal))),
{
    let n = frames.len();
    let rn = |i: int| xyz_record("vn "@, frames[i].normal);
    lemma_records_text_new(n, rn);
    assert forall|i: int| 0 <= i < n implies #[trigger] rn(i) + "\n"@ == normal_line(frames[i].normal) by {
        lemma_xyz_line("vn "@, frames[i].normal);
    }
    assert(Seq::new(n, |i: int| rn(i) + "\n"@) =~= Seq::new(n, |i: int| normal_line(frames[i].normal)));
}

proof fn lemma_surface_face_block(n: nat, w: nat)
    requires
        n >= 1,
    ensures
        records_text(
            Seq::new(
                (n - 1) as nat,
                |i: int|
                    "f"@ + corner((i * w + 2) as nat, (i + 1) as nat) + corner(
                        (i * w + 1) as nat,
                        (i + 1) as nat,
                    ) + corner((i * w + 1 + w) as nat, (i + 2) as nat) + corner(
                        (i * w + 2 + w) as nat,
                        (i + 2) as nat,
                    ),
            ),
        ) == concat(Seq::new((n - 1) as nat, |i: int| face_line(surface_face(i as nat, w)))),
{
    let rf = |i: int|
        "f"@ + corner((i * w + 2) as nat, (i + 1) as nat) + corner((i * w + 1) as nat, (i + 1) as nat)
            + corner((i * w + 1 + w) as nat, (i + 2) as nat) + corner(
            (i * w + 2 + w) as nat,
            (i + 2) as nat,
        );
    lemma_records_text_new((n - 1) as nat, rf);
    assert forall|i: int| 0 <= i < n - 1 implies #[trigger] rf(i) + "\n"@ == face_line(
        surface_face(i as nat, w),
    ) by {
        let refs = surface_face(i as nat, w);
        let a = corner((i * w + 2) as nat, (i + 1) as nat);
        let b = corner((i * w + 1) as nat, (i + 1) as nat);
        let c = corner((i * w + 1 + w) as nat, (i + 2) as nat);
        let d = corner((i * w + 2 + w) as nat, (i + 2) as nat);
        assert(frame_start(i as nat, w) == i * w + 1);
        assert(refs.map_values(|r: (nat, nat)| face_ref(r)) =~= seq![a, b, c, d]);
        lemma_concat_small(a, b, c, d);
        assert(rf(i) + "\n"@ =~= face_line(refs));
    }
    assert(Seq::new((n - 1) as nat, |i: int| rf(i) + "\n"@) =~= Seq::new(
        (n - 1) as nat,
        |i: int| face_line(surface_face(i as nat, w)),
    ));
}

proof fn lemma_surface_line_block(n: nat)
    ensures
        records_text(
            join_groups(
                Seq::new(
                    n,
                    |i: int|
                        seq![
                            line_record((4 * i + 1) as nat, (4 * i + 3) as nat),
                            line_record((4 * i + 1) as nat, (4 * i + 4) as nat),
                        ],
                ),
            ),
        ) == concat(Seq::new(n, |i: int| surface_frame_lines(i as nat, 4))),
{
    let gl = Seq::new(
        n,
        |i: int|
            seq![
                line_record((4 * i + 1) as nat, (4 * i + 3) as nat),
                line_record((4 * i + 1) as nat, (4 * i + 4) as nat),
            ],
    );
    lemma_records_text_groups(gl);
    assert forall|i: int| 0 <= i < n implies #[trigger] records_text(gl[i]) == surface_frame_lines(
        i as nat,
        4,
    ) by {
        let a = line_record((4 * i + 1) as nat, (4 * i + 3) as nat);
        let b = line_record((4 * i + 1) as nat, (4 * i + 4) as nat);
        lemma_records_text_small(a, b, a, a);
        assert(frame_start(i as nat, 4) == 4 * i + 1);
        assert(records_text(gl[i]) =~= surface_frame_lines(i as nat, 4));
    }
    assert(gl.map_values(|g: Seq<Seq<char>>| records_text(g)) =~= Seq::new(
        n,
        |i: int| surface_frame_lines(i as nat, 4),
    ));
}

/// Record by record: with `c` comment records and `w` vertices per frame, record
/// `c + i * w + s` is vertex `s` of frame `i`, and record `c + n * w + i` is the normal of
/// frame `i` itself.
pub proof fn lemma_surface_record_positions(cfg: ObjConfig, frames: Seq<SurfaceFrame>, i: int)
    requires
        frames.len() >= 1,
        0 <= i < frames.len(),
    ensures
        ({
            let c = comment_records(cfg.comment).len();
            let w = vertices_per_frame(cfg.write_frame);
            let n = frames.len();
            let rs = surface_records(cfg, frames);
            &&& rs[c + i * w] == xyz_record("v "@, frames[i].base)
            &&& rs[c + i * w + 1] == xyz_record("v "@, frames[i].ruling_tip)
            &&& cfg.write_frame ==> rs[c + i * w + 2] == xyz_record("v "@, frames[i].tangent_tip)
            &&& cfg.write_frame ==> rs[c + i * w + 3] == xyz_record("v "@, frames[i].normal_tip)
            &&& rs[c + n * w + i] == xyz_record("vn "@, frames[i].normal)
        }),
{
    let c = comment_records(cfg.comment).len();
    let wf = cfg.write_frame;
    let w = vertices_per_frame(wf);
    let n = frames.len();
    let g = |j: int| frame_vertex_records(frames[j], wf);
    lemma_join_groups_index(n, w, g);
    let jv = join_groups(Seq::new(n, g));
    assert(Seq::new(n, |j: int| frame_vertex_records(frames[j], wf)) == Seq::new(n, g));
    assert(0 <= i * w) by (nonlinear_arith)
        requires
            0 <= i,
    ;
    assert(i * w + w <= n * w) by (nonlinear_arith)
        requires
            i < n,
    ;
    assert(jv[i * w] == g(i)[0]);
    assert(jv[i * w + 1] == g(i)[1]);
    if wf {
        assert(jv[i * w + 2] == g(i)[2]);
        assert(jv[i * w + 3] == g(i)[3]);
    }
}

/// The corners of a section of a pipe: the curve point and the two supports.
pub open spec fn section_vertex_records(s: PipeSample) -> Seq<Seq<char>> {
    seq![xyz_record("v "@, s.base), xyz_record("v "@, s.base1), xyz_record("v "@, s.base2)]
}

/// The normals of a section of a pipe: forward (cross section), opposing face, first face,
/// second face.
pub open spec fn section_normal_records(s: PipeSample) -> Seq<Seq<char>> {
    seq![
        xyz_record("vn "@, s.forward_normal),
        xyz_record("vn "@, s.opposing_normal),
        xyz_record("vn "@, s.normal1),
        xyz_record("vn "@, s.normal2),
    ]
}

/// A face record from four corners.
pub open spec fn quad_record(a: (nat, nat), b: (nat, nat), c: (nat, nat), d: (nat, nat)) -> Seq<
    char,
> {
    "f"@ + corner(a.0, a.1) + corner(b.0, b.1) + corner(c.0, c.1) + corner(d.0, d.1)
}

/// The side quads between sections `j` and `j + 1`, with `p`, `q` the first vertex and
/// `m`, `o` the first normal of the two sections: the faces towards the first support
/// (normal 3 of each section), the opposing face (normal 2) and the second support
/// (normal 4).
pub open spec fn side_quad_records(j: nat) -> Seq<Seq<char>> {
    let p = 3 * j + 1;
    let q = p + 3;
    let m = 4 * j + 1;
    let o = m + 4;
    seq![
        quad_record((p, m + 2), (q, o + 2), (q + 1, o + 2), (p + 1, m + 2)),
        quad_record((p + 1, m + 1), (q + 1, o + 1), (q + 2, o + 1), (p + 2, m + 1)),
        quad_record((p + 2, m + 3), (q + 2, o + 3), (q, o + 3), (p, m + 3)),
    ]
}

/// The records of a pipe mesh, in order: the comment lines; the three corners of each
/// section; the four normals of each section, its own; per section `i` the triangle of its
/// corners `3i+1, 3i+2, 3i+3` with its forward normal `4i+1`; between consecutive sections
/// the three side quads.
pub open spec fn pipe_records(cfg: ObjConfig, segments: Seq<PipeSample>) -> Seq<Seq<char>> {
    let n = segments.len();
    comment_records(cfg.comment) + join_groups(
        Seq::new(n, |i: int| section_vertex_records(segments[i])),
    ) + join_groups(Seq::new(n, |i: int| section_normal_records(segments[i]))) + Seq::new(
        n,
        |i: int|
            "f"@ + corner((3 * i + 1) as nat, (4 * i + 1) as nat) + corner(
                (3 * i + 2) as nat,
                (4 * i + 1) as nat,
            ) + corner((3 * i + 3) as nat, (4 * i + 1) as nat),
    ) + join_groups(
        Seq::new(if n > 0 { (n - 1) as nat } else { 0 }, |j: int| side_quad_records(j as nat)),
    )
}

proof fn lemma_section_vertices_text(s: PipeSample)
    ensures
        records_text(section_vertex_records(s)) == pipe_sample_vertices(s),
{
    let a = xyz_record("v "@, s.base);
    let b = xyz_record("v "@, s.base1);
    let c = xyz_record("v "@, s.base2);
    lemma_records_text_lines(a, b, c, c);
    lemma_xyz_line("v "@, s.base);
    lemma_xyz_line("v "@, s.base1);
    lemma_xyz_line("v "@, s.base2);
}

proof fn lemma_section_normals_text(s: PipeSample)
    ensures
        records_text(section_normal_records(s)) == pipe_sample_normals(s),
{
    let a = xyz_record("vn "@, s.forward_normal);
    let b = xyz_record("vn "@, s.opposing_normal);
    let c = xyz_record("vn "@, s.normal1);
    let d = xyz_record("vn "@, s.normal2);
    lemma_records_text_lines(a, b, c, d);
    lemma_xyz_line("vn "@, s.forward_normal);
    lemma_xyz_line("vn "@, s.opposing_normal);
    lemma_xyz_line("vn "@, s.normal1);
    lemma_xyz_line("vn "@, s.normal2);
    assert(pipe_sample_normals(s) =~= ((a + "\n"@) + (b + "\n"@)) + ((c + "\n"@) + (d + "\n"@)));
}

pub proof fn lemma_quad_text(f: Seq<(nat, nat)>)
    requires
        f.len() == 4,
    ensures
        quad_record(f[0], f[1], f[2], f[3]) + "\n"@ == face_line(f),
{
    let a = corner(f[0].0, f[0].1);
    let b = corner(f[1].0, f[1].1);
    let c = corner(f[2].0, f[2].1);
    let d = corner(f[3].0, f[3].1);
    assert(f.map_values(|r: (nat, nat)| face_ref(r)) =~= seq![a, b, c, d]);
    lemma_concat_small(a, b, c, d);
    assert(quad_record(f[0], f[1], f[2], f[3]) + "\n"@ =~= face_line(f));
}

proof fn lemma_side_quads_text(j: nat)
    ensures
        records_text(side_quad_records(j)) == pipe_quads_text(j),
{
    let q = pipe_quads(j);
    let r = side_quad_records(j);
    lemma_quad_text(q[0]);
    lemma_quad_text(q[1]);
    lemma_quad_text(q[2]);
    assert(r[0] == quad_record(q[0][0], q[0][1], q[0][2], q[0][3]));
    assert(r[1] == quad_record(q[1][0], q[1][1], q[1][2], q[1][3]));
    assert(r[2] == quad_record(q[2][0], q[2][1], q[2][2], q[2][3]));
    assert(r =~= seq![r[0], r[1], r[2]]);
    lemma_records_text_lines(r[0], r[1], r[2], r[2]);
    assert(pipe_quads_text(j) =~= ((r[0] + "\n"@) + (r[1] + "\n"@)) + (r[2] + "\n"@));
}

proof fn lemma_triangle_text(i: int)
    requires
        0 <= i,
    ensures
        ("f"@ + corner((3 * i + 1) as nat, (4 * i + 1) as nat) + corner(
            (3 * i + 2) as nat,
            (4 * i + 1) as nat,
        ) + corner((3 * i + 3) as nat, (4 * i + 1) as nat)) + "\n"@ == face_line(pipe_triangle(i as nat)),
{
    let a = corner((3 * i + 1) as nat, (4 * i + 1) as nat);
    let b = corner((3 * i + 2) as nat, (4 * i + 1) as nat);
    let c = corner((3 * i + 3) as nat, (4 * i + 1) as nat);
    assert(pipe_triangle(i as nat).map_values(|r: (nat, nat)| face_ref(r)) =~= seq![a, b, c]);
    lemma_concat_small(a, b, c, c);
    assert(("f"@ + a + b + c) + "\n"@ =~= face_line(pipe_triangle(i as nat)));
}

/// The pipe mesh consists of exactly the records `pipe_records`, one per line: in
/// particular the normals of section `i` are that section's own four normals, and the
/// triangle of section `i` uses its own corners and forward normal.
pub proof fn lemma_pipe_records(cfg: ObjConfig, segments: Seq<PipeSample>)
    ensures
        pipe_text(cfg, segments) == records_text(pipe_records(cfg, segments)),
{
    let n = segments.len();
    let rc = comment_records(cfg.comment);
    let gv = Seq::new(n, |i: int| section_vertex_records(segments[i]));
    let gn = Seq::new(n, |i: int| section_normal_records(segments[i]));
    let rt = |i: int|
        "f"@ + corner((3 * i + 1) as nat, (4 * i + 1) as nat) + corner(
            (3 * i + 2) as nat,
            (4 * i + 1) as nat,
        ) + corner((3 * i + 3) as nat, (4 * i + 1) as nat);
    let gq = Seq::new(gaps(n), |j: int| side_quad_records(j as nat));
    assert(pipe_records(cfg, segments) =~= rc + join_groups(gv) + join_groups(gn) + Seq::new(n, rt)
        + join_groups(gq));
    lemma_records_text_append5(rc, join_groups(gv), join_groups(gn), Seq::new(n, rt), join_groups(gq));
    lemma_comment_records(cfg.comment);

    lemma_records_text_groups(gv);
    assert forall|i: int| 0 <= i < n implies #[trigger] records_text(gv[i]) == pipe_sample_vertices(
        segments[i],
    ) by {
        lemma_section_vertices_text(segments[i]);
    }
    assert(gv.map_values(|g: Seq<Seq<char>>| records_text(g)) =~= Seq::new(
        n,
        |i: int| pipe_sample_vertices(segments[i]),
    ));

    lemma_records_text_groups(gn);
    assert forall|i: int| 0 <= i < n implies #[trigger] records_text(gn[i]) == pipe_sample_normals(
        segments[i],
    ) by {
        lemma_section_normals_text(segments[i]);
    }
    assert(gn.map_values(|g: Seq<Seq<char>>| records_text(g)) =~= Seq::new(
        n,
        |i: int| pipe_sample_normals(segments[i]),
    ));

    lemma_records_text_new(n, rt);
    assert forall|i: int| 0 <= i < n implies #[trigger] rt(i) + "\n"@ == face_line(
        pipe_triangle(i as nat),
    ) by {
        lemma_triangle_text(i);
    }
    assert(Seq::new(n, |i: int| rt(i) + "\n"@) =~= Seq::new(
        n,
        |i: int| face_line(pipe_triangle(i as nat)),
    ));

    lemma_records_text_groups(gq);
    assert forall|j: int| 0 <= j < gaps(n) implies #[trigger] records_text(gq[j]) == pipe_quads_text(
        j as nat,
    ) by {
        lemma_side_quads_text(j as nat);
    }
    assert(gq.map_values(|g: Seq<Seq<char>>| records_text(g)) =~= Seq::new(
        gaps(n),
        |j: int| pipe_quads_text(j as nat),
    ));
}

/// Record by record: with `c` comment records, record `c + 3 * n + 4 * i + s` is normal `s`
/// of section `i` itself, and record `c + 3 * i + s` its corner `s`.
pub proof fn lemma_pipe_record_positions(cfg: ObjConfig, segments: Seq<PipeSample>, i: int)
    requires
        0 <= i < segments.len(),
    ensures
        ({
            let c = comment_records(cfg.comment).len();
            let n = segments.len();
            let rs = pipe_records(cfg, segments);
            let s = segments[i];
            &&& rs[c + 3 * i] == xyz_record("v "@, s.base)
            &&& rs[c + 3 * i + 1] == xyz_record("v "@, s.base1)
            &&& rs[c + 3 * i + 2] == xyz_record("v "@, s.base2)
            &&& rs[c + 3 * n + 4 * i] == xyz_record("vn "@, s.forward_normal)
            &&& rs[c + 3 * n + 4 * i + 1] == xyz_record("vn "@, s.opposing_normal)
            &&& rs[c + 3 * n + 4 * i + 2] == xyz_record("vn "@, s.normal1)
            &&& rs[c + 3 * n + 4 * i + 3] == xyz_record("vn "@, s.normal2)
        }),
{
    let n = segments.len();
    let gvf = |j: int| section_vertex_records(segments[j]);
    let gnf = |j: int| section_normal_records(segments[j]);
    lemma_join_groups_index(n, 3, gvf);
    lemma_join_groups_index(n, 4, gnf);
    assert(gvf(i)[0] == xyz_record("v "@, segments[i].base));
    assert(gvf(i)[1] == xyz_record("v "@, segments[i].base1));
    assert(gvf(i)[2] == xyz_record("v "@, segments[i].base2));
    assert(gnf(i)[0] == xyz_record("vn "@, segments[i].forward_normal));
    assert(gnf(i)[1] == xyz_record("vn "@, segments[i].opposing_normal));
    assert(gnf(i)[2] == xyz_record("vn "@, segments[i].normal1));
    assert(gnf(i)[3] == xyz_record("vn "@, segments[i].normal2));
    assert(Seq::new(n, |j: int| section_vertex_records(segments[j])) == Seq::new(n, gvf));
    assert(Seq::new(n, |j: int| section_normal_records(segments[j])) == Seq::new(n, gnf));
}

} // verus!
