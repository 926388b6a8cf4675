//! SVG drawings of flattened developments.
//!
//! Coordinates arrive already rendered as text. The SVG coordinate space is
//! left-handed; callers pass `y` already mirrored.
use crate::text::{
    concat, gaps, index_of, insert_after_tag, lemma_concat_new_step, lemma_index_of_first,
    push_str, split_after_tag,
};
use crate::records::{
    lemma_records_text_append, lemma_records_text_lines, lemma_records_text_new,
    lemma_records_text_small, records_text,
};
use crate::StrFileData;
use vstd::prelude::*;

verus! {

/// A point with both coordinates rendered as text.
pub struct Point2 {
    pub x: String,
    pub y: String,
}

pub open spec fn point_text(p: Point2) -> Seq<char> {
    p.x@ + " "@ + p.y@
}

fn copy_point(p: &Point2) -> (r: Point2)
    ensures
        r == *p,
{
    Point2 { x: p.x.clone(), y: p.y.clone() }
}

/// The path data of a polyline: `M x y ` then `L x y ` for each further point.
pub open spec fn path_vertices(points: Seq<Point2>) -> Seq<char> {
    if points.len() == 0 {
        Seq::empty()
    } else {
        "M "@ + point_text(points[0]) + " "@ + concat(
            Seq::new(gaps(points.len()), |i: int| "L "@ + point_text(points[i + 1]) + " "@),
        )
    }
}

/// The end of an open path element.
pub open spec fn open_path_end() -> Seq<char> {
    "\" stroke=\"black\" fill-opacity=\"0.0\" />\n"@
}

/// The end of a closed, filled path element.
pub open spec fn closed_path_end() -> Seq<char> {
    "Z\" fill=\"black\" />\n"@
}

/// A path element through `points`; nothing for no points.
pub open spec fn path_text(points: Seq<Point2>, end: Seq<char>) -> Seq<char> {
    if points.len() == 0 {
        Seq::empty()
    } else {
        "  <path d=\""@ + path_vertices(points) + end
    }
}

/// Appends the path data of the polyline through `points`.
pub fn push_path_vertices(out: &mut String, points: &Vec<Point2>)
    ensures
        final(out)@ == old(out)@ + path_vertices(points@),
{
    if points.len() == 0 {
        assert(old(out)@ + path_vertices(points@) =~= old(out)@);
        return ;
    }
    let ghost start = out@;
    let ghost pts = points@;
    push_str(out, "M ");
    push_str(out, points[0].x.as_str());
    push_str(out, " ");
    push_str(out, points[0].y.as_str());
    push_str(out, " ");
    let ghost head = out@;
    let ghost fl = |i: int| "L "@ + point_text(pts[i + 1]) + " "@;
    let mut i: usize = 1;
    while i < points.len()
        invariant
            1 <= i <= points.len(),
            pts == points@,
            fl == (|i: int| "L "@ + point_text(pts[i + 1]) + " "@),
            out@ == head + concat(Seq::new((i - 1) as nat, fl)),
        decreases points.len() - i,
    {
        let ghost before = out@;
        push_str(out, "L ");
        push_str(out, points[i].x.as_str());
        push_str(out, " ");
        push_str(out, points[i].y.as_str());
        push_str(out, " ");
        proof {
            assert(out@ =~= before + fl((i - 1) as int));
            lemma_concat_new_step((i - 1) as nat, fl);
        }
        i += 1;
    }
    assert(out@ =~= start + path_vertices(pts));
}

/// Appends an open path element through `points` (nothing for no points).
pub fn push_path(out: &mut String, points: &Vec<Point2>)
    ensures
        final(out)@ == old(out)@ + path_text(points@, open_path_end()),
{
    if points.len() == 0 {
        assert(old(out)@ + path_text(points@, open_path_end()) =~= old(out)@);
        return ;
    }
    let ghost start = out@;
    push_str(out, "  <path d=\"");
    push_path_vertices(out, points);
    push_str(out, "\" stroke=\"black\" fill-opacity=\"0.0\" />\n");
    assert(out@ =~= start + path_text(points@, open_path_end()));
}

/// Appends a closed, filled path element through `points` (nothing for no points).
pub fn push_path_closed(out: &mut String, points: &Vec<Point2>)
    ensures
        final(out)@ == old(out)@ + path_text(points@, closed_path_end()),
{
    if points.len() == 0 {
        assert(old(out)@ + path_text(points@, closed_path_end()) =~= old(out)@);
        return ;
    }
    let ghost start = out@;
    push_str(out, "  <path d=\"");
    push_path_vertices(out, points);
    push_str(out, "Z\" fill=\"black\" />\n");
    assert(out@ =~= start + path_text(points@, closed_path_end()));
}

/// A filled circle; it ends without a line break.
pub open spec fn circle_text(center: Point2, radius: String) -> Seq<char> {
    "  <circle cx=\""@ + center.x@ + "\" cy=\""@ + center.y@ + "\" r=\""@ + radius@
        + "\" fill=\"black\" />"@
}

/// Appends a filled circle.
pub fn push_circle(out: &mut String, center: &Point2, radius: &String)
    ensures
        final(out)@ == old(out)@ + circle_text(*center, *radius),
{
    let ghost start = out@;
    push_str(out, "  <circle cx=\"");
    push_str(out, center.x.as_str());
    push_str(out, "\" cy=\"");
    push_str(out, center.y.as_str());
    push_str(out, "\" r=\"");
    push_str(out, radius.as_str());
    push_str(out, "\" fill=\"black\" />");
    assert(out@ =~= start + circle_text(*center, *radius));
}

/// The view box of a drawing and its physical size, rendered as text.
pub struct Viewport {
    pub x: String,
    pub y: String,
    pub width: String,
    pub height: String,
    pub width_mm: String,
    pub height_mm: String,
}

/// The opening `svg` tag up to, not including, its closing `>`.
pub open spec fn viewport_open(v: Viewport) -> Seq<char> {
    "<svg version=\"1.1\" viewBox=\""@ + v.x@ + " "@ + v.y@ + " "@ + v.width@ + " "@ + v.height@
        + "\" width=\""@ + v.width_mm@ + "mm\" height=\""@ + v.height_mm@
        + "mm\" xmlns=\"http://www.w3.org/2000/svg\" preserveAspectRatio=\"xMidYMid\""@
}

/// An empty drawing.
pub open spec fn viewport_text(v: Viewport) -> Seq<char> {
    viewport_open(v) + ">\n</svg>"@
}

impl Viewport {
    /// An empty drawing with this view box.
    pub fn start_svg(&self) -> (s: String)
        ensures
            s@ == viewport_text(*self),
            index_of(s@, '>') + 2 <= s@.len(),
    {
        let mut s = String::new();
        push_str(&mut s, "<svg version=\"1.1\" viewBox=\"");
        push_str(&mut s, self.x.as_str());
        push_str(&mut s, " ");
        push_str(&mut s, self.y.as_str());
        push_str(&mut s, " ");
        push_str(&mut s, self.width.as_str());
        push_str(&mut s, " ");
        push_str(&mut s, self.height.as_str());
        push_str(&mut s, "\" width=\"");
        push_str(&mut s, self.width_mm.as_str());
        push_str(&mut s, "mm\" height=\"");
        push_str(&mut s, self.height_mm.as_str());
        push_str(&mut s, "mm\" xmlns=\"http://www.w3.org/2000/svg\" preserveAspectRatio=\"xMidYMid\"");
        push_str(&mut s, ">\n</svg>");
        proof {
            reveal_strlit(">\n</svg>");
            assert(s@ =~= viewport_text(*self));
            let j = s@.len() - 8;
            assert(s@[j] == '>');
            lemma_index_of_first(s@, '>', j);
        }
        s
    }
}

/// One sample of a flattened curve: its position, and the start and direction of the
/// tick drawn along its ruling.
pub struct FlatSample {
    pub position: Point2,
    pub tick_origin: Point2,
    pub tick_direction: Point2,
}

/// A short stroke from `origin` by `direction`.
pub open spec fn tick_text(origin: Point2, direction: Point2) -> Seq<char> {
    "  <path d=\"M "@ + point_text(origin) + " l "@ + point_text(direction)
        + "\" stroke=\"black\" fill=\"transparent\" />\n"@
}

pub fn push_tick(out: &mut String, origin: &Point2, direction: &Point2)
    ensures
        final(out)@ == old(out)@ + tick_text(*origin, *direction),
{
    let ghost start = out@;
    push_str(out, "  <path d=\"M ");
    push_str(out, origin.x.as_str());
    push_str(out, " ");
    push_str(out, origin.y.as_str());
    push_str(out, " l ");
    push_str(out, direction.x.as_str());
    push_str(out, " ");
    push_str(out, direction.y.as_str());
    push_str(out, "\" stroke=\"black\" fill=\"transparent\" />\n");
    assert(out@ =~= start + tick_text(*origin, *direction));
}

pub open spec fn positions(curve: Seq<FlatSample>) -> Seq<Point2> {
    curve.map_values(|s: FlatSample| s.position)
}

/// The ticks of every sample but the first.
pub open spec fn ticks_text(curve: Seq<FlatSample>) -> Seq<char> {
    concat(
        Seq::new(
            gaps(curve.len()),
            |i: int| tick_text(curve[i + 1].tick_origin, curve[i + 1].tick_direction),
        ),
    )
}

/// Appends the ticks of every sample but the first.
pub fn push_ticks(out: &mut String, curve: &[FlatSample])
    ensures
        final(out)@ == old(out)@ + ticks_text(curve@),
{
    let ghost start = out@;
    let ghost c = curve@;
    let ghost ft = |i: int| tick_text(c[i + 1].tick_origin, c[i + 1].tick_direction);
    if curve.len() == 0 {
        assert(Seq::new(gaps(c.len()), ft) =~= Seq::<Seq<char>>::empty());
        assert(out@ =~= start + ticks_text(c));
        return ;
    }
    let mut i: usize = 1;
    assert(Seq::new(0, ft) =~= Seq::<Seq<char>>::empty());
    assert(out@ =~= start + concat(Seq::new(0, ft)));
    while i < curve.len()
        invariant
            1 <= i <= curve.len(),
            c == curve@,
            ft == (|i: int| tick_text(c[i + 1].tick_origin, c[i + 1].tick_direction)),
            out@ == start + concat(Seq::new((i - 1) as nat, ft)),
        decreases curve.len() - i,
    {
        push_tick(out, &curve[i].tick_origin, &curve[i].tick_direction);
        proof {
            lemma_concat_new_step((i - 1) as nat, ft);
        }
        i += 1;
    }
}

/// Copies the positions of `curve`.
pub(crate) fn collect_positions(curve: &[FlatSample]) -> (v: Vec<Point2>)
    ensures
        v@ == positions(curve@),
{
    let mut v: Vec<Point2> = Vec::new();
    let mut i: usize = 0;
    while i < curve.len()
        invariant
            i <= curve.len(),
            v@ == positions(curve@).take(i as int),
        decreases curve.len() - i,
    {
        v.push(copy_point(&curve[i].position));
        i += 1;
        assert(v@ =~= positions(curve@).take(i as int));
    }
    assert(positions(curve@).take(i as int) =~= positions(curve@));
    v
}

/// The group drawn into a flattened-surface drawing: the flattened curve and its ticks.
pub open spec fn surface_svg_body(curve: Seq<FlatSample>) -> Seq<char> {
    "  <g>\n"@ + path_text(positions(curve), open_path_end()) + ticks_text(curve) + "</g>\n"@
}

/// The drawing of a flattened surface: the curve as a path and, at every sample but
/// the first, a tick along the ruling direction.
pub fn to_svg(viewport: &Viewport, curve: &[FlatSample]) -> (r: Result<
    StrFileData,
    core::fmt::Error,
>)
    ensures
        r matches Ok(d) && d.contents@ == insert_after_tag(
            viewport_text(*viewport),
            surface_svg_body(curve@),
        ),
{
    let doc = viewport.start_svg();
    let (mut string, eof) = split_after_tag(&doc);
    push_str(&mut string, "  <g>\n");
    let pts = collect_positions(curve);
    push_path(&mut string, &pts);
    push_ticks(&mut string, curve);
    push_str(&mut string, "</g>\n");
    push_str(&mut string, eof.as_str());
    assert(string@ =~= insert_after_tag(viewport_text(*viewport), surface_svg_body(curve@)));
    Ok(StrFileData { contents: string })
}

/// Layout choices of a pipe drawing.
pub struct SvgConfig {
    /// Leave out the bars between opposing border vertices.
    pub disable_cross_bars: bool,
    /// Punch mount holes; this also leaves out the cross bars.
    pub mount_holes: bool,
}

/// The configuration in effect: mount holes leave out the cross bars.
pub open spec fn effective(cfg: SvgConfig) -> SvgConfig {
    SvgConfig {
        disable_cross_bars: cfg.disable_cross_bars || cfg.mount_holes,
        mount_holes: cfg.mount_holes,
    }
}

/// One cross section of a flattened pipe face: the two border points, and the
/// centers of the mount holes beside them.
pub struct FaceSample {
    pub left: Point2,
    pub right: Point2,
    pub hole_left: Point2,
    pub hole_right: Point2,
}

/// The white rectangle of the hole mask, rendered as text.
pub struct MaskRect {
    pub x: String,
    pub y: String,
    pub width: String,
    pub height: String,
}

/// Everything drawn on the sheet of one flattened pipe face.
pub struct FaceSheet {
    pub viewport: Viewport,
    pub mask: MaskRect,
    pub hole_radius: String,
    pub samples: Vec<FaceSample>,
}

/// Number of samples strictly between the first and the last.
pub open spec fn interior_count(n: nat) -> nat {
    if n >= 2 {
        (n - 2) as nat
    } else {
        0
    }
}

pub open spec fn mask_open(m: MaskRect) -> Seq<char> {
    "  <mask id=\"maskHoles\" mask-type=\"luminance\">"@ + "  <rect x=\""@ + m.x@ + "\" y=\""@
        + m.y@ + "\" width=\""@ + m.width@ + "\" height=\""@ + m.height@
        + "\" fill=\"white\" />"@
}

/// Two holes at every interior sample.
pub open spec fn holes_text(samples: Seq<FaceSample>, radius: String) -> Seq<char> {
    concat(
        Seq::new(
            interior_count(samples.len()),
            |i: int|
                circle_text(samples[i + 1].hole_left, radius) + circle_text(
                    samples[i + 1].hole_right,
                    radius,
                ),
        ),
    )
}

/// The border of a face: left border forward, then right border backward.
pub open spec fn outline(samples: Seq<FaceSample>) -> Seq<Point2> {
    let n = samples.len();
    Seq::new(
        2 * n,
        |i: int|
            if i < n {
                samples[i].left
            } else {
                samples[2 * n - 1 - i].right
            },
    )
}

/// A bar across every interior sample.
pub open spec fn cross_bars_text(samples: Seq<FaceSample>) -> Seq<char> {
    concat(
        Seq::new(
            interior_count(samples.len()),
            |i: int| path_text(seq![samples[i + 1].left, samples[i + 1].right], open_path_end()),
        ),
    )
}

/// What is drawn into the sheet of one face under the configuration in effect `cfg`.
pub open spec fn face_body(cfg: SvgConfig, sheet: FaceSheet) -> Seq<char> {
    let samples = sheet.samples@;
    (if cfg.mount_holes {
        mask_open(sheet.mask) + holes_text(samples, sheet.hole_radius) + "  </mask>"@
            + "  <g mask=\"url(#maskHoles)\">"@
    } else {
        Seq::<char>::empty()
    }) + path_text(outline(samples), closed_path_end()) + (if cfg.mount_holes {
        "  </g>"@
    } else {
        Seq::<char>::empty()
    }) + (if !cfg.disable_cross_bars {
        cross_bars_text(samples)
    } else {
        Seq::<char>::empty()
    })
}

/// The whole drawing of one face.
pub open spec fn face_text(cfg: SvgConfig, sheet: FaceSheet) -> Seq<char> {
    insert_after_tag(viewport_text(sheet.viewport), face_body(cfg, sheet))
}

fn push_mask_open(out: &mut String, m: &MaskRect)
    ensures
        final(out)@ == old(out)@ + mask_open(*m),
{
    let ghost start = out@;
    push_str(out, "  <mask id=\"maskHoles\" mask-type=\"luminance\">");
    push_str(out, "  <rect x=\"");
    push_str(out, m.x.as_str());
    push_str(out, "\" y=\"");
    push_str(out, m.y.as_str());
    push_str(out, "\" width=\"");
    push_str(out, m.width.as_str());
    push_str(out, "\" height=\"");
    push_str(out, m.height.as_str());
    push_str(out, "\" fill=\"white\" />");
    assert(out@ =~= start + mask_open(*m));
}

fn push_holes(out: &mut String, samples: &Vec<FaceSample>, radius: &String)
    ensures
        final(out)@ == old(out)@ + holes_text(samples@, *radius),
{
    let ghost start = out@;
    let ghost sm = samples@;
    let ghost fh = |i: int|
        circle_text(sm[i + 1].hole_left, *radius) + circle_text(sm[i + 1].hole_right, *radius);
    let n = samples.len();
    let count: usize = if n >= 2 {
        n - 2
    } else {
        0
    };
    let mut i: usize = 0;
    assert(out@ =~= start + concat(Seq::new(0, fh)));
    while i < count
        invariant
            i <= count,
            count == interior_count(n as nat),
            n == samples.len(),
            sm == samples@,
            fh == (|i: int|
                circle_text(sm[i + 1].hole_left, *radius) + circle_text(
                    sm[i + 1].hole_right,
                    *radius,
                )),
            out@ == start + concat(Seq::new(i as nat, fh)),
        decreases count - i,
    {
        let ghost before = out@;
        push_circle(out, &samples[i + 1].hole_left, radius);
        push_circle(out, &samples[i + 1].hole_right, radius);
        proof {
            assert(out@ =~= before + fh(i as int));
            lemma_concat_new_step(i as nat, fh);
        }
        i += 1;
    }
}

fn push_cross_bars(out: &mut String, samples: &Vec<FaceSample>)
    ensures
        final(out)@ == old(out)@ + cross_bars_text(samples@),
{
    let ghost start = out@;
    let ghost sm = samples@;
    let ghost fb = |i: int| path_text(seq![sm[i + 1].left, sm[i + 1].right], open_path_end());
    let n = samples.len();
    let count: usize = if n >= 2 {
        n - 2
    } else {
        0
    };
    let mut i: usize = 0;
    assert(out@ =~= start + concat(Seq::new(0, fb)));
    while i < count
        invariant
            i <= count,
            count == interior_count(n as nat),
            n == samples.len(),
            sm == samples@,
            fb == (|i: int| path_text(seq![sm[i + 1].left, sm[i + 1].right], open_path_end())),
            out@ == start + concat(Seq::new(i as nat, fb)),
        decreases count - i,
    {
        let bar = vec![copy_point(&samples[i + 1].left), copy_point(&samples[i + 1].right)];
        push_path(out, &bar);
        proof {
            assert(bar@ =~= seq![sm[i + 1].left, sm[i + 1].right]);
            lemma_concat_new_step(i as nat, fb);
        }
        i += 1;
    }
}

fn collect_outline(samples: &Vec<FaceSample>) -> (v: Vec<Point2>)
    requires
        samples.len() * 2 <= usize::MAX,
    ensures
        v@ == outline(samples@),
{
    let n = samples.len();
    let ghost o = outline(samples@);
    let mut v: Vec<Point2> = Vec::new();
    let mut i: usize = 0;
    while i < n
        invariant
            i <= n,
            n == samples.len(),
            n * 2 <= usize::MAX,
            o == outline(samples@),
            v@ == o.take(i as int),
        decreases n - i,
    {
        v.push(copy_point(&samples[i].left));
        i += 1;
        assert(v@ =~= o.take(i as int));
    }
    let mut k: usize = 0;
    while k < n
        invariant
            k <= n,
            n == samples.len(),
            n * 2 <= usize::MAX,
            o == outline(samples@),
            v@ == o.take(n + k),
        decreases n - k,
    {
        v.push(copy_point(&samples[n - 1 - k].right));
        k += 1;
        assert(v@ =~= o.take(n + k));
    }
    assert(o.take(2 * n) =~= o);
    v
}

impl SvgConfig {
    /// Mount holes leave out the cross bars.
    fn apply_incompatibility(self) -> (r: Self)
        ensures
            r == effective(self),
    {
        let mut cfg = self;
        cfg.disable_cross_bars = cfg.disable_cross_bars || cfg.mount_holes;
        cfg
    }

    /// One drawing per face of a triangular pipe (opposing face, first face, second face):
    /// the outline of the flattened face, optionally masked by mount holes, and bars
    /// across its interior cross sections.
    pub fn pipe(self, faces: &[FaceSheet; 3]) -> (r: Result<[StrFileData; 3], core::fmt::Error>)
        requires
            forall|f: int| 0 <= f < 3 ==> #[trigger] faces[f].samples@.len() * 2 <= usize::MAX,
        ensures
            r matches Ok(d) && forall|f: int|
                0 <= f < 3 ==> #[trigger] d[f].contents@ == face_text(effective(self), faces[f]),
    {
        let cfg = self.apply_incompatibility();
        let a = draw_face(&cfg, &faces[0]);
        let b = draw_face(&cfg, &faces[1]);
        let c = draw_face(&cfg, &faces[2]);
        let out = [StrFileData { contents: a }, StrFileData { contents: b }, StrFileData { contents: c }];
        assert(out[0].contents@ == face_text(effective(self), faces[0]));
        assert(out[1].contents@ == face_text(effective(self), faces[1]));
        assert(out[2].contents@ == face_text(effective(self), faces[2]));
        Ok(out)
    }
}

/// The drawing of one face under the configuration in effect `cfg`.
fn draw_face(cfg: &SvgConfig, sheet: &FaceSheet) -> (s: String)
    requires
        sheet.samples@.len() * 2 <= usize::MAX,
    ensures
        s@ == face_text(*cfg, *sheet),
{
    let doc = sheet.viewport.start_svg();
    let (mut string, eof) = split_after_tag(&doc);
    let ghost head = string@;
    if cfg.mount_holes {
        push_mask_open(&mut string, &sheet.mask);
        push_holes(&mut string, &sheet.samples, &sheet.hole_radius);
        push_str(&mut string, "  </mask>");
        push_str(&mut string, "  <g mask=\"url(#maskHoles)\">");
    }
    let ring = collect_outline(&sheet.samples);
    push_path_closed(&mut string, &ring);
    if cfg.mount_holes {
        push_str(&mut string, "  </g>");
    }
    if !cfg.disable_cross_bars {
        push_cross_bars(&mut string, &sheet.samples);
    }
    let ghost body_end = string@;
    push_str(&mut string, eof.as_str());
    proof {
        let body = face_body(*cfg, *sheet);
        assert(body_end =~= head + body);
        assert(string@ =~= face_text(*cfg, *sheet));
    }
    string
}

/// The outline of a face runs down its left border and back up its right border: the
/// turn joins the borders at the last section, the closing edge at the first.
pub proof fn lemma_outline_ring(samples: Seq<FaceSample>)
    ensures
        outline(samples).len() == 2 * samples.len(),
        forall|i: int|
            0 <= i < samples.len() ==> #[trigger] outline(samples)[i] == samples[i].left,
        forall|i: int|
            0 <= i < samples.len() ==> outline(samples)[2 * samples.len() - 1 - i]
                == #[trigger] samples[i].right,
{
}

/// In effect, mount holes always leave out the cross bars; applying the rule twice
/// changes nothing.
pub proof fn lemma_effective_config(cfg: SvgConfig)
    ensures
        effective(cfg).mount_holes == cfg.mount_holes,
        cfg.mount_holes ==> effective(cfg).disable_cross_bars,
        !cfg.mount_holes ==> effective(cfg).disable_cross_bars == cfg.disable_cross_bars,
        effective(effective(cfg)) == effective(cfg),
{
}

/// With mount holes a face is drawn as its masked outline only: no cross bars.
pub proof fn lemma_mount_holes_drawing(cfg: SvgConfig, sheet: FaceSheet)
    requires
        cfg.mount_holes,
    ensures
        face_body(effective(cfg), sheet) == mask_open(sheet.mask) + holes_text(
            sheet.samples@,
            sheet.hole_radius,
        ) + "  </mask>"@ + "  <g mask=\"url(#maskHoles)\">"@ + path_text(
            outline(sheet.samples@),
            closed_path_end(),
        ) + "  </g>"@,
{
    let e = effective(cfg);
    assert(face_body(e, sheet) =~= mask_open(sheet.mask) + holes_text(
        sheet.samples@,
        sheet.hole_radius,
    ) + "  </mask>"@ + "  <g mask=\"url(#maskHoles)\">"@ + path_text(
        outline(sheet.samples@),
        closed_path_end(),
    ) + "  </g>"@);
}

/// No `>` in the text.
pub open spec fn no_gt(s: Seq<char>) -> bool {
    forall|j: int| 0 <= j < s.len() ==> s[j] != '>'
}

pub proof fn lemma_no_gt_concat(a: Seq<char>, b: Seq<char>)
    requires
        no_gt(a),
        no_gt(b),
    ensures
        no_gt(a + b),
{
    assert forall|j: int| 0 <= j < (a + b).len() implies (a + b)[j] != '>' by {
        if j < a.len() {
            assert((a + b)[j] == a[j]);
        } else {
            assert((a + b)[j] == b[j - a.len()]);
        }
    }
}

pub proof fn lemma_index_of_after(a: Seq<char>, b: Seq<char>)
    requires
        no_gt(a),
    ensures
        index_of(a + b, '>') == a.len() + index_of(b, '>'),
    decreases a.len(),
{
    if a.len() == 0 {
        assert(a + b =~= b);
    } else {
        assert((a + b).drop_first() =~= a.drop_first() + b);
        assert(a[0] != '>');
        lemma_index_of_after(a.drop_first(), b);
    }
}

/// The rendered numbers of a view box hold no `>` (as numbers never do).
pub open spec fn viewport_tokens_plain(v: Viewport) -> bool {
    no_gt(v.x@) && no_gt(v.y@) && no_gt(v.width@) && no_gt(v.height@) && no_gt(v.width_mm@)
        && no_gt(v.height_mm@)
}

/// What is drawn into a sheet lands inside its `svg` element, right after the opening
/// tag's line break.
pub proof fn lemma_drawn_inside_svg(v: Viewport, body: Seq<char>)
    requires
        viewport_tokens_plain(v),
    ensures
        insert_after_tag(viewport_text(v), body) == viewport_open(v) + ">\n"@ + body + "</svg>"@,
{
    reveal_strlit("<svg version=\"1.1\" viewBox=\"");
    reveal_strlit(" ");
    reveal_strlit("\" width=\"");
    reveal_strlit("mm\" height=\"");
    reveal_strlit("mm\" xmlns=\"http://www.w3.org/2000/svg\" preserveAspectRatio=\"xMidYMid\"");
    reveal_strlit(">\n</svg>");
    reveal_strlit(">\n");
    reveal_strlit("</svg>");
    let l1 = "<svg version=\"1.1\" viewBox=\""@;
    let sp = " "@;
    let l2 = "\" width=\""@;
    let l3 = "mm\" height=\""@;
    let l4 = "mm\" xmlns=\"http://www.w3.org/2000/svg\" preserveAspectRatio=\"xMidYMid\""@;
    assert(no_gt(l1));
    assert(no_gt(sp));
    assert(no_gt(l2));
    assert(no_gt(l3));
    assert(no_gt(l4));
    lemma_no_gt_concat(l1, v.x@);
    lemma_no_gt_concat(l1 + v.x@, sp);
    lemma_no_gt_concat(l1 + v.x@ + sp, v.y@);
    lemma_no_gt_concat(l1 + v.x@ + sp + v.y@, sp);
    lemma_no_gt_concat(l1 + v.x@ + sp + v.y@ + sp, v.width@);
    lemma_no_gt_concat(l1 + v.x@ + sp + v.y@ + sp + v.width@, sp);
    lemma_no_gt_concat(l1 + v.x@ + sp + v.y@ + sp + v.width@ + sp, v.height@);
    lemma_no_gt_concat(l1 + v.x@ + sp + v.y@ + sp + v.width@ + sp + v.height@, l2);
    lemma_no_gt_concat(l1 + v.x@ + sp + v.y@ + sp + v.width@ + sp + v.height@ + l2, v.width_mm@);
    lemma_no_gt_concat(
        l1 + v.x@ + sp + v.y@ + sp + v.width@ + sp + v.height@ + l2 + v.width_mm@,
        l3,
    );
    lemma_no_gt_concat(
        l1 + v.x@ + sp + v.y@ + sp + v.width@ + sp + v.height@ + l2 + v.width_mm@ + l3,
        v.height_mm@,
    );
    lemma_no_gt_concat(
        l1 + v.x@ + sp + v.y@ + sp + v.width@ + sp + v.height@ + l2 + v.width_mm@ + l3
            + v.height_mm@,
        l4,
    );
    let open = viewport_open(v);
    assert(no_gt(open));
    let tail = ">\n</svg>"@;
    lemma_index_of_after(open, tail);
    assert(index_of(tail, '>') == 0);
    let text = viewport_text(v);
    assert(text.take(open.len() as int + 2) =~= open + ">\n"@);
    assert(text.skip(open.len() as int + 2) =~= "</svg>"@);
}

/// The path data of a polyline is built point by point: `M` to the first point, then `L`
/// to each further point in order.
pub proof fn lemma_path_vertices_steps(points: Seq<Point2>, p: Point2)
    ensures
        path_vertices(Seq::empty()) == Seq::<char>::empty(),
        path_vertices(seq![p]) == "M "@ + point_text(p) + " "@,
        points.len() > 0 ==> path_vertices(points.push(p)) == path_vertices(points) + ("L "@
            + point_text(p) + " "@),
{
    let fl = |q: Seq<Point2>| |i: int| "L "@ + point_text(q[i + 1]) + " "@;
    assert(Seq::new(gaps(1), fl(seq![p])) =~= Seq::<Seq<char>>::empty());
    assert(path_vertices(seq![p]) =~= "M "@ + point_text(p) + " "@);
    if points.len() > 0 {
        let q = points.push(p);
        let m = gaps(points.len());
        assert(gaps(q.len()) == m + 1);
        assert(Seq::new(m, fl(points)) =~= Seq::new(m, fl(q)));
        lemma_concat_new_step(m, fl(q));
        assert(fl(q)(m as int) == "L "@ + point_text(p) + " "@);
        assert(path_vertices(q) =~= path_vertices(points) + ("L "@ + point_text(p) + " "@));
    }
}

/// A bar across a section: a two-point open path from its left to its right border point.
pub open spec fn bar_record(s: FaceSample) -> Seq<char> {
    "  <path d=\"M "@ + s.left.x@ + " "@ + s.left.y@ + " L "@ + s.right.x@ + " "@ + s.right.y@
        + " \" stroke=\"black\" fill-opacity=\"0.0\" />"@
}

/// The records of a face drawn without mount holes: the closed, filled outline (if the face
/// has sections), then, with cross bars, one bar at each interior section `k + 1`, in order.
pub open spec fn face_records(cfg: SvgConfig, sheet: FaceSheet) -> Seq<Seq<char>> {
    let samples = sheet.samples@;
    let n = samples.len();
    (if n > 0 {
        seq!["  <path d=\""@ + path_vertices(outline(samples)) + "Z\" fill=\"black\" />"@]
    } else {
        Seq::<Seq<char>>::empty()
    }) + if !cfg.disable_cross_bars {
        Seq::new(if n >= 2 { (n - 2) as nat } else { 0 }, |k: int| bar_record(samples[k + 1]))
    } else {
        Seq::<Seq<char>>::empty()
    }
}

proof fn lemma_bar_text(s: FaceSample)
    ensures
        bar_record(s) + "\n"@ == path_text(seq![s.left, s.right], open_path_end()),
{
    reveal_strlit("  <path d=\"M ");
    reveal_strlit("  <path d=\"");
    reveal_strlit("M ");
    reveal_strlit(" L ");
    reveal_strlit("L ");
    reveal_strlit(" ");
    reveal_strlit(" \" stroke=\"black\" fill-opacity=\"0.0\" />");
    reveal_strlit("\" stroke=\"black\" fill-opacity=\"0.0\" />\n");
    reveal_strlit("\n");
    lemma_path_vertices_steps(seq![s.left], s.right);
    assert(seq![s.left].push(s.right) =~= seq![s.left, s.right]);
    assert(bar_record(s) + "\n"@ =~= path_text(seq![s.left, s.right], open_path_end()));
}

proof fn lemma_outline_record_text(points: Seq<Point2>)
    requires
        points.len() > 0,
    ensures
        ("  <path d=\""@ + path_vertices(points) + "Z\" fill=\"black\" />"@) + "\n"@ == path_text(
            points,
            closed_path_end(),
        ),
{
    reveal_strlit("Z\" fill=\"black\" />");
    reveal_strlit("Z\" fill=\"black\" />\n");
    reveal_strlit("\n");
    assert(("  <path d=\""@ + path_vertices(points) + "Z\" fill=\"black\" />"@) + "\n"@ =~= path_text(
        points,
        closed_path_end(),
    ));
}

/// Without mount holes a face drawing consists of exactly the records `face_records`, one per
/// line: its outline, then one bar at each interior section, each at its own section.
pub proof fn lemma_face_records(cfg: SvgConfig, sheet: FaceSheet)
    requires
        !cfg.mount_holes,
    ensures
        face_body(effective(cfg), sheet) == records_text(face_records(cfg, sheet)),
{
    let samples = sheet.samples@;
    let n = samples.len();
    let e = effective(cfg);
    let head = if n > 0 {
        seq!["  <path d=\""@ + path_vertices(outline(samples)) + "Z\" fill=\"black\" />"@]
    } else {
        Seq::<Seq<char>>::empty()
    };
    let rb = |k: int| bar_record(samples[k + 1]);
    let bars = if !cfg.disable_cross_bars {
        Seq::new(interior_count(n), rb)
    } else {
        Seq::<Seq<char>>::empty()
    };
    assert(face_records(cfg, sheet) =~= head + bars);
    lemma_records_text_append(head, bars);
    lemma_outline_ring(samples);
    if n > 0 {
        let h = "  <path d=\""@ + path_vertices(outline(samples)) + "Z\" fill=\"black\" />"@;
        lemma_records_text_small(h, h, h, h);
        lemma_outline_record_text(outline(samples));
    } else {
        assert(outline(samples) =~= Seq::<Point2>::empty());
        assert(records_text(head) =~= Seq::<char>::empty());
    }
    if !cfg.disable_cross_bars {
        lemma_records_text_new(interior_count(n), rb);
        assert forall|k: int| 0 <= k < interior_count(n) implies #[trigger] rb(k) + "\n"@ == path_text(
            seq![samples[k + 1].left, samples[k + 1].right],
            open_path_end(),
        ) by {
            lemma_bar_text(samples[k + 1]);
        }
        assert(Seq::new(interior_count(n), |k: int| rb(k) + "\n"@) =~= Seq::new(
            interior_count(n),
            |i: int| path_text(seq![samples[i + 1].left, samples[i + 1].right], open_path_end()),
        ));
    } else {
        assert(records_text(bars) =~= Seq::<char>::empty());
    }
    assert(face_body(e, sheet) =~= records_text(head) + records_text(bars));
}

/// A tick: the stroke from `origin` by `direction`, both of one sample.
pub open spec fn tick_record(origin: Point2, direction: Point2) -> Seq<char> {
    "  <path d=\"M "@ + origin.x@ + " "@ + origin.y@ + " l "@ + direction.x@ + " "@ + direction.y@
        + "\" stroke=\"black\" fill=\"transparent\" />"@
}

/// The tick records: one for every sample but the first, each from that sample's own
/// origin along that sample's own direction.
pub open spec fn tick_records(curve: Seq<FlatSample>) -> Seq<Seq<char>> {
    Seq::new(
        if curve.len() > 0 { (curve.len() - 1) as nat } else { 0 },
        |k: int| tick_record(curve[k + 1].tick_origin, curve[k + 1].tick_direction),
    )
}

proof fn lemma_tick_text(o: Point2, d: Point2)
    ensures
        tick_record(o, d) + "\n"@ == tick_text(o, d),
{
    reveal_strlit("\" stroke=\"black\" fill=\"transparent\" />");
    reveal_strlit("\" stroke=\"black\" fill=\"transparent\" />\n");
    reveal_strlit("\n");
    assert(tick_record(o, d) + "\n"@ =~= tick_text(o, d));
}

/// The ticks drawn are exactly the tick records, one per line.
pub proof fn lemma_tick_records(curve: Seq<FlatSample>)
    ensures
        ticks_text(curve) == records_text(tick_records(curve)),
{
    let m = gaps(curve.len());
    let r = |k: int| tick_record(curve[k + 1].tick_origin, curve[k + 1].tick_direction);
    lemma_records_text_new(m, r);
    assert forall|k: int| 0 <= k < m implies #[trigger] r(k) + "\n"@ == tick_text(
        curve[k + 1].tick_origin,
        curve[k + 1].tick_direction,
    ) by {
        lemma_tick_text(curve[k + 1].tick_origin, curve[k + 1].tick_direction);
    }
    assert(Seq::new(m, |k: int| r(k) + "\n"@) =~= Seq::new(
        m,
        |i: int| tick_text(curve[i + 1].tick_origin, curve[i + 1].tick_direction),
    ));
    assert(tick_records(curve) == Seq::new(m, r));
}

/// The records of a flattened-surface drawing: the group opening, the path through the
/// positions (if any), a tick for every sample but the first, the group closing.
pub open spec fn surface_svg_records(curve: Seq<FlatSample>) -> Seq<Seq<char>> {
    seq!["  <g>"@] + (if curve.len() > 0 {
        seq![
            "  <path d=\""@ + path_vertices(curve.map_values(|s: FlatSample| s.position))
                + "\" stroke=\"black\" fill-opacity=\"0.0\" />"@,
        ]
    } else {
        Seq::<Seq<char>>::empty()
    }) + tick_records(curve) + seq!["</g>"@]
}

/// A flattened-surface drawing's body consists of exactly the records
/// `surface_svg_records`, one per line.
pub proof fn lemma_surface_svg_records(curve: Seq<FlatSample>)
    ensures
        surface_svg_body(curve) == records_text(surface_svg_records(curve)),
{
    reveal_strlit("  <g>\n");
    reveal_strlit("  <g>");
    reveal_strlit("</g>\n");
    reveal_strlit("</g>");
    reveal_strlit("\n");
    reveal_strlit("\" stroke=\"black\" fill-opacity=\"0.0\" />");
    reveal_strlit("\" stroke=\"black\" fill-opacity=\"0.0\" />\n");
    let a = seq!["  <g>"@];
    let p = "  <path d=\""@ + path_vertices(curve.map_values(|s: FlatSample| s.position))
        + "\" stroke=\"black\" fill-opacity=\"0.0\" />"@;
    assert(curve.map_values(|s: FlatSample| s.position) =~= positions(curve));
    let b = if curve.len() > 0 {
        seq![p]
    } else {
        Seq::<Seq<char>>::empty()
    };
    let t = tick_records(curve);
    let z = seq!["</g>"@];
    assert(surface_svg_records(curve) =~= a + b + t + z);
    lemma_records_text_append(a + b + t, z);
    lemma_records_text_append(a + b, t);
    lemma_records_text_append(a, b);
    lemma_records_text_small("  <g>"@, p, p, p);
    lemma_records_text_small("</g>"@, p, p, p);
    lemma_tick_records(curve);
    if curve.len() > 0 {
        lemma_records_text_small(p, p, p, p);
        assert(records_text(b) =~= path_text(positions(curve), open_path_end()));
    } else {
        assert(records_text(b) =~= Seq::<char>::empty());
        assert(positions(curve) =~= Seq::<Point2>::empty());
    }
    assert(surface_svg_body(curve) =~= records_text(a) + records_text(b) + records_text(t)
        + records_text(z));
}

/// The two mount holes beside a section: a filled circle around each hole center.
pub open spec fn hole_pair(s: FaceSample, radius: String) -> Seq<char> {
    "  <circle cx=\""@ + s.hole_left.x@ + "\" cy=\""@ + s.hole_left.y@ + "\" r=\""@ + radius@
        + "\" fill=\"black\" />"@ + "  <circle cx=\""@ + s.hole_right.x@ + "\" cy=\""@
        + s.hole_right.y@ + "\" r=\""@ + radius@ + "\" fill=\"black\" />"@
}

/// Mount holes sit at interior sections only: a face of at most two sections has none, and
/// appending a section to a face of at least two adds the holes of the previous last
/// section, which has become interior.
pub proof fn lemma_holes_steps(samples: Seq<FaceSample>, x: FaceSample, radius: String)
    ensures
        samples.len() <= 2 ==> holes_text(samples, radius) == Seq::<char>::empty(),
        samples.len() >= 2 ==> holes_text(samples.push(x), radius) == holes_text(samples, radius)
            + hole_pair(samples.last(), radius),
{
    let f = |q: Seq<FaceSample>| |i: int|
        circle_text(q[i + 1].hole_left, radius) + circle_text(q[i + 1].hole_right, radius);
    if samples.len() <= 2 {
        assert(Seq::new(interior_count(samples.len()), f(samples)) =~= Seq::<Seq<char>>::empty());
    }
    if samples.len() >= 2 {
        let q = samples.push(x);
        let m = interior_count(samples.len());
        assert(interior_count(q.len()) == m + 1);
        assert(Seq::new(m, f(samples)) =~= Seq::new(m, f(q)));
        lemma_concat_new_step(m, f(q));
        assert(q[m as int + 1] == samples.last());
        assert(f(q)(m as int) =~= hole_pair(samples.last(), radius));
    }
}

/// The opening `svg` tag of a drawing, with the view box and the physical size.
pub open spec fn svg_open_tag(v: Viewport) -> Seq<char> {
    "<svg version=\"1.1\" viewBox=\""@ + v.x@ + " "@ + v.y@ + " "@ + v.width@ + " "@ + v.height@
        + "\" width=\""@ + v.width_mm@ + "mm\" height=\""@ + v.height_mm@
        + "mm\" xmlns=\"http://www.w3.org/2000/svg\" preserveAspectRatio=\"xMidYMid\">"@
}

/// An empty drawing is its opening tag on a line of its own, then the closing tag.
pub proof fn lemma_empty_drawing(v: Viewport)
    ensures
        viewport_text(v) == records_text(seq![svg_open_tag(v)]) + "</svg>"@,
{
    reveal_strlit("mm\" xmlns=\"http://www.w3.org/2000/svg\" preserveAspectRatio=\"xMidYMid\"");
    reveal_strlit("mm\" xmlns=\"http://www.w3.org/2000/svg\" preserveAspectRatio=\"xMidYMid\">");
    reveal_strlit(">\n</svg>");
    reveal_strlit("</svg>");
    reveal_strlit("\n");
    let t = svg_open_tag(v);
    lemma_records_text_small(t, t, t, t);
    assert(viewport_text(v) =~= records_text(seq![t]) + "</svg>"@);
}

/// The hole mask opens with a white rectangle over the whole view box, in the order
/// `x`, `y`, `width`, `height`.
pub proof fn lemma_mask_open(m: MaskRect)
    ensures
        mask_open(m) == "  <mask id=\"maskHoles\" mask-type=\"luminance\">  <rect x=\""@ + m.x@
            + "\" y=\""@ + m.y@ + "\" width=\""@ + m.width@ + "\" height=\""@ + m.height@
            + "\" fill=\"white\" />"@,
{
    reveal_strlit("  <mask id=\"maskHoles\" mask-type=\"luminance\">");
    reveal_strlit("  <rect x=\"");
    reveal_strlit("  <mask id=\"maskHoles\" mask-type=\"luminance\">  <rect x=\"");
    assert(mask_open(m) =~= "  <mask id=\"maskHoles\" mask-type=\"luminance\">  <rect x=\""@ + m.x@
        + "\" y=\""@ + m.y@ + "\" width=\""@ + m.width@ + "\" height=\""@ + m.height@
        + "\" fill=\"white\" />"@);
}

} // verus!
