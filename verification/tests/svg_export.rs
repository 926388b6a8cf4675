use developable::svg::{
    to_svg, FaceSample, FaceSheet, FlatSample, MaskRect, Point2, SvgConfig, Viewport,
};

fn p(x: &str, y: &str) -> Point2 {
    Point2 { x: x.to_string(), y: y.to_string() }
}

fn viewport() -> Viewport {
    Viewport {
        x: "-400.0000".to_string(),
        y: "-800.0000".to_string(),
        width: "1200.0000".to_string(),
        height: "800.0000".to_string(),
        width_mm: "30".to_string(),
        height_mm: "20".to_string(),
    }
}

const HEAD: &str = "<svg version=\"1.1\" viewBox=\"-400.0000 -800.0000 1200.0000 800.0000\" width=\"30mm\" height=\"20mm\" xmlns=\"http://www.w3.org/2000/svg\" preserveAspectRatio=\"xMidYMid\">\n";

#[test]
fn start_svg_is_an_empty_drawing() {
    assert_eq!(viewport().start_svg(), format!("{HEAD}</svg>"));
}

#[test]
fn flattened_surface_drawing() {
    let curve = [
        FlatSample { position: p("0.0000", "-0.0000"), tick_origin: p("0", "-0"), tick_direction: p("0", "1") },
        FlatSample { position: p("400.0000", "-0.0000"), tick_origin: p("400", "-0"), tick_direction: p("0", "-400") },
        FlatSample { position: p("800.0000", "-10.5000"), tick_origin: p("800", "-10.5"), tick_direction: p("1.5", "-2") },
    ];
    let out = to_svg(&viewport(), &curve).unwrap();
    let expected = format!(
        "{HEAD}  <g>\n  <path d=\"M 0.0000 -0.0000 L 400.0000 -0.0000 L 800.0000 -10.5000 \" stroke=\"black\" fill-opacity=\"0.0\" />\n  <path d=\"M 400 -0 l 0 -400\" stroke=\"black\" fill=\"transparent\" />\n  <path d=\"M 800 -10.5 l 1.5 -2\" stroke=\"black\" fill=\"transparent\" />\n</g>\n</svg>"
    );
    assert_eq!(out.contents, expected);
}

#[test]
fn empty_curve_draws_an_empty_group() {
    let out = to_svg(&viewport(), &[]).unwrap();
    assert_eq!(out.contents, format!("{HEAD}  <g>\n</g>\n</svg>"));
}

fn face(n: usize) -> FaceSheet {
    let samples = (0..n)
        .map(|i| FaceSample {
            left: p(&format!("{i}"), "0"),
            right: p(&format!("{i}"), "-5"),
            hole_left: p(&format!("{i}.5"), "-1"),
            hole_right: p(&format!("{i}.5"), "-4"),
        })
        .collect();
    FaceSheet {
        viewport: viewport(),
        mask: MaskRect {
            x: "-400".to_string(),
            y: "-800".to_string(),
            width: "1200".to_string(),
            height: "800".to_string(),
        },
        hole_radius: "0.25".to_string(),
        samples,
    }
}

#[test]
fn pipe_faces_with_cross_bars() {
    let cfg = SvgConfig { disable_cross_bars: false, mount_holes: false };
    let faces = [face(3), face(2), face(1)];
    let out = cfg.pipe(&faces).unwrap();
    let first = format!(
        "{HEAD}  <path d=\"M 0 0 L 1 0 L 2 0 L 2 -5 L 1 -5 L 0 -5 Z\" fill=\"black\" />\n  <path d=\"M 1 0 L 1 -5 \" stroke=\"black\" fill-opacity=\"0.0\" />\n</svg>"
    );
    assert_eq!(out[0].contents, first);
    let second = format!("{HEAD}  <path d=\"M 0 0 L 1 0 L 1 -5 L 0 -5 Z\" fill=\"black\" />\n</svg>");
    assert_eq!(out[1].contents, second);
    let third = format!("{HEAD}  <path d=\"M 0 0 L 0 -5 Z\" fill=\"black\" />\n</svg>");
    assert_eq!(out[2].contents, third);
}

#[test]
fn pipe_faces_without_cross_bars() {
    let cfg = SvgConfig { disable_cross_bars: true, mount_holes: false };
    let faces = [face(3), face(0), face(4)];
    let out = cfg.pipe(&faces).unwrap();
    assert_eq!(
        out[0].contents,
        format!("{HEAD}  <path d=\"M 0 0 L 1 0 L 2 0 L 2 -5 L 1 -5 L 0 -5 Z\" fill=\"black\" />\n</svg>")
    );
    assert_eq!(out[1].contents, format!("{HEAD}</svg>"));
    assert!(!out[2].contents.contains("fill-opacity"));
}

#[test]
fn mount_holes_mask_the_face_and_drop_cross_bars() {
    let cfg = SvgConfig { disable_cross_bars: false, mount_holes: true };
    let faces = [face(3), face(2), face(2)];
    let out = cfg.pipe(&faces).unwrap();
    let first = format!(
        "{HEAD}  <mask id=\"maskHoles\" mask-type=\"luminance\">  <rect x=\"-400\" y=\"-800\" width=\"1200\" height=\"800\" fill=\"white\" />  <circle cx=\"1.5\" cy=\"-1\" r=\"0.25\" fill=\"black\" />  <circle cx=\"1.5\" cy=\"-4\" r=\"0.25\" fill=\"black\" />  </mask>  <g mask=\"url(#maskHoles)\">  <path d=\"M 0 0 L 1 0 L 2 0 L 2 -5 L 1 -5 L 0 -5 Z\" fill=\"black\" />\n  </g></svg>"
    );
    assert_eq!(out[0].contents, first);
    assert!(!out[1].contents.contains("<circle"));
    assert!(out[1].contents.contains("<mask"));
}
