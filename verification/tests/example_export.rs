use developable::example::{to_obj, to_svg, SurfaceSample, ViewBox};
use developable::obj::Coords;
use developable::svg::{FlatSample, Point2};

fn c(x: &str, y: &str, z: &str) -> Coords {
    Coords { x: x.to_string(), y: y.to_string(), z: z.to_string() }
}

fn sample(k: &str) -> SurfaceSample {
    SurfaceSample {
        base: c(k, "0.0000", "0.0000"),
        tangent_tip: c(k, "0.5000", "0.0000"),
        normal_tip: c(k, "0.0000", "0.5000"),
        horizontal_tip: c(k, "-1.0000", "0.0000"),
        normal: c("0.0000", "0.0000", "1.0000"),
    }
}

#[test]
fn example_mesh() {
    let out = to_obj(&[sample("1.0000"), sample("2.0000")]).unwrap();
    let expected = "\
v 1.0000 0.0000 0.0000
v 1.0000 0.5000 0.0000
v 1.0000 0.0000 0.5000
v 1.0000 -1.0000 0.0000
v 2.0000 0.0000 0.0000
v 2.0000 0.5000 0.0000
v 2.0000 0.0000 0.5000
v 2.0000 -1.0000 0.0000
vn 0.0000 0.0000 1.0000
vn 0.0000 0.0000 1.0000
f 4//1 1//1 5//2 8//2
l 1 2
l 1 3
l 5 6
l 5 7
";
    assert_eq!(out, expected);
}

fn p(x: &str, y: &str) -> Point2 {
    Point2 { x: x.to_string(), y: y.to_string() }
}

#[test]
fn example_drawing_keeps_the_escaped_line_break() {
    let view_box = ViewBox {
        x: "-80.0000".to_string(),
        y: "-80.0000".to_string(),
        width: "200.0000".to_string(),
        height: "200.0000".to_string(),
    };
    let curve = [
        FlatSample { position: p("0.0000", "0.0000"), tick_origin: p("0", "0"), tick_direction: p("-0", "40") },
        FlatSample { position: p("40.0000", "0.0000"), tick_origin: p("40", "0"), tick_direction: p("-0", "40") },
    ];
    let out = to_svg(&view_box, &curve).unwrap();
    let expected = "<svg version=\"1.1\" viewBox=\"-80.0000 -80.0000 200.0000 200.0000\" xmlns=\"http://www.w3.org/2000/svg\" transform=\"scale(1,-1)\" >\\  <g>\n  <path d=\"M 0.0000 0.0000 L 40.0000 0.0000 \" stroke=\"black\" fill=\"transparent\" />\n  <path d=\"M 40 0 l -0 40\" stroke=\"black\" fill=\"transparent\" />\n</g>\nn</svg>";
    assert_eq!(out, expected);
}

#[test]
fn example_drawing_of_empty_curve() {
    let view_box = ViewBox { x: "0".to_string(), y: "0".to_string(), width: "5".to_string(), height: "5".to_string() };
    let out = to_svg(&view_box, &[]).unwrap();
    assert!(out.contains(">\\  <g>\n  <path d=\"\" stroke=\"black\" fill=\"transparent\" />\n</g>\nn</svg>"));
}
