use developable::obj::{to_obj, to_obj_with, Coords, ObjConfig, PipeSample, SurfaceFrame};

fn c(x: &str, y: &str, z: &str) -> Coords {
    Coords { x: x.to_string(), y: y.to_string(), z: z.to_string() }
}

fn frame(k: u32) -> SurfaceFrame {
    let b = format!("{k}.0000");
    SurfaceFrame {
        base: c(&b, "0.0000", "0.0000"),
        ruling_tip: c(&b, "1.0000", "0.0000"),
        tangent_tip: c(&b, "0.0000", "2.0000"),
        normal_tip: c(&b, "-3.0000", "0.0000"),
        normal: c("0.0000", "0.0000", "1.0000"),
    }
}

#[test]
fn surface_with_frame_and_comment() {
    let cfg = ObjConfig { comment: Some("first\r\nsecond\n".to_string()), write_frame: true };
    let out = cfg.surface(&[frame(0), frame(1)]).unwrap();
    let expected = "\
# first
# second
v 0.0000 0.0000 0.0000
v 0.0000 1.0000 0.0000
v 0.0000 0.0000 2.0000
v 0.0000 -3.0000 0.0000
v 1.0000 0.0000 0.0000
v 1.0000 1.0000 0.0000
v 1.0000 0.0000 2.0000
v 1.0000 -3.0000 0.0000
vn 0.0000 0.0000 1.0000
vn 0.0000 0.0000 1.0000
f 2//1 1//1 5//2 6//2
l 1 3
l 1 4
l 5 7
l 5 8
";
    assert_eq!(out.contents, expected);
}

#[test]
fn surface_without_frame() {
    let cfg = ObjConfig { comment: None, write_frame: false };
    let out = cfg.surface(&[frame(0), frame(1), frame(2)]).unwrap();
    let expected = "\
v 0.0000 0.0000 0.0000
v 0.0000 1.0000 0.0000
v 1.0000 0.0000 0.0000
v 1.0000 1.0000 0.0000
v 2.0000 0.0000 0.0000
v 2.0000 1.0000 0.0000
vn 0.0000 0.0000 1.0000
vn 0.0000 0.0000 1.0000
vn 0.0000 0.0000 1.0000
f 2//1 1//1 3//2 4//2
f 4//2 3//2 5//3 6//3
";
    assert_eq!(out.contents, expected);
}

#[test]
fn surface_single_frame_has_no_faces() {
    let cfg = ObjConfig { comment: None, write_frame: false };
    let out = cfg.surface(&[frame(0)]).unwrap();
    assert_eq!(out.contents, "v 0.0000 0.0000 0.0000\nv 0.0000 1.0000 0.0000\nvn 0.0000 0.0000 1.0000\n");
}

#[test]
fn default_config_writes_frames() {
    let d = ObjConfig::default();
    assert!(d.comment.is_none());
    assert!(d.write_frame);
    let a = to_obj(&[frame(0), frame(1)]).unwrap();
    let b = ObjConfig { comment: None, write_frame: true }.surface(&[frame(0), frame(1)]).unwrap();
    assert_eq!(a.contents, b.contents);
    let c = to_obj_with(&[frame(0), frame(1)], ObjConfig { comment: Some("x".to_string()), write_frame: false }).unwrap();
    assert!(c.contents.starts_with("# x\nv 0.0000 0.0000 0.0000\n"));
}

#[test]
fn comment_keeps_inner_empty_lines_and_lone_carriage_return() {
    let cfg = ObjConfig { comment: Some("a\n\nb\r".to_string()), write_frame: false };
    let out = cfg.surface(&[frame(0)]).unwrap();
    assert!(out.contents.starts_with("# a\n# \n# b\r\nv "));
}

fn sample(k: u32) -> PipeSample {
    let t = format!("{k}");
    PipeSample {
        base: c(&t, "0", "0"),
        base1: c(&t, "1", "0"),
        base2: c(&t, "0", "1"),
        forward_normal: c("1", "0", "0"),
        opposing_normal: c("0", "-1", "-1"),
        normal1: c("0", "0", "-1"),
        normal2: c("0", "-1", "0"),
    }
}

#[test]
fn pipe_two_sections() {
    let cfg = ObjConfig { comment: None, write_frame: true };
    let out = cfg.pipe(&[sample(0), sample(1)]).unwrap();
    let expected = "\
v 0 0 0
v 0 1 0
v 0 0 1
v 1 0 0
v 1 1 0
v 1 0 1
vn 1 0 0
vn 0 -1 -1
vn 0 0 -1
vn 0 -1 0
vn 1 0 0
vn 0 -1 -1
vn 0 0 -1
vn 0 -1 0
f 1//1 2//1 3//1
f 4//5 5//5 6//5
f 1//3 4//7 5//7 2//3
f 2//2 5//6 6//6 3//2
f 3//4 6//8 4//8 1//4
";
    assert_eq!(out.contents, expected);
}

#[test]
fn pipe_without_sections_is_only_the_comment() {
    let cfg = ObjConfig { comment: Some("only".to_string()), write_frame: false };
    let out = cfg.pipe(&[]).unwrap();
    assert_eq!(out.contents, "# only\n");
}

#[test]
fn pipe_indices_grow_past_one_digit() {
    let cfg = ObjConfig { comment: None, write_frame: false };
    let samples: Vec<PipeSample> = (0..4).map(sample).collect();
    let out = cfg.pipe(&samples).unwrap();
    assert!(out.contents.contains("f 10//13 11//13 12//13\n"));
    assert!(out.contents.contains("f 9//12 12//16 10//16 7//12\n"));
}

#[test]
fn file_data_bytes() {
    let cfg = ObjConfig { comment: None, write_frame: false };
    let out = cfg.surface(&[frame(0)]).unwrap();
    let bytes: &[u8] = &out;
    assert_eq!(bytes, out.contents.as_bytes());
    assert_eq!(AsRef::<[u8]>::as_ref(&out), out.contents.as_bytes());
}
