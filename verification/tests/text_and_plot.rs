use developable::plot::{development, node_kind, Args, Development, NodeKind, Stream};
use developable::text::{chars_of, push_decimal, split_after_tag, split_lines};

fn lines_of(s: &str) -> Vec<String> {
    split_lines(s).into_iter().map(|l| l.into_iter().collect()).collect()
}

#[test]
fn lines_match_std() {
    for s in ["", "\n", "a", "a\n", "a\r\nb", "a\n\nb\n", "a\r", "\r\n\r\n", "x\ny\rz\n"] {
        let expected: Vec<String> = s.lines().map(|l| l.to_string()).collect();
        assert_eq!(lines_of(s), expected, "{s:?}");
    }
}

#[test]
fn final_line_feed_adds_no_line() {
    assert_eq!(lines_of("one\ntwo"), lines_of("one\ntwo\n"));
}

#[test]
fn decimals() {
    for n in [0usize, 7, 10, 99, 100, 12345, usize::MAX] {
        let mut s = String::from("#");
        push_decimal(&mut s, n);
        assert_eq!(s, format!("#{n}"));
    }
}

#[test]
fn chars_and_split() {
    assert_eq!(chars_of("añb"), vec!['a', 'ñ', 'b']);
    let (head, tail) = split_after_tag(&"<a x>\n</a>".to_string());
    assert_eq!(head, "<a x>\n");
    assert_eq!(tail, "</a>");
    let (head, tail) = split_after_tag(&"<a>b".to_string());
    assert_eq!(head, "<a>b");
    assert_eq!(tail, "");
}

#[test]
fn streams() {
    let args = Args { parameterization: None, output: Some("-".to_string()) };
    assert!(matches!(args.input(), Stream::Standard));
    assert!(matches!(args.output(), Stream::Standard));
    let args = Args { parameterization: Some("in.json".to_string()), output: Some("--".to_string()) };
    assert!(matches!(args.input(), Stream::Path(p) if p == "in.json"));
    assert!(matches!(args.output(), Stream::Path(p) if p == "--"));
}

#[test]
fn nodes_name_exactly_one_kind() {
    assert!(matches!(node_kind(true, false), Ok(NodeKind::Spiral)));
    assert!(matches!(node_kind(false, true), Ok(NodeKind::Hermite)));
    let e = node_kind(true, true).err().unwrap();
    assert_eq!(e.message(), "Node must be one of `spiral`, `hermite`");
    assert!(node_kind(false, false).is_err());
}

#[test]
fn development_choice() {
    assert!(matches!(development(true, true), Some(Development::Surface)));
    assert!(matches!(development(true, false), Some(Development::Surface)));
    assert!(matches!(development(false, true), Some(Development::Pipe)));
    assert!(development(false, false).is_none());
}
