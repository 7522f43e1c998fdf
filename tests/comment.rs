use docstrings::CommentStyle;

#[test]
fn pub_funcs() {
    let start: &str = "##/";
    let normal: &str = "# ";
    let end: &str = "/##";
    let cs = CommentStyle::new(start, normal, end);
    assert_eq!(cs.start(), start);
    assert_eq!(cs.normal(), normal);
    assert_eq!(cs.end(), end);
}
