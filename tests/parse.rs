use outline::{parse_lines, parse_scope, LineCursor, Node, ParseError, Section};

fn parse_string(s: &str) -> Result<Vec<Node>, ParseError> {
    parse_lines(s.lines().map(String::from).collect())
}

fn text(s: &str) -> Node {
    Node::Text(s.into())
}

fn section(name: &str, label: Option<&str>, children: Vec<Node>) -> Node {
    Node::Section(Section {
        name: name.into(),
        label: label.map(String::from),
        children,
    })
}

fn cursor(lines: &[&str]) -> LineCursor {
    let v: Vec<String> = lines.iter().map(|s| s.to_string()).collect();
    itertools::put_back(v)
}

#[test]
fn parse_empty() {
    let s = "";
    assert_eq!(parse_string(s), Ok(vec![]));
}

#[test]
fn parse_single_text() {
    let s = "hello world";
    assert_eq!(parse_string(s), Ok(vec![Node::Text("hello world".into())]));
}

#[test]
fn parse_multiline_text() {
    let s = r#"hello world
this is a test
"#;
    assert_eq!(
        parse_string(s),
        Ok(vec![
            Node::Text("hello world".into()),
            Node::Text("this is a test".into())
        ])
    );
}

#[test]
fn parse_multiline_text_with_blank() {
    let s = r#"hello world

this is a test
"#;
    assert_eq!(
        parse_string(s),
        Ok(vec![
            Node::Text("hello world".into()),
            Node::EmptyLine,
            Node::Text("this is a test".into())
        ])
    );
}

#[test]
fn parse_multiline_text_with_jagged_start() {
    let s = r#"hello world
   this is a test
"#;
    assert_eq!(
        parse_string(s),
        Ok(vec![
            Node::Text("hello world".into()),
            Node::Text("this is a test".into())
        ])
    );
}

#[test]
fn blank_lines_carry_no_content() {
    assert_eq!(
        parse_string("a\n \t  \nb"),
        Ok(vec![text("a"), Node::EmptyLine, text("b")])
    );
}

#[test]
fn tabs_and_spaces_count_alike() {
    assert_eq!(parse_string("\t x  y"), Ok(vec![text("x  y")]));
}

#[test]
fn section_with_children() {
    let s = "|intro\n  first\n\n  second\nafter";
    assert_eq!(
        parse_string(s),
        Ok(vec![
            section("intro", None, vec![text("first"), Node::EmptyLine, text("second")]),
            text("after"),
        ])
    );
}

#[test]
fn section_with_label() {
    let s = "|intro \t Getting started  \n body";
    assert_eq!(
        parse_string(s),
        Ok(vec![section("intro", Some("Getting started  "), vec![text("body")])])
    );
}

#[test]
fn section_trailing_whitespace_is_no_label() {
    assert_eq!(parse_string("|intro   "), Ok(vec![section("intro", None, vec![])]));
}

#[test]
fn nested_sections_end_on_dedent() {
    let s = "|a\n  |b\n    deep\n  mid\ntop";
    assert_eq!(
        parse_string(s),
        Ok(vec![
            section("a", None, vec![section("b", None, vec![text("deep")]), text("mid")]),
            text("top"),
        ])
    );
}

#[test]
fn indented_section_under_text() {
    let s = "x\n  |s\n    y\n  z";
    assert_eq!(
        parse_string(s),
        Ok(vec![text("x"), section("s", None, vec![text("y")]), text("z")])
    );
}

#[test]
fn marker_without_name_is_an_error() {
    assert_eq!(
        parse_string("a\n|\n  b"),
        Err(ParseError::MissingSectionName { line: 2 })
    );
    assert_eq!(
        parse_string("|s\n  | x"),
        Err(ParseError::MissingSectionName { line: 2 })
    );
}

#[test]
fn scope_leaves_dedent_line_in_cursor() {
    let mut c = cursor(&["  a", "", "  b", " c", "d"]);
    let r = parse_scope(Some(1), &mut c);
    assert_eq!(r, Ok(vec![text("a"), Node::EmptyLine, text("b")]));
    assert_eq!(c.next(), Some(" c".to_string()));
    assert_eq!(c.next(), Some("d".to_string()));
    assert_eq!(c.next(), None);
}

#[test]
fn top_level_scope_consumes_every_line() {
    let mut c = cursor(&["  a", "|s", " b", "c", ""]);
    let r = parse_scope(None, &mut c);
    assert_eq!(
        r,
        Ok(vec![text("a"), section("s", None, vec![text("b")]), text("c"), Node::EmptyLine])
    );
    assert_eq!(c.next(), None);
}

#[test]
fn section_children_match_isolated_parse() {
    let whole = parse_string("|s\n  x\n\n   |t\n     y\nz").unwrap();
    let alone = parse_scope(Some(0), &mut cursor(&["  x", "", "   |t", "     y"])).unwrap();
    match &whole[0] {
        Node::Section(s) => assert_eq!(s.children, alone),
        _ => panic!("expected a section"),
    }
}

#[test]
fn scope_error_line_counts_from_cursor() {
    let mut c = cursor(&["  a", "  |"]);
    assert_eq!(
        parse_scope(Some(0), &mut c),
        Err(ParseError::MissingSectionName { line: 2 })
    );
}
