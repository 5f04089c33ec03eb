use outline::{classify, parse_header, parse_lines, strip_indent, LineKind, Node};

fn render(nodes: &[Node], depth: usize, out: &mut Vec<String>) {
    for n in nodes {
        match n {
            Node::Text(t) => out.push(format!("{}{}", " ".repeat(depth), t)),
            Node::EmptyLine => out.push(String::new()),
            Node::Section(s) => {
                let mut h = format!("{}|{}", " ".repeat(depth), s.name);
                if let Some(l) = &s.label {
                    h.push(' ');
                    h.push_str(l);
                }
                out.push(h);
                render(&s.children, depth + 1, out);
            }
        }
    }
}

#[test]
fn classify_reads_indent_and_kind() {
    assert_eq!(classify(""), (LineKind::Blank, 0));
    assert_eq!(classify(" \t "), (LineKind::Blank, 3));
    assert_eq!(classify("  |sec"), (LineKind::Marker, 2));
    assert_eq!(classify("\tword"), (LineKind::Text, 1));
    assert_eq!(classify("a |b"), (LineKind::Text, 0));
}

#[test]
fn header_name_and_label() {
    assert_eq!(parse_header("  |name", 2), Some(("name".to_string(), None)));
    assert_eq!(
        parse_header("|n\t\t the label ", 0),
        Some(("n".to_string(), Some("the label ".to_string())))
    );
    assert_eq!(parse_header("|", 0), None);
    assert_eq!(parse_header(" | name", 1), None);
}

#[test]
fn strip_indent_keeps_the_rest() {
    assert_eq!(strip_indent("   é x ", 3), "é x ");
    assert_eq!(strip_indent("abc", 0), "abc");
}

#[test]
fn rendered_lines_keep_their_kinds() {
    let lines: Vec<String> = [
        "",
        "   top",
        "|a  first label",
        "      x",
        "  \t",
        "    |b",
        "       y",
        "\tz",
        "end",
    ]
    .iter()
    .map(|s| s.to_string())
    .collect();
    let nodes = parse_lines(lines.clone()).unwrap();
    let mut out = Vec::new();
    render(&nodes, 0, &mut out);
    assert_eq!(out.len(), lines.len());
    for (a, b) in out.iter().zip(lines.iter()) {
        assert_eq!(classify(a).0, classify(b).0);
    }
    assert_eq!(parse_lines(out).unwrap(), nodes);
}
