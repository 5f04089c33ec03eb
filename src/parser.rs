use vstd::prelude::*;
use crate::cursor::{cursor_items, lines_view, new_cursor, next_line, put_back_line, LineCursor};
use crate::line::{classify, header_of, indent_of, kind_of, parse_header, strip_indent, LineKind};
use crate::laws::lemma_top_level_consumes_all;
use crate::node::{lemma_nodes_view_push, node_view, nodes_view, Node, NodeModel, Section};

verus! {

/// Why a document could not be parsed.
#[derive(Debug, Clone, Copy, PartialEq, Eq, Structural)]
pub enum ParseError {
    /// The marker on this line (counted from 1) is not followed by a name.
    MissingSectionName { line: usize },
}

/// What reading one scope gives: its nodes and the index of the first line
/// left unread, or the index of the line where it failed.
pub type ScopeResult = Result<(Seq<NodeModel>, int), int>;

/// The indentation level of an enclosing construct; `None` stands below every
/// real indentation.
pub open spec fn level_of(p: Option<usize>) -> int {
    match p {
        Some(l) => l as int,
        None => -1,
    }
}

pub open spec fn prepend(ms: Seq<NodeModel>, r: ScopeResult) -> ScopeResult {
    match r {
        Ok(p) => Ok((ms + p.0, p.1)),
        Err(k) => Err(k),
    }
}

/// Reads the scope whose enclosing level is `level` from line `pos` of `lines` on.
/// It stops at the end of the lines, or before a non-blank line indented no
/// deeper than `level`. A blank line gives an empty-line node, a text line its
/// content without indentation, and a marker line a section whose children are
/// the scope read at the marker line's indentation.
pub open spec fn scope(lines: Seq<Seq<char>>, level: int, pos: int) -> ScopeResult
    decreases lines.len() - pos,
{
    if pos < 0 || pos >= lines.len() {
        Ok((Seq::empty(), pos))
    } else {
        let line = lines[pos];
        let ind = indent_of(line);
        let kind = kind_of(line);
        if kind != LineKind::Blank && ind <= level {
            Ok((Seq::empty(), pos))
        } else if kind == LineKind::Blank {
            prepend(seq![NodeModel::EmptyLine], scope(lines, level, pos + 1))
        } else if kind == LineKind::Text {
            prepend(
                seq![NodeModel::Text { content: line.subrange(ind, line.len() as int) }],
                scope(lines, level, pos + 1),
            )
        } else {
            match header_of(line) {
                None => Err(pos),
                Some(h) => match scope(lines, ind, pos + 1) {
                    Err(k) => Err(k),
                    Ok(inner) => {
                        let next = if pos < inner.1 <= lines.len() {
                            inner.1
                        } else {
                            pos + 1
                        };
                        prepend(
                            seq![NodeModel::Section { name: h.0, label: h.1, children: inner.0 }],
                            scope(lines, level, next),
                        )
                    },
                },
            }
        }
    }
}

/// A scope read from `pos` ends between `pos` and the end of the lines.
pub proof fn lemma_scope_end(lines: Seq<Seq<char>>, level: int, pos: int)
    requires
        0 <= pos <= lines.len(),
    ensures
        scope(lines, level, pos) is Ok ==> pos <= scope(lines, level, pos)->Ok_0.1 <= lines.len(),
    decreases lines.len() - pos,
{
    if pos < lines.len() {
        let line = lines[pos];
        let ind = indent_of(line);
        lemma_scope_end(lines, level, pos + 1);
        if kind_of(line) == LineKind::Marker {
            lemma_scope_end(lines, ind, pos + 1);
            if let Ok(inner) = scope(lines, ind, pos + 1) {
                lemma_scope_end(lines, level, inner.1);
            }
        }
    }
}

fn at_or_below(ind: usize, level: Option<usize>) -> (r: bool)
    ensures
        r == (ind <= level_of(level)),
{
    match level {
        Some(l) => ind <= l,
        None => false,
    }
}

fn parse_at(
    level: Option<usize>,
    start: usize,
    lines: &mut LineCursor,
    Ghost(all): Ghost<Seq<Seq<char>>>,
) -> (r: Result<(Vec<Node>, usize), ParseError>)
    requires
        start <= all.len() <= usize::MAX,
        cursor_items(*old(lines)) == all.skip(start as int),
    ensures
        match scope(all, level_of(level), start as int) {
            Ok(p) => match r {
                Ok(q) => nodes_view(q.0@, q.0@.len()) == p.0 && q.1 == p.1
                    && cursor_items(*final(lines)) == all.skip(p.1),
                Err(_) => false,
            },
            Err(k) => r matches Err(ParseError::MissingSectionName { line }) && line == k + 1,
        },
    decreases all.len() - start,
{
    let ghost lvl = level_of(level);
    let mut out: Vec<Node> = Vec::new();
    let mut pos: usize = start;
    loop
        invariant
            lvl == level_of(level),
            start <= pos <= all.len() <= usize::MAX,
            cursor_items(*lines) == all.skip(pos as int),
            scope(all, lvl, start as int) == prepend(
                nodes_view(out@, out@.len()),
                scope(all, lvl, pos as int),
            ),
        decreases all.len() - pos,
    {
        let ghost before = out@;
        let next = next_line(lines);
        let line = match next {
            None => {
                assert(nodes_view(out@, out@.len()) + Seq::empty() =~= nodes_view(out@, out@.len()));
                assert(cursor_items(*lines) =~= all.skip(pos as int));
                return Ok((out, pos));
            },
            Some(line) => line,
        };
        assert(all.skip(pos as int).drop_first() =~= all.skip(pos + 1));
        let (kind, ind) = classify(line.as_str());
        if !matches!(kind, LineKind::Blank) && at_or_below(ind, level) {
            put_back_line(lines, line);
            assert(nodes_view(out@, out@.len()) + Seq::empty() =~= nodes_view(out@, out@.len()));
            return Ok((out, pos));
        }
        let ghost tail = scope(all, lvl, pos as int);
        match kind {
            LineKind::Blank => {
                out.push(Node::EmptyLine);
                pos = pos + 1;
            },
            LineKind::Text => {
                let t = strip_indent(line.as_str(), ind);
                out.push(Node::Text(t));
                pos = pos + 1;
            },
            LineKind::Marker => {
                let header = parse_header(line.as_str(), ind);
                let (name, label) = match header {
                    None => {
                        return Err(ParseError::MissingSectionName { line: pos + 1 });
                    },
                    Some(h) => h,
                };
                proof {
                    lemma_scope_end(all, ind as int, pos + 1);
                }
                let (children, end) = match parse_at(Some(ind), pos + 1, lines, Ghost(all)) {
                    Err(e) => {
                        return Err(e);
                    },
                    Ok(c) => c,
                };
                out.push(Node::Section(Section { name, label, children }));
                pos = end;
            },
        }
        proof {
            lemma_nodes_view_push(before, out@.last());
            let m = node_view(out@.last());
            assert(tail == prepend(seq![m], scope(all, lvl, pos as int)));
            lemma_scope_end(all, lvl, pos as int);
            match scope(all, lvl, pos as int) {
                Ok(p) => {
                    assert(nodes_view(before, before.len()) + (seq![m] + p.0)
                        =~= nodes_view(before, before.len()).push(m) + p.0);
                },
                Err(_) => {},
            }
        }
    }
}

/// Reads one scope from the cursor: the nodes of every line until the cursor
/// runs out or holds a non-blank line indented no deeper than `parent_level`,
/// which is left in the cursor. Line numbers in errors count from the cursor's
/// first line.
pub fn parse_scope(parent_level: Option<usize>, lines: &mut LineCursor) -> (r: Result<
    Vec<Node>,
    ParseError,
>)
    requires
        cursor_items(*old(lines)).len() <= usize::MAX,
    ensures
        match scope(cursor_items(*old(lines)), level_of(parent_level), 0) {
            Ok(p) => match r {
                Ok(ns) => nodes_view(ns@, ns@.len()) == p.0 && cursor_items(*final(lines))
                    == cursor_items(*old(lines)).skip(p.1) && (parent_level is None ==> cursor_items(
                    *final(lines),
                ).len() == 0),
                Err(_) => false,
            },
            Err(k) => r matches Err(ParseError::MissingSectionName { line }) && line == k + 1,
        },
{
    let ghost all = cursor_items(*lines);
    assert(all.skip(0) =~= all);
    proof {
        if parent_level is None && scope(all, -1, 0) is Ok {
            lemma_top_level_consumes_all(all, 0);
        }
    }
    match parse_at(parent_level, 0, lines, Ghost(all)) {
        Ok((ns, _)) => Ok(ns),
        Err(e) => Err(e),
    }
}

/// Parses a whole document given as lines without their terminators.
pub fn parse_lines(lines: Vec<String>) -> (r: Result<Vec<Node>, ParseError>)
    ensures
        match scope(lines_view(lines@), -1, 0) {
            Ok(p) => match r {
                Ok(ns) => nodes_view(ns@, ns@.len()) == p.0,
                Err(_) => false,
            },
            Err(k) => r matches Err(ParseError::MissingSectionName { line }) && line == k + 1,
        },
{
    assert(lines_view(lines@).len() == lines@.len() && lines@.len() == lines.len());
    let mut cursor = new_cursor(lines);
    parse_scope(None, &mut cursor)
}

} // verus!
