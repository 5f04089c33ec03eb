//! Properties of reading scopes that relate several positions or calls.
use vstd::prelude::*;
use crate::line::{header_of, indent_of, kind_of, lemma_run_end_bounds, LineKind};
use crate::node::NodeModel;
use crate::parser::{lemma_scope_end, scope};

verus! {

/// At the top level no line ends the scope, so reading from any position goes
/// on to the end of the lines: every line is consumed.
pub proof fn lemma_top_level_consumes_all(lines: Seq<Seq<char>>, pos: int)
    requires
        0 <= pos <= lines.len(),
        scope(lines, -1, pos) is Ok,
    ensures
        scope(lines, -1, pos)->Ok_0.1 == lines.len(),
    decreases lines.len() - pos,
{
    if pos < lines.len() {
        let line = lines[pos];
        let ind = indent_of(line);
        lemma_run_end_bounds(line, 0, true);
        if kind_of(line) == LineKind::Marker {
            lemma_scope_end(lines, ind, pos + 1);
            let inner = scope(lines, ind, pos + 1)->Ok_0;
            lemma_top_level_consumes_all(lines, inner.1);
        } else {
            lemma_top_level_consumes_all(lines, pos + 1);
        }
    }
}

/// A scope that stops before the end stops at a non-blank line indented no
/// deeper than its level, and leaves that line unread.
pub proof fn lemma_scope_stops_at_dedent(lines: Seq<Seq<char>>, level: int, pos: int)
    requires
        0 <= pos <= lines.len(),
        scope(lines, level, pos) is Ok,
        scope(lines, level, pos)->Ok_0.1 < lines.len(),
    ensures
        ({
            let end = scope(lines, level, pos)->Ok_0.1;
            kind_of(lines[end]) != LineKind::Blank && indent_of(lines[end]) <= level
        }),
    decreases lines.len() - pos,
{
    let line = lines[pos];
    let ind = indent_of(line);
    if kind_of(line) != LineKind::Blank && ind <= level {
    } else if kind_of(line) == LineKind::Marker {
        lemma_scope_end(lines, ind, pos + 1);
        let inner = scope(lines, ind, pos + 1)->Ok_0;
        lemma_scope_stops_at_dedent(lines, level, inner.1);
    } else {
        lemma_scope_stops_at_dedent(lines, level, pos + 1);
    }
}

/// A non-blank line indented no deeper than the level ends the scope at once.
pub proof fn lemma_dedent_line_ends_scope(lines: Seq<Seq<char>>, level: int, pos: int)
    requires
        0 <= pos < lines.len(),
        kind_of(lines[pos]) != LineKind::Blank,
        indent_of(lines[pos]) <= level,
    ensures
        scope(lines, level, pos) == Ok::<(Seq<NodeModel>, int), int>((Seq::empty(), pos)),
{
}

/// Reading a scope only looks at the lines it consumes: the same scope read from a
/// window of the lines that holds them gives the same nodes.
pub proof fn lemma_scope_window(lines: Seq<Seq<char>>, level: int, pos: int, lo: int, hi: int)
    requires
        0 <= lo <= pos <= hi <= lines.len(),
        scope(lines, level, pos) is Ok,
        scope(lines, level, pos)->Ok_0.1 <= hi,
    ensures
        ({
            let q = scope(lines, level, pos)->Ok_0;
            scope(lines.subrange(lo, hi), level, pos - lo) == Ok::<(Seq<NodeModel>, int), int>(
                (q.0, q.1 - lo),
            )
        }),
    decreases lines.len() - pos,
{
    let sub = lines.subrange(lo, hi);
    if pos < lines.len() {
        let line = lines[pos];
        let ind = indent_of(line);
        if kind_of(line) != LineKind::Blank && ind <= level {
            if pos < hi {
                assert(sub[pos - lo] == line);
            }
        } else if kind_of(line) == LineKind::Marker {
            lemma_scope_end(lines, ind, pos + 1);
            let inner = scope(lines, ind, pos + 1)->Ok_0;
            lemma_scope_end(lines, level, inner.1);
            assert(sub[pos - lo] == line);
            lemma_scope_window(lines, ind, pos + 1, lo, hi);
            lemma_scope_window(lines, level, inner.1, lo, hi);
        } else {
            lemma_scope_end(lines, level, pos + 1);
            assert(sub[pos - lo] == line);
            lemma_scope_window(lines, level, pos + 1, lo, hi);
        }
    }
}

/// A marker line opens a section whose children are exactly what reading the
/// lines below it, up to the end of its scope, gives on their own.
pub proof fn lemma_section_children_in_isolation(lines: Seq<Seq<char>>, level: int, pos: int)
    requires
        0 <= pos < lines.len(),
        kind_of(lines[pos]) == LineKind::Marker,
        indent_of(lines[pos]) > level,
        scope(lines, level, pos) is Ok,
    ensures
        ({
            let ind = indent_of(lines[pos]);
            let h = header_of(lines[pos])->0;
            let inner = scope(lines, ind, pos + 1);
            &&& header_of(lines[pos]) is Some
            &&& inner is Ok
            &&& scope(lines, level, pos)->Ok_0.0[0] == NodeModel::Section {
                name: h.0,
                label: h.1,
                children: inner->Ok_0.0,
            }
            &&& scope(lines.subrange(pos + 1, inner->Ok_0.1), ind, 0) == Ok::<
                (Seq<NodeModel>, int),
                int,
            >((inner->Ok_0.0, inner->Ok_0.1 - (pos + 1)))
        }),
{
    let ind = indent_of(lines[pos]);
    lemma_scope_end(lines, ind, pos + 1);
    let inner = scope(lines, ind, pos + 1)->Ok_0;
    lemma_scope_window(lines, ind, pos + 1, pos + 1, inner.1);
}

} // verus!
