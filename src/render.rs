//! Writing node models back out as lines, and what survives a round trip.
use vstd::prelude::*;
use crate::line::{indent_of, is_ws, kind_of, lemma_run_end_bounds, run_end, LineKind, MARKER};
use crate::node::NodeModel;
use crate::parser::{lemma_scope_end, scope};

verus! {

/// `d` spaces.
pub open spec fn spaces(d: nat) -> Seq<char> {
    Seq::new(d, |i: int| ' ')
}

/// The header line of a section nested `d` deep.
pub open spec fn header_line(name: Seq<char>, label: Option<Seq<char>>, d: nat) -> Seq<char> {
    spaces(d) + seq![MARKER] + name + match label {
        Some(l) => seq![' '] + l,
        None => Seq::empty(),
    }
}

/// The lines of one node indented `d` deep, its children one deeper.
pub open spec fn render_node(n: NodeModel, d: nat) -> Seq<Seq<char>>
    decreases n, 0nat,
{
    match n {
        NodeModel::Section { name, label, children } => seq![header_line(name, label, d)]
            + render_upto(children, d + 1, children.len()),
        NodeModel::Text { content } => seq![spaces(d) + content],
        NodeModel::EmptyLine => seq![Seq::empty()],
    }
}

/// The lines of the first `k` nodes of `ns`, each indented `d` deep.
pub open spec fn render_upto(ns: Seq<NodeModel>, d: nat, k: nat) -> Seq<Seq<char>>
    decreases ns, k,
{
    if k == 0 || k > ns.len() {
        Seq::empty()
    } else {
        render_upto(ns, d, (k - 1) as nat) + render_node(ns[k - 1], d)
    }
}

/// The lines of a sequence of nodes, each indented `d` deep.
pub open spec fn render(ns: Seq<NodeModel>, d: nat) -> Seq<Seq<char>> {
    render_upto(ns, d, ns.len())
}

/// How each of a sequence of lines is read.
pub open spec fn kinds(ls: Seq<Seq<char>>) -> Seq<LineKind> {
    ls.map_values(|l: Seq<char>| kind_of(l))
}

proof fn lemma_render_upto_prefix(a: Seq<NodeModel>, b: Seq<NodeModel>, d: nat, k: nat)
    requires
        k <= a.len(),
        k <= b.len(),
        forall|i: int| 0 <= i < k ==> a[i] == b[i],
    ensures
        render_upto(a, d, k) == render_upto(b, d, k),
    decreases k,
{
    if k > 0 {
        lemma_render_upto_prefix(a, b, d, (k - 1) as nat);
    }
}

proof fn lemma_render_cons_upto(x: NodeModel, rest: Seq<NodeModel>, d: nat, k: nat)
    requires
        k <= rest.len(),
    ensures
        render_upto(seq![x] + rest, d, k + 1) == render_node(x, d) + render_upto(rest, d, k),
    decreases k,
{
    let xs = seq![x] + rest;
    if k == 0 {
        assert(render_upto(xs, d, 0) == Seq::<Seq<char>>::empty());
        assert(render_upto(xs, d, 1) =~= render_node(x, d));
        assert(render_upto(rest, d, 0) == Seq::<Seq<char>>::empty());
        assert(render_node(x, d) + Seq::<Seq<char>>::empty() =~= render_node(x, d));
    } else {
        lemma_render_cons_upto(x, rest, d, (k - 1) as nat);
        assert(xs[k as int] == rest[k - 1]);
        assert(render_upto(xs, d, k + 1) =~= render_node(x, d) + render_upto(rest, d, k));
    }
}

/// The lines of a node followed by others are its lines followed by theirs.
pub proof fn lemma_render_cons(x: NodeModel, rest: Seq<NodeModel>, d: nat)
    ensures
        render(seq![x] + rest, d) == render_node(x, d) + render(rest, d),
{
    lemma_render_cons_upto(x, rest, d, rest.len());
    assert((seq![x] + rest).len() == rest.len() + 1);
}

proof fn lemma_indent_after_spaces(d: nat, c: Seq<char>, i: int)
    requires
        c.len() > 0,
        !is_ws(c[0]),
        0 <= i <= d,
    ensures
        run_end(spaces(d) + c, i, true) == d,
    decreases d - i,
{
    let s = spaces(d) + c;
    if i < d {
        assert(s[i] == ' ');
        lemma_indent_after_spaces(d, c, i + 1);
    } else {
        assert(s[i] == c[0]);
    }
}

/// Indenting a line whose first character is significant keeps how it is read.
pub proof fn lemma_kind_after_spaces(d: nat, c: Seq<char>)
    requires
        c.len() > 0,
        !is_ws(c[0]),
    ensures
        indent_of(spaces(d) + c) == d,
        kind_of(spaces(d) + c) == (if c[0] == MARKER {
            LineKind::Marker
        } else {
            LineKind::Text
        }),
{
    lemma_indent_after_spaces(d, c, 0);
    assert((spaces(d) + c)[d as int] == c[0]);
}

/// Writing out the nodes of a scope, each nested one step deeper than they were
/// read at, gives as many lines as the scope consumed, each read as the line it
/// came from was: blank, text or marker.
pub proof fn lemma_render_keeps_kinds(lines: Seq<Seq<char>>, level: int, pos: int, d: nat)
    requires
        0 <= pos <= lines.len(),
        scope(lines, level, pos) is Ok,
    ensures
        ({
            let q = scope(lines, level, pos)->Ok_0;
            kinds(render(q.0, d)) == kinds(lines.subrange(pos, q.1))
        }),
    decreases lines.len() - pos,
{
    let q = scope(lines, level, pos)->Ok_0;
    lemma_scope_end(lines, level, pos);
    if pos == lines.len() || (kind_of(lines[pos]) != LineKind::Blank && indent_of(lines[pos])
        <= level) {
        assert(kinds(render(q.0, d)) =~= kinds(lines.subrange(pos, q.1)));
    } else {
        let line = lines[pos];
        let ind = indent_of(line);
        lemma_run_end_bounds(line, 0, true);
        let (head, first, rest_end) = if kind_of(line) == LineKind::Marker {
            lemma_scope_end(lines, ind, pos + 1);
            let inner = scope(lines, ind, pos + 1)->Ok_0;
            lemma_render_keeps_kinds(lines, ind, pos + 1, d + 1);
            (seq![line] + lines.subrange(pos + 1, inner.1), q.0[0], inner.1)
        } else {
            (seq![line], q.0[0], pos + 1)
        };
        let rest = scope(lines, level, rest_end)->Ok_0;
        lemma_scope_end(lines, level, rest_end);
        lemma_render_keeps_kinds(lines, level, rest_end, d);
        assert(q.0 =~= seq![first] + rest.0);
        lemma_render_cons(first, rest.0, d);
        assert(kinds(render_node(first, d)) == kinds(head)) by {
            if kind_of(line) == LineKind::Marker {
                let inner = scope(lines, ind, pos + 1)->Ok_0;
                match first {
                    NodeModel::Section { name, label, children } => {
                        let tail = match label {
                            Some(l) => seq![' '] + l,
                            None => Seq::empty(),
                        };
                        lemma_kind_after_spaces(d, seq![MARKER] + name + tail);
                        assert(header_line(name, label, d) =~= spaces(d) + (seq![MARKER] + name
                            + tail));
                        assert(kinds(render_node(first, d)) =~= seq![kind_of(line)] + kinds(
                            render(children, d + 1),
                        ));
                        assert(kinds(head) =~= seq![kind_of(line)] + kinds(
                            lines.subrange(pos + 1, inner.1),
                        ));
                    },
                    _ => {},
                }
            } else if kind_of(line) == LineKind::Text {
                let c = line.subrange(ind, line.len() as int);
                assert(c[0] == line[ind]);
                lemma_kind_after_spaces(d, c);
                assert(kinds(render_node(first, d)) =~= kinds(head));
            } else {
                assert(kinds(render_node(first, d)) =~= kinds(head));
            }
        }
        assert(lines.subrange(pos, q.1) =~= head + lines.subrange(rest_end, q.1));
        assert(kinds(render(q.0, d)) =~= kinds(render_node(first, d)) + kinds(render(rest.0, d)));
        assert(kinds(lines.subrange(pos, q.1)) =~= kinds(head) + kinds(lines.subrange(rest_end, q.1)));
    }
}

/// Writing out a parsed document, top-level nodes unindented, gives back as many
/// lines as it had, each read as the line it came from was.
pub proof fn lemma_round_trip_kinds(lines: Seq<Seq<char>>)
    requires
        scope(lines, -1, 0) is Ok,
    ensures
        kinds(render(scope(lines, -1, 0)->Ok_0.0, 0)) == kinds(lines),
{
    lemma_render_keeps_kinds(lines, -1, 0, 0);
    crate::laws::lemma_top_level_consumes_all(lines, 0);
    assert(lines.subrange(0, lines.len() as int) =~= lines);
}

} // verus!
