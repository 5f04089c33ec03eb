use vstd::prelude::*;
use crate::node::opt_view;

verus! {

/// Marks a line that opens a section.
pub const MARKER: char = '|';

/// The characters that count as indentation, one unit each.
pub open spec fn is_ws(c: char) -> bool {
    c == ' ' || c == '\t'
}

/// The first index at or after `i` where the run of characters that are (or are
/// not, by `ws`) indentation characters stops.
pub open spec fn run_end(s: Seq<char>, i: int, ws: bool) -> int
    decreases s.len() - i,
{
    if 0 <= i < s.len() && is_ws(s[i]) == ws {
        run_end(s, i + 1, ws)
    } else {
        i
    }
}

/// The number of leading spaces and tabs of a line.
pub open spec fn indent_of(s: Seq<char>) -> int {
    run_end(s, 0, true)
}

/// How a line is read.
#[derive(Debug, Clone, Copy, PartialEq, Eq, Structural)]
pub enum LineKind {
    /// Nothing but indentation.
    Blank,
    /// Plain content.
    Text,
    /// The first character after the indentation is the marker.
    Marker,
}

pub open spec fn kind_of(s: Seq<char>) -> LineKind {
    let i = indent_of(s);
    if i >= s.len() {
        LineKind::Blank
    } else if s[i] == MARKER {
        LineKind::Marker
    } else {
        LineKind::Text
    }
}

/// The name and optional label of a marker line: the name is the run of
/// non-indentation characters right after the marker, and the label is what
/// follows the run of spaces and tabs after the name, when anything does.
/// `None` where no name follows the marker.
pub open spec fn header_of(s: Seq<char>) -> Option<(Seq<char>, Option<Seq<char>>)> {
    let m = indent_of(s) + 1;
    let ne = run_end(s, m, false);
    if ne <= m {
        None
    } else {
        let ls = run_end(s, ne, true);
        Some(
            (
                s.subrange(m, ne),
                if ls < s.len() {
                    Some(s.subrange(ls, s.len() as int))
                } else {
                    None
                },
            ),
        )
    }
}

pub proof fn lemma_run_end_bounds(s: Seq<char>, i: int, ws: bool)
    requires
        0 <= i,
    ensures
        i <= run_end(s, i, ws),
        i <= s.len() ==> run_end(s, i, ws) <= s.len(),
        forall|j: int| i <= j < run_end(s, i, ws) ==> is_ws(#[trigger] s[j]) == ws,
        run_end(s, i, ws) < s.len() ==> is_ws(s[run_end(s, i, ws)]) != ws,
    decreases s.len() - i,
{
    if 0 <= i < s.len() && is_ws(s[i]) == ws {
        lemma_run_end_bounds(s, i + 1, ws);
    }
}

fn is_ws_char(c: char) -> (r: bool)
    ensures
        r == is_ws(c),
{
    c == ' ' || c == '\t'
}

/// Scans from `i` to the end of the run of (non-)indentation characters.
fn scan_run(s: &str, n: usize, i: usize, ws: bool) -> (r: usize)
    requires
        n == s@.len(),
        i <= n,
    ensures
        r == run_end(s@, i as int, ws),
        i <= r <= n,
{
    let mut j: usize = i;
    while j < n && is_ws_char(s.get_char(j)) == ws
        invariant
            n == s@.len(),
            i <= j <= n,
            run_end(s@, j as int, ws) == run_end(s@, i as int, ws),
        decreases n - j,
    {
        j = j + 1;
    }
    proof {
        lemma_run_end_bounds(s@, i as int, ws);
    }
    j
}

/// The kind of a line and its indentation count.
pub fn classify(s: &str) -> (r: (LineKind, usize))
    ensures
        r.0 == kind_of(s@),
        r.1 == indent_of(s@),
{
    let n = s.unicode_len();
    let ind = scan_run(s, n, 0, true);
    if ind == n {
        (LineKind::Blank, ind)
    } else if s.get_char(ind) == MARKER {
        (LineKind::Marker, ind)
    } else {
        (LineKind::Text, ind)
    }
}

/// The name and label of a marker line whose indentation is `ind`.
pub fn parse_header(s: &str, ind: usize) -> (r: Option<(String, Option<String>)>)
    requires
        ind == indent_of(s@),
        kind_of(s@) == LineKind::Marker,
    ensures
        match header_of(s@) {
            None => r is None,
            Some(h) => match r {
                Some(p) => p.0@ == h.0 && opt_view(p.1) == h.1,
                None => false,
            },
        },
{
    let n = s.unicode_len();
    proof {
        lemma_run_end_bounds(s@, 0, true);
    }
    let m = ind + 1;
    let ne = scan_run(s, n, m, false);
    if ne == m {
        return None;
    }
    let name = String::from_str(s.substring_char(m, ne));
    let ls = scan_run(s, n, ne, true);
    let label = if ls < n {
        Some(String::from_str(s.substring_char(ls, n)))
    } else {
        None
    };
    Some((name, label))
}

/// A text line without its indentation.
pub fn strip_indent(s: &str, ind: usize) -> (r: String)
    requires
        ind <= s@.len(),
    ensures
        r@ == s@.subrange(ind as int, s@.len() as int),
{
    let n = s.unicode_len();
    String::from_str(s.substring_char(ind, n))
}

} // verus!
