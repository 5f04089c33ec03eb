//! Parsing of indentation-delimited outline text into a tree of nodes.
//!
//! Each line is blank, plain text, or a marker line that opens a section; a
//! section holds the lines below it that are indented deeper than its marker.
mod cursor;
mod laws;
mod line;
mod node;
mod parser;
mod render;

pub use cursor::{cursor_items, cursor_pending, lines_view, LineCursor};
pub use laws::{
    lemma_dedent_line_ends_scope, lemma_scope_stops_at_dedent, lemma_scope_window,
    lemma_section_children_in_isolation, lemma_top_level_consumes_all,
};
pub use line::{
    classify, header_of, indent_of, is_ws, kind_of, parse_header, run_end, strip_indent,
    LineKind, MARKER,
};
pub use node::{node_view, nodes_view, opt_view, Node, NodeModel, Section};
pub use parser::{level_of, parse_lines, parse_scope, prepend, scope, ParseError, ScopeResult};
pub use render::{
    header_line, kinds, lemma_kind_after_spaces, lemma_render_cons, lemma_render_keeps_kinds,
    lemma_round_trip_kinds, render, render_node, render_upto, spaces,
};
