use vstd::prelude::*;

verus! {

#[verifier::external_type_specification]
#[verifier::external_body]
#[verifier::reject_recursive_types(I)]
pub struct ExPutBack<I>(itertools::PutBack<I>) where I: Iterator;

/// A cursor over owned text lines that can take back the line it handed out last.
pub type LineCursor = itertools::PutBack<std::vec::IntoIter<String>>;

/// The lines that a cursor has still to hand out, the put-back one first.
pub uninterp spec fn cursor_items(c: LineCursor) -> Seq<Seq<char>>;

/// Whether the cursor's put-back slot is occupied.
pub uninterp spec fn cursor_pending(c: LineCursor) -> bool;

pub open spec fn lines_view(v: Seq<String>) -> Seq<Seq<char>> {
    v.map_values(|s: String| s@)
}

/// Relies on itertools::put_back: it wraps the vector's iterator with an empty slot.
#[verifier::external_body]
pub(crate) fn new_cursor(lines: Vec<String>) -> (r: LineCursor)
    ensures
        cursor_items(r) == lines_view(lines@),
        !cursor_pending(r),
{
    itertools::put_back(lines)
}

/// Relies on PutBack::next: the slot's line if there is one, else the iterator's next.
#[verifier::external_body]
pub(crate) fn next_line(c: &mut LineCursor) -> (r: Option<String>)
    ensures
        cursor_items(*old(c)).len() == 0 ==> r is None && cursor_items(*final(c)).len() == 0,
        cursor_items(*old(c)).len() > 0 ==> r is Some && r->0@ == cursor_items(*old(c))[0]
            && cursor_items(*final(c)) == cursor_items(*old(c)).drop_first(),
        !cursor_pending(*final(c)),
{
    c.next()
}

/// Relies on PutBack::put_back: the line goes into the slot, and the line that was
/// there before, if any, is handed back.
#[verifier::external_body]
pub(crate) fn put_back_line(c: &mut LineCursor, line: String) -> (r: Option<String>)
    ensures
        cursor_pending(*final(c)),
        !cursor_pending(*old(c)) ==> r is None
            && cursor_items(*final(c)) == seq![line@] + cursor_items(*old(c)),
        cursor_pending(*old(c)) ==> r is Some && r->0@ == cursor_items(*old(c))[0]
            && cursor_items(*final(c)) == seq![line@] + cursor_items(*old(c)).drop_first(),
{
    c.put_back(line)
}

} // verus!
