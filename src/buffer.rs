use vstd::prelude::*;

use tui_textarea::{CursorMove, Input, TextArea};

verus! {

/// The buffer of the field editor: a tui-textarea `TextArea`, held in a field that proofs
/// do not look into (Verus refuses to declare `TextArea` itself, because of its blanket
/// `From` impl). What proofs know of it is `text_lines`.
#[verifier::external_body]
pub struct TextBuffer {
    pub area: TextArea<'static>,
}

/// A key press as tui-textarea takes it; carried through to `TextArea::input`.
#[verifier::external_type_specification]
#[verifier::external_body]
pub struct ExInput(Input);

/// The lines of text that a text area holds.
pub uninterp spec fn text_lines(t: TextBuffer) -> Seq<Seq<char>>;

/// Relies on `TextArea::new`: the area holds the given lines, or one empty line when
/// given none.
#[verifier::external_body]
pub(crate) fn new_text_area(lines: Vec<String>) -> (r: TextBuffer)
    ensures
        text_lines(r) == if lines@.len() == 0 {
            seq![Seq::<char>::empty()]
        } else {
            lines@.map_values(|s: String| s@)
        },
{
    TextBuffer { area: TextArea::new(lines) }
}

/// Relies on `TextArea::move_cursor`: moving the cursor to the end of the line leaves
/// the text as it is.
#[verifier::external_body]
pub(crate) fn move_cursor_to_end(t: &mut TextBuffer)
    ensures
        text_lines(*final(t)) == text_lines(*old(t)),
{
    t.area.move_cursor(CursorMove::End)
}

/// Relies on `TextArea::input`: every edit that removes a line joins it to a line that
/// stays, so an area with a line keeps at least one.
#[verifier::external_body]
pub(crate) fn apply_input(t: &mut TextBuffer, input: Input)
    ensures
        text_lines(*old(t)).len() >= 1 ==> text_lines(*final(t)).len() >= 1,
{
    t.area.input(input);
}

/// Relies on `TextArea::lines`: the first of the lines the area holds.
#[verifier::external_body]
pub(crate) fn first_line(t: &TextBuffer) -> (r: String)
    requires
        text_lines(*t).len() >= 1,
    ensures
        r@ == text_lines(*t)[0],
{
    t.area.lines()[0].clone()
}

} // verus!
