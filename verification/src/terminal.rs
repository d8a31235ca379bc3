use vstd::prelude::*;
use crate::draw::{DrawOp, DrawOpView, ops_view, emit_op};
use crate::geometry::Position;
use crate::text::{
    spaces, push_spaces, push_str, string_from_chars, chars_of, rendition_texts, reverse_on_text,
    attributes_off_text,
};

verus! {

/// The line shown in reverse video across the terminal: the text cut to
/// `width` characters and padded with spaces to `width`, between the texts
/// `on` and `off` that turn reverse video on and reset it.
pub open spec fn inverted_row(text: Seq<char>, width: nat, on: Seq<char>, off: Seq<char>) -> Seq<
    char,
> {
    let n = if text.len() < width {
        text.len()
    } else {
        width
    };
    on + text.take(n as int) + spaces((width - n) as nat) + off
}

/// The terminal the editor draws on; drawing itself happens outside this crate.
pub struct Terminal {}

impl Terminal {
    /// The text that prints `line_text` as a full row of `width` columns
    /// between `on` and `off` (see `inverted_row`).
    pub fn inverted_row_with(line_text: &str, width: usize, on: &str, off: &str) -> (r: String)
        ensures
            r@ == inverted_row(line_text@, width as nat, on@, off@),
    {
        let chars = chars_of(line_text);
        let n = if chars.len() < width {
            chars.len()
        } else {
            width
        };
        let mut out: Vec<char> = Vec::new();
        push_str(&mut out, on);
        let ghost head = out@;
        let mut i: usize = 0;
        while i < n
            invariant
                i <= n,
                n <= chars@.len(),
                chars@ == line_text@,
                out@ == head + line_text@.take(i as int),
            decreases n - i,
        {
            out.push(chars[i]);
            i = i + 1;
            assert(out@ =~= head + line_text@.take(i as int));
        }
        push_spaces(&mut out, width - n);
        push_str(&mut out, off);
        assert(out@ =~= inverted_row(line_text@, width as nat, on@, off@));
        string_from_chars(out.as_slice())
    }

    /// The text that prints `line_text` as a full row of `width` columns in
    /// reverse video, with the rendition texts the terminal back end writes
    /// (see `rendition_texts`).
    pub fn inverted_row_text(line_text: &str, width: usize) -> (r: String)
        ensures
            exists|on: Seq<char>, off: Seq<char>|
                rendition_texts(on, off) && r@ == inverted_row(line_text@, width as nat, on, off),
    {
        let on = reverse_on_text();
        let off = attributes_off_text();
        let r = Terminal::inverted_row_with(line_text, width, on.as_str(), off.as_str());
        assert(rendition_texts(on@, off@) && r@ == inverted_row(line_text@, width as nat, on@, off@));
        r
    }

    /// The commands that print `line_text` in reverse video across screen
    /// row `row` of a terminal `width` columns wide: the caret goes to the
    /// row's start, the row is cleared, and the text (see `inverted_row_text`)
    /// is printed.
    pub fn print_inverted_row(row: usize, line_text: &str, width: usize) -> (ops: Vec<DrawOp>)
        ensures
            exists|on: Seq<char>, off: Seq<char>|
                rendition_texts(on, off) && ops_view(ops@) == seq![
                    DrawOpView::MoveTo(Position { row, col: 0 }),
                    DrawOpView::ClearUntilNewLine,
                    DrawOpView::Print(inverted_row(line_text@, width as nat, on, off)),
                ],
    {
        let mut ops: Vec<DrawOp> = Vec::new();
        emit_op(&mut ops, DrawOp::MoveTo(Position { row, col: 0 }));
        emit_op(&mut ops, DrawOp::ClearUntilNewLine);
        let text = Terminal::inverted_row_text(line_text, width);
        let ghost t = text@;
        emit_op(&mut ops, DrawOp::Print(text));
        proof {
            let (on, off) = choose|on: Seq<char>, off: Seq<char>|
                rendition_texts(on, off) && t == inverted_row(line_text@, width as nat, on, off);
            assert(ops_view(ops@) =~= seq![
                DrawOpView::MoveTo(Position { row, col: 0 }),
                DrawOpView::ClearUntilNewLine,
                DrawOpView::Print(inverted_row(line_text@, width as nat, on, off)),
            ]);
        }
        ops
    }
}

} // verus!
