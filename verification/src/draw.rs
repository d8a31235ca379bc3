use vstd::prelude::*;
use crate::geometry::Position;
use crate::terminal::Terminal;
use crate::style::Color;
use crate::text::{spaces, push_spaces, string_from_chars, text_width, str_display_width};

verus! {

/// One drawing command for the terminal, queued in order by the caller.
pub enum DrawOp {
    /// Moves the caret to a cell.
    MoveTo(Position),
    /// Clears from the caret to the end of its line.
    ClearUntilNewLine,
    /// Clears the caret's whole line.
    ClearCurrentLine,
    SetForeground(Color),
    SetBackground(Color),
    /// Restores the default colors.
    ResetColor,
    /// Turns bold on.
    SetBold,
    /// Turns bold off.
    SetNormalIntensity,
    /// Resets every attribute.
    ResetAttributes,
    /// Prints text at the caret.
    Print(String),
}

/// The abstract value of a drawing command.
pub enum DrawOpView {
    MoveTo(Position),
    ClearUntilNewLine,
    ClearCurrentLine,
    SetForeground(Color),
    SetBackground(Color),
    ResetColor,
    SetBold,
    SetNormalIntensity,
    ResetAttributes,
    Print(Seq<char>),
}

impl View for DrawOp {
    type V = DrawOpView;

    open spec fn view(&self) -> DrawOpView {
        match self {
            DrawOp::MoveTo(p) => DrawOpView::MoveTo(*p),
            DrawOp::ClearUntilNewLine => DrawOpView::ClearUntilNewLine,
            DrawOp::ClearCurrentLine => DrawOpView::ClearCurrentLine,
            DrawOp::SetForeground(c) => DrawOpView::SetForeground(*c),
            DrawOp::SetBackground(c) => DrawOpView::SetBackground(*c),
            DrawOp::ResetColor => DrawOpView::ResetColor,
            DrawOp::SetBold => DrawOpView::SetBold,
            DrawOp::SetNormalIntensity => DrawOpView::SetNormalIntensity,
            DrawOp::ResetAttributes => DrawOpView::ResetAttributes,
            DrawOp::Print(s) => DrawOpView::Print(s@),
        }
    }
}

/// The views of a sequence of drawing commands.
pub open spec fn ops_view(v: Seq<DrawOp>) -> Seq<DrawOpView> {
    v.map_values(|o: DrawOp| o@)
}

/// Appends one command.
pub fn emit_op(out: &mut Vec<DrawOp>, op: DrawOp)
    ensures
        ops_view(final(out)@) == ops_view(old(out)@).push(op@),
{
    let ghost before = out@;
    out.push(op);
    assert(ops_view(out@) =~= ops_view(before).push(op@));
}

/// Appends a command that prints the characters `text`.
pub fn emit_print(out: &mut Vec<DrawOp>, text: &[char])
    ensures
        ops_view(final(out)@) == ops_view(old(out)@).push(DrawOpView::Print(text@)),
{
    let s = string_from_chars(text);
    emit_op(out, DrawOp::Print(s));
}

/// Appends a command that prints `n` spaces.
pub fn emit_spaces(out: &mut Vec<DrawOp>, n: usize)
    ensures
        ops_view(final(out)@) == ops_view(old(out)@).push(DrawOpView::Print(spaces(n as nat))),
{
    let mut v: Vec<char> = Vec::new();
    push_spaces(&mut v, n);
    assert(v@ =~= spaces(n as nat));
    emit_print(out, v.as_slice());
}

/// A color-changing rendition of part of a line of text.
#[derive(Clone, Copy, Debug, PartialEq, Eq, Structural)]
pub struct TextAttribute {
    pub foreground: Option<Color>,
    pub background: Option<Color>,
}

/// A run of text with the rendition its annotation (if any) calls for.
pub struct AnnotatedPart {
    pub text: String,
    pub attribute: Option<TextAttribute>,
}

/// The abstract value of an annotated run.
pub struct PartView {
    pub text: Seq<char>,
    pub attribute: Option<TextAttribute>,
}

impl View for AnnotatedPart {
    type V = PartView;

    open spec fn view(&self) -> PartView {
        PartView { text: self.text@, attribute: self.attribute }
    }
}

/// The views of annotated runs.
pub open spec fn parts_view(v: Seq<AnnotatedPart>) -> Seq<PartView> {
    v.map_values(|p: AnnotatedPart| p@)
}

/// The background of the line where the debugged program stopped.
pub open spec fn stopped_background() -> Color {
    Color::DarkBlue
}

/// `SetBackground` of the stopped line's color when `stopped`, else nothing.
pub open spec fn stopped_bg(stopped: bool) -> Seq<DrawOpView> {
    if stopped {
        seq![DrawOpView::SetBackground(stopped_background())]
    } else {
        Seq::<DrawOpView>::empty()
    }
}

/// The commands that set a rendition's colors.
pub open spec fn attribute_ops(a: TextAttribute) -> Seq<DrawOpView> {
    (match a.foreground {
        Some(c) => seq![DrawOpView::SetForeground(c)],
        None => Seq::<DrawOpView>::empty(),
    }) + (match a.background {
        Some(c) => seq![DrawOpView::SetBackground(c)],
        None => Seq::<DrawOpView>::empty(),
    })
}

/// The commands that print one annotated run: its rendition (the stopped
/// line's background kept over it), the text, then the colors reset.
pub open spec fn part_ops(p: PartView, stopped: bool) -> Seq<DrawOpView> {
    let rendition = match p.attribute {
        Some(a) => attribute_ops(a) + stopped_bg(stopped),
        None => Seq::<DrawOpView>::empty(),
    };
    rendition + seq![DrawOpView::Print(p.text), DrawOpView::ResetColor] + stopped_bg(stopped)
}

/// The commands that print the runs `parts` in order.
pub open spec fn parts_ops(parts: Seq<PartView>, stopped: bool) -> Seq<DrawOpView>
    decreases parts.len(),
{
    if parts.len() == 0 {
        Seq::<DrawOpView>::empty()
    } else {
        parts_ops(parts.drop_last(), stopped) + part_ops(parts.last(), stopped)
    }
}

/// The total display width of the runs `parts`.
pub open spec fn parts_width(parts: Seq<PartView>) -> int
    decreases parts.len(),
{
    if parts.len() == 0 {
        0
    } else {
        parts_width(parts.drop_last()) + text_width(parts.last().text)
    }
}

/// `x`, or `usize::MAX` when larger.
pub open spec fn clamp_usize(x: int) -> int {
    if x > usize::MAX {
        usize::MAX as int
    } else {
        x
    }
}

/// The commands that draw one line of the document with its gutter: the
/// caret goes to (`row`, `col_start`) and the line is cleared; the marker is
/// printed in yellow on the stopped line, in red on a breakpoint, and in dark
/// grey when the prefix is not highlighted; the line-number prefix follows
/// (dark grey unless highlighted), then each run in its rendition. The line
/// where the program stopped keeps a dark blue background and is padded with
/// spaces to `row_display_width` columns.
pub open spec fn gutter_row_plan(
    row: usize,
    col_start: usize,
    row_display_width: usize,
    marker: Seq<char>,
    line_number_prefix: Seq<char>,
    marker_is_breakpoint: bool,
    marker_is_stopped: bool,
    parts: Seq<PartView>,
    highlight_prefix: bool,
) -> Seq<DrawOpView> {
    let bg = stopped_bg(marker_is_stopped);
    let head = seq![DrawOpView::MoveTo(Position { row, col: col_start })] + bg + seq![
        DrawOpView::ClearUntilNewLine,
    ] + bg;
    let mark = if marker_is_stopped {
        seq![DrawOpView::SetForeground(Color::Yellow), DrawOpView::Print(marker)] + bg
    } else if marker_is_breakpoint {
        seq![DrawOpView::SetForeground(Color::Red), DrawOpView::Print(marker), DrawOpView::ResetColor]
    } else if !highlight_prefix {
        seq![
            DrawOpView::SetForeground(Color::DarkGrey),
            DrawOpView::Print(marker),
            DrawOpView::ResetColor,
        ]
    } else {
        seq![DrawOpView::Print(marker)]
    };
    let number = (if !highlight_prefix {
        seq![DrawOpView::SetForeground(Color::DarkGrey)]
    } else {
        Seq::<DrawOpView>::empty()
    }) + seq![DrawOpView::Print(line_number_prefix), DrawOpView::ResetColor];
    let used = clamp_usize(text_width(marker) + text_width(line_number_prefix) + parts_width(parts));
    let pad = if marker_is_stopped && used < row_display_width {
        seq![
            DrawOpView::SetBackground(stopped_background()),
            DrawOpView::Print(spaces((row_display_width - used) as nat)),
        ]
    } else {
        Seq::<DrawOpView>::empty()
    };
    head + mark + number + parts_ops(parts, marker_is_stopped) + pad + seq![DrawOpView::ResetColor]
}

fn emit_stopped_bg(out: &mut Vec<DrawOp>, stopped: bool)
    ensures
        ops_view(final(out)@) == ops_view(old(out)@) + stopped_bg(stopped),
{
    let ghost before = ops_view(out@);
    if stopped {
        emit_op(out, DrawOp::SetBackground(Color::DarkBlue));
    }
    assert(ops_view(out@) =~= before + stopped_bg(stopped));
}

fn emit_part(out: &mut Vec<DrawOp>, part: &AnnotatedPart, stopped: bool)
    ensures
        ops_view(final(out)@) == ops_view(old(out)@) + part_ops(part@, stopped),
{
    let ghost before = ops_view(out@);
    match part.attribute {
        Some(a) => {
            match a.foreground {
                Some(c) => emit_op(out, DrawOp::SetForeground(c)),
                None => {},
            }
            match a.background {
                Some(c) => emit_op(out, DrawOp::SetBackground(c)),
                None => {},
            }
            emit_stopped_bg(out, stopped);
            assert(ops_view(out@) =~= before + (attribute_ops(a) + stopped_bg(stopped)));
        },
        None => {},
    }
    let ghost mid = ops_view(out@);
    emit_op(out, DrawOp::Print(part.text.clone()));
    emit_op(out, DrawOp::ResetColor);
    emit_stopped_bg(out, stopped);
    assert(ops_view(out@) =~= mid + seq![DrawOpView::Print(part.text@), DrawOpView::ResetColor]
        + stopped_bg(stopped));
    assert(ops_view(out@) =~= before + part_ops(part@, stopped));
}

impl Terminal {
    /// The commands that draw a document line with its gutter (see `gutter_row_plan`).
    pub fn print_annotated_row_with_gutter(
        row: usize,
        col_start: usize,
        row_display_width: usize,
        marker: &str,
        line_number_prefix: &str,
        marker_is_breakpoint: bool,
        marker_is_stopped: bool,
        annotated_string: &Vec<AnnotatedPart>,
        highlight_prefix: bool,
    ) -> (ops: Vec<DrawOp>)
        ensures
            ops_view(ops@) == gutter_row_plan(
                row,
                col_start,
                row_display_width,
                marker@,
                line_number_prefix@,
                marker_is_breakpoint,
                marker_is_stopped,
                parts_view(annotated_string@),
                highlight_prefix,
            ),
    {
        let mut out: Vec<DrawOp> = Vec::new();
        let ghost bg = stopped_bg(marker_is_stopped);
        emit_op(&mut out, DrawOp::MoveTo(Position { row, col: col_start }));
        emit_stopped_bg(&mut out, marker_is_stopped);
        emit_op(&mut out, DrawOp::ClearUntilNewLine);
        emit_stopped_bg(&mut out, marker_is_stopped);
        let ghost head = ops_view(out@);
        assert(head =~= seq![DrawOpView::MoveTo(Position { row, col: col_start })] + bg + seq![
            DrawOpView::ClearUntilNewLine,
        ] + bg);
        if marker_is_stopped {
            emit_op(&mut out, DrawOp::SetForeground(Color::Yellow));
            emit_op(&mut out, DrawOp::Print(marker.to_owned()));
            emit_stopped_bg(&mut out, marker_is_stopped);
        } else if marker_is_breakpoint {
            emit_op(&mut out, DrawOp::SetForeground(Color::Red));
            emit_op(&mut out, DrawOp::Print(marker.to_owned()));
            emit_op(&mut out, DrawOp::ResetColor);
        } else if !highlight_prefix {
            emit_op(&mut out, DrawOp::SetForeground(Color::DarkGrey));
            emit_op(&mut out, DrawOp::Print(marker.to_owned()));
            emit_op(&mut out, DrawOp::ResetColor);
        } else {
            emit_op(&mut out, DrawOp::Print(marker.to_owned()));
        }
        let ghost after_mark = ops_view(out@);
        if !highlight_prefix {
            emit_op(&mut out, DrawOp::SetForeground(Color::DarkGrey));
        }
        emit_op(&mut out, DrawOp::Print(line_number_prefix.to_owned()));
        emit_op(&mut out, DrawOp::ResetColor);
        let ghost after_number = ops_view(out@);
        let mut content_w: usize = 0;
        let mut i: usize = 0;
        while i < annotated_string.len()
            invariant
                i <= annotated_string@.len(),
                ops_view(out@) == after_number + parts_ops(parts_view(annotated_string@).take(i as int), marker_is_stopped),
                content_w == clamp_usize(parts_width(parts_view(annotated_string@).take(i as int))),
                parts_width(parts_view(annotated_string@).take(i as int)) >= 0,
            decreases annotated_string.len() - i,
        {
            let ghost pv = parts_view(annotated_string@);
            assert(pv.take(i + 1).drop_last() =~= pv.take(i as int));
            assert(pv.take(i + 1).last() == annotated_string@[i as int]@);
            emit_part(&mut out, &annotated_string[i], marker_is_stopped);
            let w = str_display_width(annotated_string[i].text.as_str());
            content_w = content_w.saturating_add(w);
            i = i + 1;
        }
        assert(parts_view(annotated_string@).take(annotated_string@.len() as int) =~= parts_view(annotated_string@));
        let gutter_w = str_display_width(marker).saturating_add(str_display_width(line_number_prefix));
        let used = gutter_w.saturating_add(content_w);
        let ghost before_pad = ops_view(out@);
        if marker_is_stopped && used < row_display_width {
            emit_op(&mut out, DrawOp::SetBackground(Color::DarkBlue));
            emit_spaces(&mut out, row_display_width - used);
        }
        emit_op(&mut out, DrawOp::ResetColor);
        assert(ops_view(out@) =~= gutter_row_plan(
            row,
            col_start,
            row_display_width,
            marker@,
            line_number_prefix@,
            marker_is_breakpoint,
            marker_is_stopped,
            parts_view(annotated_string@),
            highlight_prefix,
        ));
        out
    }
}

} // verus!
