use vstd::prelude::*;
use crate::decimal::{decimal_chars, push_decimal_chars};
use crate::geometry::Size;
use crate::text::{spaces, push_spaces, push_str, string_from_chars, chars_of};
use vstd::utf8::encode_utf8;

verus! {

/// A thread of the program being debugged.
#[derive(Clone, Debug, Default)]
pub struct ThreadSummary {
    pub id: i64,
    pub name: String,
}

/// A frame of the stopped thread's call stack.
#[derive(Clone, Debug, Default)]
pub struct StackFrameSummary {
    pub id: i64,
    pub name: String,
    pub line: i64,
    pub column: i64,
    pub source_path: String,
}

/// A variable in scope of the current frame.
#[derive(Clone, Debug, Default)]
pub struct VariableSummary {
    pub name: String,
    pub value: String,
    pub value_type: String,
    pub variables_reference: i64,
}

/// What the editor knows of a debug session.
#[derive(Clone, Debug, Default)]
pub struct DebugState {
    pub active: bool,
    pub current_thread_id: Option<i64>,
    pub threads: Vec<ThreadSummary>,
    pub stack_frames: Vec<StackFrameSummary>,
    pub variables: Vec<VariableSummary>,
}

/// A signed integer in decimal, with a minus sign when negative.
pub open spec fn int_text(n: i64) -> Seq<char> {
    if n < 0 {
        seq!['-'] + decimal_chars((-n) as nat)
    } else {
        decimal_chars(n as nat)
    }
}

/// Appends `n` in decimal to `out` (see `int_text`).
pub fn push_int(out: &mut Vec<char>, n: i64)
    ensures
        final(out)@ == old(out)@ + int_text(n),
{
    if n < 0 {
        let ghost start = out@;
        out.push('-');
        let magnitude: u64 = (0i128 - n as i128) as u64;
        push_decimal_chars(out, magnitude);
        assert(out@ =~= start + (seq!['-'] + decimal_chars((-n) as nat)));
    } else {
        push_decimal_chars(out, n as u64);
    }
}

/// The rows of the debug panel.
pub const DEBUG_PANEL_DEFAULT_ROWS: usize = 6;

/// The line describing a stack frame: its name, then source path, line and
/// column in parentheses.
pub open spec fn frame_line(name: Seq<char>, path: Seq<char>, line: i64, column: i64) -> Seq<char> {
    "  "@ + name + " ("@ + path + ":"@ + int_text(line) + ":"@ + int_text(column) + ")"@
}

/// The line describing a variable: its name and value.
pub open spec fn variable_line(name: Seq<char>, value: Seq<char>) -> Seq<char> {
    "  "@ + name + " = "@ + value
}

/// The lines the debug panel shows for a session: a header, the status with
/// the current thread (or `-`), the top stack frame (or `-`), and the
/// variables (or `-`), at most `rows - 6` of them; an inactive session shows
/// one line.
pub open spec fn panel_lines(s: DebugState, rows: usize) -> Seq<Seq<char>> {
    if s.active {
        let thread = match s.current_thread_id {
            Some(id) => int_text(id),
            None => "-"@,
        };
        let frame = if s.stack_frames@.len() > 0 {
            let f = s.stack_frames@[0];
            frame_line(f.name@, f.source_path@, f.line, f.column)
        } else {
            "  -"@
        };
        let head = seq![
            "Debug Session"@,
            "Status: active  thread="@ + thread,
            "Frame"@,
            frame,
            "Variables"@,
        ];
        if s.variables@.len() == 0 {
            head.push("  -"@)
        } else {
            let shown = if rows >= 6 {
                rows - 6
            } else {
                0
            };
            let n = if shown < s.variables@.len() {
                shown as int
            } else {
                s.variables@.len() as int
            };
            head + Seq::new(
                n as nat,
                |i: int| variable_line(s.variables@[i].name@, s.variables@[i].value@),
            )
        }
    } else {
        seq!["Debug: inactive"@]
    }
}

/// A panel line padded with spaces to `width` characters when its UTF-8
/// length fits in `width`, and otherwise cut to its first `width` characters.
pub open spec fn panel_row_text(text: Seq<char>, width: nat) -> Seq<char> {
    if encode_utf8(text).len() <= width {
        text + spaces((width - text.len()) as nat)
    } else if text.len() <= width {
        text
    } else {
        text.take(width as int)
    }
}

/// The characters of each string.
pub open spec fn lines_view(v: Seq<String>) -> Seq<Seq<char>> {
    v.map_values(|s: String| s@)
}

/// The panel that shows the state of a debug session.
pub struct DebugPanel {
    pub rows: usize,
    size: Size,
    col_offset: usize,
    needs_redraw: bool,
    lines: Vec<String>,
}

/// The abstract state of the debug panel.
pub struct DebugPanelView {
    pub rows: usize,
    pub size: Size,
    pub col_offset: usize,
    pub needs_redraw: bool,
    pub lines: Seq<Seq<char>>,
}

impl DebugPanelView {
    /// The panel after an update from session state `s`: its lines are
    /// recomputed, and it needs a redraw when they changed.
    pub open spec fn updated(self, s: DebugState) -> DebugPanelView {
        let lines = panel_lines(s, self.rows);
        DebugPanelView { lines, needs_redraw: self.needs_redraw || lines != self.lines, ..self }
    }
}

impl View for DebugPanel {
    type V = DebugPanelView;

    closed spec fn view(&self) -> DebugPanelView {
        DebugPanelView {
            rows: self.rows,
            size: self.size,
            col_offset: self.col_offset,
            needs_redraw: self.needs_redraw,
            lines: lines_view(self.lines@),
        }
    }
}

fn make_line(v: Vec<char>) -> (s: String)
    ensures
        s@ == v@,
{
    string_from_chars(v.as_slice())
}

fn literal_line(text: &str) -> (s: String)
    ensures
        s@ == text@,
{
    let mut v: Vec<char> = Vec::new();
    push_str(&mut v, text);
    assert(v@ =~= text@);
    make_line(v)
}

fn same_lines(a: &Vec<String>, b: &Vec<String>) -> (r: bool)
    ensures
        r == (lines_view(a@) == lines_view(b@)),
{
    if a.len() != b.len() {
        return false;
    }
    let mut i: usize = 0;
    while i < a.len()
        invariant
            i <= a@.len(),
            a@.len() == b@.len(),
            forall|j: int| 0 <= j < i ==> lines_view(a@)[j] == lines_view(b@)[j],
        decreases a.len() - i,
    {
        if a[i] != b[i] {
            assert(lines_view(a@)[i as int] != lines_view(b@)[i as int]);
            return false;
        }
        i = i + 1;
    }
    assert(lines_view(a@) =~= lines_view(b@));
    true
}

impl DebugPanel {
    /// An empty panel of the default height.
    pub fn new() -> (p: DebugPanel)
        ensures
            p@ == (DebugPanelView {
                rows: DEBUG_PANEL_DEFAULT_ROWS,
                size: Size { height: 0, width: 0 },
                col_offset: 0,
                needs_redraw: false,
                lines: Seq::<Seq<char>>::empty(),
            }),
    {
        let p = DebugPanel {
            rows: DEBUG_PANEL_DEFAULT_ROWS,
            size: Size { height: 0, width: 0 },
            col_offset: 0,
            needs_redraw: false,
            lines: Vec::new(),
        };
        assert(p@.lines =~= Seq::<Seq<char>>::empty());
        p
    }

    /// Sets the column where the panel starts on screen.
    pub fn set_col_offset(&mut self, col_offset: usize)
        ensures
            final(self)@ == (DebugPanelView { col_offset, ..old(self)@ }),
    {
        self.col_offset = col_offset;
    }

    /// Recomputes the panel's lines from the session state (see
    /// `panel_lines`); the panel is marked for redraw when they changed.
    pub fn update(&mut self, state: &DebugState)
        ensures
            final(self)@ == old(self)@.updated(*state),
    {
        let mut lines: Vec<String> = Vec::new();
        let ghost spec_lines = panel_lines(*state, self.rows);
        if state.active {
            lines.push(literal_line("Debug Session"));
            let mut status: Vec<char> = Vec::new();
            push_str(&mut status, "Status: active  thread=");
            match state.current_thread_id {
                Some(id) => push_int(&mut status, id),
                None => push_str(&mut status, "-"),
            }
            lines.push(make_line(status));
            lines.push(literal_line("Frame"));
            if state.stack_frames.len() > 0 {
                let f = &state.stack_frames[0];
                let mut fl: Vec<char> = Vec::new();
                push_str(&mut fl, "  ");
                push_str(&mut fl, f.name.as_str());
                push_str(&mut fl, " (");
                push_str(&mut fl, f.source_path.as_str());
                push_str(&mut fl, ":");
                push_int(&mut fl, f.line);
                push_str(&mut fl, ":");
                push_int(&mut fl, f.column);
                push_str(&mut fl, ")");
                assert(fl@ =~= frame_line(f.name@, f.source_path@, f.line, f.column));
                lines.push(make_line(fl));
            } else {
                lines.push(literal_line("  -"));
            }
            lines.push(literal_line("Variables"));
            if state.variables.len() == 0 {
                lines.push(literal_line("  -"));
            } else {
                let shown = self.rows.saturating_sub(6);
                let n = if shown < state.variables.len() {
                    shown
                } else {
                    state.variables.len()
                };
                let ghost head = lines_view(lines@);
                let mut i: usize = 0;
                while i < n
                    invariant
                        i <= n,
                        n <= state.variables@.len(),
                        lines_view(lines@) == head + Seq::new(
                            i as nat,
                            |k: int|
                                variable_line(
                                    state.variables@[k].name@,
                                    state.variables@[k].value@,
                                ),
                        ),
                    decreases n - i,
                {
                    let v = &state.variables[i];
                    let mut vl: Vec<char> = Vec::new();
                    push_str(&mut vl, "  ");
                    push_str(&mut vl, v.name.as_str());
                    push_str(&mut vl, " = ");
                    push_str(&mut vl, v.value.as_str());
                    assert(vl@ =~= variable_line(v.name@, v.value@));
                    let line = make_line(vl);
                    let ghost before = lines_view(lines@);
                    lines.push(line);
                    assert(lines_view(lines@) =~= before.push(line@));
                    i = i + 1;
                    assert(lines_view(lines@) =~= head + Seq::new(
                        i as nat,
                        |k: int|
                            variable_line(state.variables@[k].name@, state.variables@[k].value@),
                    ));
                }
            }
        } else {
            lines.push(literal_line("Debug: inactive"));
        }
        assert(lines_view(lines@) =~= spec_lines);
        if !same_lines(&lines, &self.lines) {
            self.lines = lines;
            self.needs_redraw = true;
        }
    }

    /// Sets whether the panel must be redrawn.
    pub fn mark_redraw(&mut self, value: bool)
        ensures
            final(self)@ == (DebugPanelView { needs_redraw: value, ..old(self)@ }),
    {
        self.needs_redraw = value;
    }

    /// Whether the panel must be redrawn.
    pub fn needs_redraw(&self) -> (r: bool)
        ensures
            r == self@.needs_redraw,
    {
        self.needs_redraw
    }

    /// Sets the panel's window size.
    pub fn set_size(&mut self, size: Size)
        ensures
            final(self)@ == (DebugPanelView { size, ..old(self)@ }),
    {
        self.size = size;
    }

    /// The column where the panel starts on screen.
    pub fn col_offset(&self) -> (c: usize)
        ensures
            c == self@.col_offset,
    {
        self.col_offset
    }

    /// The lines to draw, one per row of the window: each panel line (or an
    /// empty one past the last) fitted to the width (see `panel_row_text`).
    pub fn render_lines(&self) -> (out: Vec<String>)
        ensures
            out@.len() == self@.size.height,
            forall|r: int|
                0 <= r < out@.len() ==> (#[trigger] out@[r])@ == panel_row_text(
                    if r < self@.lines.len() {
                        self@.lines[r]
                    } else {
                        Seq::<char>::empty()
                    },
                    self@.size.width as nat,
                ),
    {
        let h = self.size.height;
        let w = self.size.width;
        let mut out: Vec<String> = Vec::new();
        let mut row: usize = 0;
        while row < h
            invariant
                row <= h,
                h == self@.size.height,
                w == self@.size.width,
                out@.len() == row,
                forall|r: int|
                    0 <= r < row ==> (#[trigger] out@[r])@ == panel_row_text(
                        if r < self@.lines.len() {
                            self@.lines[r]
                        } else {
                            Seq::<char>::empty()
                        },
                        w as nat,
                    ),
            decreases h - row,
        {
            let text: &str = if row < self.lines.len() {
                assert(lines_view(self.lines@)[row as int] == self.lines@[row as int]@);
                self.lines[row].as_str()
            } else {
                ""
            };
            proof {
                if row >= self.lines@.len() {
                    assert(text@ =~= Seq::<char>::empty()) by {
                        reveal_strlit("");
                    }
                }
            }
            out.push(panel_row(text, w));
            row = row + 1;
        }
        out
    }
}

/// A string's UTF-8 encoding has at least one byte per character.
pub proof fn lemma_utf8_len_at_least_chars(s: Seq<char>)
    ensures
        encode_utf8(s).len() >= s.len(),
    decreases s.len(),
{
    if s.len() > 0 {
        lemma_utf8_len_at_least_chars(s.drop_first());
    }
}

/// Fits a panel line to `width` (see `panel_row_text`).
pub fn panel_row(text: &str, width: usize) -> (r: String)
    ensures
        r@ == panel_row_text(text@, width as nat),
{
    let chars = chars_of(text);
    let byte_len = text.as_bytes().len();
    if byte_len <= width {
        let mut v = chars;
        proof {
            lemma_utf8_len_at_least_chars(text@);
        }
        let pad = width - v.len();
        push_spaces(&mut v, pad);
        string_from_chars(v.as_slice())
    } else {
        let mut v: Vec<char> = Vec::new();
        let mut i: usize = 0;
        while i < chars.len() && i < width
            invariant
                i <= chars@.len(),
                i <= width,
                v@ == chars@.take(i as int),
            decreases chars.len() - i,
        {
            v.push(chars[i]);
            i = i + 1;
            assert(v@ =~= chars@.take(i as int));
        }
        proof {
            if chars@.len() <= width {
                assert(chars@.take(i as int) =~= chars@);
            }
        }
        string_from_chars(v.as_slice())
    }
}

} // verus!

verus! {

/// Updating a drawn panel again from the same session state asks for no
/// redraw: the lines are already those of that state.
pub proof fn law_update_again_needs_no_redraw(p: DebugPanelView, s: DebugState)
    ensures
        ({
            let drawn = DebugPanelView { needs_redraw: false, ..p.updated(s) };
            &&& drawn.updated(s) == drawn
            &&& !drawn.updated(s).needs_redraw
        }),
{
}

} // verus!

verus! {

/// For an active session the panel shows, in order, its title, the status
/// with the current thread, "Frame", the top (first, innermost) stack frame
/// as name, source path, line and column, or "  -" when there is none, and
/// "Variables"; an inactive session shows the one line "Debug: inactive".
pub proof fn law_panel_shows_top_frame(s: DebugState, rows: usize)
    ensures
        s.active ==> panel_lines(s, rows).len() >= 5,
        s.active ==> panel_lines(s, rows)[0] == "Debug Session"@,
        s.active ==> panel_lines(s, rows)[2] == "Frame"@,
        s.active ==> panel_lines(s, rows)[4] == "Variables"@,
        s.active && s.stack_frames@.len() > 0 ==> panel_lines(s, rows)[3] == "  "@
            + s.stack_frames@[0].name@ + " ("@ + s.stack_frames@[0].source_path@ + ":"@ + int_text(
            s.stack_frames@[0].line,
        ) + ":"@ + int_text(s.stack_frames@[0].column) + ")"@,
        s.active && s.stack_frames@.len() == 0 ==> panel_lines(s, rows)[3] == "  -"@,
        !s.active ==> panel_lines(s, rows) == seq!["Debug: inactive"@],
{
}

} // verus!
