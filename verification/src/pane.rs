use vstd::prelude::*;
use crate::geometry::{Position, Size};
use crate::scrollback::{ScrollbackBuffer, ScrollbackView, sat_sub};
use crate::vt::{VtParser, VtView, feed, feed_fits};
use crate::style::Cell;
use crate::text::spaces;
use crate::draw::{DrawOp, DrawOpView, ops_view, emit_op, emit_print, emit_spaces};

verus! {

/// The rows the terminal panel takes by default, its separator included.
pub const DEFAULT_PANEL_ROWS: usize = 12;

/// What the thread reading the shell's output reports.
pub enum PtyEvent {
    /// Output bytes.
    Data(Vec<u8>),
    /// The shell's output ended.
    Closed,
}

/// The abstract value of a reader event.
pub enum PtyEventView {
    Data(Seq<u8>),
    Closed,
}

impl View for PtyEvent {
    type V = PtyEventView;

    open spec fn view(&self) -> PtyEventView {
        match self {
            PtyEvent::Data(b) => PtyEventView::Data(b@),
            PtyEvent::Closed => PtyEventView::Closed,
        }
    }
}

/// The views of a sequence of events.
pub open spec fn events_view(v: Seq<PtyEvent>) -> Seq<PtyEventView> {
    v.map_values(|e: PtyEvent| e@)
}

/// The abstract state of the integrated terminal's panel.
pub struct PaneView {
    pub size: Size,
    pub rows: usize,
    pub needs_redraw: bool,
    pub buffer: ScrollbackView,
    pub vt: VtView,
    pub closed: bool,
}

impl PaneView {
    /// The parser and buffer are consistent.
    pub open spec fn wf(self) -> bool {
        self.buffer.wf() && self.vt.wf()
    }

    /// The panel after one reader event: output goes through the parser to
    /// the buffer; the end of output marks the session closed.
    pub open spec fn after_event(self, e: PtyEventView) -> PaneView {
        match e {
            PtyEventView::Data(b) => {
                let (vt, buf) = feed(self.vt, self.buffer, b);
                PaneView { vt, buffer: buf, ..self }
            },
            PtyEventView::Closed => PaneView { closed: true, ..self },
        }
    }

    /// The panel after events `es`, in order (redraw flag untouched).
    pub open spec fn after_events(self, es: Seq<PtyEventView>) -> PaneView
        decreases es.len(),
    {
        if es.len() == 0 {
            self
        } else {
            self.after_events(es.drop_last()).after_event(es.last())
        }
    }

    /// The panel `q` is where processing of `es` stopped inside event `k`,
    /// whose data overflows: the events before it were applied, then some
    /// leading bytes of its data (redraw flag untouched).
    pub open spec fn stopped_in_event(self, es: Seq<PtyEventView>, k: int, q: PaneView) -> bool {
        let a = self.after_events(es.take(k));
        let data = es[k]->Data_0;
        exists|j: int|
            0 <= j < data.len() && q == (PaneView {
                vt: feed(a.vt, a.buffer, data.take(j)).0,
                buffer: feed(a.vt, a.buffer, data.take(j)).1,
                needs_redraw: self.needs_redraw,
                ..a
            })
    }

    /// Every event of `es` is processed without overflow.
    pub open spec fn events_fit(self, es: Seq<PtyEventView>) -> bool
        decreases es.len(),
    {
        if es.len() == 0 {
            true
        } else {
            self.events_fit(es.drop_last()) && match es.last() {
                PtyEventView::Data(b) => feed_fits(
                    self.after_events(es.drop_last()).vt,
                    self.after_events(es.drop_last()).buffer,
                    b,
                ),
                PtyEventView::Closed => true,
            }
        }
    }
}

/// The commands that draw one cell: its colors (the default foreground when
/// it has none), its weight, then its character.
pub open spec fn cell_ops(c: Cell) -> Seq<DrawOpView> {
    (match c.fg {
        Some(f) => seq![DrawOpView::SetForeground(f)],
        None => seq![DrawOpView::ResetColor],
    }) + (match c.bg {
        Some(b) => seq![DrawOpView::SetBackground(b)],
        None => Seq::<DrawOpView>::empty(),
    }) + (if c.bold {
        seq![DrawOpView::SetBold]
    } else {
        seq![DrawOpView::SetNormalIntensity]
    }) + seq![DrawOpView::Print(seq![c.ch])]
}

/// The commands that draw `cells` in order.
pub open spec fn cells_ops(cells: Seq<Cell>) -> Seq<DrawOpView>
    decreases cells.len(),
{
    if cells.len() == 0 {
        Seq::<DrawOpView>::empty()
    } else {
        cells_ops(cells.drop_last()) + cell_ops(cells.last())
    }
}

/// The commands that draw screen line `row` of the panel below its
/// separator on row `origin_y`: the line is cleared, the buffer's row shown
/// there (if any) is drawn, and the rest of the `width` columns filled with spaces.
pub open spec fn pane_row_ops(buf: ScrollbackView, origin_y: int, width: int, row: int) -> Seq<
    DrawOpView,
> {
    let idx = buf.screen_origin + row;
    let head = seq![
        DrawOpView::MoveTo(Position { row: (origin_y + 1 + row) as usize, col: 0 }),
        DrawOpView::ClearCurrentLine,
    ];
    let body = if idx < buf.rows.len() {
        cells_ops(buf.rows[idx]) + seq![DrawOpView::ResetColor, DrawOpView::ResetAttributes]
    } else {
        Seq::<DrawOpView>::empty()
    };
    let used = if idx < buf.rows.len() {
        buf.rows[idx].len() as int
    } else {
        0
    };
    let pad = if used < width {
        seq![DrawOpView::Print(spaces((width - used) as nat))]
    } else {
        Seq::<DrawOpView>::empty()
    };
    head + body + pad
}

/// The commands that draw the first `n` screen lines of the panel.
pub open spec fn pane_rows_ops(buf: ScrollbackView, origin_y: int, width: int, n: nat) -> Seq<
    DrawOpView,
>
    decreases n,
{
    if n == 0 {
        Seq::<DrawOpView>::empty()
    } else {
        pane_rows_ops(buf, origin_y, width, (n - 1) as nat) + pane_row_ops(
            buf,
            origin_y,
            width,
            n - 1,
        )
    }
}

/// The separator line above the panel: `w` box-drawing horizontal lines.
pub open spec fn separator(w: nat) -> Seq<char> {
    Seq::new(w, |_i: int| '\u{2500}')
}

impl PaneView {
    /// The commands that draw the panel from screen row `origin_y`: the
    /// separator, then the screen's lines below it.
    pub open spec fn draw_plan(self, origin_y: int) -> Seq<DrawOpView> {
        seq![
            DrawOpView::MoveTo(Position { row: origin_y as usize, col: 0 }),
            DrawOpView::Print(separator(self.size.width as nat)),
        ] + pane_rows_ops(
            self.buffer,
            origin_y,
            self.size.width as int,
            sat_sub(self.rows as int, 1) as nat,
        )
    }
}

fn emit_cell(out: &mut Vec<DrawOp>, c: Cell)
    ensures
        ops_view(final(out)@) == ops_view(old(out)@) + cell_ops(c),
{
    let ghost before = ops_view(out@);
    match c.fg {
        Some(f) => emit_op(out, DrawOp::SetForeground(f)),
        None => emit_op(out, DrawOp::ResetColor),
    }
    match c.bg {
        Some(b) => emit_op(out, DrawOp::SetBackground(b)),
        None => {},
    }
    if c.bold {
        emit_op(out, DrawOp::SetBold);
    } else {
        emit_op(out, DrawOp::SetNormalIntensity);
    }
    let mut ch: Vec<char> = Vec::new();
    ch.push(c.ch);
    assert(ch@ =~= seq![c.ch]);
    emit_print(out, ch.as_slice());
    assert(ops_view(out@) =~= before + cell_ops(c));
}

fn emit_pane_row(out: &mut Vec<DrawOp>, buf: &ScrollbackBuffer, origin_y: usize, width: usize, row: usize)
    requires
        buf.wf(),
        origin_y + 1 + row <= usize::MAX,
        buf@.screen_origin + row <= usize::MAX,
    ensures
        ops_view(final(out)@) == ops_view(old(out)@) + pane_row_ops(
            buf@,
            origin_y as int,
            width as int,
            row as int,
        ),
{
    let ghost before = ops_view(out@);
    emit_op(out, DrawOp::MoveTo(Position { row: origin_y + 1 + row, col: 0 }));
    emit_op(out, DrawOp::ClearCurrentLine);
    let ghost after_head = ops_view(out@);
    let idx = buf.screen_origin() + row;
    let mut used: usize = 0;
    match buf.row(idx) {
        Some(r) => {
            let mut j: usize = 0;
            while j < r.cells.len()
                invariant
                    j <= r.cells@.len(),
                    ops_view(out@) == after_head + cells_ops(r.cells@.take(j as int)),
                decreases r.cells.len() - j,
            {
                assert(r.cells@.take(j + 1).drop_last() =~= r.cells@.take(j as int));
                emit_cell(out, r.cells[j]);
                j = j + 1;
            }
            assert(r.cells@.take(j as int) =~= r.cells@);
            emit_op(out, DrawOp::ResetColor);
            emit_op(out, DrawOp::ResetAttributes);
            used = r.cells.len();
        },
        None => {},
    }
    let ghost after_body = ops_view(out@);
    if used < width {
        emit_spaces(out, width - used);
    }
    assert(ops_view(out@) =~= before + pane_row_ops(buf@, origin_y as int, width as int, row as int));
}

/// The integrated terminal's panel: the emulated screen of the shell's output.
pub struct TerminalPane {
    pub size: Size,
    pub rows: usize,
    needs_redraw: bool,
    buffer: ScrollbackBuffer,
    vt: VtParser,
    closed: bool,
}

impl View for TerminalPane {
    type V = PaneView;

    closed spec fn view(&self) -> PaneView {
        PaneView {
            size: self.size,
            rows: self.rows,
            needs_redraw: self.needs_redraw,
            buffer: self.buffer@,
            vt: self.vt@,
            closed: self.closed,
        }
    }
}

impl TerminalPane {
    /// The panel's invariant (see `PaneView::wf`).
    pub open spec fn wf(&self) -> bool {
        self@.wf()
    }

    /// An idle panel of the default height with an empty screen.
    pub fn new() -> (p: TerminalPane)
        ensures
            p.wf(),
            p@.size == (Size { height: 0, width: 0 }),
            p@.rows == DEFAULT_PANEL_ROWS,
            !p@.needs_redraw,
            !p@.closed,
            p@.buffer == ScrollbackBuffer::new_view(),
            p@.vt == VtView::initial(),
    {
        TerminalPane {
            size: Size { height: 0, width: 0 },
            rows: DEFAULT_PANEL_ROWS,
            needs_redraw: false,
            buffer: ScrollbackBuffer::new(),
            vt: VtParser::new(),
            closed: false,
        }
    }

    /// Records that a shell session started on a screen `cols` wide: the
    /// buffer's screen takes the panel's rows below its separator.
    pub fn start(&mut self, cols: u16)
        requires
            old(self).wf(),
        ensures
            final(self).wf(),
            final(self)@ == (PaneView {
                closed: false,
                buffer: ScrollbackView {
                    screen_cols: cols as int,
                    screen_rows: sat_sub(old(self)@.rows as int, 1),
                    ..old(self)@.buffer
                },
                ..old(self)@
            }),
    {
        self.closed = false;
        let content_rows = self.rows.saturating_sub(1);
        self.buffer.set_screen_size(cols as usize, content_rows);
    }

    /// Records that the shell session was stopped.
    pub fn stop(&mut self)
        requires
            old(self).wf(),
        ensures
            final(self).wf(),
            final(self)@ == (PaneView { closed: false, ..old(self)@ }),
    {
        self.closed = false;
    }

    /// Records a new screen width `cols` for the shell.
    pub fn resize_pty(&mut self, cols: u16)
        requires
            old(self).wf(),
        ensures
            final(self).wf(),
            final(self)@ == (PaneView {
                buffer: ScrollbackView {
                    screen_cols: cols as int,
                    screen_rows: sat_sub(old(self)@.rows as int, 1),
                    ..old(self)@.buffer
                },
                ..old(self)@
            }),
    {
        let content_rows = self.rows.saturating_sub(1);
        self.buffer.set_screen_size(cols as usize, content_rows);
    }

    /// Applies the reader's events in order (see `PaneView::after_events`);
    /// returns whether there were any, and then marks the panel for redraw.
    /// Returns `Err(k)` when event `k` holds a byte whose processing would
    /// overflow, before applying that byte.
    pub fn poll(&mut self, events: Vec<PtyEvent>) -> (r: Result<bool, usize>)
        requires
            old(self).wf(),
        ensures
            final(self).wf(),
            r is Ok <==> old(self)@.events_fit(events_view(events@)),
            r matches Err(k) ==> {
                &&& k < events@.len()
                &&& old(self)@.events_fit(events_view(events@).take(k as int))
                &&& !old(self)@.events_fit(events_view(events@).take(k + 1))
                &&& events_view(events@)[k as int] is Data
                &&& old(self)@.stopped_in_event(events_view(events@), k as int, final(self)@)
            },
            r matches Ok(updated) ==> {
                &&& updated == (events@.len() > 0)
                &&& final(self)@ == (PaneView {
                    needs_redraw: old(self)@.needs_redraw || updated,
                    ..old(self)@.after_events(events_view(events@))
                })
            },
    {
        let ghost p0 = self@;
        let ghost ev = events_view(events@);
        let mut i: usize = 0;
        assert(ev.take(0) =~= Seq::<PtyEventView>::empty());
        while i < events.len()
            invariant
                i <= events@.len(),
                p0 == old(self)@,
                ev == events_view(events@),
                self.wf(),
                p0.events_fit(ev.take(i as int)),
                self@ == (PaneView { needs_redraw: p0.needs_redraw, ..p0.after_events(ev.take(i as int)) }),
            decreases events.len() - i,
        {
            assert(ev.take(i + 1).drop_last() =~= ev.take(i as int));
            assert(ev.take(i + 1).last() == events@[i as int]@);
            let ghost before = self@;
            match &events[i] {
                PtyEvent::Data(bytes) => {
                    assert(ev[i as int] == PtyEventView::Data(bytes@));
                    match self.vt.feed_checked(bytes.as_slice(), &mut self.buffer) {
                        Some(j) => {
                            proof {
                                let a = p0.after_events(ev.take(i as int));
                                assert(self@ == (PaneView {
                                    vt: feed(a.vt, a.buffer, bytes@.take(j as int)).0,
                                    buffer: feed(a.vt, a.buffer, bytes@.take(j as int)).1,
                                    needs_redraw: p0.needs_redraw,
                                    ..a
                                }));
                                lemma_events_fit_prefix(p0, ev, i + 1);
                                assert(!feed_fits(before.vt, before.buffer, bytes@));
                                assert(!p0.events_fit(ev.take(i + 1)));
                            }
                            return Err(i);
                        },
                        None => {},
                    }
                },
                PtyEvent::Closed => {
                    self.closed = true;
                },
            }
            i = i + 1;
        }
        assert(ev.take(i as int) =~= ev);
        let updated = events.len() > 0;
        if updated {
            self.needs_redraw = true;
        }
        Ok(updated)
    }

    /// The screen position of the shell's cursor in a panel drawn from
    /// screen row `origin_y` (its separator on that row).
    pub fn cursor_position(&self, origin_y: usize) -> (p: Position)
        requires
            self.wf(),
            origin_y + 1 + (self@.buffer.cursor_row - self@.buffer.screen_origin) <= usize::MAX,
        ensures
            p.row == origin_y + 1 + (self@.buffer.cursor_row - self@.buffer.screen_origin),
            p.col == self@.buffer.cursor_col,
    {
        let screen_row = self.buffer.cursor_row().saturating_sub(self.buffer.screen_origin());
        Position { row: origin_y + 1 + screen_row, col: self.buffer.cursor_col() }
    }

    /// Whether the panel must be redrawn.
    pub fn needs_redraw(&self) -> (r: bool)
        ensures
            r == self@.needs_redraw,
    {
        self.needs_redraw
    }

    /// Sets whether the panel must be redrawn.
    pub fn mark_redraw(&mut self, v: bool)
        requires
            old(self).wf(),
        ensures
            final(self).wf(),
            final(self)@ == (PaneView { needs_redraw: v, ..old(self)@ }),
    {
        self.needs_redraw = v;
    }

    /// Whether the shell's output ended.
    pub fn is_closed(&self) -> (r: bool)
        ensures
            r == self@.closed,
    {
        self.closed
    }

    /// The commands that draw the panel from screen row `origin_y` (see
    /// `PaneView::draw_plan`); the panel no longer needs a redraw.
    pub fn draw(&mut self, origin_y: usize) -> (ops: Vec<DrawOp>)
        requires
            old(self).wf(),
            origin_y + old(self)@.rows <= usize::MAX,
            old(self)@.buffer.screen_origin + old(self)@.rows <= usize::MAX,
        ensures
            final(self).wf(),
            final(self)@ == (PaneView { needs_redraw: false, ..old(self)@ }),
            ops_view(ops@) == old(self)@.draw_plan(origin_y as int),
    {
        let mut out: Vec<DrawOp> = Vec::new();
        let w = self.size.width;
        emit_op(&mut out, DrawOp::MoveTo(Position { row: origin_y, col: 0 }));
        let mut line: Vec<char> = Vec::new();
        let mut k: usize = 0;
        while k < w
            invariant
                k <= w,
                line@ == separator(k as nat),
            decreases w - k,
        {
            line.push('\u{2500}');
            k = k + 1;
            assert(line@ =~= separator(k as nat));
        }
        emit_print(&mut out, line.as_slice());
        let ghost head = ops_view(out@);
        let content_rows = self.rows.saturating_sub(1);
        let mut row: usize = 0;
        while row < content_rows
            invariant
                self.wf(),
                row <= content_rows,
                content_rows == sat_sub(self@.rows as int, 1),
                origin_y + self@.rows <= usize::MAX,
                self@.buffer.screen_origin + self@.rows <= usize::MAX,
                ops_view(out@) == head + pane_rows_ops(
                    self@.buffer,
                    origin_y as int,
                    w as int,
                    row as nat,
                ),
            decreases content_rows - row,
        {
            emit_pane_row(&mut out, &self.buffer, origin_y, w, row);
            row = row + 1;
            assert(ops_view(out@) =~= head + pane_rows_ops(self@.buffer, origin_y as int, w as int, row as nat));
        }
        self.needs_redraw = false;
        out
    }

    /// The emulated screen.
    pub fn buffer(&self) -> (b: &ScrollbackBuffer)
        ensures
            b@ == self@.buffer,
    {
        &self.buffer
    }
}

/// If all events fit, so do those of each prefix.
pub proof fn lemma_events_fit_prefix(p: PaneView, es: Seq<PtyEventView>, k: int)
    requires
        0 <= k <= es.len(),
    ensures
        p.events_fit(es) ==> p.events_fit(es.take(k)),
    decreases es.len(),
{
    if k == es.len() {
        assert(es.take(k) =~= es);
    } else {
        assert(es.drop_last().take(k) =~= es.take(k));
        lemma_events_fit_prefix(p, es.drop_last(), k);
    }
}

} // verus!
