use vstd::prelude::*;
use crate::style::{Cell, blank_cell};

verus! {

/// Cells past this column are never stored in a row.
pub const LINE_MAX_BYTES: usize = 1024;

/// The most rows the scrollback keeps; older rows are dropped first.
pub const SCROLLBACK_MAX_LINES: usize = 10000;

/// `n` blank cells.
pub open spec fn blank_cells(n: nat) -> Seq<Cell> {
    Seq::new(n, |_i: int| blank_cell())
}

/// `cells`, extended with blank cells to at least `n` cells.
pub open spec fn padded_to(cells: Seq<Cell>, n: int) -> Seq<Cell> {
    if cells.len() >= n {
        cells
    } else {
        cells + blank_cells((n - cells.len()) as nat)
    }
}

/// The row after writing `cell` at column `col`: columns at or past the line
/// limit are ignored; a shorter row is first padded with blanks.
pub open spec fn row_write_at(cells: Seq<Cell>, col: int, cell: Cell) -> Seq<Cell> {
    if col >= LINE_MAX_BYTES {
        cells
    } else {
        padded_to(cells, col + 1).update(col, cell)
    }
}

/// The row cut off at column `col` (all cells from `col` on removed).
pub open spec fn row_clear_from(cells: Seq<Cell>, col: int) -> Seq<Cell> {
    if col < cells.len() {
        cells.take(col)
    } else {
        cells
    }
}

/// The row with every cell before column `col` blanked; its length is kept.
pub open spec fn row_clear_to(cells: Seq<Cell>, col: int) -> Seq<Cell> {
    Seq::new(cells.len(), |i: int| if i < col { blank_cell() } else { cells[i] })
}

/// One row of terminal output.
#[derive(Clone)]
pub struct Row {
    pub cells: Vec<Cell>,
}

impl View for Row {
    type V = Seq<Cell>;

    open spec fn view(&self) -> Seq<Cell> {
        self.cells@
    }
}

impl Row {
    /// An empty row.
    pub fn new() -> (r: Row)
        ensures
            r@ == Seq::<Cell>::empty(),
    {
        Row { cells: Vec::new() }
    }

    /// Writes `cell` at column `col`, padding the row with blanks up to it.
    pub fn write_at(&mut self, col: usize, cell: Cell)
        ensures
            final(self)@ == row_write_at(old(self)@, col as int, cell),
    {
        if col >= LINE_MAX_BYTES {
            return;
        }
        let ghost start = self.cells@;
        if self.cells.len() <= col {
            while self.cells.len() <= col
                invariant
                    start.len() <= self.cells@.len() <= col + 1,
                    self.cells@ == start + blank_cells((self.cells@.len() - start.len()) as nat),
                decreases col + 1 - self.cells.len(),
            {
                self.cells.push(Cell::blank());
                assert(blank_cells((self.cells@.len() - start.len()) as nat) =~= blank_cells(
                    (self.cells@.len() - 1 - start.len()) as nat,
                ).push(blank_cell()));
            }
        }
        assert(self.cells@ =~= padded_to(start, col + 1));
        self.cells.set(col, cell);
    }

    /// Removes every cell from column `col` on.
    pub fn clear_from(&mut self, col: usize)
        ensures
            final(self)@ == row_clear_from(old(self)@, col as int),
    {
        self.cells.truncate(col);
    }

    /// Blanks every cell before column `col`.
    pub fn clear_to(&mut self, col: usize)
        ensures
            final(self)@ == row_clear_to(old(self)@, col as int),
    {
        let ghost start = self.cells@;
        let end = if col < self.cells.len() { col } else { self.cells.len() };
        let mut i: usize = 0;
        while i < end
            invariant
                end <= self.cells@.len() == start.len(),
                end as int == if col < start.len() { col as int } else { start.len() as int },
                i <= end,
                forall|j: int| 0 <= j < i ==> self.cells@[j] == blank_cell(),
                forall|j: int| i <= j < start.len() ==> self.cells@[j] == start[j],
            decreases end - i,
        {
            self.cells.set(i, Cell::blank());
            i += 1;
        }
        assert(self.cells@ =~= row_clear_to(start, col as int));
    }

    /// Removes every cell.
    pub fn clear(&mut self)
        ensures
            final(self)@ == Seq::<Cell>::empty(),
    {
        self.cells.clear();
    }
}

} // verus!

verus! {

/// `n` empty rows.
pub open spec fn empty_rows(n: nat) -> Seq<Seq<Cell>> {
    Seq::new(n, |_i: int| Seq::<Cell>::empty())
}

/// `a - b`, or 0 when `b` exceeds `a`.
pub open spec fn sat_sub(a: int, b: int) -> int {
    if a >= b {
        a - b
    } else {
        0
    }
}

/// The abstract state of a scrollback buffer: every row of output kept so far,
/// the cursor, the visible screen's size, and the index of the row shown at the
/// top of the screen.
pub struct ScrollbackView {
    pub rows: Seq<Seq<Cell>>,
    pub cursor_row: int,
    pub cursor_col: int,
    pub screen_rows: int,
    pub screen_cols: int,
    pub screen_origin: int,
}

impl ScrollbackView {
    /// The state invariant: there is at least one row, the cursor is on an
    /// existing row, and the screen's top row is not below the cursor.
    pub open spec fn wf(self) -> bool {
        &&& 0 <= self.screen_origin <= self.cursor_row < self.rows.len()
        &&& 0 <= self.cursor_col
        &&& 0 <= self.screen_rows
        &&& 0 <= self.screen_cols
    }

    /// The same state with the rows replaced.
    pub open spec fn with_rows(self, rows: Seq<Seq<Cell>>) -> ScrollbackView {
        ScrollbackView { rows, ..self }
    }

    /// The same state with the cursor moved.
    pub open spec fn with_cursor(self, row: int, col: int) -> ScrollbackView {
        ScrollbackView { cursor_row: row, cursor_col: col, ..self }
    }

    /// The rows extended with empty rows so that the cursor's row exists.
    pub open spec fn ensure_cursor_row(self) -> ScrollbackView {
        if self.rows.len() > self.cursor_row {
            self
        } else {
            self.with_rows(self.rows + empty_rows((self.cursor_row + 1 - self.rows.len()) as nat))
        }
    }

    /// Drops the oldest rows beyond the scrollback limit, moving the cursor and
    /// the screen's top row up by as many rows (not below row 0).
    pub open spec fn trim_scrollback(self) -> ScrollbackView {
        if self.rows.len() > SCROLLBACK_MAX_LINES {
            let excess = self.rows.len() - SCROLLBACK_MAX_LINES;
            ScrollbackView {
                rows: self.rows.skip(excess),
                cursor_row: sat_sub(self.cursor_row, excess),
                screen_origin: sat_sub(self.screen_origin, excess),
                ..self
            }
        } else {
            self
        }
    }

    /// Line feed: the cursor goes one row down (keeping its column); the screen
    /// scrolls so the cursor stays on it; old rows are trimmed.
    pub open spec fn newline(self) -> ScrollbackView {
        let moved = self.with_cursor(self.cursor_row + 1, self.cursor_col).ensure_cursor_row();
        let scrolled = if moved.screen_rows > 0 && moved.cursor_row >= moved.screen_origin
            + moved.screen_rows {
            ScrollbackView {
                screen_origin: moved.cursor_row + 1 - moved.screen_rows,
                ..moved
            }
        } else {
            moved
        };
        scrolled.trim_scrollback()
    }

    /// `newline` computes without overflow.
    pub open spec fn newline_fits(self) -> bool {
        self.screen_rows > 0 ==> self.screen_origin + self.screen_rows <= usize::MAX
    }

    /// Writes one printable cell at the cursor and advances the cursor; at the
    /// right edge of a screen of known width the cursor first wraps to the next line.
    pub open spec fn write_cell(self, cell: Cell) -> ScrollbackView {
        let wrapped = if self.screen_cols > 0 && self.cursor_col >= self.screen_cols {
            self.with_cursor(self.cursor_row, 0).newline()
        } else {
            self
        };
        let r = wrapped.cursor_row;
        let c = wrapped.cursor_col;
        wrapped.with_rows(wrapped.rows.update(r, row_write_at(wrapped.rows[r], c, cell))).with_cursor(
            r,
            c + 1,
        )
    }

    /// `write_cell` computes without overflow.
    pub open spec fn write_cell_fits(self) -> bool {
        if self.screen_cols > 0 && self.cursor_col >= self.screen_cols {
            self.with_cursor(self.cursor_row, 0).newline_fits()
        } else {
            self.cursor_col < usize::MAX
        }
    }

    /// Cursor to 1-based screen position (`vt_row`, `vt_col`); 0 counts as 1.
    pub open spec fn set_cursor_position(self, vt_row: int, vt_col: int) -> ScrollbackView {
        self.with_cursor(
            self.screen_origin + sat_sub(vt_row, 1),
            sat_sub(vt_col, 1),
        ).ensure_cursor_row()
    }

    /// Cursor `n` rows up, not above the screen's top row.
    pub open spec fn move_cursor_up(self, n: int) -> ScrollbackView {
        let r = sat_sub(self.cursor_row, n);
        self.with_cursor(if r < self.screen_origin { self.screen_origin } else { r }, self.cursor_col)
    }

    /// Cursor `n` rows down, not below the screen's bottom row when the
    /// screen's height is known.
    pub open spec fn move_cursor_down(self, n: int) -> ScrollbackView {
        let r = self.cursor_row + n;
        let bottom = self.screen_origin + self.screen_rows - 1;
        let r2 = if self.screen_rows > 0 && r > bottom { bottom } else { r };
        self.with_cursor(r2, self.cursor_col).ensure_cursor_row()
    }

    /// `move_cursor_down` computes without overflow.
    pub open spec fn move_cursor_down_fits(self, n: int) -> bool {
        &&& self.cursor_row + n <= usize::MAX
        &&& self.screen_rows > 0 ==> self.screen_origin + self.screen_rows <= usize::MAX
    }

    /// Cursor `n` columns right, not past the screen's last column when its
    /// width is known.
    pub open spec fn move_cursor_forward(self, n: int) -> ScrollbackView {
        let c = self.cursor_col + n;
        self.with_cursor(
            self.cursor_row,
            if self.screen_cols > 0 && c >= self.screen_cols { self.screen_cols - 1 } else { c },
        )
    }

    /// Erase in line: 0 clears from the cursor to the end of the row, 1 blanks
    /// the row up to and including the cursor, 2 clears the row; other modes do nothing.
    pub open spec fn erase_in_line(self, mode: u8) -> ScrollbackView {
        let r = self.cursor_row;
        let row = self.rows[r];
        if mode == 0 {
            self.with_rows(self.rows.update(r, row_clear_from(row, self.cursor_col)))
        } else if mode == 1 {
            self.with_rows(self.rows.update(r, row_clear_to(row, self.cursor_col + 1)))
        } else if mode == 2 {
            self.with_rows(self.rows.update(r, Seq::<Cell>::empty()))
        } else {
            self
        }
    }

    /// One past the last row of the screen that exists.
    pub open spec fn screen_end(self) -> int {
        if self.screen_rows > 0 {
            if self.screen_origin + self.screen_rows < self.rows.len() {
                self.screen_origin + self.screen_rows
            } else {
                self.rows.len() as int
            }
        } else {
            self.rows.len() as int
        }
    }

    /// Erase in display: 0 clears from the cursor to the end of the screen,
    /// 1 clears from the screen's top to the cursor (inclusive), 2 clears the
    /// screen, 3 drops all output and homes the cursor; other modes do nothing.
    pub open spec fn erase_in_display(self, mode: u8) -> ScrollbackView {
        let r = self.cursor_row;
        let end = self.screen_end();
        if mode == 0 {
            self.with_rows(
                Seq::new(
                    self.rows.len(),
                    |i: int|
                        if i == r {
                            row_clear_from(self.rows[i], self.cursor_col)
                        } else if r < i < end {
                            Seq::<Cell>::empty()
                        } else {
                            self.rows[i]
                        },
                ),
            )
        } else if mode == 1 {
            self.with_rows(
                Seq::new(
                    self.rows.len(),
                    |i: int|
                        if i == r {
                            row_clear_to(self.rows[i], self.cursor_col + 1)
                        } else if self.screen_origin <= i < r {
                            Seq::<Cell>::empty()
                        } else {
                            self.rows[i]
                        },
                ),
            )
        } else if mode == 2 {
            self.with_rows(
                Seq::new(
                    self.rows.len(),
                    |i: int|
                        if self.screen_origin <= i < end {
                            Seq::<Cell>::empty()
                        } else {
                            self.rows[i]
                        },
                ),
            )
        } else if mode == 3 {
            ScrollbackView {
                rows: seq![Seq::<Cell>::empty()],
                cursor_row: 0,
                cursor_col: 0,
                screen_origin: 0,
                ..self
            }
        } else {
            self
        }
    }

    /// `erase_in_display` computes without overflow.
    pub open spec fn erase_in_display_fits(self, mode: u8) -> bool {
        &&& self.screen_rows > 0 ==> self.screen_origin + self.screen_rows <= usize::MAX
        &&& mode == 1 ==> self.cursor_col < usize::MAX
    }
}

} // verus!

verus! {

/// The rows of terminal output with a cursor and a visible screen region.
pub struct ScrollbackBuffer {
    rows: Vec<Row>,
    cursor_row: usize,
    cursor_col: usize,
    screen_rows: usize,
    screen_cols: usize,
    screen_origin: usize,
}

/// The cells of each row.
pub open spec fn rows_view(rows: Seq<Row>) -> Seq<Seq<Cell>> {
    rows.map_values(|r: Row| r@)
}

impl View for ScrollbackBuffer {
    type V = ScrollbackView;

    closed spec fn view(&self) -> ScrollbackView {
        ScrollbackView {
            rows: rows_view(self.rows@),
            cursor_row: self.cursor_row as int,
            cursor_col: self.cursor_col as int,
            screen_rows: self.screen_rows as int,
            screen_cols: self.screen_cols as int,
            screen_origin: self.screen_origin as int,
        }
    }
}

impl ScrollbackBuffer {
    /// The state invariant (see `ScrollbackView::wf`).
    pub open spec fn wf(&self) -> bool {
        self@.wf()
    }

    /// The state of a new buffer: one empty row, the cursor at its start
    /// and no screen size yet.
    pub open spec fn new_view() -> ScrollbackView {
        ScrollbackView {
            rows: seq![Seq::<Cell>::empty()],
            cursor_row: 0,
            cursor_col: 0,
            screen_rows: 0,
            screen_cols: 0,
            screen_origin: 0,
        }
    }

    /// A new buffer (see `new_view`).
    pub fn new() -> (b: ScrollbackBuffer)
        ensures
            b.wf(),
            b@ == ScrollbackBuffer::new_view(),
    {
        let mut rows = Vec::new();
        rows.push(Row::new());
        let b = ScrollbackBuffer {
            rows,
            cursor_row: 0,
            cursor_col: 0,
            screen_rows: 0,
            screen_cols: 0,
            screen_origin: 0,
        };
        assert(b@.rows =~= seq![Seq::<Cell>::empty()]);
        b
    }

    /// Sets the visible screen's size.
    pub fn set_screen_size(&mut self, cols: usize, rows: usize)
        requires
            old(self).wf(),
        ensures
            final(self).wf(),
            final(self)@ == (ScrollbackView {
                screen_cols: cols as int,
                screen_rows: rows as int,
                ..old(self)@
            }),
    {
        self.screen_cols = cols;
        self.screen_rows = rows;
    }

    /// Line feed (see `ScrollbackView::newline`).
    pub fn newline(&mut self)
        requires
            old(self).wf(),
            old(self)@.newline_fits(),
        ensures
            final(self).wf(),
            final(self)@ == old(self)@.newline(),
    {
        let n = self.rows.len();
        assert(self.cursor_row < n);
        self.cursor_row = self.cursor_row + 1;
        self.ensure_cursor_row();
        let n = self.rows.len();
        assert(self.cursor_row < n);
        if self.screen_rows > 0 && self.cursor_row >= self.screen_origin + self.screen_rows {
            self.screen_origin = self.cursor_row + 1 - self.screen_rows;
        }
        self.trim_scrollback();
    }

    /// Writes one cell at the cursor (see `ScrollbackView::write_cell`).
    pub fn write_cell(&mut self, cell: Cell)
        requires
            old(self).wf(),
            old(self)@.write_cell_fits(),
        ensures
            final(self).wf(),
            final(self)@ == old(self)@.write_cell(cell),
    {
        if self.screen_cols > 0 && self.cursor_col >= self.screen_cols {
            self.cursor_col = 0;
            self.newline();
        }
        self.ensure_cursor_row();
        let ghost before = self.rows@;
        let r = self.cursor_row;
        self.rows[r].write_at(self.cursor_col, cell);
        assert(rows_view(self.rows@) =~= rows_view(before).update(
            r as int,
            row_write_at(rows_view(before)[r as int], self.cursor_col as int, cell),
        ));
        self.cursor_col = self.cursor_col + 1;
    }

    /// Carriage return: the cursor goes to column 0.
    pub fn carriage_return(&mut self)
        requires
            old(self).wf(),
        ensures
            final(self).wf(),
            final(self)@ == old(self)@.with_cursor(old(self)@.cursor_row, 0),
    {
        self.cursor_col = 0;
    }

    /// Backspace: the cursor goes one column left, not past column 0.
    pub fn backspace(&mut self)
        requires
            old(self).wf(),
        ensures
            final(self).wf(),
            final(self)@ == old(self)@.with_cursor(
                old(self)@.cursor_row,
                sat_sub(old(self)@.cursor_col, 1),
            ),
    {
        self.cursor_col = self.cursor_col.saturating_sub(1);
    }

    /// Moves the cursor to the 1-based screen position (`vt_row`, `vt_col`), as
    /// the CSI H and CSI f sequences ask; 0 counts as 1.
    pub fn set_cursor_position(&mut self, vt_row: usize, vt_col: usize)
        requires
            old(self).wf(),
            old(self)@.screen_origin + sat_sub(vt_row as int, 1) <= usize::MAX,
        ensures
            final(self).wf(),
            final(self)@ == old(self)@.set_cursor_position(vt_row as int, vt_col as int),
    {
        let row = vt_row.saturating_sub(1);
        let col = vt_col.saturating_sub(1);
        self.cursor_row = self.screen_origin + row;
        self.cursor_col = col;
        self.ensure_cursor_row();
    }

    /// Moves the cursor to column `col` of its row.
    pub fn set_cursor_col(&mut self, col: usize)
        requires
            old(self).wf(),
        ensures
            final(self).wf(),
            final(self)@ == old(self)@.with_cursor(old(self)@.cursor_row, col as int),
    {
        self.cursor_col = col;
    }

    /// Cursor up (see `ScrollbackView::move_cursor_up`).
    pub fn move_cursor_up(&mut self, n: usize)
        requires
            old(self).wf(),
        ensures
            final(self).wf(),
            final(self)@ == old(self)@.move_cursor_up(n as int),
    {
        self.cursor_row = self.cursor_row.saturating_sub(n);
        if self.cursor_row < self.screen_origin {
            self.cursor_row = self.screen_origin;
        }
    }

    /// Cursor down (see `ScrollbackView::move_cursor_down`).
    pub fn move_cursor_down(&mut self, n: usize)
        requires
            old(self).wf(),
            old(self)@.move_cursor_down_fits(n as int),
        ensures
            final(self).wf(),
            final(self)@ == old(self)@.move_cursor_down(n as int),
    {
        self.cursor_row = self.cursor_row + n;
        if self.screen_rows > 0 {
            let bottom = self.screen_origin + self.screen_rows - 1;
            if self.cursor_row > bottom {
                self.cursor_row = bottom;
            }
        }
        self.ensure_cursor_row();
    }

    /// Cursor right (see `ScrollbackView::move_cursor_forward`).
    pub fn move_cursor_forward(&mut self, n: usize)
        requires
            old(self).wf(),
            old(self)@.cursor_col + n <= usize::MAX,
        ensures
            final(self).wf(),
            final(self)@ == old(self)@.move_cursor_forward(n as int),
    {
        self.cursor_col = self.cursor_col + n;
        if self.screen_cols > 0 && self.cursor_col >= self.screen_cols {
            self.cursor_col = self.screen_cols - 1;
        }
    }

    /// Cursor left by `n` columns, not past column 0.
    pub fn move_cursor_back(&mut self, n: usize)
        requires
            old(self).wf(),
        ensures
            final(self).wf(),
            final(self)@ == old(self)@.with_cursor(
                old(self)@.cursor_row,
                sat_sub(old(self)@.cursor_col, n as int),
            ),
    {
        self.cursor_col = self.cursor_col.saturating_sub(n);
    }

    /// Erase in line (see `ScrollbackView::erase_in_line`).
    pub fn erase_in_line(&mut self, mode: u8)
        requires
            old(self).wf(),
            mode == 1 ==> old(self)@.cursor_col < usize::MAX,
        ensures
            final(self).wf(),
            final(self)@ == old(self)@.erase_in_line(mode),
    {
        self.ensure_cursor_row();
        let r = self.cursor_row;
        let ghost before = self.rows@;
        let ghost row = rows_view(before)[r as int];
        if mode == 0 {
            self.rows[r].clear_from(self.cursor_col);
            assert(rows_view(self.rows@) =~= rows_view(before).update(
                r as int,
                row_clear_from(row, self.cursor_col as int),
            ));
        } else if mode == 1 {
            self.rows[r].clear_to(self.cursor_col + 1);
            assert(rows_view(self.rows@) =~= rows_view(before).update(
                r as int,
                row_clear_to(row, self.cursor_col + 1),
            ));
        } else if mode == 2 {
            self.rows[r].clear();
            assert(rows_view(self.rows@) =~= rows_view(before).update(
                r as int,
                Seq::<Cell>::empty(),
            ));
        }
    }

    /// Erase in display (see `ScrollbackView::erase_in_display`).
    pub fn erase_in_display(&mut self, mode: u8)
        requires
            old(self).wf(),
            old(self)@.erase_in_display_fits(mode),
        ensures
            final(self).wf(),
            final(self)@ == old(self)@.erase_in_display(mode),
    {
        self.ensure_cursor_row();
        let len = self.rows.len();
        let screen_end = if self.screen_rows > 0 {
            let e = self.screen_origin + self.screen_rows;
            if e < len {
                e
            } else {
                len
            }
        } else {
            len
        };
        let ghost v = self@;
        let r = self.cursor_row;
        if mode == 0 {
            self.rows[r].clear_from(self.cursor_col);
            self.clear_rows(r + 1, screen_end);
            assert(self@.rows =~= v.erase_in_display(mode).rows);
        } else if mode == 1 {
            self.clear_rows(self.screen_origin, r);
            let ghost mid = self.rows@;
            assert(rows_view(mid)[r as int] == v.rows[r as int]);
            self.rows[r].clear_to(self.cursor_col + 1);
            assert(rows_view(self.rows@) =~= rows_view(mid).update(
                r as int,
                row_clear_to(v.rows[r as int], self.cursor_col + 1),
            ));
            assert(self@.rows =~= v.erase_in_display(mode).rows);
        } else if mode == 2 {
            self.clear_rows(self.screen_origin, screen_end);
            assert(self@.rows =~= v.erase_in_display(mode).rows);
        } else if mode == 3 {
            self.rows.clear();
            self.rows.push(Row::new());
            self.cursor_row = 0;
            self.cursor_col = 0;
            self.screen_origin = 0;
            assert(self@.rows =~= seq![Seq::<Cell>::empty()]);
        }
    }

    /// Clears every row with index in `from..to`.
    fn clear_rows(&mut self, from: usize, to: usize)
        requires
            to <= old(self).rows@.len(),
        ensures
            final(self).rows@.len() == old(self).rows@.len(),
            final(self).cursor_row == old(self).cursor_row,
            final(self).cursor_col == old(self).cursor_col,
            final(self)@ == old(self)@.with_rows(
                Seq::new(
                    old(self)@.rows.len(),
                    |i: int|
                        if from <= i < to {
                            Seq::<Cell>::empty()
                        } else {
                            old(self)@.rows[i]
                        },
                ),
            ),
    {
        let ghost start = self@;
        let mut r = from;
        assert(self@.rows =~= Seq::new(
            start.rows.len(),
            |i: int|
                if from <= i < r {
                    Seq::<Cell>::empty()
                } else {
                    start.rows[i]
                },
        ));
        while r < to
            invariant
                to <= self.rows@.len() == start.rows.len(),
                from <= r,
                r <= to || r == from,
                self.cursor_row == start.cursor_row,
                self.cursor_col == start.cursor_col,
                self@ == start.with_rows(
                    Seq::new(
                        start.rows.len(),
                        |i: int|
                            if from <= i < r {
                                Seq::<Cell>::empty()
                            } else {
                                start.rows[i]
                            },
                    ),
                ),
            decreases to - r,
        {
            let ghost before = self.rows@;
            self.rows[r].clear();
            assert(rows_view(self.rows@) =~= rows_view(before).update(r as int, Seq::<Cell>::empty()));
            r = r + 1;
            assert(rows_view(self.rows@) =~= Seq::new(
                start.rows.len(),
                |i: int|
                    if from <= i < r {
                        Seq::<Cell>::empty()
                    } else {
                        start.rows[i]
                    },
            ));
        }
        assert(self@.rows =~= Seq::new(
            start.rows.len(),
            |i: int|
                if from <= i < to {
                    Seq::<Cell>::empty()
                } else {
                    start.rows[i]
                },
        ));
    }

    /// The number of rows kept.
    pub fn len(&self) -> (n: usize)
        ensures
            n == self@.rows.len(),
    {
        self.rows.len()
    }

    /// The row at index `idx`, if there is one.
    pub fn row(&self, idx: usize) -> (r: Option<&Row>)
        ensures
            idx < self@.rows.len() ==> r.is_some() && r.unwrap()@ == self@.rows[idx as int],
            idx >= self@.rows.len() ==> r.is_none(),
    {
        if idx < self.rows.len() {
            Some(&self.rows[idx])
        } else {
            None
        }
    }

    /// The cursor's row index.
    pub fn cursor_row(&self) -> (r: usize)
        ensures
            r == self@.cursor_row,
    {
        self.cursor_row
    }

    /// The cursor's column.
    pub fn cursor_col(&self) -> (c: usize)
        ensures
            c == self@.cursor_col,
    {
        self.cursor_col
    }

    /// The index of the row shown at the top of the screen.
    pub fn screen_origin(&self) -> (o: usize)
        ensures
            o == self@.screen_origin,
    {
        self.screen_origin
    }

    /// The screen's height, 0 when not known yet.
    pub fn screen_rows(&self) -> (n: usize)
        ensures
            n == self@.screen_rows,
    {
        self.screen_rows
    }

    /// The screen's width, 0 when not known yet.
    pub fn screen_cols(&self) -> (n: usize)
        ensures
            n == self@.screen_cols,
    {
        self.screen_cols
    }

    fn ensure_cursor_row(&mut self)
        ensures
            final(self)@ == old(self)@.ensure_cursor_row(),
            final(self)@.cursor_row < final(self)@.rows.len(),
    {
        let ghost start = self@;
        if self.rows.len() <= self.cursor_row {
            while self.rows.len() <= self.cursor_row
                invariant
                    start.rows.len() <= self.rows@.len() <= self.cursor_row + 1,
                    self.cursor_row == start.cursor_row,
                    self@ == start.with_rows(
                        start.rows + empty_rows((self.rows@.len() - start.rows.len()) as nat),
                    ),
                decreases self.cursor_row + 1 - self.rows.len(),
            {
                let ghost before = self.rows@;
                self.rows.push(Row::new());
                assert(rows_view(self.rows@) =~= rows_view(before).push(Seq::<Cell>::empty()));
                assert(start.rows + empty_rows((self.rows@.len() - start.rows.len()) as nat)
                    =~= (start.rows + empty_rows((before.len() - start.rows.len()) as nat)).push(
                    Seq::<Cell>::empty(),
                ));
            }
        }
    }

    fn trim_scrollback(&mut self)
        ensures
            final(self)@ == old(self)@.trim_scrollback(),
    {
        if self.rows.len() > SCROLLBACK_MAX_LINES {
            let excess = self.rows.len() - SCROLLBACK_MAX_LINES;
            let ghost before = self.rows@;
            let kept = self.rows.split_off(excess);
            self.rows = kept;
            assert(rows_view(self.rows@) =~= rows_view(before).skip(excess as int));
            self.cursor_row = self.cursor_row.saturating_sub(excess);
            self.screen_origin = self.screen_origin.saturating_sub(excess);
        }
    }
}

} // verus!

verus! {

/// After a line feed the cursor's row is on the visible screen (when its
/// height is known), the state stays well formed, and no more than
/// `SCROLLBACK_MAX_LINES` rows are kept.
pub proof fn law_newline_keeps_cursor_on_screen(v: ScrollbackView)
    requires
        v.wf(),
        v.rows.len() <= SCROLLBACK_MAX_LINES,
    ensures
        v.newline().wf(),
        v.newline().rows.len() <= SCROLLBACK_MAX_LINES,
        v.newline().screen_rows > 0 ==> v.newline().screen_origin <= v.newline().cursor_row
            < v.newline().screen_origin + v.newline().screen_rows,
{
}

/// Any number of line feeds keep at most `SCROLLBACK_MAX_LINES` rows.
pub proof fn law_scrollback_bounded(v: ScrollbackView, n: nat)
    requires
        v.wf(),
        v.rows.len() <= SCROLLBACK_MAX_LINES,
    ensures
        newlines(v, n).wf(),
        newlines(v, n).rows.len() <= SCROLLBACK_MAX_LINES,
    decreases n,
{
    if n > 0 {
        law_newline_keeps_cursor_on_screen(v);
        law_scrollback_bounded(v.newline(), (n - 1) as nat);
    }
}

/// `n` line feeds in a row.
pub open spec fn newlines(v: ScrollbackView, n: nat) -> ScrollbackView
    decreases n,
{
    if n == 0 {
        v
    } else {
        newlines(v.newline(), (n - 1) as nat)
    }
}

} // verus!

verus! {

/// Erase in display with mode 3 drops all output: one empty row is left,
/// the cursor is at its start and the screen shows it from the top; the
/// screen's size is kept.
pub proof fn law_erase_all_drops_output(v: ScrollbackView)
    requires
        v.wf(),
    ensures
        v.erase_in_display(3).rows.len() == 1,
        v.erase_in_display(3).rows[0].len() == 0,
        v.erase_in_display(3).cursor_row == 0,
        v.erase_in_display(3).cursor_col == 0,
        v.erase_in_display(3).screen_origin == 0,
        v.erase_in_display(3).screen_rows == v.screen_rows,
        v.erase_in_display(3).screen_cols == v.screen_cols,
        v.erase_in_display(3).wf(),
{
}

} // verus!
