use vstd::prelude::*;
use vstd::utf8::{
    valid_utf8, decode_utf8, encode_utf8, length_of_first_scalar, decode_first_scalar,
    decode_first_codepoint, pop_first_scalar, valid_first_scalar,
};
use crate::style::{Cell, Color};
use crate::scrollback::{ScrollbackBuffer, ScrollbackView, sat_sub, row_write_at, LINE_MAX_BYTES};
use crate::csi::{CsiAction, csi_action, decode_csi, parse_sgr_codes, sgr_codes, split_fields};
use crate::decimal::parse_unsigned;

verus! {

/// The character that a complete UTF-8 sequence denotes, or `None` when the
/// bytes are not valid UTF-8.
pub open spec fn utf8_char(bytes: Seq<u8>) -> Option<char> {
    if valid_utf8(bytes) && decode_utf8(bytes).len() > 0 {
        Some(decode_utf8(bytes)[0])
    } else {
        None
    }
}

/// `std::str::from_utf8`: succeeds exactly on valid UTF-8, and the string
/// then holds the decoded characters. The claim rests on the standard
/// library's documented behaviour and vstd's model of UTF-8.
#[verifier::external_body]
fn str_from_utf8(bytes: &[u8]) -> (r: Option<&str>)
    ensures
        r is Some <==> valid_utf8(bytes@),
        r matches Some(s) ==> s@ == decode_utf8(bytes@),
{
    std::str::from_utf8(bytes).ok()
}

/// The state of a UTF-8 decoder between bytes: the bytes of the character
/// being read, and how many bytes that character takes (0 when none is pending).
pub struct Utf8View {
    pub pending: Seq<u8>,
    pub needed: nat,
}

impl Utf8View {
    pub open spec fn idle() -> Utf8View {
        Utf8View { pending: Seq::<u8>::empty(), needed: 0 }
    }

    /// No character pending, or a lead byte and fewer continuation bytes than
    /// the character needs.
    pub open spec fn wf(self) -> bool {
        ||| self.needed == 0 && self.pending.len() == 0
        ||| 2 <= self.needed <= 4 && 1 <= self.pending.len() < self.needed
    }

    /// A byte read with no character pending: ASCII is a character at once, a
    /// lead byte starts a character of 2, 3 or 4 bytes, any other byte is dropped.
    pub open spec fn start(b: u8) -> (Utf8View, Option<char>) {
        if b < 0x80 {
            (Utf8View::idle(), Some(b as char))
        } else if b & 0xE0 == 0xC0 {
            (Utf8View { pending: seq![b], needed: 2 }, None)
        } else if b & 0xF0 == 0xE0 {
            (Utf8View { pending: seq![b], needed: 3 }, None)
        } else if b & 0xF8 == 0xF0 {
            (Utf8View { pending: seq![b], needed: 4 }, None)
        } else {
            (Utf8View::idle(), None)
        }
    }

    /// One byte through the decoder: a continuation byte extends the pending
    /// character, and completes it once it has all its bytes (yielding it when
    /// it is valid UTF-8); any other byte abandons the pending character and
    /// is read afresh.
    pub open spec fn step(self, b: u8) -> (Utf8View, Option<char>) {
        if self.needed > 0 && b & 0xC0 == 0x80 {
            let p = self.pending.push(b);
            if p.len() == self.needed {
                (Utf8View::idle(), utf8_char(p))
            } else {
                (Utf8View { pending: p, needed: self.needed }, None)
            }
        } else {
            Utf8View::start(b)
        }
    }
}

/// An incremental UTF-8 decoder fed one byte at a time.
pub struct Utf8Accum {
    buf: Vec<u8>,
    needed: usize,
}

impl View for Utf8Accum {
    type V = Utf8View;

    closed spec fn view(&self) -> Utf8View {
        Utf8View { pending: self.buf@, needed: self.needed as nat }
    }
}

impl Utf8Accum {
    /// A decoder with no character pending.
    pub fn new() -> (a: Utf8Accum)
        ensures
            a@ == Utf8View::idle(),
    {
        let a = Utf8Accum { buf: Vec::new(), needed: 0 };
        assert(a@.pending =~= Seq::<u8>::empty());
        a
    }

    /// Abandons any pending character.
    pub fn reset(&mut self)
        ensures
            final(self)@ == Utf8View::idle(),
    {
        self.buf.clear();
        self.needed = 0;
    }

    /// Feeds one byte; returns the character it completes, if any (see `Utf8View::step`).
    pub fn feed(&mut self, b: u8) -> (r: Option<char>)
        requires
            old(self)@.wf(),
        ensures
            final(self)@.wf(),
            (final(self)@, r) == old(self)@.step(b),
    {
        if self.needed > 0 {
            if b & 0xC0 == 0x80 {
                self.buf.push(b);
                if self.buf.len() == self.needed {
                    let result = match str_from_utf8(self.buf.as_slice()) {
                        Some(s) => {
                            if s.unicode_len() > 0 {
                                Some(s.get_char(0))
                            } else {
                                None
                            }
                        },
                        None => None,
                    };
                    self.reset();
                    return result;
                }
                return None;
            }
            self.reset();
        }
        assert(self.buf@ =~= Seq::<u8>::empty());
        if b < 0x80 {
            Some(b as char)
        } else if b & 0xE0 == 0xC0 {
            self.buf.push(b);
            assert(self.buf@ =~= seq![b]);
            self.needed = 2;
            None
        } else if b & 0xF0 == 0xE0 {
            self.buf.push(b);
            assert(self.buf@ =~= seq![b]);
            self.needed = 3;
            None
        } else if b & 0xF8 == 0xF0 {
            self.buf.push(b);
            assert(self.buf@ =~= seq![b]);
            self.needed = 4;
            None
        } else {
            None
        }
    }
}

} // verus!

verus! {

/// The colors and weight that newly written cells get.
#[derive(Clone, Copy, Debug, PartialEq, Eq, Structural)]
pub struct Pen {
    pub fg: Option<Color>,
    pub bg: Option<Color>,
    pub bold: bool,
}

/// No colors, not bold.
pub open spec fn plain_pen() -> Pen {
    Pen { fg: None, bg: None, bold: false }
}

/// The color of an 8-color SGR index (0..=7), normal or bright; other indices
/// give `Color::Reset`.
pub open spec fn ansi_color(idx: u8, bright: bool) -> Color {
    if !bright {
        if idx == 0 {
            Color::Black
        } else if idx == 1 {
            Color::DarkRed
        } else if idx == 2 {
            Color::DarkGreen
        } else if idx == 3 {
            Color::DarkYellow
        } else if idx == 4 {
            Color::DarkBlue
        } else if idx == 5 {
            Color::DarkMagenta
        } else if idx == 6 {
            Color::DarkCyan
        } else if idx == 7 {
            Color::Grey
        } else {
            Color::Reset
        }
    } else {
        if idx == 0 {
            Color::DarkGrey
        } else if idx == 1 {
            Color::Red
        } else if idx == 2 {
            Color::Green
        } else if idx == 3 {
            Color::Yellow
        } else if idx == 4 {
            Color::Blue
        } else if idx == 5 {
            Color::Magenta
        } else if idx == 6 {
            Color::Cyan
        } else if idx == 7 {
            Color::White
        } else {
            Color::Reset
        }
    }
}

/// The color of an 8-color SGR index (see `ansi_color`).
pub fn ansi_color_of(idx: u8, bright: bool) -> (c: Color)
    ensures
        c == ansi_color(idx, bright),
{
    if !bright {
        match idx {
            0 => Color::Black,
            1 => Color::DarkRed,
            2 => Color::DarkGreen,
            3 => Color::DarkYellow,
            4 => Color::DarkBlue,
            5 => Color::DarkMagenta,
            6 => Color::DarkCyan,
            7 => Color::Grey,
            _ => Color::Reset,
        }
    } else {
        match idx {
            0 => Color::DarkGrey,
            1 => Color::Red,
            2 => Color::Green,
            3 => Color::Yellow,
            4 => Color::Blue,
            5 => Color::Magenta,
            6 => Color::Cyan,
            7 => Color::White,
            _ => Color::Reset,
        }
    }
}

/// The pen with the foreground (`fg`) or background color set.
pub open spec fn pen_with_color(pen: Pen, fg: bool, c: Color) -> Pen {
    if fg {
        Pen { fg: Some(c), ..pen }
    } else {
        Pen { bg: Some(c), ..pen }
    }
}

/// One SGR code at index `i`: the new pen and the index of the next code.
/// 38 and 48 take a 256-color index (`;5;n`) or an RGB triple (`;2;r;g;b`)
/// from the codes after them when those are complete.
pub open spec fn sgr_step(codes: Seq<u8>, i: int, pen: Pen) -> (Pen, int) {
    let c = codes[i];
    if c == 0 {
        (plain_pen(), i + 1)
    } else if c == 1 {
        (Pen { bold: true, ..pen }, i + 1)
    } else if c == 22 {
        (Pen { bold: false, ..pen }, i + 1)
    } else if 30 <= c <= 37 {
        (Pen { fg: Some(ansi_color((c - 30) as u8, false)), ..pen }, i + 1)
    } else if c == 39 {
        (Pen { fg: None, ..pen }, i + 1)
    } else if 40 <= c <= 47 {
        (Pen { bg: Some(ansi_color((c - 40) as u8, false)), ..pen }, i + 1)
    } else if c == 49 {
        (Pen { bg: None, ..pen }, i + 1)
    } else if 90 <= c <= 97 {
        (Pen { fg: Some(ansi_color((c - 90) as u8, true)), ..pen }, i + 1)
    } else if 100 <= c <= 107 {
        (Pen { bg: Some(ansi_color((c - 100) as u8, true)), ..pen }, i + 1)
    } else if c == 38 || c == 48 {
        let fg = c == 38;
        if i + 1 < codes.len() && codes[i + 1] == 5 && i + 2 < codes.len() {
            (pen_with_color(pen, fg, Color::AnsiValue(codes[i + 2])), i + 3)
        } else if i + 1 < codes.len() && codes[i + 1] == 2 && i + 4 < codes.len() {
            (
                pen_with_color(
                    pen,
                    fg,
                    Color::Rgb { r: codes[i + 2], g: codes[i + 3], b: codes[i + 4] },
                ),
                i + 5,
            )
        } else {
            (pen, i + 1)
        }
    } else {
        (pen, i + 1)
    }
}

/// The pen after the SGR codes from index `i` on.
pub open spec fn sgr_run(codes: Seq<u8>, i: int, pen: Pen) -> Pen
    decreases codes.len() - i,
{
    if 0 <= i < codes.len() {
        let (p, next) = sgr_step(codes, i, pen);
        if next > i {
            sgr_run(codes, next, p)
        } else {
            p
        }
    } else {
        pen
    }
}

/// The pen after a select-graphic-rendition sequence with parameter bytes
/// `params`: no parameters reset the pen; otherwise the codes apply in order.
pub open spec fn apply_sgr(params: Seq<u8>, pen: Pen) -> Pen {
    if params.len() == 0 {
        plain_pen()
    } else {
        sgr_run(sgr_codes(split_fields(params, 0x3b)), 0, pen)
    }
}

/// The states of the escape-sequence recognizer.
#[derive(Clone, Copy, Debug, PartialEq, Eq, Structural)]
pub enum VtState {
    Ground,
    Escape,
    EscapeIntermediate,
    CsiEntry,
    CsiParam,
    OscString,
}

/// The abstract state of the terminal parser.
pub struct VtView {
    pub state: VtState,
    /// The parameter and intermediate bytes of the control sequence being read.
    pub params: Seq<u8>,
    pub pen: Pen,
    pub utf8: Utf8View,
}

/// A parameter or intermediate byte of a control sequence.
pub open spec fn is_csi_param_byte(b: u8) -> bool {
    0x20 <= b <= 0x3f
}

impl VtView {
    /// The parser in its initial state.
    pub open spec fn initial() -> VtView {
        VtView {
            state: VtState::Ground,
            params: Seq::<u8>::empty(),
            pen: plain_pen(),
            utf8: Utf8View::idle(),
        }
    }

    /// The decoder is consistent and the collected parameters are parameter bytes.
    pub open spec fn wf(self) -> bool {
        &&& self.utf8.wf()
        &&& forall|i: int| 0 <= i < self.params.len() ==> is_csi_param_byte(#[trigger] self.params[i])
    }
}

/// The screen after a control sequence's action.
pub open spec fn csi_effect(action: CsiAction, buf: ScrollbackView) -> ScrollbackView {
    match action {
        CsiAction::Sgr => buf,
        CsiAction::CursorUp(n) => buf.move_cursor_up(n as int),
        CsiAction::CursorDown(n) => buf.move_cursor_down(n as int),
        CsiAction::CursorForward(n) => buf.move_cursor_forward(n as int),
        CsiAction::CursorBack(n) => buf.with_cursor(buf.cursor_row, sat_sub(buf.cursor_col, n as int)),
        CsiAction::Position(r, c) => buf.set_cursor_position(r as int, c as int),
        CsiAction::Column(c) => buf.with_cursor(buf.cursor_row, sat_sub(c as int, 1)),
        CsiAction::Row(r) => buf.set_cursor_position(r as int, buf.cursor_col + 1),
        CsiAction::EraseDisplay(m) => buf.erase_in_display(m),
        CsiAction::EraseLine(m) => buf.erase_in_line(m),
        CsiAction::Ignore => buf,
    }
}

/// A control sequence's action computes without overflow.
pub open spec fn csi_fits(action: CsiAction, buf: ScrollbackView) -> bool {
    match action {
        CsiAction::CursorDown(n) => buf.move_cursor_down_fits(n as int),
        CsiAction::CursorForward(n) => buf.cursor_col + n <= usize::MAX,
        CsiAction::Position(r, c) => buf.screen_origin + sat_sub(r as int, 1) <= usize::MAX,
        CsiAction::Row(r) => buf.cursor_col + 1 <= usize::MAX && buf.screen_origin + sat_sub(
            r as int,
            1,
        ) <= usize::MAX,
        CsiAction::EraseDisplay(m) => buf.erase_in_display_fits(m),
        CsiAction::EraseLine(m) => m == 1 ==> buf.cursor_col < usize::MAX,
        _ => true,
    }
}

/// One byte of terminal output read by the parser in state `p` with screen
/// `buf`: the parser's next state and the screen after the byte.
pub open spec fn advance(p: VtView, buf: ScrollbackView, b: u8) -> (VtView, ScrollbackView) {
    match p.state {
        VtState::Ground => {
            if b == 0x1b {
                (VtView { state: VtState::Escape, utf8: Utf8View::idle(), ..p }, buf)
            } else if b == 0x0a {
                (p, buf.newline())
            } else if b == 0x0d {
                (p, buf.with_cursor(buf.cursor_row, 0))
            } else if b == 0x08 {
                (p, buf.with_cursor(buf.cursor_row, sat_sub(buf.cursor_col, 1)))
            } else if b == 0x07 || b == 0x0b || b == 0x0c {
                (p, buf)
            } else if b >= 0x20 {
                let (u, ch) = p.utf8.step(b);
                let p2 = VtView { utf8: u, ..p };
                match ch {
                    Some(c) => (
                        p2,
                        buf.write_cell(Cell { ch: c, fg: p.pen.fg, bg: p.pen.bg, bold: p.pen.bold }),
                    ),
                    None => (p2, buf),
                }
            } else {
                (p, buf)
            }
        },
        VtState::Escape => {
            if b == 0x5b {
                (VtView { state: VtState::CsiEntry, params: Seq::<u8>::empty(), ..p }, buf)
            } else if b == 0x5d || b == 0x50 || b == 0x5e || b == 0x5f {
                (VtView { state: VtState::OscString, ..p }, buf)
            } else if b == 0x28 || b == 0x29 || b == 0x2a || b == 0x2b || b == 0x23 || b == 0x25 {
                (VtView { state: VtState::EscapeIntermediate, ..p }, buf)
            } else if b == 0x63 {
                (VtView { state: VtState::Ground, pen: plain_pen(), ..p }, buf)
            } else {
                (VtView { state: VtState::Ground, ..p }, buf)
            }
        },
        VtState::EscapeIntermediate => (VtView { state: VtState::Ground, ..p }, buf),
        VtState::CsiEntry | VtState::CsiParam => {
            if is_csi_param_byte(b) {
                (VtView { state: VtState::CsiParam, params: p.params.push(b), ..p }, buf)
            } else if 0x40 <= b <= 0x7e {
                let action = csi_action(p.params, b);
                let pen = if action == CsiAction::Sgr {
                    apply_sgr(p.params, p.pen)
                } else {
                    p.pen
                };
                (
                    VtView { state: VtState::Ground, params: Seq::<u8>::empty(), pen, ..p },
                    csi_effect(action, buf),
                )
            } else if b == 0x1b {
                (VtView { state: VtState::Escape, params: Seq::<u8>::empty(), ..p }, buf)
            } else {
                (VtView { state: VtState::Ground, params: Seq::<u8>::empty(), ..p }, buf)
            }
        },
        VtState::OscString => {
            if b == 0x07 {
                (VtView { state: VtState::Ground, ..p }, buf)
            } else if b == 0x1b {
                (VtView { state: VtState::Escape, ..p }, buf)
            } else {
                (p, buf)
            }
        },
    }
}

/// The byte `b` is processed without arithmetic overflow.
pub open spec fn step_fits(p: VtView, buf: ScrollbackView, b: u8) -> bool {
    match p.state {
        VtState::Ground => {
            if b == 0x1b {
                true
            } else if b == 0x0a {
                buf.newline_fits()
            } else if b == 0x0d || b == 0x08 || b == 0x07 || b == 0x0b || b == 0x0c {
                true
            } else if b >= 0x20 {
                p.utf8.step(b).1 is Some ==> buf.write_cell_fits()
            } else {
                true
            }
        },
        VtState::CsiEntry | VtState::CsiParam => {
            (!is_csi_param_byte(b) && 0x40 <= b <= 0x7e) ==> csi_fits(csi_action(p.params, b), buf)
        },
        _ => true,
    }
}

/// The parser and screen after reading all of `bytes`, in order.
pub open spec fn feed(p: VtView, buf: ScrollbackView, bytes: Seq<u8>) -> (VtView, ScrollbackView)
    decreases bytes.len(),
{
    if bytes.len() == 0 {
        (p, buf)
    } else {
        let (p1, b1) = feed(p, buf, bytes.drop_last());
        advance(p1, b1, bytes.last())
    }
}

/// Every byte of `bytes` is processed without arithmetic overflow.
pub open spec fn feed_fits(p: VtView, buf: ScrollbackView, bytes: Seq<u8>) -> bool
    decreases bytes.len(),
{
    if bytes.len() == 0 {
        true
    } else {
        let (p1, b1) = feed(p, buf, bytes.drop_last());
        feed_fits(p, buf, bytes.drop_last()) && step_fits(p1, b1, bytes.last())
    }
}

} // verus!

verus! {

/// A terminal output parser: it recognizes escape and control sequences and
/// applies text and cursor movement to a scrollback buffer.
pub struct VtParser {
    state: VtState,
    params: Vec<u8>,
    pen: Pen,
    utf8: Utf8Accum,
}

impl View for VtParser {
    type V = VtView;

    closed spec fn view(&self) -> VtView {
        VtView { state: self.state, params: self.params@, pen: self.pen, utf8: self.utf8@ }
    }
}

/// If every byte of `bytes` fits, so does every byte of each prefix.
pub proof fn lemma_feed_fits_prefix(p: VtView, buf: ScrollbackView, bytes: Seq<u8>, k: int)
    requires
        0 <= k <= bytes.len(),
        feed_fits(p, buf, bytes),
    ensures
        feed_fits(p, buf, bytes.take(k)),
    decreases bytes.len(),
{
    if k == bytes.len() {
        assert(bytes.take(k) =~= bytes);
    } else {
        assert(bytes.drop_last().take(k) =~= bytes.take(k));
        lemma_feed_fits_prefix(p, buf, bytes.drop_last(), k);
    }
}

proof fn lemma_feed_take_step(p: VtView, buf: ScrollbackView, bytes: Seq<u8>, i: int)
    requires
        0 <= i < bytes.len(),
    ensures
        feed(p, buf, bytes.take(i + 1)) == advance(
            feed(p, buf, bytes.take(i)).0,
            feed(p, buf, bytes.take(i)).1,
            bytes[i],
        ),
        feed_fits(p, buf, bytes.take(i + 1)) == (feed_fits(p, buf, bytes.take(i)) && step_fits(
            feed(p, buf, bytes.take(i)).0,
            feed(p, buf, bytes.take(i)).1,
            bytes[i],
        )),
{
    assert(bytes.take(i + 1).drop_last() =~= bytes.take(i));
}

impl VtParser {
    /// The parser's invariant (see `VtView::wf`).
    pub open spec fn wf(&self) -> bool {
        self@.wf()
    }

    /// A parser in the ground state with a plain pen.
    pub fn new() -> (p: VtParser)
        ensures
            p@ == VtView::initial(),
            p.wf(),
    {
        let p = VtParser {
            state: VtState::Ground,
            params: Vec::new(),
            pen: Pen { fg: None, bg: None, bold: false },
            utf8: Utf8Accum::new(),
        };
        assert(p@.params =~= Seq::<u8>::empty());
        p
    }

    /// Feeds terminal output to the parser, which updates `buf` (see `feed`).
    /// Each byte must be processed without overflow; `feed_checked` tests that
    /// as it goes.
    pub fn feed(&mut self, bytes: &[u8], buf: &mut ScrollbackBuffer)
        requires
            old(self).wf(),
            old(buf).wf(),
            feed_fits(old(self)@, old(buf)@, bytes@),
        ensures
            final(self).wf(),
            final(buf).wf(),
            (final(self)@, final(buf)@) == feed(old(self)@, old(buf)@, bytes@),
    {
        let ghost p0 = self@;
        let ghost b0 = buf@;
        let mut i: usize = 0;
        assert(bytes@.take(0) =~= Seq::<u8>::empty());
        while i < bytes.len()
            invariant
                i <= bytes@.len(),
                self.wf(),
                buf.wf(),
                feed_fits(p0, b0, bytes@),
                (self@, buf@) == feed(p0, b0, bytes@.take(i as int)),
            decreases bytes.len() - i,
        {
            proof {
                lemma_feed_fits_prefix(p0, b0, bytes@, i + 1);
                lemma_feed_take_step(p0, b0, bytes@, i as int);
            }
            self.advance(bytes[i], buf);
            i = i + 1;
        }
        assert(bytes@.take(bytes@.len() as int) =~= bytes@);
    }

    /// Feeds terminal output like `feed`, but stops before the first byte
    /// whose processing would overflow; returns that byte's index, or `None`
    /// when all of `bytes` was processed.
    pub fn feed_checked(&mut self, bytes: &[u8], buf: &mut ScrollbackBuffer) -> (stopped: Option<usize>)
        requires
            old(self).wf(),
            old(buf).wf(),
        ensures
            final(self).wf(),
            final(buf).wf(),
            stopped is None ==> feed_fits(old(self)@, old(buf)@, bytes@) && (final(self)@, final(buf)@)
                == feed(old(self)@, old(buf)@, bytes@),
            stopped matches Some(k) ==> {
                &&& k < bytes@.len()
                &&& !feed_fits(old(self)@, old(buf)@, bytes@)
                &&& feed_fits(old(self)@, old(buf)@, bytes@.take(k as int))
                &&& (final(self)@, final(buf)@) == feed(old(self)@, old(buf)@, bytes@.take(k as int))
                &&& !step_fits(final(self)@, final(buf)@, bytes@[k as int])
            },
    {
        let ghost p0 = self@;
        let ghost b0 = buf@;
        let mut i: usize = 0;
        assert(bytes@.take(0) =~= Seq::<u8>::empty());
        while i < bytes.len()
            invariant
                i <= bytes@.len(),
                self.wf(),
                buf.wf(),
                p0 == old(self)@,
                b0 == old(buf)@,
                feed_fits(p0, b0, bytes@.take(i as int)),
                (self@, buf@) == feed(p0, b0, bytes@.take(i as int)),
            decreases bytes.len() - i,
        {
            proof {
                lemma_feed_take_step(p0, b0, bytes@, i as int);
            }
            if !self.step_fits(bytes[i], buf) {
                proof {
                    assert(!step_fits(self@, buf@, bytes@[i as int]));
                    if feed_fits(p0, b0, bytes@) {
                        lemma_feed_fits_prefix(p0, b0, bytes@, i + 1);
                        assert(feed_fits(p0, b0, bytes@.take(i + 1)));
                        assert(false);
                    }
                }
                return Some(i);
            }
            self.advance(bytes[i], buf);
            i = i + 1;
        }
        assert(bytes@.take(bytes@.len() as int) =~= bytes@);
        None
    }

    /// Whether byte `b` would be processed without overflow (see `step_fits`).
    pub fn step_fits(&self, b: u8, buf: &ScrollbackBuffer) -> (r: bool)
        requires
            self.wf(),
            buf.wf(),
        ensures
            r == step_fits(self@, buf@, b),
    {
        match self.state {
            VtState::Ground => {
                if b == 0x1b {
                    true
                } else if b == 0x0a {
                    newline_fits(buf)
                } else if b == 0x0d || b == 0x08 || b == 0x07 || b == 0x0b || b == 0x0c {
                    true
                } else if b >= 0x20 {
                    let mut probe = Utf8Accum { buf: vstd::slice::slice_to_vec(self.utf8.buf.as_slice()), needed: self.utf8.needed };
                    assert(probe@ == self.utf8@);
                    match probe.feed(b) {
                        Some(_) => write_cell_fits(buf),
                        None => true,
                    }
                } else {
                    true
                }
            },
            VtState::CsiEntry | VtState::CsiParam => {
                if !(0x20 <= b && b <= 0x3f) && 0x40 <= b && b <= 0x7e {
                    csi_action_fits(decode_csi(self.params.as_slice(), b), buf)
                } else {
                    true
                }
            },
            _ => true,
        }
    }

    fn apply_sgr(&mut self)
        requires
            old(self).wf(),
        ensures
            final(self).wf(),
            final(self)@ == (VtView { pen: apply_sgr(old(self)@.params, old(self)@.pen), ..old(self)@ }),
    {
        if self.params.len() == 0 {
            self.pen = Pen { fg: None, bg: None, bold: false };
            return;
        }
        let codes = parse_sgr_codes(self.params.as_slice());
        let ghost pen0 = self.pen;
        let mut pen = self.pen;
        let mut i: usize = 0;
        while i < codes.len()
            invariant
                i <= codes@.len(),
                sgr_run(codes@, 0, pen0) == sgr_run(codes@, i as int, pen),
            decreases codes.len() - i,
        {
            let (p, next) = sgr_step_exec(&codes, i, pen);
            pen = p;
            i = next;
        }
        self.pen = pen;
    }

    fn dispatch_csi(&mut self, fin: u8, buf: &mut ScrollbackBuffer)
        requires
            old(self).wf(),
            old(buf).wf(),
            csi_fits(csi_action(old(self)@.params, fin), old(buf)@),
        ensures
            final(self).wf(),
            final(buf).wf(),
            final(self)@ == (VtView {
                pen: if csi_action(old(self)@.params, fin) == CsiAction::Sgr {
                    apply_sgr(old(self)@.params, old(self)@.pen)
                } else {
                    old(self)@.pen
                },
                ..old(self)@
            }),
            final(buf)@ == csi_effect(csi_action(old(self)@.params, fin), old(buf)@),
    {
        let action = decode_csi(self.params.as_slice(), fin);
        match action {
            CsiAction::Sgr => self.apply_sgr(),
            CsiAction::CursorUp(n) => buf.move_cursor_up(n),
            CsiAction::CursorDown(n) => buf.move_cursor_down(n),
            CsiAction::CursorForward(n) => buf.move_cursor_forward(n),
            CsiAction::CursorBack(n) => buf.move_cursor_back(n),
            CsiAction::Position(r, c) => buf.set_cursor_position(r, c),
            CsiAction::Column(c) => buf.set_cursor_col(c.saturating_sub(1)),
            CsiAction::Row(r) => {
                let col = buf.cursor_col();
                buf.set_cursor_position(r, col + 1);
            },
            CsiAction::EraseDisplay(m) => buf.erase_in_display(m),
            CsiAction::EraseLine(m) => buf.erase_in_line(m),
            CsiAction::Ignore => {},
        }
    }

    fn advance(&mut self, b: u8, buf: &mut ScrollbackBuffer)
        requires
            old(self).wf(),
            old(buf).wf(),
            step_fits(old(self)@, old(buf)@, b),
        ensures
            final(self).wf(),
            final(buf).wf(),
            (final(self)@, final(buf)@) == advance(old(self)@, old(buf)@, b),
    {
        match self.state {
            VtState::Ground => {
                if b == 0x1b {
                    self.utf8.reset();
                    self.state = VtState::Escape;
                } else if b == 0x0a {
                    buf.newline();
                } else if b == 0x0d {
                    buf.carriage_return();
                } else if b == 0x08 {
                    buf.backspace();
                } else if b == 0x07 || b == 0x0b || b == 0x0c {
                } else if b >= 0x20 {
                    match self.utf8.feed(b) {
                        Some(ch) => {
                            buf.write_cell(
                                Cell { ch, fg: self.pen.fg, bg: self.pen.bg, bold: self.pen.bold },
                            );
                        },
                        None => {},
                    }
                }
            },
            VtState::Escape => {
                if b == 0x5b {
                    self.params.clear();
                    self.state = VtState::CsiEntry;
                } else if b == 0x5d || b == 0x50 || b == 0x5e || b == 0x5f {
                    self.state = VtState::OscString;
                } else if b == 0x28 || b == 0x29 || b == 0x2a || b == 0x2b || b == 0x23 || b == 0x25 {
                    self.state = VtState::EscapeIntermediate;
                } else if b == 0x63 {
                    self.pen = Pen { fg: None, bg: None, bold: false };
                    self.state = VtState::Ground;
                } else {
                    self.state = VtState::Ground;
                }
            },
            VtState::EscapeIntermediate => {
                self.state = VtState::Ground;
            },
            VtState::CsiEntry | VtState::CsiParam => {
                if 0x20 <= b && b <= 0x3f {
                    self.params.push(b);
                    self.state = VtState::CsiParam;
                } else if 0x40 <= b && b <= 0x7e {
                    self.dispatch_csi(b, buf);
                    self.params.clear();
                    self.state = VtState::Ground;
                } else if b == 0x1b {
                    self.params.clear();
                    self.state = VtState::Escape;
                } else {
                    self.params.clear();
                    self.state = VtState::Ground;
                }
            },
            VtState::OscString => {
                if b == 0x07 {
                    self.state = VtState::Ground;
                } else if b == 0x1b {
                    self.state = VtState::Escape;
                }
            },
        }
        proof {
            assert(self@.params =~= advance(old(self)@, old(buf)@, b).0.params);
        }
    }
}

impl Default for VtParser {
    fn default() -> (p: VtParser)
        ensures
            p@ == VtView::initial(),
    {
        VtParser::new()
    }
}

/// One SGR code at index `i` (see `sgr_step`).
fn sgr_step_exec(codes: &Vec<u8>, i: usize, pen: Pen) -> (r: (Pen, usize))
    requires
        i < codes@.len(),
    ensures
        (r.0, r.1 as int) == sgr_step(codes@, i as int, pen),
        i < r.1 <= codes@.len(),
{
    let c = codes[i];
    let len = codes.len();
    if c == 0 {
        (Pen { fg: None, bg: None, bold: false }, i + 1)
    } else if c == 1 {
        (Pen { bold: true, ..pen }, i + 1)
    } else if c == 22 {
        (Pen { bold: false, ..pen }, i + 1)
    } else if 30 <= c && c <= 37 {
        (Pen { fg: Some(ansi_color_of(c - 30, false)), ..pen }, i + 1)
    } else if c == 39 {
        (Pen { fg: None, ..pen }, i + 1)
    } else if 40 <= c && c <= 47 {
        (Pen { bg: Some(ansi_color_of(c - 40, false)), ..pen }, i + 1)
    } else if c == 49 {
        (Pen { bg: None, ..pen }, i + 1)
    } else if 90 <= c && c <= 97 {
        (Pen { fg: Some(ansi_color_of(c - 90, true)), ..pen }, i + 1)
    } else if 100 <= c && c <= 107 {
        (Pen { bg: Some(ansi_color_of(c - 100, true)), ..pen }, i + 1)
    } else if c == 38 || c == 48 {
        let fg = c == 38;
        if i + 1 < len && codes[i + 1] == 5 && i + 2 < len {
            let color = Color::AnsiValue(codes[i + 2]);
            let p = if fg {
                Pen { fg: Some(color), ..pen }
            } else {
                Pen { bg: Some(color), ..pen }
            };
            (p, i + 3)
        } else if i + 1 < len && codes[i + 1] == 2 && len - i > 4 {
            let color = Color::Rgb { r: codes[i + 2], g: codes[i + 3], b: codes[i + 4] };
            let p = if fg {
                Pen { fg: Some(color), ..pen }
            } else {
                Pen { bg: Some(color), ..pen }
            };
            (p, i + 5)
        } else {
            (pen, i + 1)
        }
    } else {
        (pen, i + 1)
    }
}

/// Whether a line feed would compute without overflow (see `ScrollbackView::newline_fits`).
pub fn newline_fits(buf: &ScrollbackBuffer) -> (r: bool)
    ensures
        r == buf@.newline_fits(),
{
    let rows = buf.screen_rows();
    rows == 0 || buf.screen_origin() <= usize::MAX - rows
}

/// Whether writing a cell would compute without overflow (see `ScrollbackView::write_cell_fits`).
pub fn write_cell_fits(buf: &ScrollbackBuffer) -> (r: bool)
    ensures
        r == buf@.write_cell_fits(),
{
    let cols = buf.screen_cols();
    if cols > 0 && buf.cursor_col() >= cols {
        newline_fits(buf)
    } else {
        buf.cursor_col() < usize::MAX
    }
}

/// Whether a control sequence's action would compute without overflow (see `csi_fits`).
pub fn csi_action_fits(action: CsiAction, buf: &ScrollbackBuffer) -> (r: bool)
    ensures
        r == csi_fits(action, buf@),
{
    let col = buf.cursor_col();
    let origin = buf.screen_origin();
    match action {
        CsiAction::CursorDown(n) => {
            buf.cursor_row() <= usize::MAX - n && (buf.screen_rows() == 0 || origin <= usize::MAX
                - buf.screen_rows())
        },
        CsiAction::CursorForward(n) => col <= usize::MAX - n,
        CsiAction::Position(r, _c) => origin <= usize::MAX - r.saturating_sub(1),
        CsiAction::Row(r) => col < usize::MAX && origin <= usize::MAX - r.saturating_sub(1),
        CsiAction::EraseDisplay(m) => {
            (buf.screen_rows() == 0 || origin <= usize::MAX - buf.screen_rows()) && (m != 1 || col
                < usize::MAX)
        },
        CsiAction::EraseLine(m) => m != 1 || col < usize::MAX,
        _ => true,
    }
}

} // verus!

verus! {

/// Terminal output may arrive in chunks split at any byte: feeding `a` and
/// then `b` leaves the parser and the screen exactly as feeding `a + b` at
/// once, and the whole fits exactly when both parts fit in turn.
pub proof fn law_feed_concat(p: VtView, buf: ScrollbackView, a: Seq<u8>, b: Seq<u8>)
    ensures
        feed(p, buf, a + b) == feed(feed(p, buf, a).0, feed(p, buf, a).1, b),
        feed_fits(p, buf, a + b) == (feed_fits(p, buf, a) && feed_fits(
            feed(p, buf, a).0,
            feed(p, buf, a).1,
            b,
        )),
    decreases b.len(),
{
    if b.len() == 0 {
        assert(a + b =~= a);
    } else {
        assert((a + b).drop_last() =~= a + b.drop_last());
        assert((a + b).last() == b.last());
        law_feed_concat(p, buf, a, b.drop_last());
    }
}

} // verus!

verus! {

/// `ESC [ m` read outside any sequence resets the pen and leaves the parser
/// outside any sequence, with the screen unchanged.
pub proof fn law_sgr_reset(p: VtView, buf: ScrollbackView)
    requires
        p.state == VtState::Ground,
    ensures
        ({
            let (p1, b1) = feed(p, buf, seq![0x1bu8, 0x5bu8, 0x6du8]);
            &&& p1.pen == plain_pen()
            &&& p1.state == VtState::Ground
            &&& p1.params.len() == 0
            &&& b1 == buf
        }),
{
    let bytes = seq![0x1bu8, 0x5bu8, 0x6du8];
    assert(bytes.drop_last() =~= seq![0x1bu8, 0x5bu8]);
    assert(bytes.drop_last().drop_last() =~= seq![0x1bu8]);
    assert(bytes.drop_last().drop_last().drop_last() =~= Seq::<u8>::empty());
    reveal_with_fuel(feed, 4);
    assert(csi_action(Seq::<u8>::empty(), 0x6du8) == CsiAction::Sgr);
}

} // verus!

verus! {

/// The decoder's state and the characters it yields after reading `bytes`
/// one by one from state `u`.
pub open spec fn utf8_feed(u: Utf8View, bytes: Seq<u8>) -> (Utf8View, Seq<char>)
    decreases bytes.len(),
{
    if bytes.len() == 0 {
        (u, Seq::<char>::empty())
    } else {
        let (u1, c) = u.step(bytes[0]);
        let (u2, out) = utf8_feed(u1, bytes.drop_first());
        (
            u2,
            match c {
                Some(x) => seq![x] + out,
                None => out,
            },
        )
    }
}

proof fn lemma_utf8_feed_concat(u: Utf8View, a: Seq<u8>, b: Seq<u8>)
    ensures
        utf8_feed(u, a + b) == (
            utf8_feed(utf8_feed(u, a).0, b).0,
            utf8_feed(u, a).1 + utf8_feed(utf8_feed(u, a).0, b).1,
        ),
    decreases a.len(),
{
    if a.len() == 0 {
        assert(a + b =~= b);
        assert(Seq::<char>::empty() + utf8_feed(u, b).1 =~= utf8_feed(u, b).1);
    } else {
        let (u1, c) = u.step(a[0]);
        assert((a + b).drop_first() =~= a.drop_first() + b);
        assert((a + b)[0] == a[0]);
        lemma_utf8_feed_concat(u1, a.drop_first(), b);
        let mid = utf8_feed(u1, a.drop_first());
        match c {
            Some(x) => {
                assert(seq![x] + (mid.1 + utf8_feed(mid.0, b).1) =~= (seq![x] + mid.1) + utf8_feed(
                    mid.0,
                    b,
                ).1);
            },
            None => {},
        }
    }
}

proof fn lemma_decode_one_scalar(bytes: Seq<u8>)
    requires
        valid_utf8(bytes),
        bytes.len() > 0,
    ensures
        ({
            let k = length_of_first_scalar(bytes);
            &&& 1 <= k <= 4
            &&& k <= bytes.len()
            &&& utf8_feed(Utf8View::idle(), bytes.take(k)) == (
                Utf8View::idle(),
                seq![decode_first_scalar(bytes) as char],
            )
        }),
{
    broadcast use vstd::utf8::utf8_byte_ranges_bitwise;

    let k = length_of_first_scalar(bytes);
    let head = bytes.take(k);
    let c = decode_first_scalar(bytes) as char;
    assert(valid_first_scalar(bytes));
    assert(head.len() == k);
    assert(decode_first_codepoint(head) == decode_first_codepoint(bytes));
    assert(valid_first_scalar(head));
    assert(pop_first_scalar(head) =~= Seq::<u8>::empty());
    assert(valid_utf8(Seq::<u8>::empty()));
    assert(valid_utf8(head));
    assert(decode_utf8(Seq::<u8>::empty()) =~= Seq::<char>::empty());
    assert(decode_utf8(head) =~= seq![c] + Seq::<char>::empty());
    assert(utf8_char(head) == Some(c));
    let idle = Utf8View::idle();
    let b0 = bytes[0];
    let _ = b0 & 0xc0;
    let _ = b0 & 0xe0;
    let _ = b0 & 0xf0;
    let _ = b0 & 0xf8;
    let _ = b0 & 0x80;
    if k == 1 {
        assert(b0 & 0x7f == b0) by (bit_vector)
            requires
                b0 <= 0x7f,
        ;
        assert(head.drop_first() =~= Seq::<u8>::empty());
        assert(head[0] == b0);
        assert(idle.step(b0) == (idle, Some(b0 as char)));
        assert(utf8_feed(idle, Seq::<u8>::empty()) == (idle, Seq::<char>::empty()));
        assert(utf8_feed(idle, head) == (idle, seq![b0 as char] + Seq::<char>::empty()));
        assert(seq![b0 as char] + Seq::<char>::empty() =~= seq![c]);
    } else if k == 2 {
        let b1 = bytes[1];
        let _ = b1 & 0xc0;
        let u1 = Utf8View { pending: seq![b0], needed: 2 };
        assert(idle.step(b0) == (u1, None::<char>));
        assert(seq![b0].push(b1) =~= head);
        assert(u1.step(b1) == (idle, Some(c)));
        assert(head.drop_first() =~= seq![b1]);
        assert(head.drop_first().drop_first() =~= Seq::<u8>::empty());
        reveal_with_fuel(utf8_feed, 3);
        assert(seq![c] + Seq::<char>::empty() =~= seq![c]);
    } else if k == 3 {
        let b1 = bytes[1];
        let b2 = bytes[2];
        let _ = b1 & 0xc0;
        let _ = b2 & 0xc0;
        let u1 = Utf8View { pending: seq![b0], needed: 3 };
        let u2 = Utf8View { pending: seq![b0, b1], needed: 3 };
        assert(idle.step(b0) == (u1, None::<char>));
        assert(seq![b0].push(b1) =~= seq![b0, b1]);
        assert(u1.step(b1) == (u2, None::<char>));
        assert(seq![b0, b1].push(b2) =~= head);
        assert(u2.step(b2) == (idle, Some(c)));
        assert(head.drop_first() =~= seq![b1, b2]);
        assert(head.drop_first().drop_first() =~= seq![b2]);
        assert(head.drop_first().drop_first().drop_first() =~= Seq::<u8>::empty());
        reveal_with_fuel(utf8_feed, 4);
        assert(seq![c] + Seq::<char>::empty() =~= seq![c]);
    } else {
        let b1 = bytes[1];
        let b2 = bytes[2];
        let b3 = bytes[3];
        let _ = b1 & 0xc0;
        let _ = b2 & 0xc0;
        let _ = b3 & 0xc0;
        let u1 = Utf8View { pending: seq![b0], needed: 4 };
        let u2 = Utf8View { pending: seq![b0, b1], needed: 4 };
        let u3 = Utf8View { pending: seq![b0, b1, b2], needed: 4 };
        assert(idle.step(b0) == (u1, None::<char>));
        assert(seq![b0].push(b1) =~= seq![b0, b1]);
        assert(u1.step(b1) == (u2, None::<char>));
        assert(seq![b0, b1].push(b2) =~= seq![b0, b1, b2]);
        assert(u2.step(b2) == (u3, None::<char>));
        assert(seq![b0, b1, b2].push(b3) =~= head);
        assert(u3.step(b3) == (idle, Some(c)));
        assert(head.drop_first() =~= seq![b1, b2, b3]);
        assert(head.drop_first().drop_first() =~= seq![b2, b3]);
        assert(head.drop_first().drop_first().drop_first() =~= seq![b3]);
        assert(head.drop_first().drop_first().drop_first().drop_first() =~= Seq::<u8>::empty());
        reveal_with_fuel(utf8_feed, 5);
        assert(seq![c] + Seq::<char>::empty() =~= seq![c]);
    }
}

proof fn lemma_decode_valid(bytes: Seq<u8>)
    requires
        valid_utf8(bytes),
    ensures
        utf8_feed(Utf8View::idle(), bytes) == (Utf8View::idle(), decode_utf8(bytes)),
    decreases bytes.len(),
{
    if bytes.len() > 0 {
        lemma_decode_one_scalar(bytes);
        let k = length_of_first_scalar(bytes);
        let rest = pop_first_scalar(bytes);
        assert(bytes =~= bytes.take(k) + rest);
        lemma_utf8_feed_concat(Utf8View::idle(), bytes.take(k), rest);
        lemma_decode_valid(rest);
    }
}

/// The decoder reads back any text from its UTF-8 encoding: fed the
/// encoding byte by byte from its idle state, it yields exactly the text's
/// characters and ends idle.
pub proof fn law_utf8_decoder_reads_encoded_text(text: Seq<char>)
    ensures
        utf8_feed(Utf8View::idle(), encode_utf8(text)) == (Utf8View::idle(), text),
{
    vstd::utf8::encode_utf8_valid_utf8(text);
    vstd::utf8::encode_utf8_decode_utf8(text);
    lemma_decode_valid(encode_utf8(text));
}

} // verus!

verus! {

/// A printable ASCII character read outside any sequence is written, in the
/// pen's colors and weight, at the cursor, which moves one column right (at
/// the right edge of the screen it first wraps to the next line, and columns
/// past the line limit are not kept).
pub proof fn law_printable_ascii_is_written(p: VtView, buf: ScrollbackView, b: u8)
    requires
        p.state == VtState::Ground,
        p.utf8 == Utf8View::idle(),
        0x20 <= b <= 0x7e,
        buf.wf(),
        buf.screen_cols == 0 || buf.cursor_col < buf.screen_cols,
        buf.cursor_col < LINE_MAX_BYTES,
    ensures
        ({
            let (p1, b1) = feed(p, buf, seq![b]);
            &&& p1 == p
            &&& b1.wf()
            &&& b1.cursor_row == buf.cursor_row
            &&& b1.cursor_col == buf.cursor_col + 1
            &&& b1.rows.len() == buf.rows.len()
            &&& b1.rows[buf.cursor_row][buf.cursor_col] == (Cell {
                ch: b as char,
                fg: p.pen.fg,
                bg: p.pen.bg,
                bold: p.pen.bold,
            })
            &&& forall|i: int| 0 <= i < buf.rows.len() && i != buf.cursor_row ==> b1.rows[i] == buf.rows[i]
        }),
{
    let bytes = seq![b];
    assert(bytes.drop_last() =~= Seq::<u8>::empty());
    reveal_with_fuel(feed, 2);
    let cell = Cell { ch: b as char, fg: p.pen.fg, bg: p.pen.bg, bold: p.pen.bold };
    assert(p.utf8.step(b) == (Utf8View::idle(), Some(b as char)));
    assert(advance(p, buf, b) == (p, buf.write_cell(cell)));
    let row = buf.rows[buf.cursor_row];
    let written = row_write_at(row, buf.cursor_col, cell);
    assert(written[buf.cursor_col] == cell);
}

} // verus!

verus! {

proof fn lemma_first_scalar_prefix_silent(bytes: Seq<u8>)
    requires
        valid_utf8(bytes),
        bytes.len() > 0,
    ensures
        forall|j: int|
            0 <= j < length_of_first_scalar(bytes) ==> (#[trigger] utf8_feed(
                Utf8View::idle(),
                bytes.take(j),
            )).1.len() == 0,
{
    broadcast use vstd::utf8::utf8_byte_ranges_bitwise;

    let k = length_of_first_scalar(bytes);
    assert(valid_first_scalar(bytes));
    let idle = Utf8View::idle();
    let b0 = bytes[0];
    let _ = b0 & 0xc0;
    let _ = b0 & 0xe0;
    let _ = b0 & 0xf0;
    let _ = b0 & 0xf8;
    let _ = b0 & 0x80;
    assert(bytes.take(0) =~= Seq::<u8>::empty());
    assert(utf8_feed(idle, Seq::<u8>::empty()).1.len() == 0);
    if k >= 2 {
        let u1 = Utf8View { pending: seq![b0], needed: k as nat };
        assert(idle.step(b0) == (u1, None::<char>));
        assert(bytes.take(1) =~= seq![b0]);
        assert(seq![b0].drop_first() =~= Seq::<u8>::empty());
        assert(utf8_feed(u1, Seq::<u8>::empty()) == (u1, Seq::<char>::empty()));
        assert(utf8_feed(idle, bytes.take(1)).1.len() == 0);
        if k >= 3 {
            let b1 = bytes[1];
            let _ = b1 & 0xc0;
            let u2 = Utf8View { pending: seq![b0, b1], needed: k as nat };
            assert(seq![b0].push(b1) =~= seq![b0, b1]);
            assert(u1.step(b1) == (u2, None::<char>));
            assert(bytes.take(2) =~= seq![b0, b1]);
            assert(seq![b0, b1].drop_first() =~= seq![b1]);
            assert(seq![b1].drop_first() =~= Seq::<u8>::empty());
            assert(utf8_feed(u2, Seq::<u8>::empty()) == (u2, Seq::<char>::empty()));
            assert(utf8_feed(u1, seq![b1]) == (u2, Seq::<char>::empty()));
            assert(utf8_feed(idle, bytes.take(2)).1.len() == 0);
            if k >= 4 {
                let b2 = bytes[2];
                let _ = b2 & 0xc0;
                let u3 = Utf8View { pending: seq![b0, b1, b2], needed: k as nat };
                assert(seq![b0, b1].push(b2) =~= seq![b0, b1, b2]);
                assert(u2.step(b2) == (u3, None::<char>));
                assert(bytes.take(3) =~= seq![b0, b1, b2]);
                assert(seq![b0, b1, b2].drop_first() =~= seq![b1, b2]);
                assert(seq![b1, b2].drop_first() =~= seq![b2]);
                assert(seq![b2].drop_first() =~= Seq::<u8>::empty());
                assert(utf8_feed(u3, Seq::<u8>::empty()) == (u3, Seq::<char>::empty()));
                assert(utf8_feed(u2, seq![b2]) == (u3, Seq::<char>::empty()));
                assert(utf8_feed(u1, seq![b1, b2]) == (u3, Seq::<char>::empty()));
                assert(utf8_feed(idle, bytes.take(3)).1.len() == 0);
            }
        }
    }
}

/// Fed the UTF-8 encoding of one character from its idle state, the decoder
/// yields nothing before the last byte; the last byte yields the character
/// and leaves the decoder idle.
pub proof fn law_utf8_char_on_last_byte(c: char)
    ensures
        ({
            let e = encode_utf8(seq![c]);
            &&& 1 <= e.len() <= 4
            &&& forall|j: int|
                0 <= j < e.len() ==> (#[trigger] utf8_feed(Utf8View::idle(), e.take(j))).1.len() == 0
            &&& utf8_feed(Utf8View::idle(), e) == (Utf8View::idle(), seq![c])
        }),
{
    let text = seq![c];
    let e = encode_utf8(text);
    vstd::utf8::encode_utf8_valid_utf8(text);
    vstd::utf8::encode_utf8_first_scalar(text);
    assert(text.drop_first() =~= Seq::<char>::empty());
    assert(encode_utf8(Seq::<char>::empty()) =~= Seq::<u8>::empty());
    assert(e =~= vstd::utf8::encode_scalar(c as u32) + encode_utf8(text.drop_first()));
    lemma_decode_one_scalar(e);
    lemma_first_scalar_prefix_silent(e);
    law_utf8_decoder_reads_encoded_text(text);
}

} // verus!

verus! {

proof fn lemma_two_digit_field(d1: u8, d2: u8)
    requires
        0x30 <= d1 <= 0x39,
        0x30 <= d2 <= 0x39,
    ensures
        split_fields(seq![d1, d2], 0x3b) == seq![seq![d1, d2]],
        parse_unsigned(seq![d1, d2], u8::MAX as nat) == Some(((d1 - 0x30) * 10 + (d2 - 0x30)) as nat),
{
    let s = seq![d1, d2];
    assert(s.drop_last() =~= seq![d1]);
    assert(seq![d1].drop_last() =~= Seq::<u8>::empty());
    assert(split_fields(Seq::<u8>::empty(), 0x3b) == seq![Seq::<u8>::empty()]);
    assert(Seq::<u8>::empty().push(d1) =~= seq![d1]);
    assert(split_fields(seq![d1], 0x3b) =~= seq![seq![d1]]);
    assert(seq![d1].push(d2) =~= s);
    assert(split_fields(s, 0x3b) =~= seq![s]);
    assert(crate::decimal::unsigned_digits(s) == s);
    assert(crate::decimal::digits_value(seq![d1]) == (d1 - 0x30) as nat) by {
        assert(seq![d1].drop_last() =~= Seq::<u8>::empty());
        assert(crate::decimal::digits_value(Seq::<u8>::empty()) == 0);
        assert(seq![d1].last() == d1);
    }
    assert(s.last() == d2);
    assert(crate::decimal::digits_value(s) == ((d1 - 0x30) * 10 + (d2 - 0x30)) as nat);
}

proof fn lemma_sgr_single_code(params: Seq<u8>, code: u8, pen: Pen)
    requires
        params.len() > 0,
        sgr_codes(split_fields(params, 0x3b)) == seq![code],
    ensures
        apply_sgr(params, pen) == sgr_step(seq![code], 0, pen).0,
{
    let codes = seq![code];
    let (p, next) = sgr_step(codes, 0, pen);
    assert(next >= 1);
    assert(sgr_run(codes, next, p) == p);
}

proof fn lemma_sgr_codes_of_one(f: Seq<u8>, code: u8)
    requires
        parse_unsigned(f, u8::MAX as nat) == Some(code as nat),
    ensures
        sgr_codes(seq![f]) == seq![code],
{
    assert(seq![f].drop_last() =~= Seq::<Seq<u8>>::empty());
    assert(seq![f].last() == f);
    assert(sgr_codes(Seq::<Seq<u8>>::empty()) == Seq::<u8>::empty());
    assert(((code as nat) as u8) == code);
    assert(Seq::<u8>::empty().push(code) =~= seq![code]);
}

/// Each of SGR `39`, `49` and `22` resets, whatever the pen, only the
/// foreground, only the background or only the weight; `0` and an empty
/// sequence reset all three.
pub proof fn law_sgr_single_resets(pen: Pen)
    ensures
        apply_sgr(seq![0x33u8, 0x39u8], pen) == (Pen { fg: None, ..pen }),
        apply_sgr(seq![0x34u8, 0x39u8], pen) == (Pen { bg: None, ..pen }),
        apply_sgr(seq![0x32u8, 0x32u8], pen) == (Pen { bold: false, ..pen }),
        apply_sgr(seq![0x30u8], pen) == plain_pen(),
        apply_sgr(Seq::<u8>::empty(), pen) == plain_pen(),
{
    lemma_two_digit_field(0x33, 0x39);
    lemma_sgr_codes_of_one(seq![0x33u8, 0x39u8], 39);
    lemma_sgr_single_code(seq![0x33u8, 0x39u8], 39, pen);
    lemma_two_digit_field(0x34, 0x39);
    lemma_sgr_codes_of_one(seq![0x34u8, 0x39u8], 49);
    lemma_sgr_single_code(seq![0x34u8, 0x39u8], 49, pen);
    lemma_two_digit_field(0x32, 0x32);
    lemma_sgr_codes_of_one(seq![0x32u8, 0x32u8], 22);
    lemma_sgr_single_code(seq![0x32u8, 0x32u8], 22, pen);
    let z = seq![0x30u8];
    assert(z.drop_last() =~= Seq::<u8>::empty());
    assert(split_fields(Seq::<u8>::empty(), 0x3b) == seq![Seq::<u8>::empty()]);
    assert(Seq::<u8>::empty().push(0x30u8) =~= z);
    assert(split_fields(z, 0x3b) =~= seq![z]);
    assert(crate::decimal::unsigned_digits(z) == z);
    assert(crate::decimal::digits_value(Seq::<u8>::empty()) == 0);
    assert(z.last() == 0x30u8);
    assert(crate::decimal::digits_value(z) == 0);
    lemma_sgr_codes_of_one(z, 0);
    lemma_sgr_single_code(z, 0, pen);
}

proof fn lemma_sgr_codes_concat(a: Seq<Seq<u8>>, b: Seq<Seq<u8>>)
    ensures
        sgr_codes(a + b) == sgr_codes(a) + sgr_codes(b),
    decreases b.len(),
{
    if b.len() == 0 {
        assert(a + b =~= a);
        assert(sgr_codes(a) + Seq::<u8>::empty() =~= sgr_codes(a));
    } else {
        assert((a + b).drop_last() =~= a + b.drop_last());
        assert((a + b).last() == b.last());
        lemma_sgr_codes_concat(a, b.drop_last());
        match parse_unsigned(b.last(), u8::MAX as nat) {
            Some(v) => {
                assert(sgr_codes(a) + sgr_codes(b.drop_last()).push(v as u8) =~= (sgr_codes(a)
                    + sgr_codes(b.drop_last())).push(v as u8));
            },
            None => {},
        }
    }
}

/// An SGR field that is not a byte value (such as `300` or `x`) is ignored:
/// the codes are those of the other fields, in order.
pub proof fn law_sgr_ignores_non_byte_field(a: Seq<Seq<u8>>, x: Seq<u8>, b: Seq<Seq<u8>>)
    requires
        parse_unsigned(x, u8::MAX as nat) is None,
    ensures
        sgr_codes(a + seq![x] + b) == sgr_codes(a + b),
{
    lemma_sgr_codes_concat(a + seq![x], b);
    lemma_sgr_codes_concat(a, b);
    assert((a + seq![x]).drop_last() =~= a);
    assert((a + seq![x]).last() == x);
}

/// SGR parameters none of whose fields is a byte value leave the pen as it is.
pub proof fn law_sgr_without_codes_keeps_pen(params: Seq<u8>, pen: Pen)
    requires
        params.len() > 0,
        forall|i: int|
            0 <= i < split_fields(params, 0x3b).len() ==> parse_unsigned(
                #[trigger] split_fields(params, 0x3b)[i],
                u8::MAX as nat,
            ) is None,
    ensures
        apply_sgr(params, pen) == pen,
{
    let fields = split_fields(params, 0x3b);
    lemma_sgr_codes_none(fields);
}

proof fn lemma_sgr_codes_none(fields: Seq<Seq<u8>>)
    requires
        forall|i: int| 0 <= i < fields.len() ==> parse_unsigned(#[trigger] fields[i], u8::MAX as nat) is None,
    ensures
        sgr_codes(fields).len() == 0,
    decreases fields.len(),
{
    if fields.len() > 0 {
        assert(parse_unsigned(fields[fields.len() - 1], u8::MAX as nat) is None);
        lemma_sgr_codes_none(fields.drop_last());
    }
}

} // verus!

verus! {

/// The 8-color palette in the standard order: black, red, green, yellow,
/// blue, magenta, cyan, white (grey), normal and bright.
pub proof fn law_ansi_palette_order()
    ensures
        ansi_color(0, false) == Color::Black,
        ansi_color(1, false) == Color::DarkRed,
        ansi_color(2, false) == Color::DarkGreen,
        ansi_color(3, false) == Color::DarkYellow,
        ansi_color(4, false) == Color::DarkBlue,
        ansi_color(5, false) == Color::DarkMagenta,
        ansi_color(6, false) == Color::DarkCyan,
        ansi_color(7, false) == Color::Grey,
        ansi_color(0, true) == Color::DarkGrey,
        ansi_color(1, true) == Color::Red,
        ansi_color(2, true) == Color::Green,
        ansi_color(3, true) == Color::Yellow,
        ansi_color(4, true) == Color::Blue,
        ansi_color(5, true) == Color::Magenta,
        ansi_color(6, true) == Color::Cyan,
        ansi_color(7, true) == Color::White,
{
}

/// SGR `3d` sets only the foreground and `4d` only the background, in any
/// pen, to the palette color of index `d` (0 to 7); so `35`/`45` give
/// magenta and `36`/`46` cyan.
pub proof fn law_sgr_palette_colors(pen: Pen, d: u8)
    requires
        d <= 7,
    ensures
        apply_sgr(seq![0x33u8, (0x30 + d) as u8], pen) == (Pen { fg: Some(ansi_color(d, false)), ..pen }),
        apply_sgr(seq![0x34u8, (0x30 + d) as u8], pen) == (Pen { bg: Some(ansi_color(d, false)), ..pen }),
        d == 5 ==> apply_sgr(seq![0x33u8, 0x35u8], pen).fg == Some(Color::DarkMagenta),
        d == 6 ==> apply_sgr(seq![0x33u8, 0x36u8], pen).fg == Some(Color::DarkCyan),
        d == 5 ==> apply_sgr(seq![0x34u8, 0x35u8], pen).bg == Some(Color::DarkMagenta),
        d == 6 ==> apply_sgr(seq![0x34u8, 0x36u8], pen).bg == Some(Color::DarkCyan),
{
    let c = (0x30 + d) as u8;
    law_ansi_palette_order();
    lemma_two_digit_field(0x33, c);
    lemma_sgr_codes_of_one(seq![0x33u8, c], (30 + d) as u8);
    lemma_sgr_single_code(seq![0x33u8, c], (30 + d) as u8, pen);
    assert(((30 + d) as u8 - 30) as u8 == d);
    lemma_two_digit_field(0x34, c);
    lemma_sgr_codes_of_one(seq![0x34u8, c], (40 + d) as u8);
    lemma_sgr_single_code(seq![0x34u8, c], (40 + d) as u8, pen);
    assert(((40 + d) as u8 - 40) as u8 == d);
}

} // verus!
