use den::pane::{PtyEvent, TerminalPane, DEFAULT_PANEL_ROWS};
use den::scrollback::{ScrollbackBuffer, SCROLLBACK_MAX_LINES};
use den::style::{Cell, Color};
use den::vt::{ansi_color_of, Utf8Accum, VtParser};
use den::draw::DrawOp;
use den::geometry::Position;

fn row_text(buf: &ScrollbackBuffer, idx: usize) -> String {
    buf.row(idx).map(|r| r.cells.iter().map(|c| c.ch).collect()).unwrap_or_default()
}

fn run(bytes: &[u8]) -> (VtParser, ScrollbackBuffer) {
    let mut p = VtParser::new();
    let mut b = ScrollbackBuffer::new();
    assert_eq!(p.feed_checked(bytes, &mut b), None);
    (p, b)
}

#[test]
fn plain_text_fills_the_first_row() {
    let (_, b) = run(b"hello");
    assert_eq!(row_text(&b, 0), "hello");
    assert_eq!(b.cursor_row(), 0);
    assert_eq!(b.cursor_col(), 5);
    assert_eq!(b.len(), 1);
}

#[test]
fn carriage_return_and_line_feed_start_a_new_row() {
    let (_, b) = run(b"ab\r\ncd");
    assert_eq!(row_text(&b, 0), "ab");
    assert_eq!(row_text(&b, 1), "cd");
    assert_eq!((b.cursor_row(), b.cursor_col()), (1, 2));
}

#[test]
fn line_feed_keeps_the_column() {
    let (_, b) = run(b"ab\ncd");
    assert_eq!(row_text(&b, 1), "  cd");
}

#[test]
fn backspace_moves_left_and_overwrites() {
    let (_, b) = run(b"ab\x08c");
    assert_eq!(row_text(&b, 0), "ac");
    assert_eq!(b.cursor_col(), 2);
}

#[test]
fn backspace_at_column_zero_stays() {
    let (_, b) = run(b"\x08x");
    assert_eq!(row_text(&b, 0), "x");
}

#[test]
fn sgr_colors_and_reset_apply_to_written_cells() {
    let (_, b) = run(b"\x1b[31;1mX\x1b[mY\x1b[44mZ");
    let cells = &b.row(0).unwrap().cells;
    assert_eq!(cells[0], Cell { ch: 'X', fg: Some(Color::DarkRed), bg: None, bold: true });
    assert_eq!(cells[1], Cell { ch: 'Y', fg: None, bg: None, bold: false });
    assert_eq!(cells[2], Cell { ch: 'Z', fg: None, bg: Some(Color::DarkBlue), bold: false });
}

#[test]
fn sgr_extended_colors() {
    let (_, b) = run(b"\x1b[38;5;200mA\x1b[48;2;1;2;3mB\x1b[92mC");
    let cells = &b.row(0).unwrap().cells;
    assert_eq!(cells[0].fg, Some(Color::AnsiValue(200)));
    assert_eq!(cells[1].bg, Some(Color::Rgb { r: 1, g: 2, b: 3 }));
    assert_eq!(cells[2].fg, Some(Color::Green));
}

#[test]
fn reset_sequence_clears_the_pen() {
    // ESC [ m read outside any sequence resets the pen.
    let (_, b) = run(b"\x1b[1;33m\x1b[mQ");
    assert_eq!(b.row(0).unwrap().cells[0], Cell { ch: 'Q', fg: None, bg: None, bold: false });
}

#[test]
fn escape_c_resets_the_pen() {
    let (_, b) = run(b"\x1b[35m\x1bcQ");
    assert_eq!(b.row(0).unwrap().cells[0].fg, None);
}

#[test]
fn ansi_palette() {
    assert_eq!(ansi_color_of(0, false), Color::Black);
    assert_eq!(ansi_color_of(7, false), Color::Grey);
    assert_eq!(ansi_color_of(0, true), Color::DarkGrey);
    assert_eq!(ansi_color_of(7, true), Color::White);
    assert_eq!(ansi_color_of(8, true), Color::Reset);
}

#[test]
fn osc_title_is_skipped() {
    let (_, b) = run(b"\x1b]0;my title\x07A\x1b]2;t\x1b\\B");
    assert_eq!(row_text(&b, 0), "AB");
}

#[test]
fn utf8_characters_are_decoded() {
    let (_, b) = run("é世🦀".as_bytes());
    assert_eq!(row_text(&b, 0), "é世🦀");
}

#[test]
fn utf8_split_across_feeds_is_the_same_as_one_feed() {
    let text = "aé世🦀z\x1b[31mq\r\nw".as_bytes();
    let (_, whole) = run(text);
    for cut in 0..=text.len() {
        let mut p = VtParser::new();
        let mut b = ScrollbackBuffer::new();
        assert_eq!(p.feed_checked(&text[..cut], &mut b), None);
        assert_eq!(p.feed_checked(&text[cut..], &mut b), None);
        assert_eq!(b.len(), whole.len());
        for i in 0..b.len() {
            assert_eq!(b.row(i).unwrap().cells, whole.row(i).unwrap().cells);
        }
        assert_eq!((b.cursor_row(), b.cursor_col()), (whole.cursor_row(), whole.cursor_col()));
    }
}

#[test]
fn utf8_accumulator_reports_whole_characters() {
    let mut a = Utf8Accum::new();
    assert_eq!(a.feed(0xe4), None);
    assert_eq!(a.feed(0xb8), None);
    assert_eq!(a.feed(0x96), Some('世'));
    assert_eq!(a.feed(b'x'), Some('x'));
    // A stray continuation byte gives nothing.
    assert_eq!(a.feed(0x80), None);
    assert_eq!(a.feed(0xc3), None);
    a.reset();
    assert_eq!(a.feed(b'y'), Some('y'));
}

#[test]
fn cursor_position_is_relative_to_the_screen() {
    let mut p = VtParser::new();
    let mut b = ScrollbackBuffer::new();
    b.set_screen_size(80, 5);
    assert_eq!(p.feed_checked(b"\x1b[3;4HX", &mut b), None);
    assert_eq!(b.cursor_row(), 2);
    assert_eq!(b.cursor_col(), 4);
    assert_eq!(row_text(&b, 2), "   X");
}

#[test]
fn cursor_movement_sequences() {
    let mut p = VtParser::new();
    let mut b = ScrollbackBuffer::new();
    b.set_screen_size(80, 10);
    assert_eq!(p.feed_checked(b"\x1b[5B\x1b[3C\x1b[2A\x1b[D", &mut b), None);
    assert_eq!((b.cursor_row(), b.cursor_col()), (3, 2));
    assert_eq!(p.feed_checked(b"\x1b[10G", &mut b), None);
    assert_eq!(b.cursor_col(), 9);
    assert_eq!(p.feed_checked(b"\x1b[9A", &mut b), None);
    assert_eq!(b.cursor_row(), 0);
}

#[test]
fn erase_in_line_modes() {
    let (mut p, mut b) = run(b"abcdef\x1b[3G");
    assert_eq!(p.feed_checked(b"\x1b[K", &mut b), None);
    assert_eq!(row_text(&b, 0), "ab");
    let (mut p2, mut b2) = run(b"abcdef\x1b[3G");
    assert_eq!(p2.feed_checked(b"\x1b[1K", &mut b2), None);
    assert_eq!(row_text(&b2, 0), "   def");
    let (mut p3, mut b3) = run(b"abcdef");
    assert_eq!(p3.feed_checked(b"\x1b[2K", &mut b3), None);
    assert_eq!(row_text(&b3, 0), "");
}

#[test]
fn erase_in_display_clears_the_screen() {
    let mut p = VtParser::new();
    let mut b = ScrollbackBuffer::new();
    b.set_screen_size(10, 3);
    assert_eq!(p.feed_checked(b"one\r\ntwo\r\nthree\x1b[2J", &mut b), None);
    for i in 0..b.len() {
        assert_eq!(row_text(&b, i), "");
    }
}

#[test]
fn erase_below_the_cursor() {
    let mut p = VtParser::new();
    let mut b = ScrollbackBuffer::new();
    b.set_screen_size(10, 3);
    assert_eq!(p.feed_checked(b"one\r\ntwo\r\nthree\x1b[2;2H\x1b[J", &mut b), None);
    assert_eq!(row_text(&b, 0), "one");
    assert_eq!(row_text(&b, 1), "t");
    assert_eq!(row_text(&b, 2), "");
}

#[test]
fn writing_past_the_right_edge_wraps() {
    let mut p = VtParser::new();
    let mut b = ScrollbackBuffer::new();
    b.set_screen_size(3, 5);
    assert_eq!(p.feed_checked(b"abcde", &mut b), None);
    assert_eq!(row_text(&b, 0), "abc");
    assert_eq!(row_text(&b, 1), "de");
}

#[test]
fn line_feeds_keep_the_cursor_on_screen() {
    let mut p = VtParser::new();
    let mut b = ScrollbackBuffer::new();
    b.set_screen_size(80, 3);
    assert_eq!(p.feed_checked(b"1\n2\n3\n4\n", &mut b), None);
    assert_eq!(b.cursor_row(), 4);
    assert_eq!(b.screen_origin(), 2);
    assert!(b.screen_origin() <= b.cursor_row() && b.cursor_row() < b.screen_origin() + b.screen_rows());
}

#[test]
fn scrollback_is_bounded() {
    let mut p = VtParser::new();
    let mut b = ScrollbackBuffer::new();
    b.set_screen_size(80, 24);
    let mut bytes = Vec::new();
    for i in 0..(SCROLLBACK_MAX_LINES + 50) {
        bytes.extend_from_slice(format!("{}\r\n", i % 10).as_bytes());
    }
    assert_eq!(p.feed_checked(&bytes, &mut b), None);
    assert_eq!(b.len(), SCROLLBACK_MAX_LINES);
    assert!(b.cursor_row() < b.len());
    // The oldest rows were dropped: the first kept row is line 51 of the output.
    assert_eq!(row_text(&b, 0), "1");
}

#[test]
fn pane_polls_events_and_marks_redraw() {
    let mut pane = TerminalPane::new();
    assert_eq!(pane.rows, DEFAULT_PANEL_ROWS);
    pane.start(40);
    assert_eq!(pane.buffer().screen_cols(), 40);
    assert_eq!(pane.buffer().screen_rows(), DEFAULT_PANEL_ROWS - 1);
    assert_eq!(pane.poll(Vec::new()), Ok(false));
    assert!(!pane.needs_redraw());
    let r = pane.poll(vec![PtyEvent::Data(b"$ ls".to_vec()), PtyEvent::Closed]);
    assert_eq!(r, Ok(true));
    assert!(pane.needs_redraw());
    assert!(pane.is_closed());
    assert_eq!(row_text(pane.buffer(), 0), "$ ls");
    assert_eq!(pane.cursor_position(10), Position { row: 11, col: 4 });
    pane.stop();
    assert!(!pane.is_closed());
}

#[test]
fn pane_draw_commands() {
    let mut pane = TerminalPane::new();
    pane.rows = 3;
    pane.size.width = 4;
    pane.start(4);
    assert_eq!(pane.poll(vec![PtyEvent::Data(b"\x1b[1mab".to_vec())]), Ok(true));
    let ops = pane.draw(5);
    assert!(!pane.needs_redraw());
    let printed: Vec<String> = ops
        .iter()
        .filter_map(|o| match o {
            DrawOp::Print(s) => Some(s.clone()),
            _ => None,
        })
        .collect();
    assert_eq!(printed, vec!["────", "a", "b", "  ", "    "]);
    assert!(matches!(ops[0], DrawOp::MoveTo(Position { row: 5, col: 0 })));
    assert!(matches!(ops[2], DrawOp::MoveTo(Position { row: 6, col: 0 })));
    assert!(matches!(ops[3], DrawOp::ClearCurrentLine));
    assert!(matches!(ops[4], DrawOp::ResetColor));
    assert!(matches!(ops[5], DrawOp::SetBold));
    let last_move = ops
        .iter()
        .filter(|o| matches!(o, DrawOp::MoveTo(_)))
        .count();
    assert_eq!(last_move, 3);
}

#[test]
fn each_character_completes_on_its_last_byte() {
    for c in ['a', 'é', '世', '🦀', '\u{7f}', '\u{10ffff}'] {
        let mut a = Utf8Accum::new();
        let mut buf = [0u8; 4];
        let bytes = c.encode_utf8(&mut buf).as_bytes().to_vec();
        for b in &bytes[..bytes.len() - 1] {
            assert_eq!(a.feed(*b), None);
        }
        assert_eq!(a.feed(bytes[bytes.len() - 1]), Some(c));
        assert_eq!(a.feed(b'z'), Some('z'));
    }
}

#[test]
fn single_resets_change_one_attribute_and_non_byte_codes_are_ignored() {
    let (_, b) = run(b"\x1b[31;44;1mA\x1b[39mB\x1b[49mC\x1b[22mD\x1b[300;+mE\x1b[1;300;32mF");
    let cells = &b.row(0).unwrap().cells;
    assert_eq!(cells[0], Cell { ch: 'A', fg: Some(Color::DarkRed), bg: Some(Color::DarkBlue), bold: true });
    assert_eq!(cells[1], Cell { ch: 'B', fg: None, bg: Some(Color::DarkBlue), bold: true });
    assert_eq!(cells[2], Cell { ch: 'C', fg: None, bg: None, bold: true });
    assert_eq!(cells[3], Cell { ch: 'D', fg: None, bg: None, bold: false });
    assert_eq!(cells[4], Cell { ch: 'E', fg: None, bg: None, bold: false });
    assert_eq!(cells[5], Cell { ch: 'F', fg: Some(Color::DarkGreen), bg: None, bold: true });
}
