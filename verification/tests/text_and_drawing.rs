use den::adapters::{config_slot, merge_config_ids, ConfigSlot};
use den::csi::{decode_csi, parse_count, parse_mode, parse_sgr_codes, split_bytes, CsiAction};
use den::decimal::{parse_u8, parse_usize, push_decimal};
use den::draw::{AnnotatedPart, DrawOp, TextAttribute};
use den::geometry::Position;
use den::scrollback::{Row, LINE_MAX_BYTES};
use den::style::{Cell, Color};
use den::terminal::Terminal;
use den::text::{chars_of, pad_or_truncate_text};
use den::wide::{strip_unc_prefix, wide_string};

fn describe(op: &DrawOp) -> String {
    match op {
        DrawOp::MoveTo(p) => format!("MoveTo({},{})", p.row, p.col),
        DrawOp::ClearUntilNewLine => "ClearUntilNewLine".into(),
        DrawOp::ClearCurrentLine => "ClearCurrentLine".into(),
        DrawOp::SetForeground(c) => format!("Fg({c:?})"),
        DrawOp::SetBackground(c) => format!("Bg({c:?})"),
        DrawOp::ResetColor => "ResetColor".into(),
        DrawOp::SetBold => "Bold".into(),
        DrawOp::SetNormalIntensity => "Normal".into(),
        DrawOp::ResetAttributes => "ResetAttributes".into(),
        DrawOp::Print(s) => format!("Print({s})"),
    }
}

fn describe_all(ops: &[DrawOp]) -> Vec<String> {
    ops.iter().map(describe).collect()
}

#[test]
fn wide_strings_are_nul_terminated_utf16() {
    assert_eq!(wide_string(""), vec![0]);
    assert_eq!(wide_string("ab"), vec![0x61, 0x62, 0]);
    let expected: Vec<u16> = "é🦀".encode_utf16().chain(std::iter::once(0)).collect();
    assert_eq!(wide_string("é🦀"), expected);
    assert_eq!(wide_string("🦀"), vec![0xd83e, 0xdd80, 0]);
}

#[test]
fn verbatim_prefix_is_removed() {
    assert_eq!(strip_unc_prefix(r"\\?\C:\work"), r"C:\work");
    assert_eq!(strip_unc_prefix(r"C:\work"), r"C:\work");
    assert_eq!(strip_unc_prefix(r"\\?"), r"\\?");
    assert_eq!(strip_unc_prefix(r"\\?\"), "");
}

#[test]
fn inverted_row_pads_and_cuts_to_the_width() {
    assert_eq!(Terminal::inverted_row_text("abc", 5), "\x1b[7mabc  \x1b[0m");
    assert_eq!(Terminal::inverted_row_text("abcdef", 3), "\x1b[7mabc\x1b[0m");
    assert_eq!(Terminal::inverted_row_text("", 0), "\x1b[7m\x1b[0m");
    assert_eq!(Terminal::inverted_row_with("abc", 5, "<", ">"), "<abc  >");
    assert_eq!(Terminal::inverted_row_with("abcdef", 3, "", ""), "abc");
    let ops = Terminal::print_inverted_row(4, "st", 3);
    assert_eq!(describe_all(&ops), vec!["MoveTo(4,0)", "ClearUntilNewLine", "Print(\x1b[7mst \x1b[0m)"]);
}

#[test]
fn pad_or_truncate_by_display_width() {
    let s = |v: Vec<char>| v.into_iter().collect::<String>();
    assert_eq!(s(pad_or_truncate_text("ab", 4)), "ab  ");
    assert_eq!(s(pad_or_truncate_text("abcd", 4)), "abcd");
    assert_eq!(s(pad_or_truncate_text("abcde", 4)), "abc…");
    assert_eq!(s(pad_or_truncate_text("日本語", 5)), "日本…");
    assert_eq!(s(pad_or_truncate_text("日本語", 4)), "日… ");
    assert_eq!(s(pad_or_truncate_text("abc", 0)), "…");
    assert_eq!(chars_of("xé"), vec!['x', 'é']);
}

#[test]
fn gutter_row_of_a_plain_line() {
    let parts = vec![
        AnnotatedPart { text: "let".to_string(), attribute: Some(TextAttribute { foreground: Some(Color::Blue), background: None }) },
        AnnotatedPart { text: " x".to_string(), attribute: None },
    ];
    let ops = Terminal::print_annotated_row_with_gutter(3, 24, 40, " ", "  7 ", false, false, &parts, false);
    assert_eq!(
        describe_all(&ops),
        vec![
            "MoveTo(3,24)",
            "ClearUntilNewLine",
            "Fg(DarkGrey)",
            "Print( )",
            "ResetColor",
            "Fg(DarkGrey)",
            "Print(  7 )",
            "ResetColor",
            "Fg(Blue)",
            "Print(let)",
            "ResetColor",
            "Print( x)",
            "ResetColor",
            "ResetColor",
        ]
    );
}

#[test]
fn gutter_row_of_a_breakpoint_with_highlighted_prefix() {
    let ops = Terminal::print_annotated_row_with_gutter(0, 0, 10, "●", "1 ", true, false, &Vec::new(), true);
    assert_eq!(
        describe_all(&ops),
        vec!["MoveTo(0,0)", "ClearUntilNewLine", "Fg(Red)", "Print(●)", "ResetColor", "Print(1 )", "ResetColor", "ResetColor"]
    );
}

#[test]
fn gutter_row_where_the_program_stopped_is_padded_on_blue() {
    let parts = vec![AnnotatedPart {
        text: "日本".to_string(),
        attribute: Some(TextAttribute { foreground: None, background: Some(Color::Grey) }),
    }];
    let ops = Terminal::print_annotated_row_with_gutter(2, 0, 12, ">", "3 ", true, true, &parts, true);
    assert_eq!(
        describe_all(&ops),
        vec![
            "MoveTo(2,0)",
            "Bg(DarkBlue)",
            "ClearUntilNewLine",
            "Bg(DarkBlue)",
            "Fg(Yellow)",
            "Print(>)",
            "Bg(DarkBlue)",
            "Print(3 )",
            "ResetColor",
            "Bg(Grey)",
            "Bg(DarkBlue)",
            "Print(日本)",
            "ResetColor",
            "Bg(DarkBlue)",
            "Bg(DarkBlue)",
            "Print(     )",
            "ResetColor",
        ]
    );
    // A row already as wide as the screen gets no padding.
    let ops = Terminal::print_annotated_row_with_gutter(2, 0, 7, ">", "3 ", false, true, &parts, true);
    assert_eq!(describe_all(&ops).iter().filter(|d| d.starts_with("Print(")).count(), 3);
}

#[test]
fn user_configurations_win_over_defaults() {
    let kept = vec!["lldb".to_string(), "gdb".to_string()];
    assert_eq!(config_slot(&kept, &"gdb".to_string(), false), ConfigSlot::Replace(1));
    assert_eq!(config_slot(&kept, &"gdb".to_string(), true), ConfigSlot::Skip);
    assert_eq!(config_slot(&kept, &"python".to_string(), true), ConfigSlot::Append);
    assert_eq!(config_slot(&Vec::new(), &"python".to_string(), false), ConfigSlot::Append);
}

#[test]
fn control_sequence_parameters() {
    assert_eq!(parse_count(b""), 1);
    assert_eq!(parse_count(b"0"), 1);
    assert_eq!(parse_count(b"12"), 12);
    assert_eq!(parse_count(b"x"), 1);
    assert_eq!(parse_mode(b""), 0);
    assert_eq!(parse_mode(b"2"), 2);
    assert_eq!(parse_sgr_codes(b"1;;31"), vec![1, 31]);
    assert_eq!(split_bytes(b"a;b;", b';'), vec![b"a".to_vec(), b"b".to_vec(), Vec::new()]);
    assert_eq!(decode_csi(b"5;7", b'H'), CsiAction::Position(5, 7));
    assert_eq!(decode_csi(b"", b'H'), CsiAction::Position(1, 1));
    assert_eq!(decode_csi(b"3", b'A'), CsiAction::CursorUp(3));
    assert_eq!(decode_csi(b"1", b'K'), CsiAction::EraseLine(1));
    assert_eq!(decode_csi(b"", b'm'), CsiAction::Sgr);
    assert_eq!(decode_csi(b"?25", b'h'), CsiAction::Ignore);
}

#[test]
fn decimal_parsing_and_printing() {
    assert_eq!(parse_usize(b"0042"), Some(42));
    assert_eq!(parse_usize(b"+7"), Some(7));
    assert_eq!(parse_usize(b""), None);
    assert_eq!(parse_usize(b"-1"), None);
    assert_eq!(parse_u8(b"255"), Some(255));
    assert_eq!(parse_u8(b"256"), None);
    let mut out = Vec::new();
    push_decimal(&mut out, 0);
    push_decimal(&mut out, 1907);
    assert_eq!(out, b"01907".to_vec());
}

#[test]
fn rows_write_and_clear() {
    let c = |ch| Cell { ch, fg: Some(Color::Red), bg: None, bold: false };
    let mut r = Row::new();
    r.write_at(2, c('x'));
    assert_eq!(r.cells, vec![Cell::blank(), Cell::blank(), c('x')]);
    r.write_at(LINE_MAX_BYTES, c('y'));
    assert_eq!(r.cells.len(), 3);
    r.clear_to(2);
    assert_eq!(r.cells, vec![Cell::blank(), Cell::blank(), c('x')]);
    r.write_at(0, c('a'));
    r.clear_to(1);
    assert_eq!(r.cells[0], Cell::default());
    r.clear_from(1);
    assert_eq!(r.cells.len(), 1);
    r.clear();
    assert!(r.cells.is_empty());
    let _ = Position { row: 0, col: 0 };
}

#[test]
fn merged_configurations_keep_one_per_id_and_user_ones_win() {
    let ids: Vec<String> = ["lldb", "gdb", "lldb", "gdb", "py", "py"].iter().map(|s| s.to_string()).collect();
    // Three user configurations, then three defaults.
    assert_eq!(merge_config_ids(&ids, 3), vec![2, 1, 4]);
    assert_eq!(merge_config_ids(&ids, 0), vec![0, 1, 4]);
    assert_eq!(merge_config_ids(&ids, 6), vec![2, 3, 5]);
    assert_eq!(merge_config_ids(&Vec::new(), 0), Vec::<usize>::new());
}
