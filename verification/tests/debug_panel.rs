use den::debug::{
    panel_row, push_int, DebugPanel, DebugState, StackFrameSummary, ThreadSummary, VariableSummary,
    DEBUG_PANEL_DEFAULT_ROWS,
};
use den::geometry::Size;

fn var(name: &str, value: &str) -> VariableSummary {
    VariableSummary {
        name: name.to_string(),
        value: value.to_string(),
        value_type: "i32".to_string(),
        variables_reference: 0,
    }
}

fn active_state() -> DebugState {
    DebugState {
        active: true,
        current_thread_id: Some(7),
        threads: vec![ThreadSummary { id: 7, name: "main".to_string() }],
        stack_frames: vec![StackFrameSummary {
            id: 1,
            name: "run".to_string(),
            line: 12,
            column: -3,
            source_path: "src/a.rs".to_string(),
        }],
        variables: vec![var("x", "1"), var("y", "2"), var("z", "3")],
    }
}

#[test]
fn inactive_session_shows_one_line() {
    let mut p = DebugPanel::new();
    assert_eq!(p.rows, DEBUG_PANEL_DEFAULT_ROWS);
    assert!(!p.needs_redraw());
    p.update(&DebugState::default());
    assert!(p.needs_redraw());
    p.set_size(Size { height: 2, width: 20 });
    assert_eq!(p.render_lines(), vec![format!("{:<20}", "Debug: inactive"), " ".repeat(20)]);
}

#[test]
fn active_session_lines() {
    let mut p = DebugPanel::new();
    p.rows = 8;
    p.update(&active_state());
    p.set_size(Size { height: 9, width: 40 });
    let lines: Vec<String> = p.render_lines().iter().map(|l| l.trim_end().to_string()).collect();
    assert_eq!(
        lines,
        vec![
            "Debug Session",
            "Status: active  thread=7",
            "Frame",
            "  run (src/a.rs:12:-3)",
            "Variables",
            "  x = 1",
            "  y = 2",
            "",
            "",
        ]
    );
}

#[test]
fn default_height_shows_no_variables() {
    let mut p = DebugPanel::new();
    p.update(&active_state());
    p.set_size(Size { height: 6, width: 30 });
    let lines: Vec<String> = p.render_lines().iter().map(|l| l.trim_end().to_string()).collect();
    assert_eq!(lines[4], "Variables");
    assert_eq!(lines[5], "");
}

#[test]
fn missing_thread_frame_and_variables_show_dashes() {
    let mut p = DebugPanel::new();
    let s = DebugState { active: true, ..DebugState::default() };
    p.update(&s);
    p.set_size(Size { height: 6, width: 30 });
    let lines: Vec<String> = p.render_lines().iter().map(|l| l.trim_end().to_string()).collect();
    assert_eq!(lines, vec!["Debug Session", "Status: active  thread=-", "Frame", "  -", "Variables", "  -"]);
}

#[test]
fn unchanged_lines_do_not_ask_for_a_redraw() {
    let mut p = DebugPanel::new();
    p.update(&active_state());
    p.mark_redraw(false);
    p.update(&active_state());
    assert!(!p.needs_redraw());
    p.update(&DebugState::default());
    assert!(p.needs_redraw());
}

#[test]
fn column_offset() {
    let mut p = DebugPanel::new();
    p.set_col_offset(24);
    assert_eq!(p.col_offset(), 24);
}

#[test]
fn rows_are_padded_or_cut() {
    assert_eq!(panel_row("abc", 5), "abc  ");
    assert_eq!(panel_row("abcdef", 4), "abcd");
    // Two characters of four bytes: longer than 3 bytes, so cut to 3 characters.
    assert_eq!(panel_row("éé", 3), "éé");
    assert_eq!(panel_row("éé", 4), "éé  ");
    assert_eq!(panel_row("", 2), "  ");
}

#[test]
fn integers_in_decimal() {
    let mut v = Vec::new();
    push_int(&mut v, -42);
    push_int(&mut v, 0);
    push_int(&mut v, i64::MIN);
    assert_eq!(v.iter().collect::<String>(), format!("-420{}", i64::MIN));
}
