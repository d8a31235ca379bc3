use den::command::{Command, Edit, Move, MoveDirection, System};
use den::editor::{CaretPlace, Editor, EditorFacts, Effect, PromptType, QUIT_TIMES};
use den::file_tree::{DirEntry, DirListing};
use den::geometry::{Position, Size};

fn show(e: &Effect) -> String {
    match e {
        Effect::ViewEdit(x) => format!("ViewEdit({x:?})"),
        Effect::ViewMove(m) => format!("ViewMove({:?})", m.direction),
        Effect::ViewClearSelection => "ViewClearSelection".into(),
        Effect::ViewEnterSearch => "ViewEnterSearch".into(),
        Effect::ViewDismissSearch => "ViewDismissSearch".into(),
        Effect::ViewExitSearch => "ViewExitSearch".into(),
        Effect::ViewSearch => "ViewSearch".into(),
        Effect::ViewSearchNext => "ViewSearchNext".into(),
        Effect::ViewSearchPrev => "ViewSearchPrev".into(),
        Effect::ViewMarkRedraw => "ViewMarkRedraw".into(),
        Effect::ViewSetColOffset(c) => format!("ViewSetColOffset({c})"),
        Effect::ViewResize(s) => format!("ViewResize({}x{})", s.height, s.width),
        Effect::OpenFile(p) => format!("OpenFile({p})"),
        Effect::Save => "Save".into(),
        Effect::SaveAs(n) => format!("SaveAs({n})"),
        Effect::ReplaceAll(q, r) => format!("ReplaceAll({q},{r})"),
        Effect::CommandBarEdit(x) => format!("CommandBarEdit({x:?})"),
        Effect::CommandBarSetPrompt(p) => format!("CommandBarSetPrompt({p})"),
        Effect::CommandBarClear => "CommandBarClear".into(),
        Effect::CommandBarResize(s) => format!("CommandBarResize({}x{})", s.height, s.width),
        Effect::MessageBarMarkRedraw => "MessageBarMarkRedraw".into(),
        Effect::MessageBarResize(s) => format!("MessageBarResize({}x{})", s.height, s.width),
        Effect::StatusBarResize(s) => format!("StatusBarResize({}x{})", s.height, s.width),
        Effect::Message(m) => format!("Message({m})"),
        Effect::RefreshStatus => "RefreshStatus".into(),
        Effect::ViewPaste(t) => format!("ViewPaste({t})"),
    }
}

fn shown(es: &[Effect]) -> Vec<String> {
    es.iter().map(show).collect()
}

fn listings() -> Vec<DirListing> {
    vec![DirListing {
        dir: "/w".to_string(),
        entries: vec![
            DirEntry { path: "/w/src".to_string(), name: "src".to_string(), is_dir: true },
            DirEntry { path: "/w/main.rs".to_string(), name: "main.rs".to_string(), is_dir: false },
        ],
    }]
}

fn facts(modified: bool, loaded: bool, value: &str) -> EditorFacts {
    EditorFacts { is_modified: modified, file_loaded: loaded, command_bar_value: value.to_string() }
}

fn editor(sidebar: bool) -> Editor {
    Editor::new("/w".to_string(), sidebar, &listings(), Size { height: 24, width: 80 }).0
}

fn sys(s: System) -> Command {
    Command::System(s)
}

fn run(e: &mut Editor, c: Command, f: &EditorFacts) -> Vec<String> {
    shown(&e.process_command(c, f, &listings()))
}

#[test]
fn layout_with_and_without_the_sidebar() {
    let (_, fx) = Editor::new("/w".to_string(), true, &listings(), Size { height: 24, width: 80 });
    assert_eq!(
        shown(&fx),
        vec![
            "ViewSetColOffset(24)",
            "ViewResize(22x56)",
            "MessageBarResize(1x80)",
            "StatusBarResize(1x80)",
            "CommandBarResize(1x80)",
        ]
    );
    let (_, fx) = Editor::new("/w".to_string(), false, &listings(), Size { height: 1, width: 10 });
    assert_eq!(shown(&fx)[..2], ["ViewSetColOffset(0)", "ViewResize(0x10)"]);
}

#[test]
fn quit_without_changes_leaves_at_once() {
    let mut e = editor(false);
    assert!(!e.should_quit());
    let fx = run(&mut e, sys(System::Quit), &facts(false, true, ""));
    assert!(fx.is_empty());
    assert!(e.should_quit());
}

#[test]
fn quit_with_changes_needs_two_presses() {
    assert_eq!(QUIT_TIMES, 2);
    let mut e = editor(false);
    let f = facts(true, true, "");
    let fx = run(&mut e, sys(System::Quit), &f);
    assert_eq!(
        fx,
        vec!["Message(WARNING! File has unsaved changes. Press Ctrl-Q 1 more times to quit.)"]
    );
    assert!(!e.should_quit());
    run(&mut e, sys(System::Quit), &f);
    assert!(e.should_quit());
}

#[test]
fn another_command_resets_the_quit_count() {
    let mut e = editor(false);
    let f = facts(true, true, "");
    run(&mut e, sys(System::Quit), &f);
    let fx = run(&mut e, Command::Edit(Edit::Insert('x')), &f);
    assert_eq!(fx, vec!["Message()", "ViewEdit(Insert('x'))"]);
    run(&mut e, sys(System::Quit), &f);
    assert!(!e.should_quit());
    run(&mut e, sys(System::Quit), &f);
    assert!(e.should_quit());
}

#[test]
fn search_prompt_flow() {
    let mut e = editor(false);
    let fx = run(&mut e, sys(System::Search), &facts(false, true, ""));
    assert_eq!(
        fx,
        vec![
            "ViewEnterSearch",
            "CommandBarSetPrompt(Search (Esc to cancel, Arrows to navigate): )",
            "CommandBarClear",
        ]
    );
    assert!(e.in_prompt());
    let f = facts(false, true, "ab");
    assert_eq!(run(&mut e, Command::Edit(Edit::Insert('b')), &f), vec!["CommandBarEdit(Insert('b'))", "ViewSearch"]);
    let down = Command::Move(Move { direction: MoveDirection::Down, is_selection: false });
    let left = Command::Move(Move { direction: MoveDirection::Left, is_selection: false });
    let home = Command::Move(Move { direction: MoveDirection::Home, is_selection: false });
    assert_eq!(run(&mut e, down, &f), vec!["ViewSearchNext"]);
    assert_eq!(run(&mut e, left, &f), vec!["ViewSearchPrev"]);
    assert!(run(&mut e, home, &f).is_empty());
    assert!(run(&mut e, sys(System::Quit), &f).is_empty());
    assert!(!e.should_quit());
    assert_eq!(
        run(&mut e, sys(System::Dismiss), &f),
        vec!["MessageBarMarkRedraw", "CommandBarClear", "ViewDismissSearch"]
    );
    assert!(!e.in_prompt());
}

#[test]
fn enter_ends_a_search() {
    let mut e = editor(false);
    let f = facts(false, true, "ab");
    run(&mut e, sys(System::Search), &f);
    assert_eq!(
        run(&mut e, Command::Edit(Edit::InsertNewline), &f),
        vec!["MessageBarMarkRedraw", "CommandBarClear", "ViewExitSearch"]
    );
    assert!(!e.in_prompt());
}

#[test]
fn save_of_a_loaded_file_saves_directly() {
    let mut e = editor(false);
    assert_eq!(run(&mut e, sys(System::Save), &facts(true, true, "")), vec!["Save"]);
    assert!(!e.in_prompt());
    assert_eq!(show(&e.saved(true)), "Message(File saved successfully.)");
    assert_eq!(show(&e.saved(false)), "Message(Error writing file!)");
}

#[test]
fn save_as_prompt_flow() {
    let mut e = editor(false);
    assert_eq!(
        run(&mut e, sys(System::Save), &facts(true, false, "")),
        vec!["CommandBarSetPrompt(Save as: )", "CommandBarClear"]
    );
    assert!(e.in_prompt());
    let f = facts(true, false, "notes.txt");
    assert_eq!(run(&mut e, Command::Edit(Edit::Insert('t')), &f), vec!["CommandBarEdit(Insert('t'))"]);
    assert_eq!(
        run(&mut e, Command::Edit(Edit::InsertNewline), &f),
        vec!["SaveAs(notes.txt)", "MessageBarMarkRedraw", "CommandBarClear"]
    );
    assert!(!e.in_prompt());
}

#[test]
fn save_as_can_be_aborted() {
    let mut e = editor(false);
    run(&mut e, sys(System::Save), &facts(true, false, ""));
    assert_eq!(
        run(&mut e, sys(System::Dismiss), &facts(true, false, "x")),
        vec!["MessageBarMarkRedraw", "CommandBarClear", "Message(Save aborted.)"]
    );
}

#[test]
fn replace_flow() {
    let mut e = editor(false);
    assert_eq!(
        run(&mut e, sys(System::Replace), &facts(false, true, "")),
        vec!["ViewEnterSearch", "CommandBarSetPrompt(Replace (search): )", "CommandBarClear"]
    );
    assert_eq!(
        run(&mut e, Command::Edit(Edit::InsertNewline), &facts(false, true, "foo")),
        vec!["CommandBarSetPrompt(Replace with: )", "CommandBarClear"]
    );
    assert!(e.in_prompt());
    assert_eq!(
        run(&mut e, Command::Edit(Edit::InsertNewline), &facts(false, true, "bar")),
        vec!["ViewExitSearch", "ReplaceAll(foo,bar)", "MessageBarMarkRedraw", "CommandBarClear"]
    );
    assert!(!e.in_prompt());
    assert_eq!(show(&e.replaced(0)), "Message(No matches found.)");
    assert_eq!(show(&e.replaced(3)), "Message(Replaced 3 occurrence(s).)");
}

#[test]
fn dismiss_closes_every_prompt() {
    for (open, loaded) in [(System::Search, true), (System::Replace, true), (System::Save, false)] {
        let mut e = editor(false);
        run(&mut e, sys(open), &facts(false, loaded, ""));
        assert!(e.in_prompt());
        run(&mut e, sys(System::Dismiss), &facts(false, loaded, ""));
        assert!(!e.in_prompt());
    }
    let mut e = editor(false);
    run(&mut e, sys(System::Replace), &facts(false, true, ""));
    run(&mut e, Command::Edit(Edit::InsertNewline), &facts(false, true, "q"));
    run(&mut e, sys(System::Dismiss), &facts(false, true, ""));
    assert!(!e.in_prompt());
}

#[test]
fn resize_keeps_the_prompt() {
    let mut e = editor(false);
    run(&mut e, sys(System::Search), &facts(false, true, ""));
    let fx = run(&mut e, sys(System::Resize(Size { height: 10, width: 30 })), &facts(false, true, ""));
    assert_eq!(fx[1], "ViewResize(8x30)");
    assert!(e.in_prompt());
}

#[test]
fn dismiss_without_prompt_clears_the_selection() {
    let mut e = editor(false);
    assert_eq!(run(&mut e, sys(System::Dismiss), &facts(false, true, "")), vec!["ViewClearSelection"]);
}

#[test]
fn unhandled_system_commands_do_nothing() {
    let mut e = editor(false);
    assert!(run(&mut e, sys(System::StartDebug), &facts(false, true, "")).is_empty());
}

#[test]
fn sidebar_toggle_and_focus() {
    let mut e = editor(false);
    assert!(!e.sidebar_visible());
    let fx = run(&mut e, sys(System::ToggleSidebar), &facts(false, true, ""));
    assert_eq!(fx[0], "ViewSetColOffset(24)");
    assert_eq!(fx.last().unwrap(), "ViewMarkRedraw");
    assert!(e.sidebar_visible());
    // A shown sidebar takes the focus: Down moves its selection.
    let down = Command::Move(Move { direction: MoveDirection::Down, is_selection: false });
    assert!(run(&mut e, down, &facts(false, true, "")).is_empty());
    assert_eq!(e.sidebar().selected(), 1);
    // Escape gives the focus back to the view.
    assert_eq!(run(&mut e, sys(System::Dismiss), &facts(false, true, "")), vec!["ViewMarkRedraw"]);
    assert_eq!(run(&mut e, down, &facts(false, true, "")), vec!["ViewMove(Down)"]);
    let fx = run(&mut e, sys(System::ToggleSidebar), &facts(false, true, ""));
    assert_eq!(fx[0], "ViewSetColOffset(0)");
    assert!(!e.sidebar_visible());
}

#[test]
fn focus_sidebar_shows_it() {
    let mut e = editor(false);
    let fx = run(&mut e, sys(System::FocusSidebar), &facts(false, true, ""));
    assert_eq!(fx[0], "ViewSetColOffset(24)");
    assert!(e.sidebar_visible());
    let plan = e.screen_plan().unwrap();
    assert_eq!(plan.caret, CaretPlace::At(Position { row: 0, col: 0 }));
    assert!(plan.draw_sidebar);
}

#[test]
fn opening_a_file_from_the_sidebar() {
    let mut e = editor(true);
    run(&mut e, sys(System::FocusSidebar), &facts(false, true, ""));
    let down = Command::Move(Move { direction: MoveDirection::Down, is_selection: false });
    run(&mut e, down, &facts(false, true, ""));
    assert_eq!(
        run(&mut e, Command::Edit(Edit::InsertNewline), &facts(false, true, "")),
        vec!["OpenFile(/w/main.rs)"]
    );
    assert_eq!(shown(&e.file_opened(None)), vec!["RefreshStatus", "Message()", "ViewMarkRedraw"]);
    assert_eq!(e.screen_plan().unwrap().caret, CaretPlace::View);
    assert_eq!(
        shown(&e.file_opened(Some("denied".to_string()))),
        vec!["Message(ERROR: Could not open file: denied)", "ViewMarkRedraw"]
    );
}

#[test]
fn paste_goes_to_the_document_or_the_command_bar() {
    let mut e = editor(false);
    assert_eq!(shown(&e.paste("hi")), vec!["ViewPaste(hi)"]);
    run(&mut e, sys(System::Search), &facts(false, true, ""));
    assert_eq!(shown(&e.paste("hi")), vec!["CommandBarEdit(Insert('h'))", "CommandBarEdit(Insert('i'))"]);
    let mut s = editor(true);
    run(&mut s, sys(System::FocusSidebar), &facts(false, true, ""));
    assert!(s.paste("hi").is_empty());
}

#[test]
fn window_title_changes_once() {
    let mut e = editor(false);
    let t = e.refresh_status("main.rs").unwrap();
    assert_eq!(t, "main.rs - den");
    e.title_applied(t);
    assert_eq!(e.refresh_status("main.rs"), None);
    assert_eq!(e.refresh_status("lib.rs"), Some("lib.rs - den".to_string()));
}

#[test]
fn screen_plan_by_height() {
    let mut e = editor(false);
    let p = e.screen_plan().unwrap();
    assert_eq!(p.bottom_row, 23);
    assert_eq!(p.status_row, Some(22));
    assert!(p.draw_main && !p.draw_sidebar && !p.bottom_is_command_bar);
    run(&mut e, sys(System::Resize(Size { height: 2, width: 5 })), &facts(false, true, ""));
    let p = e.screen_plan().unwrap();
    assert_eq!((p.bottom_row, p.status_row, p.draw_main), (1, Some(0), false));
    run(&mut e, sys(System::Search), &facts(false, true, ""));
    assert_eq!(e.screen_plan().unwrap().caret, CaretPlace::CommandBar(1));
    run(&mut e, sys(System::Resize(Size { height: 0, width: 5 })), &facts(false, true, ""));
    assert!(e.screen_plan().is_none());
}

#[test]
fn prompt_type_is_none() {
    assert!(PromptType::Inactive.is_none());
    assert!(!PromptType::Search.is_none());
}
