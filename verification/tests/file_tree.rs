use den::command::MoveDirection;
use den::file_tree::{
    format_line, format_line_with, sort_dir_entries, DirEntry, DirListing, FileTree, VisibleEntry, TREE_CONTENT_WIDTH,
    TREE_WIDTH,
};
use den::geometry::{Position, Size};

fn entry(path: &str, is_dir: bool) -> DirEntry {
    DirEntry {
        path: path.to_string(),
        name: path.rsplit('/').next().unwrap().to_string(),
        is_dir,
    }
}

fn root_listing() -> DirListing {
    DirListing {
        dir: "/w".to_string(),
        entries: vec![entry("/w/b.txt", false), entry("/w/c", true), entry("/w/A", true)],
    }
}

fn c_listing() -> DirListing {
    DirListing { dir: "/w/c".to_string(), entries: vec![entry("/w/c/z.rs", false)] }
}

fn names(t: &FileTree) -> Vec<String> {
    t.render_lines()
        .iter()
        .map(|l| l.replace("\x1b[7m", "").replace("\x1b[0m", ""))
        .map(|l| l.trim_end_matches('|').trim().to_string())
        .filter(|l| !l.is_empty())
        .collect()
}

fn tall(mut t: FileTree) -> FileTree {
    t.set_size(Size { height: 10, width: TREE_WIDTH });
    t
}

#[test]
fn entries_sort_directories_first_then_by_lowercase_path() {
    let sorted = sort_dir_entries(&root_listing().entries);
    let paths: Vec<&str> = sorted.iter().map(|e| e.path.as_str()).collect();
    assert_eq!(paths, vec!["/w/A", "/w/c", "/w/b.txt"]);
}

#[test]
fn sort_is_case_insensitive_and_stable() {
    let es = vec![entry("/r/b", false), entry("/r/B", false), entry("/r/a", false)];
    let sorted = sort_dir_entries(&es);
    let paths: Vec<&str> = sorted.iter().map(|e| e.path.as_str()).collect();
    assert_eq!(paths, vec!["/r/a", "/r/b", "/r/B"]);
}

#[test]
fn new_tree_shows_the_root_entries() {
    let t = tall(FileTree::new("/w".to_string(), &vec![root_listing()]));
    assert_eq!(names(&t), vec!["A/", "c/", "b.txt"]);
    assert_eq!(t.selected(), 0);
    assert_eq!(t.selected_path(), Some("/w/A".to_string()));
    assert_eq!(t.workspace_root(), "/w");
    assert!(t.needs_redraw());
    assert!(!t.needs_rebuild());
}

#[test]
fn moving_down_and_up_stays_within_the_rows() {
    let mut t = tall(FileTree::new("/w".to_string(), &vec![root_listing()]));
    assert!(t.handle_move(MoveDirection::Up));
    assert_eq!(t.selected(), 0);
    for _ in 0..5 {
        assert!(t.handle_move(MoveDirection::Down));
    }
    assert_eq!(t.selected(), 2);
    assert!(t.handle_move(MoveDirection::ScrollUp));
    assert_eq!(t.selected(), 1);
    assert!(!t.handle_move(MoveDirection::PageDown));
    assert_eq!(t.selected(), 1);
}

#[test]
fn empty_tree_handles_nothing() {
    let mut t = FileTree::new("/empty".to_string(), &Vec::new());
    assert!(!t.handle_move(MoveDirection::Down));
    assert!(!t.handle_enter());
    assert_eq!(t.selected_path(), None);
}

#[test]
fn right_opens_and_left_closes_a_directory() {
    let listings = vec![root_listing(), c_listing()];
    let mut t = tall(FileTree::new("/w".to_string(), &listings));
    assert!(t.handle_move(MoveDirection::Down));
    assert!(t.handle_move(MoveDirection::Right));
    assert!(t.needs_rebuild());
    assert_eq!(t.expanded_dirs(), &vec!["/w/c".to_string()]);
    t.rebuild(&listings);
    assert!(!t.needs_rebuild());
    assert_eq!(names(&t), vec!["A/", "c/", "z.rs", "b.txt"]);
    assert_eq!(t.selected_path(), Some("/w/c".to_string()));
    // Opening an open directory again changes nothing.
    assert!(t.handle_move(MoveDirection::Right));
    assert!(!t.needs_rebuild());
    assert!(t.handle_move(MoveDirection::Left));
    assert!(t.needs_rebuild());
    t.rebuild(&listings);
    assert_eq!(names(&t), vec!["A/", "c/", "b.txt"]);
    assert!(t.expanded_dirs().is_empty());
    assert_eq!(t.selected_path(), Some("/w/c".to_string()));
}

#[test]
fn left_on_a_file_is_handled_without_change() {
    let mut t = tall(FileTree::new("/w".to_string(), &vec![root_listing()]));
    t.handle_move(MoveDirection::Down);
    t.handle_move(MoveDirection::Down);
    assert!(t.handle_move(MoveDirection::Left));
    assert!(!t.needs_rebuild());
    assert!(t.handle_move(MoveDirection::Right));
    assert!(!t.needs_rebuild());
}

#[test]
fn enter_twice_on_a_directory_restores_the_open_directories() {
    let listings = vec![root_listing(), c_listing()];
    let mut t = tall(FileTree::new("/w".to_string(), &listings));
    t.handle_move(MoveDirection::Down);
    assert!(t.handle_enter());
    t.rebuild(&listings);
    assert_eq!(names(&t), vec!["A/", "c/", "z.rs", "b.txt"]);
    assert!(t.handle_enter());
    t.rebuild(&listings);
    assert!(t.expanded_dirs().is_empty());
    assert_eq!(names(&t), vec!["A/", "c/", "b.txt"]);
}

#[test]
fn enter_on_a_file_chooses_it_for_opening() {
    let mut t = tall(FileTree::new("/w".to_string(), &vec![root_listing()]));
    t.handle_move(MoveDirection::Down);
    t.handle_move(MoveDirection::Down);
    assert!(t.handle_enter());
    assert_eq!(t.take_pending_open(), Some("/w/b.txt".to_string()));
    assert_eq!(t.take_pending_open(), None);
}

#[test]
fn rebuild_clamps_a_selection_whose_row_disappeared() {
    let listings = vec![root_listing()];
    let mut t = tall(FileTree::new("/w".to_string(), &listings));
    t.handle_move(MoveDirection::Down);
    t.handle_move(MoveDirection::Down);
    let smaller = vec![DirListing { dir: "/w".to_string(), entries: vec![entry("/w/A", true)] }];
    t.rebuild(&smaller);
    assert_eq!(t.selected(), 0);
    assert_eq!(t.selected_path(), Some("/w/A".to_string()));
}

#[test]
fn selection_follows_its_path_after_rebuild() {
    let listings = vec![root_listing()];
    let mut t = tall(FileTree::new("/w".to_string(), &listings));
    t.handle_move(MoveDirection::Down);
    t.handle_move(MoveDirection::Down);
    let more = vec![DirListing {
        dir: "/w".to_string(),
        entries: vec![entry("/w/b.txt", false), entry("/w/a0", true), entry("/w/c", true), entry("/w/A", true)],
    }];
    t.rebuild(&more);
    assert_eq!(t.selected_path(), Some("/w/b.txt".to_string()));
    assert_eq!(t.selected(), 3);
}

#[test]
fn window_scrolls_to_keep_the_selection_in_view() {
    let mut t = FileTree::new("/w".to_string(), &vec![root_listing()]);
    t.set_size(Size { height: 2, width: TREE_WIDTH });
    t.handle_move(MoveDirection::Down);
    assert_eq!(t.scroll(), 0);
    t.handle_move(MoveDirection::Down);
    assert_eq!(t.scroll(), 1);
    assert_eq!(t.caret_position(3), Position { row: 4, col: 0 });
    t.handle_move(MoveDirection::Up);
    t.handle_move(MoveDirection::Up);
    assert_eq!(t.scroll(), 0);
    assert_eq!(t.caret_position(3), Position { row: 3, col: 0 });
}

#[test]
fn rendered_lines_pad_to_the_content_width_with_a_border() {
    let mut t = FileTree::new("/w".to_string(), &vec![root_listing()]);
    t.set_size(Size { height: 4, width: TREE_WIDTH });
    let lines = t.render_lines();
    assert_eq!(lines.len(), 4);
    assert_eq!(lines[0], format!("\x1b[7m{:<23}\x1b[0m|", "A/"));
    assert_eq!(lines[1], format!("{:<23}|", "c/"));
    assert_eq!(lines[2], format!("{:<23}|", "b.txt"));
    assert_eq!(lines[3], format!("{}|", " ".repeat(TREE_CONTENT_WIDTH)));
}

#[test]
fn long_names_are_cut_with_an_ellipsis() {
    let e = VisibleEntry {
        path: "/x".to_string(),
        name: "abcdefghijklmnopqrstuvwxyz".to_string(),
        is_dir: false,
        depth: 1,
    };
    assert_eq!(format_line(&e, false), "  abcdefghijklmnopqrst…|");
}

#[test]
fn wide_characters_count_two_columns() {
    let e = VisibleEntry { path: "/x".to_string(), name: "日本語".to_string(), is_dir: true, depth: 0 };
    // 3 wide characters and a slash take 7 columns; 16 spaces pad to 23.
    assert_eq!(format_line(&e, false), format!("日本語/{}|", " ".repeat(16)));
    let long = VisibleEntry { path: "/x".to_string(), name: "日本語日本語日本語日本語".to_string(), is_dir: false, depth: 0 };
    // 11 wide characters fit in 22 columns, then the ellipsis.
    assert_eq!(format_line(&long, false), "日本語日本語日本語日本…|");
}

#[test]
fn selected_rows_use_the_given_rendition_texts() {
    let e = VisibleEntry { path: "/x".to_string(), name: "a".to_string(), is_dir: false, depth: 0 };
    assert_eq!(format_line_with(&e, true, "[", "]"), format!("[a{}]|", " ".repeat(22)));
    assert_eq!(format_line_with(&e, true, "", ""), format!("a{}|", " ".repeat(22)));
    assert_eq!(format_line_with(&e, false, "[", "]"), format!("a{}|", " ".repeat(22)));
    let mut t = FileTree::new("/w".to_string(), &vec![root_listing()]);
    t.set_size(Size { height: 2, width: TREE_WIDTH });
    let lines = t.render_lines_with("", "");
    assert_eq!(lines[0], format!("{:<23}|", "A/"));
}

#[test]
fn rows_and_selection_return_after_opening_and_closing() {
    let listings = vec![root_listing(), c_listing()];
    let mut t = tall(FileTree::new("/w".to_string(), &listings));
    t.handle_move(MoveDirection::Down);
    let before = t.render_lines();
    let sel = t.selected();
    t.handle_move(MoveDirection::Right);
    t.rebuild(&listings);
    assert_eq!(t.selected(), sel);
    t.handle_move(MoveDirection::Left);
    t.rebuild(&listings);
    assert_eq!(t.render_lines(), before);
    assert_eq!(t.selected(), sel);
    assert!(t.handle_enter());
    t.rebuild(&listings);
    assert_eq!(t.selected(), sel);
    assert!(t.handle_enter());
    t.rebuild(&listings);
    assert_eq!(t.render_lines(), before);
    assert_eq!(t.selected(), sel);
}
