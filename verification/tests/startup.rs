use den::startup::{open_failed_message, startup, PathFacts};

fn facts(exists: bool, is_dir: bool, is_file: bool, canonical: Option<&str>, parent: Option<&str>, parent_canonical: Option<&str>) -> PathFacts {
    PathFacts {
        exists,
        is_dir,
        is_file,
        canonical: canonical.map(str::to_string),
        parent: parent.map(str::to_string),
        parent_canonical: parent_canonical.map(str::to_string),
    }
}

fn none() -> PathFacts {
    facts(false, false, false, None, None, None)
}

#[test]
fn no_argument_starts_in_the_current_directory() {
    let s = startup(None, none(), "/home/u".to_string());
    assert_eq!(s.workspace_root, "/home/u");
    assert!(!s.sidebar_visible);
    assert_eq!(s.load_path, None);
    assert_eq!(s.message, None);
}

#[test]
fn a_missing_path_is_reported() {
    let s = startup(Some("nope.txt".to_string()), none(), "/home/u".to_string());
    assert_eq!(s.workspace_root, "/home/u");
    assert!(!s.sidebar_visible);
    assert_eq!(s.load_path, None);
    assert_eq!(s.message, Some("ERROR: Path does not exist: nope.txt".to_string()));
}

#[test]
fn a_directory_becomes_the_root_with_the_sidebar_shown() {
    let f = facts(true, true, false, Some("/abs/proj"), Some("."), Some("/abs"));
    let s = startup(Some("proj".to_string()), f, "/home/u".to_string());
    assert_eq!(s.workspace_root, "/abs/proj");
    assert!(s.sidebar_visible);
    assert_eq!(s.load_path, None);
    assert_eq!(s.message, None);
    let f = facts(true, true, false, None, None, None);
    assert_eq!(startup(Some("proj".to_string()), f, "/h".to_string()).workspace_root, "proj");
}

#[test]
fn a_file_is_opened_with_its_parent_as_root() {
    let f = facts(true, false, true, Some("/abs/src/main.rs"), Some("src"), Some("/abs/src"));
    let s = startup(Some("src/main.rs".to_string()), f, "/home/u".to_string());
    assert_eq!(s.workspace_root, "/abs/src");
    assert!(!s.sidebar_visible);
    assert_eq!(s.load_path, Some("/abs/src/main.rs".to_string()));
    assert_eq!(s.message, None);
    let f = facts(true, false, true, None, None, None);
    let s = startup(Some("main.rs".to_string()), f, "/home/u".to_string());
    assert_eq!(s.workspace_root, ".");
    assert_eq!(s.load_path, Some("main.rs".to_string()));
}

#[test]
fn something_else_that_exists_starts_like_no_argument() {
    let f = facts(true, false, false, Some("/dev/x"), Some("/dev"), Some("/dev"));
    let s = startup(Some("/dev/x".to_string()), f, "/home/u".to_string());
    assert_eq!(s.workspace_root, "/home/u");
    assert!(!s.sidebar_visible);
    assert_eq!(s.load_path, None);
    assert_eq!(s.message, None);
}

#[test]
fn open_failure_message() {
    assert_eq!(open_failed_message("/a/b.txt"), "ERROR: Could not open file: /a/b.txt");
}
