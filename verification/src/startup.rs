use vstd::prelude::*;
use crate::text::{push_str, string_from_chars};

verus! {

/// What the file system says of the path given on the command line.
pub struct PathFacts {
    pub exists: bool,
    pub is_dir: bool,
    pub is_file: bool,
    /// The path made absolute with links resolved, when that succeeds.
    pub canonical: Option<String>,
    /// The path's parent, when it has one.
    pub parent: Option<String>,
    /// The parent (or `.` when there is none) made absolute, when that succeeds.
    pub parent_canonical: Option<String>,
}

/// The abstract value of path facts.
pub struct PathFactsView {
    pub exists: bool,
    pub is_dir: bool,
    pub is_file: bool,
    pub canonical: Option<Seq<char>>,
    pub parent: Option<Seq<char>>,
    pub parent_canonical: Option<Seq<char>>,
}

/// The characters of an optional string.
pub open spec fn opt_view(s: Option<String>) -> Option<Seq<char>> {
    match s {
        Some(x) => Some(x@),
        None => None,
    }
}

impl View for PathFacts {
    type V = PathFactsView;

    open spec fn view(&self) -> PathFactsView {
        PathFactsView {
            exists: self.exists,
            is_dir: self.is_dir,
            is_file: self.is_file,
            canonical: opt_view(self.canonical),
            parent: opt_view(self.parent),
            parent_canonical: opt_view(self.parent_canonical),
        }
    }
}

/// How the editor starts: the directory its sidebar shows, whether the
/// sidebar is shown, the file to open, and the message to show.
pub struct Startup {
    pub workspace_root: String,
    pub sidebar_visible: bool,
    pub load_path: Option<String>,
    pub message: Option<String>,
}

/// The abstract value of a start-up decision.
pub struct StartupView {
    pub workspace_root: Seq<char>,
    pub sidebar_visible: bool,
    pub load_path: Option<Seq<char>>,
    pub message: Option<Seq<char>>,
}

impl View for Startup {
    type V = StartupView;

    open spec fn view(&self) -> StartupView {
        StartupView {
            workspace_root: self.workspace_root@,
            sidebar_visible: self.sidebar_visible,
            load_path: opt_view(self.load_path),
            message: opt_view(self.message),
        }
    }
}

/// `s`, or `d` when there is none.
pub open spec fn or_else(s: Option<Seq<char>>, d: Seq<char>) -> Seq<char> {
    match s {
        Some(x) => x,
        None => d,
    }
}

/// The start-up for the command-line argument `arg`, started from directory
/// `cwd`: with no argument, or one naming nothing, the current directory with
/// the sidebar hidden (and, for a missing path, a message saying so); a
/// directory becomes the root (made absolute when possible) with the sidebar
/// shown; a file is opened (by its absolute path when possible) with its
/// parent as the root and the sidebar hidden. Anything else that exists
/// starts like no argument.
pub open spec fn startup_of(arg: Option<Seq<char>>, f: PathFactsView, cwd: Seq<char>) -> StartupView {
    let plain = StartupView {
        workspace_root: cwd,
        sidebar_visible: false,
        load_path: None,
        message: None,
    };
    match arg {
        None => plain,
        Some(a) => if !f.exists {
            StartupView { message: Some("ERROR: Path does not exist: "@ + a), ..plain }
        } else if f.is_dir {
            StartupView { workspace_root: or_else(f.canonical, a), sidebar_visible: true, ..plain }
        } else if f.is_file {
            StartupView {
                workspace_root: or_else(f.parent_canonical, or_else(f.parent, "."@)),
                load_path: Some(or_else(f.canonical, a)),
                ..plain
            }
        } else {
            plain
        },
    }
}

fn joined(head: &str, tail: &str) -> (r: String)
    ensures
        r@ == head@ + tail@,
{
    let mut v: Vec<char> = Vec::new();
    push_str(&mut v, head);
    push_str(&mut v, tail);
    string_from_chars(v.as_slice())
}

fn first_or(s: Option<String>, d: String) -> (r: String)
    ensures
        r@ == or_else(opt_view(s), d@),
{
    match s {
        Some(x) => x,
        None => d,
    }
}

/// Decides how the editor starts (see `startup_of`).
pub fn startup(arg: Option<String>, facts: PathFacts, cwd: String) -> (r: Startup)
    ensures
        r@ == startup_of(opt_view(arg), facts@, cwd@),
{
    let ghost f = facts@;
    let ghost av = opt_view(arg);
    match arg {
        None => Startup { workspace_root: cwd, sidebar_visible: false, load_path: None, message: None },
        Some(a) => {
            if !facts.exists {
                let m = joined("ERROR: Path does not exist: ", a.as_str());
                Startup { workspace_root: cwd, sidebar_visible: false, load_path: None, message: Some(m) }
            } else if facts.is_dir {
                let root = first_or(facts.canonical, a);
                Startup { workspace_root: root, sidebar_visible: true, load_path: None, message: None }
            } else if facts.is_file {
                let parent = first_or(facts.parent, ".".to_owned());
                let root = first_or(facts.parent_canonical, parent);
                let file = first_or(facts.canonical, a);
                Startup {
                    workspace_root: root,
                    sidebar_visible: false,
                    load_path: Some(file),
                    message: None,
                }
            } else {
                Startup { workspace_root: cwd, sidebar_visible: false, load_path: None, message: None }
            }
        },
    }
}

/// The message shown when the file given on the command line cannot be opened.
pub fn open_failed_message(path: &str) -> (m: String)
    ensures
        m@ == "ERROR: Could not open file: "@ + path@,
{
    joined("ERROR: Could not open file: ", path)
}

} // verus!
