use vstd::prelude::*;
use crate::command::{Command, Edit, Move, MoveDirection, System};
use crate::decimal::{decimal_chars, push_decimal_chars};
use crate::file_tree::{DirListing, FileTree, FileTreeView, ListingView, TREE_WIDTH, listings_view, new_tree};
use crate::geometry::{Position, Size};
use crate::scrollback::sat_sub;
use crate::text::{chars_of, push_str, string_from_chars};

verus! {

/// The editor's name, shown in the window title.
pub const NAME: &'static str = "den";

/// How many times Quit must be pressed to leave with unsaved changes.
pub const QUIT_TIMES: u8 = 2;

/// The prompt shown in the command bar, if any.
#[derive(Clone, Copy, Debug, PartialEq, Eq, Structural)]
pub enum PromptType {
    Search,
    Save,
    ReplaceSearch,
    Replace,
    Inactive,
}

impl PromptType {
    /// No prompt is shown.
    pub fn is_none(&self) -> (r: bool)
        ensures
            r == (*self == PromptType::Inactive),
    {
        match self {
            PromptType::Inactive => true,
            _ => false,
        }
    }
}

/// What the editor asks of the text view, the bars and the file system
/// after a command, in order.
pub enum Effect {
    /// Apply an edit to the document; an error it reports goes to the message bar.
    ViewEdit(Edit),
    ViewMove(Move),
    ViewClearSelection,
    ViewEnterSearch,
    ViewDismissSearch,
    ViewExitSearch,
    /// Search the document for the command bar's current text.
    ViewSearch,
    ViewSearchNext,
    ViewSearchPrev,
    ViewMarkRedraw,
    ViewSetColOffset(usize),
    ViewResize(Size),
    /// Load this file into the view and report the outcome to `Editor::file_opened`.
    OpenFile(String),
    /// Save the document and report the outcome to `Editor::saved`.
    Save,
    /// Save the document under this name and report the outcome to `Editor::saved`.
    SaveAs(String),
    /// Replace every match of the query with the replacement and report the
    /// count to `Editor::replaced`.
    ReplaceAll(String, String),
    CommandBarEdit(Edit),
    CommandBarSetPrompt(String),
    CommandBarClear,
    CommandBarResize(Size),
    MessageBarMarkRedraw,
    MessageBarResize(Size),
    StatusBarResize(Size),
    /// Show this message in the message bar.
    Message(String),
    /// Refresh the status bar and the window title (see `Editor::refresh_status`).
    RefreshStatus,
    /// Paste this text into the document.
    ViewPaste(String),
}

/// The abstract value of an effect.
pub enum EffectView {
    ViewEdit(Edit),
    ViewMove(Move),
    ViewClearSelection,
    ViewEnterSearch,
    ViewDismissSearch,
    ViewExitSearch,
    ViewSearch,
    ViewSearchNext,
    ViewSearchPrev,
    ViewMarkRedraw,
    ViewSetColOffset(usize),
    ViewResize(Size),
    OpenFile(Seq<char>),
    Save,
    SaveAs(Seq<char>),
    ReplaceAll(Seq<char>, Seq<char>),
    CommandBarEdit(Edit),
    CommandBarSetPrompt(Seq<char>),
    CommandBarClear,
    CommandBarResize(Size),
    MessageBarMarkRedraw,
    MessageBarResize(Size),
    StatusBarResize(Size),
    Message(Seq<char>),
    RefreshStatus,
    ViewPaste(Seq<char>),
}

impl View for Effect {
    type V = EffectView;

    open spec fn view(&self) -> EffectView {
        match self {
            Effect::ViewEdit(e) => EffectView::ViewEdit(*e),
            Effect::ViewMove(m) => EffectView::ViewMove(*m),
            Effect::ViewClearSelection => EffectView::ViewClearSelection,
            Effect::ViewEnterSearch => EffectView::ViewEnterSearch,
            Effect::ViewDismissSearch => EffectView::ViewDismissSearch,
            Effect::ViewExitSearch => EffectView::ViewExitSearch,
            Effect::ViewSearch => EffectView::ViewSearch,
            Effect::ViewSearchNext => EffectView::ViewSearchNext,
            Effect::ViewSearchPrev => EffectView::ViewSearchPrev,
            Effect::ViewMarkRedraw => EffectView::ViewMarkRedraw,
            Effect::ViewSetColOffset(c) => EffectView::ViewSetColOffset(*c),
            Effect::ViewResize(s) => EffectView::ViewResize(*s),
            Effect::OpenFile(p) => EffectView::OpenFile(p@),
            Effect::Save => EffectView::Save,
            Effect::SaveAs(n) => EffectView::SaveAs(n@),
            Effect::ReplaceAll(q, r) => EffectView::ReplaceAll(q@, r@),
            Effect::CommandBarEdit(e) => EffectView::CommandBarEdit(*e),
            Effect::CommandBarSetPrompt(p) => EffectView::CommandBarSetPrompt(p@),
            Effect::CommandBarClear => EffectView::CommandBarClear,
            Effect::CommandBarResize(s) => EffectView::CommandBarResize(*s),
            Effect::MessageBarMarkRedraw => EffectView::MessageBarMarkRedraw,
            Effect::MessageBarResize(s) => EffectView::MessageBarResize(*s),
            Effect::StatusBarResize(s) => EffectView::StatusBarResize(*s),
            Effect::Message(m) => EffectView::Message(m@),
            Effect::RefreshStatus => EffectView::RefreshStatus,
            Effect::ViewPaste(t) => EffectView::ViewPaste(t@),
        }
    }
}

/// The views of a sequence of effects.
pub open spec fn effects_view(v: Seq<Effect>) -> Seq<EffectView> {
    v.map_values(|e: Effect| e@)
}

/// What the editor's decisions read of the document and the command bar.
pub struct EditorFacts {
    /// The document has unsaved changes.
    pub is_modified: bool,
    /// The document was loaded from (and so can be saved to) a file.
    pub file_loaded: bool,
    /// The command bar's text before the command.
    pub command_bar_value: String,
}

/// The abstract state of the editor's decisions.
pub struct EditorView {
    pub should_quit: bool,
    pub terminal_size: Size,
    pub prompt_type: PromptType,
    pub replace_query: Seq<char>,
    pub title: Seq<char>,
    pub quit_times: u8,
    pub sidebar: FileTreeView,
    pub sidebar_visible: bool,
    pub sidebar_focus: bool,
}

/// The prompt texts of the command bar.
pub open spec fn prompt_text(p: PromptType) -> Seq<char> {
    match p {
        PromptType::Save => "Save as: "@,
        PromptType::Search => "Search (Esc to cancel, Arrows to navigate): "@,
        PromptType::ReplaceSearch => "Replace (search): "@,
        PromptType::Replace => "Replace with: "@,
        PromptType::Inactive => Seq::<char>::empty(),
    }
}

/// The warning shown when Quit is pressed with unsaved changes and `left`
/// more presses are needed.
pub open spec fn quit_warning(left: nat) -> Seq<char> {
    "WARNING! File has unsaved changes. Press Ctrl-Q "@ + decimal_chars(left) + " more times to quit."@
}

/// The message reporting how many matches were replaced.
pub open spec fn replace_message(count: usize) -> Seq<char> {
    if count == 0 {
        "No matches found."@
    } else {
        "Replaced "@ + decimal_chars(count as nat) + " occurrence(s)."@
    }
}

/// The window title for a document name.
pub open spec fn window_title(file_name: Seq<char>) -> Seq<char> {
    file_name + " - "@ + NAME@
}

impl EditorView {
    /// Quit may be pressed at most `QUIT_TIMES - 1` times without leaving,
    /// and the sidebar is consistent.
    pub open spec fn wf(self) -> bool {
        &&& self.quit_times < QUIT_TIMES
        &&& self.sidebar.wf()
    }

    /// The layout after the terminal takes size `size`: the bottom two rows
    /// hold the status and message bars, the sidebar (when shown) takes its
    /// width on the left, and the view the rest.
    pub open spec fn resized(self, size: Size) -> (EditorView, Seq<EffectView>) {
        let main_height = sat_sub(size.height as int, 2) as usize;
        let sidebar_w: usize = if self.sidebar_visible {
            TREE_WIDTH
        } else {
            0
        };
        let bar = Size { height: 1, width: size.width };
        let tree = FileTreeView {
            needs_redraw: true,
            ..(FileTreeView { size: Size { height: main_height, width: TREE_WIDTH }, ..self.sidebar }).select(
                self.sidebar.selected,
            )
        };
        (
            EditorView { terminal_size: size, sidebar: tree, ..self },
            seq![
                EffectView::ViewSetColOffset(sidebar_w),
                EffectView::ViewResize(
                    Size {
                        height: main_height,
                        width: sat_sub(size.width as int, sidebar_w as int) as usize,
                    },
                ),
                EffectView::MessageBarResize(bar),
                EffectView::StatusBarResize(bar),
                EffectView::CommandBarResize(bar),
            ],
        )
    }

    /// Shows prompt `p` (or none) in the command bar, with an empty value.
    pub open spec fn prompted(self, p: PromptType) -> (EditorView, Seq<EffectView>) {
        let shown = match p {
            PromptType::Inactive => seq![EffectView::MessageBarMarkRedraw],
            PromptType::Save => seq![EffectView::CommandBarSetPrompt(prompt_text(p))],
            PromptType::Search => seq![
                EffectView::ViewEnterSearch,
                EffectView::CommandBarSetPrompt(prompt_text(p)),
            ],
            PromptType::ReplaceSearch => seq![
                EffectView::ViewEnterSearch,
                EffectView::CommandBarSetPrompt(prompt_text(p)),
            ],
            PromptType::Replace => seq![EffectView::CommandBarSetPrompt(prompt_text(p))],
        };
        (EditorView { prompt_type: p, ..self }, shown.push(EffectView::CommandBarClear))
    }

    /// Quit pressed: leave when the document is unmodified or this is the
    /// last press needed; otherwise warn and count the press.
    pub open spec fn quit_pressed(self, is_modified: bool) -> (EditorView, Seq<EffectView>) {
        if !is_modified || self.quit_times + 1 == QUIT_TIMES {
            (EditorView { should_quit: true, ..self }, Seq::<EffectView>::empty())
        } else {
            (
                EditorView { quit_times: (self.quit_times + 1) as u8, ..self },
                seq![EffectView::Message(quit_warning((QUIT_TIMES - self.quit_times - 1) as nat))],
            )
        }
    }

    /// Any other command forgets earlier Quit presses, clearing the warning.
    pub open spec fn quit_reset(self) -> (EditorView, Seq<EffectView>) {
        if self.quit_times > 0 {
            (EditorView { quit_times: 0, ..self }, seq![EffectView::Message(Seq::<char>::empty())])
        } else {
            (self, Seq::<EffectView>::empty())
        }
    }

    /// Shows or hides the sidebar; a shown sidebar takes the focus and is
    /// rebuilt from `ls`.
    pub open spec fn sidebar_toggled(self, ls: Seq<ListingView>) -> (EditorView, Seq<EffectView>) {
        let visible = !self.sidebar_visible;
        let s1 = EditorView {
            sidebar_visible: visible,
            sidebar_focus: visible,
            sidebar: if visible {
                self.sidebar.rebuilt(ls)
            } else {
                self.sidebar
            },
            ..self
        };
        let (s2, e) = s1.resized(s1.terminal_size);
        (
            EditorView { sidebar: FileTreeView { needs_redraw: true, ..s2.sidebar }, ..s2 },
            e.push(EffectView::ViewMarkRedraw),
        )
    }

    /// Shows the sidebar if hidden, focuses it and rebuilds it from `ls`.
    pub open spec fn sidebar_focused(self, ls: Seq<ListingView>) -> (EditorView, Seq<EffectView>) {
        let (s1, e1) = if !self.sidebar_visible {
            EditorView { sidebar_visible: true, ..self }.resized(self.terminal_size)
        } else {
            (self, Seq::<EffectView>::empty())
        };
        (
            EditorView {
                sidebar_focus: true,
                sidebar: FileTreeView { needs_redraw: true, ..s1.sidebar.rebuilt(ls) },
                ..s1
            },
            e1.push(EffectView::ViewMarkRedraw),
        )
    }

    /// Asks to open the file chosen in the sidebar, if any.
    pub open spec fn sidebar_open_requested(self) -> (EditorView, Seq<EffectView>) {
        match self.sidebar.pending_open {
            Some(p) => (
                EditorView { sidebar: FileTreeView { pending_open: None, ..self.sidebar }, ..self },
                seq![EffectView::OpenFile(p)],
            ),
            None => (self, Seq::<EffectView>::empty()),
        }
    }

    /// The sidebar's rows after a change to its open directories.
    pub open spec fn tree_refreshed(t: FileTreeView, ls: Seq<ListingView>) -> FileTreeView {
        if t.rebuild_pending {
            t.rebuilt(ls)
        } else {
            t
        }
    }

    /// A command while the focused sidebar is shown: whether the sidebar
    /// took it, and the result.
    pub open spec fn sidebar_command(self, cmd: Command, ls: Seq<ListingView>) -> (
        bool,
        EditorView,
        Seq<EffectView>,
    ) {
        match cmd {
            Command::Move(m) => if !m.is_selection {
                let (handled, t) = self.sidebar.moved(m.direction);
                let t2 = EditorView::tree_refreshed(t, ls);
                (
                    true,
                    EditorView {
                        sidebar: if handled {
                            FileTreeView { needs_redraw: true, ..t2 }
                        } else {
                            t2
                        },
                        ..self
                    },
                    Seq::<EffectView>::empty(),
                )
            } else {
                (true, self, Seq::<EffectView>::empty())
            },
            Command::Edit(Edit::InsertNewline) => {
                let t = EditorView::tree_refreshed(self.sidebar.entered().1, ls);
                let s1 = EditorView { sidebar: FileTreeView { needs_redraw: true, ..t }, ..self };
                let (s2, e) = s1.sidebar_open_requested();
                (true, s2, e)
            },
            Command::Edit(_) => (true, self, Seq::<EffectView>::empty()),
            Command::System(System::Dismiss) => (
                true,
                EditorView {
                    sidebar_focus: false,
                    sidebar: FileTreeView { needs_redraw: true, ..self.sidebar },
                    ..self
                },
                seq![EffectView::ViewMarkRedraw],
            ),
            Command::System(System::ToggleSidebar) => {
                let (s, e) = self.sidebar_toggled(ls);
                (true, s, e)
            },
            Command::System(System::FocusSidebar) => {
                let (s, e) = self.sidebar_focused(ls);
                (true, s, e)
            },
            Command::System(_) => (false, self, Seq::<EffectView>::empty()),
        }
    }

    /// A command with no prompt shown.
    pub open spec fn without_prompt(self, cmd: Command, facts_modified: bool, facts_loaded: bool, ls: Seq<
        ListingView,
    >) -> (EditorView, Seq<EffectView>) {
        if cmd == Command::System(System::Quit) {
            self.quit_pressed(facts_modified)
        } else {
            let (s1, e1) = self.quit_reset();
            let (taken, s2, e2) = if s1.sidebar_visible && s1.sidebar_focus {
                s1.sidebar_command(cmd, ls)
            } else {
                (false, s1, Seq::<EffectView>::empty())
            };
            if taken {
                (s2, e1 + e2)
            } else {
                let (s3, e3) = match cmd {
                    Command::System(System::ToggleSidebar) => s2.sidebar_toggled(ls),
                    Command::System(System::FocusSidebar) => s2.sidebar_focused(ls),
                    Command::System(System::Dismiss) => (s2, seq![EffectView::ViewClearSelection]),
                    Command::System(System::Search) => s2.prompted(PromptType::Search),
                    Command::System(System::Replace) => s2.prompted(PromptType::ReplaceSearch),
                    Command::System(System::Save) => if facts_loaded {
                        (s2, seq![EffectView::Save])
                    } else {
                        s2.prompted(PromptType::Save)
                    },
                    Command::Edit(e) => (s2, seq![EffectView::ViewEdit(e)]),
                    Command::Move(m) => (s2, seq![EffectView::ViewMove(m)]),
                    Command::System(_) => (s2, Seq::<EffectView>::empty()),
                };
                (s3, e1 + e2 + e3)
            }
        }
    }

    /// A command while a search prompt (plain, or the search step of a
    /// replace) is shown: Escape dismisses, typing searches, arrows move
    /// between matches. Enter ends a plain search; for a replace it keeps the
    /// query and asks for the replacement.
    pub open spec fn during_search(self, cmd: Command, replacing: bool, value: Seq<char>) -> (
        EditorView,
        Seq<EffectView>,
    ) {
        match cmd {
            Command::System(System::Dismiss) => {
                let (s, e) = self.prompted(PromptType::Inactive);
                (s, e.push(EffectView::ViewDismissSearch))
            },
            Command::Edit(Edit::InsertNewline) => if replacing {
                EditorView { replace_query: value, ..self }.prompted(PromptType::Replace)
            } else {
                let (s, e) = self.prompted(PromptType::Inactive);
                (s, e.push(EffectView::ViewExitSearch))
            },
            Command::Edit(e) => (
                self,
                seq![EffectView::CommandBarEdit(e), EffectView::ViewSearch],
            ),
            Command::Move(m) => if m.direction == MoveDirection::Right || m.direction
                == MoveDirection::Down {
                (self, seq![EffectView::ViewSearchNext])
            } else if m.direction == MoveDirection::Up || m.direction == MoveDirection::Left {
                (self, seq![EffectView::ViewSearchPrev])
            } else {
                (self, Seq::<EffectView>::empty())
            },
            Command::System(_) => (self, Seq::<EffectView>::empty()),
        }
    }

    /// A command while the Save-as prompt is shown.
    pub open spec fn during_save(self, cmd: Command, value: Seq<char>) -> (EditorView, Seq<EffectView>) {
        match cmd {
            Command::System(System::Dismiss) => {
                let (s, e) = self.prompted(PromptType::Inactive);
                (s, e.push(EffectView::Message("Save aborted."@)))
            },
            Command::Edit(Edit::InsertNewline) => {
                let (s, e) = self.prompted(PromptType::Inactive);
                (s, seq![EffectView::SaveAs(value)] + e)
            },
            Command::Edit(e) => (self, seq![EffectView::CommandBarEdit(e)]),
            _ => (self, Seq::<EffectView>::empty()),
        }
    }

    /// A command while the replacement prompt is shown: Enter replaces every
    /// match of the kept query.
    pub open spec fn during_replace(self, cmd: Command, value: Seq<char>) -> (EditorView, Seq<EffectView>) {
        match cmd {
            Command::System(System::Dismiss) => {
                let (s, e) = self.prompted(PromptType::Inactive);
                (s, e.push(EffectView::ViewDismissSearch))
            },
            Command::Edit(Edit::InsertNewline) => {
                let (s, e) = self.prompted(PromptType::Inactive);
                (
                    s,
                    seq![
                        EffectView::ViewExitSearch,
                        EffectView::ReplaceAll(self.replace_query, value),
                    ] + e,
                )
            },
            Command::Edit(e) => (self, seq![EffectView::CommandBarEdit(e)]),
            _ => (self, Seq::<EffectView>::empty()),
        }
    }

    /// The outcome of opening the file chosen in the sidebar: on success
    /// the focus returns to the view, the status is refreshed and the message
    /// cleared; on failure the error is shown. Both views are redrawn.
    pub open spec fn file_opened(self, error: Option<Seq<char>>) -> (EditorView, Seq<EffectView>) {
        let (s, e) = match error {
            None => (
                EditorView { sidebar_focus: false, ..self },
                seq![EffectView::RefreshStatus, EffectView::Message(Seq::<char>::empty())],
            ),
            Some(err) => (self, seq![EffectView::Message("ERROR: Could not open file: "@ + err)]),
        };
        (
            EditorView { sidebar: FileTreeView { needs_redraw: true, ..s.sidebar }, ..s },
            e.push(EffectView::ViewMarkRedraw),
        )
    }

    /// Pasted text goes to the command bar while a prompt is shown, else to
    /// the document unless the focused sidebar is shown.
    pub open spec fn pasted(self, data: Seq<char>) -> Seq<EffectView> {
        if self.prompt_type == PromptType::Inactive {
            if !(self.sidebar_visible && self.sidebar_focus) {
                seq![EffectView::ViewPaste(data)]
            } else {
                Seq::<EffectView>::empty()
            }
        } else {
            typed_chars(data)
        }
    }

    /// The editor's response to a command: a resize applies in every mode;
    /// otherwise the shown prompt (or none) decides.
    pub open spec fn processed(
        self,
        cmd: Command,
        is_modified: bool,
        file_loaded: bool,
        value: Seq<char>,
        ls: Seq<ListingView>,
    ) -> (EditorView, Seq<EffectView>) {
        match cmd {
            Command::System(System::Resize(size)) => self.resized(size),
            _ => match self.prompt_type {
                PromptType::Search => self.during_search(cmd, false, value),
                PromptType::Save => self.during_save(cmd, value),
                PromptType::ReplaceSearch => self.during_search(cmd, true, value),
                PromptType::Replace => self.during_replace(cmd, value),
                PromptType::Inactive => self.without_prompt(cmd, is_modified, file_loaded, ls),
            },
        }
    }
}

} // verus!

verus! {

/// The editor before its first layout: no prompt, no Quit pressed, the
/// sidebar (shown or not, unfocused) showing `root`.
pub open spec fn initial_editor(root: Seq<char>, sidebar_visible: bool, ls: Seq<ListingView>) -> EditorView {
    EditorView {
        should_quit: false,
        terminal_size: Size { height: 0, width: 0 },
        prompt_type: PromptType::Inactive,
        replace_query: Seq::<char>::empty(),
        title: Seq::<char>::empty(),
        quit_times: 0,
        sidebar: new_tree(root, ls),
        sidebar_visible,
        sidebar_focus: false,
    }
}

/// Where the caret goes after drawing.
#[derive(Clone, Copy, Debug, PartialEq, Eq, Structural)]
pub enum CaretPlace {
    /// In the command bar, on this row, at the bar's own caret column.
    CommandBar(usize),
    /// At this position (the sidebar's selected row).
    At(Position),
    /// Where the text view puts it.
    View,
}

/// What a screen refresh draws: the command bar (while a prompt is shown)
/// or else the message bar on the bottom row; the status bar above it when
/// there is room; the view, and the shown sidebar, when there are more rows.
#[derive(Clone, Copy, Debug, PartialEq, Eq, Structural)]
pub struct ScreenPlan {
    pub bottom_row: usize,
    pub bottom_is_command_bar: bool,
    pub status_row: Option<usize>,
    pub draw_main: bool,
    pub draw_sidebar: bool,
    pub caret: CaretPlace,
}

/// The plan of a screen refresh; none for an empty terminal.
pub open spec fn screen_plan_of(e: EditorView) -> Option<ScreenPlan> {
    let h = e.terminal_size.height;
    if h == 0 || e.terminal_size.width == 0 {
        None
    } else {
        let in_prompt = e.prompt_type != PromptType::Inactive;
        Some(
            ScreenPlan {
                bottom_row: (h - 1) as usize,
                bottom_is_command_bar: in_prompt,
                status_row: if h > 1 {
                    Some((h - 2) as usize)
                } else {
                    None
                },
                draw_main: h > 2,
                draw_sidebar: h > 2 && e.sidebar_visible,
                caret: if in_prompt {
                    CaretPlace::CommandBar((h - 1) as usize)
                } else if e.sidebar_visible && e.sidebar_focus {
                    CaretPlace::At(
                        Position { row: sat_sub(e.sidebar.selected, e.sidebar.scroll) as usize, col: 0 },
                    )
                } else {
                    CaretPlace::View
                },
            },
        )
    }
}

/// Typing each character of `data` into the command bar.
pub open spec fn typed_chars(data: Seq<char>) -> Seq<EffectView> {
    data.map_values(|c: char| typed_char(c))
}

/// Typing one character into the command bar.
pub open spec fn typed_char(c: char) -> EffectView {
    EffectView::CommandBarEdit(Edit::Insert(c))
}

/// The editor's decisions: which prompt is shown, the Quit count, the
/// sidebar and its focus, and the layout.
pub struct Editor {
    should_quit: bool,
    terminal_size: Size,
    prompt_type: PromptType,
    replace_query: String,
    title: String,
    quit_times: u8,
    sidebar: FileTree,
    sidebar_visible: bool,
    sidebar_focus: bool,
}

impl View for Editor {
    type V = EditorView;

    closed spec fn view(&self) -> EditorView {
        EditorView {
            should_quit: self.should_quit,
            terminal_size: self.terminal_size,
            prompt_type: self.prompt_type,
            replace_query: self.replace_query@,
            title: self.title@,
            quit_times: self.quit_times,
            sidebar: self.sidebar@,
            sidebar_visible: self.sidebar_visible,
            sidebar_focus: self.sidebar_focus,
        }
    }
}

fn text(s: &str) -> (r: String)
    ensures
        r@ == s@,
{
    let mut v: Vec<char> = Vec::new();
    push_str(&mut v, s);
    assert(v@ =~= s@);
    string_from_chars(v.as_slice())
}

fn emit(out: &mut Vec<Effect>, e: Effect)
    ensures
        effects_view(final(out)@) == effects_view(old(out)@).push(e@),
{
    let ghost before = out@;
    out.push(e);
    assert(effects_view(out@) =~= effects_view(before).push(e@));
}

fn copy_string(s: &String) -> (r: String)
    ensures
        r@ == s@,
{
    s.clone()
}

impl Editor {
    /// The editor's invariant (see `EditorView::wf`).
    pub open spec fn wf(&self) -> bool {
        self@.wf()
    }

    /// An editor showing the directory `workspace_root` in its sidebar
    /// (shown or not), laid out for a terminal of size `size`; also returns
    /// the layout effects.
    pub fn new(
        workspace_root: String,
        sidebar_visible: bool,
        listings: &Vec<DirListing>,
        size: Size,
    ) -> (r: (Editor, Vec<Effect>))
        ensures
            r.0.wf(),
            (r.0@, effects_view(r.1@)) == initial_editor(
                workspace_root@,
                sidebar_visible,
                listings_view(listings@),
            ).resized(size),
    {
        let sidebar = FileTree::new(workspace_root, listings);
        let mut editor = Editor {
            should_quit: false,
            terminal_size: Size { height: 0, width: 0 },
            prompt_type: PromptType::Inactive,
            replace_query: String::new(),
            title: String::new(),
            quit_times: 0,
            sidebar,
            sidebar_visible,
            sidebar_focus: false,
        };
        let mut effects: Vec<Effect> = Vec::new();
        assert(editor@.replace_query =~= Seq::<char>::empty());
        assert(editor@.title =~= Seq::<char>::empty());
        assert(effects_view(effects@) =~= Seq::<EffectView>::empty());
        editor.resize(size, &mut effects);
        assert(effects_view(effects@) =~= initial_editor(
            workspace_root@,
            sidebar_visible,
            listings_view(listings@),
        ).resized(size).1);
        (editor, effects)
    }

    /// Lays the screen out for a terminal of size `size` (see `EditorView::resized`).
    pub fn resize(&mut self, size: Size, out: &mut Vec<Effect>)
        requires
            old(self).wf(),
        ensures
            final(self).wf(),
            final(self)@ == old(self)@.resized(size).0,
            effects_view(final(out)@) == effects_view(old(out)@) + old(self)@.resized(size).1,
    {
        let ghost e0 = effects_view(out@);
        self.terminal_size = size;
        let main_height = size.height.saturating_sub(2);
        let sidebar_w: usize = if self.sidebar_visible {
            TREE_WIDTH
        } else {
            0
        };
        emit(out, Effect::ViewSetColOffset(sidebar_w));
        emit(out, Effect::ViewResize(Size { height: main_height, width: size.width.saturating_sub(sidebar_w) }));
        self.sidebar.set_size(Size { height: main_height, width: TREE_WIDTH });
        self.sidebar.mark_redraw(true);
        let bar = Size { height: 1, width: size.width };
        emit(out, Effect::MessageBarResize(bar));
        emit(out, Effect::StatusBarResize(bar));
        emit(out, Effect::CommandBarResize(bar));
        assert(effects_view(out@) =~= e0 + old(self)@.resized(size).1);
    }

    fn set_prompt(&mut self, p: PromptType, out: &mut Vec<Effect>)
        requires
            old(self).wf(),
        ensures
            final(self).wf(),
            final(self)@ == old(self)@.prompted(p).0,
            effects_view(final(out)@) == effects_view(old(out)@) + old(self)@.prompted(p).1,
    {
        let ghost e0 = effects_view(out@);
        match p {
            PromptType::Inactive => emit(out, Effect::MessageBarMarkRedraw),
            PromptType::Save => emit(out, Effect::CommandBarSetPrompt(text("Save as: "))),
            PromptType::Search => {
                emit(out, Effect::ViewEnterSearch);
                emit(
                    out,
                    Effect::CommandBarSetPrompt(text("Search (Esc to cancel, Arrows to navigate): ")),
                );
            },
            PromptType::ReplaceSearch => {
                emit(out, Effect::ViewEnterSearch);
                emit(out, Effect::CommandBarSetPrompt(text("Replace (search): ")));
            },
            PromptType::Replace => emit(out, Effect::CommandBarSetPrompt(text("Replace with: "))),
        }
        emit(out, Effect::CommandBarClear);
        self.prompt_type = p;
        assert(effects_view(out@) =~= e0 + old(self)@.prompted(p).1);
    }

    fn handle_quit(&mut self, is_modified: bool, out: &mut Vec<Effect>)
        requires
            old(self).wf(),
        ensures
            final(self).wf(),
            final(self)@ == old(self)@.quit_pressed(is_modified).0,
            effects_view(final(out)@) == effects_view(old(out)@) + old(self)@.quit_pressed(
                is_modified,
            ).1,
    {
        let ghost e0 = effects_view(out@);
        if !is_modified || self.quit_times + 1 == QUIT_TIMES {
            self.should_quit = true;
        } else {
            let mut m: Vec<char> = Vec::new();
            push_str(&mut m, "WARNING! File has unsaved changes. Press Ctrl-Q ");
            push_decimal_chars(&mut m, (QUIT_TIMES - self.quit_times - 1) as u64);
            push_str(&mut m, " more times to quit.");
            let msg = string_from_chars(m.as_slice());
            emit(out, Effect::Message(msg));
            self.quit_times = self.quit_times + 1;
        }
        assert(effects_view(out@) =~= e0 + old(self)@.quit_pressed(is_modified).1);
    }

    fn reset_quit_times(&mut self, out: &mut Vec<Effect>)
        requires
            old(self).wf(),
        ensures
            final(self).wf(),
            final(self)@ == old(self)@.quit_reset().0,
            effects_view(final(out)@) == effects_view(old(out)@) + old(self)@.quit_reset().1,
    {
        let ghost e0 = effects_view(out@);
        if self.quit_times > 0 {
            self.quit_times = 0;
            emit(out, Effect::Message(String::new()));
        }
        assert(effects_view(out@) =~= e0 + old(self)@.quit_reset().1);
    }

    fn toggle_sidebar(&mut self, listings: &Vec<DirListing>, out: &mut Vec<Effect>)
        requires
            old(self).wf(),
        ensures
            final(self).wf(),
            final(self)@ == old(self)@.sidebar_toggled(listings_view(listings@)).0,
            effects_view(final(out)@) == effects_view(old(out)@) + old(self)@.sidebar_toggled(
                listings_view(listings@),
            ).1,
    {
        let ghost e0 = effects_view(out@);
        self.sidebar_visible = !self.sidebar_visible;
        if self.sidebar_visible {
            self.sidebar_focus = true;
            self.sidebar.rebuild(listings);
        } else {
            self.sidebar_focus = false;
        }
        let size = self.terminal_size;
        self.resize(size, out);
        self.sidebar.mark_redraw(true);
        emit(out, Effect::ViewMarkRedraw);
        assert(effects_view(out@) =~= e0 + old(self)@.sidebar_toggled(listings_view(listings@)).1);
    }

    fn focus_sidebar(&mut self, listings: &Vec<DirListing>, out: &mut Vec<Effect>)
        requires
            old(self).wf(),
        ensures
            final(self).wf(),
            final(self)@ == old(self)@.sidebar_focused(listings_view(listings@)).0,
            effects_view(final(out)@) == effects_view(old(out)@) + old(self)@.sidebar_focused(
                listings_view(listings@),
            ).1,
    {
        let ghost e0 = effects_view(out@);
        if !self.sidebar_visible {
            self.sidebar_visible = true;
            let size = self.terminal_size;
            self.resize(size, out);
        }
        self.sidebar_focus = true;
        self.sidebar.rebuild(listings);
        self.sidebar.mark_redraw(true);
        emit(out, Effect::ViewMarkRedraw);
        assert(effects_view(out@) =~= e0 + old(self)@.sidebar_focused(listings_view(listings@)).1);
    }

    fn open_from_sidebar_selection(&mut self, out: &mut Vec<Effect>)
        requires
            old(self).wf(),
        ensures
            final(self).wf(),
            final(self)@ == old(self)@.sidebar_open_requested().0,
            effects_view(final(out)@) == effects_view(old(out)@) + old(self)@.sidebar_open_requested().1,
    {
        let ghost e0 = effects_view(out@);
        match self.sidebar.take_pending_open() {
            Some(path) => emit(out, Effect::OpenFile(path)),
            None => {},
        }
        assert(effects_view(out@) =~= e0 + old(self)@.sidebar_open_requested().1);
    }

    fn refresh_tree(&mut self, listings: &Vec<DirListing>)
        requires
            old(self).wf(),
        ensures
            final(self).wf(),
            final(self)@ == (EditorView {
                sidebar: EditorView::tree_refreshed(old(self)@.sidebar, listings_view(listings@)),
                ..old(self)@
            }),
    {
        if self.sidebar.needs_rebuild() {
            self.sidebar.rebuild(listings);
        }
    }

    fn sidebar_command(&mut self, command: Command, listings: &Vec<DirListing>, out: &mut Vec<Effect>) -> (taken: bool)
        requires
            old(self).wf(),
        ensures
            final(self).wf(),
            (taken, final(self)@) == (
                old(self)@.sidebar_command(command, listings_view(listings@)).0,
                old(self)@.sidebar_command(command, listings_view(listings@)).1,
            ),
            effects_view(final(out)@) == effects_view(old(out)@) + old(self)@.sidebar_command(
                command,
                listings_view(listings@),
            ).2,
    {
        let ghost e0 = effects_view(out@);
        let ghost ls = listings_view(listings@);
        match command {
            Command::Move(m) => {
                if !m.is_selection {
                    let handled = self.sidebar.handle_move(m.direction);
                    self.refresh_tree(listings);
                    if handled {
                        self.sidebar.mark_redraw(true);
                    }
                }
                assert(effects_view(out@) =~= e0);
                true
            },
            Command::Edit(Edit::InsertNewline) => {
                self.sidebar.handle_enter();
                self.refresh_tree(listings);
                self.sidebar.mark_redraw(true);
                self.open_from_sidebar_selection(out);
                true
            },
            Command::Edit(_) => {
                assert(effects_view(out@) =~= e0);
                true
            },
            Command::System(System::Dismiss) => {
                self.sidebar_focus = false;
                self.sidebar.mark_redraw(true);
                emit(out, Effect::ViewMarkRedraw);
                true
            },
            Command::System(System::ToggleSidebar) => {
                self.toggle_sidebar(listings, out);
                true
            },
            Command::System(System::FocusSidebar) => {
                self.focus_sidebar(listings, out);
                true
            },
            Command::System(_) => {
                assert(effects_view(out@) =~= e0);
                false
            },
        }
    }

    fn process_command_no_prompt(
        &mut self,
        command: Command,
        facts: &EditorFacts,
        listings: &Vec<DirListing>,
        out: &mut Vec<Effect>,
    )
        requires
            old(self).wf(),
        ensures
            final(self).wf(),
            final(self)@ == old(self)@.without_prompt(
                command,
                facts.is_modified,
                facts.file_loaded,
                listings_view(listings@),
            ).0,
            effects_view(final(out)@) == effects_view(old(out)@) + old(self)@.without_prompt(
                command,
                facts.is_modified,
                facts.file_loaded,
                listings_view(listings@),
            ).1,
    {
        let ghost e0 = effects_view(out@);
        let ghost ls = listings_view(listings@);
        if command == Command::System(System::Quit) {
            self.handle_quit(facts.is_modified, out);
            return;
        }
        self.reset_quit_times(out);
        if self.sidebar_visible && self.sidebar_focus {
            if self.sidebar_command(command, listings, out) {
                return;
            }
        }
        match command {
            Command::System(System::ToggleSidebar) => self.toggle_sidebar(listings, out),
            Command::System(System::FocusSidebar) => self.focus_sidebar(listings, out),
            Command::System(System::Dismiss) => emit(out, Effect::ViewClearSelection),
            Command::System(System::Search) => self.set_prompt(PromptType::Search, out),
            Command::System(System::Replace) => self.set_prompt(PromptType::ReplaceSearch, out),
            Command::System(System::Save) => {
                if facts.file_loaded {
                    emit(out, Effect::Save);
                } else {
                    self.set_prompt(PromptType::Save, out);
                }
            },
            Command::Edit(e) => emit(out, Effect::ViewEdit(e)),
            Command::Move(m) => emit(out, Effect::ViewMove(m)),
            Command::System(_) => {},
        }
        assert(effects_view(out@) =~= e0 + old(self)@.without_prompt(
            command,
            facts.is_modified,
            facts.file_loaded,
            ls,
        ).1);
    }

    fn process_command_during_search(
        &mut self,
        command: Command,
        replacing: bool,
        facts: &EditorFacts,
        out: &mut Vec<Effect>,
    )
        requires
            old(self).wf(),
        ensures
            final(self).wf(),
            final(self)@ == old(self)@.during_search(command, replacing, facts.command_bar_value@).0,
            effects_view(final(out)@) == effects_view(old(out)@) + old(self)@.during_search(
                command,
                replacing,
                facts.command_bar_value@,
            ).1,
    {
        let ghost e0 = effects_view(out@);
        match command {
            Command::System(System::Dismiss) => {
                self.set_prompt(PromptType::Inactive, out);
                emit(out, Effect::ViewDismissSearch);
            },
            Command::Edit(Edit::InsertNewline) => {
                if replacing {
                    self.replace_query = copy_string(&facts.command_bar_value);
                    self.set_prompt(PromptType::Replace, out);
                } else {
                    self.set_prompt(PromptType::Inactive, out);
                    emit(out, Effect::ViewExitSearch);
                }
            },
            Command::Edit(e) => {
                emit(out, Effect::CommandBarEdit(e));
                emit(out, Effect::ViewSearch);
            },
            Command::Move(m) => {
                if m.direction == MoveDirection::Right || m.direction == MoveDirection::Down {
                    emit(out, Effect::ViewSearchNext);
                } else if m.direction == MoveDirection::Up || m.direction == MoveDirection::Left {
                    emit(out, Effect::ViewSearchPrev);
                }
            },
            Command::System(_) => {},
        }
        assert(effects_view(out@) =~= e0 + old(self)@.during_search(
            command,
            replacing,
            facts.command_bar_value@,
        ).1);
    }

    fn process_command_during_save(&mut self, command: Command, facts: &EditorFacts, out: &mut Vec<Effect>)
        requires
            old(self).wf(),
        ensures
            final(self).wf(),
            final(self)@ == old(self)@.during_save(command, facts.command_bar_value@).0,
            effects_view(final(out)@) == effects_view(old(out)@) + old(self)@.during_save(
                command,
                facts.command_bar_value@,
            ).1,
    {
        let ghost e0 = effects_view(out@);
        match command {
            Command::System(System::Dismiss) => {
                self.set_prompt(PromptType::Inactive, out);
                emit(out, Effect::Message(text("Save aborted.")));
            },
            Command::Edit(Edit::InsertNewline) => {
                emit(out, Effect::SaveAs(copy_string(&facts.command_bar_value)));
                self.set_prompt(PromptType::Inactive, out);
            },
            Command::Edit(e) => emit(out, Effect::CommandBarEdit(e)),
            _ => {},
        }
        assert(effects_view(out@) =~= e0 + old(self)@.during_save(command, facts.command_bar_value@).1);
    }

    fn process_command_during_replace(&mut self, command: Command, facts: &EditorFacts, out: &mut Vec<Effect>)
        requires
            old(self).wf(),
        ensures
            final(self).wf(),
            final(self)@ == old(self)@.during_replace(command, facts.command_bar_value@).0,
            effects_view(final(out)@) == effects_view(old(out)@) + old(self)@.during_replace(
                command,
                facts.command_bar_value@,
            ).1,
    {
        let ghost e0 = effects_view(out@);
        match command {
            Command::System(System::Dismiss) => {
                self.set_prompt(PromptType::Inactive, out);
                emit(out, Effect::ViewDismissSearch);
            },
            Command::Edit(Edit::InsertNewline) => {
                let query = copy_string(&self.replace_query);
                emit(out, Effect::ViewExitSearch);
                emit(out, Effect::ReplaceAll(query, copy_string(&facts.command_bar_value)));
                self.set_prompt(PromptType::Inactive, out);
            },
            Command::Edit(e) => emit(out, Effect::CommandBarEdit(e)),
            _ => {},
        }
        assert(effects_view(out@) =~= e0 + old(self)@.during_replace(command, facts.command_bar_value@).1);
    }

    /// The editor's response to a command (see `EditorView::processed`).
    /// `listings` holds the root's and the open directories' entries, and the
    /// selected directory's, should the command open it.
    pub fn process_command(
        &mut self,
        command: Command,
        facts: &EditorFacts,
        listings: &Vec<DirListing>,
    ) -> (effects: Vec<Effect>)
        requires
            old(self).wf(),
        ensures
            final(self).wf(),
            (final(self)@, effects_view(effects@)) == old(self)@.processed(
                command,
                facts.is_modified,
                facts.file_loaded,
                facts.command_bar_value@,
                listings_view(listings@),
            ),
    {
        let mut out: Vec<Effect> = Vec::new();
        assert(effects_view(out@) =~= Seq::<EffectView>::empty());
        match command {
            Command::System(System::Resize(size)) => {
                self.resize(size, &mut out);
            },
            _ => match self.prompt_type {
                PromptType::Search => self.process_command_during_search(command, false, facts, &mut out),
                PromptType::Save => self.process_command_during_save(command, facts, &mut out),
                PromptType::ReplaceSearch => self.process_command_during_search(
                    command,
                    true,
                    facts,
                    &mut out,
                ),
                PromptType::Replace => self.process_command_during_replace(command, facts, &mut out),
                PromptType::Inactive => self.process_command_no_prompt(command, facts, listings, &mut out),
            },
        }
        assert(effects_view(out@) =~= Seq::<EffectView>::empty() + effects_view(out@));
        out
    }

    /// Reports the outcome of an `Effect::OpenFile`, `None` when the file
    /// was opened (see `EditorView::file_opened`).
    pub fn file_opened(&mut self, error: Option<String>) -> (effects: Vec<Effect>)
        requires
            old(self).wf(),
        ensures
            final(self).wf(),
            (final(self)@, effects_view(effects@)) == old(self)@.file_opened(
                match error {
                    Some(e) => Some(e@),
                    None => None,
                },
            ),
    {
        let mut out: Vec<Effect> = Vec::new();
        let ghost err = match &error {
            Some(e) => Some(e@),
            None => None::<Seq<char>>,
        };
        match error {
            None => {
                self.sidebar_focus = false;
                emit(&mut out, Effect::RefreshStatus);
                emit(&mut out, Effect::Message(String::new()));
            },
            Some(e) => {
                let mut m: Vec<char> = Vec::new();
                push_str(&mut m, "ERROR: Could not open file: ");
                push_str(&mut m, e.as_str());
                emit(&mut out, Effect::Message(string_from_chars(m.as_slice())));
            },
        }
        emit(&mut out, Effect::ViewMarkRedraw);
        self.sidebar.mark_redraw(true);
        assert(effects_view(out@) =~= old(self)@.file_opened(err).1);
        out
    }

    /// The message for the outcome of an `Effect::Save` or `Effect::SaveAs`.
    pub fn saved(&self, ok: bool) -> (e: Effect)
        ensures
            e@ == EffectView::Message(
                if ok {
                    "File saved successfully."@
                } else {
                    "Error writing file!"@
                },
            ),
    {
        if ok {
            Effect::Message(text("File saved successfully."))
        } else {
            Effect::Message(text("Error writing file!"))
        }
    }

    /// The message for the number of matches an `Effect::ReplaceAll` replaced.
    pub fn replaced(&self, count: usize) -> (e: Effect)
        ensures
            e@ == EffectView::Message(replace_message(count)),
    {
        if count == 0 {
            Effect::Message(text("No matches found."))
        } else {
            let mut m: Vec<char> = Vec::new();
            push_str(&mut m, "Replaced ");
            push_decimal_chars(&mut m, count as u64);
            push_str(&mut m, " occurrence(s).");
            Effect::Message(string_from_chars(m.as_slice()))
        }
    }

    /// Handles pasted text (see `EditorView::pasted`).
    pub fn paste(&self, data: &str) -> (effects: Vec<Effect>)
        ensures
            effects_view(effects@) == self@.pasted(data@),
    {
        let mut out: Vec<Effect> = Vec::new();
        if self.prompt_type.is_none() {
            if !(self.sidebar_visible && self.sidebar_focus) {
                emit(&mut out, Effect::ViewPaste(text(data)));
            }
        } else {
            let chars = chars_of(data);
            let mut i: usize = 0;
            assert(effects_view(out@) =~= typed_chars(data@.take(0)));
            while i < chars.len()
                invariant
                    i <= chars@.len(),
                    chars@ == data@,
                    effects_view(out@) == typed_chars(data@.take(i as int)),
                decreases chars.len() - i,
            {
                let c = chars[i];
                emit(&mut out, Effect::CommandBarEdit(Edit::Insert(c)));
                assert(data@.take(i + 1) =~= data@.take(i as int).push(c));
                assert(typed_chars(data@.take(i + 1)) =~= typed_chars(data@.take(i as int)).push(
                    typed_char(c),
                ));
                i = i + 1;
            }
            assert(data@.take(i as int) =~= data@);
        }
        assert(effects_view(out@) =~= self@.pasted(data@));
        out
    }

    /// The window title for the document named `file_name`, when it differs
    /// from the title last applied.
    pub fn refresh_status(&self, file_name: &str) -> (title: Option<String>)
        ensures
            match title {
                Some(t) => t@ == window_title(file_name@) && t@ != self@.title,
                None => window_title(file_name@) == self@.title,
            },
    {
        let mut t: Vec<char> = Vec::new();
        push_str(&mut t, file_name);
        push_str(&mut t, " - ");
        push_str(&mut t, NAME);
        assert(t@ =~= window_title(file_name@));
        let title = string_from_chars(t.as_slice());
        if title != self.title {
            Some(title)
        } else {
            None
        }
    }

    /// Records that the window title was set to `title`.
    pub fn title_applied(&mut self, title: String)
        requires
            old(self).wf(),
        ensures
            final(self).wf(),
            final(self)@ == (EditorView { title: title@, ..old(self)@ }),
    {
        self.title = title;
    }

    /// Whether a prompt is shown.
    pub fn in_prompt(&self) -> (r: bool)
        ensures
            r == (self@.prompt_type != PromptType::Inactive),
    {
        !self.prompt_type.is_none()
    }

    /// Whether the editor should exit.
    pub fn should_quit(&self) -> (r: bool)
        ensures
            r == self@.should_quit,
    {
        self.should_quit
    }

    /// The sidebar.
    pub fn sidebar(&self) -> (t: &FileTree)
        ensures
            t@ == self@.sidebar,
    {
        &self.sidebar
    }

    /// Whether the sidebar is shown.
    pub fn sidebar_visible(&self) -> (r: bool)
        ensures
            r == self@.sidebar_visible,
    {
        self.sidebar_visible
    }

    /// Records that the sidebar was drawn.
    pub fn sidebar_drawn(&mut self)
        requires
            old(self).wf(),
        ensures
            final(self).wf(),
            final(self)@ == (EditorView {
                sidebar: FileTreeView { needs_redraw: false, ..old(self)@.sidebar },
                ..old(self)@
            }),
    {
        self.sidebar.mark_redraw(false);
    }

    /// What to draw and where the caret goes (see `screen_plan_of`).
    pub fn screen_plan(&self) -> (p: Option<ScreenPlan>)
        requires
            self.wf(),
        ensures
            p == screen_plan_of(self@),
    {
        let h = self.terminal_size.height;
        if h == 0 || self.terminal_size.width == 0 {
            return None;
        }
        let bottom = h - 1;
        let in_prompt = self.in_prompt();
        let caret = if in_prompt {
            CaretPlace::CommandBar(bottom)
        } else if self.sidebar_visible && self.sidebar_focus {
            CaretPlace::At(self.sidebar.caret_position(0))
        } else {
            CaretPlace::View
        };
        Some(
            ScreenPlan {
                bottom_row: bottom,
                bottom_is_command_bar: in_prompt,
                status_row: if h > 1 {
                    Some(h - 2)
                } else {
                    None
                },
                draw_main: h > 2,
                draw_sidebar: h > 2 && self.sidebar_visible,
                caret,
            },
        )
    }
}

} // verus!


verus! {

/// Quit with no unsaved changes leaves at once, whatever was pressed before.
pub proof fn law_unmodified_quit_leaves(
    s: EditorView,
    loaded: bool,
    value: Seq<char>,
    ls: Seq<ListingView>,
)
    requires
        s.wf(),
        s.prompt_type == PromptType::Inactive,
    ensures
        s.processed(Command::System(System::Quit), false, loaded, value, ls).0.should_quit,
{
}

/// With unsaved changes, the first Quit only warns and the second leaves.
pub proof fn law_modified_quit_needs_two_presses(
    s: EditorView,
    loaded: bool,
    value: Seq<char>,
    ls: Seq<ListingView>,
)
    requires
        s.wf(),
        s.prompt_type == PromptType::Inactive,
        s.quit_times == 0,
        !s.should_quit,
    ensures
        ({
            let quit = Command::System(System::Quit);
            let (s1, e1) = s.processed(quit, true, loaded, value, ls);
            &&& !s1.should_quit
            &&& s1.wf()
            &&& e1 == seq![EffectView::Message(quit_warning(1))]
            &&& s1.processed(quit, true, loaded, value, ls).0.should_quit
        }),
{
}

/// Any command but Quit and Resize, given with no prompt shown, forgets the
/// Quit presses counted so far.
pub proof fn law_other_command_resets_quit_count(
    s: EditorView,
    cmd: Command,
    modified: bool,
    loaded: bool,
    value: Seq<char>,
    ls: Seq<ListingView>,
)
    requires
        s.wf(),
        s.prompt_type == PromptType::Inactive,
        cmd != Command::System(System::Quit),
        !(cmd is System && cmd->System_0 is Resize),
    ensures
        s.processed(cmd, modified, loaded, value, ls).0.quit_times == 0,
{
    let (s1, e1) = s.quit_reset();
    assert(s1.quit_times == 0);
}

/// Escape closes whichever prompt is shown.
pub proof fn law_dismiss_closes_prompt(
    s: EditorView,
    modified: bool,
    loaded: bool,
    value: Seq<char>,
    ls: Seq<ListingView>,
)
    requires
        s.prompt_type != PromptType::Inactive,
    ensures
        s.processed(Command::System(System::Dismiss), modified, loaded, value, ls).0.prompt_type
            == PromptType::Inactive,
{
}

/// A resize changes neither the prompt shown nor the Quit presses counted.
pub proof fn law_resize_keeps_prompt_and_quit_count(
    s: EditorView,
    size: Size,
    modified: bool,
    loaded: bool,
    value: Seq<char>,
    ls: Seq<ListingView>,
)
    ensures
        ({
            let s1 = s.processed(Command::System(System::Resize(size)), modified, loaded, value, ls).0;
            &&& s1.prompt_type == s.prompt_type
            &&& s1.quit_times == s.quit_times
            &&& s1.should_quit == s.should_quit
            &&& s1.terminal_size == size
        }),
{
}

} // verus!

verus! {

/// While a search prompt is shown (a plain search or the search step of a
/// replace), Up and Left go to the previous match and Right and Down to the
/// next one, with or without selection, and nothing else changes.
pub proof fn law_search_arrows(
    s: EditorView,
    m: Move,
    modified: bool,
    loaded: bool,
    value: Seq<char>,
    ls: Seq<ListingView>,
)
    requires
        s.prompt_type == PromptType::Search || s.prompt_type == PromptType::ReplaceSearch,
    ensures
        (m.direction == MoveDirection::Up || m.direction == MoveDirection::Left) ==> s.processed(
            Command::Move(m),
            modified,
            loaded,
            value,
            ls,
        ) == (s, seq![EffectView::ViewSearchPrev]),
        (m.direction == MoveDirection::Right || m.direction == MoveDirection::Down) ==> s.processed(
            Command::Move(m),
            modified,
            loaded,
            value,
            ls,
        ) == (s, seq![EffectView::ViewSearchNext]),
{
}

} // verus!
