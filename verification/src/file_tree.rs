use vstd::prelude::*;
use vstd::utf8::encode_utf8;
use crate::text::{
    lowercase, to_lowercase, spaces, pad_or_truncate, rendition_texts, pad_or_truncate_text,
    push_spaces, push_str, string_from_chars, reverse_on_text, attributes_off_text,
};
use crate::geometry::{Position, Size};
use crate::command::MoveDirection;
use crate::scrollback::sat_sub;

verus! {

/// A directory entry as read from the file system.
pub struct DirEntry {
    pub path: String,
    pub name: String,
    pub is_dir: bool,
}

/// The abstract value of a directory entry.
pub struct EntryView {
    pub path: Seq<char>,
    pub name: Seq<char>,
    pub is_dir: bool,
}

impl View for DirEntry {
    type V = EntryView;

    open spec fn view(&self) -> EntryView {
        EntryView { path: self.path@, name: self.name@, is_dir: self.is_dir }
    }
}

/// The entries of one directory, as read from the file system.
pub struct DirListing {
    pub dir: String,
    pub entries: Vec<DirEntry>,
}

/// The abstract value of a directory listing.
pub struct ListingView {
    pub dir: Seq<char>,
    pub entries: Seq<EntryView>,
}

impl View for DirListing {
    type V = ListingView;

    open spec fn view(&self) -> ListingView {
        ListingView { dir: self.dir@, entries: self.entries@.map_values(|e: DirEntry| e@) }
    }
}

/// The views of a sequence of listings.
pub open spec fn listings_view(ls: Seq<DirListing>) -> Seq<ListingView> {
    ls.map_values(|l: DirListing| l@)
}

/// The sort key of a path: the UTF-8 bytes of its lowercase form.
pub open spec fn sort_key(path: Seq<char>) -> Seq<u8> {
    encode_utf8(lowercase(path))
}

/// Lexicographic order on byte strings, as `str` and `String` compare.
pub open spec fn bytes_lt(a: Seq<u8>, b: Seq<u8>) -> bool
    decreases a.len(),
{
    if b.len() == 0 {
        false
    } else if a.len() == 0 {
        true
    } else if a[0] != b[0] {
        a[0] < b[0]
    } else {
        bytes_lt(a.drop_first(), b.drop_first())
    }
}

/// Whether entry `a` is listed before entry `b`: directories before files,
/// then by lowercase path.
pub open spec fn entry_before(a: EntryView, b: EntryView) -> bool {
    if a.is_dir != b.is_dir {
        a.is_dir
    } else {
        bytes_lt(sort_key(a.path), sort_key(b.path))
    }
}

/// `x` inserted into `s` after every element it is not listed before.
pub open spec fn insert_sorted(s: Seq<EntryView>, x: EntryView) -> Seq<EntryView>
    decreases s.len(),
{
    if s.len() == 0 {
        seq![x]
    } else if entry_before(x, s.last()) {
        insert_sorted(s.drop_last(), x).push(s.last())
    } else {
        s.push(x)
    }
}

/// The entries in listing order: a stable sort by `entry_before`.
pub open spec fn sort_entries(s: Seq<EntryView>) -> Seq<EntryView>
    decreases s.len(),
{
    if s.len() == 0 {
        s
    } else {
        insert_sorted(sort_entries(s.drop_last()), s.last())
    }
}

/// Compares two byte strings (see `bytes_lt`).
pub fn bytes_less(a: &[u8], b: &[u8]) -> (r: bool)
    ensures
        r == bytes_lt(a@, b@),
{
    let mut i: usize = 0;
    assert(a@.skip(0) =~= a@);
    assert(b@.skip(0) =~= b@);
    while i < a.len() && i < b.len() && a[i] == b[i]
        invariant
            i <= a@.len(),
            i <= b@.len(),
            bytes_lt(a@, b@) == bytes_lt(a@.skip(i as int), b@.skip(i as int)),
        decreases a.len() - i,
    {
        assert(a@.skip(i as int).drop_first() =~= a@.skip(i + 1));
        assert(b@.skip(i as int).drop_first() =~= b@.skip(i + 1));
        i = i + 1;
    }
    if i == b.len() {
        false
    } else if i == a.len() {
        true
    } else {
        a[i] < b[i]
    }
}

/// A directory entry together with its sort key.
struct KeyedEntry {
    key: Vec<u8>,
    entry: DirEntry,
}

spec fn keyed_view(v: Seq<KeyedEntry>) -> Seq<EntryView> {
    v.map_values(|k: KeyedEntry| k.entry@)
}

spec fn keys_ok(v: Seq<KeyedEntry>) -> bool {
    forall|i: int| 0 <= i < v.len() ==> (#[trigger] v[i]).key@ == sort_key(v[i].entry.path@)
}

/// A copy of a directory entry.
pub fn copy_entry(e: &DirEntry) -> (c: DirEntry)
    ensures
        c@ == e@,
{
    DirEntry { path: e.path.clone(), name: e.name.clone(), is_dir: e.is_dir }
}

fn keyed(e: &DirEntry) -> (k: KeyedEntry)
    ensures
        k.entry@ == e@,
        k.key@ == sort_key(e.path@),
{
    let lower = to_lowercase(e.path.as_str());
    let key = vstd::slice::slice_to_vec(lower.as_str().as_bytes());
    KeyedEntry { key, entry: copy_entry(e) }
}

} // verus!

verus! {

/// The views of a sequence of directory entries.
pub open spec fn entries_view(v: Seq<DirEntry>) -> Seq<EntryView> {
    v.map_values(|e: DirEntry| e@)
}

proof fn lemma_insert_sorted_at(s: Seq<EntryView>, x: EntryView, p: int)
    requires
        0 <= p <= s.len(),
        forall|k: int| p <= k < s.len() ==> entry_before(x, #[trigger] s[k]),
        p > 0 ==> !entry_before(x, s[p - 1]),
    ensures
        insert_sorted(s, x) == s.take(p).push(x) + s.skip(p),
    decreases s.len(),
{
    if s.len() == p {
        assert(s.take(p) =~= s);
        assert(s.skip(p) =~= Seq::<EntryView>::empty());
        assert(s.take(p).push(x) + s.skip(p) =~= s.push(x));
    } else {
        assert(entry_before(x, s[s.len() - 1]));
        lemma_insert_sorted_at(s.drop_last(), x, p);
        assert(s.drop_last().take(p) =~= s.take(p));
        assert((s.drop_last().take(p).push(x) + s.drop_last().skip(p)).push(s.last()) =~= s.take(
            p,
        ).push(x) + s.skip(p));
    }
}

fn keyed_before(x: &KeyedEntry, y: &KeyedEntry) -> (r: bool)
    requires
        x.key@ == sort_key(x.entry.path@),
        y.key@ == sort_key(y.entry.path@),
    ensures
        r == entry_before(x.entry@, y.entry@),
{
    if x.entry.is_dir != y.entry.is_dir {
        x.entry.is_dir
    } else {
        bytes_less(x.key.as_slice(), y.key.as_slice())
    }
}

fn insert_keyed(sorted: &mut Vec<KeyedEntry>, x: KeyedEntry)
    requires
        keys_ok(old(sorted)@),
        x.key@ == sort_key(x.entry.path@),
    ensures
        keys_ok(final(sorted)@),
        keyed_view(final(sorted)@) == insert_sorted(keyed_view(old(sorted)@), x.entry@),
{
    let ghost s = keyed_view(sorted@);
    let mut p = sorted.len();
    while p > 0 && keyed_before(&x, &sorted[p - 1])
        invariant
            p <= sorted@.len(),
            keys_ok(sorted@),
            s == keyed_view(sorted@),
            x.key@ == sort_key(x.entry.path@),
            forall|k: int| p <= k < s.len() ==> entry_before(x.entry@, #[trigger] s[k]),
        decreases p,
    {
        p = p - 1;
    }
    proof {
        lemma_insert_sorted_at(s, x.entry@, p as int);
    }
    let ghost before = sorted@;
    sorted.insert(p, x);
    assert(keyed_view(sorted@) =~= s.take(p as int).push(x.entry@) + s.skip(p as int));
    assert forall|i: int| 0 <= i < sorted@.len() implies (#[trigger] sorted@[i]).key@ == sort_key(
        sorted@[i].entry.path@,
    ) by {
        if i < p {
            assert(sorted@[i] == before[i]);
        } else if i > p {
            assert(sorted@[i] == before[i - 1]);
        }
    }
}

/// The entries sorted for listing: directories first, then by lowercase
/// path, equal keys keeping their order (see `sort_entries`).
pub fn sort_dir_entries(entries: &Vec<DirEntry>) -> (r: Vec<DirEntry>)
    ensures
        entries_view(r@) == sort_entries(entries_view(entries@)),
{
    let mut sorted: Vec<KeyedEntry> = Vec::new();
    let mut i: usize = 0;
    assert(entries_view(entries@).take(0) =~= Seq::<EntryView>::empty());
    assert(keyed_view(sorted@) =~= Seq::<EntryView>::empty());
    while i < entries.len()
        invariant
            i <= entries@.len(),
            keys_ok(sorted@),
            keyed_view(sorted@) == sort_entries(entries_view(entries@).take(i as int)),
        decreases entries.len() - i,
    {
        assert(entries_view(entries@).take(i + 1).drop_last() =~= entries_view(entries@).take(
            i as int,
        ));
        let k = keyed(&entries[i]);
        insert_keyed(&mut sorted, k);
        i = i + 1;
    }
    assert(entries_view(entries@).take(entries@.len() as int) =~= entries_view(entries@));
    let mut out: Vec<DirEntry> = Vec::new();
    let mut j: usize = 0;
    while j < sorted.len()
        invariant
            j <= sorted@.len(),
            entries_view(out@) == keyed_view(sorted@).take(j as int),
        decreases sorted.len() - j,
    {
        let ghost before = out@;
        let e = copy_entry(&sorted[j].entry);
        assert(keyed_view(sorted@)[j as int] == e@);
        out.push(e);
        assert(entries_view(out@) =~= entries_view(before).push(e@));
        j = j + 1;
        assert(entries_view(out@) =~= keyed_view(sorted@).take(j as int));
    }
    assert(keyed_view(sorted@).take(j as int) =~= keyed_view(sorted@));
    out
}

} // verus!

verus! {

/// The characters of each string.
pub open spec fn strings_view(v: Seq<String>) -> Seq<Seq<char>> {
    v.map_values(|s: String| s@)
}

/// One row of the tree as shown: an entry and its nesting depth.
pub struct VisibleEntry {
    pub path: String,
    pub name: String,
    pub is_dir: bool,
    pub depth: usize,
}

/// The abstract value of a shown row.
pub struct VisibleView {
    pub path: Seq<char>,
    pub name: Seq<char>,
    pub is_dir: bool,
    pub depth: usize,
}

impl View for VisibleEntry {
    type V = VisibleView;

    open spec fn view(&self) -> VisibleView {
        VisibleView { path: self.path@, name: self.name@, is_dir: self.is_dir, depth: self.depth }
    }
}

/// The views of a sequence of shown rows.
pub open spec fn visible_view(v: Seq<VisibleEntry>) -> Seq<VisibleView> {
    v.map_values(|e: VisibleEntry| e@)
}

/// The entries listed for `dir`: those of the first listing of that
/// directory; none when it was not read.
pub open spec fn listing_entries(ls: Seq<ListingView>, dir: Seq<char>) -> Seq<EntryView>
    decreases ls.len(),
{
    if ls.len() == 0 {
        Seq::<EntryView>::empty()
    } else if ls[0].dir == dir {
        ls[0].entries
    } else {
        listing_entries(ls.drop_first(), dir)
    }
}

/// The children of `dir`, in listing order.
pub open spec fn children_of(ls: Seq<ListingView>, dir: Seq<char>) -> Seq<EntryView> {
    sort_entries(listing_entries(ls, dir))
}

/// The depth of a directory's children (saturating).
pub open spec fn child_depth(d: usize) -> usize {
    if d < usize::MAX {
        (d + 1) as usize
    } else {
        d
    }
}

/// The row shown for entry `e` at depth `depth`.
pub open spec fn shown(e: EntryView, depth: usize) -> VisibleView {
    VisibleView { path: e.path, name: e.name, is_dir: e.is_dir, depth }
}

/// The rows shown for entries `es` at depth `depth`: each entry, and after a
/// directory that is expanded (in `avail`) the rows of its children one level
/// deeper. A directory is not opened again below itself.
pub open spec fn flatten_entries(
    ls: Seq<ListingView>,
    avail: Seq<Seq<char>>,
    es: Seq<EntryView>,
    depth: usize,
) -> Seq<VisibleView>
    decreases avail.len(), es.len(),
{
    if es.len() == 0 {
        Seq::<VisibleView>::empty()
    } else {
        let e = es.last();
        let head = flatten_entries(ls, avail, es.drop_last(), depth).push(shown(e, depth));
        if e.is_dir && avail.contains(e.path) {
            proof {
                avail.index_of_first_ensures(e.path);
            }
            head + flatten_entries(
                ls,
                avail.remove_value(e.path),
                children_of(ls, e.path),
                child_depth(depth),
            )
        } else {
            head
        }
    }
}

/// The rows of the whole tree under `root`, with the directories `expanded` open.
pub open spec fn tree_rows(ls: Seq<ListingView>, expanded: Seq<Seq<char>>, root: Seq<char>) -> Seq<
    VisibleView,
> {
    flatten_entries(ls, expanded, children_of(ls, root), 0)
}

/// The index of the first string equal to `p`.
pub fn find_string(v: &Vec<String>, p: &String) -> (r: Option<usize>)
    ensures
        strings_view(v@).index_of_first(p@) == match r {
            Some(i) => Some(i as int),
            None => None::<int>,
        },
{
    proof {
        strings_view(v@).index_of_first_ensures(p@);
    }
    let mut i: usize = 0;
    while i < v.len()
        invariant
            i <= v@.len(),
            forall|j: int| 0 <= j < i ==> strings_view(v@)[j] != p@,
        decreases v.len() - i,
    {
        if v[i] == *p {
            proof {
                strings_view(v@).index_of_first_ensures(p@);
                let k = strings_view(v@).index_of_first(p@)->0;
                assert(strings_view(v@)[i as int] == p@);
                assert(!(k < i));
                assert(!(i < k));
            }
            return Some(i);
        }
        i = i + 1;
    }
    proof {
        if strings_view(v@).contains(p@) {
            let k = choose|k: int| 0 <= k < strings_view(v@).len() && strings_view(v@)[k] == p@;
            assert(strings_view(v@)[k] == p@);
        }
    }
    None
}

fn copy_strings(v: &Vec<String>) -> (r: Vec<String>)
    ensures
        strings_view(r@) == strings_view(v@),
{
    let mut r: Vec<String> = Vec::new();
    let mut i: usize = 0;
    while i < v.len()
        invariant
            i <= v@.len(),
            strings_view(r@) == strings_view(v@).take(i as int),
        decreases v.len() - i,
    {
        let ghost before = r@;
        let s = v[i].clone();
        r.push(s);
        assert(strings_view(r@) =~= strings_view(before).push(s@));
        i = i + 1;
        assert(strings_view(r@) =~= strings_view(v@).take(i as int));
    }
    assert(strings_view(v@).take(i as int) =~= strings_view(v@));
    r
}

/// The children of `dir` as listed in `listings`, in listing order (see `children_of`).
pub fn children_in(listings: &Vec<DirListing>, dir: &String) -> (r: Vec<DirEntry>)
    ensures
        entries_view(r@) == children_of(listings_view(listings@), dir@),
{
    let ghost lv = listings_view(listings@);
    let mut i: usize = 0;
    assert(lv.skip(0) =~= lv);
    while i < listings.len()
        invariant
            i <= listings@.len(),
            lv == listings_view(listings@),
            listing_entries(lv, dir@) == listing_entries(lv.skip(i as int), dir@),
        decreases listings.len() - i,
    {
        assert(lv.skip(i as int)[0] == listings@[i as int]@);
        assert(lv.skip(i as int).drop_first() =~= lv.skip(i + 1));
        if listings[i].dir == *dir {
            let r = sort_dir_entries(&listings[i].entries);
            return r;
        }
        i = i + 1;
    }
    assert(lv.skip(i as int) =~= Seq::<ListingView>::empty());
    let empty: Vec<DirEntry> = Vec::new();
    assert(entries_view(empty@) =~= Seq::<EntryView>::empty());
    assert(sort_entries(Seq::<EntryView>::empty()) == Seq::<EntryView>::empty());
    empty
}

#[verifier::rlimit(60)]
fn flatten_into(
    listings: &Vec<DirListing>,
    avail: &Vec<String>,
    es: &Vec<DirEntry>,
    depth: usize,
    out: &mut Vec<VisibleEntry>,
)
    ensures
        visible_view(final(out)@) == visible_view(old(out)@) + flatten_entries(
            listings_view(listings@),
            strings_view(avail@),
            entries_view(es@),
            depth,
        ),
    decreases avail@.len(),
{
    let ghost lv = listings_view(listings@);
    let ghost av = strings_view(avail@);
    let ghost ev = entries_view(es@);
    let ghost start = visible_view(out@);
    let mut i: usize = 0;
    assert(ev.take(0) =~= Seq::<EntryView>::empty());
    assert(start + Seq::<VisibleView>::empty() =~= start);
    while i < es.len()
        invariant
            i <= es@.len(),
            lv == listings_view(listings@),
            av == strings_view(avail@),
            ev == entries_view(es@),
            visible_view(out@) == start + flatten_entries(lv, av, ev.take(i as int), depth),
        decreases es.len() - i,
    {
        let e = &es[i];
        assert(ev.take(i + 1).drop_last() =~= ev.take(i as int));
        assert(ev.take(i + 1).last() == e@);
        let ghost mid = visible_view(out@);
        out.push(VisibleEntry { path: e.path.clone(), name: e.name.clone(), is_dir: e.is_dir, depth });
        assert(visible_view(out@) =~= mid.push(shown(e@, depth)));
        if e.is_dir {
            match find_string(avail, &e.path) {
                Some(k) => {
                    proof {
                        av.index_of_first_ensures(e.path@);
                    }
                    let mut sub = copy_strings(avail);
                    sub.remove(k);
                    assert(strings_view(sub@) =~= av.remove_value(e.path@));
                    let children = children_in(listings, &e.path);
                    let d = if depth < usize::MAX {
                        depth + 1
                    } else {
                        depth
                    };
                    let ghost before_sub = visible_view(out@);
                    flatten_into(listings, &sub, &children, d, out);
                    assert(visible_view(out@) =~= start + flatten_entries(
                        lv,
                        av,
                        ev.take(i + 1),
                        depth,
                    ));
                },
                None => {
                    proof {
                        av.index_of_first_ensures(e.path@);
                    }
                    assert(visible_view(out@) =~= start + flatten_entries(
                        lv,
                        av,
                        ev.take(i + 1),
                        depth,
                    ));
                },
            }
        } else {
            assert(visible_view(out@) =~= start + flatten_entries(lv, av, ev.take(i + 1), depth));
        }
        i = i + 1;
    }
    assert(ev.take(i as int) =~= ev);
}

} // verus!

verus! {

/// The abstract state of the file tree.
pub struct FileTreeView {
    pub root: Seq<char>,
    /// The directories shown open.
    pub expanded: Seq<Seq<char>>,
    /// The rows shown, top to bottom.
    pub visible: Seq<VisibleView>,
    /// The index of the highlighted row.
    pub selected: int,
    /// The index of the first row on screen.
    pub scroll: int,
    pub size: Size,
    pub needs_redraw: bool,
    /// A file chosen to be opened, not yet taken by the editor.
    pub pending_open: Option<Seq<char>>,
    /// The set of open directories changed and the rows must be rebuilt from
    /// fresh listings.
    pub rebuild_pending: bool,
}

/// The paths of the shown rows.
pub open spec fn row_paths(v: Seq<VisibleView>) -> Seq<Seq<char>> {
    v.map_values(|e: VisibleView| e.path)
}

/// `selected` clamped to the last of `len` rows (0 when there are none).
pub open spec fn clamp_index(selected: int, len: int) -> int {
    if len == 0 {
        0
    } else if selected < len - 1 {
        selected
    } else {
        len - 1
    }
}

/// The scroll offset that brings row `selected` into a window of `h` rows
/// starting at `scroll`, moving the window as little as possible; a window
/// of no rows leaves the offset as it is.
pub open spec fn scroll_for(selected: int, scroll: int, h: int) -> int {
    if h == 0 {
        scroll
    } else if selected < scroll {
        selected
    } else if selected >= (if scroll + h <= usize::MAX { scroll + h } else { usize::MAX as int }) {
        sat_sub(selected, sat_sub(h, 1))
    } else {
        scroll
    }
}

impl FileTreeView {
    /// The open directories are distinct, and the selection indexes a shown
    /// row (or is 0 when no row is shown).
    pub open spec fn wf(self) -> bool {
        &&& self.expanded.no_duplicates()
        &&& self.visible.len() == 0 ==> self.selected == 0
        &&& self.visible.len() > 0 ==> 0 <= self.selected < self.visible.len()
        &&& 0 <= self.scroll <= usize::MAX
        &&& self.visible.len() <= usize::MAX
    }

    /// The path of the selected row, if any row is shown.
    pub open spec fn selected_path(self) -> Option<Seq<char>> {
        if 0 <= self.selected < self.visible.len() {
            Some(self.visible[self.selected].path)
        } else {
            None
        }
    }

    /// The tree with its rows rebuilt from `ls`: the selection follows the
    /// previously selected path when it is still shown, else it is clamped;
    /// the window scrolls to keep it in view.
    pub open spec fn rebuilt(self, ls: Seq<ListingView>) -> FileTreeView {
        let vis = tree_rows(ls, self.expanded, self.root);
        let clamped = clamp_index(self.selected, vis.len() as int);
        let sel = match self.selected_path() {
            Some(p) => match row_paths(vis).index_of_first(p) {
                Some(i) => i,
                None => clamped,
            },
            None => clamped,
        };
        FileTreeView {
            visible: vis,
            selected: sel,
            scroll: scroll_for(sel, self.scroll, self.size.height as int),
            rebuild_pending: false,
            ..self
        }
    }

    /// The tree with row `sel` selected and scrolled into view.
    pub open spec fn select(self, sel: int) -> FileTreeView {
        FileTreeView { selected: sel, scroll: scroll_for(sel, self.scroll, self.size.height as int), ..self }
    }

    /// A movement key in the tree: whether it was handled, and the new tree.
    /// Up and Down move the selection within the rows; Left closes a selected
    /// open directory, Right opens a selected closed one (the rows are then
    /// rebuilt from fresh listings); other directions are not handled.
    pub open spec fn moved(self, d: MoveDirection) -> (bool, FileTreeView) {
        if self.visible.len() == 0 {
            (false, self)
        } else {
            let e = self.visible[self.selected];
            match d {
                MoveDirection::Up | MoveDirection::ScrollUp => (
                    true,
                    self.select(sat_sub(self.selected, 1)),
                ),
                MoveDirection::Down | MoveDirection::ScrollDown => (
                    true,
                    self.select(clamp_index(self.selected + 1, self.visible.len() as int)),
                ),
                MoveDirection::Left => (
                    true,
                    if e.is_dir && self.expanded.contains(e.path) {
                        FileTreeView {
                            expanded: self.expanded.remove_value(e.path),
                            rebuild_pending: true,
                            ..self
                        }
                    } else {
                        self
                    },
                ),
                MoveDirection::Right => (
                    true,
                    if e.is_dir && !self.expanded.contains(e.path) {
                        FileTreeView {
                            expanded: self.expanded.push(e.path),
                            rebuild_pending: true,
                            ..self
                        }
                    } else {
                        self
                    },
                ),
                _ => (false, self),
            }
        }
    }

    /// Enter in the tree: a selected directory is opened or closed (the rows
    /// are then rebuilt), a selected file is chosen to be opened; with no row
    /// shown nothing happens and `false` is returned.
    pub open spec fn entered(self) -> (bool, FileTreeView) {
        if self.visible.len() == 0 {
            (false, self)
        } else {
            let e = self.visible[self.selected];
            if e.is_dir {
                (
                    true,
                    FileTreeView {
                        expanded: if self.expanded.contains(e.path) {
                            self.expanded.remove_value(e.path)
                        } else {
                            self.expanded.push(e.path)
                        },
                        rebuild_pending: true,
                        ..self
                    },
                )
            } else {
                (true, FileTreeView { pending_open: Some(e.path), ..self })
            }
        }
    }
}

/// The sidebar's width in columns, its right border included.
pub const TREE_WIDTH: usize = 24;

/// The columns of a row left of the border.
pub const TREE_CONTENT_WIDTH: usize = 23;

/// The text of a row before padding: two spaces per depth level, the name,
/// and a slash after a directory's name.
pub open spec fn entry_label(e: VisibleView) -> Seq<char> {
    spaces(2 * e.depth as nat) + e.name + if e.is_dir {
        seq!['/']
    } else {
        Seq::<char>::empty()
    }
}

/// A shown row's line: the label padded or cut to the content width, in
/// reverse video when selected (between the texts `on` and `off` that turn
/// it on and reset it), then the border.
pub open spec fn entry_line(e: VisibleView, selected: bool, on: Seq<char>, off: Seq<char>) -> Seq<
    char,
> {
    let padded = pad_or_truncate(entry_label(e), TREE_CONTENT_WIDTH as int);
    if selected {
        on + padded + off + seq!['|']
    } else {
        padded + seq!['|']
    }
}

/// The line drawn below the last shown row: blanks and the border.
pub open spec fn empty_tree_line() -> Seq<char> {
    spaces(TREE_CONTENT_WIDTH as nat) + seq!['|']
}

/// The line drawn on screen row `row` of the tree's window, with the
/// rendition texts `on` and `off` (see `entry_line`).
pub open spec fn tree_line(t: FileTreeView, row: int, on: Seq<char>, off: Seq<char>) -> Seq<char> {
    let idx = t.scroll + row;
    if idx < t.visible.len() {
        entry_line(t.visible[idx], idx == t.selected, on, off)
    } else {
        empty_tree_line()
    }
}

/// The line for a shown row, with the rendition texts `on` and `off` (see `entry_line`).
pub fn format_line_with(entry: &VisibleEntry, is_selected: bool, on: &str, off: &str) -> (r: String)
    ensures
        r@ == entry_line(entry@, is_selected, on@, off@),
{
    let mut label: Vec<char> = Vec::new();
    let mut d: usize = 0;
    while d < entry.depth
        invariant
            d <= entry.depth,
            label@ == spaces(2 * d as nat),
        decreases entry.depth - d,
    {
        label.push(' ');
        label.push(' ');
        d = d + 1;
        assert(label@ =~= spaces(2 * d as nat));
    }
    push_str(&mut label, entry.name.as_str());
    if entry.is_dir {
        label.push('/');
    }
    assert(label@ =~= entry_label(entry@));
    let label_text = string_from_chars(label.as_slice());
    let padded = pad_or_truncate_text(label_text.as_str(), TREE_CONTENT_WIDTH);
    let mut line: Vec<char> = Vec::new();
    if is_selected {
        push_str(&mut line, on);
        let ghost a = line@;
        let mut i: usize = 0;
        while i < padded.len()
            invariant
                i <= padded@.len(),
                line@ == a + padded@.take(i as int),
            decreases padded.len() - i,
        {
            line.push(padded[i]);
            i = i + 1;
            assert(line@ =~= a + padded@.take(i as int));
        }
        assert(padded@.take(i as int) =~= padded@);
        push_str(&mut line, off);
    } else {
        let mut i: usize = 0;
        while i < padded.len()
            invariant
                i <= padded@.len(),
                line@ == padded@.take(i as int),
            decreases padded.len() - i,
        {
            line.push(padded[i]);
            i = i + 1;
            assert(line@ =~= padded@.take(i as int));
        }
        assert(padded@.take(i as int) =~= padded@);
    }
    line.push('|');
    assert(line@ =~= entry_line(entry@, is_selected, on@, off@));
    string_from_chars(line.as_slice())
}

/// The line for a shown row, with the rendition texts the terminal back end
/// writes (see `rendition_texts`).
pub fn format_line(entry: &VisibleEntry, is_selected: bool) -> (r: String)
    ensures
        exists|on: Seq<char>, off: Seq<char>|
            rendition_texts(on, off) && r@ == entry_line(entry@, is_selected, on, off),
{
    let on = reverse_on_text();
    let off = attributes_off_text();
    let r = format_line_with(entry, is_selected, on.as_str(), off.as_str());
    assert(rendition_texts(on@, off@) && r@ == entry_line(entry@, is_selected, on@, off@));
    r
}

} // verus!

verus! {

/// A new tree rooted at `root`: no directory open, no size yet, marked for
/// redraw, its rows built from `ls` with the first row selected.
pub open spec fn new_tree(root: Seq<char>, ls: Seq<ListingView>) -> FileTreeView {
    (FileTreeView {
        root,
        expanded: Seq::<Seq<char>>::empty(),
        visible: Seq::<VisibleView>::empty(),
        selected: 0,
        scroll: 0,
        size: Size { height: 0, width: 0 },
        needs_redraw: true,
        pending_open: None,
        rebuild_pending: false,
    }).rebuilt(ls)
}

/// The sidebar's directory tree.
pub struct FileTree {
    root: String,
    expanded: Vec<String>,
    visible: Vec<VisibleEntry>,
    selected: usize,
    scroll: usize,
    size: Size,
    needs_redraw: bool,
    pending_open: Option<String>,
    rebuild_pending: bool,
}

impl View for FileTree {
    type V = FileTreeView;

    closed spec fn view(&self) -> FileTreeView {
        FileTreeView {
            root: self.root@,
            expanded: strings_view(self.expanded@),
            visible: visible_view(self.visible@),
            selected: self.selected as int,
            scroll: self.scroll as int,
            size: self.size,
            needs_redraw: self.needs_redraw,
            pending_open: match self.pending_open {
                Some(p) => Some(p@),
                None => None,
            },
            rebuild_pending: self.rebuild_pending,
        }
    }
}

fn scroll_into_view(selected: usize, scroll: usize, h: usize) -> (r: usize)
    ensures
        r == scroll_for(selected as int, scroll as int, h as int),
{
    if h == 0 {
        scroll
    } else if selected < scroll {
        selected
    } else if selected >= scroll.saturating_add(h) {
        selected.saturating_sub(h.saturating_sub(1))
    } else {
        scroll
    }
}

impl FileTree {
    /// The tree's invariant (see `FileTreeView::wf`).
    pub open spec fn wf(&self) -> bool {
        self@.wf()
    }

    /// A tree rooted at `root` with no directory open, its rows built from
    /// `listings`, the first row selected and the tree marked for redraw.
    pub fn new(root: String, listings: &Vec<DirListing>) -> (t: FileTree)
        ensures
            t.wf(),
            t@ == new_tree(root@, listings_view(listings@)),
    {
        let mut tree = FileTree {
            root,
            expanded: Vec::new(),
            visible: Vec::new(),
            selected: 0,
            scroll: 0,
            size: Size { height: 0, width: 0 },
            needs_redraw: true,
            pending_open: None,
            rebuild_pending: false,
        };
        assert(tree@.expanded =~= Seq::<Seq<char>>::empty());
        assert(tree@.visible =~= Seq::<VisibleView>::empty());
        tree.rebuild(listings);
        tree
    }

    /// Takes the file chosen to be opened, if any.
    pub fn take_pending_open(&mut self) -> (p: Option<String>)
        requires
            old(self).wf(),
        ensures
            final(self).wf(),
            final(self)@ == (FileTreeView { pending_open: None, ..old(self)@ }),
            match p {
                Some(s) => old(self)@.pending_open == Some(s@),
                None => old(self)@.pending_open is None,
            },
    {
        self.pending_open.take()
    }

    /// The path of the selected row, if any row is shown.
    pub fn selected_path(&self) -> (p: Option<String>)
        requires
            self.wf(),
        ensures
            match p {
                Some(s) => self@.selected_path() == Some(s@),
                None => self@.selected_path() is None,
            },
    {
        if self.selected < self.visible.len() {
            assert(visible_view(self.visible@)[self.selected as int] == self.visible@[self.selected as int]@);
            Some(self.visible[self.selected].path.clone())
        } else {
            None
        }
    }

    /// The directory the tree shows.
    pub fn workspace_root(&self) -> (r: &String)
        ensures
            r@ == self@.root,
    {
        &self.root
    }

    /// The directories shown open; their listings, with the root's, are what
    /// `rebuild` needs.
    pub fn expanded_dirs(&self) -> (r: &Vec<String>)
        ensures
            strings_view(r@) == self@.expanded,
    {
        &self.expanded
    }

    /// Whether the rows must be rebuilt from fresh listings.
    pub fn needs_rebuild(&self) -> (r: bool)
        ensures
            r == self@.rebuild_pending,
    {
        self.rebuild_pending
    }

    /// Rebuilds the rows from `listings`, the entries of the root and of open
    /// directories (see `FileTreeView::rebuilt`).
    pub fn rebuild(&mut self, listings: &Vec<DirListing>)
        requires
            old(self).wf(),
        ensures
            final(self).wf(),
            final(self)@ == old(self)@.rebuilt(listings_view(listings@)),
    {
        let ghost t = self@;
        let sel = self.selected_path();
        let mut rows: Vec<VisibleEntry> = Vec::new();
        let top = children_in(listings, &self.root);
        assert(visible_view(rows@) =~= Seq::<VisibleView>::empty());
        flatten_into(listings, &self.expanded, &top, 0, &mut rows);
        assert(visible_view(rows@) =~= tree_rows(listings_view(listings@), t.expanded, t.root));
        self.visible = rows;
        let n = self.visible.len();
        self.selected = if n == 0 {
            0
        } else if self.selected < n - 1 {
            self.selected
        } else {
            n - 1
        };
        match sel {
            Some(p) => {
                let ghost paths = row_paths(visible_view(self.visible@));
                proof {
                    paths.index_of_first_ensures(p@);
                }
                let mut i: usize = 0;
                let mut found = false;
                while i < self.visible.len() && !found
                    invariant
                        i <= self.visible@.len(),
                        paths == row_paths(visible_view(self.visible@)),
                        found ==> i < self.visible@.len() && paths[i as int] == p@,
                        forall|j: int| 0 <= j < i ==> paths[j] != p@,
                    decreases self.visible.len() - i, if found { 0int } else { 1int },
                {
                    assert(paths[i as int] == self.visible@[i as int].path@);
                    if self.visible[i].path == p {
                        found = true;
                    } else {
                        i = i + 1;
                    }
                }
                if found {
                    proof {
                        let k = paths.index_of_first(p@)->0;
                        assert(!(k < i));
                        assert(!(i < k));
                    }
                    self.selected = i;
                } else {
                    proof {
                        if paths.contains(p@) {
                            let k = choose|k: int| 0 <= k < paths.len() && paths[k] == p@;
                            assert(paths[k] == p@);
                        }
                    }
                }
            },
            None => {},
        }
        self.scroll = scroll_into_view(self.selected, self.scroll, self.size.height);
        self.rebuild_pending = false;
    }

    /// Handles a movement key (see `FileTreeView::moved`).
    #[verifier::rlimit(40)]
    pub fn handle_move(&mut self, direction: MoveDirection) -> (handled: bool)
        requires
            old(self).wf(),
        ensures
            final(self).wf(),
            (handled, final(self)@) == old(self)@.moved(direction),
    {
        let n = self.visible.len();
        if n == 0 {
            return false;
        }
        assert(visible_view(self.visible@)[self.selected as int] == self.visible@[self.selected as int]@);
        match direction {
            MoveDirection::Up | MoveDirection::ScrollUp => {
                self.selected = self.selected.saturating_sub(1);
            },
            MoveDirection::Down | MoveDirection::ScrollDown => {
                self.selected = if self.selected + 1 < n - 1 {
                    self.selected + 1
                } else {
                    n - 1
                };
            },
            MoveDirection::Left => {
                if self.visible[self.selected].is_dir {
                    match find_string(&self.expanded, &self.visible[self.selected].path) {
                        Some(k) => {
                            proof {
                                strings_view(self.expanded@).index_of_first_ensures(
                                    self.visible@[self.selected as int].path@,
                                );
                            }
                            let ghost before = strings_view(self.expanded@);
                            self.expanded.remove(k);
                            assert(strings_view(self.expanded@) =~= before.remove(k as int));
                            self.rebuild_pending = true;
                        },
                        None => {
                            proof {
                                strings_view(self.expanded@).index_of_first_ensures(
                                    self.visible@[self.selected as int].path@,
                                );
                            }
                        },
                    }
                }
                return true;
            },
            MoveDirection::Right => {
                if self.visible[self.selected].is_dir {
                    match find_string(&self.expanded, &self.visible[self.selected].path) {
                        Some(_) => {
                            proof {
                                strings_view(self.expanded@).index_of_first_ensures(
                                    self.visible@[self.selected as int].path@,
                                );
                            }
                        },
                        None => {
                            proof {
                                strings_view(self.expanded@).index_of_first_ensures(
                                    self.visible@[self.selected as int].path@,
                                );
                            }
                            let ghost before = strings_view(self.expanded@);
                            let p = self.visible[self.selected].path.clone();
                            self.expanded.push(p);
                            assert(strings_view(self.expanded@) =~= before.push(p@));
                            self.rebuild_pending = true;
                        },
                    }
                }
                return true;
            },
            _ => {
                return false;
            },
        }
        self.scroll = scroll_into_view(self.selected, self.scroll, self.size.height);
        true
    }

    /// Handles Enter (see `FileTreeView::entered`).
    pub fn handle_enter(&mut self) -> (handled: bool)
        requires
            old(self).wf(),
        ensures
            final(self).wf(),
            (handled, final(self)@) == old(self)@.entered(),
    {
        if self.selected >= self.visible.len() {
            return false;
        }
        assert(visible_view(self.visible@)[self.selected as int] == self.visible@[self.selected as int]@);
        if self.visible[self.selected].is_dir {
            proof {
                strings_view(self.expanded@).index_of_first_ensures(
                    self.visible@[self.selected as int].path@,
                );
            }
            match find_string(&self.expanded, &self.visible[self.selected].path) {
                Some(k) => {
                    let ghost before = strings_view(self.expanded@);
                    self.expanded.remove(k);
                    assert(strings_view(self.expanded@) =~= before.remove(k as int));
                },
                None => {
                    let ghost before = strings_view(self.expanded@);
                    let p = self.visible[self.selected].path.clone();
                    self.expanded.push(p);
                    assert(strings_view(self.expanded@) =~= before.push(p@));
                },
            }
            self.rebuild_pending = true;
            true
        } else {
            self.pending_open = Some(self.visible[self.selected].path.clone());
            true
        }
    }

    /// The screen position of the tree's caret, on the selected row of a tree
    /// drawn from screen row `origin_y`.
    pub fn caret_position(&self, origin_y: usize) -> (p: Position)
        requires
            origin_y + sat_sub(self@.selected, self@.scroll) <= usize::MAX,
        ensures
            p.row == origin_y + sat_sub(self@.selected, self@.scroll),
            p.col == 0,
    {
        Position { row: origin_y + self.selected.saturating_sub(self.scroll), col: 0 }
    }

    /// Sets whether the tree must be redrawn.
    pub fn mark_redraw(&mut self, value: bool)
        requires
            old(self).wf(),
        ensures
            final(self).wf(),
            final(self)@ == (FileTreeView { needs_redraw: value, ..old(self)@ }),
    {
        self.needs_redraw = value;
    }

    /// Whether the tree must be redrawn.
    pub fn needs_redraw(&self) -> (r: bool)
        ensures
            r == self@.needs_redraw,
    {
        self.needs_redraw
    }

    /// Sets the tree's window size and scrolls the selection into view.
    pub fn set_size(&mut self, size: Size)
        requires
            old(self).wf(),
        ensures
            final(self).wf(),
            final(self)@ == (FileTreeView { size, ..old(self)@ }).select(old(self)@.selected),
    {
        self.size = size;
        self.scroll = scroll_into_view(self.selected, self.scroll, self.size.height);
    }

    /// The index of the first row on screen.
    pub fn scroll(&self) -> (r: usize)
        ensures
            r == self@.scroll,
    {
        self.scroll
    }

    /// The index of the selected row.
    pub fn selected(&self) -> (r: usize)
        ensures
            r == self@.selected,
    {
        self.selected
    }

    /// The tree's window size.
    pub fn size(&self) -> (r: Size)
        ensures
            r == self@.size,
    {
        self.size
    }

    /// The lines to draw, one per row of the window, with the rendition
    /// texts `on` and `off` (see `tree_line`).
    pub fn render_lines_with(&self, on: &str, off: &str) -> (lines: Vec<String>)
        requires
            self@.scroll + self@.size.height <= usize::MAX,
        ensures
            lines@.len() == self@.size.height,
            forall|r: int|
                0 <= r < lines@.len() ==> (#[trigger] lines@[r])@ == tree_line(self@, r, on@, off@),
    {
        let h = self.size.height;
        let mut lines: Vec<String> = Vec::new();
        let mut row: usize = 0;
        while row < h
            invariant
                row <= h,
                h == self@.size.height,
                self@.scroll + h <= usize::MAX,
                lines@.len() == row,
                forall|r: int|
                    0 <= r < row ==> (#[trigger] lines@[r])@ == tree_line(self@, r, on@, off@),
            decreases h - row,
        {
            let idx = self.scroll + row;
            let line = if idx < self.visible.len() {
                assert(visible_view(self.visible@)[idx as int] == self.visible@[idx as int]@);
                format_line_with(&self.visible[idx], idx == self.selected, on, off)
            } else {
                let mut blank: Vec<char> = Vec::new();
                push_spaces(&mut blank, TREE_CONTENT_WIDTH);
                blank.push('|');
                assert(blank@ =~= empty_tree_line());
                string_from_chars(blank.as_slice())
            };
            lines.push(line);
            row = row + 1;
        }
        lines
    }

    /// The lines to draw, one per row of the window, with the rendition texts
    /// the terminal back end writes (see `rendition_texts` and `tree_line`).
    pub fn render_lines(&self) -> (lines: Vec<String>)
        requires
            self@.scroll + self@.size.height <= usize::MAX,
        ensures
            lines@.len() == self@.size.height,
            exists|on: Seq<char>, off: Seq<char>|
                rendition_texts(on, off) && forall|r: int|
                    0 <= r < lines@.len() ==> (#[trigger] lines@[r])@ == tree_line(self@, r, on, off),
    {
        let on = reverse_on_text();
        let off = attributes_off_text();
        let lines = self.render_lines_with(on.as_str(), off.as_str());
        assert(rendition_texts(on@, off@));
        lines
    }
}

} // verus!

verus! {

proof fn lemma_push_first_index(s: Seq<Seq<char>>, p: Seq<char>)
    requires
        !s.contains(p),
    ensures
        s.push(p).contains(p),
        s.push(p).index_of_first(p) == Some(s.len() as int),
        s.push(p).remove_value(p) == s,
{
    assert(s.push(p)[s.len() as int] == p);
    s.push(p).index_of_first_ensures(p);
    let i = s.push(p).index_of_first(p)->0;
    if i < s.len() {
        assert(s.push(p)[i] == s[i]);
    }
    assert(s.push(p).remove(s.len() as int) =~= s);
}

/// After the rows are rebuilt in a window of at least one row, the selected
/// row is on screen.
pub proof fn law_rebuild_keeps_selection_on_screen(t: FileTreeView, ls: Seq<ListingView>)
    requires
        t.wf(),
        t.size.height > 0,
    ensures
        t.rebuilt(ls).scroll <= t.rebuilt(ls).selected < t.rebuilt(ls).scroll + t.size.height,
{
}

/// After a movement key, the selected row is on screen when the window has
/// at least one row and the key moved the selection.
pub proof fn law_move_keeps_selection_on_screen(t: FileTreeView, d: MoveDirection)
    requires
        t.wf(),
        t.size.height > 0,
        t.visible.len() > 0,
        d == MoveDirection::Up || d == MoveDirection::Down || d == MoveDirection::ScrollUp || d
            == MoveDirection::ScrollDown,
    ensures
        t.moved(d).1.scroll <= t.moved(d).1.selected < t.moved(d).1.scroll + t.size.height,
        t.moved(d).1.wf(),
{
}

/// Pressing Enter twice on a directory leaves the same directories open.
pub proof fn law_enter_twice_restores_open_dirs(t: FileTreeView)
    requires
        t.wf(),
        t.visible.len() > 0,
        t.visible[t.selected].is_dir,
    ensures
        t.entered().1.entered().1.expanded.to_set() == t.expanded.to_set(),
{
    let p = t.visible[t.selected].path;
    let once = t.entered().1;
    if t.expanded.contains(p) {
        t.expanded.index_of_first_ensures(p);
        let i = t.expanded.index_of_first(p)->0;
        assert(!once.expanded.contains(p)) by {
            if once.expanded.contains(p) {
                let k = choose|k: int| 0 <= k < once.expanded.len() && once.expanded[k] == p;
                if k < i {
                    assert(t.expanded[k] == p);
                } else {
                    assert(t.expanded[k + 1] == p);
                }
            }
        }
        assert(once.expanded.push(p).to_set() =~= t.expanded.to_set()) by {
            assert forall|x: Seq<char>| t.expanded.to_set().contains(x) implies once.expanded.push(
                p,
            ).to_set().contains(x) by {
                let k = choose|k: int| 0 <= k < t.expanded.len() && t.expanded[k] == x;
                if k < i {
                    assert(once.expanded.push(p)[k] == x);
                } else if k > i {
                    assert(once.expanded.push(p)[k - 1] == x);
                } else {
                    assert(once.expanded.push(p)[once.expanded.len() as int] == x);
                }
            }
            assert forall|x: Seq<char>| once.expanded.push(p).to_set().contains(x) implies t.expanded.to_set().contains(
                x,
            ) by {
                let k = choose|k: int| 0 <= k < once.expanded.push(p).len() && once.expanded.push(p)[k] == x;
                if k == once.expanded.len() {
                    assert(t.expanded[i] == x);
                } else if k < i {
                    assert(t.expanded[k] == x);
                } else {
                    assert(t.expanded[k + 1] == x);
                }
            }
        }
    } else {
        assert(once.expanded == t.expanded.push(p));
        lemma_push_first_index(t.expanded, p);
        assert(once.entered().1.expanded =~= t.expanded);
    }
}

/// Opening a closed directory with Right and closing it again with Left
/// leaves exactly the directories that were open before.
pub proof fn law_right_then_left_restores(t: FileTreeView)
    requires
        t.wf(),
        t.visible.len() > 0,
        t.visible[t.selected].is_dir,
        !t.expanded.contains(t.visible[t.selected].path),
    ensures
        t.moved(MoveDirection::Right).1.moved(MoveDirection::Left).1.expanded == t.expanded,
{
    let p = t.visible[t.selected].path;
    lemma_push_first_index(t.expanded, p);
    assert(t.moved(MoveDirection::Right).1.moved(MoveDirection::Left).1.expanded =~= t.expanded);
}

} // verus!

verus! {

/// `a` and `b` hold the same directories.
pub open spec fn same_members(a: Seq<Seq<char>>, b: Seq<Seq<char>>) -> bool {
    forall|x: Seq<char>| a.contains(x) <==> b.contains(x)
}

/// Row `i` is the first of `rows` whose path is `d`.
pub open spec fn first_row_of(rows: Seq<VisibleView>, d: Seq<char>, i: int) -> bool {
    &&& 0 <= i < rows.len()
    &&& rows[i].path == d
    &&& forall|j: int| 0 <= j < i ==> rows[j].path != d
}

proof fn lemma_remove_member(s: Seq<Seq<char>>, p: Seq<char>)
    requires
        s.no_duplicates(),
        s.contains(p),
    ensures
        s.remove_value(p).no_duplicates(),
        s.remove_value(p).len() == s.len() - 1,
        forall|x: Seq<char>| #[trigger] s.remove_value(p).contains(x) <==> (s.contains(x) && x != p),
{
    s.index_of_first_ensures(p);
    let i = s.index_of_first(p)->0;
    let r = s.remove_value(p);
    assert(r == s.remove(i));
    assert forall|x: Seq<char>| #[trigger] r.contains(x) <==> (s.contains(x) && x != p) by {
        if r.contains(x) {
            let k = choose|k: int| 0 <= k < r.len() && r[k] == x;
            if k < i {
                assert(s[k] == x);
                assert(k != i);
            } else {
                assert(s[k + 1] == x);
                assert(k + 1 != i);
            }
        }
        if s.contains(x) && x != p {
            let k = choose|k: int| 0 <= k < s.len() && s[k] == x;
            if k < i {
                assert(r[k] == x);
            } else {
                assert(k != i);
                assert(r[k - 1] == x);
            }
        }
    }
    assert forall|m: int, n: int| 0 <= m < r.len() && 0 <= n < r.len() && m != n implies r[m] != r[n] by {
        let sm = if m < i { m } else { m + 1 };
        let sn = if n < i { n } else { n + 1 };
        assert(r[m] == s[sm]);
        assert(r[n] == s[sn]);
    }
}

/// The rows depend on the open directories only as a set.
proof fn lemma_flatten_members(
    ls: Seq<ListingView>,
    a: Seq<Seq<char>>,
    b: Seq<Seq<char>>,
    es: Seq<EntryView>,
    depth: usize,
)
    requires
        a.no_duplicates(),
        b.no_duplicates(),
        same_members(a, b),
    ensures
        flatten_entries(ls, a, es, depth) == flatten_entries(ls, b, es, depth),
    decreases a.len(), es.len(),
{
    if es.len() > 0 {
        let e = es.last();
        lemma_flatten_members(ls, a, b, es.drop_last(), depth);
        if e.is_dir && a.contains(e.path) {
            lemma_remove_member(a, e.path);
            lemma_remove_member(b, e.path);
            lemma_flatten_members(
                ls,
                a.remove_value(e.path),
                b.remove_value(e.path),
                children_of(ls, e.path),
                child_depth(depth),
            );
        }
    }
}

/// Opening one more directory `d` changes no row up to the first row of
/// `d`, and nothing at all when `d` is not shown.
proof fn lemma_open_one(
    ls: Seq<ListingView>,
    a: Seq<Seq<char>>,
    b: Seq<Seq<char>>,
    d: Seq<char>,
    es: Seq<EntryView>,
    depth: usize,
)
    requires
        a.no_duplicates(),
        b.no_duplicates(),
        !a.contains(d),
        forall|x: Seq<char>| b.contains(x) <==> (a.contains(x) || x == d),
    ensures
        (forall|k: int|
            0 <= k < flatten_entries(ls, a, es, depth).len() ==> flatten_entries(
                ls,
                a,
                es,
                depth,
            )[k].path != d) ==> flatten_entries(ls, b, es, depth) == flatten_entries(ls, a, es, depth),
        forall|i: int|
            first_row_of(flatten_entries(ls, a, es, depth), d, i) ==> i < flatten_entries(
                ls,
                b,
                es,
                depth,
            ).len() && flatten_entries(ls, b, es, depth).take(i + 1) == flatten_entries(
                ls,
                a,
                es,
                depth,
            ).take(i + 1),
    decreases a.len(), es.len(),
{
    let r = flatten_entries(ls, a, es, depth);
    let r2 = flatten_entries(ls, b, es, depth);
    if es.len() > 0 {
        let e = es.last();
        let h = flatten_entries(ls, a, es.drop_last(), depth);
        let h2 = flatten_entries(ls, b, es.drop_last(), depth);
        lemma_open_one(ls, a, b, d, es.drop_last(), depth);
        let row = shown(e, depth);
        let s = if e.is_dir && a.contains(e.path) {
            flatten_entries(ls, a.remove_value(e.path), children_of(ls, e.path), child_depth(depth))
        } else {
            Seq::<VisibleView>::empty()
        };
        let s2 = if e.is_dir && b.contains(e.path) {
            flatten_entries(ls, b.remove_value(e.path), children_of(ls, e.path), child_depth(depth))
        } else {
            Seq::<VisibleView>::empty()
        };
        assert(r == h.push(row) + s);
        assert(r2 == h2.push(row) + s2);
        let h_has = exists|k: int| 0 <= k < h.len() && h[k].path == d;
        if e.path != d && e.is_dir && a.contains(e.path) {
            lemma_remove_member(a, e.path);
            lemma_remove_member(b, e.path);
            lemma_open_one(
                ls,
                a.remove_value(e.path),
                b.remove_value(e.path),
                d,
                children_of(ls, e.path),
                child_depth(depth),
            );
        }
        if e.path != d {
            assert(!(e.is_dir && a.contains(e.path)) ==> s2 == s);
        }
        assert forall|i: int| first_row_of(r, d, i) implies i < r2.len() && r2.take(i + 1) == r.take(
            i + 1,
        ) by {
            if i < h.len() {
                assert(first_row_of(h, d, i)) by {
                    assert forall|j: int| 0 <= j < i implies h[j].path != d by {
                        assert(r[j] == h[j]);
                    }
                    assert(r[i] == h[i]);
                }
                assert(r.take(i + 1) =~= h.take(i + 1));
                assert(r2.take(i + 1) =~= h2.take(i + 1));
            } else {
                assert forall|k: int| 0 <= k < h.len() implies h[k].path != d by {
                    assert(r[k] == h[k]);
                }
                assert(h2 == h);
                if i == h.len() {
                    assert(r.take(i + 1) =~= h.push(row));
                    assert(r2.take(i + 1) =~= h2.push(row));
                } else {
                    assert(r[h.len() as int] == row);
                    assert(row.path != d);
                    let j = i - h.len() - 1;
                    assert(first_row_of(s, d, j)) by {
                        assert(s[j] == r[i]);
                        assert forall|m: int| 0 <= m < j implies s[m].path != d by {
                            assert(s[m] == r[h.len() + 1 + m]);
                        }
                    }
                    assert(e.path != d);
                    assert(e.is_dir && a.contains(e.path)) by {
                        if !(e.is_dir && a.contains(e.path)) {
                            assert(s.len() == 0);
                        }
                    }
                    assert(r.take(i + 1) =~= h.push(row) + s.take(j + 1));
                    assert(r2.take(i + 1) =~= h2.push(row) + s2.take(j + 1));
                }
            }
        }
        if forall|k: int| 0 <= k < r.len() ==> r[k].path != d {
            assert forall|k: int| 0 <= k < h.len() implies h[k].path != d by {
                assert(r[k] == h[k]);
            }
            assert(r[h.len() as int] == row);
            assert forall|k: int| 0 <= k < s.len() implies s[k].path != d by {
                assert(r[h.len() + 1 + k] == s[k]);
            }
            assert(e.path != d);
            assert(s2 == s);
            assert(r2 =~= r);
        }
    }
}

} // verus!

verus! {

proof fn lemma_first_index(rows: Seq<VisibleView>, d: Seq<char>, i: int)
    requires
        first_row_of(rows, d, i),
    ensures
        row_paths(rows).index_of_first(d) == Some(i),
{
    let p = row_paths(rows);
    assert(p[i] == d);
    p.index_of_first_ensures(d);
    let k = p.index_of_first(d)->0;
    if k < i {
        assert(p[k] == rows[k].path);
    }
    if i < k {
        assert(p[i] == d);
    }
}

proof fn lemma_distinct_first_row(rows: Seq<VisibleView>, i: int)
    requires
        row_paths(rows).no_duplicates(),
        0 <= i < rows.len(),
    ensures
        first_row_of(rows, rows[i].path, i),
{
    assert forall|j: int| 0 <= j < i implies rows[j].path != rows[i].path by {
        assert(row_paths(rows)[j] == rows[j].path);
        assert(row_paths(rows)[i] == rows[i].path);
    }
}

/// Scrolling a row into view a second time moves nothing.
proof fn lemma_scroll_for_settles(i: int, s: int, h: int)
    requires
        0 <= i < usize::MAX,
        0 <= s <= usize::MAX,
        0 <= h,
    ensures
        scroll_for(i, scroll_for(i, s, h), h) == scroll_for(i, s, h),
        0 <= scroll_for(i, s, h) <= usize::MAX,
{
}

/// Opening a closed directory with Right and closing it again with Left,
/// the rows being rebuilt from the same listings after each key and no path
/// being shown twice, gives back the same open directories, rows and
/// selection; the window ends scrolled to the selection as any rebuild
/// leaves it (unmoved when it already showed it). The selection stays on the
/// directory in between.
pub proof fn law_right_then_left_restores_rows(t: FileTreeView, ls: Seq<ListingView>)
    requires
        t.wf(),
        t.visible == tree_rows(ls, t.expanded, t.root),
        t.visible.len() > 0,
        t.visible[t.selected].is_dir,
        !t.expanded.contains(t.visible[t.selected].path),
        row_paths(t.visible).no_duplicates(),
    ensures
        ({
            let t1 = t.moved(MoveDirection::Right).1.rebuilt(ls);
            let t2 = t1.moved(MoveDirection::Left).1.rebuilt(ls);
            &&& t1.selected == t.selected
            &&& t1.visible[t1.selected] == t.visible[t.selected]
            &&& t2.expanded == t.expanded
            &&& t2.visible == t.visible
            &&& t2.selected == t.selected
            &&& t2.scroll == scroll_for(t.selected, t.scroll, t.size.height as int)
            &&& scroll_for(t.selected, t.scroll, t.size.height as int) == t.scroll ==> t2.scroll
                == t.scroll
        }),
{
    let d = t.visible[t.selected].path;
    let i = t.selected;
    lemma_distinct_first_row(t.visible, i);
    lemma_scroll_for_settles(i, t.scroll, t.size.height as int);
    let a = t.expanded;
    let b = a.push(d);
    let es = children_of(ls, t.root);
    let r = t.visible;
    lemma_push_first_index(a, d);
    assert(b.no_duplicates()) by {
        assert forall|m: int, n: int| 0 <= m < b.len() && 0 <= n < b.len() && m != n implies b[m]
            != b[n] by {
            if m == a.len() {
                assert(b[n] == a[n]);
                assert(a.contains(a[n]));
            } else if n == a.len() {
                assert(b[m] == a[m]);
                assert(a.contains(a[m]));
            } else {
                assert(b[m] == a[m]);
                assert(b[n] == a[n]);
            }
        }
    }
    assert forall|x: Seq<char>| b.contains(x) <==> (a.contains(x) || x == d) by {
        if b.contains(x) {
            let k = choose|k: int| 0 <= k < b.len() && b[k] == x;
            if k < a.len() {
                assert(a[k] == x);
            }
        }
        if a.contains(x) {
            let k = choose|k: int| 0 <= k < a.len() && a[k] == x;
            assert(b[k] == x);
        }
        assert(b[a.len() as int] == d);
    }
    lemma_open_one(ls, a, b, d, es, 0);
    let r2 = tree_rows(ls, b, t.root);
    assert(r2.take(i + 1) == r.take(i + 1));
    assert(first_row_of(r2, d, i)) by {
        assert(r2[i] == r2.take(i + 1)[i]);
        assert(r[i] == r.take(i + 1)[i]);
        assert forall|j: int| 0 <= j < i implies r2[j].path != d by {
            assert(r2[j] == r2.take(i + 1)[j]);
            assert(r[j] == r.take(i + 1)[j]);
        }
    }
    lemma_first_index(r2, d, i);
    lemma_first_index(r, d, i);
    let t1 = t.moved(MoveDirection::Right).1.rebuilt(ls);
    assert(t1.visible == r2);
    assert(t1.selected == i);
    assert(t1.visible[i] == r[i]) by {
        assert(r2[i] == r2.take(i + 1)[i]);
        assert(r[i] == r.take(i + 1)[i]);
    }
    let t1l = t1.moved(MoveDirection::Left).1;
    assert(t1l.expanded == a);
}

/// Pressing Enter twice on a directory, the rows being rebuilt from the same
/// listings after each key and no path being shown twice, gives back the
/// same rows and selection, and the same open directories (in the same order
/// when the directory was closed); the window ends scrolled to the selection
/// as any rebuild leaves it (unmoved when it already showed it). The
/// selection stays on the directory in between.
pub proof fn law_enter_twice_restores_rows(t: FileTreeView, ls: Seq<ListingView>)
    requires
        t.wf(),
        t.visible == tree_rows(ls, t.expanded, t.root),
        t.visible.len() > 0,
        t.visible[t.selected].is_dir,
        row_paths(t.visible).no_duplicates(),
    ensures
        ({
            let t1 = t.entered().1.rebuilt(ls);
            let t2 = t1.entered().1.rebuilt(ls);
            &&& t1.selected == t.selected
            &&& t1.visible[t1.selected] == t.visible[t.selected]
            &&& same_members(t2.expanded, t.expanded)
            &&& !t.expanded.contains(t.visible[t.selected].path) ==> t2.expanded == t.expanded
            &&& t2.visible == t.visible
            &&& t2.selected == t.selected
            &&& t2.scroll == scroll_for(t.selected, t.scroll, t.size.height as int)
            &&& scroll_for(t.selected, t.scroll, t.size.height as int) == t.scroll ==> t2.scroll
                == t.scroll
        }),
{
    let d = t.visible[t.selected].path;
    let i = t.selected;
    lemma_distinct_first_row(t.visible, i);
    lemma_scroll_for_settles(i, t.scroll, t.size.height as int);
    let a = t.expanded;
    let es = children_of(ls, t.root);
    let r = t.visible;
    if !a.contains(d) {
        law_right_then_left_restores_rows(t, ls);
        assert(t.entered().1 == t.moved(MoveDirection::Right).1);
        let t1 = t.entered().1.rebuilt(ls);
        assert(t1.entered().1 == t1.moved(MoveDirection::Left).1);
    } else {
        let a0 = a.remove_value(d);
        lemma_remove_member(a, d);
        lemma_open_one(ls, a0, a, d, es, 0);
        let r0 = tree_rows(ls, a0, t.root);
        let p0 = row_paths(r0);
        p0.index_of_first_ensures(d);
        if !p0.contains(d) {
            assert forall|k: int| 0 <= k < r0.len() implies r0[k].path != d by {
                assert(p0[k] == r0[k].path);
            }
            assert(r == r0);
            assert(p0[i] == d);
            assert(false);
        }
        let j = p0.index_of_first(d)->0;
        assert(first_row_of(r0, d, j)) by {
            assert(p0[j] == r0[j].path);
            assert forall|m: int| 0 <= m < j implies r0[m].path != d by {
                assert(p0[m] == r0[m].path);
            }
        }
        assert(r.take(j + 1) == r0.take(j + 1));
        assert(j == i) by {
            assert(r[j] == r.take(j + 1)[j]);
            assert(r0[j] == r0.take(j + 1)[j]);
            if j < i {
                assert(r[j].path != d);
            }
            if i < j {
                assert(r[i] == r.take(j + 1)[i]);
                assert(r0[i] == r0.take(j + 1)[i]);
            }
        }
        lemma_first_index(r, d, i);
        let t1 = t.entered().1.rebuilt(ls);
        assert(t1.visible == r0);
        assert(t1.selected == i);
        assert(t1.visible[i] == r[i]) by {
            assert(r[i] == r.take(i + 1)[i]);
            assert(r0[i] == r0.take(i + 1)[i]);
        }
        assert(!a0.contains(d));
        let b = a0.push(d);
        lemma_push_first_index(a0, d);
        assert(b.no_duplicates()) by {
            assert forall|m: int, n: int| 0 <= m < b.len() && 0 <= n < b.len() && m != n implies b[m]
                != b[n] by {
                if m == a0.len() {
                    assert(b[n] == a0[n]);
                    assert(a0.contains(a0[n]));
                } else if n == a0.len() {
                    assert(b[m] == a0[m]);
                    assert(a0.contains(a0[m]));
                } else {
                    assert(b[m] == a0[m]);
                    assert(b[n] == a0[n]);
                }
            }
        }
        assert(same_members(b, a)) by {
            assert forall|x: Seq<char>| b.contains(x) <==> a.contains(x) by {
                if b.contains(x) {
                    let k = choose|k: int| 0 <= k < b.len() && b[k] == x;
                    if k < a0.len() {
                        assert(a0[k] == x);
                    }
                }
                if a0.contains(x) {
                    let k = choose|k: int| 0 <= k < a0.len() && a0[k] == x;
                    assert(b[k] == x);
                }
                assert(b[a0.len() as int] == d);
            }
        }
        lemma_flatten_members(ls, b, a, es, 0);
        assert(t1.entered().1.expanded == b);
    }
}

} // verus!

verus! {

proof fn lemma_flatten_prefix(
    ls: Seq<ListingView>,
    a: Seq<Seq<char>>,
    es: Seq<EntryView>,
    depth: usize,
    n: int,
)
    requires
        0 <= n <= es.len(),
    ensures
        flatten_entries(ls, a, es.take(n), depth).len() <= flatten_entries(ls, a, es, depth).len(),
        forall|i: int|
            0 <= i < flatten_entries(ls, a, es.take(n), depth).len() ==> #[trigger] flatten_entries(
                ls,
                a,
                es,
                depth,
            )[i] == flatten_entries(ls, a, es.take(n), depth)[i],
    decreases es.len(),
{
    if n == es.len() {
        assert(es.take(n) =~= es);
    } else {
        assert(es.drop_last().take(n) =~= es.take(n));
        lemma_flatten_prefix(ls, a, es.drop_last(), depth, n);
        let h = flatten_entries(ls, a, es.drop_last(), depth);
        let r = flatten_entries(ls, a, es, depth);
        assert forall|i: int| 0 <= i < h.len() implies #[trigger] r[i] == h[i] by {}
    }
}

proof fn lemma_flatten_entry_row(
    ls: Seq<ListingView>,
    a: Seq<Seq<char>>,
    es: Seq<EntryView>,
    depth: usize,
    k: int,
)
    requires
        0 <= k < es.len(),
    ensures
        flatten_entries(ls, a, es.take(k), depth).len() < flatten_entries(ls, a, es, depth).len(),
        flatten_entries(ls, a, es, depth)[flatten_entries(ls, a, es.take(k), depth).len() as int]
            == shown(es[k], depth),
{
    let p = es.take(k + 1);
    assert(p.drop_last() =~= es.take(k));
    assert(p.last() == es[k]);
    let j = flatten_entries(ls, a, es.take(k), depth).len() as int;
    assert(flatten_entries(ls, a, p, depth)[j] == shown(es[k], depth));
    lemma_flatten_prefix(ls, a, es, depth, k + 1);
}

/// The rows of an open directory's listing come right after the
/// directory's row, one level deeper: in the rows shown for entries `es` at
/// depth `depth`, the row of the open directory `es[k]` is at `depth`, and
/// the row of each of its children, in listing order, is at `depth + 1`.
pub proof fn law_children_one_level_deeper(
    ls: Seq<ListingView>,
    avail: Seq<Seq<char>>,
    es: Seq<EntryView>,
    depth: usize,
    k: int,
    m: int,
)
    requires
        0 <= k < es.len(),
        es[k].is_dir,
        avail.contains(es[k].path),
        0 <= m < children_of(ls, es[k].path).len(),
        depth < usize::MAX,
    ensures
        ({
            let r = flatten_entries(ls, avail, es, depth);
            let j = flatten_entries(ls, avail, es.take(k), depth).len() as int;
            let ch = children_of(ls, es[k].path);
            let below = avail.remove_value(es[k].path);
            let c = j + 1 + flatten_entries(ls, below, ch.take(m), (depth + 1) as usize).len();
            &&& c < r.len()
            &&& r[j].path == es[k].path
            &&& r[j].depth == depth
            &&& r[c].path == ch[m].path
            &&& r[c].name == ch[m].name
            &&& r[c].depth == depth + 1
            &&& m == 0 ==> c == j + 1
        }),
{
    let r = flatten_entries(ls, avail, es, depth);
    let j = flatten_entries(ls, avail, es.take(k), depth).len() as int;
    let ch = children_of(ls, es[k].path);
    let below = avail.remove_value(es[k].path);
    let d1 = (depth + 1) as usize;
    lemma_flatten_entry_row(ls, avail, es, depth, k);
    let p = es.take(k + 1);
    assert(p.drop_last() =~= es.take(k));
    assert(p.last() == es[k]);
    let rp = flatten_entries(ls, avail, p, depth);
    let s = flatten_entries(ls, below, ch, d1);
    assert(child_depth(depth) == d1);
    assert(rp == flatten_entries(ls, avail, es.take(k), depth).push(shown(es[k], depth)) + s);
    lemma_flatten_entry_row(ls, below, ch, d1, m);
    let q = flatten_entries(ls, below, ch.take(m), d1).len() as int;
    assert(rp[j + 1 + q] == s[q]);
    lemma_flatten_prefix(ls, avail, es, depth, k + 1);
    assert(r[j + 1 + q] == rp[j + 1 + q]);
    if m == 0 {
        assert(ch.take(0) =~= Seq::<EntryView>::empty());
    }
}

} // verus!
