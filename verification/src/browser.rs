//! The file browser: the listing of one directory with a selected entry and
//! a scroll window over it.

use crate::text::push_char;
use vstd::prelude::*;
use vstd::std_specs::iter::IteratorSpec;
use vstd::string::StrSliceExecFns;
use vstd::string::StringExecFns;

verus! {

/// What an entry was found to be when the directory was listed.
#[derive(Clone, Copy, Debug, PartialEq, Eq, Structural)]
pub enum EntryKind {
    Directory,
    File,
    Other,
}

/// One entry of a directory listing.
pub struct BrowserEntry {
    /// The entry's path as listed; `..` stands for the parent directory.
    pub path: String,
    /// The final component of the path, where it has one.
    pub file_name: Option<String>,
    /// Whether the path is absolute.
    pub absolute: bool,
    pub kind: EntryKind,
}

/// What selecting an entry led to.
pub enum Entered {
    /// Nothing to do: no entry, no parent, or neither a directory nor a file.
    Nothing,
    /// The browser moved into this directory and waits for its listing.
    Directory(String),
    /// This file was chosen.
    File(String),
}

pub struct FileBrowser {
    pub current_dir: String,
    /// The parent of `current_dir`, where it has one.
    pub parent_dir: Option<String>,
    pub entries: Vec<BrowserEntry>,
    pub selected_index: usize,
    pub scroll_offset: usize,
}

/// An entry as contracts see it.
pub struct EntryView {
    pub path: Seq<char>,
    pub file_name: Option<Seq<char>>,
    pub absolute: bool,
    pub kind: EntryKind,
}

/// The outcome of selecting an entry as contracts see it.
pub enum EnteredView {
    Nothing,
    Directory(Seq<char>),
    File(Seq<char>),
}

/// A browser as contracts see it.
pub struct BrowserView {
    pub current_dir: Seq<char>,
    pub parent_dir: Option<Seq<char>>,
    pub entries: Seq<EntryView>,
    pub selected_index: int,
    pub scroll_offset: int,
}

/// The text of an optional string.
pub open spec fn text_of(s: Option<String>) -> Option<Seq<char>> {
    match s {
        Some(s) => Some(s@),
        None => None,
    }
}

/// The entries of a listing, each by its view.
pub open spec fn entries_view(v: Seq<BrowserEntry>) -> Seq<EntryView> {
    Seq::new(v.len(), |i: int| v[i]@)
}

impl View for BrowserEntry {
    type V = EntryView;

    open spec fn view(&self) -> EntryView {
        EntryView {
            path: self.path@,
            file_name: text_of(self.file_name),
            absolute: self.absolute,
            kind: self.kind,
        }
    }
}

impl View for Entered {
    type V = EnteredView;

    open spec fn view(&self) -> EnteredView {
        match self {
            Entered::Nothing => EnteredView::Nothing,
            Entered::Directory(dir) => EnteredView::Directory(dir@),
            Entered::File(file) => EnteredView::File(file@),
        }
    }
}

impl View for FileBrowser {
    type V = BrowserView;

    open spec fn view(&self) -> BrowserView {
        BrowserView {
            current_dir: self.current_dir@,
            parent_dir: text_of(self.parent_dir),
            entries: entries_view(self.entries@),
            selected_index: self.selected_index as int,
            scroll_offset: self.scroll_offset as int,
        }
    }
}

/// The text `..`, which marks the parent directory.
pub open spec fn parent_marker() -> Seq<char> {
    seq!['.', '.']
}

/// The entry that stands for the parent directory.
pub open spec fn parent_entry() -> EntryView {
    EntryView {
        path: parent_marker(),
        file_name: None,
        absolute: false,
        kind: EntryKind::Directory,
    }
}

/// `rel` below `base`: the two joined by one `/`, which is left out where
/// `base` is empty or ends in one already.
pub open spec fn join_text(base: Seq<char>, rel: Seq<char>) -> Seq<char> {
    if base.len() > 0 && base.last() != '/' {
        base.push('/').add(rel)
    } else {
        base.add(rel)
    }
}

/// The path that an entry stands for when seen from `current_dir`.
pub open spec fn full_path(current_dir: Seq<char>, entry: EntryView) -> Seq<char> {
    if entry.absolute {
        entry.path
    } else {
        join_text(current_dir, entry.path)
    }
}

/// The name under which an entry is shown: `..` for the parent marker, else
/// its final component (`?` where it has none), with a `/` after it for a
/// directory given by an absolute path.
pub open spec fn display_name(entry: EntryView) -> Seq<char> {
    if entry.path == parent_marker() {
        parent_marker()
    } else {
        let name = match entry.file_name {
            Some(name) => name,
            None => seq!['?'],
        };
        if entry.absolute && entry.kind == EntryKind::Directory {
            name.push('/')
        } else {
            name
        }
    }
}

/// Whether the text `a` comes before the text `b`: at the first place where
/// they differ `a` has the smaller character, or `a` ends there and `b` goes
/// on.
pub open spec fn text_before(a: Seq<char>, b: Seq<char>) -> bool
    decreases a.len(),
{
    if b.len() == 0 {
        false
    } else if a.len() == 0 {
        true
    } else if a[0] != b[0] {
        a[0] < b[0]
    } else {
        text_before(a.drop_first(), b.drop_first())
    }
}

/// Whether the name `a` comes before the name `b`. No name comes before any
/// name.
pub open spec fn name_before(a: Option<Seq<char>>, b: Option<Seq<char>>) -> bool {
    match (a, b) {
        (None, Some(_)) => true,
        (Some(a), Some(b)) => text_before(a, b),
        _ => false,
    }
}

/// Whether `a` is listed before `b`: a directory before anything else, and
/// among directories, and among the rest, by the final component.
pub open spec fn entry_before(a: EntryView, b: EntryView) -> bool {
    if (a.kind == EntryKind::Directory) != (b.kind == EntryKind::Directory) {
        a.kind == EntryKind::Directory
    } else {
        name_before(a.file_name, b.file_name)
    }
}

/// Whether no entry is listed after one that it comes before.
pub open spec fn ordered(entries: Seq<EntryView>) -> bool {
    forall|i: int, j: int|
        0 <= i < j < entries.len() ==> !entry_before(#[trigger] entries[j], #[trigger] entries[i])
}

/// `entry` put into `listing` behind the last entry that it does not come
/// before.
pub open spec fn place(listing: Seq<EntryView>, entry: EntryView) -> Seq<EntryView>
    decreases listing.len(),
{
    if listing.len() > 0 && entry_before(entry, listing.last()) {
        place(listing.drop_last(), entry).push(listing.last())
    } else {
        listing.push(entry)
    }
}

/// The entries of `listing` in the order in which they are shown:
/// directories first, then the rest, each group by name. Entries that the
/// order does not tell apart keep the order in which they were listed.
pub open spec fn arranged(listing: Seq<EntryView>) -> Seq<EntryView>
    decreases listing.len(),
{
    if listing.len() == 0 {
        Seq::empty()
    } else {
        place(arranged(listing.drop_last()), listing.last())
    }
}

/// No text comes before itself, and of two texts at most one comes before
/// the other.
pub proof fn lemma_text_before_asymmetric(a: Seq<char>, b: Seq<char>)
    ensures
        !(text_before(a, b) && text_before(b, a)),
    decreases a.len(),
{
    if a.len() > 0 && b.len() > 0 && a[0] == b[0] {
        lemma_text_before_asymmetric(a.drop_first(), b.drop_first());
    }
}

/// Of two different texts one comes before the other.
pub proof fn lemma_text_before_total(a: Seq<char>, b: Seq<char>)
    ensures
        text_before(a, b) || text_before(b, a) || a == b,
    decreases a.len(),
{
    if a.len() > 0 && b.len() > 0 {
        if a[0] == b[0] {
            lemma_text_before_total(a.drop_first(), b.drop_first());
            if a.drop_first() == b.drop_first() {
                assert(a =~= seq![a[0]].add(a.drop_first()));
                assert(b =~= seq![b[0]].add(b.drop_first()));
            }
        }
    } else if a.len() == 0 && b.len() == 0 {
        assert(a =~= b);
    }
}

/// What comes before a text comes before all that the text comes before.
pub proof fn lemma_text_before_transitive(a: Seq<char>, b: Seq<char>, c: Seq<char>)
    requires
        text_before(a, b),
        text_before(b, c),
    ensures
        text_before(a, c),
    decreases a.len(),
{
    if a.len() > 0 && b.len() > 0 && c.len() > 0 {
        if a[0] == b[0] && b[0] == c[0] {
            lemma_text_before_transitive(a.drop_first(), b.drop_first(), c.drop_first());
        }
    }
}

/// Where `a` does not come before `b`, nor `b` before `c`, `a` does not come
/// before `c`.
pub proof fn lemma_name_order(
    a: Option<Seq<char>>,
    b: Option<Seq<char>>,
    c: Option<Seq<char>>,
)
    requires
        !name_before(a, b),
        !name_before(b, c),
    ensures
        !name_before(a, c),
{
    match (a, b, c) {
        (Some(x), Some(y), Some(z)) => {
            lemma_text_before_total(x, y);
            lemma_text_before_total(y, z);
            if text_before(x, z) {
                if x == y {
                } else if y == z {
                } else {
                    lemma_text_before_transitive(z, y, x);
                    lemma_text_before_asymmetric(x, z);
                }
            }
        },
        _ => {},
    }
}

/// Of two entries at most one comes before the other; and where `a` does
/// not come before `b`, nor `b` before `c`, `a` does not come before `c`.
pub proof fn lemma_entry_order(a: EntryView, b: EntryView, c: EntryView)
    ensures
        !(entry_before(a, b) && entry_before(b, a)),
        !entry_before(a, b) && !entry_before(b, c) ==> !entry_before(a, c),
{
    match (a.file_name, b.file_name) {
        (Some(x), Some(y)) => {
            lemma_text_before_asymmetric(x, y);
        },
        _ => {},
    }
    if !entry_before(a, b) && !entry_before(b, c) {
        let a_dir = a.kind == EntryKind::Directory;
        let b_dir = b.kind == EntryKind::Directory;
        let c_dir = c.kind == EntryKind::Directory;
        if a_dir == b_dir && b_dir == c_dir {
            lemma_name_order(a.file_name, b.file_name, c.file_name);
        }
    }
}

/// Placing an entry keeps a listing in order, adds the entry and loses none.
pub proof fn lemma_place(listing: Seq<EntryView>, entry: EntryView)
    requires
        ordered(listing),
    ensures
        ordered(place(listing, entry)),
        place(listing, entry).to_multiset() == listing.to_multiset().insert(entry),
        place(listing, entry).len() == listing.len() + 1,
    decreases listing.len(),
{
    broadcast use vstd::seq_lib::to_multiset_build;

    let placed = place(listing, entry);
    if listing.len() > 0 && entry_before(entry, listing.last()) {
        let front = listing.drop_last();
        let last = listing.last();
        assert(ordered(front)) by {
            assert forall|i: int, j: int| 0 <= i < j < front.len() implies !entry_before(
                #[trigger] front[j],
                #[trigger] front[i],
            ) by {
                assert(front[i] == listing[i] && front[j] == listing[j]);
            }
        }
        lemma_place(front, entry);
        let inner = place(front, entry);
        assert(listing == front.push(last));
        assert(placed.to_multiset() == listing.to_multiset().insert(entry)) by {
            assert(inner.push(last).to_multiset() =~= front.to_multiset().insert(entry).insert(
                last,
            ));
            assert(front.push(last).to_multiset().insert(entry) =~= front.to_multiset().insert(
                last,
            ).insert(entry));
        }
        assert forall|i: int, j: int| 0 <= i < j < placed.len() implies !entry_before(
            #[trigger] placed[j],
            #[trigger] placed[i],
        ) by {
            if j < inner.len() {
                assert(placed[i] == inner[i] && placed[j] == inner[j]);
            } else {
                assert(placed[j] == last);
                assert(placed[i] == inner[i]);
                assert(inner.to_multiset().count(inner[i]) > 0) by {
                    inner.to_multiset_ensures();
                    assert(inner.contains(inner[i]));
                }
                if inner[i] == entry {
                    lemma_entry_order(entry, last, entry);
                } else {
                    assert(front.to_multiset().count(inner[i]) > 0);
                    front.to_multiset_ensures();
                    assert(front.contains(inner[i]));
                    let k = choose|k: int| 0 <= k < front.len() && front[k] == inner[i];
                    assert(listing[k] == front[k]);
                    assert(!entry_before(listing[listing.len() - 1], listing[k]));
                }
            }
        }
    } else {
        assert forall|i: int, j: int| 0 <= i < j < placed.len() implies !entry_before(
            #[trigger] placed[j],
            #[trigger] placed[i],
        ) by {
            if j < listing.len() {
                assert(placed[i] == listing[i] && placed[j] == listing[j]);
            } else {
                assert(placed[j] == entry);
                assert(placed[i] == listing[i]);
                let last = listing.last();
                if i < listing.len() - 1 {
                    assert(!entry_before(listing[listing.len() - 1], listing[i]));
                }
                lemma_entry_order(entry, last, listing[i]);
            }
        }
    }
}

/// The arranged listing is in order and holds the entries of the listing,
/// each as often as the listing does.
pub proof fn lemma_arranged(listing: Seq<EntryView>)
    ensures
        ordered(arranged(listing)),
        arranged(listing).to_multiset() == listing.to_multiset(),
        arranged(listing).len() == listing.len(),
    decreases listing.len(),
{
    broadcast use vstd::seq_lib::to_multiset_build;

    if listing.len() > 0 {
        let front = listing.drop_last();
        lemma_arranged(front);
        lemma_place(arranged(front), listing.last());
        assert(listing == front.push(listing.last()));
        assert(front.push(listing.last()).to_multiset() == front.to_multiset().insert(
            listing.last(),
        ));
    } else {
        assert(listing == Seq::<EntryView>::empty());
    }
}

impl BrowserView {
    /// The selection one entry up, unless it is at the first entry; the
    /// window follows where the selection leaves it at the top.
    pub open spec fn move_up(self) -> BrowserView {
        if self.selected_index > 0 {
            BrowserView {
                selected_index: self.selected_index - 1,
                scroll_offset: if self.selected_index - 1 < self.scroll_offset {
                    self.selected_index - 1
                } else {
                    self.scroll_offset
                },
                ..self
            }
        } else {
            self
        }
    }

    /// The selection one entry down, where an entry follows.
    pub open spec fn move_down(self) -> BrowserView {
        if self.selected_index + 1 < self.entries.len() {
            BrowserView { selected_index: self.selected_index + 1, ..self }
        } else {
            self
        }
    }

    /// The window moved so that it holds the selection: down where the
    /// selection lies below it, up where it lies above.
    pub open spec fn update_scroll(self, viewport_height: int) -> BrowserView {
        if self.selected_index >= self.scroll_offset + viewport_height {
            BrowserView { scroll_offset: self.selected_index - viewport_height + 1, ..self }
        } else if self.selected_index < self.scroll_offset {
            BrowserView { scroll_offset: self.selected_index, ..self }
        } else {
            self
        }
    }

    /// The browser with the listing of its directory taken in: the parent
    /// marker first where `parent_dir` names a parent, then the listing,
    /// arranged; selection and window at the top.
    pub open spec fn load_entries(
        self,
        parent_dir: Option<Seq<char>>,
        listing: Seq<EntryView>,
    ) -> BrowserView {
        BrowserView {
            current_dir: self.current_dir,
            parent_dir,
            entries: if parent_dir is Some {
                seq![parent_entry()].add(arranged(listing))
            } else {
                arranged(listing)
            },
            selected_index: 0,
            scroll_offset: 0,
        }
    }

    /// The browser moved to `dir`, with nothing listed yet.
    pub open spec fn moved_to(dir: Seq<char>) -> BrowserView {
        BrowserView {
            current_dir: dir,
            parent_dir: None,
            entries: Seq::empty(),
            selected_index: 0,
            scroll_offset: 0,
        }
    }

    /// What selecting the entry under the selection leads to: the parent
    /// marker to the parent directory where there is one, a directory to that
    /// directory, a file to that file, all else to nothing.
    pub open spec fn entered(self) -> EnteredView {
        if 0 <= self.selected_index < self.entries.len() {
            let entry = self.entries[self.selected_index];
            if entry.path == parent_marker() {
                match self.parent_dir {
                    Some(parent) => EnteredView::Directory(parent),
                    None => EnteredView::Nothing,
                }
            } else if entry.kind == EntryKind::Directory {
                EnteredView::Directory(full_path(self.current_dir, entry))
            } else if entry.kind == EntryKind::File {
                EnteredView::File(full_path(self.current_dir, entry))
            } else {
                EnteredView::Nothing
            }
        } else {
            EnteredView::Nothing
        }
    }

    /// The browser after the entry under the selection was selected: moved
    /// to the directory that was entered, else unchanged.
    pub open spec fn enter_selected(self) -> BrowserView {
        match self.entered() {
            EnteredView::Directory(dir) => BrowserView::moved_to(dir),
            _ => self,
        }
    }
}

/// Whether `path` is the marker of the parent directory.
pub fn is_parent_marker(path: &str) -> (yes: bool)
    ensures
        yes == (path@ == parent_marker()),
{
    let yes = path.unicode_len() == 2 && path.get_char(0) == '.' && path.get_char(1) == '.';
    proof {
        if yes {
            assert(path@ =~= parent_marker());
        }
    }
    yes
}

/// Joins a relative path to a base directory.
pub fn join_path(base: &str, rel: &str) -> (out: String)
    ensures
        out@ == join_text(base@, rel@),
{
    let mut out = String::from_str(base);
    let n = base.unicode_len();
    if n > 0 && base.get_char(n - 1) != '/' {
        push_char(&mut out, '/');
    }
    out.append(rel);
    out
}

/// The items of a list of `len` items that a window of `height` lines shows
/// when it starts at `offset`: from the first index given up to, but without,
/// the second.
pub open spec fn window_of(offset: int, len: int, height: int) -> (int, int) {
    let start = if offset < len {
        offset
    } else {
        len
    };
    let end = if start + height < len {
        start + height
    } else {
        len
    };
    (start, end)
}

/// The items that a window shows, as a range of indices.
pub fn window(offset: usize, len: usize, height: usize) -> (shown: (usize, usize))
    ensures
        (shown.0 as int, shown.1 as int) == window_of(offset as int, len as int, height as int),
{
    let start = if offset < len {
        offset
    } else {
        len
    };
    let end = if height < len - start {
        start + height
    } else {
        len
    };
    (start, end)
}

/// Whether the character `a` comes before the character `b`.
fn char_less(a: char, b: char) -> (less: bool)
    ensures
        less == (a < b),
{
    a < b
}

/// Whether the text `a` comes before the text `b`.
pub fn text_less(a: &str, b: &str) -> (less: bool)
    ensures
        less == text_before(a@, b@),
{
    let mut left = a.chars();
    let mut right = b.chars();
    loop
        invariant
            text_before(a@, b@) == text_before(left.remaining(), right.remaining()),
            left.decrease() is Some,
        decreases left.decrease()->0,
    {
        let x = left.next();
        let y = right.next();
        match (x, y) {
            (None, None) => {
                return false;
            },
            (None, Some(_)) => {
                return true;
            },
            (Some(_), None) => {
                return false;
            },
            (Some(x), Some(y)) => {
                if x != y {
                    return char_less(x, y);
                }
            },
        }
    }
}

/// Whether `a` is listed before `b`.
pub fn comes_before(a: &BrowserEntry, b: &BrowserEntry) -> (before: bool)
    ensures
        before == entry_before(a@, b@),
{
    let a_dir = a.kind == EntryKind::Directory;
    let b_dir = b.kind == EntryKind::Directory;
    if a_dir != b_dir {
        return a_dir;
    }
    match (&a.file_name, &b.file_name) {
        (None, Some(_)) => true,
        (Some(x), Some(y)) => text_less(x.as_str(), y.as_str()),
        _ => false,
    }
}

/// Arranges a listing for showing: directories first, then the rest, each
/// group by name.
pub fn arrange(listing: Vec<BrowserEntry>) -> (out: Vec<BrowserEntry>)
    ensures
        entries_view(out@) == arranged(entries_view(listing@)),
        ordered(entries_view(out@)),
        entries_view(out@).to_multiset() == entries_view(listing@).to_multiset(),
{
    let ghost given = entries_view(listing@);
    let mut out: Vec<BrowserEntry> = Vec::new();
    proof {
        assert(given.take(0) =~= Seq::empty());
        assert(entries_view(out@) =~= Seq::empty());
    }
    for entry in it: listing
        invariant
            given == entries_view(it.seq()),
            entries_view(out@) == arranged(given.take(it.index() as int)),
    {
        let ghost before = entries_view(out@);
        let mut at: usize = out.len();
        proof {
            assert(before.take(at as int) == before);
            assert(place(before, entry@).add(before.skip(at as int)) == place(before, entry@));
        }
        while at > 0 && comes_before(&entry, &out[at - 1])
            invariant
                at <= out.len(),
                before == entries_view(out@),
                place(before, entry@) == place(before.take(at as int), entry@).add(
                    before.skip(at as int),
                ),
            decreases at,
        {
            proof {
                let head = before.take(at as int);
                assert(head.last() == before[at - 1]);
                assert(head.drop_last() == before.take(at - 1));
                assert(place(head.drop_last(), entry@).push(head.last()).add(
                    before.skip(at as int),
                ) == place(before.take(at - 1), entry@).add(before.skip(at - 1)));
            }
            at -= 1;
        }
        proof {
            let head = before.take(at as int);
            if at > 0 {
                assert(head.last() == before[at - 1]);
            }
            assert(place(head, entry@) == head.push(entry@));
            let upto = given.take(it.index() + 1);
            assert(upto.drop_last() == given.take(it.index() as int));
            assert(upto.last() == entry@);
        }
        out.insert(at, entry);
        assert(entries_view(out@) == before.take(at as int).push(entry@).add(
            before.skip(at as int),
        ));
    }
    proof {
        assert(given.take(given.len() as int) == given);
        lemma_arranged(given);
    }
    out
}

impl FileBrowser {
    /// A browser at `current_dir` with nothing listed yet.
    pub fn new(current_dir: String) -> (browser: FileBrowser)
        ensures
            browser@ == BrowserView::moved_to(current_dir@),
    {
        let browser = FileBrowser {
            current_dir,
            parent_dir: None,
            entries: Vec::new(),
            selected_index: 0,
            scroll_offset: 0,
        };
        assert(browser@.entries =~= Seq::empty());
        browser
    }

    /// Takes the listing of the current directory: the parent marker first
    /// where `parent_dir` names a parent, then the listed entries, the
    /// directories before the rest and each group by name. The selection and
    /// the window go back to the top.
    pub fn load_entries(&mut self, parent_dir: Option<String>, listing: Vec<BrowserEntry>)
        ensures
            final(self)@ == old(self)@.load_entries(text_of(parent_dir), entries_view(listing@)),
    {
        let ghost given = entries_view(listing@);
        let mut listing = arrange(listing);
        let mut entries: Vec<BrowserEntry> = Vec::new();
        if parent_dir.is_some() {
            proof {
                reveal_strlit("..");
                assert(".."@ =~= parent_marker());
            }
            entries.push(
                BrowserEntry {
                    path: String::from_str(".."),
                    file_name: None,
                    absolute: false,
                    kind: EntryKind::Directory,
                },
            );
        }
        entries.append(&mut listing);
        assert(entries_view(entries@) == old(self)@.load_entries(
            text_of(parent_dir),
            given,
        ).entries);
        self.entries = entries;
        self.parent_dir = parent_dir;
        self.selected_index = 0;
        self.scroll_offset = 0;
    }

    /// Moves the selection one entry up, if it is not at the first one, and
    /// scrolls up with it where it leaves the window at the top.
    pub fn move_up(&mut self)
        ensures
            final(self)@ == old(self)@.move_up(),
    {
        if self.selected_index > 0 {
            self.selected_index -= 1;
            if self.selected_index < self.scroll_offset {
                self.scroll_offset = self.selected_index;
            }
        }
    }

    /// Moves the selection one entry down, if an entry follows.
    pub fn move_down(&mut self)
        ensures
            final(self)@ == old(self)@.move_down(),
    {
        let n = self.entries.len();
        if n > 0 && self.selected_index < n - 1 {
            self.selected_index += 1;
        }
    }

    /// Moves the window so that it holds the selection: down where the
    /// selection lies below it, up where it lies above.
    pub fn update_scroll(&mut self, viewport_height: usize)
        requires
            viewport_height > 0 || old(self).selected_index < usize::MAX,
        ensures
            final(self)@ == old(self)@.update_scroll(viewport_height as int),
    {
        let below = match self.scroll_offset.checked_add(viewport_height) {
            Some(end) => self.selected_index >= end,
            None => false,
        };
        if below {
            self.scroll_offset = self.selected_index - viewport_height + 1;
        } else if self.selected_index < self.scroll_offset {
            self.scroll_offset = self.selected_index;
        }
    }

    /// Acts on the selected entry. The parent marker leads to the parent
    /// directory where there is one, a directory is moved into, a file is
    /// chosen. After a move the browser stands in the new directory with
    /// nothing listed, and its caller lists that directory. Without an entry
    /// under the selection, and for an entry that is neither a directory nor
    /// a file, nothing changes.
    pub fn enter_selected(&mut self) -> (entered: Entered)
        ensures
            entered@ == old(self)@.entered(),
            final(self)@ == old(self)@.enter_selected(),
    {
        if self.selected_index >= self.entries.len() {
            return Entered::Nothing;
        }
        let entry = &self.entries[self.selected_index];
        assert(old(self)@.entries[self.selected_index as int] == entry@);
        if is_parent_marker(entry.path.as_str()) {
            let parent = match &self.parent_dir {
                Some(parent) => parent.clone(),
                None => {
                    return Entered::Nothing;
                },
            };
            self.move_to(parent.clone());
            return Entered::Directory(parent);
        }
        let target = if entry.absolute {
            entry.path.clone()
        } else {
            join_path(self.current_dir.as_str(), entry.path.as_str())
        };
        match entry.kind {
            EntryKind::Directory => {
                self.move_to(target.clone());
                Entered::Directory(target)
            },
            EntryKind::File => Entered::File(target),
            EntryKind::Other => Entered::Nothing,
        }
    }

    /// Makes `dir` the current directory and drops the old listing.
    fn move_to(&mut self, dir: String)
        ensures
            final(self)@ == BrowserView::moved_to(dir@),
    {
        self.current_dir = dir;
        self.parent_dir = None;
        self.entries = Vec::new();
        self.selected_index = 0;
        self.scroll_offset = 0;
        assert(self@.entries =~= Seq::empty());
    }

    /// The entries that a window of `height` lines shows.
    pub fn visible_entries(&self, height: usize) -> (shown: (usize, usize))
        ensures
            (shown.0 as int, shown.1 as int) == window_of(
                self@.scroll_offset,
                self@.entries.len() as int,
                height as int,
            ),
    {
        window(self.scroll_offset, self.entries.len(), height)
    }

    /// The name under which `entry` is shown.
    pub fn get_display_name(&self, entry: &BrowserEntry) -> (name: String)
        ensures
            name@ == display_name(entry@),
    {
        if is_parent_marker(entry.path.as_str()) {
            proof {
                reveal_strlit("..");
                assert(".."@ =~= parent_marker());
            }
            return String::from_str("..");
        }
        let mut name = match &entry.file_name {
            Some(name) => name.clone(),
            None => {
                proof {
                    reveal_strlit("?");
                    assert("?"@ =~= seq!['?']);
                }
                String::from_str("?")
            },
        };
        if entry.absolute && entry.kind == EntryKind::Directory {
            push_char(&mut name, '/');
        }
        name
    }
}

} // verus!
