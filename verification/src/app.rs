//! The session: the diff model of two files, the mode the viewer is in, and
//! the cursor, scroll window and selection over the model.

use crate::browser::{
    text_of, window, window_of, BrowserView, Entered, EnteredView, FileBrowser,
};
use crate::diff::{
    diff_model, export_filename, export_name, generate_diff, generate_patch, model, patch_text,
    range_view, timestamp_failure, timestamp_failure_text, DiffLine, Tagged,
};
use crate::text::{decimal, push_decimal};
use vstd::prelude::*;
use vstd::string::StringExecFns;

verus! {

/// The mode that decides what a key does.
#[derive(Clone, Copy, Debug, PartialEq, Eq, Structural)]
pub enum AppMode {
    DiffView,
    SelectingSource,
    SelectingTarget,
    SelectionMode,
}

pub struct App {
    pub source_file: String,
    pub target_file: String,
    pub diff_lines: Vec<DiffLine>,
    /// Index of the first entry shown in the diff view.
    pub scroll_offset: usize,
    /// Index of the highlighted entry in selection mode.
    pub cursor_position: usize,
    pub status_message: Option<String>,
    pub mode: AppMode,
    pub file_browser: FileBrowser,
    pub selection_start: Option<usize>,
    pub selection_end: Option<usize>,
}

/// A session as contracts see it.
pub struct AppView {
    pub source_file: Seq<char>,
    pub target_file: Seq<char>,
    pub diff_lines: Seq<Tagged>,
    pub scroll_offset: int,
    pub cursor_position: int,
    pub status_message: Option<Seq<char>>,
    pub mode: AppMode,
    pub file_browser: BrowserView,
    pub selection_start: Option<int>,
    pub selection_end: Option<int>,
}

/// An optional index as an optional integer.
pub open spec fn index_of(i: Option<usize>) -> Option<int> {
    match i {
        Some(i) => Some(i as int),
        None => None,
    }
}

impl View for App {
    type V = AppView;

    open spec fn view(&self) -> AppView {
        AppView {
            source_file: self.source_file@,
            target_file: self.target_file@,
            diff_lines: model(self.diff_lines@),
            scroll_offset: self.scroll_offset as int,
            cursor_position: self.cursor_position as int,
            status_message: text_of(self.status_message),
            mode: self.mode,
            file_browser: self.file_browser@,
            selection_start: index_of(self.selection_start),
            selection_end: index_of(self.selection_end),
        }
    }
}

/// The smaller of two integers.
pub open spec fn lower(a: int, b: int) -> int {
    if a <= b {
        a
    } else {
        b
    }
}

/// The larger of two integers.
pub open spec fn upper(a: int, b: int) -> int {
    if a <= b {
        b
    } else {
        a
    }
}

/// The range between two anchors, both included, lower bound first; none
/// unless both anchors are set.
pub open spec fn range_of(start: Option<int>, end: Option<int>) -> Option<(int, int)> {
    match (start, end) {
        (Some(start), Some(end)) => Some((lower(start, end), upper(start, end))),
        _ => None,
    }
}

/// What is shown on entering selection mode.
pub open spec fn selection_mode_message() -> Seq<char> {
    "SELECTION MODE - Press Space to mark start/end, v to exit"@
}

/// What is shown on leaving selection mode.
pub open spec fn selection_exit_message() -> Seq<char> {
    "Selection mode exited"@
}

/// What is shown when the first anchor is placed at `line`.
pub open spec fn anchor_message(line: int) -> Seq<char> {
    "Selection start: line "@.add(decimal(line as nat))
}

/// What is shown when a selection from the anchor `start` to the cursor is
/// confirmed: its bounds and the number of entries in it.
pub open spec fn selection_message(start: int, cursor: int) -> Seq<char> {
    "Selection: lines "@.add(decimal(lower(start, cursor) as nat)).add("-"@).add(
        decimal(upper(start, cursor) as nat),
    ).add(" ("@).add(decimal((upper(start, cursor) - lower(start, cursor) + 1) as nat)).add(
        " lines selected)"@,
    )
}

impl AppView {
    /// The session that shows the diff of two files from its top.
    pub open spec fn opened(
        source_file: Seq<char>,
        target_file: Seq<char>,
        diff_lines: Seq<Tagged>,
        file_browser: BrowserView,
    ) -> AppView {
        AppView {
            source_file,
            target_file,
            diff_lines,
            scroll_offset: 0,
            cursor_position: 0,
            status_message: None,
            mode: AppMode::DiffView,
            file_browser,
            selection_start: None,
            selection_end: None,
        }
    }

    /// The session that has no files yet and asks for one.
    pub open spec fn empty(initial_mode: AppMode, file_browser: BrowserView) -> AppView {
        AppView {
            source_file: Seq::empty(),
            target_file: Seq::empty(),
            diff_lines: Seq::empty(),
            scroll_offset: 0,
            cursor_position: 0,
            status_message: Some("Please select a file"@),
            mode: initial_mode,
            file_browser,
            selection_start: None,
            selection_end: None,
        }
    }

    /// The session with a new diff model in place of the old one. Window,
    /// cursor and selection spoke of the old entries, so they start over.
    pub open spec fn regenerate_diff(self, diff_lines: Seq<Tagged>) -> AppView {
        AppView {
            diff_lines,
            scroll_offset: 0,
            cursor_position: 0,
            selection_start: None,
            selection_end: None,
            ..self
        }
    }

    /// The window one entry up, unless it is at the top.
    pub open spec fn scroll_up(self) -> AppView {
        if self.scroll_offset > 0 {
            AppView { scroll_offset: self.scroll_offset - 1, ..self }
        } else {
            self
        }
    }

    /// The window one entry down, unless its last line shows the last entry
    /// or lies beyond it.
    pub open spec fn scroll_down(self, max_visible_lines: int) -> AppView {
        if self.scroll_offset + max_visible_lines < self.diff_lines.len() {
            AppView { scroll_offset: self.scroll_offset + 1, ..self }
        } else {
            self
        }
    }

    /// Selection mode entered: the cursor on the first visible entry and no
    /// anchor set.
    pub open spec fn enter_selection_mode(self) -> AppView {
        AppView {
            mode: AppMode::SelectionMode,
            cursor_position: self.scroll_offset,
            selection_start: None,
            selection_end: None,
            status_message: Some(selection_mode_message()),
            ..self
        }
    }

    /// Selection mode left: back in the diff view with no anchor set.
    pub open spec fn exit_selection_mode(self) -> AppView {
        AppView {
            mode: AppMode::DiffView,
            selection_start: None,
            selection_end: None,
            status_message: Some(selection_exit_message()),
            ..self
        }
    }

    /// The anchor key pressed: without an anchor, both anchors are placed at
    /// the cursor; with one, the selection stays as it is and is reported.
    pub open spec fn toggle_selection_anchor(self) -> AppView {
        match self.selection_start {
            None => AppView {
                selection_start: Some(self.cursor_position),
                selection_end: Some(self.cursor_position),
                status_message: Some(anchor_message(self.cursor_position)),
                ..self
            },
            Some(start) => AppView {
                status_message: Some(selection_message(start, self.cursor_position)),
                ..self
            },
        }
    }

    /// The end of the selection drawn to the cursor, where an anchor is set.
    pub open spec fn update_selection_end(self) -> AppView {
        if self.selection_start is Some {
            AppView { selection_end: Some(self.cursor_position), ..self }
        } else {
            self
        }
    }

    /// The cursor one entry up, unless it is at the first entry; the window
    /// follows where the cursor leaves it at the top.
    pub open spec fn cursor_up(self) -> AppView {
        if self.cursor_position > 0 {
            AppView {
                cursor_position: self.cursor_position - 1,
                scroll_offset: if self.cursor_position - 1 < self.scroll_offset {
                    self.cursor_position - 1
                } else {
                    self.scroll_offset
                },
                ..self
            }
        } else {
            self
        }
    }

    /// The cursor one entry down, where an entry follows; the window follows
    /// where the cursor leaves it at the bottom.
    pub open spec fn cursor_down(self, max_visible_lines: int) -> AppView {
        if self.cursor_position + 1 < self.diff_lines.len() {
            AppView {
                cursor_position: self.cursor_position + 1,
                scroll_offset: if self.cursor_position + 1 >= self.scroll_offset
                    + max_visible_lines {
                    self.cursor_position + 1 - max_visible_lines + 1
                } else {
                    self.scroll_offset
                },
                ..self
            }
        } else {
            self
        }
    }

    /// The selected range: both anchors, lower first, or none.
    pub open spec fn selection_range(self) -> Option<(int, int)> {
        range_of(self.selection_start, self.selection_end)
    }

    /// Whether the selected range holds `index`.
    pub open spec fn selects(self, index: int) -> bool {
        match self.selection_range() {
            Some((low, high)) => low <= index <= high,
            None => false,
        }
    }
}

impl App {
    /// Opens a session on two files whose contents were read: the diff of
    /// the contents, shown from its top.
    pub fn new(
        source_file: String,
        target_file: String,
        source_content: &str,
        target_content: &str,
        file_browser: FileBrowser,
    ) -> (app: App)
        ensures
            app@ == AppView::opened(
                source_file@,
                target_file@,
                diff_model(source_content@, target_content@),
                file_browser@,
            ),
    {
        let diff_lines = generate_diff(source_content, target_content);
        App {
            source_file,
            target_file,
            diff_lines,
            scroll_offset: 0,
            cursor_position: 0,
            status_message: None,
            mode: AppMode::DiffView,
            file_browser,
            selection_start: None,
            selection_end: None,
        }
    }

    /// Opens a session without files, in the mode that asks for the first.
    pub fn new_empty(initial_mode: AppMode, file_browser: FileBrowser) -> (app: App)
        ensures
            app@ == AppView::empty(initial_mode, file_browser@),
    {
        let app = App {
            source_file: String::new(),
            target_file: String::new(),
            diff_lines: Vec::new(),
            scroll_offset: 0,
            cursor_position: 0,
            status_message: Some(String::from_str("Please select a file")),
            mode: initial_mode,
            file_browser,
            selection_start: None,
            selection_end: None,
        };
        assert(app@.diff_lines =~= Seq::empty());
        app
    }

    /// Replaces the diff model by that of the two contents given. Window,
    /// cursor and selection start over.
    pub fn regenerate_diff(&mut self, source_content: &str, target_content: &str)
        ensures
            final(self)@ == old(self)@.regenerate_diff(
                diff_model(source_content@, target_content@),
            ),
    {
        self.diff_lines = generate_diff(source_content, target_content);
        self.scroll_offset = 0;
        self.cursor_position = 0;
        self.selection_start = None;
        self.selection_end = None;
    }

    /// Scrolls the diff view one entry up, unless it is at the top.
    pub fn scroll_up(&mut self)
        ensures
            final(self)@ == old(self)@.scroll_up(),
    {
        if self.scroll_offset > 0 {
            self.scroll_offset -= 1;
        }
    }

    /// Scrolls the diff view one entry down while entries lie below the
    /// window of `max_visible_lines` lines.
    pub fn scroll_down(&mut self, max_visible_lines: usize)
        ensures
            final(self)@ == old(self)@.scroll_down(max_visible_lines as int),
    {
        let n = self.diff_lines.len();
        if max_visible_lines < n && self.scroll_offset < n - max_visible_lines {
            self.scroll_offset += 1;
        }
    }

    /// The patch of the selected range, or of the whole model where nothing
    /// is selected.
    pub fn generate_patch(&self) -> (patch: String)
        ensures
            patch@ == patch_text(
                self@.source_file,
                self@.target_file,
                self@.diff_lines,
                self@.selection_range(),
            ),
    {
        let line_range = self.get_selection_range();
        generate_patch(
            self.source_file.as_str(),
            self.target_file.as_str(),
            self.diff_lines.as_slice(),
            line_range,
        )
    }

    /// Enters selection mode with the cursor on the first visible entry.
    pub fn enter_selection_mode(&mut self)
        ensures
            final(self)@ == old(self)@.enter_selection_mode(),
    {
        self.mode = AppMode::SelectionMode;
        self.cursor_position = self.scroll_offset;
        self.selection_start = None;
        self.selection_end = None;
        self.status_message = Some(
            String::from_str("SELECTION MODE - Press Space to mark start/end, v to exit"),
        );
    }

    /// Leaves selection mode and drops the selection.
    pub fn exit_selection_mode(&mut self)
        ensures
            final(self)@ == old(self)@.exit_selection_mode(),
    {
        self.mode = AppMode::DiffView;
        self.selection_start = None;
        self.selection_end = None;
        self.status_message = Some(String::from_str("Selection mode exited"));
    }

    /// Places both anchors at the cursor where none is set. Where one is
    /// set, reports the selection between it and the cursor and changes
    /// nothing else: a second press does not take the anchor away.
    pub fn toggle_selection_anchor(&mut self)
        ensures
            final(self)@ == old(self)@.toggle_selection_anchor(),
    {
        match self.selection_start {
            None => {
                self.selection_start = Some(self.cursor_position);
                self.selection_end = Some(self.cursor_position);
                let mut message = String::from_str("Selection start: line ");
                push_decimal(&mut message, self.cursor_position as u128);
                self.status_message = Some(message);
            },
            Some(start) => {
                let (low, high): (usize, usize) = if start <= self.cursor_position {
                    (start, self.cursor_position)
                } else {
                    (self.cursor_position, start)
                };
                let count: u128 = (high - low) as u128 + 1;
                let mut message = String::from_str("Selection: lines ");
                push_decimal(&mut message, low as u128);
                message.append("-");
                push_decimal(&mut message, high as u128);
                message.append(" (");
                push_decimal(&mut message, count);
                message.append(" lines selected)");
                self.status_message = Some(message);
            },
        }
    }

    /// Draws the end of the selection to the cursor, where an anchor is set.
    pub fn update_selection_end(&mut self)
        ensures
            final(self)@ == old(self)@.update_selection_end(),
    {
        if self.selection_start.is_some() {
            self.selection_end = Some(self.cursor_position);
        }
    }

    /// Moves the cursor one entry up, unless it is at the first entry, and
    /// scrolls up with it where it leaves the window at the top.
    pub fn cursor_up(&mut self)
        ensures
            final(self)@ == old(self)@.cursor_up(),
    {
        if self.cursor_position > 0 {
            self.cursor_position -= 1;
            if self.cursor_position < self.scroll_offset {
                self.scroll_offset = self.cursor_position;
            }
        }
    }

    /// Moves the cursor one entry down, where an entry follows, and scrolls
    /// down with it where it leaves the window of `max_visible_lines` lines
    /// at the bottom.
    pub fn cursor_down(&mut self, max_visible_lines: usize)
        ensures
            final(self)@ == old(self)@.cursor_down(max_visible_lines as int),
    {
        let n = self.diff_lines.len();
        if n > 0 && self.cursor_position < n - 1 {
            self.cursor_position += 1;
            let below = match self.scroll_offset.checked_add(max_visible_lines) {
                Some(end) => self.cursor_position >= end,
                None => false,
            };
            if below {
                self.scroll_offset = self.cursor_position - max_visible_lines + 1;
            }
        }
    }

    /// The entries of the model that a window of `height` lines shows.
    pub fn visible_lines(&self, height: usize) -> (shown: (usize, usize))
        ensures
            (shown.0 as int, shown.1 as int) == window_of(
                self@.scroll_offset,
                self@.diff_lines.len() as int,
                height as int,
            ),
    {
        window(self.scroll_offset, self.diff_lines.len(), height)
    }

    /// Whether the entry at `index` lies in the selected range.
    pub fn is_selected(&self, index: usize) -> (yes: bool)
        ensures
            yes == self@.selects(index as int),
    {
        match self.get_selection_range() {
            Some((low, high)) => low <= index && index <= high,
            None => false,
        }
    }

    /// The selected range, lower bound first, where both anchors are set.
    pub fn get_selection_range(&self) -> (range: Option<(usize, usize)>)
        ensures
            range_view(range) == self@.selection_range(),
    {
        match (self.selection_start, self.selection_end) {
            (Some(start), Some(end)) => {
                if start <= end {
                    Some((start, end))
                } else {
                    Some((end, start))
                }
            },
            _ => None,
        }
    }
}

/// A key press, as far as the session tells keys apart.
#[derive(Clone, Copy, Debug, PartialEq, Eq, Structural)]
pub enum Key {
    Up,
    Down,
    Enter,
    Esc,
    Char(char),
    Other,
}

/// What the caller has to do after a key was handled. The session itself
/// reads no file and reaches no clipboard: it says what is to be done and
/// takes the outcome back.
#[derive(Clone, Copy, Debug, PartialEq, Eq, Structural)]
pub enum Action {
    /// Nothing: wait for the next key.
    Continue,
    /// End the session.
    Quit,
    /// Put the patch on the clipboard, then call `copy_finished`.
    Copy,
    /// Write the patch to a new file, then call `export_finished`.
    Export,
    /// List the browser's current directory, then call `load_entries` on the
    /// browser; where the listing fails and `report_failure` is set, call
    /// `listing_failed` as well.
    ListDirectory { report_failure: bool },
    /// Read the source and the target file, then call `files_loaded`.
    LoadDiff,
}

/// What is shown when copying or exporting is asked for without a selection.
pub open spec fn no_selection_message() -> Seq<char> {
    "No selection made. Press Space to mark start/end."@
}

/// What is reported where there is no clipboard.
pub open spec fn clipboard_missing_message() -> Seq<char> {
    "Clipboard not available in this environment"@
}

/// What is shown for an error with the given description.
pub open spec fn error_message(error: Seq<char>) -> Seq<char> {
    "Error: "@.add(error)
}

/// What is shown after the patch went to the clipboard.
pub open spec fn copied_message(mode: AppMode) -> Seq<char> {
    if mode == AppMode::SelectionMode {
        "Selection copied to clipboard!"@
    } else {
        "Diff copied to clipboard!"@
    }
}

/// What is shown after the patch went to the file `filename`.
pub open spec fn exported_message(mode: AppMode, filename: Seq<char>) -> Seq<char> {
    if mode == AppMode::SelectionMode {
        "Selection exported to "@.add(filename)
    } else {
        "Diff exported to "@.add(filename)
    }
}

/// What is shown after the source was chosen while the target is missing.
pub open spec fn source_chosen_message(path: Seq<char>) -> Seq<char> {
    "Source: "@.add(path).add(" - Now select target file"@)
}

/// What is shown after the target was chosen while the source is missing.
pub open spec fn target_chosen_message(path: Seq<char>) -> Seq<char> {
    "Target: "@.add(path).add(" - Now select source file"@)
}

/// What is shown after the diff was rebuilt for a newly chosen file.
pub open spec fn updated_message(
    mode: AppMode,
    source_file: Seq<char>,
    target_file: Seq<char>,
) -> Seq<char> {
    if mode == AppMode::SelectingSource {
        "Source file updated: "@.add(source_file)
    } else {
        "Target file updated: "@.add(target_file)
    }
}

/// What is shown when the two files could not be read.
pub open spec fn load_error_message(error: Seq<char>) -> Seq<char> {
    "Error loading files: "@.add(error)
}

/// The number of lines left for content on a terminal of the given height.
pub open spec fn content_lines(terminal_height: int) -> int {
    if terminal_height > 8 {
        terminal_height - 8
    } else {
        0
    }
}

/// The mode in which a session starts: the diff view where both paths were
/// given, else the mode that asks for the missing one, the source first.
pub open spec fn starting_mode(has_source: bool, has_target: bool) -> AppMode {
    if has_source && has_target {
        AppMode::DiffView
    } else if has_source {
        AppMode::SelectingTarget
    } else {
        AppMode::SelectingSource
    }
}

impl AppView {
    /// The session without a status message.
    pub open spec fn cleared(self) -> AppView {
        AppView { status_message: None, ..self }
    }

    /// The session showing `message`.
    pub open spec fn with_status(self, message: Seq<char>) -> AppView {
        AppView { status_message: Some(message), ..self }
    }

    /// The session in another mode.
    pub open spec fn in_mode(self, mode: AppMode) -> AppView {
        AppView { mode, ..self }
    }

    /// A key in the diff view: `q` quits, `s` and `t` ask for the source or
    /// the target, `v` enters selection mode, `c` copies, `e` exports, the
    /// arrows scroll. Any other key does nothing.
    pub open spec fn on_diffview_key(self, key: Key, content_height: int) -> (AppView, Action) {
        match key {
            Key::Char('q') => (self, Action::Quit),
            Key::Char('s') => (
                self.in_mode(AppMode::SelectingSource),
                Action::ListDirectory { report_failure: false },
            ),
            Key::Char('t') => (
                self.in_mode(AppMode::SelectingTarget),
                Action::ListDirectory { report_failure: false },
            ),
            Key::Char('v') => (self.enter_selection_mode(), Action::Continue),
            Key::Char('c') => (self, Action::Copy),
            Key::Char('e') => (self, Action::Export),
            Key::Up => (self.scroll_up(), Action::Continue),
            Key::Down => (self.scroll_down(content_height), Action::Continue),
            _ => (self, Action::Continue),
        }
    }

    /// A key in selection mode: `q` quits, `v` leaves the mode, space sets
    /// or confirms the anchor, `c` copies and `e` exports where a range is
    /// selected and say so where none is, the arrows move the cursor and draw
    /// the selection with it. Any other key does nothing.
    pub open spec fn on_selection_key(self, key: Key, content_height: int) -> (AppView, Action) {
        match key {
            Key::Char('q') => (self, Action::Quit),
            Key::Char('v') => (self.exit_selection_mode(), Action::Continue),
            Key::Char(' ') => (self.toggle_selection_anchor(), Action::Continue),
            Key::Char('c') => if self.selection_range() is Some {
                (self, Action::Copy)
            } else {
                (self.with_status(no_selection_message()), Action::Continue)
            },
            Key::Char('e') => if self.selection_range() is Some {
                (self, Action::Export)
            } else {
                (self.with_status(no_selection_message()), Action::Continue)
            },
            Key::Up => (self.cursor_up().update_selection_end(), Action::Continue),
            Key::Down => (
                self.cursor_down(content_height).update_selection_end(),
                Action::Continue,
            ),
            _ => (self, Action::Continue),
        }
    }

    /// The selected entry of the browser confirmed. A directory is moved
    /// into and has to be listed. A file becomes the source or the target,
    /// as the mode says: where the other path is still missing the session
    /// goes on to ask for it, else the two files have to be read.
    pub open spec fn on_file_selection(self) -> (AppView, Action) {
        match self.file_browser.entered() {
            EnteredView::Nothing => (self, Action::Continue),
            EnteredView::Directory(_) => (
                AppView { file_browser: self.file_browser.enter_selected(), ..self },
                Action::ListDirectory { report_failure: true },
            ),
            EnteredView::File(path) => if self.mode == AppMode::SelectingSource {
                if self.target_file.len() == 0 {
                    (
                        AppView {
                            source_file: path,
                            mode: AppMode::SelectingTarget,
                            status_message: Some(source_chosen_message(path)),
                            ..self
                        },
                        Action::ListDirectory { report_failure: false },
                    )
                } else {
                    (AppView { source_file: path, ..self }, Action::LoadDiff)
                }
            } else {
                if self.source_file.len() == 0 {
                    (
                        AppView {
                            target_file: path,
                            mode: AppMode::SelectingSource,
                            status_message: Some(target_chosen_message(path)),
                            ..self
                        },
                        Action::ListDirectory { report_failure: false },
                    )
                } else {
                    (AppView { target_file: path, ..self }, Action::LoadDiff)
                }
            },
        }
    }

    /// A key in the file browser: the arrows move the selection, enter
    /// confirms it, escape and `q` go back to the diff view where both files
    /// are set and quit where they are not. Any other key does nothing.
    pub open spec fn on_browser_key(self, key: Key, content_height: int) -> (AppView, Action) {
        match key {
            Key::Up => (
                AppView { file_browser: self.file_browser.move_up(), ..self },
                Action::Continue,
            ),
            Key::Down => (
                AppView {
                    file_browser: self.file_browser.move_down().update_scroll(content_height),
                    ..self
                },
                Action::Continue,
            ),
            Key::Enter => self.on_file_selection(),
            Key::Esc | Key::Char('q') => if self.source_file.len() > 0 && self.target_file.len()
                > 0 {
                (self.in_mode(AppMode::DiffView), Action::Continue)
            } else {
                (self, Action::Quit)
            },
            _ => (self, Action::Continue),
        }
    }

    /// A key in any mode: the status message of the last key goes, then the
    /// mode decides.
    pub open spec fn on_key(self, key: Key, content_height: int) -> (AppView, Action) {
        match self.mode {
            AppMode::DiffView => self.cleared().on_diffview_key(key, content_height),
            AppMode::SelectingSource | AppMode::SelectingTarget => self.cleared().on_browser_key(
                key,
                content_height,
            ),
            AppMode::SelectionMode => self.cleared().on_selection_key(key, content_height),
        }
    }

    /// The outcome of copying taken in: a message, nothing else.
    pub open spec fn copy_finished(self, outcome: Result<(), Seq<char>>) -> AppView {
        match outcome {
            Ok(_) => self.with_status(copied_message(self.mode)),
            Err(error) => self.with_status(error_message(error)),
        }
    }

    /// The outcome of exporting taken in: a message, nothing else.
    pub open spec fn export_finished(self, outcome: Result<Seq<char>, Seq<char>>) -> AppView {
        match outcome {
            Ok(filename) => self.with_status(exported_message(self.mode, filename)),
            Err(error) => self.with_status(error_message(error)),
        }
    }

    /// The outcome of reading the two files taken in. With their contents
    /// the diff model is rebuilt; without, the old model stays and window,
    /// cursor and selection with it. Either way the diff view is next.
    pub open spec fn files_loaded(
        self,
        outcome: Result<(Seq<char>, Seq<char>), Seq<char>>,
    ) -> AppView {
        match outcome {
            Ok((source, target)) => self.regenerate_diff(diff_model(source, target)).with_status(
                updated_message(self.mode, self.source_file, self.target_file),
            ).in_mode(AppMode::DiffView),
            Err(error) => self.with_status(load_error_message(error)).in_mode(AppMode::DiffView),
        }
    }
}

/// `label` followed by `text`.
fn labelled(label: &str, text: &str) -> (out: String)
    ensures
        out@ == label@.add(text@),
{
    let mut out = String::from_str(label);
    out.append(text);
    out
}

/// The number of lines left for content on a terminal of the given height:
/// eight lines go to the frame around it.
pub fn content_height(terminal_height: u16) -> (lines: usize)
    ensures
        lines == content_lines(terminal_height as int),
{
    if terminal_height > 8 {
        (terminal_height - 8) as usize
    } else {
        0
    }
}

/// The mode in which a session starts, from which of the two paths were
/// given.
pub fn initial_mode(has_source: bool, has_target: bool) -> (mode: AppMode)
    ensures
        mode == starting_mode(has_source, has_target),
{
    if has_source && has_target {
        AppMode::DiffView
    } else if has_source {
        AppMode::SelectingTarget
    } else {
        AppMode::SelectingSource
    }
}

impl App {
    /// What goes to the clipboard: the patch, where a clipboard is there to
    /// take it; without one, the reason why nothing is copied.
    pub fn copy_to_clipboard(&self, clipboard_available: bool) -> (result: Result<String, String>)
        ensures
            clipboard_available ==> (result matches Ok(patch) && patch@ == patch_text(
                self@.source_file,
                self@.target_file,
                self@.diff_lines,
                self@.selection_range(),
            )),
            !clipboard_available ==> (result matches Err(error) && error@
                == clipboard_missing_message()),
    {
        if clipboard_available {
            Ok(self.generate_patch())
        } else {
            Err(String::from_str("Clipboard not available in this environment"))
        }
    }

    /// What goes to which file: the name made from the time in nanoseconds
    /// and the patch to write under it; without a time, the reason why
    /// nothing is written.
    pub fn export_to_file(
        &self,
        timestamp: Result<u128, String>,
    ) -> (result: Result<(String, String), String>)
        ensures
            match timestamp {
                Ok(nanos) => result matches Ok(export) && export.0@ == export_name(nanos as nat)
                    && export.1@ == patch_text(
                    self@.source_file,
                    self@.target_file,
                    self@.diff_lines,
                    self@.selection_range(),
                ),
                Err(detail) => result matches Err(error) && error@ == timestamp_failure_text(
                    detail@,
                ),
            },
    {
        match timestamp {
            Ok(nanos) => Ok((export_filename(nanos), self.generate_patch())),
            Err(detail) => Err(timestamp_failure(detail.as_str())),
        }
    }

    /// Shows how copying the patch ended.
    pub fn copy_finished(&mut self, outcome: Result<(), String>)
        ensures
            final(self)@ == old(self)@.copy_finished(
                match outcome {
                    Ok(_) => Ok(()),
                    Err(error) => Err(error@),
                },
            ),
    {
        let message = match outcome {
            Ok(_) => {
                if self.mode == AppMode::SelectionMode {
                    String::from_str("Selection copied to clipboard!")
                } else {
                    String::from_str("Diff copied to clipboard!")
                }
            },
            Err(error) => labelled("Error: ", error.as_str()),
        };
        self.status_message = Some(message);
    }

    /// Shows how exporting the patch ended: the name of the file written,
    /// or the error.
    pub fn export_finished(&mut self, outcome: Result<String, String>)
        ensures
            final(self)@ == old(self)@.export_finished(
                match outcome {
                    Ok(filename) => Ok(filename@),
                    Err(error) => Err(error@),
                },
            ),
    {
        let message = match outcome {
            Ok(filename) => {
                if self.mode == AppMode::SelectionMode {
                    labelled("Selection exported to ", filename.as_str())
                } else {
                    labelled("Diff exported to ", filename.as_str())
                }
            },
            Err(error) => labelled("Error: ", error.as_str()),
        };
        self.status_message = Some(message);
    }

    /// Takes in how reading the source and the target ended. With their
    /// contents the diff model is rebuilt and the file that was chosen last
    /// is named; with an error the old model stays as it is shown. The diff
    /// view is next in both cases.
    pub fn files_loaded(&mut self, outcome: Result<(String, String), String>)
        ensures
            final(self)@ == old(self)@.files_loaded(
                match outcome {
                    Ok(contents) => Ok((contents.0@, contents.1@)),
                    Err(error) => Err(error@),
                },
            ),
    {
        match outcome {
            Ok(contents) => {
                self.regenerate_diff(contents.0.as_str(), contents.1.as_str());
                let message = if self.mode == AppMode::SelectingSource {
                    labelled("Source file updated: ", self.source_file.as_str())
                } else {
                    labelled("Target file updated: ", self.target_file.as_str())
                };
                self.status_message = Some(message);
            },
            Err(error) => {
                self.status_message = Some(labelled("Error loading files: ", error.as_str()));
            },
        }
        self.mode = AppMode::DiffView;
    }

    /// Shows that the directory entered could not be listed.
    pub fn listing_failed(&mut self, error: &str)
        ensures
            final(self)@ == old(self)@.with_status(error_message(error@)),
    {
        self.status_message = Some(labelled("Error: ", error));
    }
}

/// Confirms the selected entry of the file browser.
pub fn handle_file_selection(app: &mut App) -> (action: Action)
    ensures
        (final(app)@, action) == old(app)@.on_file_selection(),
{
    match app.file_browser.enter_selected() {
        Entered::Nothing => Action::Continue,
        Entered::Directory(_) => Action::ListDirectory { report_failure: true },
        Entered::File(path) => {
            if app.mode == AppMode::SelectingSource {
                if app.target_file.as_str().is_empty() {
                    app.mode = AppMode::SelectingTarget;
                    let mut message = labelled("Source: ", path.as_str());
                    message.append(" - Now select target file");
                    app.status_message = Some(message);
                    app.source_file = path;
                    Action::ListDirectory { report_failure: false }
                } else {
                    app.source_file = path;
                    Action::LoadDiff
                }
            } else {
                if app.source_file.as_str().is_empty() {
                    app.mode = AppMode::SelectingSource;
                    let mut message = labelled("Target: ", path.as_str());
                    message.append(" - Now select source file");
                    app.status_message = Some(message);
                    app.target_file = path;
                    Action::ListDirectory { report_failure: false }
                } else {
                    app.target_file = path;
                    Action::LoadDiff
                }
            }
        },
    }
}

/// Handles a key while a file is being chosen.
pub fn handle_browser_input(app: &mut App, key: Key, content_height: usize) -> (action: Action)
    requires
        content_height > 0 || old(app).file_browser.selected_index < usize::MAX,
    ensures
        (final(app)@, action) == old(app)@.on_browser_key(key, content_height as int),
{
    match key {
        Key::Up => {
            app.file_browser.move_up();
            Action::Continue
        },
        Key::Down => {
            assert(app.file_browser@.entries.len() == app.file_browser.entries.len());
            app.file_browser.move_down();
            app.file_browser.update_scroll(content_height);
            Action::Continue
        },
        Key::Enter => handle_file_selection(app),
        Key::Esc | Key::Char('q') => {
            if !app.source_file.as_str().is_empty() && !app.target_file.as_str().is_empty() {
                app.mode = AppMode::DiffView;
                Action::Continue
            } else {
                Action::Quit
            }
        },
        _ => Action::Continue,
    }
}

/// Handles a key in the diff view.
pub fn handle_diffview_input(app: &mut App, key: Key, content_height: usize) -> (action: Action)
    ensures
        (final(app)@, action) == old(app)@.on_diffview_key(key, content_height as int),
{
    match key {
        Key::Char('q') => Action::Quit,
        Key::Char('s') => {
            app.mode = AppMode::SelectingSource;
            Action::ListDirectory { report_failure: false }
        },
        Key::Char('t') => {
            app.mode = AppMode::SelectingTarget;
            Action::ListDirectory { report_failure: false }
        },
        Key::Char('v') => {
            app.enter_selection_mode();
            Action::Continue
        },
        Key::Char('c') => Action::Copy,
        Key::Char('e') => Action::Export,
        Key::Up => {
            app.scroll_up();
            Action::Continue
        },
        Key::Down => {
            app.scroll_down(content_height);
            Action::Continue
        },
        _ => Action::Continue,
    }
}

/// Handles a key in selection mode.
pub fn handle_selection_input(app: &mut App, key: Key, content_height: usize) -> (action: Action)
    ensures
        (final(app)@, action) == old(app)@.on_selection_key(key, content_height as int),
{
    match key {
        Key::Char('q') => Action::Quit,
        Key::Char('v') => {
            app.exit_selection_mode();
            Action::Continue
        },
        Key::Char(' ') => {
            app.toggle_selection_anchor();
            Action::Continue
        },
        Key::Char('c') => {
            if app.get_selection_range().is_some() {
                Action::Copy
            } else {
                app.status_message = Some(
                    String::from_str("No selection made. Press Space to mark start/end."),
                );
                Action::Continue
            }
        },
        Key::Char('e') => {
            if app.get_selection_range().is_some() {
                Action::Export
            } else {
                app.status_message = Some(
                    String::from_str("No selection made. Press Space to mark start/end."),
                );
                Action::Continue
            }
        },
        Key::Up => {
            app.cursor_up();
            app.update_selection_end();
            Action::Continue
        },
        Key::Down => {
            app.cursor_down(content_height);
            app.update_selection_end();
            Action::Continue
        },
        _ => Action::Continue,
    }
}

/// Handles one key: drops the status message of the key before, then lets
/// the mode decide. The action returned says what the caller has to do
/// before the next key.
pub fn handle_key(app: &mut App, key: Key, content_height: usize) -> (action: Action)
    requires
        content_height > 0 || old(app).file_browser.selected_index < usize::MAX,
    ensures
        (final(app)@, action) == old(app)@.on_key(key, content_height as int),
{
    app.status_message = None;
    match app.mode {
        AppMode::DiffView => handle_diffview_input(app, key, content_height),
        AppMode::SelectingSource | AppMode::SelectingTarget => handle_browser_input(
            app,
            key,
            content_height,
        ),
        AppMode::SelectionMode => handle_selection_input(app, key, content_height),
    }
}

impl AppView {
    /// Whether the window lies within the model: it ends at or before the
    /// last entry where the model is longer than the window, and starts at
    /// the top where the model fits into it.
    pub open spec fn scroll_in_bounds(self, max_visible_lines: int) -> bool {
        &&& 0 <= self.scroll_offset
        &&& if self.diff_lines.len() > max_visible_lines {
            self.scroll_offset + max_visible_lines <= self.diff_lines.len()
        } else {
            self.scroll_offset == 0
        }
    }

    /// The session after a run of scroll keys in the diff view, `true` for
    /// down and `false` for up.
    pub open spec fn after_scrolls(self, downs: Seq<bool>, max_visible_lines: int) -> AppView
        decreases downs.len(),
    {
        if downs.len() == 0 {
            self
        } else {
            let before = self.after_scrolls(downs.drop_last(), max_visible_lines);
            if downs.last() {
                before.scroll_down(max_visible_lines)
            } else {
                before.scroll_up()
            }
        }
    }

    /// Whether the cursor lies in the window.
    pub open spec fn cursor_visible(self, max_visible_lines: int) -> bool {
        self.scroll_offset <= self.cursor_position < self.scroll_offset + max_visible_lines
    }

    /// Whether the cursor lies on an entry of the model.
    pub open spec fn cursor_on_entry(self) -> bool {
        0 <= self.cursor_position < self.diff_lines.len()
    }

    /// Whether the anchors are both set or both unset.
    pub open spec fn anchors_paired(self) -> bool {
        self.selection_start is Some <==> self.selection_end is Some
    }
}

/// The selected range is the same whichever anchor came first: a selection
/// drawn from a lower entry up to a higher one and one drawn from the higher
/// down to the lower are the same range, lower bound first.
pub proof fn lemma_range_order_invariant(a: AppView, b: AppView)
    requires
        a.selection_start is Some,
        a.selection_end is Some,
        a.selection_start == b.selection_end,
        a.selection_end == b.selection_start,
    ensures
        a.selection_range() == b.selection_range(),
        a.selection_range() == Some(
            (
                lower(a.selection_start->0, a.selection_end->0),
                upper(a.selection_start->0, a.selection_end->0),
            ),
        ),
{
}

/// With an anchor set, the range after a cursor key runs between the
/// anchor and the cursor, whichever way the cursor went.
pub proof fn lemma_selection_follows_cursor(view: AppView, key: Key, content_height: int)
    requires
        view.selection_start is Some,
        key == Key::Up || key == Key::Down,
    ensures
        ({
            let next = view.on_selection_key(key, content_height).0;
            &&& next.selection_start == view.selection_start
            &&& next.selection_range() == Some(
                (
                    lower(view.selection_start->0, next.cursor_position),
                    upper(view.selection_start->0, next.cursor_position),
                ),
            )
        }),
{
}

/// Scrolling keeps the window within the model: from a window within it,
/// any run of up and down keys in the diff view leads to a window within it,
/// for a viewport of unchanged height.
pub proof fn lemma_scroll_stays_in_bounds(view: AppView, downs: Seq<bool>, max_visible_lines: int)
    requires
        max_visible_lines >= 0,
        view.scroll_in_bounds(max_visible_lines),
    ensures
        view.after_scrolls(downs, max_visible_lines).scroll_in_bounds(max_visible_lines),
        view.after_scrolls(downs, max_visible_lines).diff_lines == view.diff_lines,
    decreases downs.len(),
{
    if downs.len() > 0 {
        lemma_scroll_stays_in_bounds(view, downs.drop_last(), max_visible_lines);
    }
}

/// A session that was just opened, or whose model was just rebuilt, has its
/// window within the model.
pub proof fn lemma_fresh_window_in_bounds(
    view: AppView,
    diff_lines: Seq<Tagged>,
    max_visible_lines: int,
)
    requires
        max_visible_lines >= 0,
    ensures
        view.regenerate_diff(diff_lines).scroll_in_bounds(max_visible_lines),
        AppView::opened(
            view.source_file,
            view.target_file,
            diff_lines,
            view.file_browser,
        ).scroll_in_bounds(max_visible_lines),
{
}

/// A window within a model that has entries starts on one of them, for a
/// viewport of one line or more; selection mode then starts with the cursor
/// on an entry.
pub proof fn lemma_window_starts_on_entry(view: AppView, max_visible_lines: int)
    requires
        max_visible_lines >= 1,
        view.scroll_in_bounds(max_visible_lines),
        view.diff_lines.len() > 0,
    ensures
        0 <= view.scroll_offset < view.diff_lines.len(),
        view.enter_selection_mode().cursor_on_entry(),
{
}

/// The cursor stays in the window: it is there on entering selection mode,
/// and a cursor key leaves it there. A window without lines shows nothing,
/// so this holds of a viewport of one line or more.
pub proof fn lemma_cursor_stays_visible(view: AppView, max_visible_lines: int)
    requires
        max_visible_lines >= 1,
    ensures
        view.enter_selection_mode().cursor_visible(max_visible_lines),
        view.cursor_visible(max_visible_lines) ==> view.cursor_up().cursor_visible(
            max_visible_lines,
        ),
        view.cursor_visible(max_visible_lines) ==> view.cursor_down(
            max_visible_lines,
        ).cursor_visible(max_visible_lines),
{
}

/// A cursor on an entry stays on an entry under the cursor keys, and the
/// window then starts on an entry too.
pub proof fn lemma_cursor_stays_on_entry(view: AppView, max_visible_lines: int)
    requires
        view.cursor_on_entry(),
    ensures
        view.cursor_up().cursor_on_entry(),
        view.cursor_down(max_visible_lines).cursor_on_entry(),
{
}

/// In selection mode the anchors stay paired: no key sets or clears one
/// without the other.
pub proof fn lemma_anchors_stay_paired(view: AppView, key: Key, content_height: int)
    requires
        view.anchors_paired(),
    ensures
        view.on_selection_key(key, content_height).0.anchors_paired(),
        view.enter_selection_mode().anchors_paired(),
{
}

/// Confirming a selection does not take it away: with an anchor set, the
/// anchor key changes the message and nothing else.
pub proof fn lemma_confirm_keeps_selection(view: AppView)
    requires
        view.selection_start is Some,
    ensures
        view.toggle_selection_anchor().selection_start == view.selection_start,
        view.toggle_selection_anchor().selection_end == view.selection_end,
        view.toggle_selection_anchor().cleared() == view.cleared(),
{
}

} // verus!
