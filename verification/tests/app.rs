use lazydiff::app::{
    content_height, handle_browser_input, handle_diffview_input, handle_file_selection,
    handle_key, handle_selection_input, initial_mode, Action, App, AppMode, Key,
};
use lazydiff::browser::{BrowserEntry, EntryKind, FileBrowser};
use lazydiff::diff::ChangeTag;

const SOURCE: &str = "Line 1\nLine 2\nLine 3\nLine to remove\n";
const TARGET: &str = "Line 1\nLine 2 modified\nLine 3\nLine added\n";

fn browser() -> FileBrowser {
    let mut browser = FileBrowser::new("/work".to_string());
    browser.load_entries(
        Some("/".to_string()),
        vec![
            BrowserEntry {
                path: "/work/docs".to_string(),
                file_name: Some("docs".to_string()),
                absolute: true,
                kind: EntryKind::Directory,
            },
            BrowserEntry {
                path: "/work/a.txt".to_string(),
                file_name: Some("a.txt".to_string()),
                absolute: true,
                kind: EntryKind::File,
            },
            BrowserEntry {
                path: "/work/b.txt".to_string(),
                file_name: Some("b.txt".to_string()),
                absolute: true,
                kind: EntryKind::File,
            },
        ],
    );
    browser
}

fn sample_app() -> App {
    App::new("source.txt".to_string(), "target.txt".to_string(), SOURCE, TARGET, browser())
}

fn numbered(count: usize) -> App {
    let text: String = (0..count).map(|i| format!("line {}\n", i)).collect();
    App::new("a".to_string(), "b".to_string(), &text, &text, browser())
}

#[test]
fn app_test_generate_patch() {
    let source = "test_source_1_.txt".to_string();
    let target = "test_target_1_.txt".to_string();
    let app = App::new(source.clone(), target.clone(), SOURCE, TARGET, browser());

    let patch = app.generate_patch();

    assert!(patch.contains(&format!("--- {}", source)));
    assert!(patch.contains(&format!("+++ {}", target)));
    assert!(patch.contains(" Line 1"));
    assert!(patch.contains(" Line 3"));
    assert!(patch.contains("-Line 2"));
    assert!(patch.contains("-Line to remove"));
    assert!(patch.contains("+Line 2 modified"));
    assert!(patch.contains("+Line added"));
}

#[test]
fn main_test_generate_patch() {
    let source = "test_source_2_.txt".to_string();
    let target = "test_target_2_.txt".to_string();
    let app = App::new(source.clone(), target.clone(), SOURCE, TARGET, browser());

    let patch = app.generate_patch();

    assert!(patch.contains(&format!("--- {}", source)));
    assert!(patch.contains(&format!("+++ {}", target)));
    assert!(patch.contains(" Line 1"));
    assert!(patch.contains(" Line 3"));
    assert!(patch.contains("-Line 2"));
    assert!(patch.contains("-Line to remove"));
    assert!(patch.contains("+Line 2 modified"));
    assert!(patch.contains("+Line added"));
}

#[test]
fn app_test_patch_format_with_no_changes() {
    let app = App::new(
        "test_identical_source_1_.txt".to_string(),
        "test_identical_target_1_.txt".to_string(),
        "Same content\n",
        "Same content\n",
        browser(),
    );
    let patch = app.generate_patch();

    assert!(patch.starts_with("---"));
    assert!(patch.contains("+++"));
    assert!(patch.contains(" Same content"));

    let lines: Vec<&str> = patch.lines().collect();
    let has_deletions = lines.iter().skip(2).any(|line| line.starts_with('-'));
    assert!(!has_deletions);

    let has_additions = lines.iter().skip(2).any(|line| line.starts_with('+'));
    assert!(!has_additions);
}

#[test]
fn app_test_export_to_file() {
    let app = sample_app();

    let (filename, contents) = app.export_to_file(Ok(1_700_000_000_000_000_000)).unwrap();

    assert!(filename.starts_with("diff_"));
    assert!(filename.ends_with(".patch"));

    assert!(!contents.is_empty());
    assert!(contents.contains(&format!("--- {}", "source.txt")));
    assert!(contents.contains(&format!("+++ {}", "target.txt")));

    let line_count = contents.lines().count();
    assert!(line_count > 2);
}

#[test]
fn app_test_export_creates_unique_filenames() {
    let app = sample_app();

    let (filename1, _) = app.export_to_file(Ok(1_700_000_000_000_000_000)).unwrap();
    let (filename2, _) = app.export_to_file(Ok(1_700_000_001_000_000_000)).unwrap();

    assert_ne!(filename1, filename2);
}

#[test]
fn app_test_copy_to_clipboard() {
    let app = sample_app();

    let result = app.copy_to_clipboard(true);

    match result {
        Ok(clipboard_content) => {
            assert!(clipboard_content.contains(&format!("--- {}", "source.txt")));
            assert!(clipboard_content.contains(&format!("+++ {}", "target.txt")));
            assert!(!clipboard_content.is_empty());
        }
        Err(e) => panic!("Clipboard not available: {}", e),
    }
}

#[test]
fn app_test_clipboard_contains_correct_patch() {
    let app = sample_app();

    let expected_patch = app.generate_patch();

    let clipboard_content = app.copy_to_clipboard(true).unwrap();
    assert!(
        clipboard_content.contains(&format!("--- {}", "source.txt")),
        "Clipboard should contain source file header"
    );
    assert!(
        clipboard_content.contains(&format!("+++ {}", "target.txt")),
        "Clipboard should contain target file header"
    );
    assert!(!clipboard_content.is_empty(), "Clipboard should not be empty");
    assert!(clipboard_content.lines().count() > 2, "Clipboard should have more than just headers");
    assert_eq!(
        clipboard_content, expected_patch,
        "Clipboard content should exactly match generated patch"
    );
}

#[test]
fn app_test_multiple_clipboard_copies() {
    let app1 = sample_app();
    let patch1 = app1.generate_patch();
    assert_eq!(app1.copy_to_clipboard(true).unwrap(), patch1);

    let app2 = App::new(
        "test_source2_1_.txt".to_string(),
        "test_target2_1_.txt".to_string(),
        "Different line 1\nDifferent line 2\n",
        "Different line 1\nModified line 2\n",
        browser(),
    );
    let patch2 = app2.generate_patch();
    let content = app2.copy_to_clipboard(true).unwrap();
    assert_eq!(content, patch2);
    assert_ne!(content, patch1, "Second copy should overwrite first");
}

#[test]
fn copy_without_clipboard_says_so() {
    let app = sample_app();
    assert_eq!(
        app.copy_to_clipboard(false),
        Err("Clipboard not available in this environment".to_string())
    );
}

#[test]
fn export_without_time_says_so() {
    let app = sample_app();
    assert_eq!(
        app.export_to_file(Err("clock went back".to_string())),
        Err("Failed to get timestamp: clock went back".to_string())
    );
}

#[test]
fn new_session_shows_the_diff_from_the_top() {
    let app = sample_app();
    assert_eq!(app.mode, AppMode::DiffView);
    assert_eq!(app.diff_lines.len(), 6);
    assert_eq!(app.diff_lines[1].tag, ChangeTag::Delete);
    assert_eq!(app.diff_lines[1].content, "Line 2");
    assert_eq!(app.scroll_offset, 0);
    assert_eq!(app.cursor_position, 0);
    assert_eq!(app.status_message, None);
    assert_eq!(app.selection_start, None);
    assert_eq!(app.selection_end, None);
    assert_eq!(app.source_file, "source.txt");
    assert_eq!(app.target_file, "target.txt");
}

#[test]
fn new_empty_session_asks_for_a_file() {
    let app = App::new_empty(AppMode::SelectingSource, browser());
    assert_eq!(app.mode, AppMode::SelectingSource);
    assert_eq!(app.status_message, Some("Please select a file".to_string()));
    assert!(app.diff_lines.is_empty());
    assert_eq!(app.source_file, "");
    assert_eq!(app.target_file, "");
}

#[test]
fn initial_mode_follows_the_paths_given() {
    assert_eq!(initial_mode(true, true), AppMode::DiffView);
    assert_eq!(initial_mode(false, true), AppMode::SelectingSource);
    assert_eq!(initial_mode(true, false), AppMode::SelectingTarget);
    assert_eq!(initial_mode(false, false), AppMode::SelectingSource);
}

#[test]
fn content_height_leaves_eight_lines_to_the_frame() {
    assert_eq!(content_height(0), 0);
    assert_eq!(content_height(8), 0);
    assert_eq!(content_height(9), 1);
    assert_eq!(content_height(30), 22);
    assert_eq!(content_height(u16::MAX), 65527);
}

#[test]
fn scroll_down_stops_when_the_last_entry_shows() {
    let mut app = numbered(10);
    for expected in 1..=7 {
        app.scroll_down(3);
        assert_eq!(app.scroll_offset, expected);
    }
    app.scroll_down(3);
    assert_eq!(app.scroll_offset, 7);
    assert_eq!(app.scroll_offset + 3, app.diff_lines.len());
}

#[test]
fn scroll_down_does_nothing_when_the_model_fits() {
    let mut app = numbered(3);
    app.scroll_down(3);
    assert_eq!(app.scroll_offset, 0);
    app.scroll_down(10);
    assert_eq!(app.scroll_offset, 0);
    app.scroll_down(usize::MAX);
    assert_eq!(app.scroll_offset, 0);
    let mut empty = numbered(0);
    empty.scroll_down(0);
    assert_eq!(empty.scroll_offset, 0);
}

#[test]
fn scroll_up_stops_at_the_top() {
    let mut app = numbered(10);
    app.scroll_offset = 2;
    app.scroll_up();
    assert_eq!(app.scroll_offset, 1);
    app.scroll_up();
    assert_eq!(app.scroll_offset, 0);
    app.scroll_up();
    assert_eq!(app.scroll_offset, 0);
}

#[test]
fn scrolling_keeps_the_window_within_the_model() {
    for (count, height) in [(10usize, 3usize), (3, 3), (2, 5), (0, 4), (7, 1)] {
        let mut app = numbered(count);
        let keys = [true, true, false, true, true, true, true, true, true, true, false, true];
        for round in 0..3 {
            for down in keys {
                if down {
                    app.scroll_down(height);
                } else {
                    app.scroll_up();
                }
                if count > height {
                    assert!(app.scroll_offset + height <= count, "round {}", round);
                } else {
                    assert_eq!(app.scroll_offset, 0);
                }
            }
        }
    }
}

#[test]
fn enter_selection_mode_puts_the_cursor_on_the_first_visible_entry() {
    let mut app = numbered(10);
    app.scroll_offset = 4;
    app.selection_start = Some(1);
    app.selection_end = Some(2);
    app.enter_selection_mode();
    assert_eq!(app.mode, AppMode::SelectionMode);
    assert_eq!(app.cursor_position, 4);
    assert_eq!(app.selection_start, None);
    assert_eq!(app.selection_end, None);
    assert_eq!(
        app.status_message,
        Some("SELECTION MODE - Press Space to mark start/end, v to exit".to_string())
    );
}

#[test]
fn exit_selection_mode_drops_the_selection() {
    let mut app = numbered(10);
    app.enter_selection_mode();
    app.toggle_selection_anchor();
    app.exit_selection_mode();
    assert_eq!(app.mode, AppMode::DiffView);
    assert_eq!(app.selection_start, None);
    assert_eq!(app.selection_end, None);
    assert_eq!(app.status_message, Some("Selection mode exited".to_string()));
}

#[test]
fn toggle_sets_the_anchor_once_and_then_only_reports() {
    let mut app = numbered(10);
    app.enter_selection_mode();
    app.cursor_position = 3;
    app.toggle_selection_anchor();
    assert_eq!(app.selection_start, Some(3));
    assert_eq!(app.selection_end, Some(3));
    assert_eq!(app.status_message, Some("Selection start: line 3".to_string()));
    assert_eq!(app.get_selection_range(), Some((3, 3)));

    app.cursor_down(5);
    app.update_selection_end();
    app.cursor_down(5);
    app.update_selection_end();
    app.toggle_selection_anchor();
    assert_eq!(app.selection_start, Some(3));
    assert_eq!(app.selection_end, Some(5));
    assert_eq!(
        app.status_message,
        Some("Selection: lines 3-5 (3 lines selected)".to_string())
    );

    app.toggle_selection_anchor();
    assert_eq!(app.selection_start, Some(3));
    assert_eq!(app.selection_end, Some(5));
    assert_eq!(app.get_selection_range(), Some((3, 5)));
}

#[test]
fn toggle_reports_a_selection_drawn_upward() {
    let mut app = numbered(20);
    app.enter_selection_mode();
    app.cursor_position = 12;
    app.toggle_selection_anchor();
    app.cursor_position = 9;
    app.update_selection_end();
    app.toggle_selection_anchor();
    assert_eq!(
        app.status_message,
        Some("Selection: lines 9-12 (4 lines selected)".to_string())
    );
}

#[test]
fn update_selection_end_needs_an_anchor() {
    let mut app = numbered(10);
    app.cursor_position = 4;
    app.update_selection_end();
    assert_eq!(app.selection_end, None);
    app.selection_start = Some(1);
    app.update_selection_end();
    assert_eq!(app.selection_end, Some(4));
}

#[test]
fn range_is_the_same_in_both_directions() {
    let mut up = numbered(10);
    up.enter_selection_mode();
    up.cursor_position = 6;
    up.toggle_selection_anchor();
    for _ in 0..4 {
        up.cursor_up();
        up.update_selection_end();
    }
    let mut down = numbered(10);
    down.enter_selection_mode();
    down.cursor_position = 2;
    down.toggle_selection_anchor();
    for _ in 0..4 {
        down.cursor_down(5);
        down.update_selection_end();
    }
    assert_eq!(up.get_selection_range(), Some((2, 6)));
    assert_eq!(down.get_selection_range(), Some((2, 6)));
}

#[test]
fn range_needs_both_anchors() {
    let mut app = numbered(10);
    assert_eq!(app.get_selection_range(), None);
    app.selection_start = Some(2);
    assert_eq!(app.get_selection_range(), None);
    app.selection_start = None;
    app.selection_end = Some(2);
    assert_eq!(app.get_selection_range(), None);
}

#[test]
fn cursor_stops_at_both_ends() {
    let mut app = numbered(3);
    app.cursor_up();
    assert_eq!(app.cursor_position, 0);
    app.cursor_down(5);
    app.cursor_down(5);
    assert_eq!(app.cursor_position, 2);
    app.cursor_down(5);
    assert_eq!(app.cursor_position, 2);
    let mut empty = numbered(0);
    empty.cursor_down(5);
    assert_eq!(empty.cursor_position, 0);
}

#[test]
fn window_follows_the_cursor() {
    let mut app = numbered(10);
    app.enter_selection_mode();
    for _ in 0..2 {
        app.cursor_down(3);
    }
    assert_eq!((app.cursor_position, app.scroll_offset), (2, 0));
    app.cursor_down(3);
    assert_eq!((app.cursor_position, app.scroll_offset), (3, 1));
    app.cursor_down(3);
    assert_eq!((app.cursor_position, app.scroll_offset), (4, 2));
    app.cursor_up();
    app.cursor_up();
    assert_eq!((app.cursor_position, app.scroll_offset), (2, 2));
    app.cursor_up();
    assert_eq!((app.cursor_position, app.scroll_offset), (1, 1));
}

#[test]
fn patch_of_a_selection_holds_the_selected_entries() {
    let mut app = sample_app();
    app.selection_start = Some(4);
    app.selection_end = Some(1);
    assert_eq!(
        app.generate_patch(),
        "--- source.txt\n+++ target.txt\n-Line 2\n+Line 2 modified\n Line 3\n-Line to remove\n"
    );
}

#[test]
fn regenerate_diff_replaces_the_model_and_resets() {
    let mut app = numbered(10);
    app.scroll_offset = 5;
    app.cursor_position = 7;
    app.selection_start = Some(6);
    app.selection_end = Some(7);
    app.regenerate_diff("x\n", "y\n");
    assert_eq!(app.diff_lines.len(), 2);
    assert_eq!(app.diff_lines[0].tag, ChangeTag::Delete);
    assert_eq!(app.diff_lines[0].content, "x");
    assert_eq!(app.diff_lines[1].tag, ChangeTag::Insert);
    assert_eq!(app.diff_lines[1].content, "y");
    assert_eq!(app.scroll_offset, 0);
    assert_eq!(app.cursor_position, 0);
    assert_eq!(app.selection_start, None);
    assert_eq!(app.selection_end, None);
}

#[test]
fn diffview_keys() {
    let mut app = numbered(10);
    app.status_message = Some("old".to_string());
    assert_eq!(handle_key(&mut app, Key::Down, 3), Action::Continue);
    assert_eq!(app.scroll_offset, 1);
    assert_eq!(app.status_message, None);
    assert_eq!(handle_key(&mut app, Key::Up, 3), Action::Continue);
    assert_eq!(app.scroll_offset, 0);
    assert_eq!(handle_key(&mut app, Key::Char('c'), 3), Action::Copy);
    assert_eq!(handle_key(&mut app, Key::Char('e'), 3), Action::Export);
    assert_eq!(handle_key(&mut app, Key::Char('x'), 3), Action::Continue);
    assert_eq!(handle_key(&mut app, Key::Enter, 3), Action::Continue);
    assert_eq!(handle_key(&mut app, Key::Other, 3), Action::Continue);
    assert_eq!(app.mode, AppMode::DiffView);
    assert_eq!(handle_key(&mut app, Key::Char('q'), 3), Action::Quit);

    assert_eq!(
        handle_diffview_input(&mut app, Key::Char('s'), 3),
        Action::ListDirectory { report_failure: false }
    );
    assert_eq!(app.mode, AppMode::SelectingSource);
    app.mode = AppMode::DiffView;
    assert_eq!(
        handle_diffview_input(&mut app, Key::Char('t'), 3),
        Action::ListDirectory { report_failure: false }
    );
    assert_eq!(app.mode, AppMode::SelectingTarget);
    app.mode = AppMode::DiffView;
    app.scroll_offset = 2;
    assert_eq!(handle_diffview_input(&mut app, Key::Char('v'), 3), Action::Continue);
    assert_eq!(app.mode, AppMode::SelectionMode);
    assert_eq!(app.cursor_position, 2);
}

#[test]
fn selection_keys() {
    let mut app = numbered(10);
    app.enter_selection_mode();
    assert_eq!(handle_key(&mut app, Key::Char('c'), 3), Action::Continue);
    assert_eq!(
        app.status_message,
        Some("No selection made. Press Space to mark start/end.".to_string())
    );
    assert_eq!(handle_key(&mut app, Key::Char('e'), 3), Action::Continue);
    assert_eq!(
        app.status_message,
        Some("No selection made. Press Space to mark start/end.".to_string())
    );
    assert_eq!(handle_key(&mut app, Key::Down, 3), Action::Continue);
    assert_eq!(app.cursor_position, 1);
    assert_eq!(app.selection_end, None);
    assert_eq!(app.status_message, None);
    assert_eq!(handle_key(&mut app, Key::Char(' '), 3), Action::Continue);
    assert_eq!(app.get_selection_range(), Some((1, 1)));
    assert_eq!(handle_key(&mut app, Key::Down, 3), Action::Continue);
    assert_eq!(handle_key(&mut app, Key::Down, 3), Action::Continue);
    assert_eq!(app.get_selection_range(), Some((1, 3)));
    assert_eq!(app.scroll_offset, 1);
    assert_eq!(handle_key(&mut app, Key::Up, 3), Action::Continue);
    assert_eq!(app.get_selection_range(), Some((1, 2)));
    assert_eq!(handle_key(&mut app, Key::Char('c'), 3), Action::Copy);
    assert_eq!(handle_key(&mut app, Key::Char('e'), 3), Action::Export);
    assert_eq!(handle_selection_input(&mut app, Key::Esc, 3), Action::Continue);
    assert_eq!(app.mode, AppMode::SelectionMode);
    assert_eq!(handle_key(&mut app, Key::Char('v'), 3), Action::Continue);
    assert_eq!(app.mode, AppMode::DiffView);
    assert_eq!(app.get_selection_range(), None);
    app.enter_selection_mode();
    assert_eq!(handle_key(&mut app, Key::Char('q'), 3), Action::Quit);
}

#[test]
fn browser_keys_move_the_selection() {
    let mut app = App::new_empty(AppMode::SelectingSource, browser());
    assert_eq!(handle_key(&mut app, Key::Down, 2), Action::Continue);
    assert_eq!(handle_key(&mut app, Key::Down, 2), Action::Continue);
    assert_eq!(app.file_browser.selected_index, 2);
    assert_eq!(app.file_browser.scroll_offset, 1);
    assert_eq!(handle_key(&mut app, Key::Up, 2), Action::Continue);
    assert_eq!(handle_key(&mut app, Key::Up, 2), Action::Continue);
    assert_eq!(app.file_browser.selected_index, 0);
    assert_eq!(app.file_browser.scroll_offset, 0);
    assert_eq!(handle_browser_input(&mut app, Key::Char('x'), 2), Action::Continue);
    assert_eq!(app.mode, AppMode::SelectingSource);
}

#[test]
fn cancel_quits_until_both_files_are_set() {
    let mut app = App::new_empty(AppMode::SelectingSource, browser());
    assert_eq!(handle_key(&mut app, Key::Esc, 5), Action::Quit);
    app.source_file = "a".to_string();
    assert_eq!(handle_key(&mut app, Key::Char('q'), 5), Action::Quit);
    app.target_file = "b".to_string();
    assert_eq!(handle_key(&mut app, Key::Esc, 5), Action::Continue);
    assert_eq!(app.mode, AppMode::DiffView);
    app.mode = AppMode::SelectingTarget;
    assert_eq!(handle_key(&mut app, Key::Char('q'), 5), Action::Continue);
    assert_eq!(app.mode, AppMode::DiffView);
}

#[test]
fn choosing_both_files_leads_to_the_diff() {
    let mut app = App::new_empty(AppMode::SelectingSource, browser());
    app.file_browser.selected_index = 2;
    assert_eq!(
        handle_key(&mut app, Key::Enter, 5),
        Action::ListDirectory { report_failure: false }
    );
    assert_eq!(app.source_file, "/work/a.txt");
    assert_eq!(app.mode, AppMode::SelectingTarget);
    assert_eq!(
        app.status_message,
        Some("Source: /work/a.txt - Now select target file".to_string())
    );

    app.file_browser.selected_index = 3;
    assert_eq!(handle_key(&mut app, Key::Enter, 5), Action::LoadDiff);
    assert_eq!(app.target_file, "/work/b.txt");
    assert_eq!(app.mode, AppMode::SelectingTarget);

    app.scroll_offset = 3;
    app.files_loaded(Ok(("one\ntwo\n".to_string(), "one\n2\n".to_string())));
    assert_eq!(app.mode, AppMode::DiffView);
    assert_eq!(app.status_message, Some("Target file updated: /work/b.txt".to_string()));
    assert_eq!(app.diff_lines.len(), 3);
    assert_eq!(app.scroll_offset, 0);
}

#[test]
fn choosing_the_target_first_asks_for_the_source() {
    let mut app = App::new_empty(AppMode::SelectingTarget, browser());
    app.file_browser.selected_index = 3;
    assert_eq!(
        handle_file_selection(&mut app),
        Action::ListDirectory { report_failure: false }
    );
    assert_eq!(app.target_file, "/work/b.txt");
    assert_eq!(app.mode, AppMode::SelectingSource);
    assert_eq!(
        app.status_message,
        Some("Target: /work/b.txt - Now select source file".to_string())
    );
    app.file_browser.selected_index = 2;
    assert_eq!(handle_file_selection(&mut app), Action::LoadDiff);
    assert_eq!(app.source_file, "/work/a.txt");
    app.files_loaded(Ok(("x\n".to_string(), "x\n".to_string())));
    assert_eq!(app.status_message, Some("Source file updated: /work/a.txt".to_string()));
    assert_eq!(app.mode, AppMode::DiffView);
}

#[test]
fn entering_a_directory_asks_for_its_listing() {
    let mut app = App::new_empty(AppMode::SelectingSource, browser());
    app.file_browser.selected_index = 1;
    assert_eq!(
        handle_key(&mut app, Key::Enter, 5),
        Action::ListDirectory { report_failure: true }
    );
    assert_eq!(app.file_browser.current_dir, "/work/docs");
    assert!(app.file_browser.entries.is_empty());
    assert_eq!(app.mode, AppMode::SelectingSource);
    assert_eq!(app.source_file, "");
    app.listing_failed("permission denied");
    assert_eq!(app.status_message, Some("Error: permission denied".to_string()));
}

#[test]
fn failed_load_keeps_the_old_model() {
    let mut app = numbered(10);
    app.mode = AppMode::SelectingSource;
    app.scroll_offset = 4;
    app.cursor_position = 5;
    app.selection_start = Some(5);
    app.selection_end = Some(6);
    app.files_loaded(Err("No such file or directory".to_string()));
    assert_eq!(app.mode, AppMode::DiffView);
    assert_eq!(
        app.status_message,
        Some("Error loading files: No such file or directory".to_string())
    );
    assert_eq!(app.diff_lines.len(), 10);
    assert_eq!(app.scroll_offset, 4);
    assert_eq!(app.cursor_position, 5);
    assert_eq!(app.selection_start, Some(5));
    assert_eq!(app.selection_end, Some(6));
}

#[test]
fn outcomes_of_copy_and_export_are_shown() {
    let mut app = sample_app();
    app.copy_finished(Ok(()));
    assert_eq!(app.status_message, Some("Diff copied to clipboard!".to_string()));
    app.copy_finished(Err("Failed to copy to clipboard: busy".to_string()));
    assert_eq!(
        app.status_message,
        Some("Error: Failed to copy to clipboard: busy".to_string())
    );
    app.export_finished(Ok("diff_12.patch".to_string()));
    assert_eq!(app.status_message, Some("Diff exported to diff_12.patch".to_string()));
    app.export_finished(Err("Failed to write to file: disk full".to_string()));
    assert_eq!(
        app.status_message,
        Some("Error: Failed to write to file: disk full".to_string())
    );
    app.enter_selection_mode();
    app.copy_finished(Ok(()));
    assert_eq!(app.status_message, Some("Selection copied to clipboard!".to_string()));
    app.export_finished(Ok("diff_13.patch".to_string()));
    assert_eq!(app.status_message, Some("Selection exported to diff_13.patch".to_string()));
}
