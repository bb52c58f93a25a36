use std::time::SystemTime;
use try_rs::commands::{dialog_command_of, DialogCommand, DialogKind, Key, KeyPress};
use try_rs::input_field::Edit;
use try_rs::keys::KeyInput;
use try_rs::selector::{
    key_event_from_test_input, Dialog, KeyOutcome, MatchRow, SelectionResult, TestFlags, TryEntry,
    TrySelector,
};
use try_rs::width::strip_ansi;

fn row(name: &str, dir: &str) -> MatchRow {
    let date_prefix = if name.len() > 11 && name.as_bytes()[4] == b'-' && name.as_bytes()[10] == b'-' {
        Some(name[..10].to_string())
    } else {
        None
    };
    MatchRow {
        data: TryEntry {
            name: name.to_string(),
            path: format!("{}/{}", dir, name),
            is_symlink: false,
            mtime: SystemTime::now(),
            date_prefix,
        },
        positions: Vec::new(),
        score_text: "1.0".to_string(),
    }
}

fn selector(names: &[&str]) -> TrySelector {
    let dir = "/nonexistent-try-dir-for-tests";
    let rows = names.iter().map(|n| row(n, dir)).collect();
    TrySelector::new(
        dir,
        rows,
        80,
        24,
        Some("/projects".to_string()),
        TestFlags { test_no_cls: true, test_keys: vec![] },
    )
}

fn entries(n: usize) -> Vec<String> {
    (0..n).map(|i| format!("entry-{}", i)).collect()
}

fn ctrl(c: char) -> KeyPress {
    KeyPress { key: Key::Char(c), ctrl: true }
}

fn key(k: Key) -> KeyPress {
    KeyPress { key: k, ctrl: false }
}

fn typed(c: char) -> KeyPress {
    KeyPress { key: Key::Char(c), ctrl: false }
}

#[test]
fn tryselector_new_initializes_state() {
    let selector = selector(&["alpha", "beta", "gamma"]);
    assert_eq!(selector.tries.len(), 3);
    assert_eq!(selector.cursor_pos, 0);
    assert_eq!(selector.scroll_offset, 0);
    assert!(selector.needs_redraw);
    assert!(matches!(selector.dialog, Dialog::Closed));
}

#[test]
fn scroll_offset_adjusts_when_cursor_moves_down() {
    let names = entries(30);
    let refs: Vec<&str> = names.iter().map(|s| s.as_str()).collect();
    let mut selector = selector(&refs);
    selector.screen.height = 13;
    selector.cursor_pos = 15;
    selector.adjust_scroll();
    assert!(selector.scroll_offset >= 6);
    assert!(selector.cursor_pos < selector.scroll_offset + selector.body_height());
}

#[test]
fn scroll_offset_clamped_to_max() {
    let names = entries(5);
    let refs: Vec<&str> = names.iter().map(|s| s.as_str()).collect();
    let mut selector = selector(&refs);
    selector.screen.height = 13;
    selector.scroll_offset = 100;
    selector.adjust_scroll();
    assert_eq!(selector.scroll_offset, 0);
}

#[test]
fn move_cursor_up_decrements_position() {
    let names = entries(5);
    let refs: Vec<&str> = names.iter().map(|s| s.as_str()).collect();
    let mut selector = selector(&refs);
    selector.cursor_pos = 3;
    selector.move_cursor_up();
    assert_eq!(selector.cursor_pos, 2);
}

#[test]
fn move_cursor_down_increments_position() {
    let names = entries(5);
    let refs: Vec<&str> = names.iter().map(|s| s.as_str()).collect();
    let mut selector = selector(&refs);
    selector.cursor_pos = 2;
    selector.move_cursor_down();
    assert_eq!(selector.cursor_pos, 3);
}

#[test]
fn cursor_clamped_at_boundaries() {
    let names = entries(3);
    let refs: Vec<&str> = names.iter().map(|s| s.as_str()).collect();
    let mut selector = selector(&refs);
    selector.cursor_pos = 0;
    selector.move_cursor_up();
    assert_eq!(selector.cursor_pos, 0);
    selector.cursor_pos = 2;
    selector.move_cursor_down();
    assert_eq!(selector.cursor_pos, 2);
}

#[test]
fn apply_filter_resets_cursor() {
    let mut selector = selector(&["alpha", "beta", "gamma"]);
    selector.cursor_pos = 2;
    selector.input_field.insert_char('a');
    selector.apply_filter(None);
    assert_eq!(selector.cursor_pos, 0);
    assert_eq!(selector.scroll_offset, 0);
    assert_eq!(selector.tries.len(), 3);
    selector.apply_filter(Some(vec![row("alpha", "/t")]));
    assert_eq!(selector.tries.len(), 1);
}

#[test]
fn typing_asks_for_refilter() {
    let mut selector = selector(&["alpha"]);
    assert_eq!(selector.handle_key(typed('a')), KeyOutcome::Refilter);
    assert_eq!(selector.input_field.text(), "a");
    assert_eq!(selector.handle_key(key(Key::Backspace)), KeyOutcome::Refilter);
    assert_eq!(selector.input_field.text(), "");
    assert_eq!(selector.handle_key(typed('!')), KeyOutcome::Continue);
    assert_eq!(selector.input_field.text(), "");
}

#[test]
fn create_from_name_applies_token_expansion() {
    let selector = selector(&[]);
    let result = selector.create_from_name("test-{date}").unwrap();
    let name = result.rsplit('/').next().unwrap();
    assert!(name.contains("test-"));
    assert!(name.starts_with("20"));
}

#[test]
fn create_from_name_adds_date_prefix() {
    let selector = selector(&[]);
    let result = selector.create_from_name("myproject").unwrap();
    let name = result.rsplit('/').next().unwrap();
    assert!(name.starts_with("20"));
    assert!(name.contains("-myproject"));
    assert!(name.matches('-').count() >= 3);
}

#[test]
fn enter_selects_entry_under_cursor() {
    let mut selector = selector(&["alpha", "beta"]);
    selector.handle_key(key(Key::Down));
    assert_eq!(
        selector.handle_key(key(Key::Enter)),
        KeyOutcome::Exit(SelectionResult::Cd(
            "/nonexistent-try-dir-for-tests/beta".to_string()
        ))
    );
}

#[test]
fn enter_with_query_and_no_rows_creates_try() {
    let mut selector = selector(&[]);
    selector.handle_key(typed('x'));
    match selector.handle_key(key(Key::Enter)) {
        KeyOutcome::Exit(SelectionResult::Mkdir(p)) => {
            assert!(p.starts_with("/nonexistent-try-dir-for-tests/20"));
            assert!(p.ends_with("-x"));
        }
        other => panic!("unexpected {:?}", other),
    }
}

#[test]
fn ctrl_t_with_empty_query_prompts() {
    let mut selector = selector(&["alpha"]);
    assert_eq!(selector.handle_key(ctrl('t')), KeyOutcome::PromptName);
    assert_eq!(selector.create_from_prompt("   "), KeyOutcome::Continue);
    match selector.create_from_prompt("  idea ") {
        KeyOutcome::Exit(SelectionResult::Mkdir(p)) => assert!(p.ends_with("-idea")),
        other => panic!("unexpected {:?}", other),
    }
}

#[test]
fn esc_cancels_selection() {
    let mut selector = selector(&["alpha"]);
    assert_eq!(
        selector.handle_key(key(Key::Esc)),
        KeyOutcome::Exit(SelectionResult::Cancelled)
    );
}

#[test]
fn toggle_delete_mode_on_ctrl_d() {
    let mut selector = selector(&["test1"]);
    assert!(!selector.delete_mode);
    let result = selector.handle_key(ctrl('d'));
    assert_eq!(result, KeyOutcome::Continue);
    assert!(selector.delete_mode);
}

#[test]
fn mark_entries_in_delete_mode() {
    let mut selector = selector(&["test1", "test2"]);
    selector.handle_key(ctrl('d'));
    assert!(selector.delete_mode);
    assert_eq!(selector.marked_for_delete.len(), 0);

    selector.handle_key(ctrl('d'));
    assert_eq!(selector.marked_for_delete.len(), 1);

    selector.cursor_pos = 1;
    selector.handle_key(ctrl('d'));
    assert_eq!(selector.marked_for_delete.len(), 2);

    selector.cursor_pos = 0;
    selector.handle_key(ctrl('d'));
    assert_eq!(selector.marked_for_delete.len(), 1);
}

#[test]
fn esc_cancels_delete_mode() {
    let mut selector = selector(&["test1"]);
    selector.handle_key(ctrl('d'));
    selector.handle_key(ctrl('d'));
    assert!(selector.delete_mode);
    assert_eq!(selector.marked_for_delete.len(), 1);

    let result = selector.handle_key(key(Key::Esc));
    assert_eq!(result, KeyOutcome::Continue);
    assert!(!selector.delete_mode);
    assert_eq!(selector.marked_for_delete.len(), 0);
}

#[test]
fn unmarking_last_entry_leaves_delete_mode() {
    let mut selector = selector(&["test1"]);
    selector.handle_key(ctrl('d'));
    selector.handle_key(ctrl('d'));
    selector.handle_key(ctrl('d'));
    assert!(!selector.delete_mode);
    assert!(selector.marked_for_delete.is_empty());
}

#[test]
fn confirming_delete_with_yes_exits_with_paths() {
    let mut selector = selector(&["test1", "test2"]);
    selector.handle_key(ctrl('d'));
    selector.handle_key(ctrl('d'));
    assert_eq!(selector.handle_key(key(Key::Enter)), KeyOutcome::Continue);
    assert!(matches!(selector.dialog, Dialog::Confirm { .. }));
    for c in "YES".chars() {
        selector.handle_key(typed(c));
    }
    assert_eq!(
        selector.handle_key(key(Key::Enter)),
        KeyOutcome::Exit(SelectionResult::Delete(vec![
            "/nonexistent-try-dir-for-tests/test1".to_string()
        ]))
    );
}

#[test]
fn confirming_delete_without_yes_stays_in_delete_mode() {
    let mut selector = selector(&["test1"]);
    selector.handle_key(ctrl('d'));
    selector.handle_key(ctrl('d'));
    selector.handle_key(key(Key::Enter));
    selector.handle_key(typed('n'));
    assert_eq!(selector.handle_key(key(Key::Enter)), KeyOutcome::Continue);
    assert!(matches!(selector.dialog, Dialog::Closed));
    assert!(selector.delete_mode);
    assert_eq!(selector.marked_for_delete.len(), 1);
}

#[test]
fn dialogs_cancel_on_escape_and_ctrl_c() {
    for open in ['r', 'g'] {
        let mut selector = selector(&["test1"]);
        selector.handle_key(ctrl(open));
        assert!(!matches!(selector.dialog, Dialog::Closed));
        assert_eq!(selector.handle_key(key(Key::Esc)), KeyOutcome::Continue);
        assert!(matches!(selector.dialog, Dialog::Closed));
        selector.handle_key(ctrl(open));
        selector.handle_key(ctrl('c'));
        assert!(matches!(selector.dialog, Dialog::Closed));
    }
    let mut selector = selector(&["test1"]);
    selector.handle_key(ctrl('d'));
    selector.handle_key(ctrl('d'));
    selector.handle_key(key(Key::Enter));
    assert!(matches!(selector.dialog, Dialog::Confirm { .. }));
    selector.handle_key(key(Key::Esc));
    assert!(matches!(selector.dialog, Dialog::Closed));
}

#[test]
fn ctrl_k_moves_up_even_with_search_text() {
    let mut selector = selector(&["alpha", "beta", "gamma"]);
    selector.handle_key(key(Key::Down));
    selector.handle_key(key(Key::Down));
    selector.handle_key(typed('a'));
    assert_eq!(selector.handle_key(ctrl('k')), KeyOutcome::Continue);
    assert_eq!(selector.cursor_pos, 1);
    assert_eq!(selector.input_field.text(), "a");
}

#[test]
fn rename_dialog_renames_under_tries_path() {
    let mut selector = selector(&["old"]);
    selector.handle_key(ctrl('r'));
    for _ in 0..3 {
        selector.handle_key(key(Key::Backspace));
    }
    for c in "new name".chars() {
        selector.handle_key(typed(c));
    }
    assert_eq!(
        selector.handle_key(key(Key::Enter)),
        KeyOutcome::Exit(SelectionResult::Rename(
            "/nonexistent-try-dir-for-tests/old".to_string(),
            "/nonexistent-try-dir-for-tests/new-name".to_string()
        ))
    );
}

#[test]
fn rename_dialog_reports_errors() {
    let mut selector = selector(&["old"]);
    selector.handle_key(ctrl('r'));
    selector.handle_key(ctrl('w'));
    assert_eq!(selector.handle_key(key(Key::Enter)), KeyOutcome::Continue);
    match &selector.dialog {
        Dialog::Rename { error, .. } => assert_eq!(error.as_deref(), Some("Name cannot be empty")),
        _ => panic!("dialog closed"),
    }
    selector.handle_key(typed('a'));
    selector.handle_key(typed('/'));
    selector.handle_key(typed('b'));
    selector.handle_key(key(Key::Enter));
    match &selector.dialog {
        Dialog::Rename { error, .. } => assert_eq!(error.as_deref(), Some("Name cannot contain /")),
        _ => panic!("dialog closed"),
    }
}

#[test]
fn rename_to_same_name_closes_dialog() {
    let mut selector = selector(&["same"]);
    selector.handle_key(ctrl('r'));
    assert_eq!(selector.handle_key(key(Key::Enter)), KeyOutcome::Continue);
    assert!(matches!(selector.dialog, Dialog::Closed));
}

#[test]
fn graduate_dialog_defaults_to_projects_dir() {
    let mut selector = selector(&["2024-01-01-myproject"]);
    selector.handle_key(ctrl('g'));
    match &selector.dialog {
        Dialog::Graduate { field, projects_dir, from_env, .. } => {
            assert_eq!(field.text(), "/projects/myproject");
            assert_eq!(projects_dir, "/projects");
            assert!(*from_env);
        }
        _ => panic!("no graduate dialog"),
    }
    assert_eq!(
        selector.handle_key(key(Key::Enter)),
        KeyOutcome::Exit(SelectionResult::Ascend(
            "/nonexistent-try-dir-for-tests/2024-01-01-myproject".to_string(),
            "/projects/myproject".to_string()
        ))
    );
}

#[test]
fn graduate_falls_back_to_parent_of_tries_path() {
    let mut selector = TrySelector::new(
        "/home/me/tries",
        vec![row("proj", "/home/me/tries")],
        80,
        24,
        None,
        TestFlags::default(),
    );
    selector.handle_key(ctrl('g'));
    match &selector.dialog {
        Dialog::Graduate { field, from_env, .. } => {
            assert_eq!(field.text(), "/home/me/proj");
            assert!(!*from_env);
        }
        _ => panic!("no graduate dialog"),
    }
}

#[test]
fn rename_accepts_slash_character() {
    let c = '/';
    assert!(c.is_ascii_alphanumeric() || c == '-' || c == '_' || c == '.' || c == ' ' || c == '/');
    assert_eq!(
        dialog_command_of(DialogKind::Rename, typed('/')),
        DialogCommand::Change(Edit::Insert('/'), true)
    );
}

#[test]
fn graduate_accepts_tilde_character() {
    let c = '~';
    assert!(
        c.is_ascii_alphanumeric()
            || c == '-'
            || c == '_'
            || c == '.'
            || c == ' '
            || c == '/'
            || c == '~'
    );
    assert_eq!(
        dialog_command_of(DialogKind::Graduate, typed('~')),
        DialogCommand::Change(Edit::Insert('~'), false)
    );
}

#[test]
fn graduate_strips_date_prefix() {
    let name = "2024-01-01-myproject";
    let date_prefix = Some("2024-01-01".to_string());

    let stripped = if let Some(prefix) = &date_prefix {
        name.strip_prefix(prefix.as_str())
            .and_then(|s| s.strip_prefix('-'))
            .unwrap_or(name)
    } else {
        name
    };

    assert_eq!(stripped, "myproject");
}

#[test]
fn graduate_handles_no_date_prefix() {
    let name = "myproject";
    let date_prefix: Option<String> = None;

    let stripped = if let Some(prefix) = &date_prefix {
        name.strip_prefix(prefix.as_str())
            .and_then(|s| s.strip_prefix('-'))
            .unwrap_or(name)
    } else {
        name
    };

    assert_eq!(stripped, "myproject");
}

#[test]
fn scripted_keys_map_to_key_presses() {
    assert_eq!(key_event_from_test_input(KeyInput::CtrlR), ctrl('r'));
    assert_eq!(key_event_from_test_input(KeyInput::Escape), key(Key::Esc));
    let mut selector = TrySelector::new(
        "/t",
        vec![],
        80,
        24,
        None,
        TestFlags { test_no_cls: true, test_keys: vec![KeyInput::Up, KeyInput::Char('x')] },
    );
    assert_eq!(selector.next_test_key(), Some(key(Key::Up)));
    assert_eq!(selector.next_test_key(), Some(typed('x')));
    assert_eq!(selector.next_test_key(), None);
}

#[test]
fn render_draws_header_rows_and_footer() {
    let mut selector = selector(&["2025-01-01-alpha", "beta"]);
    selector.tries[1].positions = vec![0, 1];
    let ages = vec![30, 7200];
    selector.render_with(60, 10, &ages, "2025-06-01", false);
    assert!(selector.screen.check_fits());
    let frame = strip_ansi(&selector.screen.frame(false));
    assert!(frame.contains("🧪 Try Directory Selection — ephemeral workspace manager"));
    assert!(frame.contains("just now"));
    assert!(frame.contains("Search: "));
    assert!(frame.contains("2 entries"));
    assert!(frame.contains("→ 📁 2025-01-01-alpha"));
    assert!(frame.contains("just now, 1.0"));
    assert!(frame.contains("  📁 beta"));
    assert!(frame.contains("2h ago, 1.0"));
    assert!(frame.contains("esc:quit  enter:select"));
}

#[test]
fn render_offers_new_try_for_query() {
    let mut selector = selector(&[]);
    selector.handle_key(typed('x'));
    selector.render_with(60, 10, &vec![], "2025-06-01", false);
    let frame = strip_ansi(&selector.screen.frame(false));
    assert!(frame.contains("[new] 2025-06-01-x"));
}

#[test]
fn render_in_delete_mode_shows_marks() {
    let mut selector = selector(&["a", "b"]);
    selector.handle_key(ctrl('d'));
    selector.handle_key(ctrl('d'));
    selector.render_with(70, 10, &vec![0, 0], "2025-06-01", false);
    let frame = strip_ansi(&selector.screen.frame(false));
    assert!(frame.contains("DELETE MODE"));
    assert!(frame.contains("× 📁 a"));
    assert!(frame.contains(" marked: 1 "));
}

#[test]
fn confirm_dialog_screen_lists_marked_directories() {
    let mut selector = selector(&["a", "b"]);
    selector.handle_key(ctrl('d'));
    selector.handle_key(ctrl('d'));
    selector.handle_key(key(Key::Enter));
    let screen = selector.dialog_screen(60, 12, false).unwrap();
    let frame = strip_ansi(&screen.frame(false));
    assert!(frame.contains("Delete 1 directory?"));
    assert!(frame.contains("🗑️ a"));
    assert!(frame.contains("Type YES to confirm: "));
    assert!(frame.contains("Enter: Confirm  Esc: Cancel"));
}

#[test]
fn rename_and_graduate_dialog_screens() {
    let mut selector = selector(&["old"]);
    assert!(selector.dialog_screen(60, 12, false).is_none());
    selector.handle_key(ctrl('r'));
    let frame = strip_ansi(&selector.dialog_screen(60, 12, false).unwrap().frame(false));
    assert!(frame.contains("Rename directory"));
    assert!(frame.contains("📁 old"));
    assert!(frame.contains("New name: old"));
    selector.handle_key(ctrl('c'));
    selector.handle_key(ctrl('g'));
    let frame = strip_ansi(&selector.dialog_screen(60, 12, false).unwrap().frame(false));
    assert!(frame.contains("Graduate try to project"));
    assert!(frame.contains("Destination ($TRY_PROJECTS: /projects)"));
    assert!(frame.contains("Move to: /projects/old"));
}

#[test]
fn graduate_uses_try_projects_when_set() {
    let try_path = "/tmp/try-root-for-tests";
    let mut selector = TrySelector::new(
        try_path,
        vec![row("2024-01-01-test", try_path)],
        80,
        24,
        Some("/tmp/projects-for-tests".to_string()),
        TestFlags { test_no_cls: true, test_keys: vec![] },
    );
    selector.handle_key(ctrl('g'));
    match &selector.dialog {
        Dialog::Graduate { projects_dir, from_env, .. } => {
            assert_eq!(projects_dir, "/tmp/projects-for-tests");
            assert!(*from_env);
        }
        _ => panic!("no graduate dialog"),
    }
}

#[test]
fn graduate_uses_parent_when_try_projects_unset() {
    let try_path = "/tmp/root-for-tests/tries";
    let mut selector = TrySelector::new(
        try_path,
        vec![row("2024-01-01-test", try_path)],
        80,
        24,
        None,
        TestFlags { test_no_cls: true, test_keys: vec![] },
    );
    selector.handle_key(ctrl('g'));
    match &selector.dialog {
        Dialog::Graduate { projects_dir, from_env, .. } => {
            assert_eq!(projects_dir, "/tmp/root-for-tests");
            assert!(!*from_env);
        }
        _ => panic!("no graduate dialog"),
    }
}

#[test]
fn keys_keep_cursor_in_view() {
    let dir = "/nonexistent-try-dir-for-tests";
    let names = entries(12);
    let rows = names.iter().map(|n| row(n, dir)).collect();
    let mut s = TrySelector::new(dir, rows, 40, 8, None, TestFlags::default());
    let presses = [
        key(Key::Down), key(Key::Down), key(Key::Down), key(Key::Down), key(Key::Down),
        key(Key::Down), key(Key::Down), key(Key::Down), key(Key::Down), key(Key::Down),
        key(Key::Down), key(Key::Down), key(Key::Down), key(Key::Up), ctrl('p'), ctrl('n'),
        ctrl('r'), key(Key::Esc), ctrl('k'), key(Key::Up), key(Key::Up), key(Key::Up),
    ];
    for k in presses {
        s.handle_key(k);
        let visible = s.body_height();
        assert!(s.cursor_pos < s.tries.len());
        if visible > 0 {
            assert!(s.scroll_offset <= s.cursor_pos);
            assert!(s.cursor_pos < s.scroll_offset + visible);
        }
    }
}

fn rename_to_old_x() -> TrySelector {
    let mut s = selector(&["old"]);
    s.handle_key(ctrl('r'));
    s.handle_key(typed('-'));
    s.handle_key(typed('x'));
    s
}

#[test]
fn rename_decides_by_whether_the_target_exists() {
    let mut taken = rename_to_old_x();
    assert_eq!(taken.handle_dialog_key_with(key(Key::Enter), true), KeyOutcome::Continue);
    match &taken.dialog {
        Dialog::Rename { error, .. } => assert_eq!(error.as_deref(), Some("Directory exists: old-x")),
        _ => panic!("rename dialog closed"),
    }
    let mut free = rename_to_old_x();
    assert_eq!(
        free.handle_dialog_key_with(key(Key::Enter), false),
        KeyOutcome::Exit(SelectionResult::Rename(
            "/nonexistent-try-dir-for-tests/old".to_string(),
            "/nonexistent-try-dir-for-tests/old-x".to_string()
        ))
    );
}

#[test]
fn create_from_name_with_takes_the_first_free_name() {
    let s = selector(&[]);
    let existing = vec!["2025-01-02-myproject".to_string(), "2025-01-02-feature1".to_string()];
    assert_eq!(
        s.create_from_name_with("myproject", "2025-01-02", |c: &String| existing.contains(c)),
        Some("/nonexistent-try-dir-for-tests/2025-01-02-myproject-2".to_string())
    );
    assert_eq!(
        s.create_from_name_with("feature1", "2025-01-02", |c: &String| existing.contains(c)),
        Some("/nonexistent-try-dir-for-tests/2025-01-02-feature2".to_string())
    );
    assert_eq!(
        s.create_from_name_with("fresh", "2025-01-02", |c: &String| existing.contains(c)),
        Some("/nonexistent-try-dir-for-tests/2025-01-02-fresh".to_string())
    );
}

#[test]
fn create_outcome_with_exits_with_the_new_directory() {
    let s = selector(&[]);
    let existing = vec!["2025-01-02-redis".to_string()];
    assert_eq!(
        s.create_outcome_with("redis", "2025-01-02", |c: &String| existing.contains(c)),
        KeyOutcome::Exit(SelectionResult::Mkdir(
            "/nonexistent-try-dir-for-tests/2025-01-02-redis-2".to_string()
        ))
    );
}
