use logr::pattern::build_pattern;
use logr::state::{handle_dialog_event, handle_key, handle_main_event, AppState, KeyCode};
use logr::view::max_start;

fn app_with_patterns(ignore_case: bool) -> AppState {
    let patterns = vec![
        build_pattern("foo".to_string(), true).expect("pattern build failed"),
        build_pattern("bar".to_string(), true).expect("pattern build failed"),
    ];
    AppState::new(patterns, ignore_case)
}

#[test]
fn dialog_enter_adds_pattern_and_closes() {
    let mut app = app_with_patterns(false);
    app.dialog_open = true;
    app.input = "new".to_string();

    let result = handle_dialog_event(&mut app, KeyCode::Enter, false, true)
        .expect("dialog handler failed");

    assert!(result.is_none());
    assert!(!app.dialog_open);
    assert!(app.input.is_empty());
    assert!(app.pattern_error.is_none());
    assert_eq!(app.patterns.len(), 3);
    assert_eq!(app.patterns[2].pattern, "new");
    assert!(app.patterns[2].case_sensitive);
}

#[test]
fn dialog_toggle_case_sensitive() {
    let mut app = app_with_patterns(false);
    app.dialog_open = true;
    app.selected = 0;

    let result = handle_dialog_event(&mut app, KeyCode::Left, false, true)
        .expect("dialog handler failed");

    assert!(result.is_none());
    assert!(!app.patterns[0].case_sensitive);
    assert!(app.patterns[0].is_match(&b"FOO".to_vec()));
}

#[test]
fn dialog_delete_removes_pattern() {
    let mut app = app_with_patterns(false);
    app.dialog_open = true;
    app.selected = 0;

    let result = handle_dialog_event(&mut app, KeyCode::Delete, false, true)
        .expect("dialog handler failed");

    assert!(result.is_none());
    assert_eq!(app.patterns.len(), 1);
    assert_eq!(app.patterns[0].pattern, "bar");
    assert_eq!(app.selected, 0);
}

#[test]
fn dialog_backspace_moves_selection_to_input() {
    let mut app = app_with_patterns(false);
    app.dialog_open = true;
    app.selected = 0;
    app.input = "ab".to_string();

    let result = handle_dialog_event(&mut app, KeyCode::Backspace, false, true)
        .expect("dialog handler failed");

    assert!(result.is_none());
    assert_eq!(app.input, "a");
    assert_eq!(app.selected, app.patterns.len());
}

#[test]
fn main_open_dialog_resets_state() {
    let mut app = app_with_patterns(false);
    app.dialog_open = false;
    app.input = "x".to_string();
    app.pattern_error = Some("err".to_string());

    let result = handle_main_event(&mut app, 0, 0, KeyCode::Char('p'), false, false, true);

    assert!(result.is_none());
    assert!(app.dialog_open);
    assert_eq!(app.selected, 0);
    assert!(app.input.is_empty());
    assert!(app.pattern_error.is_none());
}

#[test]
fn main_scroll_up_breaks_follow() {
    let mut app = app_with_patterns(false);
    let total_lines = 100;
    let view_height = 10;
    app.follow = true;
    app.scroll = 0;

    let result = handle_main_event(
        &mut app,
        total_lines,
        view_height,
        KeyCode::Up,
        false,
        false,
        true,
    );

    assert!(result.is_none());
    assert!(!app.follow);
    assert_eq!(
        app.scroll,
        max_start(total_lines, view_height).saturating_sub(1)
    );
}

#[test]
fn main_scroll_down_to_follow() {
    let mut app = app_with_patterns(false);
    let total_lines = 100;
    let view_height = 10;
    let max_start = max_start(total_lines, view_height);
    app.follow = false;
    app.scroll = max_start;

    let result = handle_main_event(
        &mut app,
        total_lines,
        view_height,
        KeyCode::Down,
        false,
        false,
        true,
    );

    assert!(result.is_none());
    assert!(app.follow);
    assert_eq!(app.scroll, max_start);
}

#[test]
fn main_home_end_positions() {
    let mut app = app_with_patterns(false);
    let total_lines = 40;
    let view_height = 10;

    let _ = handle_main_event(
        &mut app,
        total_lines,
        view_height,
        KeyCode::Home,
        false,
        false,
        true,
    );
    assert!(!app.follow);
    assert_eq!(app.scroll, 0);

    let _ = handle_main_event(
        &mut app,
        total_lines,
        view_height,
        KeyCode::End,
        false,
        false,
        true,
    );
    assert!(app.follow);
    assert_eq!(app.scroll, max_start(total_lines, view_height));
}

#[test]
fn main_quit_keys_exit() {
    let mut app = app_with_patterns(false);
    let result = handle_main_event(&mut app, 10, 5, KeyCode::Char('q'), false, false, true);
    let r = result.expect("quit should produce a result");
    assert!(r.exit);
    assert!(r.redraw);

    let mut app = app_with_patterns(false);
    let result = handle_main_event(&mut app, 10, 5, KeyCode::Char('c'), true, false, false);
    let r = result.expect("ctrl-c should produce a result");
    assert!(r.exit);
    assert!(!r.redraw);
}

#[test]
fn main_wrap_toggles() {
    let mut app = app_with_patterns(false);
    assert!(!app.wrap);
    let _ = handle_main_event(&mut app, 0, 0, KeyCode::Char('w'), false, false, true);
    assert!(app.wrap);
    let _ = handle_main_event(&mut app, 0, 0, KeyCode::Char('w'), false, false, true);
    assert!(!app.wrap);
}

#[test]
fn main_page_keys_move_half_window() {
    let mut app = app_with_patterns(false);
    let total_lines = 100;
    let view_height = 10;
    app.follow = true;

    let _ = handle_main_event(
        &mut app,
        total_lines,
        view_height,
        KeyCode::PageUp,
        true,
        false,
        true,
    );
    assert!(!app.follow);
    assert_eq!(app.scroll, 85);

    let _ = handle_main_event(
        &mut app,
        total_lines,
        view_height,
        KeyCode::PageDown,
        true,
        false,
        true,
    );
    assert_eq!(app.scroll, 90);
    assert!(app.follow);
}

#[test]
fn follow_reengages_at_bottom_and_stays() {
    let mut app = app_with_patterns(false);
    let total_lines = 100;
    let view_height = 10;
    let bottom = max_start(total_lines, view_height);
    app.follow = true;
    app.scroll = 0;

    let _ = handle_main_event(
        &mut app,
        total_lines,
        view_height,
        KeyCode::Down,
        false,
        false,
        true,
    );
    assert_eq!(app.scroll, bottom);
    assert!(app.follow);

    let _ = handle_main_event(
        &mut app,
        total_lines,
        view_height,
        KeyCode::Down,
        false,
        false,
        true,
    );
    assert_eq!(app.scroll, bottom);
    assert!(app.follow);
}

#[test]
fn dialog_invalid_pattern_keeps_dialog_open() {
    let mut app = app_with_patterns(false);
    app.dialog_open = true;
    app.input = "(".to_string();

    let result = handle_dialog_event(&mut app, KeyCode::Enter, false, true)
        .expect("dialog handler failed");

    assert!(result.is_none());
    assert!(app.dialog_open);
    assert_eq!(app.patterns.len(), 2);
    assert_eq!(app.input, "(");
    let err = app.pattern_error.expect("error should be set");
    assert!(err.starts_with("Invalid pattern: "));
}

#[test]
fn dialog_blank_enter_closes_without_adding() {
    let mut app = app_with_patterns(false);
    app.dialog_open = true;
    app.input = "   ".to_string();

    let result = handle_dialog_event(&mut app, KeyCode::Enter, false, true)
        .expect("dialog handler failed");

    assert!(result.is_none());
    assert!(!app.dialog_open);
    assert!(app.pattern_error.is_none());
    assert_eq!(app.patterns.len(), 2);
}

#[test]
fn dialog_delete_last_pattern_resets_selection() {
    let patterns = vec![build_pattern("solo".to_string(), true).expect("pattern build failed")];
    let mut app = AppState::new(patterns, false);
    app.dialog_open = true;
    app.selected = 0;

    let result = handle_dialog_event(&mut app, KeyCode::Delete, false, true)
        .expect("dialog handler failed");

    assert!(result.is_none());
    assert_eq!(app.patterns.len(), 0);
    assert_eq!(app.selected, 0);
}

#[test]
fn dialog_up_down_move_selection() {
    let mut app = app_with_patterns(false);
    app.dialog_open = true;
    app.selected = 0;

    let _ = handle_dialog_event(&mut app, KeyCode::Down, false, true).expect("down failed");
    assert_eq!(app.selected, 1);
    let _ = handle_dialog_event(&mut app, KeyCode::Down, false, true).expect("down failed");
    assert_eq!(app.selected, 2);
    let _ = handle_dialog_event(&mut app, KeyCode::Down, false, true).expect("down failed");
    assert_eq!(app.selected, 2);
    let _ = handle_dialog_event(&mut app, KeyCode::Up, false, true).expect("up failed");
    assert_eq!(app.selected, 1);
}

#[test]
fn dialog_escape_closes_and_clears() {
    let mut app = app_with_patterns(false);
    app.dialog_open = true;
    app.input = "half-typed".to_string();
    app.pattern_error = Some("Invalid pattern: oops".to_string());

    let result = handle_dialog_event(&mut app, KeyCode::Esc, false, true)
        .expect("dialog handler failed");

    assert!(result.is_none());
    assert!(!app.dialog_open);
    assert!(app.input.is_empty());
    assert!(app.pattern_error.is_none());
    assert_eq!(app.patterns.len(), 2);
}

#[test]
fn dialog_ctrl_c_exits() {
    let mut app = app_with_patterns(false);
    app.dialog_open = true;

    let result = handle_dialog_event(&mut app, KeyCode::Char('c'), true, true)
        .expect("dialog handler failed");

    let r = result.expect("ctrl-c should exit");
    assert!(r.exit);
}

#[test]
fn dialog_typing_appends_and_focuses_input() {
    let mut app = app_with_patterns(false);
    app.dialog_open = true;
    app.selected = 1;

    let _ = handle_dialog_event(&mut app, KeyCode::Char('x'), false, true).expect("char failed");
    let _ = handle_dialog_event(&mut app, KeyCode::Char('y'), false, true).expect("char failed");

    assert_eq!(app.input, "xy");
    assert_eq!(app.selected, app.patterns.len());
}

#[test]
fn handle_key_routes_by_dialog_state() {
    let mut app = app_with_patterns(false);
    app.dialog_open = false;
    let _ = handle_key(&mut app, 0, 0, KeyCode::Char('p'), false, false, true)
        .expect("router failed");
    assert!(app.dialog_open);

    let _ = handle_key(&mut app, 0, 0, KeyCode::Char('n'), false, false, true)
        .expect("router failed");
    assert_eq!(app.input, "n");

    let _ = handle_key(&mut app, 0, 0, KeyCode::Esc, false, false, true).expect("router failed");
    assert!(!app.dialog_open);
}

#[test]
fn case_toggle_flips_matching() {
    let mut app = app_with_patterns(false);
    app.dialog_open = true;
    app.selected = 0;

    assert!(!app.patterns[0].is_match(&b"FOO".to_vec()));
    let _ = handle_dialog_event(&mut app, KeyCode::Right, false, true).expect("toggle failed");
    assert!(app.patterns[0].is_match(&b"FOO".to_vec()));
    let _ = handle_dialog_event(&mut app, KeyCode::Right, false, true).expect("toggle failed");
    assert!(!app.patterns[0].is_match(&b"FOO".to_vec()));
}

#[test]
fn scroll_keys_are_noops_on_empty_buffer() {
    let mut app = app_with_patterns(false);
    app.follow = true;
    app.scroll = 0;

    for key in [
        KeyCode::Up,
        KeyCode::Down,
        KeyCode::Home,
        KeyCode::End,
    ] {
        let result = handle_main_event(&mut app, 0, 10, key, false, false, true);
        assert!(result.is_none());
        assert!(app.follow);
        assert_eq!(app.scroll, 0);
    }
}

#[test]
fn zero_height_window_never_scrolls() {
    let mut app = app_with_patterns(false);
    app.follow = true;

    let _ = handle_main_event(&mut app, 5, 0, KeyCode::Up, false, false, true);
    assert_eq!(app.scroll, 0);
    assert!(!app.follow);

    let _ = handle_main_event(&mut app, 5, 0, KeyCode::Down, false, false, true);
    assert_eq!(app.scroll, 0);
    assert!(app.follow);
}
