use cache_sweep::input::{handle_key, Action, Key, KeyInput};
use cache_sweep::state::{App, Panel, SortOrder};

fn key(code: Key) -> KeyInput {
    KeyInput { key: code, ctrl: false }
}

fn key_ctrl(code: Key) -> KeyInput {
    KeyInput { key: code, ctrl: true }
}

fn app_in_analytics() -> App {
    let mut app = App::new(false, SortOrder::Size);
    app.panel = Panel::Analytics;
    app.analytics_scroll = 5;
    app
}

fn app_in_results() -> App {
    App::new(false, SortOrder::Size)
}

// === Analytics panel key handling ===

#[test]
fn test_analytics_a_returns_to_results() {
    let mut app = app_in_analytics();
    let action = handle_key(key(Key::Char('a')), &mut app);

    assert_eq!(action, Action::Continue);
    assert_eq!(app.panel, Panel::Results);
}

#[test]
fn test_analytics_esc_returns_to_results() {
    let mut app = app_in_analytics();
    let action = handle_key(key(Key::Esc), &mut app);

    assert_eq!(action, Action::Continue);
    assert_eq!(app.panel, Panel::Results);
}

#[test]
fn test_analytics_q_quits() {
    let mut app = app_in_analytics();
    let action = handle_key(key(Key::Char('q')), &mut app);

    assert_eq!(action, Action::Quit);
}

#[test]
fn test_analytics_ctrl_c_quits() {
    let mut app = app_in_analytics();
    let action = handle_key(key_ctrl(Key::Char('c')), &mut app);

    assert_eq!(action, Action::Quit);
}

#[test]
fn test_analytics_up_scrolls_up() {
    let mut app = app_in_analytics();
    app.analytics_scroll = 5;

    handle_key(key(Key::Up), &mut app);
    assert_eq!(app.analytics_scroll, 4);
}

#[test]
fn test_analytics_k_scrolls_up() {
    let mut app = app_in_analytics();
    app.analytics_scroll = 5;

    handle_key(key(Key::Char('k')), &mut app);
    assert_eq!(app.analytics_scroll, 4);
}

#[test]
fn test_analytics_scroll_up_stops_at_zero() {
    let mut app = app_in_analytics();
    app.analytics_scroll = 0;

    handle_key(key(Key::Up), &mut app);
    assert_eq!(app.analytics_scroll, 0);
}

#[test]
fn test_analytics_down_scrolls_down() {
    let mut app = app_in_analytics();
    app.analytics_scroll = 0;

    handle_key(key(Key::Down), &mut app);
    assert_eq!(app.analytics_scroll, 1);
}

#[test]
fn test_analytics_j_scrolls_down() {
    let mut app = app_in_analytics();
    app.analytics_scroll = 0;

    handle_key(key(Key::Char('j')), &mut app);
    assert_eq!(app.analytics_scroll, 1);
}

#[test]
fn test_analytics_page_up_scrolls_by_10() {
    let mut app = app_in_analytics();
    app.analytics_scroll = 15;

    handle_key(key(Key::PageUp), &mut app);
    assert_eq!(app.analytics_scroll, 5);
}

#[test]
fn test_analytics_u_scrolls_by_10() {
    let mut app = app_in_analytics();
    app.analytics_scroll = 15;

    handle_key(key(Key::Char('u')), &mut app);
    assert_eq!(app.analytics_scroll, 5);
}

#[test]
fn test_analytics_home_goes_to_top() {
    let mut app = app_in_analytics();
    app.analytics_scroll = 50;

    handle_key(key(Key::Home), &mut app);
    assert_eq!(app.analytics_scroll, 0);
}

// === Opening analytics from Results ===

#[test]
fn test_results_a_opens_analytics() {
    let mut app = app_in_results();
    assert_eq!(app.panel, Panel::Results);

    handle_key(key(Key::Char('a')), &mut app);

    assert_eq!(app.panel, Panel::Analytics);
    assert_eq!(app.analytics_scroll, 0);
}

#[test]
fn test_results_a_resets_scroll() {
    let mut app = app_in_results();
    app.analytics_scroll = 50;

    handle_key(key(Key::Char('a')), &mut app);

    assert_eq!(app.analytics_scroll, 0);
}

#[test]
fn test_info_panel_a_does_not_open_analytics() {
    let mut app = app_in_results();
    app.panel = Panel::Info;

    handle_key(key(Key::Char('a')), &mut app);

    assert_eq!(app.panel, Panel::Info);
}

// === Mode transitions ===

#[test]
fn test_slash_enters_search_mode() {
    let mut app = app_in_results();
    let action = handle_key(key(Key::Char('/')), &mut app);

    assert_eq!(action, Action::Continue);
    assert_eq!(app.mode, cache_sweep::state::Mode::Search);
    assert_eq!(app.search_query, "");
}

#[test]
fn test_search_typing_and_escape() {
    let mut app = app_in_results();
    handle_key(key(Key::Char('/')), &mut app);
    handle_key(key(Key::Char('a')), &mut app);
    handle_key(key(Key::Char('b')), &mut app);
    assert_eq!(app.search_query, "ab");
    assert!(app.needs_filter);

    handle_key(key(Key::Backspace), &mut app);
    assert_eq!(app.search_query, "a");

    handle_key(key(Key::Esc), &mut app);
    assert_eq!(app.mode, cache_sweep::state::Mode::Normal);
    assert_eq!(app.search_query, "");
}

#[test]
fn test_space_requests_delete() {
    let mut app = app_in_results();
    let action = handle_key(key(Key::Char(' ')), &mut app);
    assert_eq!(action, Action::Delete);
}

#[test]
fn test_s_cycles_sort_order() {
    let mut app = app_in_results();
    assert_eq!(app.sort_order, SortOrder::Size);

    handle_key(key(Key::Char('s')), &mut app);
    assert_eq!(app.sort_order, SortOrder::Path);
    assert_eq!(app.sort_flash, 5);

    handle_key(key(Key::Char('s')), &mut app);
    assert_eq!(app.sort_order, SortOrder::Age);

    handle_key(key(Key::Char('s')), &mut app);
    assert_eq!(app.sort_order, SortOrder::Size);
}

#[test]
fn test_multi_select_enter_with_selection() {
    let mut app = app_in_results();
    app.add_results(vec![cache_sweep::scan::ScanResult {
        path: "/p/node_modules".to_string(),
        size: Some(10),
        file_count: None,
        modified: None,
        is_sensitive: false,
    }]);

    handle_key(key(Key::Char('t')), &mut app);
    assert_eq!(app.mode, cache_sweep::state::Mode::MultiSelect);

    // Enter with nothing selected does nothing
    let action = handle_key(key(Key::Enter), &mut app);
    assert_eq!(action, Action::Continue);

    // Toggle the item under the cursor, then Enter requests batch deletion
    handle_key(key(Key::Char(' ')), &mut app);
    assert!(app.results[0].is_selected);
    let action = handle_key(key(Key::Enter), &mut app);
    assert_eq!(action, Action::DeleteSelected);
}
