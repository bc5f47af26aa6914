use cache_sweep::scan::ScanResult;
use cache_sweep::state::{App, SortOrder};

// Helper to create an App with N items for cursor tests
fn app_with_items(item_count: usize, visible_height: usize) -> App {
    let mut app = App::new(false, SortOrder::Size);
    app.visible_height = visible_height;
    app.filtered_indices = (0..item_count).collect();
    app
}

// SortOrder tests
#[test]
fn test_sort_order_from_str_size() {
    assert_eq!(SortOrder::from_str("size"), SortOrder::Size);
    assert_eq!(SortOrder::from_str("SIZE"), SortOrder::Size);
    assert_eq!(SortOrder::from_str("Size"), SortOrder::Size);
}

#[test]
fn test_sort_order_from_str_path() {
    assert_eq!(SortOrder::from_str("path"), SortOrder::Path);
    assert_eq!(SortOrder::from_str("PATH"), SortOrder::Path);
    assert_eq!(SortOrder::from_str("Path"), SortOrder::Path);
}

#[test]
fn test_sort_order_from_str_age() {
    assert_eq!(SortOrder::from_str("age"), SortOrder::Age);
    assert_eq!(SortOrder::from_str("AGE"), SortOrder::Age);
    assert_eq!(SortOrder::from_str("Age"), SortOrder::Age);
}

#[test]
fn test_sort_order_from_str_invalid_defaults_to_size() {
    assert_eq!(SortOrder::from_str("invalid"), SortOrder::Size);
    assert_eq!(SortOrder::from_str(""), SortOrder::Size);
    assert_eq!(SortOrder::from_str("foo"), SortOrder::Size);
}

// Cursor movement tests
#[test]
fn test_move_cursor_down_basic() {
    let mut app = app_with_items(50, 20);
    assert_eq!(app.cursor, 0);

    app.move_cursor(1);
    assert_eq!(app.cursor, 1);

    app.move_cursor(5);
    assert_eq!(app.cursor, 6);
}

#[test]
fn test_move_cursor_up_basic() {
    let mut app = app_with_items(50, 20);
    app.cursor = 10;

    app.move_cursor(-1);
    assert_eq!(app.cursor, 9);

    app.move_cursor(-5);
    assert_eq!(app.cursor, 4);
}

#[test]
fn test_move_cursor_does_not_go_negative() {
    let mut app = app_with_items(50, 20);
    app.cursor = 2;

    app.move_cursor(-10);
    assert_eq!(app.cursor, 0);
}

#[test]
fn test_move_cursor_does_not_exceed_list_length() {
    let mut app = app_with_items(50, 20);
    app.cursor = 45;

    app.move_cursor(10);
    assert_eq!(app.cursor, 49); // Last item
}

#[test]
fn test_move_cursor_empty_list() {
    let mut app = app_with_items(0, 20);

    app.move_cursor(1);
    assert_eq!(app.cursor, 0);

    app.move_cursor(-1);
    assert_eq!(app.cursor, 0);
}

// Scroll offset tests
#[test]
fn test_scroll_keeps_2_row_buffer_at_bottom() {
    let mut app = app_with_items(50, 20);

    // Move to position 17 - no scroll yet
    app.cursor = 17;
    app.move_cursor(0); // Trigger scroll check
    assert_eq!(app.scroll_offset, 0);

    // Move to position 18 - should trigger scroll
    app.move_cursor(1);
    assert_eq!(app.cursor, 18);
    // scroll_offset = 18 - 20 + 3 = 1
    assert_eq!(app.scroll_offset, 1);
}

#[test]
fn test_scroll_down_maintains_buffer() {
    let mut app = app_with_items(50, 20);

    // Move cursor to trigger multiple scrolls
    for _ in 0..30 {
        app.move_cursor(1);
        // Cursor should always be at most visible_height - 3 from scroll_offset
        let visible_position = app.cursor - app.scroll_offset;
        assert!(
            visible_position <= app.visible_height - 3,
            "At cursor {}, scroll_offset {}, visible_position {} exceeds limit {}",
            app.cursor,
            app.scroll_offset,
            visible_position,
            app.visible_height - 3
        );
    }
}

#[test]
fn test_scroll_up_adjusts_offset() {
    let mut app = app_with_items(50, 20);
    app.cursor = 25;
    app.scroll_offset = 10;

    // Move up past the visible area
    app.move_cursor(-20);
    assert_eq!(app.cursor, 5);
    // scroll_offset should adjust to show cursor
    assert_eq!(app.scroll_offset, 5);
}

#[test]
fn test_scroll_up_cursor_at_top() {
    let mut app = app_with_items(50, 20);
    app.cursor = 10;
    app.scroll_offset = 10;

    // Move up one - cursor goes above scroll_offset
    app.move_cursor(-1);
    assert_eq!(app.cursor, 9);
    assert_eq!(app.scroll_offset, 9);
}

#[test]
fn test_no_scroll_when_list_smaller_than_visible() {
    let mut app = app_with_items(10, 20);

    // Move to end of list
    app.move_cursor(15);
    assert_eq!(app.cursor, 9); // Last item
    assert_eq!(app.scroll_offset, 0); // No scroll needed
}

#[test]
fn test_page_down() {
    let mut app = app_with_items(100, 20);

    // Page down moves by visible_height
    app.move_cursor(20);
    assert_eq!(app.cursor, 20);
    // Should have scrolled to maintain buffer
    assert!(app.scroll_offset > 0);
}

#[test]
fn test_page_up() {
    let mut app = app_with_items(100, 20);
    app.cursor = 50;
    app.scroll_offset = 35;

    // Page up moves by -visible_height
    app.move_cursor(-20);
    assert_eq!(app.cursor, 30);
    // scroll_offset should adjust
    assert!(app.scroll_offset <= app.cursor);
}

#[test]
fn test_cursor_visible_position_never_exceeds_buffer() {
    // Comprehensive test: navigate through entire list
    let mut app = app_with_items(100, 20);

    for _ in 0..99 {
        app.move_cursor(1);

        if app.scroll_offset > 0 || app.cursor >= app.visible_height - 2 {
            let visible_pos = app.cursor - app.scroll_offset;
            assert!(
                visible_pos <= app.visible_height - 3,
                "cursor {} scroll {} visible_pos {} exceeds {}",
                app.cursor,
                app.scroll_offset,
                visible_pos,
                app.visible_height - 3
            );
        }
    }
}

// === Stable index tests (regression prevention for size calculation bug) ===

fn make_scan_result(path: &str, size: Option<u64>) -> ScanResult {
    ScanResult {
        path: path.to_string(),
        size,
        file_count: None,
        modified: None,
        is_sensitive: false,
    }
}

#[test]
fn test_results_order_stable_after_add() {
    let mut app = App::new(false, SortOrder::Size);

    // Add results with different sizes
    app.add_results(vec![
        make_scan_result("/a", Some(100)),
        make_scan_result("/b", Some(500)),
        make_scan_result("/c", Some(200)),
    ]);

    // Results should be in original order (append-only)
    assert_eq!(app.results[0].scan_result.path, "/a".to_string());
    assert_eq!(app.results[1].scan_result.path, "/b".to_string());
    assert_eq!(app.results[2].scan_result.path, "/c".to_string());
}

#[test]
fn test_filtered_indices_sorted_not_results() {
    let mut app = App::new(false, SortOrder::Size);

    app.add_results(vec![
        make_scan_result("/small", Some(100)),
        make_scan_result("/large", Some(500)),
        make_scan_result("/medium", Some(200)),
    ]);

    // Results still in original order
    assert_eq!(app.results[0].scan_result.path, "/small".to_string());
    assert_eq!(app.results[1].scan_result.path, "/large".to_string());
    assert_eq!(app.results[2].scan_result.path, "/medium".to_string());

    // But filtered_indices should be sorted by size desc: [1, 2, 0]
    assert_eq!(app.filtered_indices, vec![1, 2, 0]);
}

#[test]
fn test_update_size_uses_stable_index() {
    let mut app = App::new(false, SortOrder::Size);

    // Add results - index 0=/a, index 1=/b, index 2=/c
    app.add_results(vec![
        make_scan_result("/a", None),
        make_scan_result("/b", None),
        make_scan_result("/c", None),
    ]);

    // Simulate size calculation completing for index 1 (/b)
    app.update_size(1, 999, 10);

    // Index 1 should ALWAYS be /b, regardless of sorting
    assert_eq!(app.results[1].scan_result.path, "/b".to_string());
    assert_eq!(app.results[1].scan_result.size, Some(999));
}

#[test]
fn test_update_size_correct_after_multiple_sorts() {
    let mut app = App::new(false, SortOrder::Size);

    app.add_results(vec![
        make_scan_result("/first", Some(100)),
        make_scan_result("/second", None), // No size yet
        make_scan_result("/third", Some(300)),
    ]);

    // Change sort order multiple times
    app.sort_order = SortOrder::Path;
    app.apply_sort_and_filter();
    app.sort_order = SortOrder::Size;
    app.apply_sort_and_filter();

    // Now update size for index 1 (should still be /second)
    app.update_size(1, 500, 5);

    // Verify /second got the update, not some other item
    assert_eq!(app.results[1].scan_result.path, "/second".to_string());
    assert_eq!(app.results[1].scan_result.size, Some(500));
}

#[test]
fn test_visible_results_uses_filtered_order() {
    let mut app = App::new(false, SortOrder::Size);
    app.visible_height = 10;

    app.add_results(vec![
        make_scan_result("/small", Some(100)),
        make_scan_result("/large", Some(500)),
        make_scan_result("/medium", Some(200)),
    ]);

    let visible = app.visible_results();

    // Should be in sorted order: large, medium, small
    assert_eq!(visible[0].1.scan_result.path, "/large".to_string());
    assert_eq!(visible[1].1.scan_result.path, "/medium".to_string());
    assert_eq!(visible[2].1.scan_result.path, "/small".to_string());

    // But the indices returned should be the raw indices
    assert_eq!(visible[0].0, 1); // /large is at raw index 1
    assert_eq!(visible[1].0, 2); // /medium is at raw index 2
    assert_eq!(visible[2].0, 0); // /small is at raw index 0
}

// === Tab functionality tests ===

#[test]
fn test_target_groups_created_from_results() {
    let mut app = App::new(false, SortOrder::Size);

    app.add_results(vec![
        make_scan_result("/projects/a/node_modules", Some(100)),
        make_scan_result("/projects/b/node_modules", Some(200)),
        make_scan_result("/projects/c/.venv", Some(500)),
    ]);

    // Should have 2 groups: .venv and node_modules
    assert_eq!(app.target_groups.len(), 2);
}

#[test]
fn test_target_groups_sorted_by_size_descending() {
    let mut app = App::new(false, SortOrder::Size);

    app.add_results(vec![
        make_scan_result("/a/node_modules", Some(100)),
        make_scan_result("/b/node_modules", Some(200)),
        make_scan_result("/c/.venv", Some(500)),
        make_scan_result("/d/target", Some(50)),
    ]);

    // Groups should be sorted by total size: .venv (500), node_modules (300), target (50)
    assert_eq!(app.target_groups[0].name, ".venv");
    assert_eq!(app.target_groups[0].total_size, 500);
    assert_eq!(app.target_groups[1].name, "node_modules");
    assert_eq!(app.target_groups[1].total_size, 300);
    assert_eq!(app.target_groups[2].name, "target");
    assert_eq!(app.target_groups[2].total_size, 50);
}

#[test]
fn test_next_tab_wraps_around() {
    let mut app = App::new(false, SortOrder::Size);

    app.add_results(vec![
        make_scan_result("/a/node_modules", Some(100)),
        make_scan_result("/b/.venv", Some(200)),
    ]);

    // Start on "All" (tab 0)
    assert_eq!(app.active_tab, 0);

    // Tab through: All -> .venv -> node_modules -> All
    app.next_tab();
    assert_eq!(app.active_tab, 1); // .venv (largest)

    app.next_tab();
    assert_eq!(app.active_tab, 2); // node_modules

    app.next_tab();
    assert_eq!(app.active_tab, 0); // Back to All
}

#[test]
fn test_prev_tab_wraps_around() {
    let mut app = App::new(false, SortOrder::Size);

    app.add_results(vec![
        make_scan_result("/a/node_modules", Some(100)),
        make_scan_result("/b/.venv", Some(200)),
    ]);

    // Start on "All" (tab 0)
    assert_eq!(app.active_tab, 0);

    // Prev from All wraps to last group
    app.prev_tab();
    assert_eq!(app.active_tab, 2); // node_modules (last)

    app.prev_tab();
    assert_eq!(app.active_tab, 1); // .venv

    app.prev_tab();
    assert_eq!(app.active_tab, 0); // Back to All
}

#[test]
fn test_tab_filters_to_target_type() {
    let mut app = App::new(false, SortOrder::Size);

    app.add_results(vec![
        make_scan_result("/a/node_modules", Some(100)),
        make_scan_result("/b/node_modules", Some(200)),
        make_scan_result("/c/.venv", Some(500)),
    ]);

    // On "All" tab - should see all 3
    assert_eq!(app.active_tab, 0);
    assert_eq!(app.filtered_indices.len(), 3);

    // Switch to .venv tab (index 1, largest group)
    app.next_tab();
    assert_eq!(app.active_tab, 1);
    assert_eq!(app.filtered_indices.len(), 1);

    // Switch to node_modules tab (index 2)
    app.next_tab();
    assert_eq!(app.active_tab, 2);
    assert_eq!(app.filtered_indices.len(), 2);
}

#[test]
fn test_active_tab_subtotal_all() {
    let mut app = App::new(false, SortOrder::Size);

    app.add_results(vec![
        make_scan_result("/a/node_modules", None),
        make_scan_result("/b/.venv", None),
    ]);

    // Simulate size calculations completing (this updates total_size)
    app.update_size(0, 100, 10);
    app.update_size(1, 200, 20);

    // On "All" tab - subtotal is total_size
    assert_eq!(app.active_tab, 0);
    assert_eq!(app.active_tab_subtotal(), app.total_size);
    assert_eq!(app.active_tab_subtotal(), 300);
}

#[test]
fn test_active_tab_subtotal_specific_group() {
    let mut app = App::new(false, SortOrder::Size);

    app.add_results(vec![
        make_scan_result("/a/node_modules", Some(100)),
        make_scan_result("/b/node_modules", Some(150)),
        make_scan_result("/c/.venv", Some(500)),
    ]);

    // Switch to .venv tab
    app.next_tab();
    assert_eq!(app.active_tab_subtotal(), 500);

    // Switch to node_modules tab
    app.next_tab();
    assert_eq!(app.active_tab_subtotal(), 250);
}

#[test]
fn test_tab_resets_cursor_on_switch() {
    let mut app = App::new(false, SortOrder::Size);
    app.visible_height = 10;

    app.add_results(vec![
        make_scan_result("/a/node_modules", Some(100)),
        make_scan_result("/b/node_modules", Some(200)),
        make_scan_result("/c/.venv", Some(500)),
    ]);

    // Move cursor
    app.cursor = 2;
    app.scroll_offset = 1;

    // Switch tab - cursor should reset
    app.next_tab();
    assert_eq!(app.cursor, 0);
    assert_eq!(app.scroll_offset, 0);
}

#[test]
fn test_deleted_items_excluded_from_groups() {
    let mut app = App::new(false, SortOrder::Size);

    app.add_results(vec![
        make_scan_result("/a/node_modules", Some(100)),
        make_scan_result("/b/node_modules", Some(200)),
    ]);

    // Both in node_modules group
    assert_eq!(app.target_groups.len(), 1);
    assert_eq!(app.target_groups[0].count, 2);
    assert_eq!(app.target_groups[0].total_size, 300);

    // Delete one
    app.mark_deleted(0, 100);
    app.on_tick(); // Triggers rebuild

    // Group should now have 1 item
    assert_eq!(app.target_groups[0].count, 1);
    assert_eq!(app.target_groups[0].total_size, 200);
}

#[test]
fn test_tab_scroll_offset_adjusts_for_selection() {
    let mut app = App::new(false, SortOrder::Size);
    app.visible_group_count = 2; // Only 2 groups visible at a time

    // Create 5 different target types
    app.add_results(vec![
        make_scan_result("/a/node_modules", Some(500)),
        make_scan_result("/b/.venv", Some(400)),
        make_scan_result("/c/target", Some(300)),
        make_scan_result("/d/.next", Some(200)),
        make_scan_result("/e/__pycache__", Some(100)),
    ]);

    // Start at All (tab 0), scroll offset should be 0
    assert_eq!(app.tab_scroll_offset, 0);

    // Navigate to tab 4 (.next) - should scroll
    app.active_tab = 4;
    app.adjust_tab_scroll();

    // Scroll offset should adjust to show tab 4
    // With visible_group_count=2, offset should be 2 to show tabs 3,4
    assert!(app.tab_scroll_offset >= 2);
}

// === Tombstone and selection behaviour ===

#[test]
fn test_deleted_item_still_retrievable_by_index() {
    let mut app = App::new(false, SortOrder::Size);

    app.add_results(vec![
        make_scan_result("/a/node_modules", Some(100)),
        make_scan_result("/b/node_modules", Some(200)),
    ]);

    app.mark_deleted(0, 100);
    app.on_tick();

    // Excluded from the display...
    assert!(!app.filtered_indices.contains(&0));
    // ...but the slot is still there, tombstoned, under its original index
    assert_eq!(app.results.len(), 2);
    assert!(app.results[0].is_deleted);
    assert_eq!(app.results[0].scan_result.path, "/a/node_modules".to_string());
}

#[test]
fn test_new_ingestions_never_reuse_tombstoned_indices() {
    let mut app = App::new(false, SortOrder::Size);

    app.add_results(vec![make_scan_result("/a/node_modules", Some(100))]);
    app.mark_deleted(0, 100);
    app.on_tick();

    app.add_results(vec![make_scan_result("/b/node_modules", Some(200))]);

    // The new item got a fresh index; the tombstone is untouched
    assert_eq!(app.results.len(), 2);
    assert!(app.results[0].is_deleted);
    assert_eq!(app.results[1].scan_result.path, "/b/node_modules".to_string());
}

#[test]
fn test_selection_drops_deleted_index() {
    let mut app = App::new(false, SortOrder::Size);

    app.add_results(vec![
        make_scan_result("/a/node_modules", Some(100)),
        make_scan_result("/b/node_modules", Some(200)),
    ]);

    app.select_all();
    assert_eq!(app.selected_indices.len(), 2);

    app.mark_deleted(1, 200);
    assert!(!app.selected_indices.contains(&1));
    assert!(app.selected_indices.contains(&0));
}

#[test]
fn test_size_sort_is_stable_for_ties() {
    let mut app = App::new(false, SortOrder::Size);

    // Two items of equal size keep their ingestion order
    app.add_results(vec![
        make_scan_result("/x/node_modules", Some(200)),
        make_scan_result("/y/node_modules", Some(200)),
        make_scan_result("/z/node_modules", Some(500)),
    ]);

    assert_eq!(app.filtered_indices, vec![2, 0, 1]);

    // Re-applying the same sort moves nothing
    app.apply_sort_and_filter();
    assert_eq!(app.filtered_indices, vec![2, 0, 1]);
}

#[test]
fn test_search_filter_narrows_display() {
    let mut app = App::new(false, SortOrder::Path);

    app.add_results(vec![
        make_scan_result("/alpha/node_modules", Some(100)),
        make_scan_result("/beta/node_modules", Some(200)),
    ]);
    assert_eq!(app.filtered_indices.len(), 2);

    app.search_query = "BETA".to_string();
    app.apply_sort_and_filter();

    // Matching is case-insensitive on the lowercased path
    assert_eq!(app.filtered_indices, vec![1]);
}

#[test]
fn test_path_sort_is_ascending_lexicographic() {
    let mut app = App::new(false, SortOrder::Path);

    app.add_results(vec![
        make_scan_result("/c/node_modules", Some(1)),
        make_scan_result("/a/node_modules", Some(2)),
        make_scan_result("/b/node_modules", Some(3)),
    ]);

    assert_eq!(app.filtered_indices, vec![1, 2, 0]);
}

#[test]
fn test_age_sort_unknown_time_is_oldest() {
    let mut app = App::new(false, SortOrder::Age);

    let mut young = make_scan_result("/young/node_modules", Some(1));
    young.modified = Some(2_000);
    let mut old_one = make_scan_result("/old/node_modules", Some(1));
    old_one.modified = Some(1_000);
    let unknown = make_scan_result("/unknown/node_modules", Some(1));

    app.add_results(vec![young, old_one, unknown]);

    // Ascending by modification time, unknown treated as oldest
    assert_eq!(app.filtered_indices, vec![2, 1, 0]);
}

#[test]
fn test_size_sort_unknown_size_is_zero() {
    let mut app = App::new(false, SortOrder::Size);

    app.add_results(vec![
        make_scan_result("/unknown/node_modules", None),
        make_scan_result("/big/node_modules", Some(100)),
    ]);

    // Descending by known size; unknown counts as zero and sinks
    assert_eq!(app.filtered_indices, vec![1, 0]);
}
