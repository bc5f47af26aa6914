//! Input handling: the keys the dashboard understands, the actions they map
//! to, and the per-mode handlers that drive the application state.

use vstd::prelude::*;

use crate::display::content_line_count;
use crate::state::{
    group_views, spec_adjusted_scroll, spec_clamped_cursor, spec_clamped_tab,
    spec_display_indices, spec_moved_cursor, spec_sorted_groups, App, Mode, Panel, SortOrder,
};
use crate::text::{push_char, spec_sat_add_usize, str_chars};

verus! {

/// A keyboard key, as the dashboard distinguishes them.
#[derive(Debug, Clone, Copy, PartialEq, Eq, Structural)]
pub enum Key {
    Char(char),
    Up,
    Down,
    Left,
    Right,
    PageUp,
    PageDown,
    Home,
    End,
    Esc,
    Enter,
    Backspace,
    Delete,
    Other,
}

/// One key press, with its control modifier.
#[derive(Debug, Clone, Copy, PartialEq, Eq, Structural)]
pub struct KeyInput {
    pub key: Key,
    pub ctrl: bool,
}

/// What the event loop should do after a key press.
#[derive(Debug, Clone, Copy, PartialEq, Eq, Structural)]
pub enum Action {
    Continue,
    Quit,
    Delete,
    DeleteSelected,
    OpenInExplorer,
}

/// How far the analytics panel can scroll: its content height less one
/// screen's worth.
pub open spec fn spec_analytics_max_scroll(app: App) -> int {
    let lines = spec_sat_add_usize(
        spec_sat_add_usize(
            app.analytics.by_target@.len() as usize,
            app.analytics.by_profile@.len() as usize,
        ),
        33,
    );
    if lines >= 10 {
        lines - 10
    } else {
        0
    }
}

/// What one key does on the analytics panel.
pub open spec fn spec_analytics_key_step(key: KeyInput, pre: App, post: App, action: Action) -> bool {
    ({
            let maxs = spec_analytics_max_scroll(pre);
            let scroll = pre.analytics_scroll as int;
            match key.key {
                Key::Char(c) => {
                    if c == 'a' {
                        &&& action == Action::Continue
                        &&& post == (App { panel: Panel::Results, ..pre })
                    } else if c == 'k' {
                        &&& action == Action::Continue
                        &&& post == (App {
                            analytics_scroll: post.analytics_scroll,
                            ..pre
                        })
                        &&& post.analytics_scroll == (if scroll > 0 { scroll - 1 } else { 0int })
                    } else if c == 'j' {
                        &&& action == Action::Continue
                        &&& post == (App {
                            analytics_scroll: post.analytics_scroll,
                            ..pre
                        })
                        &&& post.analytics_scroll == (if scroll + 1 <= maxs { scroll + 1 } else { maxs })
                    } else if c == 'u' {
                        &&& action == Action::Continue
                        &&& post == (App {
                            analytics_scroll: post.analytics_scroll,
                            ..pre
                        })
                        &&& post.analytics_scroll == (if scroll >= 10 { scroll - 10 } else { 0int })
                    } else if c == 'd' {
                        &&& action == Action::Continue
                        &&& post == (App {
                            analytics_scroll: post.analytics_scroll,
                            ..pre
                        })
                        &&& post.analytics_scroll == (if scroll + 10 <= maxs { scroll + 10 } else { maxs })
                    } else if c == 'q' {
                        &&& action == Action::Quit
                        &&& post == pre
                    } else if c == 'c' && key.ctrl {
                        &&& action == Action::Quit
                        &&& post == pre
                    } else {
                        &&& action == Action::Continue
                        &&& post == pre
                    }
                },
                Key::Esc => {
                    &&& action == Action::Continue
                    &&& post == (App { panel: Panel::Results, ..pre })
                },
                Key::Up => {
                    &&& action == Action::Continue
                    &&& post == (App {
                        analytics_scroll: post.analytics_scroll,
                        ..pre
                    })
                    &&& post.analytics_scroll == (if scroll > 0 { scroll - 1 } else { 0int })
                },
                Key::Down => {
                    &&& action == Action::Continue
                    &&& post == (App {
                        analytics_scroll: post.analytics_scroll,
                        ..pre
                    })
                    &&& post.analytics_scroll == (if scroll + 1 <= maxs { scroll + 1 } else { maxs })
                },
                Key::PageUp => {
                    &&& action == Action::Continue
                    &&& post == (App {
                        analytics_scroll: post.analytics_scroll,
                        ..pre
                    })
                    &&& post.analytics_scroll == (if scroll >= 10 { scroll - 10 } else { 0int })
                },
                Key::PageDown => {
                    &&& action == Action::Continue
                    &&& post == (App {
                        analytics_scroll: post.analytics_scroll,
                        ..pre
                    })
                    &&& post.analytics_scroll == (if scroll + 10 <= maxs { scroll + 10 } else { maxs })
                },
                Key::Home => {
                    &&& action == Action::Continue
                    &&& post == (App { analytics_scroll: 0, ..pre })
                },
                Key::End => {
                    &&& action == Action::Continue
                    &&& post == (App {
                        analytics_scroll: post.analytics_scroll,
                        ..pre
                    })
                    &&& post.analytics_scroll == maxs
                },
                _ => {
                    &&& action == Action::Continue
                    &&& post == pre
                },
            }
        })
}

/// Keys on the analytics panel: scrolling, closing, quitting.
pub fn handle_analytics_key(key: KeyInput, app: &mut App) -> (action: Action)
    ensures
        spec_analytics_key_step(key, *old(app), *final(app), action),
{
    match key.key {
        Key::Char(c) => {
            if c == 'a' {
                app.panel = Panel::Results;
                Action::Continue
            } else if c == 'k' {
                app.analytics_scroll = if app.analytics_scroll > 0 {
                    app.analytics_scroll - 1
                } else {
                    0
                };
                Action::Continue
            } else if c == 'j' {
                let max_scroll = max_scroll_of(app);
                app.analytics_scroll = if app.analytics_scroll < max_scroll {
                    app.analytics_scroll + 1
                } else {
                    max_scroll
                };
                Action::Continue
            } else if c == 'u' {
                app.analytics_scroll = if app.analytics_scroll >= 10 {
                    app.analytics_scroll - 10
                } else {
                    0
                };
                Action::Continue
            } else if c == 'd' {
                let max_scroll = max_scroll_of(app);
                app.analytics_scroll = if max_scroll >= 10 && app.analytics_scroll <= max_scroll
                    - 10 {
                    app.analytics_scroll + 10
                } else {
                    max_scroll
                };
                proof {
                    assert(app.analytics_scroll == (if old(app).analytics_scroll + 10
                        <= spec_analytics_max_scroll(*old(app)) {
                        old(app).analytics_scroll + 10
                    } else {
                        spec_analytics_max_scroll(*old(app))
                    }));
                }
                Action::Continue
            } else if c == 'q' {
                Action::Quit
            } else if c == 'c' && key.ctrl {
                Action::Quit
            } else {
                Action::Continue
            }
        },
        Key::Esc => {
            app.panel = Panel::Results;
            Action::Continue
        },
        Key::Up => {
            app.analytics_scroll = if app.analytics_scroll > 0 {
                app.analytics_scroll - 1
            } else {
                0
            };
            Action::Continue
        },
        Key::Down => {
            let max_scroll = max_scroll_of(app);
            app.analytics_scroll = if app.analytics_scroll < max_scroll {
                app.analytics_scroll + 1
            } else {
                max_scroll
            };
            Action::Continue
        },
        Key::PageUp => {
            app.analytics_scroll = if app.analytics_scroll >= 10 {
                app.analytics_scroll - 10
            } else {
                0
            };
            Action::Continue
        },
        Key::PageDown => {
            let max_scroll = max_scroll_of(app);
            app.analytics_scroll = if max_scroll >= 10 && app.analytics_scroll <= max_scroll - 10 {
                app.analytics_scroll + 10
            } else {
                max_scroll
            };
            proof {
                assert(app.analytics_scroll == (if old(app).analytics_scroll + 10
                    <= spec_analytics_max_scroll(*old(app)) {
                    old(app).analytics_scroll + 10
                } else {
                    spec_analytics_max_scroll(*old(app))
                }));
            }
            Action::Continue
        },
        Key::Home => {
            app.analytics_scroll = 0;
            Action::Continue
        },
        Key::End => {
            app.analytics_scroll = max_scroll_of(app);
            Action::Continue
        },
        _ => Action::Continue,
    }
}

fn max_scroll_of(app: &App) -> (r: usize)
    ensures
        r == spec_analytics_max_scroll(*app),
{
    let lines = content_line_count(app);
    if lines >= 10 {
        lines - 10
    } else {
        0
    }
}

/// What one key does in search mode: it edits the live query, and every
/// edit defers a re-filter to the next tick.
pub open spec fn spec_search_key_step(key: KeyInput, pre: App, post: App, action: Action) -> bool {
    match key.key {
        Key::Esc => {
            &&& action == Action::Continue
            &&& post == (App {
                mode: Mode::Normal,
                search_query: post.search_query,
                needs_filter: true,
                ..pre
            })
            &&& post.search_query@ == Seq::<char>::empty()
        },
        Key::Enter => {
            &&& action == Action::Continue
            &&& post == (App { mode: Mode::Normal, needs_filter: true, ..pre })
        },
        Key::Backspace => {
            &&& action == Action::Continue
            &&& post == (App { search_query: post.search_query, needs_filter: true, ..pre })
            &&& post.search_query@ == (if pre.search_query@.len() > 0 {
                pre.search_query@.drop_last()
            } else {
                pre.search_query@
            })
        },
        Key::Char(c) => {
            &&& action == Action::Continue
            &&& post == (App { search_query: post.search_query, needs_filter: true, ..pre })
            &&& post.search_query@ == pre.search_query@.push(c)
        },
        _ => {
            &&& action == Action::Continue
            &&& post == pre
        },
    }
}

/// Keys while typing a search query.
pub fn handle_search_key(key: KeyInput, app: &mut App) -> (action: Action)
    ensures
        spec_search_key_step(key, *old(app), *final(app), action),
{
    match key.key {
        Key::Esc => {
            app.mode = Mode::Normal;
            app.search_query = String::new();
            app.needs_filter = true;
            Action::Continue
        },
        Key::Enter => {
            app.mode = Mode::Normal;
            app.needs_filter = true;
            Action::Continue
        },
        Key::Backspace => {
            let chars = str_chars(app.search_query.as_str());
            let mut shorter = String::new();
            let keep = if chars.len() > 0 {
                chars.len() - 1
            } else {
                0
            };
            let mut i: usize = 0;
            while i < keep
                invariant
                    keep <= chars@.len(),
                    i <= keep,
                    shorter@ == chars@.subrange(0, i as int),
                decreases keep - i,
            {
                push_char(&mut shorter, chars[i]);
                i = i + 1;
                proof {
                    assert(shorter@ =~= chars@.subrange(0, i as int));
                }
            }
            proof {
                if chars@.len() > 0 {
                    assert(shorter@ =~= old(app).search_query@.drop_last());
                } else {
                    assert(shorter@ =~= old(app).search_query@);
                }
            }
            app.search_query = shorter;
            app.needs_filter = true;
            Action::Continue
        },
        Key::Char(c) => {
            push_char(&mut app.search_query, c);
            app.needs_filter = true;
            Action::Continue
        },
        _ => Action::Continue,
    }
}

/// The cursor moved by `delta`, kept in view; nothing else touched.
pub open spec fn spec_moved(pre: App, post: App, delta: int) -> bool {
    &&& post.cursor == spec_moved_cursor(
        pre.cursor as int,
        delta,
        pre.filtered_indices@.len() as int,
    )
    &&& post.scroll_offset == spec_adjusted_scroll(
        post.cursor as int,
        pre.scroll_offset as int,
        pre.visible_height as int,
        pre.filtered_indices@.len() as int,
    )
    &&& post == (App { cursor: post.cursor, scroll_offset: post.scroll_offset, ..pre })
}

/// The cursor moved by a page; nothing else touched.
pub open spec fn spec_paged(pre: App, post: App, down: bool) -> bool {
    &&& post.cursor == ({
        let len = pre.filtered_indices@.len() as int;
        let maxp = if len > 0 {
            len - 1
        } else {
            0
        };
        if down {
            if pre.cursor + pre.visible_height <= maxp {
                pre.cursor + pre.visible_height
            } else {
                maxp
            }
        } else {
            if pre.cursor >= pre.visible_height {
                pre.cursor - pre.visible_height
            } else {
                0
            }
        }
    })
    &&& post.scroll_offset == spec_adjusted_scroll(
        post.cursor as int,
        pre.scroll_offset as int,
        pre.visible_height as int,
        pre.filtered_indices@.len() as int,
    )
    &&& post == (App { cursor: post.cursor, scroll_offset: post.scroll_offset, ..pre })
}

/// The selection of the item under the cursor toggled.
pub open spec fn spec_toggled(pre: App, post: App) -> bool {
    &&& pre.spec_current() is None ==> post == pre
    &&& pre.spec_current() matches Some(idx) ==> {
        &&& match crate::state::spec_index_of_from(pre.selected_indices@, idx, 0) {
            Some(p) => {
                &&& post.selected_indices@ == pre.selected_indices@.remove(p)
                &&& post.results@ == (if idx < pre.results@.len() {
                    pre.results@.update(
                        idx as int,
                        crate::state::spec_with_selected(pre.results@[idx as int], false),
                    )
                } else {
                    pre.results@
                })
            },
            None => {
                &&& post.selected_indices@ == pre.selected_indices@.push(idx)
                &&& post.results@ == (if idx < pre.results@.len() {
                    pre.results@.update(
                        idx as int,
                        crate::state::spec_with_selected(pre.results@[idx as int], true),
                    )
                } else {
                    pre.results@
                })
            },
        }
        &&& post == (App {
            results: post.results,
            selected_indices: post.selected_indices,
            ..pre
        })
    }
}

/// Every displayed item selected.
pub open spec fn spec_all_selected(pre: App, post: App) -> bool {
    &&& post.selected_indices@ == crate::state::spec_selected_after(
        pre.selected_indices@,
        pre.filtered_indices@,
        pre.filtered_indices@.len() as int,
    )
    &&& post.results@.len() == pre.results@.len()
    &&& forall|j: int|
        0 <= j < pre.results@.len() ==> #[trigger] post.results@[j] == (
        if pre.filtered_indices@.contains(j as usize) {
            crate::state::spec_with_selected(pre.results@[j], true)
        } else {
            pre.results@[j]
        })
    &&& post == (App { results: post.results, selected_indices: post.selected_indices, ..pre })
}

/// The whole selection cleared.
pub open spec fn spec_all_deselected(pre: App, post: App) -> bool {
    &&& post.selected_indices@ == Seq::<usize>::empty()
    &&& post.results@.len() == pre.results@.len()
    &&& forall|j: int|
        0 <= j < pre.results@.len() ==> #[trigger] post.results@[j] == (
        if pre.selected_indices@.contains(j as usize) {
            crate::state::spec_with_selected(pre.results@[j], false)
        } else {
            pre.results@[j]
        })
    &&& post == (App { results: post.results, selected_indices: post.selected_indices, ..pre })
}

/// What one key does in multi-select mode.
pub open spec fn spec_multi_key_step(key: KeyInput, pre: App, post: App, action: Action) -> bool {
    match key.key {
        Key::Esc => {
            &&& action == Action::Continue
            &&& spec_all_deselected((App { mode: Mode::Normal, ..pre }), post)
            &&& post.mode == Mode::Normal
        },
        Key::Char(c) => {
            if c == 't' {
                &&& action == Action::Continue
                &&& spec_all_deselected((App { mode: Mode::Normal, ..pre }), post)
                &&& post.mode == Mode::Normal
            } else if c == 'q' {
                &&& action == Action::Quit
                &&& post == pre
            } else if c == 'k' {
                &&& action == Action::Continue
                &&& spec_moved(pre, post, -1)
            } else if c == 'j' {
                &&& action == Action::Continue
                &&& spec_moved(pre, post, 1)
            } else if c == 'u' {
                &&& action == Action::Continue
                &&& spec_paged(pre, post, false)
            } else if c == 'd' {
                &&& action == Action::Continue
                &&& spec_paged(pre, post, true)
            } else if c == ' ' {
                &&& action == Action::Continue
                &&& spec_toggled(pre, post)
            } else if c == 'a' {
                &&& post.mode == pre.mode
                &&& action == Action::Continue
                &&& if pre.selected_indices@.len() == 0 {
                    spec_all_selected(pre, post)
                } else {
                    spec_all_deselected(pre, post)
                }
            } else {
                &&& action == Action::Continue
                &&& post == pre
            }
        },
        Key::Up => {
            &&& action == Action::Continue
            &&& spec_moved(pre, post, -1)
        },
        Key::Down => {
            &&& action == Action::Continue
            &&& spec_moved(pre, post, 1)
        },
        Key::PageUp => {
            &&& action == Action::Continue
            &&& spec_paged(pre, post, false)
        },
        Key::PageDown => {
            &&& action == Action::Continue
            &&& spec_paged(pre, post, true)
        },
        Key::Enter => {
            &&& post == pre
            &&& action == (if pre.selected_indices@.len() == 0 {
                Action::Continue
            } else {
                Action::DeleteSelected
            })
        },
        _ => {
            &&& action == Action::Continue
            &&& post == pre
        },
    }
}

/// Keys in multi-select mode: navigation, toggling, batch selection, and
/// requesting deletion of the selection.
pub fn handle_multi_select_key(key: KeyInput, app: &mut App) -> (action: Action)
    ensures
        spec_multi_key_step(key, *old(app), *final(app), action),
{
    match key.key {
        Key::Esc => {
            app.mode = Mode::Normal;
            app.deselect_all();
            Action::Continue
        },
        Key::Char(c) => {
            if c == 't' {
                app.mode = Mode::Normal;
                app.deselect_all();
                Action::Continue
            } else if c == 'q' {
                Action::Quit
            } else if c == 'k' {
                app.move_cursor(-1);
                Action::Continue
            } else if c == 'j' {
                app.move_cursor(1);
                Action::Continue
            } else if c == 'u' {
                app.move_cursor_by_page(false);
                Action::Continue
            } else if c == 'd' {
                app.move_cursor_by_page(true);
                Action::Continue
            } else if c == ' ' {
                app.toggle_selection();
                Action::Continue
            } else if c == 'a' {
                if app.selected_indices.len() == 0 {
                    app.select_all();
                } else {
                    app.deselect_all();
                }
                Action::Continue
            } else {
                Action::Continue
            }
        },
        Key::Up => {
            app.move_cursor(-1);
            Action::Continue
        },
        Key::Down => {
            app.move_cursor(1);
            Action::Continue
        },
        Key::PageUp => {
            app.move_cursor_by_page(false);
            Action::Continue
        },
        Key::PageDown => {
            app.move_cursor_by_page(true);
            Action::Continue
        },
        Key::Enter => {
            if app.selected_indices.len() == 0 {
                Action::Continue
            } else {
                Action::DeleteSelected
            }
        },
        _ => Action::Continue,
    }
}

/// The sort order after one press of the cycle key.
pub open spec fn spec_next_sort(order: SortOrder) -> SortOrder {
    match order {
        SortOrder::Size => SortOrder::Path,
        SortOrder::Path => SortOrder::Age,
        SortOrder::Age => SortOrder::Size,
    }
}

/// The views re-derived under the next sort order, with the flash lit.
pub open spec fn spec_sort_cycled(pre: App, post: App) -> bool {
    let next = spec_next_sort(pre.sort_order);
    &&& post.sort_order == next
    &&& group_views(post.target_groups@) == spec_sorted_groups(pre.results@)
    &&& post.active_tab == spec_clamped_tab(pre.results@, pre.active_tab as int)
    &&& post.filtered_indices@ == spec_display_indices(
        pre.results@,
        post.active_tab as int,
        pre.search_query@,
        next,
    )
    &&& post.cursor == spec_clamped_cursor(pre.cursor as int, post.filtered_indices@.len() as int)
    &&& post.sort_flash == 5
    &&& post == (App {
        sort_order: post.sort_order,
        target_groups: post.target_groups,
        active_tab: post.active_tab,
        filtered_indices: post.filtered_indices,
        cursor: post.cursor,
        sort_flash: post.sort_flash,
        ..pre
    })
}

/// What one key does in normal mode.
pub open spec fn spec_normal_key_step(key: KeyInput, pre: App, post: App, action: Action) -> bool {
    match key.key {
        Key::Esc => {
            &&& action == Action::Quit
            &&& post == pre
        },
        Key::Up => {
            &&& action == Action::Continue
            &&& spec_moved(pre, post, -1)
        },
        Key::Down => {
            &&& action == Action::Continue
            &&& spec_moved(pre, post, 1)
        },
        Key::PageUp => {
            &&& action == Action::Continue
            &&& spec_paged(pre, post, false)
        },
        Key::PageDown => {
            &&& action == Action::Continue
            &&& spec_paged(pre, post, true)
        },
        Key::Home => {
            &&& action == Action::Continue
            &&& post == (App { cursor: 0, scroll_offset: 0, ..pre })
        },
        Key::End => {
            &&& action == Action::Continue
            &&& if pre.filtered_indices@.len() == 0 {
                post == pre
            } else {
                let last = pre.filtered_indices@.len() - 1;
                &&& post.cursor == last
                &&& post.scroll_offset == (if last + 2 >= pre.visible_height {
                    if last + 3 - pre.visible_height <= usize::MAX {
                        last + 3 - pre.visible_height
                    } else {
                        usize::MAX as int
                    }
                } else {
                    pre.scroll_offset as int
                })
                &&& post == (App {
                    cursor: post.cursor,
                    scroll_offset: post.scroll_offset,
                    ..pre
                })
            }
        },
        Key::Left => {
            &&& action == Action::Continue
            &&& post == (App { panel: spec_panel_left(pre.panel), ..pre })
        },
        Key::Right => {
            &&& action == Action::Continue
            &&& post == (App { panel: spec_panel_right(pre.panel), ..pre })
        },
        Key::Delete => {
            if pre.panel != Panel::Info {
                &&& action == Action::Delete
                &&& post == pre
            } else {
                &&& action == Action::Continue
                &&& post == pre
            }
        },
        Key::Char(c) => {
            if c == 'q' {
                &&& action == Action::Quit
                &&& post == pre
            } else if c == 'c' && key.ctrl {
                &&& action == Action::Quit
                &&& post == pre
            } else if c == 'k' {
                &&& action == Action::Continue
                &&& spec_moved(pre, post, -1)
            } else if c == 'j' {
                &&& action == Action::Continue
                &&& spec_moved(pre, post, 1)
            } else if c == 'u' {
                &&& action == Action::Continue
                &&& spec_paged(pre, post, false)
            } else if c == 'd' {
                &&& action == Action::Continue
                &&& spec_paged(pre, post, true)
            } else if c == 'h' {
                &&& action == Action::Continue
                &&& post == (App { panel: spec_panel_left(pre.panel), ..pre })
            } else if c == 'l' {
                &&& action == Action::Continue
                &&& post == (App { panel: spec_panel_right(pre.panel), ..pre })
            } else if c == 'a' && pre.panel != Panel::Info {
                &&& action == Action::Continue
                &&& post == (App { panel: Panel::Analytics, analytics_scroll: 0, ..pre })
            } else if c == ' ' && pre.panel != Panel::Info {
                &&& action == Action::Delete
                &&& post == pre
            } else if c == '/' && pre.panel != Panel::Info {
                &&& action == Action::Continue
                &&& post == (App { mode: Mode::Search, search_query: post.search_query, ..pre })
                &&& post.search_query@ == Seq::<char>::empty()
            } else if c == 't' && pre.panel != Panel::Info {
                &&& action == Action::Continue
                &&& post == (App { mode: Mode::MultiSelect, ..pre })
            } else if c == 's' && pre.panel != Panel::Info {
                &&& action == Action::Continue
                &&& spec_sort_cycled(pre, post)
            } else if c == 'o' && pre.panel == Panel::Info {
                &&& action == Action::OpenInExplorer
                &&& post == pre
            } else {
                &&& action == Action::Continue
                &&& post == pre
            }
        },
        _ => {
            &&& action == Action::Continue
            &&& post == pre
        },
    }
}

/// Where the left key leads from each panel.
pub open spec fn spec_panel_left(panel: Panel) -> Panel {
    match panel {
        Panel::Info => Panel::Results,
        Panel::Options => Panel::Help,
        Panel::Results => Panel::Options,
        Panel::Help => Panel::Options,
        Panel::Analytics => Panel::Options,
    }
}

/// Where the right key leads from each panel.
pub open spec fn spec_panel_right(panel: Panel) -> Panel {
    match panel {
        Panel::Results => Panel::Info,
        Panel::Help => Panel::Options,
        Panel::Info => Panel::Results,
        Panel::Options => Panel::Results,
        Panel::Analytics => Panel::Results,
    }
}

/// Keys in normal mode: quitting, navigation, panel switching, and entering
/// the other modes.
pub fn handle_normal_key(key: KeyInput, app: &mut App) -> (action: Action)
    ensures
        spec_normal_key_step(key, *old(app), *final(app), action),
{
    match key.key {
        Key::Esc => Action::Quit,
        Key::Up => {
            app.move_cursor(-1);
            Action::Continue
        },
        Key::Down => {
            app.move_cursor(1);
            Action::Continue
        },
        Key::PageUp => {
            app.move_cursor_by_page(false);
            Action::Continue
        },
        Key::PageDown => {
            app.move_cursor_by_page(true);
            Action::Continue
        },
        Key::Home => {
            app.cursor = 0;
            app.scroll_offset = 0;
            Action::Continue
        },
        Key::End => {
            if app.filtered_indices.len() > 0 {
                app.cursor = app.filtered_indices.len() - 1;
                if (app.cursor as u128) + 2 >= (app.visible_height as u128) {
                    let target = (app.cursor as u128) + 3 - (app.visible_height as u128);
                    app.scroll_offset = if target > (usize::MAX as u128) {
                        usize::MAX
                    } else {
                        target as usize
                    };
                }
            }
            Action::Continue
        },
        Key::Left => {
            app.panel = panel_left(app.panel);
            Action::Continue
        },
        Key::Right => {
            app.panel = panel_right(app.panel);
            Action::Continue
        },
        Key::Delete => {
            if app.panel != Panel::Info {
                Action::Delete
            } else {
                Action::Continue
            }
        },
        Key::Char(c) => {
            if c == 'q' {
                Action::Quit
            } else if c == 'c' && key.ctrl {
                Action::Quit
            } else if c == 'k' {
                app.move_cursor(-1);
                Action::Continue
            } else if c == 'j' {
                app.move_cursor(1);
                Action::Continue
            } else if c == 'u' {
                app.move_cursor_by_page(false);
                Action::Continue
            } else if c == 'd' {
                app.move_cursor_by_page(true);
                Action::Continue
            } else if c == 'h' {
                app.panel = panel_left(app.panel);
                Action::Continue
            } else if c == 'l' {
                app.panel = panel_right(app.panel);
                Action::Continue
            } else if c == 'a' && !matches!(app.panel, Panel::Info) {
                app.panel = Panel::Analytics;
                app.analytics_scroll = 0;
                Action::Continue
            } else if c == ' ' && !matches!(app.panel, Panel::Info) {
                Action::Delete
            } else if c == '/' && !matches!(app.panel, Panel::Info) {
                app.mode = Mode::Search;
                app.search_query = String::new();
                Action::Continue
            } else if c == 't' && !matches!(app.panel, Panel::Info) {
                app.mode = Mode::MultiSelect;
                Action::Continue
            } else if c == 's' && !matches!(app.panel, Panel::Info) {
                app.sort_order = match app.sort_order {
                    SortOrder::Size => SortOrder::Path,
                    SortOrder::Path => SortOrder::Age,
                    SortOrder::Age => SortOrder::Size,
                };
                app.apply_sort_and_filter();
                Action::Continue
            } else if c == 'o' && matches!(app.panel, Panel::Info) {
                Action::OpenInExplorer
            } else {
                Action::Continue
            }
        },
        _ => Action::Continue,
    }
}

fn panel_left(panel: Panel) -> (r: Panel)
    ensures
        r == spec_panel_left(panel),
{
    match panel {
        Panel::Info => Panel::Results,
        Panel::Options => Panel::Help,
        Panel::Results => Panel::Options,
        Panel::Help => Panel::Options,
        Panel::Analytics => Panel::Options,
    }
}

fn panel_right(panel: Panel) -> (r: Panel)
    ensures
        r == spec_panel_right(panel),
{
    match panel {
        Panel::Results => Panel::Info,
        Panel::Help => Panel::Options,
        Panel::Info => Panel::Results,
        Panel::Options => Panel::Results,
        Panel::Analytics => Panel::Results,
    }
}

/// Maps a key press to its action: the analytics panel handles its own
/// keys regardless of mode; otherwise the active mode decides. A pending
/// confirmation takes the normal-mode mapping.
pub fn handle_key(key: KeyInput, app: &mut App) -> (action: Action)
    ensures
        old(app).panel == Panel::Analytics ==> spec_analytics_key_step(
            key,
            *old(app),
            *final(app),
            action,
        ),
        old(app).panel != Panel::Analytics && old(app).mode == Mode::Search
            ==> spec_search_key_step(key, *old(app), *final(app), action),
        old(app).panel != Panel::Analytics && old(app).mode == Mode::MultiSelect
            ==> spec_multi_key_step(key, *old(app), *final(app), action),
        old(app).panel != Panel::Analytics && (old(app).mode == Mode::Normal || old(app).mode
            == Mode::Confirm) ==> spec_normal_key_step(key, *old(app), *final(app), action),
{
    if matches!(app.panel, Panel::Analytics) {
        return handle_analytics_key(key, app);
    }
    match app.mode {
        Mode::Search => handle_search_key(key, app),
        Mode::MultiSelect => handle_multi_select_key(key, app),
        Mode::Normal => handle_normal_key(key, app),
        Mode::Confirm => handle_normal_key(key, app),
    }
}

} // verus!
