//! The event loop's decisions, as a pure state machine: every event the
//! single-consumer scheduler can observe is mapped to a state change and a
//! list of effects to perform, and the deletion command queue is bounded so
//! a burst of requests cannot outrun sequential execution.

use vstd::prelude::*;

use crate::delete::DeleteResult;
use crate::input::{handle_key, spec_analytics_key_step, spec_multi_key_step,
    spec_normal_key_step, spec_search_key_step, Action, KeyInput};
use crate::scan::ScanResult;
use crate::state::{App, Mode, Panel};

verus! {

/// A pending deletion request.
#[derive(Debug)]
pub enum DeleteCommand {
    One(usize),
    Batch(Vec<usize>),
}

/// A bounded queue of deletion requests: pushing fails when it is full, so
/// the producer has to wait for the consumer — backpressure, not loss.
pub struct CommandQueue {
    items: Vec<DeleteCommand>,
    capacity: usize,
}

impl CommandQueue {
    /// The pending commands, oldest first.
    pub closed spec fn pending(&self) -> Seq<DeleteCommand> {
        self.items@
    }

    /// The bound the queue was created with.
    pub closed spec fn capacity(&self) -> usize {
        self.capacity
    }

    /// The queue never holds more than its capacity.
    pub open spec fn wf(&self) -> bool {
        self.pending().len() <= self.capacity()
    }

    pub fn new(capacity: usize) -> (r: CommandQueue)
        ensures
            r.capacity() == capacity,
            r.pending() == Seq::<DeleteCommand>::empty(),
            r.wf(),
    {
        let r = CommandQueue { items: Vec::new(), capacity };
        proof {
            assert(r.pending() =~= Seq::<DeleteCommand>::empty());
        }
        r
    }

    /// Accepts a command when there is room; a full queue refuses it.
    pub fn try_push(&mut self, cmd: DeleteCommand) -> (accepted: bool)
        requires
            old(self).wf(),
        ensures
            final(self).capacity() == old(self).capacity(),
            final(self).wf(),
            accepted ==> old(self).pending().len() < old(self).capacity() && final(self).pending()
                == old(self).pending().push(cmd),
            !accepted ==> old(self).pending().len() >= old(self).capacity()
                && final(self).pending() == old(self).pending(),
    {
        if self.items.len() < self.capacity {
            self.items.push(cmd);
            true
        } else {
            false
        }
    }

    /// Hands out the oldest pending command.
    pub fn pop_front(&mut self) -> (r: Option<DeleteCommand>)
        ensures
            final(self).capacity() == old(self).capacity(),
            old(self).pending().len() == 0 ==> r is None
                && final(self).pending() == old(self).pending(),
            old(self).pending().len() > 0 ==> (r matches Some(c) && c == old(self).pending()[0]
                && final(self).pending() == old(self).pending().drop_first()),
            old(self).wf() ==> final(self).wf(),
    {
        if self.items.len() == 0 {
            None
        } else {
            let c = self.items.remove(0);
            proof {
                assert(self.items@ =~= old(self).pending().drop_first());
            }
            Some(c)
        }
    }
}

/// Everything the scheduler can observe in one iteration.
#[derive(Debug)]
pub enum AppEvent {
    Key(KeyInput),
    SizeDone { index: usize, size: u64, file_count: u64 },
    Batch(Vec<ScanResult>),
    ScanFinished,
    Tick,
    Resize { height: usize },
}

/// What the scheduler must go and do after a decision.
#[derive(Debug)]
pub enum Effect {
    Quit,
    EnqueueDelete(usize),
    EnqueueDeleteBatch(Vec<usize>),
    RequestSize { index: usize, path: String },
    OpenPath(String),
}

/// Decides one scheduler iteration: applies the event to the state and
/// says what to do next. Keyboard events map through the mode handlers;
/// a scan batch is ingested and a size computation is requested for every
/// newly assigned backing index; completions mutate only their own index.
pub fn handle_event(app: &mut App, event: AppEvent) -> (effects: Vec<Effect>)
    ensures
        ({
            match event {
                AppEvent::Key(key) => exists|action: Action|
                    {
                        &&& (old(app).panel == Panel::Analytics ==> spec_analytics_key_step(
                            key,
                            *old(app),
                            *final(app),
                            action,
                        ))
                        &&& (old(app).panel != Panel::Analytics && old(app).mode == Mode::Search
                            ==> spec_search_key_step(key, *old(app), *final(app), action))
                        &&& (old(app).panel != Panel::Analytics && old(app).mode
                            == Mode::MultiSelect ==> spec_multi_key_step(
                            key,
                            *old(app),
                            *final(app),
                            action,
                        ))
                        &&& (old(app).panel != Panel::Analytics && (old(app).mode == Mode::Normal
                            || old(app).mode == Mode::Confirm) ==> spec_normal_key_step(
                            key,
                            *old(app),
                            *final(app),
                            action,
                        ))
                        &&& spec_key_effects(*final(app), action, effects@)
                    },
                AppEvent::SizeDone { index, size, file_count } => {
                    &&& effects@.len() == 0
                    &&& (index < old(app).results@.len() ==> {
                        &&& final(app).results@.len() == old(app).results@.len()
                        &&& final(app).results@[index as int].scan_result.size == Some(size)
                        &&& final(app).results@[index as int].scan_result.file_count == Some(
                            file_count,
                        )
                        &&& final(app).results@[index as int].scan_result.path == old(
                            app,
                        ).results@[index as int].scan_result.path
                        &&& forall|j: int|
                            0 <= j < old(app).results@.len() && j != index
                                ==> final(app).results@[j] == old(app).results@[j]
                        &&& final(app).needs_sort
                    })
                    &&& (index >= old(app).results@.len() ==> *final(app) == *old(app))
                },
                AppEvent::Batch(results) => {
                    &&& final(app).results@.len() == old(app).results@.len() + crate::state::spec_kept(
                        results@,
                        old(app).exclude_sensitive,
                        crate::state::spec_home_view(old(app).home),
                    ).len()
                    &&& forall|j: int|
                        0 <= j < old(app).results@.len() ==> final(app).results@[j] == old(
                            app,
                        ).results@[j]
                    &&& forall|j: int|
                        0 <= j < crate::state::spec_kept(
                            results@,
                            old(app).exclude_sensitive,
                            crate::state::spec_home_view(old(app).home),
                        ).len() ==> crate::state::spec_classified_item(
                            #[trigger] final(app).results@[old(app).results@.len() + j],
                            crate::state::spec_kept(
                                results@,
                                old(app).exclude_sensitive,
                                crate::state::spec_home_view(old(app).home),
                            )[j],
                            crate::state::spec_home_view(old(app).home),
                        )
                    &&& effects@.len() == final(app).results@.len() - old(app).results@.len()
                    &&& forall|j: int|
                        0 <= j < effects@.len() ==> (#[trigger] effects@[j] matches Effect::RequestSize { index, path } && index == old(app).results@.len() + j
                            && path == final(app).results@[old(app).results@.len() + j].scan_result.path)
                },
                AppEvent::ScanFinished => {
                    &&& effects@.len() == 0
                    &&& !final(app).scanning
                    &&& final(app).analytics.scan_complete
                    &&& final(app).results == old(app).results
                },
                AppEvent::Tick => {
                    &&& effects@.len() == 0
                    &&& final(app).results == old(app).results
                    &&& !final(app).needs_sort
                    &&& !final(app).needs_filter
                    &&& final(app).spinner_tick == crate::state::spec_wrap_inc_usize(
                        old(app).spinner_tick,
                    )
                    &&& ((old(app).needs_sort || old(app).needs_filter)
                        ==> final(app).filtered_indices@ == crate::state::spec_display_indices(
                        old(app).results@,
                        final(app).active_tab as int,
                        old(app).search_query@,
                        old(app).sort_order,
                    ))
                },
                AppEvent::Resize { height } => {
                    &&& effects@.len() == 0
                    &&& *final(app) == (App { visible_height: height, ..*old(app) })
                },
            }
        }),
{
    match event {
        AppEvent::Key(key) => {
            let action = handle_key(key, app);
            let mut effects: Vec<Effect> = Vec::new();
            match action {
                Action::Quit => {
                    effects.push(Effect::Quit);
                },
                Action::Delete => {
                    let ci = app.current_index();
                    if let Some(idx) = ci {
                        if idx < app.results.len() {
                            if !app.results[idx].is_deleted && !app.results[idx].is_deleting {
                                effects.push(Effect::EnqueueDelete(idx));
                            }
                        }
                    }
                },
                Action::DeleteSelected => {
                    if app.selected_indices.len() > 0 {
                        let snapshot = crate::state::snapshot_indices(&app.selected_indices);
                        effects.push(Effect::EnqueueDeleteBatch(snapshot));
                    }
                },
                Action::OpenInExplorer => {
                    let ci = app.current_index();
                    if let Some(idx) = ci {
                        if idx < app.results.len() {
                            effects.push(
                                Effect::OpenPath(app.results[idx].scan_result.path.clone()),
                            );
                        }
                    }
                },
                Action::Continue => {},
            }
            proof {
                assert(spec_key_effects(*app, action, effects@));
            }
            effects
        },
        AppEvent::SizeDone { index, size, file_count } => {
            app.update_size(index, size, file_count);
            Vec::new()
        },
        AppEvent::Batch(results) => {
            let ghost pre_len = app.results@.len();
            let start = app.results.len();
            app.add_results(results);
            let mut effects: Vec<Effect> = Vec::new();
            let mut i: usize = start;
            while i < app.results.len()
                invariant
                    pre_len == start,
                    start <= i <= app.results@.len(),
                    effects@.len() == i - start,
                    forall|j: int|
                        0 <= j < effects@.len() ==> (#[trigger] effects@[j] matches Effect::RequestSize { index, path } && index == start + j && path == app.results@[start + j].scan_result.path),
                decreases app.results@.len() - i,
            {
                effects.push(
                    Effect::RequestSize { index: i, path: app.results[i].scan_result.path.clone() },
                );
                i = i + 1;
            }
            effects
        },
        AppEvent::ScanFinished => {
            app.scan_complete();
            Vec::new()
        },
        AppEvent::Tick => {
            app.on_tick();
            Vec::new()
        },
        AppEvent::Resize { height } => {
            app.visible_height = height;
            Vec::new()
        },
    }
}

/// The effects a key action demands, given the state after the key.
pub open spec fn spec_key_effects(post: App, action: Action, effects: Seq<Effect>) -> bool {
    match action {
        Action::Quit => effects =~= seq![Effect::Quit],
        Action::Continue => effects.len() == 0,
        Action::Delete => {
            match post.spec_current() {
                Some(idx) => {
                    if idx < post.results@.len() && !post.results@[idx as int].is_deleted
                        && !post.results@[idx as int].is_deleting {
                        effects =~= seq![Effect::EnqueueDelete(idx)]
                    } else {
                        effects.len() == 0
                    }
                },
                None => effects.len() == 0,
            }
        },
        Action::DeleteSelected => {
            if post.selected_indices@.len() > 0 {
                &&& effects.len() == 1
                &&& effects[0] matches Effect::EnqueueDeleteBatch(v) && v@ == post.selected_indices@
            } else {
                effects.len() == 0
            }
        },
        Action::OpenInExplorer => {
            match post.spec_current() {
                Some(idx) => {
                    if idx < post.results@.len() {
                        &&& effects.len() == 1
                        &&& effects[0] matches Effect::OpenPath(p) && p == post.results@[idx as int].scan_result.path
                    } else {
                        effects.len() == 0
                    }
                },
                None => effects.len() == 0,
            }
        },
    }
}

/// Snapshots the path and previously computed size of the item at `index`
/// and marks it as being deleted; the deletion itself is outside work, and
/// its completion is applied by `apply_delete_result`.
pub fn begin_delete(app: &mut App, index: usize) -> (r: Option<(String, u64)>)
    ensures
        index < old(app).results@.len() ==> (r matches Some(p) && p.0
            == old(app).results@[index as int].scan_result.path && p.1 == old(
            app,
        ).results@[index as int].scan_result.size.unwrap_or(0) && final(app).results@ == old(
            app,
        ).results@.update(
            index as int,
            (crate::state::ResultItem {
                scan_result: old(app).results@[index as int].scan_result,
                risk: old(app).results@[index as int].risk,
                is_selected: old(app).results@[index as int].is_selected,
                is_deleting: true,
                is_deleted: old(app).results@[index as int].is_deleted,
            }),
        ) && *final(app) == (App { results: final(app).results, ..*old(app) })),
        index >= old(app).results@.len() ==> r is None && *final(app) == *old(app),
{
    if index < app.results.len() {
        let path = app.results[index].scan_result.path.clone();
        let size = match app.results[index].scan_result.size {
            Some(s) => s,
            None => 0,
        };
        app.mark_deleting(index);
        Some((path, size))
    } else {
        None
    }
}

/// Applies a deletion completion: a success tombstones the item and counts
/// the freed size; a failure appends its message to the error log.
pub fn apply_delete_result(
    app: &mut App,
    index: usize,
    path: &str,
    size: u64,
    result: DeleteResult,
)
    ensures
        result.success ==> {
            &&& final(app).needs_filter
            &&& (index < old(app).results@.len() ==> {
                &&& final(app).results@[index as int].is_deleted
                &&& !final(app).results@[index as int].is_deleting
                &&& final(app).results@[index as int].scan_result == old(
                    app,
                ).results@[index as int].scan_result
                &&& forall|j: int|
                    0 <= j < old(app).results@.len() && j != index ==> final(app).results@[j]
                        == old(app).results@[j]
                &&& final(app).freed_size == crate::text::spec_sat_add_u64(
                    old(app).freed_size,
                    size,
                )
            })
        },
        !result.success ==> {
            &&& final(app).results == old(app).results
            &&& (result.error matches Some(e) ==> final(app).errors@.len() == old(
                app,
            ).errors@.len() + 1 && final(app).errors@.last()@ == path@ + ": "@ + e@)
            &&& (result.error is None ==> *final(app) == *old(app))
        },
{
    if result.success {
        app.mark_deleted(index, size);
    } else if let Some(err) = result.error {
        let mut line = String::from_str(path);
        line.append(": ");
        line.append(err.as_str());
        app.add_error(line);
    }
}

} // verus!