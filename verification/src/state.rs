//! The interactive application state: an append-only backing store of
//! discovered items with stable indices, and the derived views — target
//! groups, the filtered and sorted index list, cursor and scroll — rebuilt
//! from it. Background completions address items by backing index, which
//! never moves, so out-of-order completions always land on the right item.

use vstd::prelude::*;

use crate::analytics::{extract_target_name, spec_target_name, AnalyticsData};
use crate::risk::{analyze_risk_with_home, spec_analyze_risk, RiskAnalysis};
use crate::scan::ScanResult;
use crate::sorting::{
    lemma_insert_by_at, lemma_sort_by_multiset, lemma_sort_by_push, spec_sort_by, spec_sorted_by,
    spec_strict_weak, spec_tied,
};
use crate::text::{
    contains_chars, lower_chars, sat_add_u64, sat_inc_usize, spec_contains, spec_lex_lt,
    spec_lower, spec_sat_add_u64, spec_sat_inc_usize, str_chars, str_eq, str_lex_lt,
};

verus! {

/// Which panel of the dashboard is in front.
#[derive(Debug, Clone, Copy, PartialEq, Eq, Structural)]
pub enum Panel {
    Results,
    Info,
    Options,
    Analytics,
    Help,
}

/// The interaction mode the dashboard is in.
#[derive(Debug, Clone, Copy, PartialEq, Eq, Structural)]
pub enum Mode {
    Normal,
    Search,
    MultiSelect,
    Confirm,
}

/// The active total order on the result list.
#[derive(Debug, Clone, Copy, PartialEq, Eq, Structural)]
pub enum SortOrder {
    Size,
    Path,
    Age,
}

/// The sort order named by `s`, case-insensitively; anything unknown falls
/// back to size order.
pub open spec fn spec_sort_order_from(s: Seq<char>) -> SortOrder {
    if spec_lower(s) == "path"@ {
        SortOrder::Path
    } else if spec_lower(s) == "age"@ {
        SortOrder::Age
    } else {
        SortOrder::Size
    }
}

impl SortOrder {
    /// Parses a sort order name, case-insensitively; unknown names mean
    /// size order.
    pub fn from_str(s: &str) -> (r: SortOrder)
        ensures
            r == spec_sort_order_from(s@),
    {
        let l = lower_chars(&str_chars(s));
        if crate::text::chars_eq(&l, &str_chars("path")) {
            SortOrder::Path
        } else if crate::text::chars_eq(&l, &str_chars("age")) {
            SortOrder::Age
        } else {
            SortOrder::Size
        }
    }
}

/// The results sharing one leaf directory name, for tab filtering.
#[derive(Debug)]
pub struct TargetGroup {
    pub name: String,
    pub indices: Vec<usize>,
    pub total_size: u64,
    pub count: usize,
}

/// The mathematical model of a `TargetGroup`.
#[verifier::ext_equal]
pub ghost struct TargetGroupView {
    pub name: Seq<char>,
    pub indices: Seq<usize>,
    pub total_size: u64,
    pub count: usize,
}

impl View for TargetGroup {
    type V = TargetGroupView;

    open spec fn view(&self) -> TargetGroupView {
        TargetGroupView {
            name: self.name@,
            indices: self.indices@,
            total_size: self.total_size,
            count: self.count,
        }
    }
}

impl Clone for TargetGroup {
    fn clone(&self) -> (res: Self)
        ensures
            res@ == self@,
    {
        let res = TargetGroup {
            name: self.name.clone(),
            indices: snapshot_indices(&self.indices),
            total_size: self.total_size,
            count: self.count,
        };
        res
    }
}

/// A copy of a vector of backing indices.
pub fn snapshot_indices(v: &Vec<usize>) -> (r: Vec<usize>)
    ensures
        r@ == v@,
{
    let mut r: Vec<usize> = Vec::new();
    let mut i: usize = 0;
    while i < v.len()
        invariant
            i <= v@.len(),
            r@ == v@.take(i as int),
        decreases v@.len() - i,
    {
        r.push(v[i]);
        i = i + 1;
        proof {
            assert(r@ =~= v@.take(i as int));
        }
    }
    proof {
        assert(v@.take(v@.len() as int) =~= v@);
    }
    r
}

/// The views of a sequence of target groups.
pub open spec fn group_views(v: Seq<TargetGroup>) -> Seq<TargetGroupView> {
    v.map_values(|g: TargetGroup| g@)
}

/// One discovered item with its classification and display flags.
#[derive(Debug)]
pub struct ResultItem {
    pub scan_result: ScanResult,
    pub risk: RiskAnalysis,
    pub is_selected: bool,
    pub is_deleting: bool,
    pub is_deleted: bool,
}

impl Clone for ResultItem {
    fn clone(&self) -> (res: Self)
        ensures
            res == *self,
    {
        ResultItem {
            scan_result: self.scan_result.clone(),
            risk: self.risk.clone(),
            is_selected: self.is_selected,
            is_deleting: self.is_deleting,
            is_deleted: self.is_deleted,
        }
    }
}

/// The item built from one scan result classified against `home`: the
/// sensitivity is stamped onto the record and every display flag starts
/// clear.
pub open spec fn spec_classified_item(item: ResultItem, r: ScanResult, home: Option<Seq<char>>) -> bool {
    &&& item.scan_result.path == r.path
    &&& item.scan_result.size == r.size
    &&& item.scan_result.file_count == r.file_count
    &&& item.scan_result.modified == r.modified
    &&& item.scan_result.is_sensitive == spec_analyze_risk(r.path@, home).is_sensitive
    &&& item.risk@ == spec_analyze_risk(r.path@, home)
    &&& !item.is_selected
    &&& !item.is_deleting
    &&& !item.is_deleted
}

impl ResultItem {
    /// Classifies one scan result with the home directory handed in.
    pub fn from_scan_result_with_home(result: ScanResult, home: Option<&str>) -> (item: ResultItem)
        ensures
            spec_classified_item(
                item,
                result,
                match home {
                    Some(h) => Some(h@),
                    None => None,
                },
            ),
    {
        let risk = analyze_risk_with_home(result.path.as_str(), home);
        let mut result = result;
        result.is_sensitive = risk.is_sensitive;
        ResultItem { scan_result: result, risk, is_selected: false, is_deleting: false, is_deleted: false }
    }

    /// Classifies one scan result against the environment's home directory.
    pub fn from_scan_result(result: ScanResult) -> (item: ResultItem)
        ensures
            exists|h: Option<Seq<char>>| spec_classified_item(item, result, h),
    {
        let ghost orig = result;
        let risk = crate::risk::analyze_risk(result.path.as_str());
        let mut result = result;
        result.is_sensitive = risk.is_sensitive;
        let item = ResultItem {
            scan_result: result,
            risk,
            is_selected: false,
            is_deleting: false,
            is_deleted: false,
        };
        proof {
            let h = choose|h: Option<Seq<char>>| item.risk@ == spec_analyze_risk(orig.path@, h);
            assert(spec_classified_item(item, orig, h));
        }
        item
    }
}

/// The first group named `name`, from `i` on.
pub open spec fn spec_group_ix_from(gs: Seq<TargetGroupView>, name: Seq<char>, i: int) -> Option<
    int,
>
    decreases gs.len() - i,
{
    if i < 0 || i >= gs.len() {
        None
    } else if gs[i].name == name {
        Some(i)
    } else {
        spec_group_ix_from(gs, name, i + 1)
    }
}

/// One item folded into the groups: its group (by leaf name) gains the
/// index, the size, and one count, or a fresh group opens for it.
pub open spec fn spec_add_group(
    gs: Seq<TargetGroupView>,
    idx: usize,
    name: Seq<char>,
    size: u64,
) -> Seq<TargetGroupView> {
    match spec_group_ix_from(gs, name, 0) {
        Some(k) => gs.update(
            k,
            (TargetGroupView {
                name: gs[k].name,
                indices: gs[k].indices.push(idx),
                total_size: spec_sat_add_u64(gs[k].total_size, size),
                count: spec_sat_inc_usize(gs[k].count),
            }),
        ),
        None => gs.push(
            (TargetGroupView { name: name, indices: seq![idx], total_size: size, count: 1 }),
        ),
    }
}

/// The groups over the first `n` items: non-tombstoned items folded in
/// index order, grouped by leaf directory name.
pub open spec fn spec_groups_upto(results: Seq<ResultItem>, n: int) -> Seq<TargetGroupView>
    decreases n,
{
    if n <= 0 || n > results.len() {
        Seq::empty()
    } else {
        let gs = spec_groups_upto(results, n - 1);
        let item = results[n - 1];
        if item.is_deleted {
            gs
        } else {
            spec_add_group(
                gs,
                (n - 1) as usize,
                spec_target_name(item.scan_result.path@),
                item.scan_result.size.unwrap_or(0),
            )
        }
    }
}

/// Whether group `a` sorts before `b`: larger total size first.
pub open spec fn spec_group_lt() -> spec_fn(TargetGroupView, TargetGroupView) -> bool {
    |a: TargetGroupView, b: TargetGroupView| b.total_size < a.total_size
}

/// The target groups of the given backing store: grouped in order of first
/// appearance, then stably sorted by descending total size.
pub open spec fn spec_sorted_groups(results: Seq<ResultItem>) -> Seq<TargetGroupView> {
    spec_sort_by(spec_group_lt(), spec_groups_upto(results, results.len() as int))
}

/// Every index a group holds points at a live item of the store.
pub open spec fn spec_group_indices_ok(gs: Seq<TargetGroupView>, results: Seq<ResultItem>) -> bool {
    forall|k: int, m: int|
        0 <= k < gs.len() && 0 <= m < gs[k].indices.len() ==> {
            &&& #[trigger] gs[k].indices[m] < results.len()
            &&& !results[gs[k].indices[m] as int].is_deleted
        }
}

proof fn lemma_groups_upto_wf(results: Seq<ResultItem>, n: int)
    requires
        n <= results.len(),
        results.len() <= usize::MAX,
    ensures
        spec_group_indices_ok(spec_groups_upto(results, n), results),
    decreases n,
{
    if n > 0 {
        lemma_groups_upto_wf(results, n - 1);
        let gs = spec_groups_upto(results, n - 1);
        let gsn = spec_groups_upto(results, n);
        let item = results[n - 1];
        if !item.is_deleted {
            let name = spec_target_name(item.scan_result.path@);
            let size = item.scan_result.size.unwrap_or(0);
            let idx = (n - 1) as usize;
            assert(gsn == spec_add_group(gs, idx, name, size));
            match spec_group_ix_from(gs, name, 0) {
                Some(k) => {
                    lemma_group_ix_in_range(gs, name, 0);
                    assert forall|a: int, b: int|
                        0 <= a < gsn.len() && 0 <= b < gsn[a].indices.len() implies {
                        &&& #[trigger] gsn[a].indices[b] < results.len()
                        &&& !results[gsn[a].indices[b] as int].is_deleted
                    } by {
                        if a == k {
                            assert(gsn[a].indices == gs[k].indices.push(idx));
                            if b < gs[k].indices.len() {
                                assert(gs[k].indices[b] < results.len());
                                assert(gsn[a].indices[b] == gs[k].indices[b]);
                            } else {
                                assert(gsn[a].indices[b] == idx);
                            }
                        } else {
                            assert(gsn[a] == gs[a]);
                            assert(gs[a].indices[b] < results.len());
                        }
                    }
                },
                None => {
                    assert forall|a: int, b: int|
                        0 <= a < gsn.len() && 0 <= b < gsn[a].indices.len() implies {
                        &&& #[trigger] gsn[a].indices[b] < results.len()
                        &&& !results[gsn[a].indices[b] as int].is_deleted
                    } by {
                        if a < gs.len() {
                            assert(gsn[a] == gs[a]);
                            assert(gs[a].indices[b] < results.len());
                        } else {
                            assert(gsn[a].indices == seq![idx]);
                            assert(gsn[a].indices[b] == idx);
                        }
                    }
                },
            }
        } else {
            assert(gsn == gs);
        }
    }
}

proof fn lemma_group_ix_in_range(gs: Seq<TargetGroupView>, name: Seq<char>, i: int)
    ensures
        spec_group_ix_from(gs, name, i) matches Some(k) ==> i <= k < gs.len() && gs[k].name
            == name,
    decreases gs.len() - i,
{
    if 0 <= i < gs.len() && gs[i].name != name {
        lemma_group_ix_in_range(gs, name, i + 1);
    }
}

/// The sorted groups hold only live in-range indices.
pub proof fn lemma_sorted_groups_wf(results: Seq<ResultItem>)
    requires
        results.len() <= usize::MAX,
    ensures
        spec_group_indices_ok(spec_sorted_groups(results), results),
{
    broadcast use vstd::seq_lib::group_to_multiset_ensures;

    lemma_groups_upto_wf(results, results.len() as int);
    let unsorted = spec_groups_upto(results, results.len() as int);
    let sorted = spec_sorted_groups(results);
    lemma_sort_by_multiset(spec_group_lt(), unsorted);
    assert forall|k: int, m: int|
        0 <= k < sorted.len() && 0 <= m < sorted[k].indices.len() implies {
        &&& #[trigger] sorted[k].indices[m] < results.len()
        &&& !results[sorted[k].indices[m] as int].is_deleted
    } by {
        assert(sorted.contains(sorted[k]));
        assert(sorted.to_multiset().count(sorted[k]) > 0);
        assert(unsorted.to_multiset().count(sorted[k]) > 0);
        assert(unsorted.contains(sorted[k]));
        let j = choose|j: int| 0 <= j < unsorted.len() && unsorted[j] == sorted[k];
        assert(unsorted[j].indices[m] < results.len());
    }
}

/// The indices of the non-tombstoned items among the first `n`, ascending.
pub open spec fn spec_live_upto(results: Seq<ResultItem>, n: int) -> Seq<usize>
    decreases n,
{
    if n <= 0 || n > results.len() {
        Seq::empty()
    } else {
        let s = spec_live_upto(results, n - 1);
        if results[n - 1].is_deleted {
            s
        } else {
            s.push((n - 1) as usize)
        }
    }
}

pub proof fn lemma_live_upto_wf(results: Seq<ResultItem>, n: int)
    requires
        n <= results.len(),
        results.len() <= usize::MAX,
    ensures
        forall|m: int|
            0 <= m < spec_live_upto(results, n).len() ==> {
                &&& #[trigger] spec_live_upto(results, n)[m] < n
                &&& !results[spec_live_upto(results, n)[m] as int].is_deleted
            },
    decreases n,
{
    if n > 0 {
        lemma_live_upto_wf(results, n - 1);
        let s = spec_live_upto(results, n - 1);
        let sn = spec_live_upto(results, n);
        if results[n - 1].is_deleted {
            assert(sn == s);
        } else {
            assert(sn == s.push((n - 1) as usize));
            assert forall|m: int| 0 <= m < sn.len() implies {
                &&& #[trigger] sn[m] < n
                &&& !results[sn[m] as int].is_deleted
            } by {
                if m < s.len() {
                    assert(sn[m] == s[m]);
                    assert(s[m] < n - 1 + 1);
                } else {
                    assert(sn[m] == (n - 1) as usize);
                }
            }
        }
    }
}

/// The base index list of a tab: every live index for the `All` tab, a
/// group's own indices for a group tab.
pub open spec fn spec_base_indices(results: Seq<ResultItem>, tab: int) -> Seq<usize> {
    let groups = spec_sorted_groups(results);
    if tab == 0 || groups.len() == 0 {
        spec_live_upto(results, results.len() as int)
    } else {
        groups[tab - 1].indices
    }
}

/// Whether the item at `idx` matches the search query: an empty query
/// matches everything, otherwise the lowercased path must contain the
/// lowercased query.
pub open spec fn spec_query_keep(results: Seq<ResultItem>, query: Seq<char>, idx: usize) -> bool {
    query.len() == 0 || spec_contains(
        spec_lower(results[idx as int].scan_result.path@),
        spec_lower(query),
    )
}

/// The query predicate over backing indices.
pub open spec fn spec_query_pred(results: Seq<ResultItem>, query: Seq<char>) -> spec_fn(usize) -> bool {
    |i: usize| spec_query_keep(results, query, i)
}

/// The base indices that match the search query.
pub open spec fn spec_query_filter(
    results: Seq<ResultItem>,
    base: Seq<usize>,
    query: Seq<char>,
) -> Seq<usize> {
    base.filter(spec_query_pred(results, query))
}

/// Whether index `a` sorts strictly before `b` under the given order:
/// size descending (unknown as zero), path ascending lexicographic, or age
/// ascending by modification time (unknown as oldest).
pub open spec fn spec_item_lt(results: Seq<ResultItem>, order: SortOrder) -> spec_fn(usize, usize) -> bool {
    |a: usize, b: usize|
        match order {
            SortOrder::Size => results[b as int].scan_result.size.unwrap_or(0) < results[a as int].scan_result.size.unwrap_or(0),
            SortOrder::Path => spec_lex_lt(
                results[a as int].scan_result.path@,
                results[b as int].scan_result.path@,
            ),
            SortOrder::Age => results[a as int].scan_result.modified.unwrap_or(0) < results[b as int].scan_result.modified.unwrap_or(0),
        }
}

/// The displayed index list: the active tab's indices, filtered by the
/// query, stably sorted under the active order.
pub open spec fn spec_display_indices(
    results: Seq<ResultItem>,
    tab: int,
    query: Seq<char>,
    order: SortOrder,
) -> Seq<usize> {
    spec_sort_by(
        spec_item_lt(results, order),
        spec_query_filter(results, spec_base_indices(results, tab), query),
    )
}

/// The active tab clamped to the rebuilt groups: a tab beyond the last
/// group falls back to `All`.
pub open spec fn spec_clamped_tab(results: Seq<ResultItem>, tab: int) -> int {
    if tab > spec_sorted_groups(results).len() {
        0
    } else {
        tab
    }
}

/// The cursor clamped to a list of the given length; an empty list leaves
/// it where it was.
pub open spec fn spec_clamped_cursor(cursor: int, len: int) -> int {
    if cursor >= len && len > 0 {
        len - 1
    } else {
        cursor
    }
}

fn sort_groups(v: Vec<TargetGroup>) -> (r: Vec<TargetGroup>)
    ensures
        group_views(r@) == spec_sort_by(spec_group_lt(), group_views(v@)),
{
    let ghost lt = spec_group_lt();
    let mut out: Vec<TargetGroup> = Vec::new();
    let mut i: usize = 0;
    proof {
        assert(group_views(v@).take(0) =~= Seq::<TargetGroupView>::empty());
        assert(group_views(out@) =~= Seq::<TargetGroupView>::empty());
    }
    while i < v.len()
        invariant
            lt == spec_group_lt(),
            i <= v@.len(),
            group_views(out@) == spec_sort_by(lt, group_views(v@).take(i as int)),
        decreases v@.len() - i,
    {
        let x = v[i].clone();
        proof {
            assert(x@ == group_views(v@)[i as int]);
        }
        let mut p: usize = 0;
        while p < out.len() && !(out[p].total_size < x.total_size)
            invariant
                lt == spec_group_lt(),
                x@ == group_views(v@)[i as int],
                i < v@.len(),
                p <= out@.len(),
                forall|k: int| 0 <= k < p ==> !lt(x@, #[trigger] group_views(out@)[k]),
            decreases out@.len() - p,
        {
            proof {
                assert(group_views(out@)[p as int] == out@[p as int]@);
                assert(!lt(x@, group_views(out@)[p as int]));
            }
            p = p + 1;
        }
        proof {
            if p < out.len() {
                assert(group_views(out@)[p as int] == out@[p as int]@);
                assert(lt(x@, group_views(out@)[p as int]));
            }
            lemma_insert_by_at(lt, group_views(out@), x@, p as int);
            lemma_sort_by_push(lt, group_views(v@).take(i as int), group_views(v@)[i as int]);
            assert(group_views(v@).take(i + 1) =~= group_views(v@).take(i as int).push(
                group_views(v@)[i as int],
            ));
        }
        let ghost pre = out@;
        out.insert(p, x);
        proof {
            assert(group_views(out@) =~= group_views(pre).take(p as int) + seq![x@] + group_views(
                pre,
            ).skip(p as int));
        }
        i = i + 1;
    }
    proof {
        assert(group_views(v@).take(v@.len() as int) =~= group_views(v@));
    }
    out
}

fn add_group(groups: &mut Vec<TargetGroup>, idx: usize, name: String, size: u64)
    ensures
        group_views(final(groups)@) == spec_add_group(group_views(old(groups)@), idx, name@, size),
{
    let mut i: usize = 0;
    while i < groups.len()
        invariant
            groups@ == old(groups)@,
            i <= groups@.len(),
            spec_group_ix_from(group_views(groups@), name@, 0) == spec_group_ix_from(
                group_views(groups@),
                name@,
                i as int,
            ),
        decreases groups@.len() - i,
    {
        proof {
            assert(group_views(groups@)[i as int] == groups@[i as int]@);
        }
        if str_eq(groups[i].name.as_str(), name.as_str()) {
            let e = &groups[i];
            let mut indices = snapshot_indices(&e.indices);
            indices.push(idx);
            let updated = TargetGroup {
                name: e.name.clone(),
                indices,
                total_size: sat_add_u64(e.total_size, size),
                count: sat_inc_usize(e.count),
            };
            let ghost pre = group_views(groups@);
            groups.set(i, updated);
            proof {
                assert(group_views(groups@) =~~= spec_add_group(pre, idx, name@, size));
            }
            return ;
        }
        i = i + 1;
    }
    proof {
        assert(spec_group_ix_from(group_views(groups@), name@, groups@.len() as int) is None);
        assert(group_views(groups@).len() == groups@.len());
    }
    let mut indices: Vec<usize> = Vec::new();
    indices.push(idx);
    let ghost pre = group_views(groups@);
    groups.push(TargetGroup { name, indices, total_size: size, count: 1 });
    proof {
        assert(group_views(groups@) =~~= spec_add_group(pre, idx, name@, size));
    }
}

/// Compares two backing indices under the given order.
fn item_lt(results: &Vec<ResultItem>, order: SortOrder, a: usize, b: usize) -> (r: bool)
    requires
        a < results@.len(),
        b < results@.len(),
    ensures
        r == spec_item_lt(results@, order)(a, b),
{
    match order {
        SortOrder::Size => {
            let sa = match results[a].scan_result.size {
                Some(s) => s,
                None => 0,
            };
            let sb = match results[b].scan_result.size {
                Some(s) => s,
                None => 0,
            };
            sb < sa
        },
        SortOrder::Path => str_lex_lt(
            results[a].scan_result.path.as_str(),
            results[b].scan_result.path.as_str(),
        ),
        SortOrder::Age => {
            let ta = match results[a].scan_result.modified {
                Some(t) => t,
                None => 0,
            };
            let tb = match results[b].scan_result.modified {
                Some(t) => t,
                None => 0,
            };
            ta < tb
        },
    }
}

/// The view of an optional home directory string.
pub open spec fn spec_home_view(h: Option<String>) -> Option<Seq<char>> {
    match h {
        Some(s) => Some(s@),
        None => None,
    }
}

/// Whether one scan result survives sensitivity exclusion.
pub open spec fn spec_kept_pred(
    exclude_sensitive: bool,
    home: Option<Seq<char>>,
) -> spec_fn(ScanResult) -> bool {
    |r: ScanResult| !(exclude_sensitive && spec_analyze_risk(r.path@, home).is_sensitive)
}

/// The scan results of a batch that survive sensitivity exclusion.
pub open spec fn spec_kept(
    batch: Seq<ScanResult>,
    exclude_sensitive: bool,
    home: Option<Seq<char>>,
) -> Seq<ScanResult> {
    batch.filter(spec_kept_pred(exclude_sensitive, home))
}

/// `item` with its selection flag set to `b`.
pub open spec fn spec_with_selected(item: ResultItem, b: bool) -> ResultItem {
    ResultItem {
        scan_result: item.scan_result,
        risk: item.risk,
        is_selected: b,
        is_deleting: item.is_deleting,
        is_deleted: item.is_deleted,
    }
}

/// The first position of `x` in `s`, from `i` on.
pub open spec fn spec_index_of_from(s: Seq<usize>, x: usize, i: int) -> Option<int>
    decreases s.len() - i,
{
    if i < 0 || i >= s.len() {
        None
    } else if s[i] == x {
        Some(i)
    } else {
        spec_index_of_from(s, x, i + 1)
    }
}

/// The selection after selecting the first `n` displayed indices, each
/// added once.
pub open spec fn spec_selected_after(sel: Seq<usize>, idxs: Seq<usize>, n: int) -> Seq<usize>
    decreases n,
{
    if n <= 0 || n > idxs.len() {
        sel
    } else {
        let s = spec_selected_after(sel, idxs, n - 1);
        if s.contains(idxs[n - 1]) {
            s
        } else {
            s.push(idxs[n - 1])
        }
    }
}

/// `n + 1` with wrap-around at `usize::MAX`.
pub open spec fn spec_wrap_inc_usize(n: usize) -> usize {
    if n == usize::MAX {
        0
    } else {
        (n + 1) as usize
    }
}

/// The scroll offset that keeps the cursor visible, two rows above the
/// bottom of the viewport.
pub open spec fn spec_adjusted_scroll(cursor: int, scroll: int, height: int, len: int) -> int {
    if len == 0 {
        0
    } else if cursor < scroll {
        cursor
    } else if cursor + 2 >= scroll + height {
        if cursor + 3 - height <= usize::MAX {
            cursor + 3 - height
        } else {
            usize::MAX as int
        }
    } else {
        scroll
    }
}

/// The tab scroll offset that keeps the active tab visible.
pub open spec fn spec_adjusted_tab_scroll(
    active_tab: int,
    offset: int,
    groups_len: int,
    visible: int,
) -> int {
    if active_tab == 0 || groups_len == 0 {
        offset
    } else {
        let g = active_tab - 1;
        let o1 = if g < offset {
            g
        } else {
            offset
        };
        let o2 = if visible > 0 && g >= o1 + visible {
            g - visible + 1
        } else {
            o1
        };
        let maxo = if groups_len >= visible {
            groups_len - visible
        } else {
            0
        };
        if o2 <= maxo {
            o2
        } else {
            maxo
        }
    }
}

/// Where the cursor lands after moving by `delta`, clamped to the list.
pub open spec fn spec_moved_cursor(cursor: int, delta: int, len: int) -> int {
    let maxp = if len > 0 {
        len - 1
    } else {
        0
    };
    if delta >= 0 {
        if cursor + delta <= maxp {
            cursor + delta
        } else {
            maxp
        }
    } else {
        if cursor + delta >= 0 {
            cursor + delta
        } else {
            0
        }
    }
}

/// The spinner glyph for a tick counter.
pub open spec fn spec_spinner_char(tick: usize) -> char {
    let k = tick % 10;
    if k == 0 {
        '\u{280b}'
    } else if k == 1 {
        '\u{2819}'
    } else if k == 2 {
        '\u{2839}'
    } else if k == 3 {
        '\u{2838}'
    } else if k == 4 {
        '\u{283c}'
    } else if k == 5 {
        '\u{2834}'
    } else if k == 6 {
        '\u{2826}'
    } else if k == 7 {
        '\u{2827}'
    } else if k == 8 {
        '\u{2807}'
    } else {
        '\u{280f}'
    }
}

/// Stably sorts backing indices under the given order.
fn sort_indices(results: &Vec<ResultItem>, idxs: Vec<usize>, order: SortOrder) -> (r: Vec<usize>)
    requires
        forall|k: int| 0 <= k < idxs@.len() ==> idxs@[k] < results@.len(),
    ensures
        r@ == spec_sort_by(spec_item_lt(results@, order), idxs@),
        forall|k: int| 0 <= k < r@.len() ==> r@[k] < results@.len(),
{
    let ghost lt = spec_item_lt(results@, order);
    let mut out: Vec<usize> = Vec::new();
    let mut i: usize = 0;
    proof {
        assert(idxs@.take(0) =~= Seq::<usize>::empty());
    }
    while i < idxs.len()
        invariant
            lt == spec_item_lt(results@, order),
            forall|k: int| 0 <= k < idxs@.len() ==> idxs@[k] < results@.len(),
            i <= idxs@.len(),
            out@ == spec_sort_by(lt, idxs@.take(i as int)),
            forall|k: int| 0 <= k < out@.len() ==> out@[k] < results@.len(),
        decreases idxs@.len() - i,
    {
        let x = idxs[i];
        let mut p: usize = 0;
        while p < out.len() && !item_lt(results, order, x, out[p])
            invariant
                lt == spec_item_lt(results@, order),
                x < results@.len(),
                forall|k: int| 0 <= k < out@.len() ==> out@[k] < results@.len(),
                p <= out@.len(),
                forall|k: int| 0 <= k < p ==> !lt(x, #[trigger] out@[k]),
            decreases out@.len() - p,
        {
            p = p + 1;
        }
        proof {
            lemma_insert_by_at(lt, out@, x, p as int);
            lemma_sort_by_push(lt, idxs@.take(i as int), x);
            assert(idxs@.take(i + 1) =~= idxs@.take(i as int).push(idxs@[i as int]));
        }
        let ghost pre = out@;
        out.insert(p, x);
        proof {
            assert(out@ =~= pre.take(p as int) + seq![x] + pre.skip(p as int));
        }
        i = i + 1;
    }
    proof {
        assert(idxs@.take(idxs@.len() as int) =~= idxs@);
    }
    out
}

/// The authoritative store of discovered items and every derived view.
///
/// The backing store `results` is append-only: once an item occupies index
/// `i`, no operation changes which logical item lives there. Deletion only
/// tombstones. Background completions are addressed by backing index, so
/// they are safe to apply in any order.
#[derive(Debug)]
pub struct App {
    pub results: Vec<ResultItem>,
    pub filtered_indices: Vec<usize>,
    pub cursor: usize,
    pub scroll_offset: usize,
    pub panel: Panel,
    pub mode: Mode,
    pub sort_order: SortOrder,
    pub search_query: String,
    pub needs_filter: bool,
    pub needs_sort: bool,
    pub scanning: bool,
    pub total_size: u64,
    pub freed_size: u64,
    pub errors: Vec<String>,
    pub selected_indices: Vec<usize>,
    pub visible_height: usize,
    pub exclude_sensitive: bool,
    pub sizes_calculated: usize,
    pub spinner_tick: usize,
    pub sort_flash: usize,
    pub analytics: AnalyticsData,
    pub analytics_scroll: usize,
    pub target_groups: Vec<TargetGroup>,
    pub active_tab: usize,
    pub tab_scroll_offset: usize,
    pub visible_group_count: usize,
    pub home: Option<String>,
}

/// The fields no view rebuild touches are equal.
pub open spec fn spec_core_unchanged(a: App, b: App) -> bool {
    &&& b.results == a.results
    &&& b.total_size == a.total_size
    &&& b.freed_size == a.freed_size
    &&& b.errors == a.errors
    &&& b.selected_indices == a.selected_indices
    &&& b.sizes_calculated == a.sizes_calculated
    &&& b.scanning == a.scanning
    &&& b.exclude_sensitive == a.exclude_sensitive
    &&& b.home == a.home
    &&& b.analytics == a.analytics
}

/// The interaction preferences are equal.
pub open spec fn spec_prefs_unchanged(a: App, b: App) -> bool {
    &&& b.panel == a.panel
    &&& b.mode == a.mode
    &&& b.sort_order == a.sort_order
    &&& b.search_query == a.search_query
    &&& b.needs_filter == a.needs_filter
    &&& b.needs_sort == a.needs_sort
    &&& b.visible_height == a.visible_height
    &&& b.spinner_tick == a.spinner_tick
    &&& b.sort_flash == a.sort_flash
    &&& b.analytics_scroll == a.analytics_scroll
    &&& b.visible_group_count == a.visible_group_count
    &&& b.scroll_offset == a.scroll_offset
    &&& b.tab_scroll_offset == a.tab_scroll_offset
}

/// The derived views of `post` are exactly the rebuild of `pre`: groups
/// refolded and re-sorted, the tab clamped, the index list refiltered and
/// re-sorted, the cursor clamped.
pub open spec fn spec_views_rebuilt(pre: App, post: App) -> bool {
    &&& group_views(post.target_groups@) == spec_sorted_groups(pre.results@)
    &&& post.active_tab == spec_clamped_tab(pre.results@, pre.active_tab as int)
    &&& post.filtered_indices@ == spec_display_indices(
        pre.results@,
        post.active_tab as int,
        pre.search_query@,
        pre.sort_order,
    )
    &&& post.cursor == spec_clamped_cursor(
        pre.cursor as int,
        post.filtered_indices@.len() as int,
    )
}

impl App {
    /// A fresh application state: empty store, empty views, scanning. The
    /// environment's home directory is read once, here, and every later
    /// classification uses it.
    pub fn new(exclude_sensitive: bool, sort_order: SortOrder) -> (r: App)
        ensures
            r.results@ == Seq::<ResultItem>::empty(),
            r.filtered_indices@ == Seq::<usize>::empty(),
            r.cursor == 0,
            r.scroll_offset == 0,
            r.panel == Panel::Results,
            r.mode == Mode::Normal,
            r.sort_order == sort_order,
            r.search_query@ == Seq::<char>::empty(),
            !r.needs_filter,
            !r.needs_sort,
            r.scanning,
            r.total_size == 0,
            r.freed_size == 0,
            r.errors@ == Seq::<String>::empty(),
            r.selected_indices@ == Seq::<usize>::empty(),
            r.visible_height == 20,
            r.exclude_sensitive == exclude_sensitive,
            r.sizes_calculated == 0,
            r.spinner_tick == 0,
            r.sort_flash == 0,
            r.analytics.by_target@ == Seq::<crate::analytics::TargetStats>::empty(),
            r.analytics.by_profile@ == Seq::<crate::analytics::ProfileStats>::empty(),
            r.analytics.top_largest@ == Seq::<crate::analytics::LargestItem>::empty(),
            r.analytics.top_largest_limit == 5,
            !r.analytics.scan_complete,
            !r.analytics.sizes_complete,
            r.analytics_scroll == 0,
            r.target_groups@ == Seq::<TargetGroup>::empty(),
            r.active_tab == 0,
            r.tab_scroll_offset == 0,
            r.visible_group_count == 5,
    {
        let r = App {
            results: Vec::new(),
            filtered_indices: Vec::new(),
            cursor: 0,
            scroll_offset: 0,
            panel: Panel::Results,
            mode: Mode::Normal,
            sort_order,
            search_query: String::new(),
            needs_filter: false,
            needs_sort: false,
            scanning: true,
            total_size: 0,
            freed_size: 0,
            errors: Vec::new(),
            selected_indices: Vec::new(),
            visible_height: 20,
            exclude_sensitive,
            sizes_calculated: 0,
            spinner_tick: 0,
            sort_flash: 0,
            analytics: AnalyticsData::new(),
            analytics_scroll: 0,
            target_groups: Vec::new(),
            active_tab: 0,
            tab_scroll_offset: 0,
            visible_group_count: 5,
            home: crate::risk::home_dir_string(),
        };
        proof {
            assert(r.results@ =~= Seq::<ResultItem>::empty());
            assert(r.filtered_indices@ =~= Seq::<usize>::empty());
            assert(r.errors@ =~= Seq::<String>::empty());
            assert(r.selected_indices@ =~= Seq::<usize>::empty());
            assert(r.target_groups@ =~= Seq::<TargetGroup>::empty());
        }
        r
    }

    /// Rebuilds every derived view from the backing store: the one place
    /// that recomputes groups, tab, filtered indices and cursor. Idempotent,
    /// and safe to call redundantly.
    fn rebuild_display_indices(&mut self)
        ensures
            spec_core_unchanged(*old(self), *final(self)),
            spec_prefs_unchanged(*old(self), *final(self)),
            spec_views_rebuilt(*old(self), *final(self)),
    {
        let ghost rs = self.results@;
        let mut groups: Vec<TargetGroup> = Vec::new();
        let mut idx: usize = 0;
        proof {
            assert(group_views(groups@) =~= spec_groups_upto(rs, 0));
        }
        while idx < self.results.len()
            invariant
                *self == *old(self),
                rs == self.results@,
                idx <= rs.len(),
                group_views(groups@) == spec_groups_upto(rs, idx as int),
            decreases rs.len() - idx,
        {
            if !self.results[idx].is_deleted {
                let name = extract_target_name(self.results[idx].scan_result.path.as_str());
                let size = match self.results[idx].scan_result.size {
                    Some(s) => s,
                    None => 0,
                };
                add_group(&mut groups, idx, name, size);
            }
            idx = idx + 1;
            proof {
                assert(group_views(groups@) == spec_groups_upto(rs, idx as int));
            }
        }
        let sorted = sort_groups(groups);
        self.target_groups = sorted;
        proof {
            assert(group_views(self.target_groups@) == spec_sorted_groups(rs));
        }
        if self.active_tab > self.target_groups.len() {
            self.active_tab = 0;
        }
        proof {
            assert(group_views(self.target_groups@).len() == self.target_groups@.len());
            assert(self.active_tab == spec_clamped_tab(rs, old(self).active_tab as int));
            lemma_sorted_groups_wf(rs);
        }

        let mut base: Vec<usize> = Vec::new();
        if self.active_tab == 0 || self.target_groups.len() == 0 {
            let mut i: usize = 0;
            proof {
                assert(base@ =~= spec_live_upto(rs, 0));
            }
            while i < self.results.len()
                invariant
                    rs == self.results@,
                    i <= rs.len(),
                    base@ == spec_live_upto(rs, i as int),
                decreases rs.len() - i,
            {
                if !self.results[i].is_deleted {
                    base.push(i);
                }
                i = i + 1;
                proof {
                    assert(base@ == spec_live_upto(rs, i as int));
                }
            }
            proof {
                lemma_live_upto_wf(rs, rs.len() as int);
                assert(base@ == spec_base_indices(rs, self.active_tab as int));
            }
        } else {
            let t = self.active_tab;
            base = snapshot_indices(&self.target_groups[t - 1].indices);
            proof {
                assert(group_views(self.target_groups@)[t - 1] == self.target_groups@[t - 1]@);
                assert(base@ == spec_sorted_groups(rs)[t - 1].indices);
                assert(base@ == spec_base_indices(rs, t as int));
            }
        }
        proof {
            assert(forall|k: int| 0 <= k < base@.len() ==> #[trigger] base@[k] < rs.len());
        }

        let ghost query = self.search_query@;
        let ghost qpred = spec_query_pred(rs, query);
        let query_l = lower_chars(&str_chars(self.search_query.as_str()));
        let mut filtered: Vec<usize> = Vec::new();
        let mut i: usize = 0;
        proof {
            assert(base@.take(0) =~= Seq::<usize>::empty());
            assert(Seq::<usize>::empty().filter(qpred) =~= Seq::<usize>::empty()) by {
                reveal_with_fuel(Seq::filter, 2);
            }
        }
        while i < base.len()
            invariant
                rs == self.results@,
                query == self.search_query@,
                qpred == spec_query_pred(rs, query),
                query_l@ == spec_lower(query),
                forall|k: int| 0 <= k < base@.len() ==> #[trigger] base@[k] < rs.len(),
                i <= base@.len(),
                filtered@ == base@.take(i as int).filter(qpred),
                forall|k: int| 0 <= k < filtered@.len() ==> #[trigger] filtered@[k] < rs.len(),
            decreases base@.len() - i,
        {
            let bi = base[i];
            let keep = if query_l.len() == 0 {
                true
            } else {
                let path_l = lower_chars(&str_chars(self.results[bi].scan_result.path.as_str()));
                contains_chars(&path_l, &query_l)
            };
            proof {
                assert(keep == spec_query_keep(rs, query, bi));
                assert(qpred(bi) == spec_query_keep(rs, query, bi));
                crate::sorting::lemma_filter_push(base@.take(i as int), qpred, bi);
                assert(base@.take(i + 1) =~= base@.take(i as int).push(bi));
            }
            if keep {
                filtered.push(bi);
            }
            i = i + 1;
        }
        proof {
            assert(base@.take(base@.len() as int) =~= base@);
            assert(filtered@ == spec_query_filter(rs, base@, query));
        }
        let order = self.sort_order;
        let sorted_idx = sort_indices(&self.results, filtered, order);
        self.filtered_indices = sorted_idx;
        proof {
            assert(self.filtered_indices@ == spec_display_indices(
                rs,
                self.active_tab as int,
                query,
                order,
            ));
        }
        if self.cursor >= self.filtered_indices.len() && self.filtered_indices.len() > 0 {
            self.cursor = self.filtered_indices.len() - 1;
        }
    }

    /// Ingests a batch: classifies each result, drops sensitive ones when
    /// exclusion is on, appends the rest — never moving an existing item —
    /// and rebuilds the derived views.
    pub fn add_results(&mut self, results: Vec<ScanResult>)
        ensures
            ({
                let home = spec_home_view(old(self).home);
                let kept = spec_kept(results@, old(self).exclude_sensitive, home);
                &&& final(self).results@.len() == old(self).results@.len() + kept.len()
                &&& forall|j: int|
                    0 <= j < old(self).results@.len() ==> final(self).results@[j] == old(
                        self,
                    ).results@[j]
                &&& forall|j: int|
                    0 <= j < kept.len() ==> spec_classified_item(
                        #[trigger] final(self).results@[old(self).results@.len() + j],
                        kept[j],
                        home,
                    )
            }),
            group_views(final(self).target_groups@) == spec_sorted_groups(final(self).results@),
            final(self).active_tab == spec_clamped_tab(
                final(self).results@,
                old(self).active_tab as int,
            ),
            final(self).filtered_indices@ == spec_display_indices(
                final(self).results@,
                final(self).active_tab as int,
                old(self).search_query@,
                old(self).sort_order,
            ),
            final(self).cursor == spec_clamped_cursor(
                old(self).cursor as int,
                final(self).filtered_indices@.len() as int,
            ),
            final(self).total_size == old(self).total_size,
            final(self).freed_size == old(self).freed_size,
            final(self).errors == old(self).errors,
            final(self).selected_indices == old(self).selected_indices,
            final(self).sizes_calculated == old(self).sizes_calculated,
            final(self).scanning == old(self).scanning,
            final(self).exclude_sensitive == old(self).exclude_sensitive,
            final(self).home == old(self).home,
            final(self).panel == old(self).panel,
            final(self).mode == old(self).mode,
            final(self).sort_order == old(self).sort_order,
            final(self).search_query == old(self).search_query,
            final(self).needs_filter == old(self).needs_filter,
            final(self).needs_sort == old(self).needs_sort,
            final(self).visible_height == old(self).visible_height,
            final(self).spinner_tick == old(self).spinner_tick,
            final(self).sort_flash == old(self).sort_flash,
            final(self).analytics_scroll == old(self).analytics_scroll,
            final(self).visible_group_count == old(self).visible_group_count,
            final(self).scroll_offset == old(self).scroll_offset,
            final(self).tab_scroll_offset == old(self).tab_scroll_offset,
    {
        let ghost home = spec_home_view(old(self).home);
        let ghost batch = results@;
        let ghost kpred = spec_kept_pred(old(self).exclude_sensitive, home);
        let home_c: Option<String> = match &self.home {
            Some(h) => Some(h.clone()),
            None => None,
        };
        let mut i: usize = 0;
        proof {
            assert(batch.take(0) =~= Seq::<ScanResult>::empty());
            assert(Seq::<ScanResult>::empty().filter(kpred) =~= Seq::<ScanResult>::empty()) by {
                reveal_with_fuel(Seq::filter, 2);
            }
        }
        while i < results.len()
            invariant
                batch == results@,
                home == spec_home_view(old(self).home),
                kpred == spec_kept_pred(old(self).exclude_sensitive, home),
                spec_home_view(home_c) == home,
                spec_ingest_frame_but_analytics(*old(self), *self),
                i <= batch.len(),
                self.results@.len() == old(self).results@.len() + batch.take(i as int).filter(
                    kpred,
                ).len(),
                forall|j: int|
                    0 <= j < old(self).results@.len() ==> self.results@[j] == old(
                        self,
                    ).results@[j],
                forall|j: int|
                    0 <= j < batch.take(i as int).filter(kpred).len() ==> spec_classified_item(
                        #[trigger] self.results@[old(self).results@.len() + j],
                        batch.take(i as int).filter(kpred)[j],
                        home,
                    ),
            decreases batch.len() - i,
        {
            let r = results[i].clone();
            let ghost rv = batch[i as int];
            let item = match &home_c {
                Some(h) => ResultItem::from_scan_result_with_home(r, Some(h.as_str())),
                None => ResultItem::from_scan_result_with_home(r, None),
            };
            proof {
                assert(spec_classified_item(item, rv, home));
            }
            let keep = !(self.exclude_sensitive && item.risk.is_sensitive);
            proof {
                assert(keep == kpred(rv));
                crate::sorting::lemma_filter_push(batch.take(i as int), kpred, rv);
                assert(batch.take(i + 1) =~= batch.take(i as int).push(rv));
            }
            if keep {
                self.analytics.record_result(
                    item.scan_result.path.as_str(),
                    item.scan_result.size,
                );
                self.results.push(item);
            }
            i = i + 1;
        }
        proof {
            assert(batch.take(batch.len() as int) =~= batch);
        }
        self.rebuild_display_indices();
    }

    /// Applies a size completion addressed to backing index `index`: only
    /// that item changes, and only its size and file count; the re-sort is
    /// deferred to the next tick. An index out of range changes nothing.
    pub fn update_size(&mut self, index: usize, size: u64, file_count: u64)
        ensures
            index < old(self).results@.len() ==> {
                &&& final(self).results@ == old(self).results@.update(
                    index as int,
                    (ResultItem {
                        scan_result: (ScanResult {
                            path: old(self).results@[index as int].scan_result.path,
                            size: Some(size),
                            file_count: Some(file_count),
                            modified: old(self).results@[index as int].scan_result.modified,
                            is_sensitive: old(
                                self,
                            ).results@[index as int].scan_result.is_sensitive,
                        }),
                        risk: old(self).results@[index as int].risk,
                        is_selected: old(self).results@[index as int].is_selected,
                        is_deleting: old(self).results@[index as int].is_deleting,
                        is_deleted: old(self).results@[index as int].is_deleted,
                    }),
                )
                &&& final(self).total_size == spec_sat_add_u64(old(self).total_size, size)
                &&& final(self).sizes_calculated == spec_sat_inc_usize(old(self).sizes_calculated)
                &&& final(self).needs_sort
                &&& final(self).analytics.top_largest_limit
                    == old(self).analytics.top_largest_limit
                &&& final(self).analytics.scan_complete == old(self).analytics.scan_complete
                &&& final(self).analytics.sizes_complete == old(self).analytics.sizes_complete
            },
            index >= old(self).results@.len() ==> *final(self) == *old(self),
            final(self).filtered_indices == old(self).filtered_indices,
            final(self).target_groups == old(self).target_groups,
            final(self).cursor == old(self).cursor,
            final(self).scroll_offset == old(self).scroll_offset,
            final(self).active_tab == old(self).active_tab,
            final(self).tab_scroll_offset == old(self).tab_scroll_offset,
            final(self).panel == old(self).panel,
            final(self).mode == old(self).mode,
            final(self).sort_order == old(self).sort_order,
            final(self).search_query == old(self).search_query,
            final(self).needs_filter == old(self).needs_filter,
            final(self).scanning == old(self).scanning,
            final(self).freed_size == old(self).freed_size,
            final(self).errors == old(self).errors,
            final(self).selected_indices == old(self).selected_indices,
            final(self).visible_height == old(self).visible_height,
            final(self).exclude_sensitive == old(self).exclude_sensitive,
            final(self).spinner_tick == old(self).spinner_tick,
            final(self).sort_flash == old(self).sort_flash,
            final(self).analytics_scroll == old(self).analytics_scroll,
            final(self).visible_group_count == old(self).visible_group_count,
            final(self).home == old(self).home,
    {
        if index < self.results.len() {
            let old_size = self.results[index].scan_result.size;
            let path_c = self.results[index].scan_result.path.clone();
            let updated = ResultItem {
                scan_result: ScanResult {
                    path: self.results[index].scan_result.path.clone(),
                    size: Some(size),
                    file_count: Some(file_count),
                    modified: self.results[index].scan_result.modified,
                    is_sensitive: self.results[index].scan_result.is_sensitive,
                },
                risk: self.results[index].risk.clone(),
                is_selected: self.results[index].is_selected,
                is_deleting: self.results[index].is_deleting,
                is_deleted: self.results[index].is_deleted,
            };
            self.results.set(index, updated);
            self.total_size = sat_add_u64(self.total_size, size);
            self.sizes_calculated = sat_inc_usize(self.sizes_calculated);
            self.needs_sort = true;
            self.analytics.update_size(path_c.as_str(), old_size, size);
        }
    }

    /// One scheduler tick: advances the spinner, fades the sort flash, and
    /// performs the deferred rebuild when a completion or deletion has
    /// marked the views dirty.
    pub fn on_tick(&mut self)
        ensures
            final(self).spinner_tick == spec_wrap_inc_usize(old(self).spinner_tick),
            final(self).sort_flash == (if old(self).sort_flash > 0 {
                old(self).sort_flash - 1
            } else {
                0int
            }),
            !final(self).needs_sort,
            !final(self).needs_filter,
            (old(self).needs_sort || old(self).needs_filter) ==> {
                &&& group_views(final(self).target_groups@) == spec_sorted_groups(
                    old(self).results@,
                )
                &&& final(self).active_tab == spec_clamped_tab(
                    old(self).results@,
                    old(self).active_tab as int,
                )
                &&& final(self).filtered_indices@ == spec_display_indices(
                    old(self).results@,
                    final(self).active_tab as int,
                    old(self).search_query@,
                    old(self).sort_order,
                )
                &&& final(self).cursor == spec_clamped_cursor(
                    old(self).cursor as int,
                    final(self).filtered_indices@.len() as int,
                )
            },
            !(old(self).needs_sort || old(self).needs_filter) ==> {
                &&& final(self).target_groups == old(self).target_groups
                &&& final(self).active_tab == old(self).active_tab
                &&& final(self).filtered_indices == old(self).filtered_indices
                &&& final(self).cursor == old(self).cursor
            },
            final(self).results == old(self).results,
            final(self).total_size == old(self).total_size,
            final(self).freed_size == old(self).freed_size,
            final(self).errors == old(self).errors,
            final(self).selected_indices == old(self).selected_indices,
            final(self).sizes_calculated == old(self).sizes_calculated,
            final(self).scanning == old(self).scanning,
            final(self).exclude_sensitive == old(self).exclude_sensitive,
            final(self).home == old(self).home,
            final(self).analytics == old(self).analytics,
            final(self).panel == old(self).panel,
            final(self).mode == old(self).mode,
            final(self).sort_order == old(self).sort_order,
            final(self).search_query == old(self).search_query,
            final(self).visible_height == old(self).visible_height,
            final(self).analytics_scroll == old(self).analytics_scroll,
            final(self).visible_group_count == old(self).visible_group_count,
            final(self).scroll_offset == old(self).scroll_offset,
            final(self).tab_scroll_offset == old(self).tab_scroll_offset,
    {
        self.spinner_tick = if self.spinner_tick == usize::MAX {
            0
        } else {
            self.spinner_tick + 1
        };
        self.sort_flash = if self.sort_flash > 0 {
            self.sort_flash - 1
        } else {
            0
        };
        if self.needs_sort {
            self.rebuild_display_indices();
            self.needs_sort = false;
        }
        if self.needs_filter {
            self.rebuild_display_indices();
            self.needs_filter = false;
        }
    }

    /// Moves to the next tab, wrapping past the last group back to `All`,
    /// and re-derives the filtered list for the new tab.
    pub fn next_tab(&mut self)
        ensures
            final(self).active_tab == spec_clamped_tab(
                old(self).results@,
                if old(self).active_tab >= old(self).target_groups@.len() {
                    0
                } else {
                    old(self).active_tab + 1
                },
            ),
            final(self).cursor == 0,
            final(self).scroll_offset == 0,
            final(self).tab_scroll_offset == spec_adjusted_tab_scroll(
                if old(self).active_tab >= old(self).target_groups@.len() {
                    0
                } else {
                    old(self).active_tab + 1
                },
                old(self).tab_scroll_offset as int,
                old(self).target_groups@.len() as int,
                old(self).visible_group_count as int,
            ),
            group_views(final(self).target_groups@) == spec_sorted_groups(old(self).results@),
            final(self).filtered_indices@ == spec_display_indices(
                old(self).results@,
                final(self).active_tab as int,
                old(self).search_query@,
                old(self).sort_order,
            ),
            spec_core_unchanged(*old(self), *final(self)),
            final(self).panel == old(self).panel,
            final(self).mode == old(self).mode,
            final(self).sort_order == old(self).sort_order,
            final(self).search_query == old(self).search_query,
            final(self).needs_filter == old(self).needs_filter,
            final(self).needs_sort == old(self).needs_sort,
            final(self).visible_height == old(self).visible_height,
            final(self).spinner_tick == old(self).spinner_tick,
            final(self).sort_flash == old(self).sort_flash,
            final(self).analytics_scroll == old(self).analytics_scroll,
            final(self).visible_group_count == old(self).visible_group_count,
    {
        if self.active_tab >= self.target_groups.len() {
            self.active_tab = 0;
        } else {
            self.active_tab = self.active_tab + 1;
        }
        self.cursor = 0;
        self.scroll_offset = 0;
        self.adjust_tab_scroll();
        self.rebuild_display_indices();
    }

    /// Moves to the previous tab, wrapping from `All` to the last group.
    pub fn prev_tab(&mut self)
        ensures
            final(self).active_tab == spec_clamped_tab(
                old(self).results@,
                if old(self).active_tab == 0 {
                    old(self).target_groups@.len() as int
                } else {
                    old(self).active_tab - 1
                },
            ),
            final(self).cursor == 0,
            final(self).scroll_offset == 0,
            final(self).tab_scroll_offset == spec_adjusted_tab_scroll(
                if old(self).active_tab == 0 {
                    old(self).target_groups@.len() as int
                } else {
                    old(self).active_tab - 1
                },
                old(self).tab_scroll_offset as int,
                old(self).target_groups@.len() as int,
                old(self).visible_group_count as int,
            ),
            group_views(final(self).target_groups@) == spec_sorted_groups(old(self).results@),
            final(self).filtered_indices@ == spec_display_indices(
                old(self).results@,
                final(self).active_tab as int,
                old(self).search_query@,
                old(self).sort_order,
            ),
            spec_core_unchanged(*old(self), *final(self)),
            final(self).panel == old(self).panel,
            final(self).mode == old(self).mode,
            final(self).sort_order == old(self).sort_order,
            final(self).search_query == old(self).search_query,
            final(self).needs_filter == old(self).needs_filter,
            final(self).needs_sort == old(self).needs_sort,
            final(self).visible_height == old(self).visible_height,
            final(self).spinner_tick == old(self).spinner_tick,
            final(self).sort_flash == old(self).sort_flash,
            final(self).analytics_scroll == old(self).analytics_scroll,
            final(self).visible_group_count == old(self).visible_group_count,
    {
        if self.active_tab == 0 {
            self.active_tab = self.target_groups.len();
        } else {
            self.active_tab = self.active_tab - 1;
        }
        self.cursor = 0;
        self.scroll_offset = 0;
        self.adjust_tab_scroll();
        self.rebuild_display_indices();
    }

    /// Adjusts the tab scroll offset so the active tab stays visible.
    pub fn adjust_tab_scroll(&mut self)
        ensures
            final(self).tab_scroll_offset == spec_adjusted_tab_scroll(
                old(self).active_tab as int,
                old(self).tab_scroll_offset as int,
                old(self).target_groups@.len() as int,
                old(self).visible_group_count as int,
            ),
            final(self).results == old(self).results,
            final(self).filtered_indices == old(self).filtered_indices,
            final(self).cursor == old(self).cursor,
            final(self).scroll_offset == old(self).scroll_offset,
            final(self).panel == old(self).panel,
            final(self).mode == old(self).mode,
            final(self).sort_order == old(self).sort_order,
            final(self).search_query == old(self).search_query,
            final(self).needs_filter == old(self).needs_filter,
            final(self).needs_sort == old(self).needs_sort,
            final(self).scanning == old(self).scanning,
            final(self).total_size == old(self).total_size,
            final(self).freed_size == old(self).freed_size,
            final(self).errors == old(self).errors,
            final(self).selected_indices == old(self).selected_indices,
            final(self).visible_height == old(self).visible_height,
            final(self).exclude_sensitive == old(self).exclude_sensitive,
            final(self).sizes_calculated == old(self).sizes_calculated,
            final(self).spinner_tick == old(self).spinner_tick,
            final(self).sort_flash == old(self).sort_flash,
            final(self).analytics == old(self).analytics,
            final(self).analytics_scroll == old(self).analytics_scroll,
            final(self).target_groups == old(self).target_groups,
            final(self).active_tab == old(self).active_tab,
            final(self).visible_group_count == old(self).visible_group_count,
            final(self).home == old(self).home,
    {
        let visible_group_count = self.visible_group_count;
        if self.active_tab == 0 || self.target_groups.len() == 0 {
            return ;
        }
        let group_idx = self.active_tab - 1;
        if group_idx < self.tab_scroll_offset {
            self.tab_scroll_offset = group_idx;
        }
        if visible_group_count > 0 && group_idx >= self.tab_scroll_offset
            && group_idx - self.tab_scroll_offset >= visible_group_count {
            self.tab_scroll_offset = group_idx - visible_group_count + 1;
        }
        let max_offset = if self.target_groups.len() >= visible_group_count {
            self.target_groups.len() - visible_group_count
        } else {
            0
        };
        if self.tab_scroll_offset > max_offset {
            self.tab_scroll_offset = max_offset;
        }
    }

    /// The size subtotal of the active tab: the grand total on `All`, the
    /// group's own total on a group tab.
    pub fn active_tab_subtotal(&self) -> (r: u64)
        requires
            self.active_tab <= self.target_groups@.len(),
        ensures
            r == if self.active_tab == 0 || self.target_groups@.len() == 0 {
                self.total_size
            } else {
                self.target_groups@[self.active_tab - 1]@.total_size
            },
    {
        if self.active_tab == 0 || self.target_groups.len() == 0 {
            self.total_size
        } else {
            self.target_groups[self.active_tab - 1].total_size
        }
    }

    /// The index the cursor rests on, as a backing index.
    pub fn current_index(&self) -> (r: Option<usize>)
        ensures
            self.cursor < self.filtered_indices@.len() ==> r == Some(
                self.filtered_indices@[self.cursor as int],
            ),
            self.cursor >= self.filtered_indices@.len() ==> r is None,
    {
        if self.cursor < self.filtered_indices.len() {
            Some(self.filtered_indices[self.cursor])
        } else {
            None
        }
    }

    /// The item the cursor rests on, when it rests on a valid one.
    pub fn current_item(&self) -> (r: Option<&ResultItem>)
        ensures
            match r {
                Some(item) => {
                    &&& self.cursor < self.filtered_indices@.len()
                    &&& self.filtered_indices@[self.cursor as int] < self.results@.len()
                    &&& *item == self.results@[self.filtered_indices@[self.cursor as int] as int]
                },
                None => self.cursor >= self.filtered_indices@.len()
                    || self.filtered_indices@[self.cursor as int] >= self.results@.len(),
            },
    {
        if self.cursor < self.filtered_indices.len() {
            let i = self.filtered_indices[self.cursor];
            if i < self.results.len() {
                Some(&self.results[i])
            } else {
                None
            }
        } else {
            None
        }
    }

    fn adjust_scroll(&mut self)
        ensures
            final(self).scroll_offset == spec_adjusted_scroll(
                old(self).cursor as int,
                old(self).scroll_offset as int,
                old(self).visible_height as int,
                old(self).filtered_indices@.len() as int,
            ),
            *final(self) == (App { scroll_offset: final(self).scroll_offset, ..*old(self) }),
    {
        if self.filtered_indices.len() == 0 {
            self.scroll_offset = 0;
            return ;
        }
        if self.cursor < self.scroll_offset {
            self.scroll_offset = self.cursor;
        } else if (self.cursor as u128) + 2 >= (self.scroll_offset as u128) + (
        self.visible_height as u128) {
            let target = (self.cursor as u128) + 3 - (self.visible_height as u128);
            self.scroll_offset = if target > (usize::MAX as u128) {
                usize::MAX
            } else {
                target as usize
            };
        }
    }

    /// Moves the cursor by `delta`, clamped to the list, and keeps it in
    /// view.
    pub fn move_cursor(&mut self, delta: isize)
        ensures
            final(self).cursor == spec_moved_cursor(
                old(self).cursor as int,
                delta as int,
                old(self).filtered_indices@.len() as int,
            ),
            final(self).scroll_offset == spec_adjusted_scroll(
                final(self).cursor as int,
                old(self).scroll_offset as int,
                old(self).visible_height as int,
                old(self).filtered_indices@.len() as int,
            ),
            *final(self) == (App {
                cursor: final(self).cursor,
                scroll_offset: final(self).scroll_offset,
                ..*old(self)
            }),
    {
        let len = self.filtered_indices.len();
        let max_pos = if len > 0 {
            len - 1
        } else {
            0
        };
        if delta >= 0 {
            let d = delta as usize;
            self.cursor = if self.cursor >= max_pos {
                max_pos
            } else if d >= max_pos - self.cursor {
                max_pos
            } else {
                self.cursor + d
            };
        } else {
            let mag: usize = if delta == isize::MIN {
                (isize::MAX as usize) + 1
            } else {
                (-delta) as usize
            };
            self.cursor = if self.cursor >= mag {
                self.cursor - mag
            } else {
                0
            };
        }
        self.adjust_scroll();
    }

    /// Moves the cursor a whole page down or up.
    pub fn move_cursor_by_page(&mut self, down: bool)
        ensures
            final(self).cursor == ({
                let len = old(self).filtered_indices@.len() as int;
                let maxp = if len > 0 {
                    len - 1
                } else {
                    0
                };
                if down {
                    if old(self).cursor + old(self).visible_height <= maxp {
                        old(self).cursor + old(self).visible_height
                    } else {
                        maxp
                    }
                } else {
                    if old(self).cursor >= old(self).visible_height {
                        old(self).cursor - old(self).visible_height
                    } else {
                        0
                    }
                }
            }),
            final(self).scroll_offset == spec_adjusted_scroll(
                final(self).cursor as int,
                old(self).scroll_offset as int,
                old(self).visible_height as int,
                old(self).filtered_indices@.len() as int,
            ),
            *final(self) == (App {
                cursor: final(self).cursor,
                scroll_offset: final(self).scroll_offset,
                ..*old(self)
            }),
    {
        let len = self.filtered_indices.len();
        let max_pos = if len > 0 {
            len - 1
        } else {
            0
        };
        if down {
            self.cursor = if self.cursor >= max_pos {
                max_pos
            } else if self.visible_height >= max_pos - self.cursor {
                max_pos
            } else {
                self.cursor + self.visible_height
            };
        } else {
            self.cursor = if self.cursor >= self.visible_height {
                self.cursor - self.visible_height
            } else {
                0
            };
        }
        self.adjust_scroll();
    }

    /// Toggles the selection of the item under the cursor; tombstoned
    /// indices can still be toggled off but a missing cursor does nothing.
    pub fn toggle_selection(&mut self)
        ensures
            old(self).spec_current() is None ==> *final(self) == *old(self),
            old(self).spec_current() matches Some(idx) ==> {
                &&& match spec_index_of_from(old(self).selected_indices@, idx, 0) {
                    Some(p) => {
                        &&& final(self).selected_indices@ == old(self).selected_indices@.remove(p)
                        &&& final(self).results@ == (if idx < old(self).results@.len() {
                            old(self).results@.update(
                                idx as int,
                                spec_with_selected(old(self).results@[idx as int], false),
                            )
                        } else {
                            old(self).results@
                        })
                    },
                    None => {
                        &&& final(self).selected_indices@ == old(self).selected_indices@.push(idx)
                        &&& final(self).results@ == (if idx < old(self).results@.len() {
                            old(self).results@.update(
                                idx as int,
                                spec_with_selected(old(self).results@[idx as int], true),
                            )
                        } else {
                            old(self).results@
                        })
                    },
                }
                &&& *final(self) == (App {
                    results: final(self).results,
                    selected_indices: final(self).selected_indices,
                    ..*old(self)
                })
            },
    {
        let ci = self.current_index();
        if let Some(idx) = ci {
            let mut p: usize = 0;
            let mut found = false;
            while p < self.selected_indices.len() && !found
                invariant
                    *self == *old(self),
                    p <= self.selected_indices@.len(),
                    !found ==> spec_index_of_from(self.selected_indices@, idx, 0)
                        == spec_index_of_from(self.selected_indices@, idx, p as int),
                    found ==> p < self.selected_indices@.len() && spec_index_of_from(
                        self.selected_indices@,
                        idx,
                        0,
                    ) == Some(p as int),
                decreases self.selected_indices@.len() - p, (if found { 0int } else { 1int }),
            {
                if self.selected_indices[p] == idx {
                    found = true;
                } else {
                    p = p + 1;
                }
            }
            proof {
                if !found {
                    assert(spec_index_of_from(
                        self.selected_indices@,
                        idx,
                        self.selected_indices@.len() as int,
                    ) is None);
                }
            }
            if found {
                self.selected_indices.remove(p);
                if idx < self.results.len() {
                    let item = set_selected(&self.results[idx], false);
                    self.results.set(idx, item);
                }
            } else {
                self.selected_indices.push(idx);
                if idx < self.results.len() {
                    let item = set_selected(&self.results[idx], true);
                    self.results.set(idx, item);
                }
            }
        }
    }

    /// The backing index under the cursor, as a value.
    pub open spec fn spec_current(&self) -> Option<usize> {
        if self.cursor < self.filtered_indices@.len() {
            Some(self.filtered_indices@[self.cursor as int])
        } else {
            None
        }
    }

    /// Selects every item of the current filtered view.
    pub fn select_all(&mut self)
        ensures
            final(self).selected_indices@ == spec_selected_after(
                old(self).selected_indices@,
                old(self).filtered_indices@,
                old(self).filtered_indices@.len() as int,
            ),
            final(self).results@.len() == old(self).results@.len(),
            forall|j: int|
                0 <= j < old(self).results@.len() ==> #[trigger] final(self).results@[j] == (
                if old(self).filtered_indices@.contains(j as usize) {
                    spec_with_selected(old(self).results@[j], true)
                } else {
                    old(self).results@[j]
                }),
            *final(self) == (App {
                results: final(self).results,
                selected_indices: final(self).selected_indices,
                ..*old(self)
            }),
    {
        let ghost fidx = self.filtered_indices@;
        let mut k: usize = 0;
        while k < self.filtered_indices.len()
            invariant
                fidx == self.filtered_indices@,
                self.filtered_indices == old(self).filtered_indices,
                k <= fidx.len(),
                self.selected_indices@ == spec_selected_after(
                    old(self).selected_indices@,
                    fidx,
                    k as int,
                ),
                self.results@.len() == old(self).results@.len(),
                forall|j: int|
                    0 <= j < old(self).results@.len() ==> #[trigger] self.results@[j] == (
                    if fidx.take(k as int).contains(j as usize) {
                        spec_with_selected(old(self).results@[j], true)
                    } else {
                        old(self).results@[j]
                    }),
                *self == (App {
                    results: self.results,
                    selected_indices: self.selected_indices,
                    ..*old(self)
                }),
            decreases fidx.len() - k,
        {
            let idx = self.filtered_indices[k];
            let ghost pre = self.results@;
            push_unique_usize(&mut self.selected_indices, idx);
            if idx < self.results.len() {
                let item = set_selected(&self.results[idx], true);
                self.results.set(idx, item);
            }
            k = k + 1;
            proof {
                assert(fidx.take(k as int) =~= fidx.take(k - 1).push(idx));
                assert forall|j: int| 0 <= j < old(self).results@.len() implies #[trigger] self
                    .results@[j] == (if fidx.take(k as int).contains(j as usize) {
                    spec_with_selected(old(self).results@[j], true)
                } else {
                    old(self).results@[j]
                }) by {
                    if j == idx {
                        assert(fidx.take(k as int)[k - 1] == idx);
                        assert(fidx.take(k as int).contains(idx));
                        assert(self.results@[j] == spec_with_selected(pre[j], true));
                        if fidx.take(k - 1).contains(j as usize) {
                            assert(pre[j] == spec_with_selected(old(self).results@[j], true));
                            assert(spec_with_selected(pre[j], true) == spec_with_selected(
                                old(self).results@[j],
                                true,
                            ));
                        } else {
                            assert(pre[j] == old(self).results@[j]);
                        }
                    } else {
                        assert(self.results@[j] == pre[j]);
                        assert(fidx.take(k as int).contains(j as usize) == fidx.take(
                            k - 1,
                        ).contains(j as usize));
                    }
                }
            }
        }
        proof {
            assert(fidx.take(fidx.len() as int) =~= fidx);
            assert forall|j: int| 0 <= j < old(self).results@.len() implies #[trigger] final(self)
                .results@[j] == (if fidx.contains(j as usize) {
                spec_with_selected(old(self).results@[j], true)
            } else {
                old(self).results@[j]
            }) by {}
        }
    }

    /// Clears the whole selection, unsetting the flag on each item.
    pub fn deselect_all(&mut self)
        ensures
            final(self).selected_indices@ == Seq::<usize>::empty(),
            final(self).results@.len() == old(self).results@.len(),
            forall|j: int|
                0 <= j < old(self).results@.len() ==> #[trigger] final(self).results@[j] == (
                if old(self).selected_indices@.contains(j as usize) {
                    spec_with_selected(old(self).results@[j], false)
                } else {
                    old(self).results@[j]
                }),
            *final(self) == (App {
                results: final(self).results,
                selected_indices: final(self).selected_indices,
                ..*old(self)
            }),
    {
        let ghost sel = self.selected_indices@;
        let mut k: usize = 0;
        while k < self.selected_indices.len()
            invariant
                sel == self.selected_indices@,
                self.selected_indices == old(self).selected_indices,
                k <= sel.len(),
                self.results@.len() == old(self).results@.len(),
                forall|j: int|
                    0 <= j < old(self).results@.len() ==> #[trigger] self.results@[j] == (
                    if sel.take(k as int).contains(j as usize) {
                        spec_with_selected(old(self).results@[j], false)
                    } else {
                        old(self).results@[j]
                    }),
                *self == (App {
                    results: self.results,
                    selected_indices: self.selected_indices,
                    ..*old(self)
                }),
            decreases sel.len() - k,
        {
            let idx = self.selected_indices[k];
            let ghost pre = self.results@;
            if idx < self.results.len() {
                let item = set_selected(&self.results[idx], false);
                self.results.set(idx, item);
            }
            k = k + 1;
            proof {
                assert(sel.take(k as int) =~= sel.take(k - 1).push(idx));
                assert forall|j: int| 0 <= j < old(self).results@.len() implies #[trigger] self
                    .results@[j] == (if sel.take(k as int).contains(j as usize) {
                    spec_with_selected(old(self).results@[j], false)
                } else {
                    old(self).results@[j]
                }) by {
                    if j == idx {
                        assert(sel.take(k as int)[k - 1] == idx);
                        assert(sel.take(k as int).contains(idx));
                        assert(self.results@[j] == spec_with_selected(pre[j], false));
                        if sel.take(k - 1).contains(j as usize) {
                            assert(pre[j] == spec_with_selected(old(self).results@[j], false));
                            assert(spec_with_selected(pre[j], false) == spec_with_selected(
                                old(self).results@[j],
                                false,
                            ));
                        } else {
                            assert(pre[j] == old(self).results@[j]);
                        }
                    } else {
                        assert(self.results@[j] == pre[j]);
                        assert(sel.take(k as int).contains(j as usize) == sel.take(
                            k - 1,
                        ).contains(j as usize));
                    }
                }
            }
        }
        proof {
            assert(sel.take(sel.len() as int) =~= sel);
        }
        self.selected_indices = Vec::new();
        proof {
            assert(self.selected_indices@ =~= Seq::<usize>::empty());
        }
    }

    /// Tombstones the item at `index`: the slot is never removed or reused,
    /// only excluded from future derived views; the freed size is counted
    /// and the index leaves the selection. The rebuild is deferred.
    pub fn mark_deleted(&mut self, index: usize, size_freed: u64)
        ensures
            index < old(self).results@.len() ==> {
                &&& final(self).results@ == old(self).results@.update(
                    index as int,
                    (ResultItem {
                        scan_result: old(self).results@[index as int].scan_result,
                        risk: old(self).results@[index as int].risk,
                        is_selected: old(self).results@[index as int].is_selected,
                        is_deleting: false,
                        is_deleted: true,
                    }),
                )
                &&& final(self).freed_size == spec_sat_add_u64(old(self).freed_size, size_freed)
                &&& final(self).selected_indices@ == (match spec_index_of_from(
                    old(self).selected_indices@,
                    index,
                    0,
                ) {
                    Some(p) => old(self).selected_indices@.remove(p),
                    None => old(self).selected_indices@,
                })
            },
            index >= old(self).results@.len() ==> {
                &&& final(self).results == old(self).results
                &&& final(self).freed_size == old(self).freed_size
                &&& final(self).selected_indices == old(self).selected_indices
            },
            final(self).needs_filter,
            *final(self) == (App {
                results: final(self).results,
                freed_size: final(self).freed_size,
                selected_indices: final(self).selected_indices,
                needs_filter: final(self).needs_filter,
                ..*old(self)
            }),
    {
        if index < self.results.len() {
            let e = &self.results[index];
            let item = ResultItem {
                scan_result: e.scan_result.clone(),
                risk: e.risk.clone(),
                is_selected: e.is_selected,
                is_deleting: false,
                is_deleted: true,
            };
            self.results.set(index, item);
            self.freed_size = sat_add_u64(self.freed_size, size_freed);
            let mut p: usize = 0;
            let mut found = false;
            while p < self.selected_indices.len() && !found
                invariant
                    self.selected_indices == old(self).selected_indices,
                    p <= self.selected_indices@.len(),
                    !found ==> spec_index_of_from(self.selected_indices@, index, 0)
                        == spec_index_of_from(self.selected_indices@, index, p as int),
                    found ==> p < self.selected_indices@.len() && spec_index_of_from(
                        self.selected_indices@,
                        index,
                        0,
                    ) == Some(p as int),
                decreases self.selected_indices@.len() - p, (if found { 0int } else { 1int }),
            {
                if self.selected_indices[p] == index {
                    found = true;
                } else {
                    p = p + 1;
                }
            }
            proof {
                if !found {
                    assert(spec_index_of_from(
                        self.selected_indices@,
                        index,
                        self.selected_indices@.len() as int,
                    ) is None);
                }
            }
            if found {
                self.selected_indices.remove(p);
            }
        }
        self.needs_filter = true;
    }

    /// Marks the item at `index` as being deleted, a transient display flag.
    pub fn mark_deleting(&mut self, index: usize)
        ensures
            index < old(self).results@.len() ==> final(self).results@ == old(
                self,
            ).results@.update(
                index as int,
                (ResultItem {
                    scan_result: old(self).results@[index as int].scan_result,
                    risk: old(self).results@[index as int].risk,
                    is_selected: old(self).results@[index as int].is_selected,
                    is_deleting: true,
                    is_deleted: old(self).results@[index as int].is_deleted,
                }),
            ),
            index >= old(self).results@.len() ==> final(self).results == old(self).results,
            *final(self) == (App { results: final(self).results, ..*old(self) }),
    {
        if index < self.results.len() {
            let e = &self.results[index];
            let item = ResultItem {
                scan_result: e.scan_result.clone(),
                risk: e.risk.clone(),
                is_selected: e.is_selected,
                is_deleting: true,
                is_deleted: e.is_deleted,
            };
            self.results.set(index, item);
        }
    }

    /// Records the end of the scan phase and rebuilds the views.
    pub fn scan_complete(&mut self)
        ensures
            !final(self).scanning,
            final(self).analytics.scan_complete,
            final(self).analytics.by_target == old(self).analytics.by_target,
            final(self).analytics.by_profile == old(self).analytics.by_profile,
            final(self).analytics.top_largest == old(self).analytics.top_largest,
            final(self).analytics.top_largest_limit == old(self).analytics.top_largest_limit,
            final(self).analytics.sizes_complete == old(self).analytics.sizes_complete,
            group_views(final(self).target_groups@) == spec_sorted_groups(old(self).results@),
            final(self).active_tab == spec_clamped_tab(
                old(self).results@,
                old(self).active_tab as int,
            ),
            final(self).filtered_indices@ == spec_display_indices(
                old(self).results@,
                final(self).active_tab as int,
                old(self).search_query@,
                old(self).sort_order,
            ),
            final(self).cursor == spec_clamped_cursor(
                old(self).cursor as int,
                final(self).filtered_indices@.len() as int,
            ),
            final(self).results == old(self).results,
            final(self).total_size == old(self).total_size,
            final(self).freed_size == old(self).freed_size,
            final(self).errors == old(self).errors,
            final(self).selected_indices == old(self).selected_indices,
            final(self).sizes_calculated == old(self).sizes_calculated,
            final(self).exclude_sensitive == old(self).exclude_sensitive,
            final(self).home == old(self).home,
            spec_prefs_unchanged(*old(self), *final(self)),
    {
        self.scanning = false;
        self.analytics.mark_scan_complete();
        self.rebuild_display_indices();
    }

    /// Records the end of the size-computation phase.
    pub fn sizes_complete(&mut self)
        ensures
            final(self).analytics.sizes_complete,
            final(self).analytics.by_target == old(self).analytics.by_target,
            final(self).analytics.by_profile == old(self).analytics.by_profile,
            final(self).analytics.top_largest == old(self).analytics.top_largest,
            final(self).analytics.top_largest_limit == old(self).analytics.top_largest_limit,
            final(self).analytics.scan_complete == old(self).analytics.scan_complete,
            *final(self) == (App { analytics: final(self).analytics, ..*old(self) }),
    {
        self.analytics.mark_sizes_complete();
    }

    /// Appends one error line to the user-visible error log.
    pub fn add_error(&mut self, error: String)
        ensures
            final(self).errors@ == old(self).errors@.push(error),
            *final(self) == (App { errors: final(self).errors, ..*old(self) }),
    {
        self.errors.push(error);
    }

    /// Re-derives the views immediately, flashing the sort indicator.
    pub fn apply_sort_and_filter(&mut self)
        ensures
            group_views(final(self).target_groups@) == spec_sorted_groups(old(self).results@),
            final(self).active_tab == spec_clamped_tab(
                old(self).results@,
                old(self).active_tab as int,
            ),
            final(self).filtered_indices@ == spec_display_indices(
                old(self).results@,
                final(self).active_tab as int,
                old(self).search_query@,
                old(self).sort_order,
            ),
            final(self).cursor == spec_clamped_cursor(
                old(self).cursor as int,
                final(self).filtered_indices@.len() as int,
            ),
            final(self).sort_flash == 5,
            spec_core_unchanged(*old(self), *final(self)),
            final(self).panel == old(self).panel,
            final(self).mode == old(self).mode,
            final(self).sort_order == old(self).sort_order,
            final(self).search_query == old(self).search_query,
            final(self).needs_filter == old(self).needs_filter,
            final(self).needs_sort == old(self).needs_sort,
            final(self).visible_height == old(self).visible_height,
            final(self).spinner_tick == old(self).spinner_tick,
            final(self).analytics_scroll == old(self).analytics_scroll,
            final(self).visible_group_count == old(self).visible_group_count,
            final(self).scroll_offset == old(self).scroll_offset,
            final(self).tab_scroll_offset == old(self).tab_scroll_offset,
    {
        self.rebuild_display_indices();
        self.sort_flash = 5;
    }

    /// The label of the active sort order.
    pub fn sort_label(&self) -> (r: &'static str)
        ensures
            self.sort_order == SortOrder::Size ==> r@ == "SIZE"@,
            self.sort_order == SortOrder::Path ==> r@ == "PATH"@,
            self.sort_order == SortOrder::Age ==> r@ == "AGE"@,
    {
        match self.sort_order {
            SortOrder::Size => "SIZE",
            SortOrder::Path => "PATH",
            SortOrder::Age => "AGE",
        }
    }

    /// Whether sizes are still being computed for some results.
    pub fn is_calculating_sizes(&self) -> (r: bool)
        ensures
            r == (self.results@.len() > 0 && self.sizes_calculated < self.results@.len()),
    {
        self.results.len() > 0 && self.sizes_calculated < self.results.len()
    }

    /// The spinner glyph for the current tick.
    pub fn spinner_char(&self) -> (r: char)
        ensures
            r == spec_spinner_char(self.spinner_tick),
    {
        let k = self.spinner_tick % 10;
        if k == 0 {
            '\u{280b}'
        } else if k == 1 {
            '\u{2819}'
        } else if k == 2 {
            '\u{2839}'
        } else if k == 3 {
            '\u{2838}'
        } else if k == 4 {
            '\u{283c}'
        } else if k == 5 {
            '\u{2834}'
        } else if k == 6 {
            '\u{2826}'
        } else if k == 7 {
            '\u{2827}'
        } else if k == 8 {
            '\u{2807}'
        } else {
            '\u{280f}'
        }
    }
}

/// The visible window: the displayed indices from the scroll offset on,
/// at most a viewport's worth.
pub open spec fn spec_window(filtered: Seq<usize>, scroll: int, height: int) -> Seq<usize> {
    let s = if 0 <= scroll <= filtered.len() {
        filtered.skip(scroll)
    } else {
        Seq::<usize>::empty()
    };
    if 0 <= height <= s.len() {
        s.take(height)
    } else {
        s
    }
}

/// The first `n` window entries paired with their items; an index out of
/// range of the store is silently skipped.
pub open spec fn spec_visible_of(results: Seq<ResultItem>, w: Seq<usize>, n: int) -> Seq<
    (usize, ResultItem),
>
    decreases n,
{
    if n <= 0 || n > w.len() {
        Seq::empty()
    } else {
        let s = spec_visible_of(results, w, n - 1);
        if w[n - 1] < results.len() {
            s.push((w[n - 1], results[w[n - 1] as int]))
        } else {
            s
        }
    }
}

impl App {
    /// The rows currently on screen, in display order: each backing index
    /// with a copy of its item.
    pub fn visible_results(&self) -> (r: Vec<(usize, ResultItem)>)
        ensures
            r@ == spec_visible_of(
                self.results@,
                spec_window(
                    self.filtered_indices@,
                    self.scroll_offset as int,
                    self.visible_height as int,
                ),
                spec_window(
                    self.filtered_indices@,
                    self.scroll_offset as int,
                    self.visible_height as int,
                ).len() as int,
            ),
    {
        let ghost w = spec_window(
            self.filtered_indices@,
            self.scroll_offset as int,
            self.visible_height as int,
        );
        let mut r: Vec<(usize, ResultItem)> = Vec::new();
        if self.scroll_offset > self.filtered_indices.len() {
            proof {
                assert(w.len() == 0);
                assert(r@ =~= spec_visible_of(self.results@, w, 0));
            }
            return r;
        }
        let mut j: usize = 0;
        proof {
            assert(r@ =~= spec_visible_of(self.results@, w, 0));
        }
        while j < self.visible_height && j < self.filtered_indices.len() - self.scroll_offset
            invariant
                w == spec_window(
                    self.filtered_indices@,
                    self.scroll_offset as int,
                    self.visible_height as int,
                ),
                self.scroll_offset <= self.filtered_indices@.len(),
                j <= w.len(),
                j <= self.visible_height,
                r@ == spec_visible_of(self.results@, w, j as int),
            decreases self.visible_height - j,
        {
            let idx = self.filtered_indices[self.scroll_offset + j];
            proof {
                assert(w[j as int] == self.filtered_indices@[self.scroll_offset + j]);
            }
            if idx < self.results.len() {
                r.push((idx, self.results[idx].clone()));
            }
            j = j + 1;
        }
        proof {
            assert(j as int == w.len());
        }
        r
    }
}

/// Index stability (the critical invariant): for any interleaving of an
/// ingestion, then any number of re-sorts, re-filters and tab changes, then
/// a size completion addressed to backing index `i`, the completion lands
/// on the item originally at `i`. Each hypothesis is exactly the
/// postcondition of the corresponding operation: ingestion only appends,
/// view changes never touch the backing store, and a completion updates
/// only the addressed slot.
pub proof fn lemma_index_stability(
    a0: App,
    a1: App,
    a2: App,
    a3: App,
    i: int,
    size: u64,
    file_count: u64,
)
    requires
        0 <= i < a0.results@.len(),
        // a1 is a0 after an ingestion: existing items undisturbed
        a0.results@.len() <= a1.results@.len(),
        forall|j: int| 0 <= j < a0.results@.len() ==> a1.results@[j] == a0.results@[j],
        // a2 is a1 after any re-sorting, re-filtering or tab changes
        a2.results == a1.results,
        // a3 is a2 after the size completion addressed to i
        a3.results@ == a2.results@.update(
            i,
            (ResultItem {
                scan_result: (ScanResult {
                    path: a2.results@[i].scan_result.path,
                    size: Some(size),
                    file_count: Some(file_count),
                    modified: a2.results@[i].scan_result.modified,
                    is_sensitive: a2.results@[i].scan_result.is_sensitive,
                }),
                risk: a2.results@[i].risk,
                is_selected: a2.results@[i].is_selected,
                is_deleting: a2.results@[i].is_deleting,
                is_deleted: a2.results@[i].is_deleted,
            }),
        ),
    ensures
        a3.results@.len() == a2.results@.len(),
        a3.results@[i].scan_result.path == a0.results@[i].scan_result.path,
        a3.results@[i].scan_result.modified == a0.results@[i].scan_result.modified,
        a3.results@[i].scan_result.size == Some(size),
        a3.results@[i].scan_result.file_count == Some(file_count),
        forall|j: int|
            0 <= j < a0.results@.len() && j != i ==> a3.results@[j] == a0.results@[j],
{
}

/// Sort laws: each order is a strict weak order; the displayed list is its
/// stable sort — sorted, a permutation of its input, with ties kept in
/// input order — and re-applying the same sort moves nothing.
pub proof fn lemma_sort_laws(results: Seq<ResultItem>, order: SortOrder, idxs: Seq<usize>)
    ensures
        spec_strict_weak(spec_item_lt(results, order)),
        spec_sorted_by(spec_item_lt(results, order), spec_sort_by(spec_item_lt(results, order), idxs)),
        spec_sort_by(spec_item_lt(results, order), idxs).to_multiset() == idxs.to_multiset(),
        spec_sort_by(
            spec_item_lt(results, order),
            spec_sort_by(spec_item_lt(results, order), idxs),
        ) == spec_sort_by(spec_item_lt(results, order), idxs),
{
    let lt = spec_item_lt(results, order);
    lemma_item_lt_strict_weak(results, order);
    crate::sorting::lemma_sort_by_sorted(lt, idxs);
    crate::sorting::lemma_sort_by_multiset(lt, idxs);
    crate::sorting::lemma_sort_by_idempotent(lt, spec_sort_by(lt, idxs));
}

/// Stability of the displayed sort: the elements tied with any pivot under
/// the active order appear in the same relative order as in the input.
pub proof fn lemma_sort_stability(
    results: Seq<ResultItem>,
    order: SortOrder,
    idxs: Seq<usize>,
    pivot: usize,
)
    ensures
        spec_sort_by(spec_item_lt(results, order), idxs).filter(
            |y: usize| spec_tied(spec_item_lt(results, order), pivot, y),
        ) == idxs.filter(|y: usize| spec_tied(spec_item_lt(results, order), pivot, y)),
{
    lemma_item_lt_strict_weak(results, order);
    crate::sorting::lemma_sort_by_stable(spec_item_lt(results, order), idxs, pivot);
}

/// Each of the three orders is a strict weak order on backing indices.
pub proof fn lemma_item_lt_strict_weak(results: Seq<ResultItem>, order: SortOrder)
    ensures
        spec_strict_weak(spec_item_lt(results, order)),
{
    let lt = spec_item_lt(results, order);
    match order {
        SortOrder::Size => {
            assert(forall|a: usize| !#[trigger] lt(a, a));
            assert(forall|a: usize, b: usize, c: usize|
                #[trigger] lt(a, b) && #[trigger] lt(b, c) ==> lt(a, c));
            assert(forall|a: usize, b: usize, c: usize|
                !#[trigger] lt(a, b) && !#[trigger] lt(b, c) ==> !lt(a, c));
        },
        SortOrder::Age => {
            assert(forall|a: usize| !#[trigger] lt(a, a));
            assert(forall|a: usize, b: usize, c: usize|
                #[trigger] lt(a, b) && #[trigger] lt(b, c) ==> lt(a, c));
            assert(forall|a: usize, b: usize, c: usize|
                !#[trigger] lt(a, b) && !#[trigger] lt(b, c) ==> !lt(a, c));
        },
        SortOrder::Path => {
            assert forall|a: usize| !#[trigger] lt(a, a) by {
                crate::text::lemma_lex_lt_irrefl(results[a as int].scan_result.path@);
            }
            assert forall|a: usize, b: usize, c: usize|
                #[trigger] lt(a, b) && #[trigger] lt(b, c) implies lt(a, c) by {
                crate::text::lemma_lex_lt_trans(
                    results[a as int].scan_result.path@,
                    results[b as int].scan_result.path@,
                    results[c as int].scan_result.path@,
                );
            }
            assert forall|a: usize, b: usize, c: usize|
                !#[trigger] lt(a, b) && !#[trigger] lt(b, c) implies !lt(a, c) by {
                crate::text::lemma_lex_lt_neg_trans(
                    results[a as int].scan_result.path@,
                    results[b as int].scan_result.path@,
                    results[c as int].scan_result.path@,
                );
            }
        },
    }
}

/// Tombstoned items are excluded from every derived view: no target group
/// holds a tombstoned index, and the displayed list never shows one — while
/// the backing slot itself is retrievable unchanged.
pub proof fn lemma_deleted_excluded(
    results: Seq<ResultItem>,
    tab: int,
    query: Seq<char>,
    order: SortOrder,
    k: usize,
)
    requires
        results.len() <= usize::MAX,
        k < results.len(),
        results[k as int].is_deleted,
        0 <= tab <= spec_sorted_groups(results).len(),
    ensures
        forall|g: int|
            0 <= g < spec_sorted_groups(results).len() ==> !#[trigger] spec_sorted_groups(
                results,
            )[g].indices.contains(k),
        !spec_display_indices(results, tab, query, order).contains(k),
{
    broadcast use vstd::seq_lib::group_to_multiset_ensures;

    lemma_sorted_groups_wf(results);
    let groups = spec_sorted_groups(results);
    assert forall|g: int| 0 <= g < groups.len() implies !#[trigger] groups[g].indices.contains(
        k,
    ) by {
        if groups[g].indices.contains(k) {
            let m = choose|m: int| 0 <= m < groups[g].indices.len() && groups[g].indices[m] == k;
            assert(!results[groups[g].indices[m] as int].is_deleted);
        }
    }
    let base = spec_base_indices(results, tab);
    assert(!base.contains(k)) by {
        if tab == 0 || groups.len() == 0 {
            lemma_live_upto_wf(results, results.len() as int);
            if base.contains(k) {
                let m = choose|m: int| 0 <= m < base.len() && base[m] == k;
                assert(!results[base[m] as int].is_deleted);
            }
        } else {
            assert(base == groups[tab - 1].indices);
        }
    }
    let filtered = spec_query_filter(results, base, query);
    assert(!filtered.contains(k)) by {
        lemma_filter_subset(base, spec_query_pred(results, query), k);
    }
    let sorted = spec_display_indices(results, tab, query, order);
    crate::sorting::lemma_sort_by_multiset(spec_item_lt(results, order), filtered);
    if sorted.contains(k) {
        assert(sorted.to_multiset().count(k) > 0);
        assert(filtered.to_multiset().count(k) > 0);
        assert(filtered.contains(k));
    }
}

/// An element of a filtered sequence is an element of the original.
proof fn lemma_filter_subset<T>(s: Seq<T>, pred: spec_fn(T) -> bool, x: T)
    requires
        !s.contains(x),
    ensures
        !s.filter(pred).contains(x),
    decreases s.len(),
{
    reveal_with_fuel(Seq::filter, 2);
    if s.len() > 0 {
        assert(forall|j: int| 0 <= j < s.len() - 1 ==> s.drop_last()[j] == s[j]);
        assert(!s.drop_last().contains(x));
        lemma_filter_subset(s.drop_last(), pred, x);
        if s.filter(pred).contains(x) {
            let m = choose|m: int| 0 <= m < s.filter(pred).len() && s.filter(pred)[m] == x;
            if pred(s.last()) {
                if m < s.filter(pred).len() - 1 {
                    assert(s.drop_last().filter(pred)[m] == x);
                    assert(s.drop_last().filter(pred).contains(x));
                } else {
                    assert(s.last() == x);
                    assert(s.contains(x));
                }
            } else {
                assert(s.drop_last().filter(pred)[m] == x);
                assert(s.drop_last().filter(pred).contains(x));
            }
        }
    }
}

/// Rebuilding is idempotent: rebuilding an already-rebuilt state changes
/// none of the derived views, so a redundant, debounced rebuild is always
/// safe.
pub proof fn lemma_rebuild_idempotent(pre: App, mid: App, post: App)
    requires
        spec_core_unchanged(pre, mid),
        spec_prefs_unchanged(pre, mid),
        spec_views_rebuilt(pre, mid),
        spec_core_unchanged(mid, post),
        spec_prefs_unchanged(mid, post),
        spec_views_rebuilt(mid, post),
    ensures
        post.active_tab == mid.active_tab,
        post.filtered_indices@ == mid.filtered_indices@,
        group_views(post.target_groups@) == group_views(mid.target_groups@),
        post.cursor == mid.cursor,
{
    assert(group_views(mid.target_groups@).len() == spec_sorted_groups(pre.results@).len());
}

proof fn lemma_filter_true<T>(s: Seq<T>, pred: spec_fn(T) -> bool)
    requires
        forall|j: int| 0 <= j < s.len() ==> pred(#[trigger] s[j]),
    ensures
        s.filter(pred) == s,
    decreases s.len(),
{
    reveal_with_fuel(Seq::filter, 2);
    if s.len() > 0 {
        assert(forall|j: int| 0 <= j < s.len() - 1 ==> s.drop_last()[j] == s[j]);
        lemma_filter_true(s.drop_last(), pred);
        assert(s.drop_last().push(s.last()) =~= s);
    }
}

proof fn lemma_live_upto_count(results: Seq<ResultItem>, n: int, j: usize)
    requires
        n <= results.len(),
        results.len() <= usize::MAX,
    ensures
        spec_live_upto(results, n).to_multiset().count(j) == (if j < n && !results[j as int].is_deleted {
            1int
        } else {
            0
        }),
    decreases n,
{
    broadcast use vstd::seq_lib::group_to_multiset_ensures;

    if n <= 0 {
        assert(spec_live_upto(results, n).to_multiset() =~= vstd::multiset::Multiset::empty());
    } else {
        lemma_live_upto_count(results, n - 1, j);
        let s = spec_live_upto(results, n - 1);
        if results[n - 1].is_deleted {
            assert(spec_live_upto(results, n) == s);
        } else {
            assert(spec_live_upto(results, n) == s.push((n - 1) as usize));
            assert(s.push((n - 1) as usize).to_multiset() =~= s.to_multiset().insert(
                (n - 1) as usize,
            ));
        }
    }
}

/// Under the empty filter, the `All` tab's displayed list holds every
/// non-tombstoned backing index exactly once, and no tombstoned one.
pub proof fn lemma_display_complete(results: Seq<ResultItem>, order: SortOrder, j: usize)
    requires
        results.len() <= usize::MAX,
    ensures
        spec_display_indices(results, 0, Seq::empty(), order).to_multiset().count(j) == (
        if j < results.len() && !results[j as int].is_deleted {
            1int
        } else {
            0
        }),
{
    let live = spec_live_upto(results, results.len() as int);
    let base = spec_base_indices(results, 0);
    assert(base == live);
    let qpred = spec_query_pred(results, Seq::empty());
    assert(forall|k: int| 0 <= k < base.len() ==> qpred(#[trigger] base[k]));
    lemma_filter_true(base, qpred);
    assert(spec_query_filter(results, base, Seq::empty()) == base);
    crate::sorting::lemma_sort_by_multiset(spec_item_lt(results, order), base);
    lemma_live_upto_count(results, results.len() as int, j);
}

/// A copy of `item` with its selection flag set to `b`.
fn set_selected(item: &ResultItem, b: bool) -> (r: ResultItem)
    ensures
        r == spec_with_selected(*item, b),
{
    ResultItem {
        scan_result: item.scan_result.clone(),
        risk: item.risk.clone(),
        is_selected: b,
        is_deleting: item.is_deleting,
        is_deleted: item.is_deleted,
    }
}

/// Appends `x` unless it is already present.
fn push_unique_usize(acc: &mut Vec<usize>, x: usize)
    ensures
        final(acc)@ == if old(acc)@.contains(x) {
            old(acc)@
        } else {
            old(acc)@.push(x)
        },
{
    let mut i: usize = 0;
    while i < acc.len()
        invariant
            acc@ == old(acc)@,
            i <= acc@.len(),
            forall|j: int| 0 <= j < i ==> acc@[j] != x,
        decreases acc@.len() - i,
    {
        if acc[i] == x {
            return ;
        }
        i = i + 1;
    }
    proof {
        assert(!acc@.contains(x));
    }
    acc.push(x);
}


/// Everything but the backing store and the analytics is equal.
pub open spec fn spec_ingest_frame_but_analytics(a: App, b: App) -> bool {
    &&& b.filtered_indices == a.filtered_indices
    &&& b.cursor == a.cursor
    &&& b.scroll_offset == a.scroll_offset
    &&& b.panel == a.panel
    &&& b.mode == a.mode
    &&& b.sort_order == a.sort_order
    &&& b.search_query == a.search_query
    &&& b.needs_filter == a.needs_filter
    &&& b.needs_sort == a.needs_sort
    &&& b.scanning == a.scanning
    &&& b.total_size == a.total_size
    &&& b.freed_size == a.freed_size
    &&& b.errors == a.errors
    &&& b.selected_indices == a.selected_indices
    &&& b.visible_height == a.visible_height
    &&& b.exclude_sensitive == a.exclude_sensitive
    &&& b.sizes_calculated == a.sizes_calculated
    &&& b.spinner_tick == a.spinner_tick
    &&& b.sort_flash == a.sort_flash
    &&& b.analytics_scroll == a.analytics_scroll
    &&& b.target_groups == a.target_groups
    &&& b.active_tab == a.active_tab
    &&& b.tab_scroll_offset == a.tab_scroll_offset
    &&& b.visible_group_count == a.visible_group_count
    &&& b.home == a.home
}

} // verus!
