//! Rolling analytics over the scan: per-target and per-profile folds of
//! count and size, and a bounded top-N-by-size list kept as a sorted
//! insertion list of fixed capacity.

use vstd::prelude::*;

use crate::profiles::{builtin_profiles, profile_views, spec_builtin_profiles};
use crate::sorting::{lemma_insert_by_at, lemma_sort_by_push, spec_sort_by};
use crate::text::{
    chars_to_string, contains_name, spec_sat_add_u64, spec_sat_add_usize, spec_sat_inc_usize,
    spec_split, sat_add_u64,
    sat_add_usize, sat_inc_usize, split_chars, str_chars, str_eq,
};

verus! {

/// Rolling statistics for one target name.
#[derive(Debug)]
pub struct TargetStats {
    pub name: String,
    pub count: usize,
    pub total_size: u64,
    pub size_known_count: usize,
}

/// Rolling statistics for one profile.
#[derive(Debug)]
pub struct ProfileStats {
    pub name: String,
    pub count: usize,
    pub total_size: u64,
}

/// One entry of the top-largest list.
#[derive(Debug)]
pub struct LargestItem {
    pub path: String,
    pub size: u64,
    pub target_type: String,
}

impl Clone for TargetStats {
    fn clone(&self) -> (res: Self)
        ensures
            res == *self,
    {
        TargetStats {
            name: self.name.clone(),
            count: self.count,
            total_size: self.total_size,
            size_known_count: self.size_known_count,
        }
    }
}

impl Clone for ProfileStats {
    fn clone(&self) -> (res: Self)
        ensures
            res == *self,
    {
        ProfileStats { name: self.name.clone(), count: self.count, total_size: self.total_size }
    }
}

impl Clone for LargestItem {
    fn clone(&self) -> (res: Self)
        ensures
            res == *self,
    {
        LargestItem {
            path: self.path.clone(),
            size: self.size,
            target_type: self.target_type.clone(),
        }
    }
}

/// The leaf name of a path: its last `/`-separated component.
pub open spec fn spec_target_name(path: Seq<char>) -> Seq<char> {
    spec_split(path, '/').last()
}

/// The leaf name of a path, as a `String`.
pub fn extract_target_name(path: &str) -> (r: String)
    ensures
        r@ == spec_target_name(path@),
{
    let chars = str_chars(path);
    let parts = split_chars(&chars, '/');
    proof {
        crate::text::lemma_split_nonempty(path@, '/');
        assert(parts.deep_view()[parts@.len() - 1] == parts@[parts@.len() - 1]@);
    }
    let last = &parts[parts.len() - 1];
    chars_to_string(last)
}

/// The first catalog profile whose targets include `t`, from index `i` on.
pub open spec fn spec_profile_match_from(t: Seq<char>, i: int) -> Option<int>
    decreases spec_builtin_profiles().len() - i,
{
    if i < 0 || i >= spec_builtin_profiles().len() {
        None
    } else if spec_builtin_profiles()[i].targets.contains(t) {
        Some(i)
    } else {
        spec_profile_match_from(t, i + 1)
    }
}

/// The profile a target name belongs to: the first catalog profile listing
/// it, or `other`.
pub open spec fn spec_profile_for_target(t: Seq<char>) -> Seq<char> {
    match spec_profile_match_from(t, 0) {
        Some(i) => spec_builtin_profiles()[i].name,
        None => "other"@,
    }
}

/// Whether `a` should sort before `b` in the top-largest list: larger first.
pub open spec fn spec_largest_lt() -> spec_fn(LargestItem, LargestItem) -> bool {
    |a: LargestItem, b: LargestItem| b.size < a.size
}

/// The first index of `ts` whose entry is named `name`, from `i` on.
pub open spec fn spec_target_ix_from(ts: Seq<TargetStats>, name: Seq<char>, i: int) -> Option<int>
    decreases ts.len() - i,
{
    if i < 0 || i >= ts.len() {
        None
    } else if ts[i].name@ == name {
        Some(i)
    } else {
        spec_target_ix_from(ts, name, i + 1)
    }
}

/// The first index of `ps` whose entry is named `name`, from `i` on.
pub open spec fn spec_profile_ix_from(
    ps: Seq<ProfileStats>,
    name: Seq<char>,
    i: int,
) -> Option<int>
    decreases ps.len() - i,
{
    if i < 0 || i >= ps.len() {
        None
    } else if ps[i].name@ == name {
        Some(i)
    } else {
        spec_profile_ix_from(ps, name, i + 1)
    }
}

/// The first index of `top` holding `path`, from `i` on.
pub open spec fn spec_largest_ix_from(top: Seq<LargestItem>, path: Seq<char>, i: int) -> Option<
    int,
>
    decreases top.len() - i,
{
    if i < 0 || i >= top.len() {
        None
    } else if top[i].path@ == path {
        Some(i)
    } else {
        spec_largest_ix_from(top, path, i + 1)
    }
}

/// Where a new entry of this size lands: before the first smaller one.
pub open spec fn spec_largest_pos_from(top: Seq<LargestItem>, size: u64, i: int) -> int
    decreases top.len() - i,
{
    if i < 0 || i >= top.len() {
        top.len() as int
    } else if top[i].size < size {
        i
    } else {
        spec_largest_pos_from(top, size, i + 1)
    }
}

/// The top-largest list after an update for `path` with `size`: an entry
/// already holding the path is resized and the list re-sorted; otherwise the
/// entry is inserted at its sorted position, if within the capacity, and the
/// list is trimmed back to the capacity.
pub open spec fn spec_insert_largest(
    top: Seq<LargestItem>,
    limit: int,
    item: LargestItem,
) -> Seq<LargestItem> {
    match spec_largest_ix_from(top, item.path@, 0) {
        Some(k) => spec_sort_by(spec_largest_lt(), top.update(k, item)),
        None => {
            let pos = spec_largest_pos_from(top, item.size, 0);
            if pos < limit {
                let ins = top.insert(pos, item);
                if ins.len() > limit {
                    ins.drop_last()
                } else {
                    ins
                }
            } else {
                top
            }
        },
    }
}

/// Aggregated analytics, updated as results arrive.
#[derive(Debug)]
pub struct AnalyticsData {
    pub by_target: Vec<TargetStats>,
    pub by_profile: Vec<ProfileStats>,
    pub top_largest: Vec<LargestItem>,
    pub top_largest_limit: usize,
    pub scan_complete: bool,
    pub sizes_complete: bool,
}

impl AnalyticsData {
    pub fn new() -> (r: AnalyticsData)
        ensures
            r.by_target@ == Seq::<TargetStats>::empty(),
            r.by_profile@ == Seq::<ProfileStats>::empty(),
            r.top_largest@ == Seq::<LargestItem>::empty(),
            r.top_largest_limit == 5,
            !r.scan_complete,
            !r.sizes_complete,
    {
        let r = AnalyticsData {
            by_target: Vec::new(),
            by_profile: Vec::new(),
            top_largest: Vec::new(),
            top_largest_limit: 5,
            scan_complete: false,
            sizes_complete: false,
        };
        proof {
            assert(r.by_target@ =~= Seq::<TargetStats>::empty());
            assert(r.by_profile@ =~= Seq::<ProfileStats>::empty());
            assert(r.top_largest@ =~= Seq::<LargestItem>::empty());
        }
        r
    }

    /// The profile a target name belongs to.
    pub fn profile_for_target(target: &str) -> (r: String)
        ensures
            r@ == spec_profile_for_target(target@),
    {
        let profiles = builtin_profiles();
        let mut i: usize = 0;
        while i < profiles.len()
            invariant
                profile_views(profiles@) == spec_builtin_profiles(),
                i <= profiles@.len(),
                spec_profile_match_from(target@, 0) == spec_profile_match_from(target@, i as int),
            decreases profiles@.len() - i,
        {
            proof {
                assert(profile_views(profiles@)[i as int] == profiles@[i as int]@);
            }
            if contains_name(&profiles[i].targets, target) {
                return profiles[i].name.clone();
            }
            i = i + 1;
        }
        proof {
            assert(spec_profile_match_from(target@, profiles@.len() as int) is None);
        }
        "other".to_owned()
    }

    /// Bumps (or opens) the target-stats entry for `name`.
    fn bump_target(&mut self, name: &String, size: Option<u64>)
        ensures
            final(self).by_profile == old(self).by_profile,
            final(self).top_largest == old(self).top_largest,
            final(self).top_largest_limit == old(self).top_largest_limit,
            final(self).scan_complete == old(self).scan_complete,
            final(self).sizes_complete == old(self).sizes_complete,
            match spec_target_ix_from(old(self).by_target@, name@, 0) {
                Some(k) => final(self).by_target@ == old(self).by_target@.update(
                    k,
                    (TargetStats {
                        name: old(self).by_target@[k].name,
                        count: spec_sat_inc_usize(old(self).by_target@[k].count),
                        total_size: match size {
                            Some(s) => spec_sat_add_u64(old(self).by_target@[k].total_size, s),
                            None => old(self).by_target@[k].total_size,
                        },
                        size_known_count: match size {
                            Some(_) => spec_sat_inc_usize(old(self).by_target@[k].size_known_count),
                            None => old(self).by_target@[k].size_known_count,
                        },
                    }),
                ),
                None => {
                    &&& final(self).by_target@.len() == old(self).by_target@.len() + 1
                    &&& final(self).by_target@.drop_last() == old(self).by_target@
                    &&& final(self).by_target@.last().name@ == name@
                    &&& final(self).by_target@.last().count == 1
                    &&& final(self).by_target@.last().total_size == size.unwrap_or(0)
                    &&& final(self).by_target@.last().size_known_count == (if size is Some {
                        1int
                    } else {
                        0
                    })
                },
            },
    {
        let mut i: usize = 0;
        while i < self.by_target.len()
            invariant
                *self == *old(self),
                i <= self.by_target@.len(),
                spec_target_ix_from(self.by_target@, name@, 0) == spec_target_ix_from(
                    self.by_target@,
                    name@,
                    i as int,
                ),
            decreases self.by_target@.len() - i,
        {
            if str_eq(self.by_target[i].name.as_str(), name.as_str()) {
                let e = &self.by_target[i];
                let updated = TargetStats {
                    name: e.name.clone(),
                    count: sat_inc_usize(e.count),
                    total_size: match size {
                        Some(s) => sat_add_u64(e.total_size, s),
                        None => e.total_size,
                    },
                    size_known_count: match size {
                        Some(_) => sat_inc_usize(e.size_known_count),
                        None => e.size_known_count,
                    },
                };
                self.by_target.set(i, updated);
                return ;
            }
            i = i + 1;
        }
        proof {
            assert(spec_target_ix_from(self.by_target@, name@, self.by_target@.len() as int)
                is None);
        }
        let entry = TargetStats {
            name: name.clone(),
            count: 1,
            total_size: match size {
                Some(s) => s,
                None => 0,
            },
            size_known_count: match size {
                Some(_) => 1,
                None => 0,
            },
        };
        self.by_target.push(entry);
        proof {
            assert(self.by_target@.drop_last() =~= old(self).by_target@);
        }
    }

    /// Bumps (or opens) the profile-stats entry for `name`.
    fn bump_profile(&mut self, name: &String, size: Option<u64>)
        ensures
            final(self).by_target == old(self).by_target,
            final(self).top_largest == old(self).top_largest,
            final(self).top_largest_limit == old(self).top_largest_limit,
            final(self).scan_complete == old(self).scan_complete,
            final(self).sizes_complete == old(self).sizes_complete,
            match spec_profile_ix_from(old(self).by_profile@, name@, 0) {
                Some(k) => final(self).by_profile@ == old(self).by_profile@.update(
                    k,
                    (ProfileStats {
                        name: old(self).by_profile@[k].name,
                        count: spec_sat_inc_usize(old(self).by_profile@[k].count),
                        total_size: match size {
                            Some(s) => spec_sat_add_u64(old(self).by_profile@[k].total_size, s),
                            None => old(self).by_profile@[k].total_size,
                        },
                    }),
                ),
                None => {
                    &&& final(self).by_profile@.len() == old(self).by_profile@.len() + 1
                    &&& final(self).by_profile@.drop_last() == old(self).by_profile@
                    &&& final(self).by_profile@.last().name@ == name@
                    &&& final(self).by_profile@.last().count == 1
                    &&& final(self).by_profile@.last().total_size == size.unwrap_or(0)
                },
            },
    {
        let mut i: usize = 0;
        while i < self.by_profile.len()
            invariant
                *self == *old(self),
                i <= self.by_profile@.len(),
                spec_profile_ix_from(self.by_profile@, name@, 0) == spec_profile_ix_from(
                    self.by_profile@,
                    name@,
                    i as int,
                ),
            decreases self.by_profile@.len() - i,
        {
            if str_eq(self.by_profile[i].name.as_str(), name.as_str()) {
                let e = &self.by_profile[i];
                let updated = ProfileStats {
                    name: e.name.clone(),
                    count: sat_inc_usize(e.count),
                    total_size: match size {
                        Some(s) => sat_add_u64(e.total_size, s),
                        None => e.total_size,
                    },
                };
                self.by_profile.set(i, updated);
                return ;
            }
            i = i + 1;
        }
        proof {
            assert(spec_profile_ix_from(self.by_profile@, name@, self.by_profile@.len() as int)
                is None);
        }
        let entry = ProfileStats {
            name: name.clone(),
            count: 1,
            total_size: match size {
                Some(s) => s,
                None => 0,
            },
        };
        self.by_profile.push(entry);
        proof {
            assert(self.by_profile@.drop_last() =~= old(self).by_profile@);
        }
    }

    /// Records `path` (with `size`, when known) in the top-largest list.
    pub fn maybe_insert_largest(&mut self, path: String, size: u64, target_type: String)
        ensures
            final(self).by_target == old(self).by_target,
            final(self).by_profile == old(self).by_profile,
            final(self).top_largest_limit == old(self).top_largest_limit,
            final(self).scan_complete == old(self).scan_complete,
            final(self).sizes_complete == old(self).sizes_complete,
            final(self).top_largest@ == spec_insert_largest(
                old(self).top_largest@,
                old(self).top_largest_limit as int,
                (LargestItem { path: path, size: size, target_type: target_type }),
            ),
    {
        let item = LargestItem { path, size, target_type };
        let mut i: usize = 0;
        while i < self.top_largest.len()
            invariant
                *self == *old(self),
                item == (LargestItem { path: path, size: size, target_type: target_type }),
                i <= self.top_largest@.len(),
                spec_largest_ix_from(self.top_largest@, item.path@, 0) == spec_largest_ix_from(
                    self.top_largest@,
                    item.path@,
                    i as int,
                ),
            decreases self.top_largest@.len() - i,
        {
            if str_eq(self.top_largest[i].path.as_str(), item.path.as_str()) {
                let ghost it = item;
                proof {
                    assert(it == (LargestItem { path: path, size: size, target_type: target_type }));
                    assert(spec_largest_ix_from(old(self).top_largest@, it.path@, i as int)
                        == Some(i as int));
                    assert(spec_largest_ix_from(old(self).top_largest@, it.path@, 0) == Some(
                        i as int,
                    ));
                }
                self.top_largest.set(i, item);
                let v = self.top_largest.split_off(0);
                proof {
                    assert(v@ =~= old(self).top_largest@.update(i as int, it));
                }
                let sorted = sort_largest(v);
                self.top_largest = sorted;
                proof {
                    assert(self.top_largest@ == spec_insert_largest(
                        old(self).top_largest@,
                        old(self).top_largest_limit as int,
                        it,
                    ));
                }
                return ;
            }
            i = i + 1;
        }
        proof {
            assert(spec_largest_ix_from(self.top_largest@, item.path@, self.top_largest@.len() as int)
                is None);
        }
        let mut p: usize = 0;
        while p < self.top_largest.len() && !(self.top_largest[p].size < item.size)
            invariant
                *self == *old(self),
                item == (LargestItem { path: path, size: size, target_type: target_type }),
                spec_largest_ix_from(self.top_largest@, item.path@, 0) is None,
                p <= self.top_largest@.len(),
                spec_largest_pos_from(self.top_largest@, item.size, 0) == spec_largest_pos_from(
                    self.top_largest@,
                    item.size,
                    p as int,
                ),
            decreases self.top_largest@.len() - p,
        {
            p = p + 1;
        }
        if p < self.top_largest_limit {
            self.top_largest.insert(p, item);
            if self.top_largest.len() > self.top_largest_limit {
                self.top_largest.pop();
            }
        }
    }

    /// Folds one arriving result into the analytics: the target and profile
    /// counters, and the top-largest list when the size is known.
    pub fn record_result(&mut self, path: &str, size: Option<u64>)
        ensures
            final(self).top_largest_limit == old(self).top_largest_limit,
            final(self).scan_complete == old(self).scan_complete,
            final(self).sizes_complete == old(self).sizes_complete,
            match spec_target_ix_from(old(self).by_target@, spec_target_name(path@), 0) {
                Some(k) => final(self).by_target@ == old(self).by_target@.update(
                    k,
                    (TargetStats {
                        name: old(self).by_target@[k].name,
                        count: spec_sat_inc_usize(old(self).by_target@[k].count),
                        total_size: match size {
                            Some(s) => spec_sat_add_u64(old(self).by_target@[k].total_size, s),
                            None => old(self).by_target@[k].total_size,
                        },
                        size_known_count: match size {
                            Some(_) => spec_sat_inc_usize(old(self).by_target@[k].size_known_count),
                            None => old(self).by_target@[k].size_known_count,
                        },
                    }),
                ),
                None => {
                    &&& final(self).by_target@.len() == old(self).by_target@.len() + 1
                    &&& final(self).by_target@.drop_last() == old(self).by_target@
                    &&& final(self).by_target@.last().name@ == spec_target_name(path@)
                    &&& final(self).by_target@.last().count == 1
                    &&& final(self).by_target@.last().total_size == size.unwrap_or(0)
                    &&& final(self).by_target@.last().size_known_count == (if size is Some {
                        1int
                    } else {
                        0
                    })
                },
            },
            match spec_profile_ix_from(
                old(self).by_profile@,
                spec_profile_for_target(spec_target_name(path@)),
                0,
            ) {
                Some(k) => final(self).by_profile@ == old(self).by_profile@.update(
                    k,
                    (ProfileStats {
                        name: old(self).by_profile@[k].name,
                        count: spec_sat_inc_usize(old(self).by_profile@[k].count),
                        total_size: match size {
                            Some(s) => spec_sat_add_u64(old(self).by_profile@[k].total_size, s),
                            None => old(self).by_profile@[k].total_size,
                        },
                    }),
                ),
                None => {
                    &&& final(self).by_profile@.len() == old(self).by_profile@.len() + 1
                    &&& final(self).by_profile@.drop_last() == old(self).by_profile@
                    &&& final(self).by_profile@.last().name@ == spec_profile_for_target(
                        spec_target_name(path@),
                    )
                    &&& final(self).by_profile@.last().count == 1
                    &&& final(self).by_profile@.last().total_size == size.unwrap_or(0)
                },
            },
            match size {
                Some(s) => exists|it: LargestItem|
                    {
                        &&& it.path@ == path@
                        &&& it.size == s
                        &&& it.target_type@ == spec_target_name(path@)
                        &&& final(self).top_largest@ == spec_insert_largest(
                            old(self).top_largest@,
                            old(self).top_largest_limit as int,
                            it,
                        )
                    },
                None => final(self).top_largest@ == old(self).top_largest@,
            },
    {
        let target_name = extract_target_name(path);
        let profile_name = Self::profile_for_target(target_name.as_str());
        self.bump_target(&target_name, size);
        self.bump_profile(&profile_name, size);
        if let Some(s) = size {
            self.maybe_insert_largest(String::from_str(path), s, target_name);
        }
    }

    /// Applies an asynchronous size completion: totals are bumped only when
    /// the size was previously unknown and the target is already recorded;
    /// the top-largest list is refreshed either way.
    pub fn update_size(&mut self, path: &str, old_size: Option<u64>, new_size: u64)
        ensures
            final(self).top_largest_limit == old(self).top_largest_limit,
            final(self).scan_complete == old(self).scan_complete,
            final(self).sizes_complete == old(self).sizes_complete,
            ({
                let name = spec_target_name(path@);
                match spec_target_ix_from(old(self).by_target@, name, 0) {
                    Some(k) => final(self).by_target@ == if old_size is None {
                        old(self).by_target@.update(
                            k,
                            (TargetStats {
                                name: old(self).by_target@[k].name,
                                count: old(self).by_target@[k].count,
                                total_size: spec_sat_add_u64(
                                    old(self).by_target@[k].total_size,
                                    new_size,
                                ),
                                size_known_count: spec_sat_inc_usize(
                                    old(self).by_target@[k].size_known_count,
                                ),
                            }),
                        )
                    } else {
                        old(self).by_target@
                    },
                    None => final(self).by_target@ == old(self).by_target@,
                }
            }),
            ({
                let pname = spec_profile_for_target(spec_target_name(path@));
                match spec_profile_ix_from(old(self).by_profile@, pname, 0) {
                    Some(k) => final(self).by_profile@ == if old_size is None {
                        old(self).by_profile@.update(
                            k,
                            (ProfileStats {
                                name: old(self).by_profile@[k].name,
                                count: old(self).by_profile@[k].count,
                                total_size: spec_sat_add_u64(
                                    old(self).by_profile@[k].total_size,
                                    new_size,
                                ),
                            }),
                        )
                    } else {
                        old(self).by_profile@
                    },
                    None => final(self).by_profile@ == old(self).by_profile@,
                }
            }),
            exists|it: LargestItem|
                {
                    &&& it.path@ == path@
                    &&& it.size == new_size
                    &&& it.target_type@ == spec_target_name(path@)
                    &&& final(self).top_largest@ == spec_insert_largest(
                        old(self).top_largest@,
                        old(self).top_largest_limit as int,
                        it,
                    )
                },
    {
        let target_name = extract_target_name(path);
        let profile_name = Self::profile_for_target(target_name.as_str());
        let mut ti: usize = 0;
        let mut tfound = false;
        while ti < self.by_target.len() && !tfound
            invariant
                *self == *old(self),
                target_name@ == spec_target_name(path@),
                ti <= self.by_target@.len(),
                !tfound ==> spec_target_ix_from(self.by_target@, target_name@, 0)
                    == spec_target_ix_from(self.by_target@, target_name@, ti as int),
                tfound ==> ti < self.by_target@.len() && spec_target_ix_from(
                    self.by_target@,
                    target_name@,
                    0,
                ) == Some(ti as int),
            decreases self.by_target@.len() - ti, (if tfound { 0int } else { 1int }),
        {
            if str_eq(self.by_target[ti].name.as_str(), target_name.as_str()) {
                tfound = true;
            } else {
                ti = ti + 1;
            }
        }
        proof {
            if !tfound {
                assert(spec_target_ix_from(
                    self.by_target@,
                    target_name@,
                    self.by_target@.len() as int,
                ) is None);
            }
        }
        if tfound && old_size.is_none() {
            let e = &self.by_target[ti];
            let updated = TargetStats {
                name: e.name.clone(),
                count: e.count,
                total_size: sat_add_u64(e.total_size, new_size),
                size_known_count: sat_inc_usize(e.size_known_count),
            };
            self.by_target.set(ti, updated);
        }
        let mut pj: usize = 0;
        let mut pfound = false;
        while pj < self.by_profile.len() && !pfound
            invariant
                self.by_profile == old(self).by_profile,
                self.top_largest == old(self).top_largest,
                self.top_largest_limit == old(self).top_largest_limit,
                self.scan_complete == old(self).scan_complete,
                self.sizes_complete == old(self).sizes_complete,
                profile_name@ == spec_profile_for_target(spec_target_name(path@)),
                pj <= self.by_profile@.len(),
                !pfound ==> spec_profile_ix_from(self.by_profile@, profile_name@, 0)
                    == spec_profile_ix_from(self.by_profile@, profile_name@, pj as int),
                pfound ==> pj < self.by_profile@.len() && spec_profile_ix_from(
                    self.by_profile@,
                    profile_name@,
                    0,
                ) == Some(pj as int),
            decreases self.by_profile@.len() - pj, (if pfound { 0int } else { 1int }),
        {
            if str_eq(self.by_profile[pj].name.as_str(), profile_name.as_str()) {
                pfound = true;
            } else {
                pj = pj + 1;
            }
        }
        proof {
            if !pfound {
                assert(spec_profile_ix_from(
                    self.by_profile@,
                    profile_name@,
                    self.by_profile@.len() as int,
                ) is None);
            }
        }
        if pfound && old_size.is_none() {
            let e = &self.by_profile[pj];
            let updated = ProfileStats {
                name: e.name.clone(),
                count: e.count,
                total_size: sat_add_u64(e.total_size, new_size),
            };
            self.by_profile.set(pj, updated);
        }
        self.maybe_insert_largest(String::from_str(path), new_size, target_name);
    }

    pub fn mark_scan_complete(&mut self)
        ensures
            final(self).by_target == old(self).by_target,
            final(self).by_profile == old(self).by_profile,
            final(self).top_largest == old(self).top_largest,
            final(self).top_largest_limit == old(self).top_largest_limit,
            final(self).scan_complete,
            final(self).sizes_complete == old(self).sizes_complete,
    {
        self.scan_complete = true;
    }

    /// Marks the size-computation phase complete.
    pub fn mark_sizes_complete(&mut self)
        ensures
            final(self).by_target == old(self).by_target,
            final(self).by_profile == old(self).by_profile,
            final(self).top_largest == old(self).top_largest,
            final(self).top_largest_limit == old(self).top_largest_limit,
            final(self).scan_complete == old(self).scan_complete,
            final(self).sizes_complete,
    {
        self.sizes_complete = true;
    }

    /// The number of recorded results, over all targets.
    pub fn total_count(&self) -> (r: usize)
        ensures
            r == spec_total_count(self.by_target@, self.by_target@.len() as int),
    {
        let mut sum: usize = 0;
        let mut i: usize = 0;
        while i < self.by_target.len()
            invariant
                i <= self.by_target@.len(),
                sum == spec_total_count(self.by_target@, i as int),
            decreases self.by_target@.len() - i,
        {
            sum = sat_add_usize(sum, self.by_target[i].count);
            i = i + 1;
        }
        sum
    }

    /// The total known size, over all targets.
    pub fn total_size(&self) -> (r: u64)
        ensures
            r == spec_total_size(self.by_target@, self.by_target@.len() as int),
    {
        let mut sum: u64 = 0;
        let mut i: usize = 0;
        while i < self.by_target.len()
            invariant
                i <= self.by_target@.len(),
                sum == spec_total_size(self.by_target@, i as int),
            decreases self.by_target@.len() - i,
        {
            sum = sat_add_u64(sum, self.by_target[i].total_size);
            i = i + 1;
        }
        sum
    }

    /// The target statistics, largest total size first; ties keep the order
    /// in which the targets were first seen.
    pub fn targets_by_size(&self) -> (r: Vec<TargetStats>)
        ensures
            r@ == spec_sort_by(spec_target_stats_lt(), self.by_target@),
    {
        let v = clone_targets(&self.by_target);
        sort_target_stats(v)
    }

    /// The profile statistics, largest total size first.
    pub fn profiles_by_size(&self) -> (r: Vec<ProfileStats>)
        ensures
            r@ == spec_sort_by(spec_profile_stats_lt(), self.by_profile@),
    {
        let v = clone_profiles(&self.by_profile);
        sort_profile_stats(v)
    }
}

/// The count of the first `i` target entries, saturating.
pub open spec fn spec_total_count(ts: Seq<TargetStats>, i: int) -> usize
    decreases i,
{
    if i <= 0 || i > ts.len() {
        0
    } else {
        spec_sat_add_usize(spec_total_count(ts, i - 1), ts[i - 1].count)
    }
}

/// The total size of the first `i` target entries, saturating.
pub open spec fn spec_total_size(ts: Seq<TargetStats>, i: int) -> u64
    decreases i,
{
    if i <= 0 || i > ts.len() {
        0
    } else {
        spec_sat_add_u64(spec_total_size(ts, i - 1), ts[i - 1].total_size)
    }
}

/// Whether `a` sorts before `b` among target statistics: larger total first.
pub open spec fn spec_target_stats_lt() -> spec_fn(TargetStats, TargetStats) -> bool {
    |a: TargetStats, b: TargetStats| b.total_size < a.total_size
}

/// Whether `a` sorts before `b` among profile statistics: larger total first.
pub open spec fn spec_profile_stats_lt() -> spec_fn(ProfileStats, ProfileStats) -> bool {
    |a: ProfileStats, b: ProfileStats| b.total_size < a.total_size
}

fn clone_targets(v: &Vec<TargetStats>) -> (r: Vec<TargetStats>)
    ensures
        r@ == v@,
{
    let mut r: Vec<TargetStats> = Vec::new();
    let mut i: usize = 0;
    while i < v.len()
        invariant
            i <= v@.len(),
            r@ == v@.take(i as int),
        decreases v@.len() - i,
    {
        r.push(v[i].clone());
        i = i + 1;
        proof {
            assert(r@ =~= v@.take(i as int));
        }
    }
    proof {
        assert(v@.take(v@.len() as int) =~= v@);
    }
    r
}

fn clone_profiles(v: &Vec<ProfileStats>) -> (r: Vec<ProfileStats>)
    ensures
        r@ == v@,
{
    let mut r: Vec<ProfileStats> = Vec::new();
    let mut i: usize = 0;
    while i < v.len()
        invariant
            i <= v@.len(),
            r@ == v@.take(i as int),
        decreases v@.len() - i,
    {
        r.push(v[i].clone());
        i = i + 1;
        proof {
            assert(r@ =~= v@.take(i as int));
        }
    }
    proof {
        assert(v@.take(v@.len() as int) =~= v@);
    }
    r
}

fn sort_largest(v: Vec<LargestItem>) -> (r: Vec<LargestItem>)
    ensures
        r@ == spec_sort_by(spec_largest_lt(), v@),
{
    let ghost lt = spec_largest_lt();
    let mut out: Vec<LargestItem> = Vec::new();
    let mut i: usize = 0;
    proof {
        assert(v@.take(0) =~= Seq::<LargestItem>::empty());
    }
    while i < v.len()
        invariant
            lt == spec_largest_lt(),
            i <= v@.len(),
            out@ == spec_sort_by(lt, v@.take(i as int)),
        decreases v@.len() - i,
    {
        let x = v[i].clone();
        let mut p: usize = 0;
        while p < out.len() && !(out[p].size < x.size)
            invariant
                lt == spec_largest_lt(),
                p <= out@.len(),
                forall|k: int| 0 <= k < p ==> !lt(x, #[trigger] out@[k]),
            decreases out@.len() - p,
        {
            proof {
                assert(!lt(x, out@[p as int]));
            }
            p = p + 1;
        }
        proof {
            if p < out.len() {
                assert(lt(x, out@[p as int]));
            }
            lemma_insert_by_at(lt, out@, x, p as int);
            lemma_sort_by_push(lt, v@.take(i as int), x);
            assert(v@.take(i + 1) =~= v@.take(i as int).push(v@[i as int]));
        }
        let ghost pre = out@;
        out.insert(p, x);
        proof {
            assert(out@ =~= pre.take(p as int) + seq![x] + pre.skip(p as int));
        }
        i = i + 1;
    }
    proof {
        assert(v@.take(v@.len() as int) =~= v@);
    }
    out
}

fn sort_target_stats(v: Vec<TargetStats>) -> (r: Vec<TargetStats>)
    ensures
        r@ == spec_sort_by(spec_target_stats_lt(), v@),
{
    let ghost lt = spec_target_stats_lt();
    let mut out: Vec<TargetStats> = Vec::new();
    let mut i: usize = 0;
    proof {
        assert(v@.take(0) =~= Seq::<TargetStats>::empty());
    }
    while i < v.len()
        invariant
            lt == spec_target_stats_lt(),
            i <= v@.len(),
            out@ == spec_sort_by(lt, v@.take(i as int)),
        decreases v@.len() - i,
    {
        let x = v[i].clone();
        let mut p: usize = 0;
        while p < out.len() && !(out[p].total_size < x.total_size)
            invariant
                lt == spec_target_stats_lt(),
                p <= out@.len(),
                forall|k: int| 0 <= k < p ==> !lt(x, #[trigger] out@[k]),
            decreases out@.len() - p,
        {
            proof {
                assert(!lt(x, out@[p as int]));
            }
            p = p + 1;
        }
        proof {
            if p < out.len() {
                assert(lt(x, out@[p as int]));
            }
            lemma_insert_by_at(lt, out@, x, p as int);
            lemma_sort_by_push(lt, v@.take(i as int), x);
            assert(v@.take(i + 1) =~= v@.take(i as int).push(v@[i as int]));
        }
        let ghost pre = out@;
        out.insert(p, x);
        proof {
            assert(out@ =~= pre.take(p as int) + seq![x] + pre.skip(p as int));
        }
        i = i + 1;
    }
    proof {
        assert(v@.take(v@.len() as int) =~= v@);
    }
    out
}

fn sort_profile_stats(v: Vec<ProfileStats>) -> (r: Vec<ProfileStats>)
    ensures
        r@ == spec_sort_by(spec_profile_stats_lt(), v@),
{
    let ghost lt = spec_profile_stats_lt();
    let mut out: Vec<ProfileStats> = Vec::new();
    let mut i: usize = 0;
    proof {
        assert(v@.take(0) =~= Seq::<ProfileStats>::empty());
    }
    while i < v.len()
        invariant
            lt == spec_profile_stats_lt(),
            i <= v@.len(),
            out@ == spec_sort_by(lt, v@.take(i as int)),
        decreases v@.len() - i,
    {
        let x = v[i].clone();
        let mut p: usize = 0;
        while p < out.len() && !(out[p].total_size < x.total_size)
            invariant
                lt == spec_profile_stats_lt(),
                p <= out@.len(),
                forall|k: int| 0 <= k < p ==> !lt(x, #[trigger] out@[k]),
            decreases out@.len() - p,
        {
            proof {
                assert(!lt(x, out@[p as int]));
            }
            p = p + 1;
        }
        proof {
            if p < out.len() {
                assert(lt(x, out@[p as int]));
            }
            lemma_insert_by_at(lt, out@, x, p as int);
            lemma_sort_by_push(lt, v@.take(i as int), x);
            assert(v@.take(i + 1) =~= v@.take(i as int).push(v@[i as int]));
        }
        let ghost pre = out@;
        out.insert(p, x);
        proof {
            assert(out@ =~= pre.take(p as int) + seq![x] + pre.skip(p as int));
        }
        i = i + 1;
    }
    proof {
        assert(v@.take(v@.len() as int) =~= v@);
    }
    out
}

} // verus!
