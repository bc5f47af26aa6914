//! The size engine's verified core: the recursive size-and-count fold over
//! a directory tree, and the counting admission limiter that bounds how many
//! size computations may be in flight at once.

use vstd::prelude::*;

use crate::text::{sat_add_u64, spec_sat_add_u64};

verus! {

/// An in-memory file tree: regular file sizes and subdirectories. What the
/// size computation is proved on; the filesystem walker feeds the same fold
/// entry by entry.
pub struct FsTree {
    pub files: Vec<u64>,
    pub dirs: Vec<FsTree>,
}

/// The total size of the first `i` files, saturating.
pub open spec fn spec_files_size(files: Seq<u64>, i: int) -> u64
    decreases i,
{
    if i <= 0 || i > files.len() {
        0
    } else {
        spec_sat_add_u64(spec_files_size(files, i - 1), files[i - 1])
    }
}

/// The total size of a tree: its own files plus every subtree, saturating.
pub open spec fn spec_tree_size(t: FsTree) -> u64
    decreases t,
{
    spec_sat_add_u64(
        spec_files_size(t.files@, t.files@.len() as int),
        spec_dirs_size(t.dirs@, t.dirs@.len() as int),
    )
}

/// The total size of the first `i` subtrees, saturating.
pub open spec fn spec_dirs_size(ds: Seq<FsTree>, i: int) -> u64
    decreases ds, i,
{
    if i <= 0 || i > ds.len() {
        0
    } else {
        spec_sat_add_u64(spec_dirs_size(ds, i - 1), spec_tree_size(ds[i - 1]))
    }
}

/// The number of files in a tree, including every subtree, saturating.
pub open spec fn spec_tree_count(t: FsTree) -> u64
    decreases t,
{
    spec_sat_add_u64(
        t.files@.len() as u64,
        spec_dirs_count(t.dirs@, t.dirs@.len() as int),
    )
}

/// The number of files in the first `i` subtrees, saturating.
pub open spec fn spec_dirs_count(ds: Seq<FsTree>, i: int) -> u64
    decreases ds, i,
{
    if i <= 0 || i > ds.len() {
        0
    } else {
        spec_sat_add_u64(spec_dirs_count(ds, i - 1), spec_tree_count(ds[i - 1]))
    }
}

/// The recursive size-and-count fold: sums regular file sizes and counts
/// them, recursing into subdirectories. An unreadable entry of the real
/// filesystem simply never appears in the tree handed in — fail-soft, it
/// contributes zero.
pub fn calculate_dir_size(t: &FsTree) -> (r: (u64, u64))
    ensures
        r.0 == spec_tree_size(*t),
        r.1 == spec_tree_count(*t),
    decreases *t,
{
    let mut total_size: u64 = 0;
    let mut i: usize = 0;
    while i < t.files.len()
        invariant
            i <= t.files@.len(),
            total_size == spec_files_size(t.files@, i as int),
        decreases t.files@.len() - i,
    {
        total_size = sat_add_u64(total_size, t.files[i]);
        i = i + 1;
    }
    let file_count_own: u64 = if t.files.len() as u64 <= u64::MAX {
        t.files.len() as u64
    } else {
        u64::MAX
    };
    let mut dir_size: u64 = 0;
    let mut dir_count: u64 = 0;
    let mut j: usize = 0;
    while j < t.dirs.len()
        invariant
            j <= t.dirs@.len(),
            dir_size == spec_dirs_size(t.dirs@, j as int),
            dir_count == spec_dirs_count(t.dirs@, j as int),
        decreases t.dirs@.len() - j,
    {
        let (sub_size, sub_count) = calculate_dir_size(&t.dirs[j]);
        dir_size = sat_add_u64(dir_size, sub_size);
        dir_count = sat_add_u64(dir_count, sub_count);
        j = j + 1;
    }
    (sat_add_u64(total_size, dir_size), sat_add_u64(file_count_own, dir_count))
}

/// A counting admission limiter: at most `limit` expensive computations may
/// be admitted at once; callers that cannot be admitted must wait and retry.
/// Admission control in one invariant: `in_flight() <= limit()` after every
/// operation.
pub struct SizeLimiter {
    limit: usize,
    in_flight: usize,
}

impl SizeLimiter {
    /// The bound the limiter was created with.
    pub closed spec fn limit(&self) -> usize {
        self.limit
    }

    /// How many computations are currently admitted.
    pub closed spec fn in_flight(&self) -> usize {
        self.in_flight
    }

    /// The admission bound holds.
    pub open spec fn wf(&self) -> bool {
        self.in_flight() <= self.limit()
    }

    pub fn new(limit: usize) -> (r: SizeLimiter)
        ensures
            r.limit() == limit,
            r.in_flight() == 0,
            r.wf(),
    {
        SizeLimiter { limit, in_flight: 0 }
    }

    /// Admits one computation when a slot is free; never exceeds the bound.
    pub fn try_acquire(&mut self) -> (admitted: bool)
        requires
            old(self).wf(),
        ensures
            final(self).limit() == old(self).limit(),
            final(self).wf(),
            admitted ==> old(self).in_flight() < old(self).limit() && final(self).in_flight()
                == old(self).in_flight() + 1,
            !admitted ==> old(self).in_flight() >= old(self).limit() && final(self).in_flight()
                == old(self).in_flight(),
    {
        if self.in_flight < self.limit {
            self.in_flight = self.in_flight + 1;
            true
        } else {
            false
        }
    }

    /// Returns one slot; releasing an idle limiter is a no-op.
    pub fn release(&mut self)
        ensures
            final(self).limit() == old(self).limit(),
            final(self).in_flight() == (if old(self).in_flight() > 0 {
                old(self).in_flight() - 1
            } else {
                0int
            }),
            old(self).wf() ==> final(self).wf(),
    {
        if self.in_flight > 0 {
            self.in_flight = self.in_flight - 1;
        }
    }
}

} // verus!
