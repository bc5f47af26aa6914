//! Scanning: the record a walker emits for each matched directory, the
//! batcher that amortizes hand-off of such records, and the tree-walk model
//! with its guarantees — one emission per match, nothing from beneath a
//! match, nothing from beneath an excluded directory.

use vstd::prelude::*;

use crate::text::{contains_name, seq_views};

verus! {

/// One matched directory: its path, its lazily computed size and file
/// count, its last-modified time in milliseconds, and its sensitivity.
#[derive(Debug)]
pub struct ScanResult {
    pub path: String,
    pub size: Option<u64>,
    pub file_count: Option<u64>,
    pub modified: Option<u64>,
    pub is_sensitive: bool,
}

impl ScanResult {
    /// A fresh result for a discovered directory; size and file count are
    /// unknown until computed. The modification time is captured by the
    /// caller, at discovery.
    pub fn new(path: String, modified: Option<u64>) -> (r: ScanResult)
        ensures
            r.path == path,
            r.size is None,
            r.file_count is None,
            r.modified == modified,
            !r.is_sensitive,
    {
        ScanResult { path, size: None, file_count: None, modified, is_sensitive: false }
    }
}

impl Clone for ScanResult {
    fn clone(&self) -> (res: Self)
        ensures
            res == *self,
    {
        ScanResult {
            path: self.path.clone(),
            size: self.size,
            file_count: self.file_count,
            modified: self.modified,
            is_sensitive: self.is_sensitive,
        }
    }
}

/// How many results are buffered before a batch is handed on.
pub const BATCH_SIZE: usize = 50;

/// Accumulates results into bounded batches, preserving arrival order;
/// exists to amortize hand-off cost, never to drop an item.
pub struct ResultBatcher {
    buffer: Vec<ScanResult>,
}

impl ResultBatcher {
    /// What is currently buffered, in arrival order.
    pub closed spec fn buffered(&self) -> Seq<ScanResult> {
        self.buffer@
    }

    pub fn new() -> (r: ResultBatcher)
        ensures
            r.buffered() == Seq::<ScanResult>::empty(),
    {
        let r = ResultBatcher { buffer: Vec::new() };
        proof {
            assert(r.buffered() =~= Seq::<ScanResult>::empty());
        }
        r
    }

    /// Buffers one result; when the buffer reaches the batch size, hands the
    /// whole batch out, in arrival order, and starts empty again.
    pub fn add(&mut self, result: ScanResult) -> (batch: Option<Vec<ScanResult>>)
        ensures
            old(self).buffered().len() + 1 >= BATCH_SIZE ==> {
                &&& batch matches Some(b) && b@ == old(self).buffered().push(result)
                &&& final(self).buffered() == Seq::<ScanResult>::empty()
            },
            old(self).buffered().len() + 1 < BATCH_SIZE ==> {
                &&& batch is None
                &&& final(self).buffered() == old(self).buffered().push(result)
            },
    {
        self.buffer.push(result);
        if self.buffer.len() >= BATCH_SIZE {
            let b = self.buffer.split_off(0);
            proof {
                assert(b@ =~= old(self).buffered().push(result));
                assert(self.buffered() =~= Seq::<ScanResult>::empty());
            }
            Some(b)
        } else {
            None
        }
    }

    /// Hands out whatever is buffered as a final short batch, if anything is.
    pub fn flush(&mut self) -> (batch: Option<Vec<ScanResult>>)
        ensures
            old(self).buffered().len() == 0 ==> batch is None,
            old(self).buffered().len() > 0 ==> (batch matches Some(b) && b@ == old(self).buffered()),
            final(self).buffered() == Seq::<ScanResult>::empty(),
    {
        if self.buffer.is_empty() {
            proof {
                assert(self.buffered() =~= Seq::<ScanResult>::empty());
            }
            None
        } else {
            let b = self.buffer.split_off(0);
            proof {
                assert(b@ =~= old(self).buffered());
                assert(self.buffered() =~= Seq::<ScanResult>::empty());
            }
            Some(b)
        }
    }
}

/// An in-memory directory tree: what the walker's decisions are proved on.
pub struct DirTree {
    pub name: String,
    pub children: Vec<DirTree>,
}

/// The matches under `t`, as component lists relative to `t`'s parent:
/// each emitted match is the names from `t` down to the match, inclusive.
/// An excluded directory hides its whole subtree; a match is emitted once
/// and never descended into.
pub open spec fn spec_walk_rel(
    t: DirTree,
    targets: Seq<Seq<char>>,
    excludes: Seq<Seq<char>>,
) -> Seq<Seq<Seq<char>>>
    decreases t,
{
    if excludes.contains(t.name@) {
        Seq::empty()
    } else if targets.contains(t.name@) {
        seq![seq![t.name@]]
    } else {
        spec_walk_children(t.children@, t.children@.len() as int, t.name@, targets, excludes)
    }
}

/// The matches under children `cs[..i]`, each prefixed with `name`.
pub open spec fn spec_walk_children(
    cs: Seq<DirTree>,
    i: int,
    name: Seq<char>,
    targets: Seq<Seq<char>>,
    excludes: Seq<Seq<char>>,
) -> Seq<Seq<Seq<char>>>
    decreases cs, i,
{
    if i <= 0 || i > cs.len() {
        Seq::empty()
    } else {
        spec_walk_children(cs, i - 1, name, targets, excludes) + spec_walk_rel(
            cs[i - 1],
            targets,
            excludes,
        ).map_values(|p: Seq<Seq<char>>| seq![name] + p)
    }
}

/// One emission per match, nothing from beneath a match, nothing from an
/// excluded subtree: every emitted component list ends in a target name,
/// passes through no excluded name, and descends through no other target.
pub proof fn lemma_walk_rel_shape(
    t: DirTree,
    targets: Seq<Seq<char>>,
    excludes: Seq<Seq<char>>,
    n: int,
)
    requires
        0 <= n < spec_walk_rel(t, targets, excludes).len(),
    ensures
        ({
            let p = spec_walk_rel(t, targets, excludes)[n];
            &&& p.len() >= 1
            &&& targets.contains(p.last())
            &&& !excludes.contains(p.last())
            &&& forall|k: int|
                0 <= k < p.len() - 1 ==> !targets.contains(#[trigger] p[k]) && !excludes.contains(
                    p[k],
                )
        }),
    decreases t,
{
    if excludes.contains(t.name@) {
    } else if targets.contains(t.name@) {
    } else {
        lemma_walk_children_shape(
            t.children@,
            t.children@.len() as int,
            t.name@,
            targets,
            excludes,
            n,
        );
    }
}

proof fn lemma_walk_children_shape(
    cs: Seq<DirTree>,
    i: int,
    name: Seq<char>,
    targets: Seq<Seq<char>>,
    excludes: Seq<Seq<char>>,
    n: int,
)
    requires
        0 <= n < spec_walk_children(cs, i, name, targets, excludes).len(),
        !targets.contains(name),
        !excludes.contains(name),
    ensures
        ({
            let p = spec_walk_children(cs, i, name, targets, excludes)[n];
            &&& p.len() >= 1
            &&& targets.contains(p.last())
            &&& !excludes.contains(p.last())
            &&& forall|k: int|
                0 <= k < p.len() - 1 ==> !targets.contains(#[trigger] p[k]) && !excludes.contains(
                    p[k],
                )
        }),
    decreases cs, i,
{
    let before = spec_walk_children(cs, i - 1, name, targets, excludes);
    if n < before.len() {
        lemma_walk_children_shape(cs, i - 1, name, targets, excludes, n);
    } else {
        let sub = spec_walk_rel(cs[i - 1], targets, excludes);
        let m = n - before.len();
        lemma_walk_rel_shape(cs[i - 1], targets, excludes, m);
        let q = sub[m];
        let p = seq![name] + q;
        assert(spec_walk_children(cs, i, name, targets, excludes)[n] == p);
        assert(p.last() == q.last());
        assert(forall|k: int| 0 < k < p.len() - 1 ==> #[trigger] p[k] == q[k - 1]);
    }
}

/// Sibling directories have distinct names, throughout the tree — true of
/// any tree read from a filesystem.
pub open spec fn spec_sibling_unique(t: DirTree) -> bool
    decreases t,
{
    &&& forall|i: int, j: int|
        0 <= i < j < t.children@.len() ==> (#[trigger] t.children@[i]).name@ != (
        #[trigger] t.children@[j]).name@
    &&& forall|i: int|
        0 <= i < t.children@.len() ==> spec_sibling_unique(#[trigger] t.children@[i])
}

/// Every emission under `t` begins with `t`'s own name.
proof fn lemma_walk_rel_head(t: DirTree, targets: Seq<Seq<char>>, excludes: Seq<Seq<char>>, n: int)
    requires
        0 <= n < spec_walk_rel(t, targets, excludes).len(),
    ensures
        spec_walk_rel(t, targets, excludes)[n].len() >= 1,
        spec_walk_rel(t, targets, excludes)[n][0] == t.name@,
    decreases t,
{
    if excludes.contains(t.name@) {
    } else if targets.contains(t.name@) {
    } else {
        lemma_walk_children_head(
            t.children@,
            t.children@.len() as int,
            t.name@,
            targets,
            excludes,
            n,
        );
    }
}

proof fn lemma_walk_children_head(
    cs: Seq<DirTree>,
    i: int,
    name: Seq<char>,
    targets: Seq<Seq<char>>,
    excludes: Seq<Seq<char>>,
    n: int,
)
    requires
        0 <= n < spec_walk_children(cs, i, name, targets, excludes).len(),
    ensures
        spec_walk_children(cs, i, name, targets, excludes)[n].len() >= 1,
        spec_walk_children(cs, i, name, targets, excludes)[n][0] == name,
    decreases cs, i,
{
    let before = spec_walk_children(cs, i - 1, name, targets, excludes);
    if n < before.len() {
        lemma_walk_children_head(cs, i - 1, name, targets, excludes, n);
    }
}

/// Exactly one emission per matched directory: under distinct sibling
/// names, no two emitted component lists are equal.
pub proof fn lemma_walk_rel_distinct(
    t: DirTree,
    targets: Seq<Seq<char>>,
    excludes: Seq<Seq<char>>,
    m: int,
    n: int,
)
    requires
        spec_sibling_unique(t),
        0 <= m < n < spec_walk_rel(t, targets, excludes).len(),
    ensures
        spec_walk_rel(t, targets, excludes)[m] != spec_walk_rel(t, targets, excludes)[n],
    decreases t,
{
    if excludes.contains(t.name@) {
    } else if targets.contains(t.name@) {
    } else {
        lemma_walk_children_distinct(
            t.children@,
            t.children@.len() as int,
            t.name@,
            targets,
            excludes,
            m,
            n,
        );
    }
}

/// Which child an emission of `spec_walk_children(cs, i, ..)` came from:
/// its second component is that child's name.
proof fn lemma_walk_children_source(
    cs: Seq<DirTree>,
    i: int,
    name: Seq<char>,
    targets: Seq<Seq<char>>,
    excludes: Seq<Seq<char>>,
    n: int,
)
    requires
        0 <= n < spec_walk_children(cs, i, name, targets, excludes).len(),
        i <= cs.len(),
    ensures
        exists|k: int|
            {
                &&& 0 <= k < i
                &&& #[trigger] spec_walk_children(cs, i, name, targets, excludes)[n].len() >= 2
                &&& spec_walk_children(cs, i, name, targets, excludes)[n][1] == cs[k].name@
            },
    decreases cs, i,
{
    let whole = spec_walk_children(cs, i, name, targets, excludes);
    let before = spec_walk_children(cs, i - 1, name, targets, excludes);
    if n < before.len() {
        lemma_walk_children_source(cs, i - 1, name, targets, excludes, n);
        let k = choose|k: int|
            0 <= k < i - 1 && #[trigger] before[n].len() >= 2 && before[n][1] == cs[k].name@;
        assert(whole[n] == before[n]);
        assert(0 <= k < i && whole[n].len() >= 2 && whole[n][1] == cs[k].name@);
    } else {
        let sub = spec_walk_rel(cs[i - 1], targets, excludes);
        let p = sub[n - before.len()];
        lemma_walk_rel_head(cs[i - 1], targets, excludes, n - before.len());
        assert(whole[n] == seq![name] + p);
        assert(whole[n].len() >= 2);
        assert(whole[n][1] == p[0]);
        assert(0 <= i - 1 < i && whole[n].len() >= 2 && whole[n][1] == cs[i - 1].name@);
    }
}

proof fn lemma_walk_children_distinct(
    cs: Seq<DirTree>,
    i: int,
    name: Seq<char>,
    targets: Seq<Seq<char>>,
    excludes: Seq<Seq<char>>,
    m: int,
    n: int,
)
    requires
        forall|a: int, b: int|
            0 <= a < b < cs.len() ==> (#[trigger] cs[a]).name@ != (#[trigger] cs[b]).name@,
        forall|a: int| 0 <= a < cs.len() ==> spec_sibling_unique(#[trigger] cs[a]),
        i <= cs.len(),
        0 <= m < n < spec_walk_children(cs, i, name, targets, excludes).len(),
    ensures
        spec_walk_children(cs, i, name, targets, excludes)[m] != spec_walk_children(
            cs,
            i,
            name,
            targets,
            excludes,
        )[n],
    decreases cs, i,
{
    let whole = spec_walk_children(cs, i, name, targets, excludes);
    let before = spec_walk_children(cs, i - 1, name, targets, excludes);
    let sub = spec_walk_rel(cs[i - 1], targets, excludes);
    if n < before.len() {
        lemma_walk_children_distinct(cs, i - 1, name, targets, excludes, m, n);
        assert(whole[m] == before[m] && whole[n] == before[n]);
    } else if m >= before.len() {
        // both from the newest child: distinct by induction, and prepending
        // the parent name preserves distinctness
        let p = sub[m - before.len()];
        let q = sub[n - before.len()];
        lemma_walk_rel_distinct(cs[i - 1], targets, excludes, m - before.len(), n - before.len());
        assert(whole[m] == seq![name] + p);
        assert(whole[n] == seq![name] + q);
        if whole[m] == whole[n] {
            assert(p =~= q) by {
                assert(forall|x: int|
                    0 <= x < p.len() ==> p[x] == (seq![name] + p)[x + 1] && (seq![name] + q)[x + 1]
                        == q[x]);
            }
        }
    } else {
        // from different children: the second components are the two
        // children's names, which differ
        lemma_walk_children_source(cs, i - 1, name, targets, excludes, m);
        let k = choose|k: int|
            0 <= k < i - 1 && #[trigger] before[m].len() >= 2 && before[m][1] == cs[k].name@;
        let q = sub[n - before.len()];
        lemma_walk_rel_head(cs[i - 1], targets, excludes, n - before.len());
        assert(whole[m] == before[m]);
        assert(whole[n] == seq![name] + q);
        assert(whole[n][1] == q[0]);
        assert(whole[n][1] == cs[i - 1].name@);
        assert(cs[k].name@ != cs[i - 1].name@);
    }
}

/// A component list joined into a path with `/` separators.
pub open spec fn spec_join(p: Seq<Seq<char>>) -> Seq<char>
    decreases p.len(),
{
    if p.len() == 0 {
        Seq::empty()
    } else if p.len() == 1 {
        p[0]
    } else {
        p[0] + seq!['/'] + spec_join(p.drop_first())
    }
}

/// Every emitted component list of a walk, joined into a path.
pub open spec fn spec_walk_paths(
    t: DirTree,
    targets: Seq<Seq<char>>,
    excludes: Seq<Seq<char>>,
) -> Seq<Seq<char>> {
    spec_walk_rel(t, targets, excludes).map_values(|p: Seq<Seq<char>>| spec_join(p))
}

/// Walks an in-memory tree, returning the path of every match, relative to
/// the root's parent. The real filesystem walker applies the same
/// per-directory decisions; this model is what they are proved on.
#[verifier::loop_isolation(false)]
pub fn walk_tree(t: &DirTree, targets: &Vec<String>, excludes: &Vec<String>) -> (r: Vec<String>)
    ensures
        seq_views(r@) == spec_walk_paths(*t, seq_views(targets@), seq_views(excludes@)),
    decreases *t,
{
    let ghost ts = seq_views(targets@);
    let ghost es = seq_views(excludes@);
    if contains_name(excludes, t.name.as_str()) {
        let r: Vec<String> = Vec::new();
        proof {
            assert(seq_views(r@) =~~= spec_walk_paths(*t, ts, es));
        }
        return r;
    }
    if contains_name(targets, t.name.as_str()) {
        let mut r: Vec<String> = Vec::new();
        r.push(t.name.clone());
        proof {
            assert(seq_views(r@) =~~= spec_walk_paths(*t, ts, es));
        }
        return r;
    }
    let ghost cs = t.children@;
    let mut out: Vec<String> = Vec::new();
    let mut i: usize = 0;
    proof {
        assert(seq_views(out@) =~~= spec_walk_children(cs, 0, t.name@, ts, es).map_values(
            |p: Seq<Seq<char>>| spec_join(p),
        ));
    }
    while i < t.children.len()
        invariant
            seq_views(out@) == spec_walk_children(cs, i as int, t.name@, ts, es).map_values(
                |p: Seq<Seq<char>>| spec_join(p),
            ),
            i <= cs.len(),
        decreases cs.len() - i,
    {
        let ghost sub_spec = spec_walk_rel(cs[i as int], ts, es);
        let sub = walk_tree(&t.children[i], targets, excludes);
        let mut j: usize = 0;
        proof {
            assert(seq_views(out@) =~~= spec_walk_children(cs, i as int, t.name@, ts, es)
                .map_values(|p: Seq<Seq<char>>| spec_join(p)) + sub_spec.map_values(
                |p: Seq<Seq<char>>| seq![t.name@] + p,
            ).map_values(|p: Seq<Seq<char>>| spec_join(p)).take(0));
        }
        while j < sub.len()
            invariant
                seq_views(sub@) == sub_spec.map_values(|p: Seq<Seq<char>>| spec_join(p)),
                j <= sub@.len(),
                seq_views(out@) == spec_walk_children(cs, i as int, t.name@, ts, es).map_values(
                    |p: Seq<Seq<char>>| spec_join(p),
                ) + sub_spec.map_values(|p: Seq<Seq<char>>| seq![t.name@] + p).map_values(
                    |p: Seq<Seq<char>>| spec_join(p),
                ).take(j as int),
            decreases sub@.len() - j,
        {
            let joined = String::from_str(t.name.as_str()).concat("/").concat(sub[j].as_str());
            proof {
                reveal_strlit("/");
                assert("/"@ =~= seq!['/']);
                assert(seq_views(sub@).len() == sub@.len());
                assert(sub_spec.map_values(|p: Seq<Seq<char>>| spec_join(p)).len()
                    == sub_spec.len());
                lemma_walk_rel_shape(cs[i as int], ts, es, j as int);
                let q = sub_spec[j as int];
                assert((seq![t.name@] + q).drop_first() =~= q);
                assert(spec_join(seq![t.name@] + q) == t.name@ + seq!['/'] + spec_join(q));
                assert(seq_views(sub@)[j as int] == sub@[j as int]@);
                assert(joined@ == spec_join(seq![t.name@] + q));
            }
            let ghost pre = out@;
            out.push(joined);
            proof {
                assert(seq_views(out@) =~= seq_views(pre).push(joined@));
                assert(seq_views(out@) =~~= spec_walk_children(cs, i as int, t.name@, ts, es)
                    .map_values(|p: Seq<Seq<char>>| spec_join(p)) + sub_spec.map_values(
                    |p: Seq<Seq<char>>| seq![t.name@] + p,
                ).map_values(|p: Seq<Seq<char>>| spec_join(p)).take(j + 1));
            }
            j = j + 1;
        }
        proof {
            let mapped = sub_spec.map_values(|p: Seq<Seq<char>>| seq![t.name@] + p).map_values(
                |p: Seq<Seq<char>>| spec_join(p),
            );
            assert(seq_views(sub@).len() == sub@.len());
            assert(sub_spec.map_values(|p: Seq<Seq<char>>| spec_join(p)).len() == sub_spec.len());
            assert(mapped.len() == sub_spec.len());
            assert(mapped.take(j as int) =~~= mapped);
            assert(seq_views(out@) =~~= spec_walk_children(cs, i + 1, t.name@, ts, es).map_values(
                |p: Seq<Seq<char>>| spec_join(p),
            ));
        }
        i = i + 1;
    }
    proof {
        assert(spec_walk_children(cs, cs.len() as int, t.name@, ts, es) == spec_walk_rel(
            *t,
            ts,
            es,
        ));
    }
    out
}

} // verus!
