//! Size aggregation: what a directory tree adds up to, given the entries that
//! a walk of it met.

use crate::text::text_views;
use vstd::prelude::*;

verus! {

/// What kind of thing a directory entry is. Symbolic links are `Other`: they
/// are never followed.
#[derive(Debug, Clone, Copy, PartialEq, Eq)]
pub enum EntryKind {
    File,
    Dir,
    Other,
}

/// One entry met while walking a tree, the root of the walk included.
#[derive(Debug, Clone, Copy, PartialEq, Eq)]
pub struct WalkEntry {
    pub kind: EntryKind,
    /// Distance from the root of the walk; the root itself is at depth 0.
    pub depth: usize,
    /// Byte length, where the entry's metadata could be read.
    pub len: Option<u64>,
}

impl WalkEntry {
    /// A regular file whose length is known. A file without readable
    /// metadata is passed over.
    pub open spec fn is_sized_file(self) -> bool {
        self.kind is File && self.len is Some
    }

    /// A directory below the root of the walk.
    pub open spec fn is_subdirectory(self) -> bool {
        self.kind is Dir && self.depth > 0
    }

    /// The bytes that the entry adds to its tree's total.
    pub open spec fn bytes(self) -> nat {
        if self.is_sized_file() {
            self.len->0 as nat
        } else {
            0
        }
    }
}

/// The predicate that picks the files that count.
pub open spec fn sized_files() -> spec_fn(WalkEntry) -> bool {
    |e: WalkEntry| e.is_sized_file()
}

/// The predicate that picks the directories that count.
pub open spec fn subdirectories() -> spec_fn(WalkEntry) -> bool {
    |e: WalkEntry| e.is_subdirectory()
}

/// The sum of the lengths of the files in a walk.
pub open spec fn total_bytes(walk: Seq<WalkEntry>) -> nat
    decreases walk.len(),
{
    if walk.len() == 0 {
        0
    } else {
        total_bytes(walk.drop_last()) + walk.last().bytes()
    }
}

/// The number of files in a walk whose length is known.
pub open spec fn file_count(walk: Seq<WalkEntry>) -> nat {
    walk.filter(sized_files()).len()
}

/// The number of directories in a walk, its root left out.
pub open spec fn dir_count(walk: Seq<WalkEntry>) -> nat {
    walk.filter(subdirectories()).len()
}

/// `n`, or the largest `u128` where `n` is beyond it.
pub open spec fn clip_u128(n: int) -> u128 {
    if n > u128::MAX {
        u128::MAX
    } else {
        n as u128
    }
}

/// `n`, or the largest `u64` where `n` is beyond it.
pub open spec fn clip_u64(n: int) -> u64 {
    if n > u64::MAX {
        u64::MAX
    } else {
        n as u64
    }
}

/// Running totals of a walk. Each counter stops at its type's maximum
/// instead of wrapping.
#[derive(Debug, Clone, Copy, PartialEq, Eq)]
pub struct Tally {
    pub total_bytes: u128,
    pub file_count: u64,
    pub dir_count: u64,
}

impl Tally {
    /// The tally of an empty walk.
    pub open spec fn zero() -> Tally {
        Tally { total_bytes: 0, file_count: 0, dir_count: 0 }
    }

    /// The tally after one more entry.
    pub open spec fn plus(self, e: WalkEntry) -> Tally {
        if e.is_sized_file() {
            Tally {
                total_bytes: clip_u128(self.total_bytes + e.bytes()),
                file_count: clip_u64(self.file_count + 1),
                dir_count: self.dir_count,
            }
        } else if e.is_subdirectory() {
            Tally {
                total_bytes: self.total_bytes,
                file_count: self.file_count,
                dir_count: clip_u64(self.dir_count + 1),
            }
        } else {
            self
        }
    }

    /// The tally of a whole walk, entry by entry.
    pub open spec fn of(walk: Seq<WalkEntry>) -> Tally
        decreases walk.len(),
    {
        if walk.len() == 0 {
            Tally::zero()
        } else {
            Tally::of(walk.drop_last()).plus(walk.last())
        }
    }

    pub fn new() -> (t: Tally)
        ensures
            t == Tally::zero(),
    {
        Tally { total_bytes: 0, file_count: 0, dir_count: 0 }
    }

    /// Takes one entry into the totals.
    pub fn record(&mut self, e: &WalkEntry)
        ensures
            *final(self) == old(self).plus(*e),
    {
        match e.kind {
            EntryKind::File => {
                if let Some(len) = e.len {
                    self.total_bytes = self.total_bytes.saturating_add(len as u128);
                    self.file_count = self.file_count.saturating_add(1);
                }
            },
            EntryKind::Dir => {
                if e.depth > 0 {
                    self.dir_count = self.dir_count.saturating_add(1);
                }
            },
            EntryKind::Other => {},
        }
    }
}

/// The sums of a walk are those of the walk without its last entry, and
/// what that entry adds.
pub proof fn lemma_sums_step(walk: Seq<WalkEntry>)
    requires
        walk.len() > 0,
    ensures
        total_bytes(walk) == total_bytes(walk.drop_last()) + walk.last().bytes(),
        file_count(walk) == file_count(walk.drop_last()) + if walk.last().is_sized_file() {
            1nat
        } else {
            0nat
        },
        dir_count(walk) == dir_count(walk.drop_last()) + if walk.last().is_subdirectory() {
            1nat
        } else {
            0nat
        },
{
    reveal(Seq::filter);
}

/// No sum of a walk exceeds what its length allows: a file has at most
/// `u64::MAX` bytes, and each entry counts at most once.
pub proof fn lemma_sums_bounded(walk: Seq<WalkEntry>)
    ensures
        total_bytes(walk) <= walk.len() * 0xffff_ffff_ffff_ffff,
        file_count(walk) <= walk.len(),
        dir_count(walk) <= walk.len(),
    decreases walk.len(),
{
    if walk.len() > 0 {
        lemma_sums_step(walk);
        lemma_sums_bounded(walk.drop_last());
    } else {
        reveal(Seq::filter);
    }
}

/// The running totals are the exact sums wherever these fit, and the
/// counter's maximum where they do not: a total is never reported smaller
/// than a counter can hold because it wrapped.
pub proof fn lemma_tally_saturates(walk: Seq<WalkEntry>)
    ensures
        Tally::of(walk).total_bytes == clip_u128(total_bytes(walk) as int),
        Tally::of(walk).file_count == clip_u64(file_count(walk) as int),
        Tally::of(walk).dir_count == clip_u64(dir_count(walk) as int),
    decreases walk.len(),
{
    if walk.len() > 0 {
        lemma_sums_step(walk);
        lemma_tally_saturates(walk.drop_last());
    } else {
        reveal(Seq::filter);
    }
}

/// Taking in an entry lowers no counter.
pub proof fn lemma_record_never_lowers(t: Tally, e: WalkEntry)
    ensures
        t.plus(e).total_bytes >= t.total_bytes,
        t.plus(e).file_count >= t.file_count,
        t.plus(e).dir_count >= t.dir_count,
        t.total_bytes + e.bytes() > u128::MAX ==> t.plus(e).total_bytes == u128::MAX,
{
}

/// A longer walk never reports less than a walk that it extends.
pub proof fn lemma_tally_monotone(walk: Seq<WalkEntry>, more: Seq<WalkEntry>)
    ensures
        Tally::of(walk + more).total_bytes >= Tally::of(walk).total_bytes,
        Tally::of(walk + more).file_count >= Tally::of(walk).file_count,
        Tally::of(walk + more).dir_count >= Tally::of(walk).dir_count,
    decreases more.len(),
{
    if more.len() == 0 {
        assert(walk + more =~= walk);
    } else {
        assert((walk + more).drop_last() =~= walk + more.drop_last());
        assert((walk + more).last() == more.last());
        lemma_tally_monotone(walk, more.drop_last());
        lemma_record_never_lowers(Tally::of(walk + more.drop_last()), more.last());
    }
}

proof fn lemma_total_bytes_remove(walk: Seq<WalkEntry>, i: int)
    requires
        0 <= i < walk.len(),
    ensures
        total_bytes(walk) == total_bytes(walk.remove(i)) + walk[i].bytes(),
    decreases walk.len(),
{
    if i == walk.len() - 1 {
        assert(walk.remove(i) =~= walk.drop_last());
    } else {
        lemma_total_bytes_remove(walk.drop_last(), i);
        assert(walk.remove(i).drop_last() =~= walk.drop_last().remove(i));
        assert(walk.remove(i).last() == walk.last());
    }
}

proof fn lemma_filter_len_remove(walk: Seq<WalkEntry>, pred: spec_fn(WalkEntry) -> bool, i: int)
    requires
        0 <= i < walk.len(),
    ensures
        walk.filter(pred).len() == walk.remove(i).filter(pred).len() + if pred(walk[i]) {
            1nat
        } else {
            0nat
        },
    decreases walk.len(),
{
    reveal(Seq::filter);
    if i == walk.len() - 1 {
        assert(walk.remove(i) =~= walk.drop_last());
    } else {
        lemma_filter_len_remove(walk.drop_last(), pred, i);
        assert(walk.remove(i).drop_last() =~= walk.drop_last().remove(i));
        assert(walk.remove(i).last() == walk.last());
    }
}

/// The sums of a tree do not depend on the order in which a walk meets its
/// entries: two walks that meet the same entries, each as often, add up to
/// the same. A tree that has not changed adds up to what it did before.
pub proof fn lemma_sums_ignore_order(a: Seq<WalkEntry>, b: Seq<WalkEntry>)
    requires
        a.to_multiset() == b.to_multiset(),
    ensures
        total_bytes(a) == total_bytes(b),
        file_count(a) == file_count(b),
        dir_count(a) == dir_count(b),
    decreases b.len(),
{
    a.to_multiset_ensures();
    b.to_multiset_ensures();
    if b.len() == 0 {
        reveal(Seq::filter);
    } else {
        let last = b.len() - 1;
        let x = b[last];
        assert(b.contains(x));
        assert(b.to_multiset().count(x) > 0);
        assert(a.to_multiset().count(x) > 0);
        assert(a.contains(x));
        let i = choose|i: int| 0 <= i < a.len() && a[i] == x;
        assert(b.remove(last) =~= b.drop_last());
        assert(a.remove(i).to_multiset() =~= a.to_multiset().remove(x));
        assert(b.remove(last).to_multiset() =~= b.to_multiset().remove(x));
        lemma_sums_ignore_order(a.remove(i), b.drop_last());
        lemma_total_bytes_remove(a, i);
        lemma_filter_len_remove(a, sized_files(), i);
        lemma_filter_len_remove(a, subdirectories(), i);
        lemma_sums_step(b);
    }
}

/// The aggregate of one scanned directory.
#[derive(Debug, Clone, PartialEq, Eq)]
pub struct DirStats {
    pub path: String,
    pub total_bytes: u128,
    pub file_count: u64,
    pub dir_count: u64,
}

/// A `DirStats` as a mathematical value.
pub struct StatsView {
    pub path: Seq<char>,
    pub total_bytes: nat,
    pub file_count: nat,
    pub dir_count: nat,
}

impl View for DirStats {
    type V = StatsView;

    open spec fn view(&self) -> StatsView {
        StatsView {
            path: self.path@,
            total_bytes: self.total_bytes as nat,
            file_count: self.file_count as nat,
            dir_count: self.dir_count as nat,
        }
    }
}

/// The views of a list of aggregates, in order.
pub open spec fn stats_views(list: Seq<DirStats>) -> Seq<StatsView> {
    list.map_values(|d: DirStats| d@)
}

/// Adds up the tree under `dir` from the entries that a walk of it met: the
/// lengths and the number of its files, and the number of directories below
/// `dir`. The walk holds every entry that could be read, so the result is the
/// best count to be had, never a failure.
pub fn compute_stats_for_dir(dir: String, walk: &Vec<WalkEntry>) -> (stats: DirStats)
    ensures
        stats.path == dir,
        stats.total_bytes == total_bytes(walk@),
        stats.file_count == file_count(walk@),
        stats.dir_count == dir_count(walk@),
{
    let mut tally = Tally::new();
    let mut i: usize = 0;
    while i < walk.len()
        invariant
            i <= walk.len(),
            tally == Tally::of(walk@.take(i as int)),
        decreases walk.len() - i,
    {
        tally.record(&walk[i]);
        proof {
            let next = walk@.take(i + 1);
            assert(next.drop_last() =~= walk@.take(i as int));
            assert(next.last() == walk@[i as int]);
        }
        i = i + 1;
    }
    proof {
        assert(walk@.take(i as int) =~= walk@);
        lemma_tally_saturates(walk@);
        lemma_sums_bounded(walk@);
        assert(walk@.len() * 0xffff_ffff_ffff_ffff <= 0xffff_ffff_ffff_ffff
            * 0xffff_ffff_ffff_ffff) by (nonlinear_arith)
            requires
                walk@.len() <= 0xffff_ffff_ffff_ffff,
        ;
    }
    DirStats {
        path: dir,
        total_bytes: tally.total_bytes,
        file_count: tally.file_count,
        dir_count: tally.dir_count,
    }
}

/// One entry of a directory listing.
#[derive(Debug, Clone, PartialEq, Eq)]
pub struct ListedEntry {
    pub path: String,
    /// `None` where the entry's type could not be read.
    pub kind: Option<EntryKind>,
}

/// The predicate that picks the directories of a listing.
pub open spec fn listed_dirs() -> spec_fn(ListedEntry) -> bool {
    |e: ListedEntry| e.kind == Some(EntryKind::Dir)
}

/// The paths of the directories in a listing, in the listing's order.
pub open spec fn subdir_paths(listing: Seq<ListedEntry>) -> Seq<Seq<char>> {
    listing.filter(listed_dirs()).map_values(|e: ListedEntry| e.path@)
}

/// Picks the child directories out of the listing of a root: one level, in
/// the order listed. Entries of another or of unknown type are left out, and
/// an empty listing gives an empty list.
pub fn immediate_subdirs(listing: &Vec<ListedEntry>) -> (dirs: Vec<String>)
    ensures
        text_views(dirs@) == subdir_paths(listing@),
{
    let mut dirs: Vec<String> = Vec::new();
    let mut i: usize = 0;
    proof {
        reveal(Seq::filter);
        assert(text_views(dirs@) =~= subdir_paths(listing@.take(0)));
    }
    while i < listing.len()
        invariant
            i <= listing.len(),
            text_views(dirs@) == subdir_paths(listing@.take(i as int)),
        decreases listing.len() - i,
    {
        let ghost before = dirs@;
        let is_dir = match listing[i].kind {
            Some(EntryKind::Dir) => true,
            _ => false,
        };
        if is_dir {
            dirs.push(listing[i].path.clone());
        }
        proof {
            reveal(Seq::filter);
            let next = listing@.take(i + 1);
            assert(next.drop_last() =~= listing@.take(i as int));
            assert(next.last() == listing@[i as int]);
            if is_dir {
                assert(text_views(dirs@) =~= text_views(before).push(listing@[i as int].path@));
                assert(subdir_paths(next) =~= subdir_paths(next.drop_last()).push(
                    next.last().path@,
                ));
            }
        }
        i = i + 1;
    }
    proof {
        assert(listing@.take(i as int) =~= listing@);
    }
    dirs
}

} // verus!
