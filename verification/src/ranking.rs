//! The order of the entry list: largest total first, and entries of equal
//! total in the order in which they were listed.

use crate::stats::{stats_views, DirStats, StatsView};
use std::collections::VecDeque;
use vstd::prelude::*;

verus! {

/// No entry is followed by a larger one.
pub open spec fn sorted_desc(s: Seq<StatsView>) -> bool {
    forall|i: int, j: int| 0 <= i <= j < s.len() ==> s[i].total_bytes >= s[j].total_bytes
}

/// How many entries at the head of `sorted` are larger than `e`.
pub open spec fn larger_prefix_len(sorted: Seq<StatsView>, e: StatsView) -> nat
    decreases sorted.len(),
{
    if sorted.len() == 0 || sorted.first().total_bytes <= e.total_bytes {
        0
    } else {
        1 + larger_prefix_len(sorted.drop_first(), e)
    }
}

/// `sorted` with `e` put in behind the leading entries that are larger than
/// `e`, and so in front of every entry of the same total.
pub open spec fn place_desc(e: StatsView, sorted: Seq<StatsView>) -> Seq<StatsView> {
    sorted.insert(larger_prefix_len(sorted, e) as int, e)
}

/// The entries of `list`, largest first. Each entry is placed in front of the
/// ordered rest of the list, so that of two entries of one total the one
/// listed first stays first.
pub open spec fn sort_desc(list: Seq<StatsView>) -> Seq<StatsView>
    decreases list.len(),
{
    if list.len() == 0 {
        list
    } else {
        place_desc(list.first(), sort_desc(list.drop_first()))
    }
}

/// The predicate that picks the entries whose total is `v`.
pub open spec fn has_size(v: nat) -> spec_fn(StatsView) -> bool {
    |e: StatsView| e.total_bytes == v
}

/// What the place of `e` in `sorted` is: within the list, with only larger
/// entries before it, and no larger entry at it.
pub proof fn lemma_place_index(sorted: Seq<StatsView>, e: StatsView)
    ensures
        larger_prefix_len(sorted, e) <= sorted.len(),
        forall|x: int|
            0 <= x < larger_prefix_len(sorted, e) ==> sorted[x].total_bytes > e.total_bytes,
        larger_prefix_len(sorted, e) < sorted.len() ==> sorted[larger_prefix_len(
            sorted,
            e,
        ) as int].total_bytes <= e.total_bytes,
    decreases sorted.len(),
{
    if sorted.len() == 0 || sorted.first().total_bytes <= e.total_bytes {
    } else {
        let rest = sorted.drop_first();
        lemma_place_index(rest, e);
        let j = larger_prefix_len(sorted, e);
        assert forall|x: int| 0 <= x < j implies sorted[x].total_bytes > e.total_bytes by {
            if x > 0 {
                assert(sorted[x] == rest[x - 1]);
            }
        }
        if j < sorted.len() {
            assert(sorted[j as int] == rest[j - 1]);
        }
    }
}

/// Placing an entry into an ordered list leaves it ordered.
pub proof fn lemma_place_desc_sorted(e: StatsView, sorted: Seq<StatsView>)
    requires
        sorted_desc(sorted),
    ensures
        sorted_desc(place_desc(e, sorted)),
{
    lemma_place_index(sorted, e);
    let j = larger_prefix_len(sorted, e) as int;
    let out = place_desc(e, sorted);
    assert forall|a: int, b: int| 0 <= a <= b < out.len() implies out[a].total_bytes
        >= out[b].total_bytes by {
        if j < sorted.len() {
            assert(sorted[j].total_bytes <= e.total_bytes);
        }
        if a < j && b > j {
            assert(out[a] == sorted[a]);
            assert(out[b] == sorted[b - 1]);
        } else if a < j && b < j {
            assert(out[a] == sorted[a]);
            assert(out[b] == sorted[b]);
        } else if a > j {
            assert(out[a] == sorted[a - 1]);
            assert(out[b] == sorted[b - 1]);
        } else if a == j && b > j {
            assert(out[b] == sorted[b - 1]);
            assert(sorted[j].total_bytes >= sorted[b - 1].total_bytes);
        }
    }
}

/// The entry list is ordered: for every pair of places, the earlier entry is
/// at least as large as the later one.
pub proof fn lemma_sort_desc_sorted(list: Seq<StatsView>)
    ensures
        sorted_desc(sort_desc(list)),
    decreases list.len(),
{
    if list.len() > 0 {
        lemma_sort_desc_sorted(list.drop_first());
        lemma_place_desc_sorted(list.first(), sort_desc(list.drop_first()));
    }
}

/// In an ordered list each entry is at least as large as the next one.
pub proof fn lemma_adjacent_pairs(s: Seq<StatsView>, i: int)
    requires
        sorted_desc(s),
        0 <= i,
        i + 1 < s.len(),
    ensures
        s[i].total_bytes >= s[i + 1].total_bytes,
{
}

/// Ordering neither drops nor adds nor changes an entry.
pub proof fn lemma_sort_desc_permutes(list: Seq<StatsView>)
    ensures
        sort_desc(list).len() == list.len(),
        sort_desc(list).to_multiset() == list.to_multiset(),
    decreases list.len(),
{
    if list.len() > 0 {
        let rest = list.drop_first();
        lemma_sort_desc_permutes(rest);
        let sorted = sort_desc(rest);
        lemma_place_index(sorted, list.first());
        vstd::seq_lib::to_multiset_insert(
            sorted,
            larger_prefix_len(sorted, list.first()) as int,
            list.first(),
        );
        assert(list =~= rest.insert(0, list.first()));
        vstd::seq_lib::to_multiset_insert(rest, 0, list.first());
    }
}

proof fn lemma_filter_nothing(s: Seq<StatsView>, pred: spec_fn(StatsView) -> bool)
    requires
        forall|i: int| 0 <= i < s.len() ==> !pred(s[i]),
    ensures
        s.filter(pred) == Seq::<StatsView>::empty(),
    decreases s.len(),
{
    reveal(Seq::filter);
    if s.len() > 0 {
        let front = s.drop_last();
        assert forall|i: int| 0 <= i < front.len() implies !pred(front[i]) by {
            assert(front[i] == s[i]);
        }
        lemma_filter_nothing(front, pred);
    }
}

proof fn lemma_filter_one(e: StatsView, pred: spec_fn(StatsView) -> bool)
    ensures
        seq![e].filter(pred) == if pred(e) {
            seq![e]
        } else {
            Seq::<StatsView>::empty()
        },
{
    reveal(Seq::filter);
    let one = seq![e];
    assert(one.drop_last() =~= Seq::<StatsView>::empty());
    assert(one.last() == e);
    assert(one.drop_last().filter(pred) =~= Seq::<StatsView>::empty());
    if pred(e) {
        assert(Seq::<StatsView>::empty().push(e) =~= one);
    }
}

/// Placing an entry changes only the entries of its own total, by putting it
/// in front of them.
pub proof fn lemma_place_desc_stable(e: StatsView, sorted: Seq<StatsView>, v: nat)
    ensures
        place_desc(e, sorted).filter(has_size(v)) == if e.total_bytes == v {
            seq![e] + sorted.filter(has_size(v))
        } else {
            sorted.filter(has_size(v))
        },
{
    let pred = has_size(v);
    lemma_place_index(sorted, e);
    let j = larger_prefix_len(sorted, e) as int;
    let head = sorted.subrange(0, j);
    let tail = sorted.subrange(j, sorted.len() as int);
    assert(sorted =~= head + tail);
    assert(place_desc(e, sorted) =~= (head + seq![e]) + tail);
    Seq::filter_distributes_over_add(head, tail, pred);
    Seq::filter_distributes_over_add(head + seq![e], tail, pred);
    Seq::filter_distributes_over_add(head, seq![e], pred);
    lemma_filter_one(e, pred);
    if e.total_bytes == v {
        assert forall|i: int| 0 <= i < head.len() implies !pred(head[i]) by {
            assert(head[i] == sorted[i]);
        }
        lemma_filter_nothing(head, pred);
        assert((Seq::<StatsView>::empty() + seq![e]) + tail.filter(pred) =~= seq![e] + (
        Seq::<StatsView>::empty() + tail.filter(pred)));
    } else {
        assert((head.filter(pred) + Seq::<StatsView>::empty()) + tail.filter(pred)
            =~= head.filter(pred) + tail.filter(pred));
    }
}

/// Ordering is stable: the entries of any one total come out in the order in
/// which they went in.
pub proof fn lemma_sort_desc_stable(list: Seq<StatsView>, v: nat)
    ensures
        sort_desc(list).filter(has_size(v)) == list.filter(has_size(v)),
    decreases list.len(),
{
    if list.len() > 0 {
        let pred = has_size(v);
        let rest = list.drop_first();
        lemma_sort_desc_stable(rest, v);
        lemma_place_desc_stable(list.first(), sort_desc(rest), v);
        assert(list =~= seq![list.first()] + rest);
        Seq::filter_distributes_over_add(seq![list.first()], rest, pred);
        lemma_filter_one(list.first(), pred);
        if list.first().total_bytes != v {
            assert(Seq::<StatsView>::empty() + rest.filter(pred) =~= rest.filter(pred));
        }
    }
}

proof fn lemma_filter_split_first(s: Seq<StatsView>, pred: spec_fn(StatsView) -> bool)
    requires
        s.len() > 0,
    ensures
        s.filter(pred) == if pred(s.first()) {
            seq![s.first()] + s.drop_first().filter(pred)
        } else {
            s.drop_first().filter(pred)
        },
{
    assert(s =~= seq![s.first()] + s.drop_first());
    Seq::filter_distributes_over_add(seq![s.first()], s.drop_first(), pred);
    lemma_filter_one(s.first(), pred);
    if !pred(s.first()) {
        assert(Seq::<StatsView>::empty() + s.drop_first().filter(pred) =~= s.drop_first().filter(
            pred,
        ));
    }
}

proof fn lemma_class_has_member(s: Seq<StatsView>, v: nat) -> (j: int)
    requires
        s.filter(has_size(v)).len() > 0,
    ensures
        0 <= j < s.len(),
        s[j].total_bytes == v,
{
    if forall|i: int| 0 <= i < s.len() ==> !has_size(v)(s[i]) {
        lemma_filter_nothing(s, has_size(v));
    }
    choose|i: int| 0 <= i < s.len() && has_size(v)(s[i])
}

/// Two ordered lists that hold, for every total, the same entries of that
/// total in the same order are one list.
pub proof fn lemma_sorted_desc_unique(a: Seq<StatsView>, b: Seq<StatsView>)
    requires
        sorted_desc(a),
        sorted_desc(b),
        forall|v: nat| #[trigger] a.filter(has_size(v)) == b.filter(has_size(v)),
    ensures
        a == b,
    decreases a.len() + b.len(),
{
    if a.len() == 0 || b.len() == 0 {
        let (empty, other) = if a.len() == 0 {
            (a, b)
        } else {
            (b, a)
        };
        if other.len() > 0 {
            let v = other.first().total_bytes;
            lemma_filter_split_first(other, has_size(v));
            assert(a.filter(has_size(v)) == b.filter(has_size(v)));
            lemma_filter_nothing(empty, has_size(v));
        }
        assert(a =~= b);
    } else {
        let va = a.first().total_bytes;
        let vb = b.first().total_bytes;
        lemma_filter_split_first(a, has_size(va));
        lemma_filter_split_first(b, has_size(vb));
        assert(a.filter(has_size(va)) == b.filter(has_size(va)));
        assert(a.filter(has_size(vb)) == b.filter(has_size(vb)));
        let in_b = lemma_class_has_member(b, va);
        let in_a = lemma_class_has_member(a, vb);
        assert(b[0].total_bytes >= b[in_b].total_bytes);
        assert(a[0].total_bytes >= a[in_a].total_bytes);
        assert(va == vb);
        assert(a.filter(has_size(va))[0] == a.first());
        assert(b.filter(has_size(va))[0] == b.first());
        assert(a.first() == b.first());
        let ra = a.drop_first();
        let rb = b.drop_first();
        assert forall|i: int, j: int| 0 <= i <= j < ra.len() implies ra[i].total_bytes
            >= ra[j].total_bytes by {
            assert(ra[i] == a[i + 1] && ra[j] == a[j + 1]);
        }
        assert forall|i: int, j: int| 0 <= i <= j < rb.len() implies rb[i].total_bytes
            >= rb[j].total_bytes by {
            assert(rb[i] == b[i + 1] && rb[j] == b[j + 1]);
        }
        assert forall|v: nat| #[trigger] ra.filter(has_size(v)) == rb.filter(has_size(v)) by {
            lemma_filter_split_first(a, has_size(v));
            lemma_filter_split_first(b, has_size(v));
            assert(a.filter(has_size(v)) == b.filter(has_size(v)));
            if has_size(v)(a.first()) {
                let head = seq![a.first()];
                assert(ra.filter(has_size(v)) =~= (head + ra.filter(has_size(v))).skip(1));
                assert(rb.filter(has_size(v)) =~= (head + rb.filter(has_size(v))).skip(1));
            }
        }
        lemma_sorted_desc_unique(ra, rb);
        assert(a =~= seq![a.first()] + ra);
        assert(b =~= seq![b.first()] + rb);
    }
}

/// The order is pinned down by what it promises: any list that is ordered
/// and holds, for every total, the entries of that total in the order in
/// which they were given is the ordered list.
pub proof fn lemma_sort_desc_characterized(list: Seq<StatsView>, out: Seq<StatsView>)
    requires
        sorted_desc(out),
        forall|v: nat| #[trigger] out.filter(has_size(v)) == list.filter(has_size(v)),
    ensures
        out == sort_desc(list),
{
    lemma_sort_desc_sorted(list);
    assert forall|v: nat| #[trigger] out.filter(has_size(v)) == sort_desc(list).filter(
        has_size(v),
    ) by {
        lemma_sort_desc_stable(list, v);
        assert(out.filter(has_size(v)) == list.filter(has_size(v)));
    }
    lemma_sorted_desc_unique(out, sort_desc(list));
}

/// An ordered list is left as it is.
pub proof fn lemma_sort_desc_fixes_sorted(list: Seq<StatsView>)
    requires
        sorted_desc(list),
    ensures
        sort_desc(list) == list,
    decreases list.len(),
{
    if list.len() > 0 {
        let rest = list.drop_first();
        assert forall|i: int, j: int| 0 <= i <= j < rest.len() implies rest[i].total_bytes
            >= rest[j].total_bytes by {
            assert(rest[i] == list[i + 1]);
            assert(rest[j] == list[j + 1]);
        }
        lemma_sort_desc_fixes_sorted(rest);
        if rest.len() > 0 {
            assert(rest.first() == list[1]);
        }
        assert(larger_prefix_len(rest, list.first()) == 0);
        assert(rest.insert(0, list.first()) =~= list);
    }
}

/// Ordering twice is ordering once.
pub proof fn lemma_sort_desc_idempotent(list: Seq<StatsView>)
    ensures
        sort_desc(sort_desc(list)) == sort_desc(list),
{
    lemma_sort_desc_sorted(list);
    lemma_sort_desc_fixes_sorted(sort_desc(list));
}

/// Every entry of `front` is at least as large as every entry of `back`.
spec fn dominates(front: Seq<StatsView>, back: Seq<StatsView>) -> bool {
    forall|i: int, j: int|
        0 <= i < front.len() && 0 <= j < back.len() ==> front[i].total_bytes
            >= back[j].total_bytes
}

proof fn lemma_move_last_to_front(
    s: Seq<StatsView>,
    t: Seq<StatsView>,
    pred: spec_fn(StatsView) -> bool,
)
    requires
        s.len() > 0,
    ensures
        pred(s.last()) ==> s.filter(pred) == s.drop_last().filter(pred).push(s.last()) && (seq![
            s.last(),
        ] + t).filter(pred) == seq![s.last()] + t.filter(pred),
        !pred(s.last()) ==> s.filter(pred) == s.drop_last().filter(pred) && (seq![s.last()]
            + t).filter(pred) == t.filter(pred),
{
    reveal(Seq::filter);
    Seq::filter_distributes_over_add(seq![s.last()], t, pred);
    lemma_filter_one(s.last(), pred);
    if !pred(s.last()) {
        assert(Seq::<StatsView>::empty() + t.filter(pred) =~= t.filter(pred));
    }
}

/// Merges two ordered lists into one: the result is ordered, and holds for
/// every total the entries of that total of the first list, and behind them
/// those of the second.
fn merge_by_size(a: Vec<DirStats>, b: Vec<DirStats>) -> (out: Vec<DirStats>)
    requires
        sorted_desc(stats_views(a@)),
        sorted_desc(stats_views(b@)),
    ensures
        sorted_desc(stats_views(out@)),
        out@.len() == a@.len() + b@.len(),
        forall|v: nat|
            #![trigger has_size(v)]
            stats_views(out@).filter(has_size(v)) == stats_views(a@).filter(has_size(v))
                + stats_views(b@).filter(has_size(v)),
{
    let ghost a0 = stats_views(a@);
    let ghost b0 = stats_views(b@);
    let mut a = a;
    let mut b = b;
    let mut tail: VecDeque<DirStats> = VecDeque::new();
    proof {
        assert(stats_views(tail@) =~= Seq::<StatsView>::empty());
        assert(stats_views(a@) =~= a0.take(a@.len() as int));
        assert(stats_views(b@) =~= b0.take(b@.len() as int));
        assert forall|v: nat| #![trigger has_size(v)] a0.filter(has_size(v)) + b0.filter(
            has_size(v),
        ) + stats_views(tail@).filter(has_size(v)) == a0.filter(has_size(v)) + b0.filter(
            has_size(v),
        ) by {
            lemma_filter_nothing(stats_views(tail@), has_size(v));
            assert(a0.filter(has_size(v)) + b0.filter(has_size(v)) + Seq::<StatsView>::empty()
                =~= a0.filter(has_size(v)) + b0.filter(has_size(v)));
        }
    }
    while a.len() > 0 || b.len() > 0
        invariant
            sorted_desc(a0),
            sorted_desc(b0),
            a@.len() <= a0.len(),
            b@.len() <= b0.len(),
            stats_views(a@) == a0.take(a@.len() as int),
            stats_views(b@) == b0.take(b@.len() as int),
            sorted_desc(stats_views(tail@)),
            dominates(stats_views(a@), stats_views(tail@)),
            dominates(stats_views(b@), stats_views(tail@)),
            tail@.len() + a@.len() + b@.len() == a0.len() + b0.len(),
            forall|v: nat|
                #![trigger has_size(v)]
                stats_views(a@).filter(has_size(v)) + stats_views(b@).filter(has_size(v))
                    + stats_views(tail@).filter(has_size(v)) == a0.filter(has_size(v))
                    + b0.filter(has_size(v)),
        decreases a@.len() + b@.len(),
    {
        let ghost va = stats_views(a@);
        let ghost vb = stats_views(b@);
        let ghost vt = stats_views(tail@);
        let from_b = if b.len() == 0 {
            false
        } else if a.len() == 0 {
            true
        } else {
            b[b.len() - 1].total_bytes <= a[a.len() - 1].total_bytes
        };
        if from_b {
            let x = b.pop().unwrap();
            tail.push_front(x);
            proof {
                let nb = stats_views(b@);
                let nt = stats_views(tail@);
                assert(vb.last() == x@);
                assert(nb =~= vb.drop_last());
                assert(nt =~= seq![x@] + vt);
                assert(nb =~= b0.take(b@.len() as int));
                assert forall|i: int, j: int| 0 <= i <= j < nt.len() implies nt[i].total_bytes
                    >= nt[j].total_bytes by {
                    if i == 0 && j > 0 {
                        assert(nt[j] == vt[j - 1]);
                        assert(vb[vb.len() - 1].total_bytes >= vt[j - 1].total_bytes);
                    } else if i > 0 {
                        assert(nt[i] == vt[i - 1] && nt[j] == vt[j - 1]);
                    }
                }
                assert forall|i: int, j: int|
                    0 <= i < nb.len() && 0 <= j < nt.len() implies nb[i].total_bytes
                    >= nt[j].total_bytes by {
                    assert(nb[i] == vb[i]);
                    if j == 0 {
                        assert(b0[i].total_bytes >= b0[vb.len() - 1].total_bytes);
                        assert(vb[i] == b0[i] && vb[vb.len() - 1] == b0[vb.len() - 1]);
                    } else {
                        assert(nt[j] == vt[j - 1]);
                    }
                }
                assert forall|i: int, j: int|
                    0 <= i < va.len() && 0 <= j < nt.len() implies va[i].total_bytes
                    >= nt[j].total_bytes by {
                    if j == 0 {
                        assert(va[i] == a0[i] && va[va.len() - 1] == a0[va.len() - 1]);
                        assert(a0[i].total_bytes >= a0[va.len() - 1].total_bytes);
                    } else {
                        assert(nt[j] == vt[j - 1]);
                    }
                }
                assert forall|v: nat| #![trigger has_size(v)] va.filter(has_size(v)) + nb.filter(
                    has_size(v),
                ) + nt.filter(has_size(v)) == a0.filter(has_size(v)) + b0.filter(has_size(v)) by {
                    let p = has_size(v);
                    lemma_move_last_to_front(vb, vt, p);
                    assert(va.filter(p) + vb.filter(p) + vt.filter(p) == a0.filter(p) + b0.filter(
                        p,
                    ));
                    assert(va.filter(p) + nb.filter(p) + nt.filter(p) =~= va.filter(p) + vb.filter(
                        p,
                    ) + vt.filter(p));
                }
            }
        } else {
            let y = a.pop().unwrap();
            tail.push_front(y);
            proof {
                let na = stats_views(a@);
                let nt = stats_views(tail@);
                assert(va.last() == y@);
                assert(na =~= va.drop_last());
                assert(nt =~= seq![y@] + vt);
                assert(na =~= a0.take(a@.len() as int));
                assert forall|i: int| 0 <= i < vb.len() implies vb[i].total_bytes
                    > y@.total_bytes by {
                    assert(vb[i] == b0[i] && vb[vb.len() - 1] == b0[vb.len() - 1]);
                    assert(b0[i].total_bytes >= b0[vb.len() - 1].total_bytes);
                }
                assert forall|i: int, j: int| 0 <= i <= j < nt.len() implies nt[i].total_bytes
                    >= nt[j].total_bytes by {
                    if i == 0 && j > 0 {
                        assert(nt[j] == vt[j - 1]);
                        assert(va[va.len() - 1].total_bytes >= vt[j - 1].total_bytes);
                    } else if i > 0 {
                        assert(nt[i] == vt[i - 1] && nt[j] == vt[j - 1]);
                    }
                }
                assert forall|i: int, j: int|
                    0 <= i < na.len() && 0 <= j < nt.len() implies na[i].total_bytes
                    >= nt[j].total_bytes by {
                    assert(na[i] == va[i]);
                    if j == 0 {
                        assert(va[i] == a0[i] && va[va.len() - 1] == a0[va.len() - 1]);
                        assert(a0[i].total_bytes >= a0[va.len() - 1].total_bytes);
                    } else {
                        assert(nt[j] == vt[j - 1]);
                    }
                }
                assert forall|i: int, j: int|
                    0 <= i < vb.len() && 0 <= j < nt.len() implies vb[i].total_bytes
                    >= nt[j].total_bytes by {
                    if j > 0 {
                        assert(nt[j] == vt[j - 1]);
                    }
                }
                assert forall|v: nat| #![trigger has_size(v)] na.filter(has_size(v)) + vb.filter(
                    has_size(v),
                ) + nt.filter(has_size(v)) == a0.filter(has_size(v)) + b0.filter(has_size(v)) by {
                    let p = has_size(v);
                    lemma_move_last_to_front(va, vt, p);
                    assert(va.filter(p) + vb.filter(p) + vt.filter(p) == a0.filter(p) + b0.filter(
                        p,
                    ));
                    if p(y@) {
                        lemma_filter_nothing(vb, p);
                    }
                    assert(na.filter(p) + vb.filter(p) + nt.filter(p) =~= va.filter(p) + vb.filter(
                        p,
                    ) + vt.filter(p));
                }
            }
        }
    }
    let ghost merged = stats_views(tail@);
    proof {
        assert forall|v: nat| #![trigger has_size(v)] merged.filter(has_size(v)) == a0.filter(
            has_size(v),
        ) + b0.filter(has_size(v)) by {
            let p = has_size(v);
            lemma_filter_nothing(stats_views(a@), p);
            lemma_filter_nothing(stats_views(b@), p);
            assert(stats_views(a@).filter(p) + stats_views(b@).filter(p) + merged.filter(p)
                == a0.filter(p) + b0.filter(p));
            assert(Seq::<StatsView>::empty() + Seq::<StatsView>::empty() + merged.filter(p)
                =~= merged.filter(p));
        }
    }
    let mut out: Vec<DirStats> = Vec::new();
    proof {
        assert(stats_views(out@) + stats_views(tail@) =~= merged);
    }
    while tail.len() > 0
        invariant
            stats_views(out@) + stats_views(tail@) == merged,
        decreases tail@.len(),
    {
        let ghost before = out@;
        let ghost rest = tail@;
        let e = tail.pop_front().unwrap();
        out.push(e);
        proof {
            assert(stats_views(out@) =~= stats_views(before).push(e@));
            assert(stats_views(tail@) =~= stats_views(rest).drop_first());
            assert(stats_views(rest)[0] == e@);
            assert(stats_views(out@) + stats_views(tail@) =~= stats_views(before) + stats_views(
                rest,
            ));
        }
    }
    proof {
        assert(stats_views(out@) =~= merged);
    }
    out
}

/// Orders aggregates by total size, largest first; aggregates of equal total
/// keep their order. The list is halved, the halves are ordered, and the two
/// are merged.
pub fn sort_by_size(list: Vec<DirStats>) -> (sorted: Vec<DirStats>)
    ensures
        stats_views(sorted@) == sort_desc(stats_views(list@)),
        sorted_desc(stats_views(sorted@)),
        forall|v: nat| #[trigger]
            stats_views(sorted@).filter(has_size(v)) == stats_views(list@).filter(has_size(v)),
        sorted@.len() == list@.len(),
    decreases list@.len(),
{
    let ghost orig = stats_views(list@);
    if list.len() <= 1 {
        proof {
            lemma_sort_desc_fixes_sorted(orig);
        }
        return list;
    }
    let ghost whole = list@;
    let mut left = list;
    let mid = left.len() / 2;
    let right = left.split_off(mid);
    let ghost lv = stats_views(left@);
    let ghost rv = stats_views(right@);
    proof {
        assert(lv + rv =~= orig);
    }
    let left = sort_by_size(left);
    let right = sort_by_size(right);
    let ghost ls = stats_views(left@);
    let ghost rs = stats_views(right@);
    let sorted = merge_by_size(left, right);
    proof {
        let out = stats_views(sorted@);
        assert forall|v: nat| #[trigger] out.filter(has_size(v)) == orig.filter(has_size(v)) by {
            let p = has_size(v);
            assert(out.filter(p) == ls.filter(p) + rs.filter(p));
            assert(ls.filter(p) == lv.filter(p));
            assert(rs.filter(p) == rv.filter(p));
            Seq::filter_distributes_over_add(lv, rv, p);
        }
        lemma_sort_desc_characterized(orig, out);
    }
    sorted
}

} // verus!
