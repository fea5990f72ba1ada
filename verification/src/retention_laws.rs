//! What holds of retention for every policy, every set of archives and
//! every moment.

use crate::retention::{
    in_order, insert_by_moment, lemma_insert_at, marks_of, newest_first, unmarked_upto, without,
    RetentionConfig,
};
use crate::timestamp::Timestamp;
use vstd::prelude::*;

verus! {

/// With no tier configured, an archive is a candidate exactly when it is
/// not younger than the default period: retention then deletes what is
/// older than the default period, the oldest first, as far as the floor
/// allows.
pub proof fn law_without_tiers(cfg: RetentionConfig, now: Timestamp, sorted: Seq<Timestamp>, k: int)
    requires
        cfg.daily_retention.is_none(),
        cfg.monthly_retention.is_none(),
        cfg.yearly_retention.is_none(),
    ensures
        cfg.candidate_at(now, sorted, k) == !cfg.within_default(
            crate::retention::age_nanos(now, sorted[k]),
        ),
{
}

/// No more archives are deleted than may go without dropping under the
/// floor, and none where the floor is not exceeded.
pub proof fn law_deletions_bounded(cfg: RetentionConfig, now: Timestamp, ats: Seq<Timestamp>)
    ensures
        cfg.delete_indices(now, ats).len() <= cfg.max_deletions(ats.len() as int),
        ats.len() <= cfg.min_backups ==> cfg.delete_indices(now, ats).len() == 0,
{
    lemma_order_holds(ats, ats.len() as int);
}

/// The archive kept last before a place depends on the archives before
/// that place alone.
pub proof fn lemma_anchor_prefix(
    cfg: RetentionConfig,
    now: Timestamp,
    a: Seq<Timestamp>,
    b: Seq<Timestamp>,
    k: int,
)
    requires
        0 <= k <= a.len(),
        k <= b.len(),
        forall|j: int| 0 <= j < k ==> a[j] == b[j],
    ensures
        cfg.anchor_before(now, a, k) == cfg.anchor_before(now, b, k),
    decreases k,
{
    if k > 0 {
        lemma_anchor_prefix(cfg, now, a, b, k - 1);
    }
}

/// The candidates before a place depend on the archives before that place
/// alone.
pub proof fn lemma_candidates_prefix(
    cfg: RetentionConfig,
    now: Timestamp,
    a: Seq<Timestamp>,
    b: Seq<Timestamp>,
    k: int,
)
    requires
        0 <= k <= a.len(),
        k <= b.len(),
        forall|j: int| 0 <= j < k ==> a[j] == b[j],
    ensures
        cfg.candidates(now, a, k) == cfg.candidates(now, b, k),
    decreases k,
{
    if k > 0 {
        lemma_candidates_prefix(cfg, now, a, b, k - 1);
        lemma_anchor_prefix(cfg, now, a, b, k - 1);
    }
}

/// The candidates among the first `n` archives are the places at which an
/// archive is a candidate, each once, in rising order.
pub proof fn lemma_candidates_hold(cfg: RetentionConfig, now: Timestamp, sorted: Seq<Timestamp>, n: int)
    requires
        0 <= n <= sorted.len(),
    ensures
        cfg.candidates(now, sorted, n).len() <= n,
        forall|j: int|
            0 <= j < cfg.candidates(now, sorted, n).len() ==> 0 <= (#[trigger] cfg.candidates(
                now,
                sorted,
                n,
            )[j]) < n && cfg.candidate_at(now, sorted, cfg.candidates(now, sorted, n)[j]),
        forall|i: int, j: int|
            0 <= i < j < cfg.candidates(now, sorted, n).len() ==> cfg.candidates(now, sorted, n)[i]
                < cfg.candidates(now, sorted, n)[j],
        forall|p: int|
            0 <= p < n && cfg.candidate_at(now, sorted, p) ==> cfg.candidates(
                now,
                sorted,
                n,
            ).contains(p),
    decreases n,
{
    if n > 0 {
        lemma_candidates_hold(cfg, now, sorted, n - 1);
        let prev = cfg.candidates(now, sorted, n - 1);
        let c = cfg.candidates(now, sorted, n);
        if cfg.candidate_at(now, sorted, n - 1) {
            assert(c == prev.push(n - 1));
            assert forall|p: int| 0 <= p < n && cfg.candidate_at(now, sorted, p) implies c.contains(
                p,
            ) by {
                if p < n - 1 {
                    assert(prev.contains(p));
                    let w = choose|w: int| 0 <= w < prev.len() && prev[w] == p;
                    assert(c[w] == p);
                } else {
                    assert(c[c.len() - 1] == p);
                }
            }
        } else {
            assert(c == prev);
        }
    }
}

/// The marks of the places at which an archive is a candidate.
pub open spec fn candidate_marks(cfg: RetentionConfig, now: Timestamp, sorted: Seq<Timestamp>) -> Seq<
    bool,
> {
    Seq::new(sorted.len(), |k: int| cfg.candidate_at(now, sorted, k))
}

/// When every candidate among the first `n` archives goes, what is left
/// holds no candidate, and the archive kept last is the same.
pub proof fn lemma_scan_of_kept(cfg: RetentionConfig, now: Timestamp, sorted: Seq<Timestamp>, n: int)
    requires
        0 <= n <= sorted.len(),
    ensures
        ({
            let left = unmarked_upto(sorted, candidate_marks(cfg, now, sorted), n);
            &&& cfg.anchor_before(now, left, left.len() as int) == cfg.anchor_before(now, sorted, n)
            &&& cfg.candidates(now, left, left.len() as int).len() == 0
        }),
    decreases n,
{
    if n > 0 {
        lemma_scan_of_kept(cfg, now, sorted, n - 1);
        let marks = candidate_marks(cfg, now, sorted);
        let prev = unmarked_upto(sorted, marks, n - 1);
        let left = unmarked_upto(sorted, marks, n);
        if marks[n - 1] {
            assert(cfg.candidate_at(now, sorted, n - 1));
            assert(left == prev);
        } else {
            assert(!cfg.candidate_at(now, sorted, n - 1));
            assert(left == prev.push(sorted[n - 1]));
            let at = prev.len() as int;
            lemma_anchor_prefix(cfg, now, left, prev, at);
            lemma_candidates_prefix(cfg, now, left, prev, at);
            assert(left[at] == sorted[n - 1]);
            assert(cfg.candidate_at(now, left, at) == cfg.candidate_at(now, sorted, n - 1));
        }
    }
}

/// What is left depends on the marks of the places looked at alone.
pub proof fn lemma_unmarked_agree<T>(items: Seq<T>, a: Seq<bool>, b: Seq<bool>, n: int)
    requires
        0 <= n,
        forall|k: int| 0 <= k < n ==> a[k] == b[k],
    ensures
        unmarked_upto(items, a, n) == unmarked_upto(items, b, n),
    decreases n,
{
    if n > 0 {
        lemma_unmarked_agree(items, a, b, n - 1);
    }
}

/// The number of marked places among the first `n`.
pub open spec fn marked_below(marks: Seq<bool>, n: int) -> int
    decreases n,
{
    if n <= 0 {
        0
    } else {
        marked_below(marks, n - 1) + if marks[n - 1] {
            1int
        } else {
            0int
        }
    }
}

/// As many are left as places are not marked.
pub proof fn lemma_unmarked_len<T>(items: Seq<T>, marks: Seq<bool>, n: int)
    requires
        0 <= n,
    ensures
        unmarked_upto(items, marks, n).len() == n - marked_below(marks, n),
        0 <= marked_below(marks, n) <= n,
    decreases n,
{
    if n > 0 {
        lemma_unmarked_len(items, marks, n - 1);
    }
}

/// Marking one more place that lies beyond the places counted changes
/// nothing; one that lies among them and was not marked adds one.
proof fn lemma_marked_one_more(marks: Seq<bool>, more: Seq<bool>, q: int, n: int)
    requires
        0 <= n <= marks.len(),
        marks.len() == more.len(),
        0 <= q < marks.len(),
        !marks[q],
        more[q],
        forall|k: int| 0 <= k < marks.len() && k != q ==> marks[k] == more[k],
    ensures
        marked_below(more, n) == marked_below(marks, n) + if q < n {
            1int
        } else {
            0int
        },
    decreases n,
{
    if n > 0 {
        lemma_marked_one_more(marks, more, q, n - 1);
    }
}

/// Places named once each, all among the first `n`, mark as many places
/// as they are.
pub proof fn lemma_marked_count(places: Seq<int>, n: int)
    requires
        0 <= n,
        places.no_duplicates(),
        forall|j: int| 0 <= j < places.len() ==> 0 <= #[trigger] places[j] < n,
    ensures
        marked_below(marks_of(places, n), n) == places.len(),
    decreases places.len(),
{
    if places.len() == 0 {
        lemma_none_marked(marks_of(places, n), n);
    } else {
        let front = places.drop_last();
        let q = places.last();
        lemma_marked_count(front, n);
        let marks = marks_of(front, n);
        let more = marks_of(places, n);
        assert(!marks[q]) by {
            if front.contains(q) {
                let w = choose|w: int| 0 <= w < front.len() && front[w] == q;
                assert(places[w] == places[places.len() - 1]);
            }
        }
        assert(more[q]) by {
            assert(places[places.len() - 1] == q);
        }
        assert forall|k: int| 0 <= k < n && k != q implies marks[k] == more[k] by {
            if front.contains(k) {
                let w = choose|w: int| 0 <= w < front.len() && front[w] == k;
                assert(places[w] == k);
            }
            if places.contains(k) {
                let w = choose|w: int| 0 <= w < places.len() && places[w] == k;
                assert(front[w] == k);
            }
        }
        lemma_marked_one_more(marks, more, q, n);
    }
}

/// Where no place is marked, none is counted.
proof fn lemma_none_marked(marks: Seq<bool>, n: int)
    requires
        0 <= n <= marks.len(),
        forall|k: int| 0 <= k < n ==> !marks[k],
    ensures
        marked_below(marks, n) == 0,
    decreases n,
{
    if n > 0 {
        lemma_none_marked(marks, n - 1);
    }
}

/// The places chosen for deletion are named once each, lie within the
/// sequence, and are candidates; and where every candidate is chosen, the
/// places chosen are the candidates.
pub proof fn lemma_delete_places_hold(cfg: RetentionConfig, now: Timestamp, sorted: Seq<Timestamp>)
    ensures
        cfg.delete_places(now, sorted).no_duplicates(),
        forall|j: int|
            0 <= j < cfg.delete_places(now, sorted).len() ==> 0 <= (#[trigger] cfg.delete_places(
                now,
                sorted,
            )[j]) < sorted.len() && cfg.candidate_at(now, sorted, cfg.delete_places(now, sorted)[j]),
        cfg.delete_places(now, sorted).len() == cfg.candidates(
            now,
            sorted,
            sorted.len() as int,
        ).len() ==> forall|p: int|
            0 <= p < sorted.len() ==> (cfg.delete_places(now, sorted).contains(p)
                == cfg.candidate_at(now, sorted, p)),
{
    let n = sorted.len() as int;
    let all = cfg.candidates(now, sorted, n);
    let chosen = cfg.delete_places(now, sorted);
    lemma_candidates_hold(cfg, now, sorted, n);
    assert forall|i: int, j: int| 0 <= i < chosen.len() && 0 <= j < chosen.len() && i != j implies chosen[i]
        != chosen[j] by {
        assert(chosen[i] == all[all.len() - 1 - i]);
        assert(chosen[j] == all[all.len() - 1 - j]);
    }
    assert forall|j: int| 0 <= j < chosen.len() implies 0 <= (#[trigger] chosen[j]) < sorted.len()
        && cfg.candidate_at(now, sorted, chosen[j]) by {
        assert(chosen[j] == all[all.len() - 1 - j]);
    }
    if chosen.len() == all.len() {
        assert forall|p: int| 0 <= p < sorted.len() implies (chosen.contains(p) == cfg.candidate_at(
            now,
            sorted,
            p,
        )) by {
            if cfg.candidate_at(now, sorted, p) {
                assert(all.contains(p));
                let w = choose|w: int| 0 <= w < all.len() && all[w] == p;
                assert(chosen[all.len() - 1 - w] == p);
            }
            if chosen.contains(p) {
                let w = choose|w: int| 0 <= w < chosen.len() && chosen[w] == p;
                assert(cfg.candidate_at(now, sorted, chosen[w]));
            }
        }
    }
}

/// Once the archives chosen have gone from a sequence that runs from the
/// newest to the oldest, nothing is chosen from what is left.
pub proof fn law_scan_idempotent(cfg: RetentionConfig, now: Timestamp, sorted: Seq<Timestamp>)
    ensures
        cfg.delete_places(now, without(sorted, cfg.delete_places(now, sorted))).len() == 0,
{
    let n = sorted.len() as int;
    let all = cfg.candidates(now, sorted, n);
    let chosen = cfg.delete_places(now, sorted);
    let marks = marks_of(chosen, n);
    let left = without(sorted, chosen);
    lemma_delete_places_hold(cfg, now, sorted);
    lemma_unmarked_len(sorted, marks, n);
    lemma_marked_count(chosen, n);
    assert(left.len() == n - chosen.len());
    if chosen.len() == all.len() {
        let by_candidate = candidate_marks(cfg, now, sorted);
        assert forall|k: int| 0 <= k < n implies marks[k] == by_candidate[k] by {
            assert(chosen.contains(k) == cfg.candidate_at(now, sorted, k));
        }
        lemma_unmarked_agree(sorted, marks, by_candidate, n);
        lemma_scan_of_kept(cfg, now, sorted, n);
    } else {
        assert(chosen.len() == cfg.max_deletions(n));
        assert(cfg.max_deletions(left.len() as int) == 0);
    }
}


/// Whether the archive at index `a` comes before the one at index `b`: it
/// is newer, or as old and earlier in the input.
pub open spec fn comes_before(ats: Seq<Timestamp>, a: int, b: int) -> bool {
    ats[a].epoch_nanos() > ats[b].epoch_nanos() || (ats[a].epoch_nanos() == ats[b].epoch_nanos()
        && a < b)
}

/// The place at which `insert_by_moment` puts the index `i`.
pub open spec fn insert_place(order: Seq<int>, ats: Seq<Timestamp>, i: int) -> int
    decreases order.len(),
{
    if order.len() == 0 {
        0
    } else if ats[order.last()].epoch_nanos() >= ats[i].epoch_nanos() {
        order.len() as int
    } else {
        insert_place(order.drop_last(), ats, i)
    }
}

/// `insert_by_moment` puts the index at `insert_place`: behind it every
/// moment is older, and the one just before it is not.
pub proof fn lemma_insert_place(order: Seq<int>, ats: Seq<Timestamp>, i: int)
    ensures
        0 <= insert_place(order, ats, i) <= order.len(),
        insert_by_moment(order, ats, i) == order.insert(insert_place(order, ats, i), i),
        forall|k: int|
            insert_place(order, ats, i) <= k < order.len() ==> ats[#[trigger] order[k]].epoch_nanos()
                < ats[i].epoch_nanos(),
        insert_place(order, ats, i) > 0 ==> ats[order[insert_place(order, ats, i)
            - 1]].epoch_nanos() >= ats[i].epoch_nanos(),
    decreases order.len(),
{
    if order.len() > 0 && ats[order.last()].epoch_nanos() < ats[i].epoch_nanos() {
        let front = order.drop_last();
        lemma_insert_place(front, ats, i);
        let p = insert_place(front, ats, i);
        assert forall|k: int| p <= k < order.len() implies ats[#[trigger] order[k]].epoch_nanos()
            < ats[i].epoch_nanos() by {
            if k < front.len() {
                assert(order[k] == front[k]);
            }
        }
        if p > 0 {
            assert(order[p - 1] == front[p - 1]);
        }
    }
    lemma_insert_at(order, ats, i, insert_place(order, ats, i));
}

/// The order of the first `n` archives names each of their indices once,
/// and each archive in it comes before those behind it: the newest first,
/// and of two that are equally old the one that stands first in the input.
pub proof fn lemma_order_holds(ats: Seq<Timestamp>, n: int)
    requires
        0 <= n <= ats.len(),
    ensures
        newest_first(ats, n).len() == n,
        newest_first(ats, n).no_duplicates(),
        forall|k: int| 0 <= k < n ==> 0 <= #[trigger] newest_first(ats, n)[k] < n,
        forall|i: int| 0 <= i < n ==> newest_first(ats, n).contains(i),
        forall|j: int, k: int|
            0 <= j < k < n ==> comes_before(
                ats,
                #[trigger] newest_first(ats, n)[j],
                #[trigger] newest_first(ats, n)[k],
            ),
    decreases n,
{
    if n > 0 {
        lemma_order_holds(ats, n - 1);
        let prev = newest_first(ats, n - 1);
        let order = newest_first(ats, n);
        lemma_insert_place(prev, ats, n - 1);
        let p = insert_place(prev, ats, n - 1);
        assert(order == prev.insert(p, n - 1));
        assert forall|k: int| 0 <= k < n implies 0 <= #[trigger] order[k] < n by {
            if k < p {
                assert(order[k] == prev[k]);
            } else if k > p {
                assert(order[k] == prev[k - 1]);
            }
        }
        assert forall|j: int, k: int| 0 <= j < k < n implies comes_before(
            ats,
            #[trigger] order[j],
            #[trigger] order[k],
        ) by {
            let a = if j < p {
                prev[j]
            } else if j == p {
                n - 1
            } else {
                prev[j - 1]
            };
            let b = if k < p {
                prev[k]
            } else if k == p {
                n - 1
            } else {
                prev[k - 1]
            };
            assert(order[j] == a);
            assert(order[k] == b);
            if k == p {
                // the one before the place is not older, and those before it come before it
                assert(0 <= prev[p - 1] < n - 1);
                if j < p - 1 {
                    assert(comes_before(ats, prev[j], prev[p - 1]));
                }
                assert(0 <= prev[j] < n - 1);
            } else if j == p {
                assert(ats[prev[k - 1]].epoch_nanos() < ats[n - 1].epoch_nanos());
            } else if j < p {
                if k < p {
                    assert(comes_before(ats, prev[j], prev[k]));
                } else {
                    assert(comes_before(ats, prev[j], prev[k - 1]));
                }
            } else {
                assert(comes_before(ats, prev[j - 1], prev[k - 1]));
            }
        }
        assert forall|j: int, k: int| 0 <= j < order.len() && 0 <= k < order.len() && j != k implies order[j]
            != order[k] by {
            if j < k {
                assert(comes_before(ats, order[j], order[k]));
            } else {
                assert(comes_before(ats, order[k], order[j]));
            }
        }
        assert forall|i: int| 0 <= i < n implies order.contains(i) by {
            if i == n - 1 {
                assert(order[p] == i);
            } else {
                assert(prev.contains(i));
                let w = choose|w: int| 0 <= w < prev.len() && prev[w] == i;
                if w < p {
                    assert(order[w] == i);
                } else {
                    assert(order[w + 1] == i);
                }
            }
        }
    }
}

/// Inserting an index goes by the moments of that index and of those in
/// the order alone.
proof fn lemma_insert_agree(order: Seq<int>, a: Seq<Timestamp>, b: Seq<Timestamp>, i: int)
    requires
        a[i] == b[i],
        forall|k: int| 0 <= k < order.len() ==> a[#[trigger] order[k]] == b[order[k]],
    ensures
        insert_by_moment(order, a, i) == insert_by_moment(order, b, i),
    decreases order.len(),
{
    if order.len() > 0 {
        assert(a[order[order.len() - 1]] == b[order[order.len() - 1]]);
        let front = order.drop_last();
        assert forall|k: int| 0 <= k < front.len() implies a[#[trigger] front[k]] == b[front[k]] by {
            assert(front[k] == order[k]);
        }
        lemma_insert_agree(front, a, b, i);
    }
}

/// The order of the first `n` archives depends on those archives alone.
pub proof fn lemma_order_prefix(a: Seq<Timestamp>, b: Seq<Timestamp>, n: int)
    requires
        0 <= n <= a.len(),
        n <= b.len(),
        forall|k: int| 0 <= k < n ==> a[k] == b[k],
    ensures
        newest_first(a, n) == newest_first(b, n),
    decreases n,
{
    if n > 0 {
        lemma_order_prefix(a, b, n - 1);
        lemma_order_holds(a, n - 1);
        let prev = newest_first(a, n - 1);
        assert forall|k: int| 0 <= k < prev.len() implies a[#[trigger] prev[k]] == b[prev[k]] by {
            assert(0 <= prev[k] < n - 1);
        }
        lemma_insert_agree(prev, a, b, n - 1);
    }
}

/// What is left of the first `n` items is what is left of the first `p`,
/// followed by what is left of the rest.
pub proof fn lemma_unmarked_split<T>(items: Seq<T>, marks: Seq<bool>, p: int, n: int)
    requires
        0 <= p <= n <= items.len(),
        n <= marks.len(),
    ensures
        unmarked_upto(items, marks, n) == unmarked_upto(items, marks, p) + unmarked_upto(
            items.skip(p),
            marks.skip(p),
            n - p,
        ),
    decreases n - p,
{
    if n == p {
        assert(unmarked_upto(items, marks, p) + Seq::<T>::empty() =~= unmarked_upto(items, marks, p));
    } else {
        lemma_unmarked_split(items, marks, p, n - 1);
        assert(items.skip(p)[n - p - 1] == items[n - 1]);
        assert(marks.skip(p)[n - p - 1] == marks[n - 1]);
        let head = unmarked_upto(items, marks, p);
        let tail = unmarked_upto(items.skip(p), marks.skip(p), n - p - 1);
        if !marks[n - 1] {
            assert((head + tail).push(items[n - 1]) =~= head + tail.push(items[n - 1]));
        }
    }
}

/// What is left depends on the items and marks of the places looked at
/// alone.
pub proof fn lemma_unmarked_same<T>(a: Seq<T>, ma: Seq<bool>, b: Seq<T>, mb: Seq<bool>, n: int)
    requires
        0 <= n,
        forall|k: int| 0 <= k < n ==> #[trigger] a[k] == b[k] && ma[k] == mb[k],
    ensures
        unmarked_upto(a, ma, n) == unmarked_upto(b, mb, n),
    decreases n,
{
    if n > 0 {
        lemma_unmarked_same(a, ma, b, mb, n - 1);
        assert(a[n - 1] == b[n - 1] && ma[n - 1] == mb[n - 1]);
    }
}

/// What is left once an item is put in at the place `p`: what is left of
/// the items before `p`, the new item unless it is marked, and what is
/// left of the items from `p` on.
pub proof fn lemma_unmarked_insert<T>(items: Seq<T>, marks: Seq<bool>, p: int, x: T, marked: bool)
    requires
        0 <= p <= items.len(),
        marks.len() == items.len(),
    ensures
        unmarked_upto(items.insert(p, x), marks.insert(p, marked), items.len() as int + 1)
            == unmarked_upto(items, marks, p) + (if marked {
            Seq::<T>::empty()
        } else {
            seq![x]
        }) + unmarked_upto(items.skip(p), marks.skip(p), items.len() - p),
{
    let n = items.len() as int;
    let more = items.insert(p, x);
    let more_marks = marks.insert(p, marked);
    lemma_unmarked_split(more, more_marks, p + 1, n + 1);
    assert(more.skip(p + 1) =~= items.skip(p));
    assert(more_marks.skip(p + 1) =~= marks.skip(p));
    lemma_unmarked_same(more, more_marks, items, marks, p);
    assert(more[p] == x);
    assert(more_marks[p] == marked);
    let head = unmarked_upto(items, marks, p);
    if marked {
        assert(head + Seq::<T>::empty() =~= head);
    } else {
        assert(head.push(x) =~= head + seq![x]);
    }
}

/// What holds of every item looked at holds of every item that is left.
pub proof fn lemma_unmarked_all<T>(items: Seq<T>, marks: Seq<bool>, n: int, holds: spec_fn(T) -> bool)
    requires
        0 <= n <= items.len(),
        forall|k: int| 0 <= k < n ==> holds(#[trigger] items[k]),
    ensures
        forall|j: int|
            0 <= j < unmarked_upto(items, marks, n).len() ==> holds(
                #[trigger] unmarked_upto(items, marks, n)[j],
            ),
    decreases n,
{
    if n > 0 {
        lemma_unmarked_all(items, marks, n - 1, holds);
        let prev = unmarked_upto(items, marks, n - 1);
        let left = unmarked_upto(items, marks, n);
        assert(holds(items[n - 1]));
        assert forall|j: int| 0 <= j < left.len() implies holds(#[trigger] left[j]) by {
            if j < prev.len() {
                assert(left[j] == prev[j]);
            }
        }
    }
}

/// The marks of the places of an order, from the marks of the indices.
pub open spec fn marks_in_order(marks: Seq<bool>, order: Seq<int>) -> Seq<bool> {
    Seq::new(order.len(), |k: int| marks[order[k]])
}

/// Sorting what is left gives what is left of the sorted: where archives
/// go from the input, the order of those that stay is the order of all
/// with the places of those that went taken out.
pub proof fn lemma_sort_of_left(ats: Seq<Timestamp>, marks: Seq<bool>, n: int)
    requires
        0 <= n <= ats.len(),
        marks.len() == ats.len(),
    ensures
        ({
            let left = unmarked_upto(ats, marks, n);
            let order = newest_first(ats, n);
            in_order(left, newest_first(left, left.len() as int)) == unmarked_upto(
                in_order(ats, order),
                marks_in_order(marks, order),
                n,
            )
        }),
    decreases n,
{
    let left = unmarked_upto(ats, marks, n);
    let order = newest_first(ats, n);
    if n == 0 {
        assert(in_order(left, newest_first(left, 0)) =~= Seq::<Timestamp>::empty());
    } else {
        lemma_sort_of_left(ats, marks, n - 1);
        lemma_order_holds(ats, n - 1);
        lemma_order_holds(ats, n);
        let x = ats[n - 1];
        let prev_left = unmarked_upto(ats, marks, n - 1);
        let prev_order = newest_first(ats, n - 1);
        let prev_sorted = in_order(ats, prev_order);
        let prev_marks = marks_in_order(marks, prev_order);
        let kept = unmarked_upto(prev_sorted, prev_marks, n - 1);
        lemma_insert_place(prev_order, ats, n - 1);
        let p = insert_place(prev_order, ats, n - 1);
        assert(order == prev_order.insert(p, n - 1));
        let sorted = in_order(ats, order);
        let in_marks = marks_in_order(marks, order);
        assert(sorted =~= prev_sorted.insert(p, x));
        assert(in_marks =~= prev_marks.insert(p, marks[n - 1]));
        lemma_unmarked_insert(prev_sorted, prev_marks, p, x, marks[n - 1]);
        lemma_unmarked_split(prev_sorted, prev_marks, p, n - 1);
        let head = unmarked_upto(prev_sorted, prev_marks, p);
        let tail = unmarked_upto(prev_sorted.skip(p), prev_marks.skip(p), n - 1 - p);
        assert(kept == head + tail);
        if marks[n - 1] {
            assert(left == prev_left);
            assert(head + Seq::<Timestamp>::empty() + tail =~= head + tail);
        } else {
            assert(left == prev_left.push(x));
            let m = prev_left.len() as int;
            lemma_order_prefix(left, prev_left, m);
            let o = newest_first(prev_left, m);
            lemma_order_holds(prev_left, m);
            assert(in_order(left, o) =~= in_order(prev_left, o)) by {
                assert forall|k: int| 0 <= k < o.len() implies left[o[k]] == prev_left[o[k]] by {
                    assert(0 <= o[k] < m);
                }
            }
            assert(in_order(prev_left, o) == kept);
            // every moment left in front of the place is not older than x,
            // every moment left behind it is older
            let not_older = |t: Timestamp| t.epoch_nanos() >= x.epoch_nanos();
            let older = |t: Timestamp| t.epoch_nanos() < x.epoch_nanos();
            assert forall|k: int| 0 <= k < p implies not_older(#[trigger] prev_sorted[k]) by {
                assert(prev_sorted[p - 1] == ats[prev_order[p - 1]]);
                if k < p - 1 {
                    assert(comes_before(ats, prev_order[k], prev_order[p - 1]));
                }
                assert(prev_sorted[k] == ats[prev_order[k]]);
            }
            lemma_unmarked_all(prev_sorted, prev_marks, p, not_older);
            assert forall|k: int| 0 <= k < n - 1 - p implies older(#[trigger] prev_sorted.skip(p)[k]) by {
                assert(prev_sorted.skip(p)[k] == ats[prev_order[p + k]]);
            }
            lemma_unmarked_all(prev_sorted.skip(p), prev_marks.skip(p), n - 1 - p, older);
            let q = head.len() as int;
            assert(left[m] == x);
            assert forall|k: int| q <= k < o.len() implies left[#[trigger] o[k]].epoch_nanos()
                < left[m].epoch_nanos() by {
                assert(left[o[k]] == in_order(left, o)[k]);
                assert(kept[k] == tail[k - q]);
                assert(older(tail[k - q]));
            }
            if q > 0 {
                assert(left[o[q - 1]] == in_order(left, o)[q - 1]);
                assert(kept[q - 1] == head[q - 1]);
                assert(not_older(head[q - 1]));
            }
            lemma_insert_at(o, left, m, q);
            assert(newest_first(left, m + 1) == o.insert(q, m));
            assert(in_order(left, o.insert(q, m)) =~= kept.insert(q, x));
            assert(kept.insert(q, x) =~= head + seq![x] + tail);
        }
    }
}

/// Idempotence: once the archives that retention chooses at a moment have
/// gone, retention chooses nothing from what is left at that moment.
pub proof fn law_retention_idempotent(cfg: RetentionConfig, now: Timestamp, ats: Seq<Timestamp>)
    ensures
        cfg.delete_indices(now, without(ats, cfg.delete_indices(now, ats))).len() == 0,
{
    let n = ats.len() as int;
    let order = newest_first(ats, n);
    let sorted = in_order(ats, order);
    let places = cfg.delete_places(now, sorted);
    let indices = cfg.delete_indices(now, ats);
    let marks = marks_of(indices, n);
    let left = without(ats, indices);
    lemma_order_holds(ats, n);
    lemma_delete_places_hold(cfg, now, sorted);
    lemma_sort_of_left(ats, marks, n);
    let in_marks = marks_in_order(marks, order);
    let place_marks = marks_of(places, n);
    assert forall|k: int| 0 <= k < n implies in_marks[k] == place_marks[k] by {
        if places.contains(k) {
            let w = choose|w: int| 0 <= w < places.len() && places[w] == k;
            assert(indices[w] == order[k]);
        }
        if indices.contains(order[k]) {
            let w = choose|w: int| 0 <= w < indices.len() && indices[w] == order[k];
            assert(indices[w] == order[places[w]]);
            assert(0 <= places[w] < n);
            assert(places[w] == k);
        }
    }
    lemma_unmarked_agree(sorted, in_marks, place_marks, n);
    let left_sorted = in_order(left, newest_first(left, left.len() as int));
    assert(left_sorted == without(sorted, places));
    law_scan_idempotent(cfg, now, sorted);
}


/// An archive that is younger than the default period is never chosen:
/// each index chosen lies within the input, and the archive there is not
/// younger than the default period.
pub proof fn law_young_archives_stay(cfg: RetentionConfig, now: Timestamp, ats: Seq<Timestamp>, k: int)
    requires
        0 <= k < cfg.delete_indices(now, ats).len(),
    ensures
        0 <= cfg.delete_indices(now, ats)[k] < ats.len(),
        !cfg.within_default(
            crate::retention::age_nanos(now, ats[cfg.delete_indices(now, ats)[k]]),
        ),
{
    let n = ats.len() as int;
    let order = newest_first(ats, n);
    let sorted = in_order(ats, order);
    let places = cfg.delete_places(now, sorted);
    lemma_order_holds(ats, n);
    lemma_delete_places_hold(cfg, now, sorted);
    assert(0 <= places[k] < n);
    assert(cfg.candidate_at(now, sorted, places[k]));
    assert(sorted[places[k]] == ats[order[places[k]]]);
}

/// No archive is chosen twice.
pub proof fn law_deletions_distinct(cfg: RetentionConfig, now: Timestamp, ats: Seq<Timestamp>)
    ensures
        cfg.delete_indices(now, ats).no_duplicates(),
{
    let n = ats.len() as int;
    let order = newest_first(ats, n);
    let sorted = in_order(ats, order);
    let places = cfg.delete_places(now, sorted);
    let indices = cfg.delete_indices(now, ats);
    lemma_order_holds(ats, n);
    lemma_delete_places_hold(cfg, now, sorted);
    assert forall|i: int, j: int| 0 <= i < indices.len() && 0 <= j < indices.len() && i != j implies indices[i]
        != indices[j] by {
        assert(0 <= places[i] < n && 0 <= places[j] < n);
        assert(places[i] != places[j]);
        assert(indices[i] == order[places[i]]);
        assert(indices[j] == order[places[j]]);
    }
}

} // verus!
