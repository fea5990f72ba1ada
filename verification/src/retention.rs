//! Retention: which archives to delete at a given moment.
//!
//! Archives are looked at from the newest to the oldest. One that is younger
//! than the default period stays. An older one stays if a tier (yearly,
//! monthly, daily) has room for it: the tier is configured, the archive is
//! younger than the tier's period, and it falls in an earlier bucket of that
//! tier than the archive kept last. All others are candidates, and the oldest
//! of them are deleted, as many as may go without dropping under the minimum
//! number of archives.

use crate::timestamp::Timestamp;
use std::cmp::Ordering;
use vstd::prelude::*;
use vstd::std_specs::cmp::{PartialEqSpec, PartialEqSpecImpl, PartialOrdSpecImpl};

verus! {

/// A length of time: whole seconds and nanoseconds.
#[derive(Clone, Copy, Debug, PartialEq, Eq, Hash, Structural)]
pub struct Span {
    pub secs: u64,
    pub nanos: u32,
}

impl Span {
    /// The length in nanoseconds.
    pub open spec fn total_nanos(self) -> int {
        self.secs as int * 1_000_000_000 + self.nanos as int
    }

    /// A span of whole seconds.
    pub fn from_secs(secs: u64) -> (span: Span)
        ensures
            span.secs == secs,
            span.nanos == 0,
            span.total_nanos() == secs as int * 1_000_000_000,
    {
        Span { secs, nanos: 0 }
    }

    /// The length in nanoseconds.
    pub fn as_nanos(&self) -> (nanos: i128)
        ensures
            nanos == self.total_nanos(),
    {
        let secs: i128 = self.secs as i128;
        secs * 1_000_000_000 + self.nanos as i128
    }
}

/// The number of archives kept whatever their age, where none is configured.
pub fn default_min_backups() -> (min: usize)
    ensures
        min == 3,
{
    3
}

/// The retention policy.
#[derive(Clone, Copy, Debug, PartialEq, Eq, Structural)]
pub struct RetentionConfig {
    /// Archives younger than this are never deleted.
    pub default_retention: Span,
    /// How long one archive per day is kept.
    pub daily_retention: Option<Span>,
    /// How long one archive per month is kept.
    pub monthly_retention: Option<Span>,
    /// How long one archive per year is kept.
    pub yearly_retention: Option<Span>,
    /// The number of archives that stay whatever their age.
    pub min_backups: usize,
}

impl Default for RetentionConfig {
    /// No default period, no tier, and a floor of three archives.
    fn default() -> (config: RetentionConfig)
        ensures
            config.default_retention == (Span { secs: 0, nanos: 0 }),
            config.daily_retention.is_none(),
            config.monthly_retention.is_none(),
            config.yearly_retention.is_none(),
            config.min_backups == 3,
    {
        RetentionConfig {
            default_retention: Span::from_secs(0),
            daily_retention: None,
            monthly_retention: None,
            yearly_retention: None,
            min_backups: default_min_backups(),
        }
    }
}

/// One of the three ways of sorting archives into buckets.
#[derive(Clone, Copy, Debug, PartialEq, Eq, Structural)]
pub enum Tier {
    /// One bucket per calendar year.
    Yearly,
    /// One bucket per calendar month of a year.
    Monthly,
    /// One bucket per calendar day.
    Daily,
}

/// An item and the moment it stands for. Two are equal where their items
/// are; one comes before another where its moment is earlier.
#[derive(Clone, Debug)]
pub struct ItemWithDateTime<R> {
    pub item: R,
    pub date_time: Timestamp,
}

impl<R: PartialEq> PartialEq for ItemWithDateTime<R> {
    /// Whether the items are equal, whatever the moments.
    fn eq(&self, other: &Self) -> (res: bool) {
        self.item == other.item
    }
}

impl<R: Eq> Eq for ItemWithDateTime<R> {

}

impl<R: PartialEq> PartialOrd for ItemWithDateTime<R> {
    /// How the moments lie to each other, whatever the items.
    fn partial_cmp(&self, other: &Self) -> (res: Option<Ordering>) {
        let a_secs: i64 = self.date_time.timestamp();
        let b_secs: i64 = other.date_time.timestamp();
        let a_nanos: u32 = self.date_time.subsec_nanos();
        let b_nanos: u32 = other.date_time.subsec_nanos();
        if a_secs < b_secs || (a_secs == b_secs && a_nanos < b_nanos) {
            Some(Ordering::Less)
        } else if a_secs == b_secs && a_nanos == b_nanos {
            Some(Ordering::Equal)
        } else {
            Some(Ordering::Greater)
        }
    }
}

impl<R: PartialEq> PartialOrdSpecImpl for ItemWithDateTime<R> {
    open spec fn obeys_partial_cmp_spec() -> bool {
        true
    }

    open spec fn partial_cmp_spec(&self, other: &Self) -> Option<Ordering> {
        if self.date_time.epoch_nanos() < other.date_time.epoch_nanos() {
            Some(Ordering::Less)
        } else if self.date_time.epoch_nanos() == other.date_time.epoch_nanos() {
            Some(Ordering::Equal)
        } else {
            Some(Ordering::Greater)
        }
    }
}

impl<R: PartialEq> PartialEqSpecImpl for ItemWithDateTime<R> {
    open spec fn obeys_eq_spec() -> bool {
        <R as PartialEqSpec>::obeys_eq_spec()
    }

    open spec fn eq_spec(&self, other: &Self) -> bool {
        self.item.eq_spec(&other.item)
    }
}

impl<R> ItemWithDateTime<R> {
    /// Pairs an item with its moment.
    pub fn new(item: R, date_time: Timestamp) -> (res: ItemWithDateTime<R>)
        ensures
            res.item == item,
            res.date_time == date_time,
    {
        ItemWithDateTime { item, date_time }
    }
}

/// The time from `at` to `now` in nanoseconds; negative where `at` is later.
pub open spec fn age_nanos(now: Timestamp, at: Timestamp) -> int {
    now.epoch_nanos() - at.epoch_nanos()
}

/// Whether `a` falls in an earlier bucket of `tier` than `b`.
pub open spec fn in_earlier_bucket(tier: Tier, a: Timestamp, b: Timestamp) -> bool {
    match tier {
        Tier::Yearly => a.spec_year() < b.spec_year(),
        Tier::Monthly => a.spec_year() < b.spec_year() || (a.spec_year() == b.spec_year()
            && a.spec_month() < b.spec_month()),
        Tier::Daily => a.spec_year() < b.spec_year() || (a.spec_year() == b.spec_year() && (
        a.spec_month() < b.spec_month() || (a.spec_month() == b.spec_month() && a.spec_day()
            < b.spec_day()))),
    }
}

/// Whether a tier with period `retention` keeps an archive of the given age
/// made at `at`, where `anchor` is the archive kept last.
pub open spec fn tier_keeps(
    tier: Tier,
    retention: Option<Span>,
    at: Timestamp,
    age: int,
    anchor: Option<Timestamp>,
) -> bool {
    &&& retention.is_some()
    &&& age < retention.unwrap().total_nanos()
    &&& (anchor.is_none() || in_earlier_bucket(tier, at, anchor.unwrap()))
}

impl RetentionConfig {
    /// Whether an archive of this age is younger than the default period.
    pub open spec fn within_default(self, age: int) -> bool {
        age < self.default_retention.total_nanos()
    }

    /// Whether one of the three tiers keeps the archive.
    pub open spec fn kept_by_tier(self, at: Timestamp, age: int, anchor: Option<Timestamp>) -> bool {
        ||| tier_keeps(Tier::Yearly, self.yearly_retention, at, age, anchor)
        ||| tier_keeps(Tier::Monthly, self.monthly_retention, at, age, anchor)
        ||| tier_keeps(Tier::Daily, self.daily_retention, at, age, anchor)
    }

    /// Whether the archive is a candidate for deletion.
    pub open spec fn is_candidate(self, at: Timestamp, age: int, anchor: Option<Timestamp>) -> bool {
        !self.within_default(age) && !self.kept_by_tier(at, age, anchor)
    }

    /// The archive kept last, once the archive made at `at` has been looked at.
    pub open spec fn next_anchor(self, at: Timestamp, age: int, anchor: Option<Timestamp>) -> Option<
        Timestamp,
    > {
        if !self.within_default(age) && self.kept_by_tier(at, age, anchor) {
            Some(at)
        } else {
            anchor
        }
    }

    /// The archive kept last before the one at place `k` of `sorted` is looked
    /// at, where `sorted` runs from the newest to the oldest.
    pub open spec fn anchor_before(self, now: Timestamp, sorted: Seq<Timestamp>, k: int) -> Option<
        Timestamp,
    >
        decreases k,
    {
        if k <= 0 {
            None
        } else {
            self.next_anchor(
                sorted[k - 1],
                age_nanos(now, sorted[k - 1]),
                self.anchor_before(now, sorted, k - 1),
            )
        }
    }

    /// Whether the archive at place `k` of `sorted` is a candidate.
    pub open spec fn candidate_at(self, now: Timestamp, sorted: Seq<Timestamp>, k: int) -> bool {
        self.is_candidate(sorted[k], age_nanos(now, sorted[k]), self.anchor_before(now, sorted, k))
    }

    /// The places of the candidates among the first `n` of `sorted`, in
    /// rising order.
    pub open spec fn candidates(self, now: Timestamp, sorted: Seq<Timestamp>, n: int) -> Seq<int>
        decreases n,
    {
        if n <= 0 {
            Seq::empty()
        } else if self.candidate_at(now, sorted, n - 1) {
            self.candidates(now, sorted, n - 1).push(n - 1)
        } else {
            self.candidates(now, sorted, n - 1)
        }
    }

    /// How many of `n` archives may be deleted.
    pub open spec fn max_deletions(self, n: int) -> int {
        if n > self.min_backups {
            n - self.min_backups
        } else {
            0
        }
    }

    /// The places in `sorted` of the archives to delete, the oldest first.
    pub open spec fn delete_places(self, now: Timestamp, sorted: Seq<Timestamp>) -> Seq<int> {
        let all = self.candidates(now, sorted, sorted.len() as int);
        let limit = self.max_deletions(sorted.len() as int);
        let count = if all.len() <= limit {
            all.len() as int
        } else {
            limit
        };
        Seq::new(count as nat, |k: int| all[all.len() - 1 - k])
    }

    /// The indices in `ats` of the archives to delete, the oldest first.
    pub open spec fn delete_indices(self, now: Timestamp, ats: Seq<Timestamp>) -> Seq<int> {
        let order = newest_first(ats, ats.len() as int);
        let sorted = in_order(ats, order);
        Seq::new(
            self.delete_places(now, sorted).len(),
            |k: int| order[self.delete_places(now, sorted)[k]],
        )
    }
}

/// The items among the first `n` of `items` whose place is not marked, in
/// order.
pub open spec fn unmarked_upto<T>(items: Seq<T>, marks: Seq<bool>, n: int) -> Seq<T>
    decreases n,
{
    if n <= 0 {
        Seq::empty()
    } else if marks[n - 1] {
        unmarked_upto(items, marks, n - 1)
    } else {
        unmarked_upto(items, marks, n - 1).push(items[n - 1])
    }
}

/// The marks of the places that `indices` names, among `n` places.
pub open spec fn marks_of(indices: Seq<int>, n: int) -> Seq<bool> {
    Seq::new(n as nat, |i: int| indices.contains(i))
}

/// What is left of `items` when those at `indices` go.
pub open spec fn without<T>(items: Seq<T>, indices: Seq<int>) -> Seq<T> {
    unmarked_upto(items, marks_of(indices, items.len() as int), items.len() as int)
}

/// The moments of a sequence of items.
pub open spec fn moments<R>(items: Seq<ItemWithDateTime<R>>) -> Seq<Timestamp> {
    Seq::new(items.len(), |i: int| items[i].date_time)
}

/// The moments of `ats` in the order that `order` gives.
pub open spec fn in_order(ats: Seq<Timestamp>, order: Seq<int>) -> Seq<Timestamp> {
    Seq::new(order.len(), |k: int| ats[order[k]])
}

/// `order` with the index `i` put behind every index whose moment is not
/// older than that of `i`.
pub open spec fn insert_by_moment(order: Seq<int>, ats: Seq<Timestamp>, i: int) -> Seq<int>
    decreases order.len(),
{
    if order.len() == 0 {
        seq![i]
    } else if ats[order.last()].epoch_nanos() >= ats[i].epoch_nanos() {
        order.push(i)
    } else {
        insert_by_moment(order.drop_last(), ats, i).push(order.last())
    }
}

/// The first `n` indices of `ats`, the newest moment first; of two equal
/// moments the one with the lower index first.
pub open spec fn newest_first(ats: Seq<Timestamp>, n: int) -> Seq<int>
    decreases n,
{
    if n <= 0 {
        Seq::empty()
    } else {
        insert_by_moment(newest_first(ats, n - 1), ats, n - 1)
    }
}

/// Inserting at the place behind which every moment is older, and before
/// which the last is not, is what `insert_by_moment` does.
pub proof fn lemma_insert_at(order: Seq<int>, ats: Seq<Timestamp>, i: int, p: int)
    requires
        0 <= p <= order.len(),
        forall|k: int| p <= k < order.len() ==> ats[#[trigger] order[k]].epoch_nanos() < ats[i].epoch_nanos(),
        p > 0 ==> ats[order[p - 1]].epoch_nanos() >= ats[i].epoch_nanos(),
    ensures
        insert_by_moment(order, ats, i) == order.insert(p, i),
    decreases order.len() - p,
{
    if order.len() == 0 {
        assert(order.insert(p, i) =~= seq![i]);
    } else if p == order.len() {
        assert(order.insert(p, i) =~= order.push(i));
    } else {
        assert(ats[order[order.len() - 1]].epoch_nanos() < ats[i].epoch_nanos());
        let front = order.drop_last();
        assert forall|k: int| p <= k < front.len() implies ats[#[trigger] front[k]].epoch_nanos()
            < ats[i].epoch_nanos() by {
            assert(front[k] == order[k]);
        }
        lemma_insert_at(front, ats, i, p);
        assert(front.insert(p, i).push(order.last()) =~= order.insert(p, i));
    }
}

/// The time from `at` to `now` in nanoseconds.
pub fn age_of(now: Timestamp, at: Timestamp) -> (age: i128)
    ensures
        age == age_nanos(now, at),
{
    let now_secs: i128 = now.timestamp() as i128;
    let at_secs: i128 = at.timestamp() as i128;
    let now_nanos: i128 = now.subsec_nanos() as i128;
    let at_nanos: i128 = at.subsec_nanos() as i128;
    (now_secs - at_secs) * 1_000_000_000 + now_nanos - at_nanos
}

/// Whether `a` falls in an earlier bucket of `tier` than `b`.
pub fn earlier_bucket(tier: Tier, a: Timestamp, b: Timestamp) -> (earlier: bool)
    ensures
        earlier == in_earlier_bucket(tier, a, b),
{
    let a_year: i32 = a.year();
    let b_year: i32 = b.year();
    match tier {
        Tier::Yearly => a_year < b_year,
        Tier::Monthly => {
            let a_month: u32 = a.month();
            let b_month: u32 = b.month();
            a_year < b_year || (a_year == b_year && a_month < b_month)
        },
        Tier::Daily => {
            let a_month: u32 = a.month();
            let b_month: u32 = b.month();
            let a_day: u32 = a.day();
            let b_day: u32 = b.day();
            a_year < b_year || (a_year == b_year && (a_month < b_month || (a_month == b_month
                && a_day < b_day)))
        },
    }
}

/// Asks one tier whether it keeps the archive made at `to_check`, and records
/// the archive as the one kept last if it does.
pub fn should_keep(
    to_check: Timestamp,
    age: i128,
    last_keep: &mut Option<Timestamp>,
    retention: Option<Span>,
    tier: Tier,
) -> (keep: bool)
    ensures
        keep == tier_keeps(tier, retention, to_check, age as int, *old(last_keep)),
        *final(last_keep) == if keep {
            Some(to_check)
        } else {
            *old(last_keep)
        },
{
    match retention {
        None => false,
        Some(period) => {
            if age < period.as_nanos() {
                let earlier: bool = match *last_keep {
                    None => true,
                    Some(kept) => earlier_bucket(tier, to_check, kept),
                };
                if earlier {
                    *last_keep = Some(to_check);
                }
                earlier
            } else {
                false
            }
        },
    }
}

/// The indices of `items`, the newest moment first; of two equal moments the
/// one that stands first in `items` first.
pub fn order_newest_first<R>(items: &Vec<ItemWithDateTime<R>>) -> (order: Vec<usize>)
    ensures
        order@.len() == items@.len(),
        forall|k: int| 0 <= k < order@.len() ==> (#[trigger] order@[k]) < items@.len(),
        order@.map_values(|i: usize| i as int) == newest_first(
            moments(items@),
            items@.len() as int,
        ),
{
    let ghost ats = moments(items@);
    let mut order: Vec<usize> = Vec::new();
    let mut i: usize = 0;
    while i < items.len()
        invariant
            i <= items.len(),
            ats == moments(items@),
            order@.len() == i,
            forall|k: int| 0 <= k < order@.len() ==> (#[trigger] order@[k]) < i,
            order@.map_values(|i: usize| i as int) == newest_first(ats, i as int),
        decreases items.len() - i,
    {
        let at: Timestamp = items[i].date_time;
        let at_secs: i64 = at.timestamp();
        let at_nanos: u32 = at.subsec_nanos();
        let ghost before = order@.map_values(|i: usize| i as int);
        let mut p: usize = order.len();
        while p > 0 && older(&items[order[p - 1]].date_time, at_secs, at_nanos)
            invariant
                p <= order@.len(),
                order@.len() == i,
                i < items.len(),
                ats == moments(items@),
                at_secs == ats[i as int].epoch_secs(),
                at_nanos == ats[i as int].subsec(),
                ats[i as int].wf(),
                before == order@.map_values(|i: usize| i as int),
                forall|k: int| 0 <= k < order@.len() ==> (#[trigger] order@[k]) < i,
                forall|k: int|
                    p <= k < before.len() ==> ats[#[trigger] before[k]].epoch_nanos()
                        < ats[i as int].epoch_nanos(),
            decreases p,
        {
            p -= 1;
        }
        proof {
            lemma_insert_at(before, ats, i as int, p as int);
        }
        order.insert(p, i);
        assert(order@.map_values(|i: usize| i as int) =~= before.insert(p as int, i as int));
        i += 1;
    }
    order
}

/// Whether `other` is older than the moment given by seconds and
/// nanoseconds.
fn older(other: &Timestamp, secs: i64, nanos: u32) -> (res: bool)
    requires
        nanos < 1_000_000_000,
    ensures
        res == (other.epoch_nanos() < secs as int * 1_000_000_000 + nanos as int),
{
    let other_secs: i64 = other.timestamp();
    let other_nanos: u32 = other.subsec_nanos();
    other_secs < secs || (other_secs == secs && other_nanos < nanos)
}


impl RetentionConfig {
    /// The archives of `items` to delete at the moment `now`, the oldest first.
    ///
    /// No more are returned than may go without dropping under `min_backups`,
    /// and none that is younger than the default period.
    pub fn get_delete<'a, R>(&self, items: &'a Vec<ItemWithDateTime<R>>, now: Timestamp) -> (res:
        Vec<&'a ItemWithDateTime<R>>)
        ensures
            res@.len() == self.delete_indices(now, moments(items@)).len(),
            forall|k: int|
                0 <= k < res@.len() ==> 0 <= (#[trigger] self.delete_indices(
                    now,
                    moments(items@),
                )[k]) < items@.len(),
            forall|k: int|
                0 <= k < res@.len() ==> *(#[trigger] res@[k]) == items@[self.delete_indices(
                    now,
                    moments(items@),
                )[k]],
            res@.len() <= self.max_deletions(items@.len() as int),
            items@.len() <= self.min_backups ==> res@.len() == 0,
            forall|k: int|
                0 <= k < res@.len() ==> !self.within_default(
                    age_nanos(now, (#[trigger] res@[k]).date_time),
                ),
    {
        let indices: Vec<usize> = self.get_delete_indices(items, now);
        let mut res: Vec<&'a ItemWithDateTime<R>> = Vec::new();
        let mut j: usize = 0;
        while j < indices.len()
            invariant
                j <= indices@.len(),
                res@.len() == j,
                indices@.len() == self.delete_indices(now, moments(items@)).len(),
                forall|k: int|
                    0 <= k < indices@.len() ==> (#[trigger] indices@[k]) < items@.len()
                        && indices@[k] == self.delete_indices(now, moments(items@))[k]
                        && !self.within_default(
                        age_nanos(now, items@[indices@[k] as int].date_time),
                    ),
                forall|k: int|
                    0 <= k < j ==> *(#[trigger] res@[k]) == items@[indices@[k] as int]
                        && indices@[k] < items@.len() && indices@[k] == self.delete_indices(
                        now,
                        moments(items@),
                    )[k] && !self.within_default(age_nanos(now, res@[k].date_time)),
            decreases indices.len() - j,
        {
            res.push(&items[indices[j]]);
            j += 1;
        }
        assert forall|k: int| 0 <= k < res@.len() implies 0 <= (#[trigger] self.delete_indices(
            now,
            moments(items@),
        )[k]) < items@.len() by {
            assert(indices@[k] < items@.len());
        }
        res
    }

    /// The indices in `items` of the archives to delete at the moment `now`,
    /// the oldest first.
    pub fn get_delete_indices<R>(&self, items: &Vec<ItemWithDateTime<R>>, now: Timestamp) -> (res:
        Vec<usize>)
        ensures
            res@.len() == self.delete_indices(now, moments(items@)).len(),
            forall|k: int|
                0 <= k < res@.len() ==> (#[trigger] res@[k]) < items@.len() && res@[k]
                    == self.delete_indices(now, moments(items@))[k],
            res@.len() <= self.max_deletions(items@.len() as int),
            items@.len() <= self.min_backups ==> res@.len() == 0,
            forall|k: int|
                0 <= k < res@.len() ==> !self.within_default(
                    age_nanos(now, items@[(#[trigger] res@[k]) as int].date_time),
                ),
    {
        let ghost ats = moments(items@);
        let order: Vec<usize> = order_newest_first(items);
        let ghost spec_order = newest_first(ats, ats.len() as int);
        let ghost sorted = in_order(ats, spec_order);
        assert(spec_order == order@.map_values(|i: usize| i as int));
        let n: usize = items.len();
        let max_deletions: usize = if n > self.min_backups {
            n - self.min_backups
        } else {
            0
        };
        let mut res: Vec<usize> = Vec::new();
        if max_deletions == 0 {
            return res;
        }
        let mut last_keep: Option<Timestamp> = None;
        let mut places: Vec<usize> = Vec::new();
        let mut k: usize = 0;
        while k < n
            invariant
                k <= n,
                n == items@.len(),
                n == order@.len(),
                ats == moments(items@),
                spec_order == order@.map_values(|i: usize| i as int),
                sorted == in_order(ats, spec_order),
                forall|j: int| 0 <= j < order@.len() ==> (#[trigger] order@[j]) < items@.len(),
                last_keep == self.anchor_before(now, sorted, k as int),
                places@.map_values(|p: usize| p as int) == self.candidates(now, sorted, k as int),
                forall|j: int| 0 <= j < places@.len() ==> (#[trigger] places@[j]) < k,
                forall|j: int|
                    0 <= j < places@.len() ==> self.candidate_at(
                        now,
                        sorted,
                        (#[trigger] places@[j]) as int,
                    ),
            decreases n - k,
        {
            let at: Timestamp = items[order[k]].date_time;
            assert(at == sorted[k as int]);
            let age: i128 = age_of(now, at);
            let ghost anchor = last_keep;
            let ghost before = places@.map_values(|p: usize| p as int);
            let mut candidate: bool = false;
            if age >= self.default_retention.as_nanos() {
                let keep: bool = should_keep(
                    at,
                    age,
                    &mut last_keep,
                    self.yearly_retention,
                    Tier::Yearly,
                ) || should_keep(at, age, &mut last_keep, self.monthly_retention, Tier::Monthly)
                    || should_keep(at, age, &mut last_keep, self.daily_retention, Tier::Daily);
                candidate = !keep;
            }
            assert(candidate == self.candidate_at(now, sorted, k as int));
            assert(last_keep == self.next_anchor(at, age as int, anchor));
            if candidate {
                places.push(k);
                assert(places@.map_values(|p: usize| p as int) =~= before.push(k as int));
            }
            k += 1;
        }
        let ghost all = self.candidates(now, sorted, n as int);
        assert(sorted.len() == n);
        let count: usize = if places.len() <= max_deletions {
            places.len()
        } else {
            max_deletions
        };
        let ghost chosen = self.delete_places(now, sorted);
        let ghost indices = self.delete_indices(now, ats);
        assert(chosen.len() == count);
        assert(indices.len() == count);
        let mut j: usize = 0;
        while j < count
            invariant
                j <= count,
                count <= places@.len(),
                n == items@.len(),
                n == order@.len(),
                ats == moments(items@),
                spec_order == order@.map_values(|i: usize| i as int),
                spec_order == newest_first(ats, ats.len() as int),
                sorted == in_order(ats, spec_order),
                all == places@.map_values(|p: usize| p as int),
                all == self.candidates(now, sorted, n as int),
                chosen == self.delete_places(now, sorted),
                indices == self.delete_indices(now, ats),
                chosen.len() == count,
                indices.len() == count,
                forall|i: int| 0 <= i < order@.len() ==> (#[trigger] order@[i]) < items@.len(),
                forall|i: int| 0 <= i < places@.len() ==> (#[trigger] places@[i]) < n,
                forall|i: int|
                    0 <= i < places@.len() ==> self.candidate_at(
                        now,
                        sorted,
                        (#[trigger] places@[i]) as int,
                    ),
                res@.len() == j,
                forall|i: int|
                    0 <= i < j ==> (#[trigger] res@[i]) < items@.len() && res@[i] == indices[i],
                forall|i: int|
                    0 <= i < j ==> !self.within_default(
                        age_nanos(now, items@[(#[trigger] res@[i]) as int].date_time),
                    ),
            decreases count - j,
        {
            let place: usize = places[places.len() - 1 - j];
            let index: usize = order[place];
            assert(chosen[j as int] == all[all.len() - 1 - j]);
            assert(all[all.len() - 1 - j] == place as int);
            assert(indices[j as int] == spec_order[chosen[j as int]]);
            assert(spec_order[place as int] == index as int);
            assert(self.candidate_at(now, sorted, place as int));
            assert(sorted[place as int] == items@[index as int].date_time);
            res.push(index);
            j += 1;
        }
        res
    }
}

} // verus!
