//! The loop of the daemon: what it knows at start, when it fires, and what
//! one firing does to the set of known archives.
//!
//! The loop itself waits and writes files, which is not done here. Here
//! are its decisions: the set of archives found at start, the first moment
//! to fire, whether to sleep or to fire, which archives a firing drops
//! before the new archive is built, and what is recorded once it is built.

use crate::backup_config::{path_file_name, BackupConfig};
use crate::error::Error;
use crate::retention::{
    marks_of, moments, unmarked_upto, without, ItemWithDateTime, RetentionConfig, Span,
};
use crate::timestamp::{Timestamp, MAX_SECS, MIN_SECS};
use vstd::prelude::*;

verus! {

/// The error of `cron_parser` for an expression that it does not accept or
/// that never occurs again.
#[verifier::external_type_specification]
#[verifier::external_body]
pub struct ExCronParseError(cron_parser::ParseError);

/// The first occurrence of a cron expression strictly after an instant, as
/// `cron_parser::parse` gives it in UTC: seconds since 1970-01-01T00:00:00Z
/// and nanoseconds. `None` where it gives an error.
pub uninterp spec fn cron_next_after(expression: Seq<char>, secs: int, nanos: int) -> Option<
    (int, int),
>;

/// `cron_parser::parse` on an instant in UTC. Not proved: that the result
/// is the one named `cron_next_after`, and that an occurrence it gives is
/// later than the instant.
#[verifier::external_body]
fn cron_parse(expression: &str, after_secs: i64, after_nanos: u32) -> (res: Result<
    (i64, u32),
    cron_parser::ParseError,
>)
    requires
        MIN_SECS <= after_secs <= MAX_SECS,
        after_nanos < 1_000_000_000,
    ensures
        res.is_ok() == cron_next_after(expression@, after_secs as int, after_nanos as int).is_some(),
        res matches Ok(v) ==> cron_next_after(expression@, after_secs as int, after_nanos as int)
            == Some((v.0 as int, v.1 as int)) && (v.0 > after_secs || (v.0 == after_secs && v.1
            > after_nanos)),
{
    let after = chrono::DateTime::from_timestamp(after_secs, after_nanos).unwrap();
    match cron_parser::parse(expression, &after) {
        Ok(next) => Ok((next.timestamp(), next.timestamp_subsec_nanos())),
        Err(e) => Err(e),
    }
}

/// The first occurrence of `expression` after `after`, where there is one
/// within the years 0000 to 9999.
pub open spec fn next_occurrence(expression: Seq<char>, after: Timestamp) -> Option<(int, int)> {
    match cron_next_after(expression, after.epoch_secs(), after.subsec()) {
        Some((secs, nanos)) => if MIN_SECS <= secs <= MAX_SECS && 0 <= nanos < 1_000_000_000 {
            Some((secs, nanos))
        } else {
            None
        },
        None => None,
    }
}

/// The first moment after `after` at which the cron expression fires. An
/// error for an expression that is not valid or that fires no more within
/// the years 0000 to 9999.
pub fn next_backup_time(cron: &str, after: Timestamp) -> (res: Result<Timestamp, Error>)
    ensures
        res.is_ok() == next_occurrence(cron@, after).is_some(),
        res matches Ok(t) ==> next_occurrence(cron@, after) == Some((t.epoch_secs(), t.subsec()))
            && t.epoch_nanos() > after.epoch_nanos(),
        res matches Err(e) ==> *e.inner is ValidationError,
{
    let after_secs: i64 = after.timestamp();
    let after_nanos: u32 = after.subsec_nanos();
    match cron_parse(cron, after_secs, after_nanos) {
        Err(_) => Err(Error::validation_error("Invalid cron string")),
        Ok((secs, nanos)) => match Timestamp::new(secs, nanos) {
            Some(t) => Ok(t),
            None => Err(Error::validation_error("cron string has no occurrence in range")),
        },
    }
}

/// `Ok` for a cron expression that fires again after `now`, else a
/// validation error.
pub fn validate_cron_str(cron: &str, now: Timestamp) -> (res: Result<(), Error>)
    ensures
        res.is_ok() == cron_next_after(cron@, now.epoch_secs(), now.subsec()).is_some(),
        res matches Err(e) ==> *e.inner is ValidationError,
{
    let now_secs: i64 = now.timestamp();
    let now_nanos: u32 = now.subsec_nanos();
    match cron_parse(cron, now_secs, now_nanos) {
        Err(_) => Err(Error::validation_error("Invalid cron string")),
        Ok(_) => Ok(()),
    }
}

/// What the loop does next.
#[derive(Clone, Copy, Debug, PartialEq, Eq, Structural)]
pub enum LoopAction {
    /// Wait for the given time, then look again.
    Sleep(Span),
    /// Make an archive now.
    Fire,
}

/// Sleep until `next` while it lies ahead of `now`, else fire.
pub fn loop_step(now: Timestamp, next: Timestamp) -> (action: LoopAction)
    ensures
        now.epoch_nanos() >= next.epoch_nanos() ==> action == LoopAction::Fire,
        now.epoch_nanos() < next.epoch_nanos() ==> (action matches LoopAction::Sleep(span)
            && span.total_nanos() == next.epoch_nanos() - now.epoch_nanos() && span.nanos
            < 1_000_000_000),
{
    let now_secs: i64 = now.timestamp();
    let now_nanos: u32 = now.subsec_nanos();
    let next_secs: i64 = next.timestamp();
    let next_nanos: u32 = next.subsec_nanos();
    if now_secs < next_secs || (now_secs == next_secs && now_nanos < next_nanos) {
        if next_nanos >= now_nanos {
            LoopAction::Sleep(Span { secs: (next_secs - now_secs) as u64, nanos: next_nanos - now_nanos })
        } else {
            LoopAction::Sleep(
                Span {
                    secs: (next_secs - now_secs - 1) as u64,
                    nanos: next_nanos + 1_000_000_000 - now_nanos,
                },
            )
        }
    } else {
        LoopAction::Fire
    }
}

/// Whether an archive with the path `path` is known.
pub open spec fn knows(set: Seq<ItemWithDateTime<String>>, path: Seq<char>) -> bool {
    exists|i: int| 0 <= i < set.len() && (#[trigger] set[i]).item@ == path
}

/// A file of a listing: its path and its file name, where it has one.
#[derive(Clone, Debug, PartialEq, Eq)]
pub struct ListedFile {
    /// The path of the file.
    pub path: String,
    /// The last part of the path, where there is one and it is valid text.
    pub file_name: Option<String>,
}

/// Whether `file` is the file at `path`, with the file name of that path.
pub open spec fn names(file: ListedFile, path: Seq<char>) -> bool {
    &&& file.path@ == path
    &&& file.file_name.is_some() == path_file_name(path).is_some()
    &&& file.file_name matches Some(n) ==> path_file_name(path) == Some(n@)
}

/// Whether `files` are the files at `paths`, in order, each with the file
/// name of its path.
pub open spec fn lists(files: Seq<ListedFile>, paths: Seq<String>) -> bool {
    &&& files.len() == paths.len()
    &&& forall|i: int| 0 <= i < files.len() ==> names(#[trigger] files[i], paths[i]@)
}

/// Whether one of the pairs holds the path `path`.
pub open spec fn holds_path(pairs: Seq<(Seq<char>, int)>, path: Seq<char>) -> bool {
    exists|i: int| 0 <= i < pairs.len() && (#[trigger] pairs[i]).0 == path
}

/// Whether `set` holds the archives that the pairs of path and instant
/// name, in their order, each at a whole second.
pub open spec fn shows(set: Seq<ItemWithDateTime<String>>, pairs: Seq<(Seq<char>, int)>) -> bool {
    &&& set.len() == pairs.len()
    &&& forall|i: int|
        0 <= i < set.len() ==> (#[trigger] set[i]).item@ == pairs[i].0
            && set[i].date_time.epoch_secs() == pairs[i].1 && set[i].date_time.subsec() == 0
}

/// Whether no path occurs twice among the known archives.
pub open spec fn distinct_paths(set: Seq<ItemWithDateTime<String>>) -> bool {
    forall|i: int, j: int|
        0 <= i < j < set.len() ==> (#[trigger] set[i]).item@ != (#[trigger] set[j]).item@
}

/// Whether `latest` is the moment of the newest archive of `set`, or the
/// start of 1970 where there is none.
pub open spec fn is_latest(set: Seq<ItemWithDateTime<String>>, latest: Timestamp) -> bool {
    &&& forall|i: int|
        0 <= i < set.len() ==> (#[trigger] set[i]).date_time.epoch_nanos() <= latest.epoch_nanos()
    &&& if set.len() == 0 {
        latest.epoch_secs() == 0 && latest.subsec() == 0
    } else {
        exists|i: int| 0 <= i < set.len() && (#[trigger] set[i]).date_time == latest
    }
}

/// The known archives of `set` that stay when those at `indices` go.
pub open spec fn remaining(set: Seq<ItemWithDateTime<String>>, indices: Seq<int>) -> Seq<
    ItemWithDateTime<String>,
> {
    without(set, indices)
}

/// What is left of a set without a path that occurs twice has no path that
/// occurs twice, and holds archives of the set alone.
pub proof fn lemma_remaining_distinct(set: Seq<ItemWithDateTime<String>>, marks: Seq<bool>, n: int)
    requires
        0 <= n <= set.len(),
        distinct_paths(set),
    ensures
        distinct_paths(unmarked_upto(set, marks, n)),
        forall|j: int|
            0 <= j < unmarked_upto(set, marks, n).len() ==> exists|k: int|
                0 <= k < n && #[trigger] set[k] == #[trigger] unmarked_upto(set, marks, n)[j],
    decreases n,
{
    if n > 0 {
        lemma_remaining_distinct(set, marks, n - 1);
        let prev = unmarked_upto(set, marks, n - 1);
        let left = unmarked_upto(set, marks, n);
        if !marks[n - 1] {
            assert(left == prev.push(set[n - 1]));
            assert forall|j: int| 0 <= j < left.len() implies exists|k: int|
                0 <= k < n && #[trigger] set[k] == #[trigger] left[j] by {
                if j < prev.len() {
                    let k = choose|k: int| 0 <= k < n - 1 && #[trigger] set[k] == prev[j];
                    assert(set[k] == left[j]);
                } else {
                    assert(set[n - 1] == left[j]);
                }
            }
            assert forall|i: int, j: int| 0 <= i < j < left.len() implies (#[trigger] left[i]).item@
                != (#[trigger] left[j]).item@ by {
                if j < prev.len() {
                    assert(left[i] == prev[i] && left[j] == prev[j]);
                } else {
                    let k = choose|k: int| 0 <= k < n - 1 && #[trigger] set[k] == prev[i];
                    assert(left[i] == set[k]);
                    assert(left[j] == set[n - 1]);
                }
            }
        }
    }
}

/// Whether an archive with the path `path` is known.
pub fn contains_path(set: &Vec<ItemWithDateTime<String>>, path: &String) -> (found: bool)
    ensures
        found == knows(set@, path@),
{
    let mut i: usize = 0;
    while i < set.len()
        invariant
            i <= set@.len(),
            forall|j: int| 0 <= j < i ==> (#[trigger] set@[j]).item@ != path@,
        decreases set.len() - i,
    {
        if set[i].item == *path {
            return true;
        }
        i += 1;
    }
    false
}

/// Records the archive at `path` made at `at`, unless an archive with that
/// path is known already. Returns whether it was recorded.
pub fn insert_backup(set: &mut Vec<ItemWithDateTime<String>>, path: String, at: Timestamp) -> (added:
    bool)
    ensures
        added == !knows(old(set)@, path@),
        added ==> final(set)@ == old(set)@.push(ItemWithDateTime { item: path, date_time: at }),
        !added ==> final(set)@ == old(set)@,
        distinct_paths(old(set)@) ==> distinct_paths(final(set)@),
{
    if contains_path(set, &path) {
        false
    } else {
        set.push(ItemWithDateTime::new(path, at));
        true
    }
}

/// The moment of the newest known archive, or the start of 1970 where none
/// is known.
pub fn latest_backup_time(set: &Vec<ItemWithDateTime<String>>) -> (latest: Timestamp)
    ensures
        is_latest(set@, latest),
{
    if set.len() == 0 {
        return Timestamp::unix_epoch();
    }
    let mut latest: Timestamp = set[0].date_time;
    let mut i: usize = 1;
    while i < set.len()
        invariant
            1 <= i <= set@.len(),
            forall|j: int|
                0 <= j < i ==> (#[trigger] set@[j]).date_time.epoch_nanos() <= latest.epoch_nanos(),
            exists|j: int| 0 <= j < i && (#[trigger] set@[j]).date_time == latest,
        decreases set.len() - i,
    {
        let at: Timestamp = set[i].date_time;
        let at_secs: i64 = at.timestamp();
        let latest_secs: i64 = latest.timestamp();
        if at_secs > latest_secs || (at_secs == latest_secs && at.subsec_nanos()
            > latest.subsec_nanos()) {
            latest = at;
        }
        i += 1;
    }
    latest
}

/// Removes the archives at `indices` from `set` and returns their paths in
/// the order of `indices`.
pub(crate) fn remove_backups(set: &mut Vec<ItemWithDateTime<String>>, indices: &Vec<usize>) -> (removed:
    Vec<String>)
    requires
        forall|k: int| 0 <= k < indices@.len() ==> (#[trigger] indices@[k]) < old(set)@.len(),
    ensures
        removed@.len() == indices@.len(),
        forall|k: int|
            0 <= k < removed@.len() ==> (#[trigger] removed@[k])@ == old(set)@[indices@[k] as int].item@,
        final(set)@ == remaining(old(set)@, indices@.map_values(|i: usize| i as int)),
        distinct_paths(old(set)@) ==> distinct_paths(final(set)@),
{
    let ghost before = set@;
    let ghost wanted = indices@.map_values(|i: usize| i as int);
    let n: usize = set.len();
    let mut removed: Vec<String> = Vec::new();
    let mut marks: Vec<bool> = Vec::new();
    let mut i: usize = 0;
    while i < n
        invariant
            i <= n,
            marks@.len() == i,
            forall|j: int| 0 <= j < i ==> !(#[trigger] marks@[j]),
        decreases n - i,
    {
        marks.push(false);
        i += 1;
    }
    let mut k: usize = 0;
    while k < indices.len()
        invariant
            k <= indices@.len(),
            set@ == before,
            n == before.len(),
            marks@.len() == n,
            wanted == indices@.map_values(|i: usize| i as int),
            forall|j: int| 0 <= j < indices@.len() ==> (#[trigger] indices@[j]) < n,
            removed@.len() == k,
            forall|j: int|
                0 <= j < k ==> (#[trigger] removed@[j])@ == before[indices@[j] as int].item@,
            forall|j: int|
                0 <= j < n ==> (#[trigger] marks@[j]) == wanted.subrange(0, k as int).contains(j),
        decreases indices.len() - k,
    {
        let index: usize = indices[k];
        removed.push(set[index].item.clone());
        let ghost old_marks = marks@;
        marks.set(index, true);
        proof {
            let upto = wanted.subrange(0, k as int);
            let more = wanted.subrange(0, k + 1);
            assert(more =~= upto.push(index as int));
            assert forall|j: int| 0 <= j < n implies (#[trigger] marks@[j]) == more.contains(j) by {
                if upto.contains(j) {
                    let w = choose|w: int| 0 <= w < upto.len() && upto[w] == j;
                    assert(more[w] == j);
                }
                if j == index {
                    assert(more[k as int] == j);
                }
                if more.contains(j) {
                    let w = choose|w: int| 0 <= w < more.len() && more[w] == j;
                    if w < k {
                        assert(upto[w] == j);
                    }
                }
            }
        }
        k += 1;
    }
    assert(wanted.subrange(0, indices@.len() as int) =~= wanted);
    assert(marks@ =~= marks_of(wanted, n as int));
    let mut at: usize = 0;
    let mut kept: usize = 0;
    while at < n
        invariant
            kept <= at <= n,
            n == before.len(),
            marks@ == marks_of(wanted, n as int),
            kept == unmarked_upto(before, marks@, at as int).len(),
            set@ == unmarked_upto(before, marks@, at as int) + before.subrange(at as int, n as int),
        decreases n - at,
    {
        let ghost head = unmarked_upto(before, marks@, at as int);
        if marks[at] {
            let gone: ItemWithDateTime<String> = set.remove(kept);
            assert(set@ =~= head + before.subrange(at + 1, n as int));
        } else {
            assert(set@ =~= head.push(before[at as int]) + before.subrange(at + 1, n as int));
            kept += 1;
        }
        at += 1;
    }
    assert(set@ =~= unmarked_upto(before, marks@, n as int));
    proof {
        if distinct_paths(before) {
            lemma_remaining_distinct(before, marks@, n as int);
        }
    }
    removed
}

/// What a firing does before the new archive is built.
pub struct CyclePlan {
    /// The paths of the archives that were dropped from the set and are to
    /// be deleted, the oldest first.
    pub expired: Vec<String>,
    /// The name of the archive to build.
    pub file_name: String,
}

impl BackupConfig {
    /// The archives that a listing shows, as pairs of path and instant in
    /// seconds since 1970-01-01T00:00:00Z, among its first `n` files: each
    /// file whose name is the name of an archive of this configuration, in
    /// the order of the listing; a path that occurs again is taken once.
    pub open spec fn listed_archives(self, files: Seq<ListedFile>, n: int) -> Seq<(Seq<char>, int)>
        decreases n,
    {
        if n <= 0 {
            Seq::empty()
        } else {
            let before = self.listed_archives(files, n - 1);
            let file = files[n - 1];
            if file.file_name.is_some() && self.name_secs(file.file_name.unwrap()@).is_some()
                && !holds_path(before, file.path@) {
                before.push((file.path@, self.name_secs(file.file_name.unwrap()@).unwrap()))
            } else {
                before
            }
        }
    }

    /// The set of known archives that a listing of the output directory
    /// gives.
    pub fn backup_set_of(&self, files: &Vec<ListedFile>) -> (set: Vec<ItemWithDateTime<String>>)
        ensures
            shows(set@, self.listed_archives(files@, files@.len() as int)),
            distinct_paths(set@),
    {
        let mut set: Vec<ItemWithDateTime<String>> = Vec::new();
        let mut i: usize = 0;
        while i < files.len()
            invariant
                i <= files@.len(),
                shows(set@, self.listed_archives(files@, i as int)),
                distinct_paths(set@),
            decreases files.len() - i,
        {
            let ghost before = set@;
            let ghost listed = self.listed_archives(files@, i as int);
            let file: &ListedFile = &files[i];
            match &file.file_name {
                Some(name) => {
                    match self.get_date_time_from_file_name(name.as_str()) {
                        Some(at) => {
                            proof {
                                if knows(before, file.path@) {
                                    let w = choose|w: int|
                                        0 <= w < before.len() && (#[trigger] before[w]).item@
                                            == file.path@;
                                    assert(listed[w].0 == file.path@);
                                }
                                if holds_path(listed, file.path@) {
                                    let w = choose|w: int|
                                        0 <= w < listed.len() && (#[trigger] listed[w]).0
                                            == file.path@;
                                    assert(before[w].item@ == file.path@);
                                }
                            }
                            let added: bool = insert_backup(&mut set, file.path.clone(), at);
                        },
                        None => {},
                    }
                },
                None => {},
            }
            i += 1;
        }
        set
    }

    /// The set of known archives among `paths`: each path whose file name
    /// is the name of an archive of this configuration, with the instant
    /// that the name stands for. A path that occurs again is taken once.
    ///
    /// The file name of a path is asked of the standard library;
    /// `backup_set_of` says what follows from its answers.
    pub fn initial_backup_set(&self, paths: Vec<String>) -> (set: Vec<ItemWithDateTime<String>>)
        ensures
            distinct_paths(set@),
            exists|files: Seq<ListedFile>|
                lists(files, paths@) && shows(
                    set@,
                    #[trigger] self.listed_archives(files, files.len() as int),
                ),
    {
        let mut files: Vec<ListedFile> = Vec::new();
        let mut i: usize = 0;
        while i < paths.len()
            invariant
                i <= paths@.len(),
                files@.len() == i,
                forall|k: int| 0 <= k < i ==> names(#[trigger] files@[k], paths@[k]@),
            decreases paths.len() - i,
        {
            let file_name: Option<String> = crate::backup_config::file_name_of(paths[i].as_str());
            files.push(ListedFile { path: paths[i].clone(), file_name });
            i += 1;
        }
        self.backup_set_of(&files)
    }

    /// The first moment to fire: the first occurrence of the cron expression
    /// after the newest known archive, or after the start of 1970 where none
    /// is known.
    pub fn first_backup_time(&self, set: &Vec<ItemWithDateTime<String>>) -> (res: Result<
        Timestamp,
        Error,
    >)
        ensures
            res matches Ok(t) ==> exists|latest: Timestamp|
                is_latest(set@, latest) && #[trigger] next_occurrence(self.cron@, latest) == Some(
                    (t.epoch_secs(), t.subsec()),
                ) && t.epoch_nanos() > latest.epoch_nanos(),
            res matches Err(e) ==> *e.inner is ValidationError,
            res.is_err() ==> exists|latest: Timestamp|
                is_latest(set@, latest) && (#[trigger] next_occurrence(self.cron@, latest)).is_none(),
    {
        let latest: Timestamp = latest_backup_time(set);
        let res = next_backup_time(self.cron.as_str(), latest);
        proof {
            if res.is_err() {
                assert(next_occurrence(self.cron@, latest).is_none());
            }
        }
        res
    }

    /// The first half of a firing at `now`: where retention is configured,
    /// the archives it chooses leave `backup_set`, and their paths are
    /// returned for deletion, the oldest first; then the name of the archive
    /// to build.
    pub fn execute_backup_cycle(&self, backup_set: &mut Vec<ItemWithDateTime<String>>, now: Timestamp) -> (plan:
        CyclePlan)
        ensures
            plan.file_name@ == self.archive_name(now),
            distinct_paths(old(backup_set)@) ==> distinct_paths(final(backup_set)@),
            match self.retention {
                None => plan.expired@.len() == 0 && final(backup_set)@ == old(backup_set)@,
                Some(retention) => {
                    let chosen = retention.delete_indices(now, moments(old(backup_set)@));
                    &&& plan.expired@.len() == chosen.len()
                    &&& forall|k: int|
                        0 <= k < chosen.len() ==> (#[trigger] plan.expired@[k])@ == old(
                            backup_set,
                        )@[chosen[k]].item@
                    &&& final(backup_set)@ == remaining(old(backup_set)@, chosen)
                },
            },
    {
        let expired: Vec<String> = match &self.retention {
            None => Vec::new(),
            Some(retention) => {
                let indices: Vec<usize> = retention.get_delete_indices(backup_set, now);
                proof {
                    let chosen = retention.delete_indices(now, moments(backup_set@));
                    assert(indices@.map_values(|i: usize| i as int) =~= chosen);
                }
                remove_backups(backup_set, &indices)
            },
        };
        CyclePlan { expired, file_name: self.archive_file_name(now) }
    }

    /// The second half of a firing at `now`, given how the build went. A
    /// build that failed ends the loop with its error. After a build that
    /// succeeded the archive is recorded with the moment `now`, and the
    /// result is the next moment to fire together with the error of the
    /// entries that were left out, if there is one.
    pub fn finish_backup_cycle(
        &self,
        backup_set: &mut Vec<ItemWithDateTime<String>>,
        now: Timestamp,
        built: Result<(String, Option<Error>), Error>,
    ) -> (res: Result<(Timestamp, Option<Error>), Error>)
        ensures
            distinct_paths(old(backup_set)@) ==> distinct_paths(final(backup_set)@),
            match built {
                Err(e) => res == Err::<(Timestamp, Option<Error>), Error>(e) && final(backup_set)@
                    == old(backup_set)@,
                Ok((path, warning)) => {
                    &&& final(backup_set)@ == if knows(old(backup_set)@, path@) {
                        old(backup_set)@
                    } else {
                        old(backup_set)@.push(ItemWithDateTime { item: path, date_time: now })
                    }
                    &&& res.is_ok() == next_occurrence(self.cron@, now).is_some()
                    &&& res matches Ok((next, w)) ==> w == warning && next_occurrence(
                        self.cron@,
                        now,
                    ) == Some((next.epoch_secs(), next.subsec())) && next.epoch_nanos()
                        > now.epoch_nanos()
                },
            },
    {
        match built {
            Err(e) => Err(e),
            Ok((path, warning)) => {
                let added: bool = insert_backup(backup_set, path, now);
                match next_backup_time(self.cron.as_str(), now) {
                    Ok(next) => Ok((next, warning)),
                    Err(e) => Err(e),
                }
            },
        }
    }
}

} // verus!
