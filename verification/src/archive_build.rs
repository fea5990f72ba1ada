//! Building one archive: what becomes of each element that a source gives,
//! and how the outcomes of the two workers are combined.
//!
//! One worker walks the sources and hands entries on; the other writes them
//! into the archive. An element that is an error is never written: it is
//! put under the message `Ignoring entry` and kept for the report. Only a
//! failure of the writing worker is a failure of the build.

use crate::archive::{ArchiveEntry, ArchiveSource};
use crate::backup_config::BackupConfig;
use crate::error::{convert_error_vec, AddMsg, Error};
use vstd::prelude::*;

verus! {

/// What becomes of one element of a source.
pub enum Routed {
    /// The entry goes to the writer.
    Send(ArchiveEntry),
    /// The entry is left out, for the reason given.
    Ignored(Error),
}

/// What the writer does with one element that reaches it.
pub enum TarAction {
    /// Append the file at `src` under the name `dst`.
    AppendPath { src: String, dst: String },
    /// Append the bytes under the name `dst`.
    AppendReader { bytes: Vec<u8>, dst: String },
    /// Write nothing; the element was an error.
    Skip(Error),
}

/// The entries among the first `n` of `elements`, in order.
pub open spec fn entries_of(elements: Seq<Result<ArchiveEntry, Error>>, n: int) -> Seq<ArchiveEntry>
    decreases n,
{
    if n <= 0 {
        Seq::empty()
    } else {
        match elements[n - 1] {
            Ok(entry) => entries_of(elements, n - 1).push(entry),
            Err(_) => entries_of(elements, n - 1),
        }
    }
}

/// The errors among the first `n` of `elements`, in order.
pub open spec fn errors_of<T>(elements: Seq<Result<T, Error>>, n: int) -> Seq<Error>
    decreases n,
{
    if n <= 0 {
        Seq::empty()
    } else {
        match elements[n - 1] {
            Ok(_) => errors_of(elements, n - 1),
            Err(e) => errors_of(elements, n - 1).push(e),
        }
    }
}

/// Whether every error among `elements` is well formed.
pub open spec fn errors_well_formed<T>(elements: Seq<Result<T, Error>>) -> bool {
    forall|i: int|
        0 <= i < elements.len() ==> ((#[trigger] elements[i]) matches Err(e) ==> e.well_formed())
}

/// The errors among well formed elements are well formed.
pub proof fn lemma_errors_of_well_formed<T>(elements: Seq<Result<T, Error>>, n: int)
    requires
        0 <= n <= elements.len(),
        errors_well_formed(elements),
    ensures
        forall|i: int|
            0 <= i < errors_of(elements, n).len() ==> (#[trigger] errors_of(elements, n)[i]).well_formed(),
    decreases n,
{
    if n > 0 {
        lemma_errors_of_well_formed(elements, n - 1);
        let prev = errors_of(elements, n - 1);
        let all = errors_of(elements, n);
        assert(elements[n - 1] matches Err(e) ==> e.well_formed());
        assert forall|i: int| 0 <= i < all.len() implies (#[trigger] all[i]).well_formed() by {
            if i < prev.len() {
                assert(all[i] == prev[i]);
            }
        }
    }
}

/// Whether each of `wrapped` is the error at the same place of `errors`
/// under the message `msg`.
pub open spec fn each_with_msg(wrapped: Seq<Error>, msg: Seq<char>, errors: Seq<Error>) -> bool {
    &&& wrapped.len() == errors.len()
    &&& forall|i: int| 0 <= i < wrapped.len() ==> (#[trigger] wrapped[i]).is_with_msg(msg, errors[i])
}

/// An entry goes to the writer; an error is left out under the message
/// `Ignoring entry`.
pub fn route_entry(element: Result<ArchiveEntry, Error>) -> (routed: Routed)
    ensures
        match element {
            Ok(entry) => routed == Routed::Send(entry),
            Err(e) => routed matches Routed::Ignored(w) && w.is_with_msg("Ignoring entry"@, e),
        },
{
    match element {
        Ok(entry) => Routed::Send(entry),
        Err(e) => Routed::Ignored(e.add_msg("Ignoring entry")),
    }
}

/// The elements of one source, parted: the entries for the writer, in
/// order, and the outcome of the source, which is `Ok` where no element was
/// an error and else the list of the errors, each under the message
/// `Ignoring entry`.
pub fn collect_source(elements: Vec<Result<ArchiveEntry, Error>>) -> (res: (
    Vec<ArchiveEntry>,
    Result<(), Error>,
))
    ensures
        res.0@ == entries_of(elements@, elements@.len() as int),
        res.1.is_ok() == (errors_of(elements@, elements@.len() as int).len() == 0),
        res.1 matches Err(e) ==> e.is_list() && each_with_msg(
            e.parts(),
            "Ignoring entry"@,
            errors_of(elements@, elements@.len() as int),
        ),
        res.1 matches Err(e) ==> (errors_well_formed(elements@) ==> e.well_formed()),
{
    let ghost all = elements@;
    let n: usize = elements.len();
    let mut rest: Vec<Result<ArchiveEntry, Error>> = elements;
    let mut entries: Vec<ArchiveEntry> = Vec::new();
    let mut errors: Vec<Error> = Vec::new();
    let mut reversed: Vec<Result<ArchiveEntry, Error>> = Vec::new();
    while rest.len() > 0
        invariant
            rest@.len() + reversed@.len() == n,
            n == all.len(),
            rest@ == all.subrange(0, rest@.len() as int),
            forall|i: int| 0 <= i < reversed@.len() ==> (#[trigger] reversed@[i]) == all[n - 1 - i],
        decreases rest.len(),
    {
        let last: Option<Result<ArchiveEntry, Error>> = rest.pop();
        reversed.push(last.unwrap());
    }
    let mut done: usize = 0;
    while reversed.len() > 0
        invariant
            done + reversed@.len() == n,
            n == all.len(),
            forall|i: int| 0 <= i < reversed@.len() ==> (#[trigger] reversed@[i]) == all[n - 1 - i],
            entries@ == entries_of(all, done as int),
            each_with_msg(errors@, "Ignoring entry"@, errors_of(all, done as int)),
        decreases reversed.len(),
    {
        let ghost before_errors = errors@;
        let element: Result<ArchiveEntry, Error> = reversed.pop().unwrap();
        assert(element == all[done as int]);
        match route_entry(element) {
            Routed::Send(entry) => {
                entries.push(entry);
            },
            Routed::Ignored(error) => {
                errors.push(error);
                assert forall|i: int| 0 <= i < errors@.len() implies (#[trigger] errors@[i]).is_with_msg(
                    "Ignoring entry"@,
                    errors_of(all, done + 1)[i],
                ) by {
                    if i < before_errors.len() {
                        assert(errors@[i] == before_errors[i]);
                    }
                }
            },
        }
        done += 1;
    }
    proof {
        if errors_well_formed(all) {
            lemma_errors_of_well_formed(all, n as int);
            Error::lemma_all_well_formed(errors@);
            assert forall|i: int| 0 <= i < errors@.len() implies (#[trigger] errors@[i]).well_formed() by {
                assert(errors@[i].is_with_msg("Ignoring entry"@, errors_of(all, n as int)[i]));
            }
        }
    }
    let outcome: Result<(), Error> = convert_error_vec(errors);
    (entries, outcome)
}

/// The outcome of the worker that walks the sources, from the outcomes of
/// the sources: `Ok` where every source is `Ok`, else the list of their
/// errors, in order.
pub fn producer_outcome(sources: Vec<Result<(), Error>>) -> (res: Result<(), Error>)
    ensures
        res.is_ok() == (errors_of(sources@, sources@.len() as int).len() == 0),
        res matches Err(e) ==> e.is_list() && e.parts() == errors_of(
            sources@,
            sources@.len() as int,
        ),
        res matches Err(e) ==> (errors_well_formed(sources@) ==> e.well_formed()),
{
    let ghost all = sources@;
    let n: usize = sources.len();
    let mut rest: Vec<Result<(), Error>> = sources;
    let mut reversed: Vec<Result<(), Error>> = Vec::new();
    while rest.len() > 0
        invariant
            rest@.len() + reversed@.len() == n,
            n == all.len(),
            rest@ == all.subrange(0, rest@.len() as int),
            forall|i: int| 0 <= i < reversed@.len() ==> (#[trigger] reversed@[i]) == all[n - 1 - i],
        decreases rest.len(),
    {
        let last: Option<Result<(), Error>> = rest.pop();
        reversed.push(last.unwrap());
    }
    let mut errors: Vec<Error> = Vec::new();
    let mut done: usize = 0;
    while reversed.len() > 0
        invariant
            done + reversed@.len() == n,
            n == all.len(),
            forall|i: int| 0 <= i < reversed@.len() ==> (#[trigger] reversed@[i]) == all[n - 1 - i],
            errors@ == errors_of(all, done as int),
        decreases reversed.len(),
    {
        let element: Result<(), Error> = reversed.pop().unwrap();
        assert(element == all[done as int]);
        match element {
            Ok(_) => {},
            Err(e) => {
                errors.push(e);
            },
        }
        done += 1;
    }
    proof {
        if errors_well_formed(all) {
            lemma_errors_of_well_formed(all, n as int);
            Error::lemma_all_well_formed(errors@);
        }
    }
    convert_error_vec(errors)
}

/// An entry is appended to the archive, from its file or from its bytes;
/// an error is skipped.
pub fn tar_action(element: Result<ArchiveEntry, Error>) -> (action: TarAction)
    ensures
        match element {
            Ok(entry) => match entry.src {
                ArchiveSource::Path(src) => action == (TarAction::AppendPath {
                    src,
                    dst: entry.dst,
                }),
                ArchiveSource::Reader(bytes) => action == (TarAction::AppendReader {
                    bytes,
                    dst: entry.dst,
                }),
            },
            Err(e) => action == TarAction::Skip(e),
        },
{
    match element {
        Ok(entry) => {
            let ArchiveEntry { src, dst } = entry;
            match src {
                ArchiveSource::Path(path) => TarAction::AppendPath { src: path, dst },
                ArchiveSource::Reader(bytes) => TarAction::AppendReader { bytes, dst },
            }
        },
        Err(e) => TarAction::Skip(e),
    }
}

/// What happened while the finished archive was moved to its place.
pub enum PromoteEvent {
    /// How renaming the temporary file to the final name went.
    Renamed(Result<(), String>),
    /// How copying the temporary file to the final name went.
    Copied(Result<(), String>),
}

/// What to do next while the finished archive is moved to its place. The
/// temporary file is deleted at the end, whatever the end is.
pub enum PromoteAction {
    /// The archive is in its place.
    Done,
    /// Copy the temporary file to the final name.
    Copy,
    /// Give up with this error, and leave no file under the final name.
    Fail(Error),
}

/// The archive is moved by renaming it; where that fails, by copying it;
/// where that fails too, the build fails.
pub fn promote_step(event: PromoteEvent) -> (action: PromoteAction)
    ensures
        match event {
            PromoteEvent::Renamed(Ok(_)) => action is Done,
            PromoteEvent::Renamed(Err(_)) => action is Copy,
            PromoteEvent::Copied(Ok(_)) => action is Done,
            PromoteEvent::Copied(Err(reason)) => action matches PromoteAction::Fail(e)
                && *e.inner is Io && e.inner.plain_text() == Some(reason@),
        },
{
    match event {
        PromoteEvent::Renamed(Ok(_)) => PromoteAction::Done,
        PromoteEvent::Renamed(Err(_)) => PromoteAction::Copy,
        PromoteEvent::Copied(Ok(_)) => PromoteAction::Done,
        PromoteEvent::Copied(Err(reason)) => PromoteAction::Fail(Error::io(reason.as_str())),
    }
}

impl BackupConfig {
    /// The result of a build from the outcomes of its two workers. The
    /// writer gives the path of the finished archive or the error that
    /// stopped it; the walker gives the error of the entries left out, if
    /// any. A finished archive is a success, with the walker's error as a
    /// warning. A writer's error is the failure, joined by the walker's
    /// where there is one.
    pub fn create_archive(&self, writer: Result<String, Error>, walker: Result<(), Error>) -> (res:
        Result<(String, Option<Error>), Error>)
        ensures
            match (writer, walker) {
                (Ok(path), Ok(_)) => res == Ok::<(String, Option<Error>), Error>((path, None)),
                (Ok(path), Err(e)) => res == Ok::<(String, Option<Error>), Error>((path, Some(e))),
                (Err(e), Ok(_)) => res == Err::<(String, Option<Error>), Error>(e),
                (Err(e1), Err(e2)) => res matches Err(e) && e.is_list() && e.parts() == (if e1.is_list() {
                    e1.parts() + e2.parts()
                } else {
                    seq![e1, e2]
                }) && (e1.well_formed() && e2.well_formed() ==> e.well_formed()),
            },
    {
        match writer {
            Ok(path) => match walker {
                Ok(_) => Ok((path, None)),
                Err(e) => Ok((path, Some(e))),
            },
            Err(e1) => match walker {
                Ok(_) => Err(e1),
                Err(e2) => Err(e1.chain(e2)),
            },
        }
    }
}

} // verus!
