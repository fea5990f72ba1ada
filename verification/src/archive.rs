//! The sources of an archive and the entries they give.
//!
//! A source is a directory filtered by glob patterns, a database file of
//! which a snapshot is taken, or bytes given in the configuration. Each
//! gives a sequence of results: an entry to put into the archive, or the
//! error that kept one out.

use crate::arcvec::ArcVec;
use crate::error::{AddFunctionName, AddMsg, Error};
use vstd::prelude::*;

verus! {

/// Where the content of an entry comes from.
#[derive(Debug)]
pub enum ArchiveSource {
    /// A file, read when the entry is written.
    Path(String),
    /// Bytes held in memory.
    Reader(Vec<u8>),
}

/// One member of an archive: its content and its path inside the archive.
#[derive(Debug)]
pub struct ArchiveEntry {
    /// The content.
    pub src: ArchiveSource,
    /// The path inside the archive. It is never looked up on the host.
    pub dst: String,
}

impl ArchiveEntry {
    /// An entry whose content is the file at `src`.
    pub fn new_path(src: String, dst: String) -> (entry: ArchiveEntry)
        ensures
            entry.src == ArchiveSource::Path(src),
            entry.dst == dst,
    {
        ArchiveEntry { src: ArchiveSource::Path(src), dst }
    }

    /// An entry whose content is the bytes of `src`.
    pub fn new_reader(src: Vec<u8>, dst: String) -> (entry: ArchiveEntry)
        ensures
            entry.src == ArchiveSource::Reader(src),
            entry.dst == dst,
    {
        ArchiveEntry { src: ArchiveSource::Reader(src), dst }
    }
}

/// Bytes given in the configuration.
#[derive(Clone, Debug)]
pub struct Base64Source {
    /// The bytes.
    pub content: ArcVec<u8>,
    /// The path inside the archive.
    pub dst: String,
}

/// A database file of which a consistent snapshot is archived.
#[derive(Clone, Debug, PartialEq, Eq)]
pub struct SqliteDBSource {
    /// The database file.
    pub src: String,
    /// The path inside the archive.
    pub dst: String,
}

/// A glob pattern in which `*` does not cross a path separator.
#[derive(Clone, Debug, PartialEq, Eq)]
pub struct CustomDeserializedGlob {
    /// The pattern as written.
    pub glob: String,
}

/// A directory of which the files that match one of the patterns are
/// archived.
#[derive(Clone, Debug, PartialEq, Eq)]
pub struct WalkdirAndGlobsetSource {
    /// The directory that is walked.
    pub src_dir: String,
    /// The directory inside the archive under which the files are put.
    pub dst_dir: String,
    /// The patterns; none stands for every file.
    pub globset: Vec<CustomDeserializedGlob>,
}

/// A configured source.
#[derive(Clone, Debug)]
pub enum ArchiveEntryConfig {
    /// A database snapshot.
    Sqlite(SqliteDBSource),
    /// Files of a directory.
    Glob(WalkdirAndGlobsetSource),
    /// Bytes given in the configuration.
    Base64(Base64Source),
}

impl Base64Source {
    /// The source of `content` under the path `dst`.
    pub fn new(content: Vec<u8>, dst: String) -> (source: Base64Source)
        ensures
            source.content@ == content@,
            source.dst == dst,
    {
        Base64Source { content: ArcVec::from(content), dst }
    }

    /// The one entry of the source: the bytes, under the configured path.
    /// It never fails.
    pub fn archive_entry_iterator(&self) -> (entries: Vec<Result<ArchiveEntry, Error>>)
        ensures
            entries@.len() == 1,
            entries@[0] matches Ok(entry) && entry.dst@ == self.dst@ && (entry.src matches ArchiveSource::Reader(
                bytes,
            ) && bytes@ == self.content@),
    {
        let bytes: Vec<u8> = copy_bytes(self.content.as_ref());
        let entry: ArchiveEntry = ArchiveEntry::new_reader(bytes, self.dst.clone());
        let mut entries: Vec<Result<ArchiveEntry, Error>> = Vec::new();
        entries.push(Ok(entry));
        entries
    }
}

/// A vector with the bytes of `bytes`.
pub fn copy_bytes(bytes: &[u8]) -> (copy: Vec<u8>)
    ensures
        copy@ == bytes@,
{
    let mut copy: Vec<u8> = Vec::new();
    let mut i: usize = 0;
    while i < bytes.len()
        invariant
            i <= bytes@.len(),
            copy@ == bytes@.subrange(0, i as int),
        decreases bytes.len() - i,
    {
        copy.push(bytes[i]);
        assert(copy@ =~= bytes@.subrange(0, i + 1));
        i += 1;
    }
    assert(bytes@.subrange(0, bytes@.len() as int) =~= bytes@);
    copy
}

impl SqliteDBSource {
    /// The source of the database at `src` under the path `dst`.
    pub fn new(src: String, dst: String) -> (source: SqliteDBSource)
        ensures
            source.src == src,
            source.dst == dst,
    {
        SqliteDBSource { src, dst }
    }

    /// The entry for a snapshot that was written to the file `snapshot`.
    pub fn create_archive_entry(&self, snapshot: String) -> (entry: ArchiveEntry)
        ensures
            entry.src == ArchiveSource::Path(snapshot),
            entry.dst@ == self.dst@,
    {
        ArchiveEntry::new_path(snapshot, self.dst.clone())
    }

    /// The one element of the source, given how taking the snapshot went:
    /// the entry for the snapshot file, or the error under the name of this
    /// function.
    pub fn archive_entry_iterator(&self, snapshot: Result<String, Error>) -> (entries: Vec<
        Result<ArchiveEntry, Error>,
    >)
        ensures
            entries@.len() == 1,
            match snapshot {
                Ok(file) => entries@[0] matches Ok(entry) && entry.src == ArchiveSource::Path(file)
                    && entry.dst@ == self.dst@,
                Err(e) => entries@[0] matches Err(wrapped) && wrapped.is_with_fn_name(
                    "archive_entry_iterator"@,
                    e,
                ),
            },
    {
        let element: Result<ArchiveEntry, Error> = match snapshot {
            Ok(file) => Ok(self.create_archive_entry(file)),
            Err(e) => Err(e.add_fn_name("archive_entry_iterator")),
        };
        let mut entries: Vec<Result<ArchiveEntry, Error>> = Vec::new();
        entries.push(element);
        entries
    }
}


/// A set of compiled glob patterns.
#[verifier::external_type_specification]
#[verifier::external_body]
pub struct ExGlobSet(globset::GlobSet);

/// The patterns that a set of globs was built from.
pub uninterp spec fn glob_set_patterns(set: globset::GlobSet) -> Seq<Seq<char>>;

/// Whether `globset` accepts the pattern as a glob in which `*` does not
/// cross a path separator.
pub uninterp spec fn glob_is_valid(pattern: Seq<char>) -> bool;

/// The pattern that stands for every file.
pub open spec fn default_pattern() -> Seq<char> {
    "**/*"@
}

/// The texts of a list of patterns.
pub open spec fn pattern_texts(patterns: Seq<String>) -> Seq<Seq<char>> {
    Seq::new(patterns.len(), |i: int| patterns[i]@)
}

/// `GlobBuilder::new`, `literal_separator(true)` and `build`. Not proved:
/// that the result says whether the pattern is the valid glob named
/// `glob_is_valid`.
#[verifier::external_body]
fn glob_compiles(pattern: &str) -> (ok: bool)
    ensures
        ok == glob_is_valid(pattern@),
{
    globset::GlobBuilder::new(pattern).literal_separator(true).build().is_ok()
}

/// Whether `globset` builds a set from these patterns, each compiled as a
/// glob in which `*` does not cross a path separator.
pub uninterp spec fn glob_set_builds(patterns: Seq<Seq<char>>) -> bool;

/// `GlobSetBuilder::add` for each pattern, compiled as `glob_compiles`
/// does, and `GlobSetBuilder::build`. Not proved: that a set comes back
/// where `glob_set_builds` says so, and that a set that comes back holds
/// these patterns, each of them valid. `None` where a pattern is not valid
/// or the set cannot be built.
#[verifier::external_body]
fn build_glob_set(patterns: &Vec<String>) -> (res: Option<globset::GlobSet>)
    ensures
        res.is_some() == glob_set_builds(pattern_texts(patterns@)),
        res matches Some(set) ==> glob_set_patterns(set) == pattern_texts(patterns@) && forall|
            i: int,
        |
            0 <= i < patterns@.len() ==> glob_is_valid(#[trigger] patterns@[i]@),
{
    let mut builder = globset::GlobSetBuilder::new();
    for pattern in patterns.iter() {
        match globset::GlobBuilder::new(pattern).literal_separator(true).build() {
            Ok(glob) => {
                builder.add(glob);
            },
            Err(_) => return None,
        }
    }
    builder.build().ok()
}

/// Whether one of the patterns matches the path, as `GlobSet::is_match`
/// finds for a set that holds these patterns.
pub uninterp spec fn glob_set_matches(patterns: Seq<Seq<char>>, path: Seq<char>) -> bool;

/// The path relative to `base`, as `Path::strip_prefix` reads paths on the
/// platform the library is built for; `None` for a path that does not lie
/// below `base`.
pub uninterp spec fn path_stripped(path: Seq<char>, base: Seq<char>) -> Option<Seq<char>>;

/// The path `rel` below `base`, as `Path::join` writes paths on the
/// platform the library is built for.
pub uninterp spec fn path_joined(base: Seq<char>, rel: Seq<char>) -> Seq<char>;

/// `GlobSet::is_match`. Not proved: that the result is the one named
/// `glob_set_matches` for the patterns of the set and the path.
#[verifier::external_body]
fn glob_set_is_match(set: &globset::GlobSet, path: &str) -> (matched: bool)
    ensures
        matched == glob_set_matches(glob_set_patterns(*set), path@),
{
    set.is_match(path)
}

/// `Path::strip_prefix`, with the result as text. Not proved: that the
/// result is the one named `path_stripped`.
#[verifier::external_body]
fn strip_prefix(path: &str, base: &str) -> (rel: Option<String>)
    ensures
        rel.is_some() == path_stripped(path@, base@).is_some(),
        rel matches Some(r) ==> path_stripped(path@, base@) == Some(r@),
{
    match std::path::Path::new(path).strip_prefix(base) {
        Ok(rel) => match rel.to_str() {
            Some(text) => Some(text.to_owned()),
            None => None,
        },
        Err(_) => None,
    }
}

/// `Path::join`, with the result as text. Not proved: that the result is
/// the one named `path_joined`.
#[verifier::external_body]
fn join_path(base: &str, rel: &str) -> (joined: String)
    ensures
        joined@ == path_joined(base@, rel@),
{
    std::path::Path::new(base).join(rel).to_string_lossy().into_owned()
}

/// The message of the error for a file at `path` that does not lie below
/// the directory `base`.
pub open spec fn strip_failure(base: Seq<char>, path: Seq<char>) -> Seq<char> {
    "Stripping \""@ + base + "\" from \""@ + path + "\" failed"@
}

/// One thing that a walk of a directory came upon.
#[derive(Clone, Debug, PartialEq, Eq)]
pub enum WalkItem {
    /// An entry of the directory tree, and whether it is a regular file
    /// once symbolic links are followed.
    Found { path: String, is_file: bool },
    /// An entry that could not be read, with the reason.
    Failed(String),
}

/// How a file lies to the directory that is walked.
pub enum PathRelation {
    /// The file is not below the directory.
    NotBelow,
    /// The file is below the directory: whether its relative path matches
    /// one of the patterns, and its path inside the archive.
    Below { matched: bool, dst: String },
}

/// What becomes of an entry of the directory tree. Anything but a regular
/// file is passed over. A file that is not below the directory walked is an
/// error. A file whose relative path matches no pattern is passed over. Any
/// other file becomes an entry of the archive.
pub fn dir_entry_outcome(path: String, is_file: bool, relation: PathRelation, failure: String) -> (res:
    Option<Result<ArchiveEntry, Error>>)
    ensures
        !is_file ==> res.is_none(),
        is_file ==> match relation {
            PathRelation::NotBelow => res matches Some(Err(e)) && (exists|inner: Error|
                #[trigger] e.is_with_msg(failure@, inner) && *inner.inner is StripPrefixError),
            PathRelation::Below { matched, dst } => if matched {
                res == Some(
                    Ok::<ArchiveEntry, Error>(ArchiveEntry { src: ArchiveSource::Path(path), dst }),
                )
            } else {
                res.is_none()
            },
        },
{
    if !is_file {
        return None;
    }
    match relation {
        PathRelation::NotBelow => {
            let inner: Error = Error::strip_prefix_error("prefix not found");
            let e: Error = inner.add_msg(failure.as_str());
            assert(e.is_with_msg(failure@, inner));
            Some(Err(e))
        },
        PathRelation::Below { matched, dst } => {
            if matched {
                Some(Ok(ArchiveEntry::new_path(path, dst)))
            } else {
                None
            }
        },
    }
}

/// What becomes of an entry of the directory tree, for a walk of
/// `base_src_dir` whose files go below `base_dst_dir` in the archive.
///
/// Anything but a regular file is passed over. A file that does not lie
/// below `base_src_dir` is an error of its own. A file whose path relative
/// to `base_src_dir` matches none of the patterns of `globset` is passed
/// over. Any other file becomes an entry: its content is the file at
/// `path`, and its path in the archive is its relative path below
/// `base_dst_dir`.
pub fn process_dir_entry(
    path: String,
    is_file: bool,
    base_src_dir: &str,
    base_dst_dir: &str,
    globset: &globset::GlobSet,
) -> (res: Option<Result<ArchiveEntry, Error>>)
    ensures
        !is_file ==> res.is_none(),
        is_file ==> match path_stripped(path@, base_src_dir@) {
            None => res matches Some(Err(e)) && (exists|inner: Error|
                #[trigger] e.is_with_msg(strip_failure(base_src_dir@, path@), inner)
                    && *inner.inner is StripPrefixError),
            Some(rel) => if glob_set_matches(glob_set_patterns(*globset), rel) {
                res matches Some(Ok(entry)) && entry.src == ArchiveSource::Path(path)
                    && entry.dst@ == path_joined(base_dst_dir@, rel)
            } else {
                res.is_none()
            },
        },
{
    if !is_file {
        return None;
    }
    let relation: PathRelation = match strip_prefix(path.as_str(), base_src_dir) {
        Some(rel) => {
            let matched: bool = glob_set_is_match(globset, rel.as_str());
            PathRelation::Below { matched, dst: join_path(base_dst_dir, rel.as_str()) }
        },
        None => PathRelation::NotBelow,
    };
    let mut failure: String = "Stripping \"".to_owned();
    failure.append(base_src_dir);
    failure.append("\" from \"");
    failure.append(path.as_str());
    failure.append("\" failed");
    assert(failure@ == strip_failure(base_src_dir@, path@));
    dir_entry_outcome(path, is_file, relation, failure)
}

impl Default for CustomDeserializedGlob {
    /// The pattern that stands for every file.
    fn default() -> (res: CustomDeserializedGlob)
        ensures
            res.glob@ == default_pattern(),
    {
        CustomDeserializedGlob { glob: "**/*".to_owned() }
    }
}

impl CustomDeserializedGlob {
    /// The glob with the pattern `pattern`, or a validation error where the
    /// pattern is not a valid glob.
    pub fn parse(pattern: &str) -> (res: Result<CustomDeserializedGlob, Error>)
        ensures
            res.is_ok() == glob_is_valid(pattern@),
            res matches Ok(g) ==> g.glob@ == pattern@,
            res matches Err(e) ==> *e.inner is ValidationError,
    {
        if glob_compiles(pattern) {
            Ok(CustomDeserializedGlob { glob: pattern.to_owned() })
        } else {
            Err(Error::validation_error("invalid glob pattern"))
        }
    }

    /// The pattern as written.
    pub fn to_string(&self) -> (res: String)
        ensures
            res@ == self.glob@,
    {
        self.glob.clone()
    }
}

/// The globs used where none is configured: the one that stands for every
/// file.
pub fn default_globset() -> (res: Vec<CustomDeserializedGlob>)
    ensures
        res@.len() == 1,
        res@[0].glob@ == default_pattern(),
{
    let mut res: Vec<CustomDeserializedGlob> = Vec::new();
    res.push(CustomDeserializedGlob::default());
    res
}

/// What one item of a walk of `src_dir` gives, for a source whose files go
/// below `dst_dir` and that goes by `patterns`.
///
/// An item that could not be read gives an error with its reason. Anything
/// but a regular file gives nothing. A file that does not lie below
/// `src_dir` gives an error. A file whose path relative to `src_dir`
/// matches none of the patterns gives nothing. Any other file gives an
/// entry: its content is that file, and its path in the archive is its
/// relative path below `dst_dir`. Each error stands under the name of the
/// function that walks.
pub open spec fn outcome_fits(
    src_dir: Seq<char>,
    dst_dir: Seq<char>,
    patterns: Seq<Seq<char>>,
    item: WalkItem,
    outcome: Option<Result<ArchiveEntry, Error>>,
) -> bool {
    match item {
        WalkItem::Failed(reason) => outcome matches Some(Err(e)) && (exists|inner: Error|
            #[trigger] e.is_with_fn_name("archive_entry_iterator"@, inner) && *inner.inner is WalkDir
                && inner.inner.plain_text() == Some(reason@)),
        WalkItem::Found { path, is_file } => if !is_file {
            outcome.is_none()
        } else {
            match path_stripped(path@, src_dir) {
                None => outcome matches Some(Err(e)) && (exists|mid: Error, inner: Error|
                    #[trigger] e.is_with_fn_name("archive_entry_iterator"@, mid)
                        && #[trigger] mid.is_with_msg(strip_failure(src_dir, path@), inner)
                        && *inner.inner is StripPrefixError),
                Some(rel) => if glob_set_matches(patterns, rel) {
                    outcome matches Some(Ok(entry)) && (entry.src matches ArchiveSource::Path(p)
                        && p@ == path@) && entry.dst@ == path_joined(dst_dir, rel)
                } else {
                    outcome.is_none()
                },
            }
        },
    }
}

/// The outcomes that are there among the first `n`, in order.
pub open spec fn present(outcomes: Seq<Option<Result<ArchiveEntry, Error>>>, n: int) -> Seq<
    Result<ArchiveEntry, Error>,
>
    decreases n,
{
    if n <= 0 {
        Seq::empty()
    } else {
        match outcomes[n - 1] {
            Some(r) => present(outcomes, n - 1).push(r),
            None => present(outcomes, n - 1),
        }
    }
}

/// Whether `entries` are what the items of a walk give: each item gives
/// what `outcome_fits` says, and the entries are what the items give, in
/// the order of the walk.
pub open spec fn walk_shows(
    src_dir: Seq<char>,
    dst_dir: Seq<char>,
    patterns: Seq<Seq<char>>,
    walk: Seq<WalkItem>,
    entries: Seq<Result<ArchiveEntry, Error>>,
) -> bool {
    exists|outcomes: Seq<Option<Result<ArchiveEntry, Error>>>|
        outcomes.len() == walk.len() && (forall|j: int|
            0 <= j < walk.len() ==> outcome_fits(
                src_dir,
                dst_dir,
                patterns,
                walk[j],
                #[trigger] outcomes[j],
            )) && entries == #[trigger] present(outcomes, outcomes.len() as int)
}

impl WalkdirAndGlobsetSource {
    /// The source of the files of `src_dir`. Without `dst_dir` the files go
    /// to the top of the archive; without `globset` every file is taken.
    pub fn new(src_dir: String, dst_dir: Option<String>, globset: Option<Vec<CustomDeserializedGlob>>) -> (source:
        WalkdirAndGlobsetSource)
        ensures
            source.src_dir == src_dir,
            match dst_dir {
                Some(d) => source.dst_dir == d,
                None => source.dst_dir@.len() == 0,
            },
            match globset {
                Some(g) => source.globset == g,
                None => source.globset@.len() == 1 && source.globset@[0].glob@ == default_pattern(),
            },
    {
        let dst_dir: String = match dst_dir {
            Some(d) => d,
            None => String::new(),
        };
        let globset: Vec<CustomDeserializedGlob> = match globset {
            Some(g) => g,
            None => default_globset(),
        };
        WalkdirAndGlobsetSource { src_dir, dst_dir, globset }
    }

    /// The patterns that the source goes by: those configured, or the one
    /// that stands for every file where none is configured.
    pub open spec fn effective_patterns(self) -> Seq<Seq<char>> {
        if self.globset@.len() == 0 {
            seq![default_pattern()]
        } else {
            Seq::new(self.globset@.len(), |i: int| self.globset@[i].glob@)
        }
    }

    /// The patterns that the source goes by.
    pub fn patterns(&self) -> (res: Vec<String>)
        ensures
            pattern_texts(res@) == self.effective_patterns(),
    {
        let mut res: Vec<String> = Vec::new();
        if self.globset.len() == 0 {
            res.push(CustomDeserializedGlob::default().glob);
            assert(pattern_texts(res@) =~= seq![default_pattern()]);
            return res;
        }
        let mut i: usize = 0;
        while i < self.globset.len()
            invariant
                i <= self.globset@.len(),
                res@.len() == i,
                forall|j: int| 0 <= j < i ==> (#[trigger] res@[j])@ == self.globset@[j].glob@,
            decreases self.globset.len() - i,
        {
            res.push(self.globset[i].glob.clone());
            i += 1;
        }
        assert(pattern_texts(res@) =~= self.effective_patterns());
        res
    }

    /// Whether `entries` are the entries of the source, given whether
    /// `src_dir` is a directory and what a walk of it came upon.
    ///
    /// A source whose `src_dir` is no directory gives one element, an error.
    /// So does a source from whose patterns no set of globs can be built.
    /// Else each item of the walk gives what `outcome_fits` says, in the
    /// order of the walk.
    pub open spec fn yields(
        self,
        src_is_dir: bool,
        walk: Seq<WalkItem>,
        entries: Seq<Result<ArchiveEntry, Error>>,
    ) -> bool {
        if !src_is_dir {
            entries.len() == 1 && (entries[0] matches Err(e) && *e.inner is Io
                && e.inner.plain_text() == Some("src_dir is not a directory"@))
        } else if !glob_set_builds(self.effective_patterns()) {
            entries.len() == 1 && (entries[0] matches Err(e) && *e.inner is ValidationError)
        } else {
            walk_shows(self.src_dir@, self.dst_dir@, self.effective_patterns(), walk, entries)
        }
    }

    /// The entries of the source, given whether `src_dir` is a directory and
    /// what a walk of it came upon.
    ///
    /// The call itself never fails. A source that fails as a whole gives
    /// its error as the only element of the sequence. An item that could
    /// not be read, and a file that does not lie below `src_dir`, is an
    /// error of its own and does not end the sequence.
    pub fn archive_entry_iterator(&self, src_is_dir: bool, walk: &Vec<WalkItem>) -> (res: Result<
        Vec<Result<ArchiveEntry, Error>>,
        Error,
    >)
        ensures
            res matches Ok(entries) && self.yields(src_is_dir, walk@, entries@),
    {
        if !src_is_dir {
            return Ok(single_error(Error::io("src_dir is not a directory")));
        }
        let patterns: Vec<String> = self.patterns();
        let globset: globset::GlobSet = match build_glob_set(&patterns) {
            Some(set) => set,
            None => {
                return Ok(
                    single_error(Error::validation_error("glob patterns cannot be compiled")),
                );
            },
        };
        let ghost src = self.src_dir@;
        let ghost dst = self.dst_dir@;
        let ghost pats = self.effective_patterns();
        let mut entries: Vec<Result<ArchiveEntry, Error>> = Vec::new();
        let ghost mut outcomes: Seq<Option<Result<ArchiveEntry, Error>>> = Seq::empty();
        let mut j: usize = 0;
        while j < walk.len()
            invariant
                j <= walk@.len(),
                src == self.src_dir@,
                dst == self.dst_dir@,
                pats == self.effective_patterns(),
                glob_set_patterns(globset) == pats,
                outcomes.len() == j,
                forall|k: int|
                    0 <= k < j ==> outcome_fits(src, dst, pats, walk@[k], #[trigger] outcomes[k]),
                entries@ == present(outcomes, j as int),
            decreases walk.len() - j,
        {
            let outcome: Option<Result<ArchiveEntry, Error>> = match &walk[j] {
                WalkItem::Found { path, is_file } => {
                    match process_dir_entry(
                        path.clone(),
                        *is_file,
                        self.src_dir.as_str(),
                        self.dst_dir.as_str(),
                        &globset,
                    ) {
                        None => None,
                        Some(Ok(entry)) => Some(Ok(entry)),
                        Some(Err(e)) => {
                            let wrapped: Error = e.add_fn_name("archive_entry_iterator");
                            proof {
                                let inner = choose|inner: Error|
                                    #[trigger] e.is_with_msg(strip_failure(src, path@), inner)
                                        && *inner.inner is StripPrefixError;
                                assert(wrapped.is_with_fn_name("archive_entry_iterator"@, e)
                                    && e.is_with_msg(strip_failure(src, path@), inner));
                            }
                            Some(Err(wrapped))
                        },
                    }
                },
                WalkItem::Failed(reason) => {
                    let inner: Error = Error::walk_dir(reason.as_str());
                    let wrapped: Error = inner.add_fn_name("archive_entry_iterator");
                    assert(wrapped.is_with_fn_name("archive_entry_iterator"@, inner));
                    Some(Err(wrapped))
                },
            };
            proof {
                let before = outcomes;
                outcomes = outcomes.push(outcome);
                assert(outcome_fits(src, dst, pats, walk@[j as int], outcome));
                assert forall|k: int| 0 <= k < j + 1 implies outcome_fits(
                    src,
                    dst,
                    pats,
                    walk@[k],
                    #[trigger] outcomes[k],
                ) by {
                    if k < j {
                        assert(outcomes[k] == before[k]);
                    }
                }
                lemma_present_prefix(before, outcomes, j as int);
            }
            match outcome {
                Some(r) => {
                    entries.push(r);
                },
                None => {},
            }
            j += 1;
        }
        assert(outcomes.len() == walk@.len() && entries@ == present(outcomes, outcomes.len() as int));
        Ok(entries)
    }
}

/// A source without patterns goes by the same patterns as a source with
/// the one pattern that stands for every file.
pub proof fn law_empty_globset_is_default(a: WalkdirAndGlobsetSource, b: WalkdirAndGlobsetSource)
    requires
        a.globset@.len() == 0,
        b.globset@.len() == 1,
        b.globset@[0].glob@ == default_pattern(),
    ensures
        a.effective_patterns() == b.effective_patterns(),
{
    assert(a.effective_patterns() =~= b.effective_patterns());
}

/// A source without patterns yields what a source yields that has the one
/// pattern that stands for every file and is the same otherwise: whatever
/// the walk, the same sequences are the entries of the one and of the
/// other.
pub proof fn law_empty_globset_yields_as_default(
    a: WalkdirAndGlobsetSource,
    b: WalkdirAndGlobsetSource,
    src_is_dir: bool,
    walk: Seq<WalkItem>,
    entries: Seq<Result<ArchiveEntry, Error>>,
)
    requires
        a.src_dir@ == b.src_dir@,
        a.dst_dir@ == b.dst_dir@,
        a.globset@.len() == 0,
        b.globset@.len() == 1,
        b.globset@[0].glob@ == default_pattern(),
    ensures
        a.yields(src_is_dir, walk, entries) == b.yields(src_is_dir, walk, entries),
{
    law_empty_globset_is_default(a, b);
}

/// What is there among the first `n` outcomes depends on those alone.
pub proof fn lemma_present_prefix(
    a: Seq<Option<Result<ArchiveEntry, Error>>>,
    b: Seq<Option<Result<ArchiveEntry, Error>>>,
    n: int,
)
    requires
        0 <= n <= a.len(),
        n <= b.len(),
        forall|i: int| 0 <= i < n ==> a[i] == b[i],
    ensures
        present(a, n) == present(b, n),
    decreases n,
{
    if n > 0 {
        lemma_present_prefix(a, b, n - 1);
    }
}

/// What a source is given to work on: what only the world outside can tell.
pub enum SourceInput {
    /// How taking the snapshot of a database went: the file that holds it,
    /// or the error.
    Snapshot(Result<String, Error>),
    /// Whether the directory to walk is one, and what the walk came upon.
    Walk { src_is_dir: bool, items: Vec<WalkItem> },
    /// Nothing: the source has all it needs.
    Nothing,
}

impl ArchiveEntryConfig {
    /// The entries of the source, as results. A source that fails as a
    /// whole gives its error as the only element, and so does a source that
    /// is handed an input meant for another kind of source.
    pub fn archive_entry_iterator(&self, input: SourceInput) -> (entries: Vec<
        Result<ArchiveEntry, Error>,
    >)
        ensures
            match (*self, input) {
                (ArchiveEntryConfig::Base64(source), _) => entries@.len() == 1
                    && (entries@[0] matches Ok(entry) && entry.dst@ == source.dst@
                    && (entry.src matches ArchiveSource::Reader(bytes) && bytes@
                    == source.content@)),
                (ArchiveEntryConfig::Sqlite(source), SourceInput::Snapshot(Ok(file))) => entries@.len()
                    == 1 && (entries@[0] matches Ok(entry) && entry.src == ArchiveSource::Path(file)
                    && entry.dst@ == source.dst@),
                (ArchiveEntryConfig::Sqlite(source), SourceInput::Snapshot(Err(e))) => entries@.len()
                    == 1 && (entries@[0] matches Err(w) && w.is_with_fn_name(
                    "archive_entry_iterator"@,
                    e,
                )),
                (ArchiveEntryConfig::Glob(source), SourceInput::Walk { src_is_dir, items }) => source.yields(
                    src_is_dir,
                    items@,
                    entries@,
                ),
                _ => entries@.len() == 1 && (entries@[0] matches Err(e) && *e.inner is Io),
            },
    {
        match self {
            ArchiveEntryConfig::Base64(source) => source.archive_entry_iterator(),
            ArchiveEntryConfig::Sqlite(source) => match input {
                SourceInput::Snapshot(snapshot) => source.archive_entry_iterator(snapshot),
                _ => single_error(Error::io("a database source needs a snapshot")),
            },
            ArchiveEntryConfig::Glob(source) => match input {
                SourceInput::Walk { src_is_dir, items } => {
                    match source.archive_entry_iterator(src_is_dir, &items) {
                        Ok(entries) => entries,
                        Err(e) => single_error(e),
                    }
                },
                _ => single_error(Error::io("a directory source needs a walk")),
            },
        }
    }
}

/// The sequence whose only element is the error.
pub fn single_error(error: Error) -> (entries: Vec<Result<ArchiveEntry, Error>>)
    ensures
        entries@.len() == 1,
        entries@[0] == Err::<ArchiveEntry, Error>(error),
{
    let mut entries: Vec<Result<ArchiveEntry, Error>> = Vec::new();
    entries.push(Err(error));
    entries
}

} // verus!
