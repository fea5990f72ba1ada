//! The rules on the values of a configuration.
//!
//! What only the file system can tell is handed in: whether a path exists
//! and is a directory, how creating it went, whether it can be written to,
//! how opening a database went.

use crate::archive::{ArchiveEntryConfig, SqliteDBSource, WalkdirAndGlobsetSource};
use crate::backup_config::BackupConfig;
use crate::error::Error;
use crate::schedule::{cron_next_after, validate_cron_str};
use crate::text::chars_of;
use crate::timestamp::Timestamp;
use vstd::prelude::*;

verus! {

/// The greatest number of characters of the base name of an archive.
pub const MAX_BASE_NAME_LEN: usize = 100;

/// What the file system says of a path.
#[derive(Clone, Copy, Debug, PartialEq, Eq, Structural)]
pub struct DirState {
    /// Whether something is there.
    pub exists: bool,
    /// Whether it is a directory.
    pub is_dir: bool,
}

/// What the file system says of a source.
pub enum SourceProbe {
    /// How opening the database for reading went.
    Opened(Result<(), String>),
    /// What is at the directory to walk.
    Dir(DirState),
    /// Nothing was asked.
    Nothing,
}

/// Whether a name may be the base name of an archive: no `/`, no NUL, and
/// at most 100 characters.
pub open spec fn valid_base_name(name: Seq<char>) -> bool {
    &&& name.len() <= MAX_BASE_NAME_LEN
    &&& forall|i: int| 0 <= i < name.len() ==> #[trigger] name[i] != '/' && name[i] != '\0'
}

/// `Ok` for a name that may be the base name of an archive, else a
/// validation error.
pub fn validate_valid_archive_base_name(name: &str) -> (res: Result<(), Error>)
    ensures
        res.is_ok() == valid_base_name(name@),
        res matches Err(e) ==> *e.inner is ValidationError,
{
    let chars: Vec<char> = chars_of(name);
    let mut i: usize = 0;
    while i < chars.len()
        invariant
            i <= chars@.len(),
            chars@ == name@,
            forall|j: int| 0 <= j < i ==> #[trigger] chars@[j] != '/' && chars@[j] != '\0',
        decreases chars.len() - i,
    {
        let c: char = chars[i];
        if c == '/' || c == '\0' {
            return Err(
                Error::validation_error("Invalid archive_base_name, must not contain '/' or null"),
            );
        }
        i += 1;
    }
    if chars.len() > MAX_BASE_NAME_LEN {
        return Err(Error::validation_error("Invalid archive_base_name, maximum len is 100"));
    }
    Ok(())
}

/// `Ok` for a directory that is there, else a validation error.
pub fn validate_dir_exist(state: DirState) -> (res: Result<(), Error>)
    ensures
        res.is_ok() == (state.exists && state.is_dir),
        res matches Err(e) ==> *e.inner is ValidationError,
{
    if state.exists {
        if !state.is_dir {
            return Err(Error::validation_error("path is not a directory"));
        }
    } else {
        return Err(Error::validation_error("directory not found"));
    }
    Ok(())
}

/// Whether a directory is there or was made: it is there as a directory,
/// or nothing was there and making it went well.
pub open spec fn dir_there_or_made(state: DirState, created: Option<Result<(), String>>) -> bool {
    if state.exists {
        state.is_dir
    } else {
        created matches Some(Ok(_))
    }
}

/// `Ok` for a directory that is there, or that was made where nothing was
/// there; else a validation error. `created` tells how making it went, and
/// is looked at only where nothing was there.
pub fn validate_dir_exist_or_created(state: DirState, created: Option<Result<(), String>>) -> (res:
    Result<(), Error>)
    ensures
        res.is_ok() == dir_there_or_made(state, created),
        res matches Err(e) ==> *e.inner is ValidationError,
{
    if state.exists {
        if !state.is_dir {
            return Err(Error::validation_error("path is not a directory"));
        }
        Ok(())
    } else {
        match created {
            Some(Ok(_)) => Ok(()),
            Some(Err(reason)) => {
                let mut text: String = "cannot create or access out_dir path: ".to_owned();
                text.append(reason.as_str());
                Err(Error::validation_error(text.as_str()))
            },
            None => Err(Error::validation_error("cannot create or access out_dir path")),
        }
    }
}

/// `Ok` for a directory that is there or was made and that can be written
/// to, else a validation error. `readonly` tells what its metadata say, or
/// why they could not be read.
pub fn validate_writable_dir(
    state: DirState,
    created: Option<Result<(), String>>,
    readonly: Result<bool, String>,
) -> (res: Result<(), Error>)
    ensures
        res.is_ok() == (dir_there_or_made(state, created) && readonly == Ok::<bool, String>(false)),
        res matches Err(e) ==> *e.inner is ValidationError,
{
    match validate_dir_exist_or_created(state, created) {
        Err(e) => Err(e),
        Ok(_) => match readonly {
            Err(reason) => {
                let mut text: String = "cannot access metadata: ".to_owned();
                text.append(reason.as_str());
                Err(Error::validation_error(text.as_str()))
            },
            Ok(true) => Err(Error::validation_error("cannot write to dir")),
            Ok(false) => Ok(()),
        },
    }
}

/// `Ok` for a database that could be opened for reading, else a validation
/// error with the reason.
pub fn validate_sql_file(opened: Result<(), String>) -> (res: Result<(), Error>)
    ensures
        res.is_ok() == opened.is_ok(),
        res matches Err(e) ==> *e.inner is ValidationError,
{
    match opened {
        Ok(_) => Ok(()),
        Err(reason) => {
            let mut text: String = "cannot open sql file: ".to_owned();
            text.append(reason.as_str());
            Err(Error::validation_error(text.as_str()))
        },
    }
}

impl SqliteDBSource {
    /// `Ok` where the database could be opened for reading.
    pub fn validate(&self, opened: Result<(), String>) -> (res: Result<(), Error>)
        ensures
            res.is_ok() == opened.is_ok(),
            res matches Err(e) ==> *e.inner is ValidationError,
    {
        validate_sql_file(opened)
    }
}

impl WalkdirAndGlobsetSource {
    /// `Ok` where the directory to walk is there.
    pub fn validate(&self, state: DirState) -> (res: Result<(), Error>)
        ensures
            res.is_ok() == (state.exists && state.is_dir),
            res matches Err(e) ==> *e.inner is ValidationError,
    {
        validate_dir_exist(state)
    }
}

impl ArchiveEntryConfig {
    /// Whether the source is valid, given what the file system says of it.
    pub open spec fn valid(self, probe: SourceProbe) -> bool {
        match (self, probe) {
            (ArchiveEntryConfig::Sqlite(_), SourceProbe::Opened(opened)) => opened.is_ok(),
            (ArchiveEntryConfig::Glob(_), SourceProbe::Dir(state)) => state.exists && state.is_dir,
            (ArchiveEntryConfig::Base64(_), _) => true,
            _ => false,
        }
    }

    /// `Ok` for a valid source, else a validation error. A source that is
    /// handed what was asked of another kind of source is not valid.
    pub fn validate(&self, probe: SourceProbe) -> (res: Result<(), Error>)
        ensures
            res.is_ok() == self.valid(probe),
            res matches Err(e) ==> *e.inner is ValidationError,
    {
        match self {
            ArchiveEntryConfig::Base64(_) => Ok(()),
            ArchiveEntryConfig::Sqlite(source) => match probe {
                SourceProbe::Opened(opened) => source.validate(opened),
                _ => Err(Error::validation_error("a database source must be opened")),
            },
            ArchiveEntryConfig::Glob(source) => match probe {
                SourceProbe::Dir(state) => source.validate(state),
                _ => Err(Error::validation_error("a directory source must be looked at")),
            },
        }
    }
}

impl BackupConfig {
    /// Whether the configuration is valid at the moment `now`: the cron
    /// expression fires again, the base name may be one, and the output
    /// directory is there or was made and can be written to.
    pub open spec fn valid(
        self,
        now: Timestamp,
        out_dir: DirState,
        created: Option<Result<(), String>>,
        readonly: Result<bool, String>,
    ) -> bool {
        &&& cron_next_after(self.cron@, now.epoch_secs(), now.subsec()).is_some()
        &&& valid_base_name(self.archive_base_name@)
        &&& dir_there_or_made(out_dir, created)
        &&& readonly == Ok::<bool, String>(false)
    }

    /// `Ok` for a valid configuration, else the list of the rules that are
    /// broken: at most one for the cron expression, one for the base name
    /// and one for the output directory, in this order.
    pub fn validate(
        &self,
        now: Timestamp,
        out_dir: DirState,
        created: Option<Result<(), String>>,
        readonly: Result<bool, String>,
    ) -> (res: Result<(), Error>)
        ensures
            res.is_ok() == self.valid(now, out_dir, created, readonly),
            res matches Err(e) ==> e.is_list() && e.well_formed() && 1 <= e.parts().len() <= 3
                && forall|i: int|
                0 <= i < e.parts().len() ==> *(#[trigger] e.parts()[i]).inner is ValidationError,
    {
        let mut errors: Vec<Error> = Vec::new();
        match validate_cron_str(self.cron.as_str(), now) {
            Ok(_) => {},
            Err(e) => {
                errors.push(e);
            },
        }
        match validate_valid_archive_base_name(self.archive_base_name.as_str()) {
            Ok(_) => {},
            Err(e) => {
                errors.push(e);
            },
        }
        match validate_writable_dir(out_dir, created, readonly) {
            Ok(_) => {},
            Err(e) => {
                errors.push(e);
            },
        }
        proof {
            Error::lemma_all_well_formed(errors@);
        }
        crate::error::convert_error_vec(errors)
    }
}

} // verus!
