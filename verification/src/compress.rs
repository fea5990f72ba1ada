//! The compression stage: its configuration and what it asks of the encoder.

use crate::error::Error;
use crate::file_ext::FileExtProvider;
use vstd::prelude::*;

verus! {

/// The level used where none is configured.
pub const DEFAULT_COMPRESSION_LEVEL: u32 = 3;

/// The greatest number of worker threads.
pub const DEFAULT_MAX_PARALLELIZATION: usize = 32;

/// The highest level of the encoder.
pub const MAX_COMPRESSION_LEVEL: u32 = 9;

/// `SaturatingCast::saturating_cast` from `usize` to `u32`. Not proved: that
/// the result is the value itself where it fits and the greatest `u32` where
/// it does not.
#[verifier::external_body]
fn saturating_u32(value: usize) -> (res: u32)
    ensures
        res == if value <= u32::MAX {
            value as int
        } else {
            u32::MAX as int
        },
{
    saturating_cast::SaturatingCast::saturating_cast::<u32>(value)
}

/// The level used where none is configured.
pub fn default_level() -> (level: u32)
    ensures
        level == DEFAULT_COMPRESSION_LEVEL,
{
    DEFAULT_COMPRESSION_LEVEL
}

/// The number of worker threads for a machine with `cores` cores: half of
/// them, at least 1 and at most 32; 1 where the number of cores is unknown.
pub open spec fn thread_default(cores: Option<usize>) -> int {
    match cores {
        None => 1,
        Some(c) => if c / 2 < 1 {
            1
        } else if c / 2 > DEFAULT_MAX_PARALLELIZATION {
            DEFAULT_MAX_PARALLELIZATION as int
        } else {
            (c / 2) as int
        },
    }
}

/// The number of worker threads used where none is configured.
pub fn default_thread(cores: Option<usize>) -> (thread: usize)
    ensures
        thread == thread_default(cores),
        1 <= thread <= DEFAULT_MAX_PARALLELIZATION,
{
    match cores {
        None => 1,
        Some(c) => {
            let half: usize = c / 2;
            if half < 1 {
                1
            } else if half > DEFAULT_MAX_PARALLELIZATION {
                DEFAULT_MAX_PARALLELIZATION
            } else {
                half
            }
        },
    }
}

/// The settings of the LZMA encoder.
#[derive(Clone, Copy, Debug, PartialEq, Eq, Structural)]
pub struct XzConfig {
    /// The preset level, 0 to 9.
    pub level: u32,
    /// The number of worker threads, 1 or more.
    pub thread: usize,
}

/// What the compression stage asks of the encoder.
#[derive(Clone, Copy, Debug, PartialEq, Eq, Structural)]
pub enum CompressorStage {
    /// The bytes pass unchanged.
    Identity,
    /// A stream on one thread at a preset level.
    Xz { level: u32 },
    /// A stream on several threads at a preset level, with a CRC64 check.
    XzParallel { level: u32, threads: u32 },
}

impl XzConfig {
    /// The settings as given.
    pub fn new(level: u32, thread: usize) -> (config: XzConfig)
        ensures
            config.level == level,
            config.thread == thread,
    {
        XzConfig { level, thread }
    }

    /// Whether the level is at most 9 and there is at least one thread.
    pub open spec fn valid(self) -> bool {
        self.level <= MAX_COMPRESSION_LEVEL && self.thread >= 1
    }

    /// `Ok` for valid settings, else a validation error.
    pub fn validate(&self) -> (res: Result<(), Error>)
        ensures
            res.is_ok() <==> self.valid(),
            res matches Err(e) ==> *e.inner is ValidationError,
    {
        if self.level > MAX_COMPRESSION_LEVEL {
            Err(Error::validation_error("level must be between 0 and 9"))
        } else if self.thread < 1 {
            Err(Error::validation_error("thread must be at least 1"))
        } else {
            Ok(())
        }
    }

    /// The stage for these settings.
    pub open spec fn stage(self) -> CompressorStage {
        if self.thread == 1 {
            CompressorStage::Xz { level: self.level }
        } else {
            CompressorStage::XzParallel {
                level: self.level,
                threads: if self.thread < 1 {
                    1u32
                } else if self.thread > DEFAULT_MAX_PARALLELIZATION {
                    DEFAULT_MAX_PARALLELIZATION as u32
                } else {
                    self.thread as u32
                },
            }
        }
    }

    /// What to ask of the encoder: one thread gives a plain stream; any other
    /// number a stream on that many threads, held to 1 to 32.
    pub fn build_compressor(&self) -> (stage: CompressorStage)
        ensures
            stage == self.stage(),
    {
        if self.thread == 1 {
            CompressorStage::Xz { level: self.level }
        } else {
            let wanted: u32 = saturating_u32(self.thread);
            let threads: u32 = if wanted < 1 {
                1
            } else if wanted > 32 {
                32
            } else {
                wanted
            };
            CompressorStage::XzParallel { level: self.level, threads }
        }
    }
}

impl Default for XzConfig {
    /// The default level on one thread.
    fn default() -> (config: XzConfig)
        ensures
            config.level == DEFAULT_COMPRESSION_LEVEL,
            config.thread == 1,
            config.valid(),
    {
        XzConfig { level: default_level(), thread: 1 }
    }
}

/// Whether and how the archive is compressed.
#[derive(Clone, Copy, Debug, PartialEq, Eq, Structural)]
pub enum CompressorConfig {
    /// No compression.
    NoCompression,
    /// LZMA.
    Xz(XzConfig),
}

impl Default for CompressorConfig {
    /// No compression.
    fn default() -> (config: CompressorConfig)
        ensures
            config == CompressorConfig::NoCompression,
    {
        CompressorConfig::NoCompression
    }
}

impl CompressorConfig {
    /// Whether the settings are valid.
    pub open spec fn valid(self) -> bool {
        match self {
            CompressorConfig::NoCompression => true,
            CompressorConfig::Xz(xz) => xz.valid(),
        }
    }

    /// The extension that the stage adds to the name of an archive.
    pub open spec fn ext(self) -> Option<Seq<char>> {
        match self {
            CompressorConfig::NoCompression => None,
            CompressorConfig::Xz(_) => Some(seq!['x', 'z']),
        }
    }

    /// The stage for these settings.
    pub open spec fn stage(self) -> CompressorStage {
        match self {
            CompressorConfig::NoCompression => CompressorStage::Identity,
            CompressorConfig::Xz(xz) => xz.stage(),
        }
    }

    /// `Ok` for valid settings, else a validation error.
    pub fn validate(&self) -> (res: Result<(), Error>)
        ensures
            res.is_ok() <==> self.valid(),
            res matches Err(e) ==> *e.inner is ValidationError,
    {
        match self {
            CompressorConfig::NoCompression => Ok(()),
            CompressorConfig::Xz(xz) => xz.validate(),
        }
    }

    /// What to ask of the encoder.
    pub fn build_compressor(&self) -> (stage: CompressorStage)
        ensures
            stage == self.stage(),
    {
        match self {
            CompressorConfig::NoCompression => CompressorStage::Identity,
            CompressorConfig::Xz(xz) => xz.build_compressor(),
        }
    }

    /// The characters of the extension, if there is one.
    pub fn ext_chars(&self) -> (res: Option<Vec<char>>)
        ensures
            res.is_some() == self.ext().is_some(),
            res matches Some(v) ==> v@ == self.ext().unwrap(),
    {
        match self {
            CompressorConfig::NoCompression => None,
            CompressorConfig::Xz(_) => {
                let mut v: Vec<char> = Vec::new();
                v.push('x');
                v.push('z');
                assert(v@ =~= seq!['x', 'z']);
                Some(v)
            },
        }
    }
}

impl FileExtProvider for CompressorConfig {
    /// `xz` where the archive is compressed.
    fn file_ext(&self) -> (res: Option<String>)
        ensures
            res.is_some() == self.ext().is_some(),
            res matches Some(s) ==> s@ == self.ext().unwrap(),
    {
        match self.ext_chars() {
            None => None,
            Some(v) => Some(crate::text::string_of(&v)),
        }
    }
}

} // verus!
