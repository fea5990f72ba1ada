//! The part that a stage of the pipeline adds to the name of an archive.

use vstd::prelude::*;

verus! {

/// Something that may add an extension to the name of an archive.
pub trait FileExtProvider {
    /// The extension, without a dot, or `None` where nothing is added.
    fn file_ext(&self) -> Option<String>;
}

} // verus!
