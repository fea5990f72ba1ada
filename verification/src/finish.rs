//! Closing a stage of the pipeline.

use vstd::prelude::*;

verus! {

/// The error of an input or output operation of the standard library.
#[verifier::external_type_specification]
#[verifier::external_body]
pub struct ExIoError(std::io::Error);

/// A stage that wraps a writer and hands it back when it is closed.
pub trait Finish<O> {
    /// Writes what the stage still holds and returns the writer below it.
    fn finish(self) -> Result<O, std::io::Error>;
}

} // verus!
