//! A secret that never shows in a printed or stored form.

use crate::error::Error;
use vstd::prelude::*;

verus! {

/// What stands in place of a secret wherever it would be printed or stored.
pub const REDACTED_PASSPHRASE: &'static str = "###REDACTED_PASSPHRASE###";

/// The least number of characters of a secret.
pub const MIN_SECRET_LEN: usize = 8;

/// `Zeroize::zeroize` on a string. Not proved: that the string is empty
/// afterwards. Its bytes are overwritten with zeros before they are given up.
#[verifier::external_body]
fn wipe(s: &mut String)
    ensures
        final(s)@.len() == 0,
    opens_invariants none
    no_unwind
{
    zeroize::Zeroize::zeroize(s);
}

/// A passphrase. Its printed and stored forms are a fixed token.
#[derive(Clone, PartialEq, Eq)]
pub struct RedactedString {
    inner: String,
}

impl RedactedString {
    /// The secret as it is.
    pub closed spec fn secret(self) -> Seq<char> {
        self.inner@
    }

    /// Whether the secret is long enough: eight characters or more.
    pub open spec fn valid(self) -> bool {
        self.secret().len() >= MIN_SECRET_LEN
    }

    /// Wraps a secret of any length.
    pub fn new(inner: &str) -> (res: RedactedString)
        ensures
            res.secret() == inner@,
    {
        RedactedString { inner: inner.to_owned() }
    }

    /// The secret as it is.
    pub fn inner(&self) -> (res: &String)
        ensures
            res@ == self.secret(),
    {
        &self.inner
    }

    /// `Ok` for a secret of eight characters or more, else a validation error.
    pub fn validate(&self) -> (res: Result<(), Error>)
        ensures
            res.is_ok() <==> self.valid(),
            res matches Err(e) ==> *e.inner is ValidationError,
    {
        if self.inner.as_str().unicode_len() >= MIN_SECRET_LEN {
            Ok(())
        } else {
            Err(Error::validation_error("passphrase must be at least 8 characters long"))
        }
    }

    /// The form in which the secret is printed: the token, never the secret.
    pub fn debug_string(&self) -> (res: String)
        ensures
            res@ == REDACTED_PASSPHRASE@,
    {
        REDACTED_PASSPHRASE.to_owned()
    }

    /// The form in which the secret is stored: the token, never the secret.
    pub fn serialized(&self) -> (res: String)
        ensures
            res@ == REDACTED_PASSPHRASE@,
    {
        REDACTED_PASSPHRASE.to_owned()
    }

    /// Overwrites the secret with zeros and leaves it empty.
    pub fn zeroize(&mut self)
        ensures
            final(self).secret().len() == 0,
    {
        wipe(&mut self.inner);
    }
}

impl Drop for RedactedString {
    /// Overwrites the secret with zeros before its storage is given up.
    fn drop(&mut self)
        opens_invariants none
        no_unwind
    {
        wipe(&mut self.inner);
    }
}

} // verus!
