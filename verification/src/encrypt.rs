//! The encryption stage: its configuration and what it asks of the cipher.

use crate::error::Error;
use crate::file_ext::FileExtProvider;
use crate::redacted::RedactedString;
use vstd::prelude::*;

verus! {

/// How the key of the cipher is given.
#[derive(Clone, PartialEq, Eq)]
pub enum AgeEncryptorConfig {
    /// By a passphrase of eight characters or more.
    Passphrase { passphrase: RedactedString },
}

/// What the encryption stage asks of the cipher.
pub enum EncryptorStage<'a> {
    /// The bytes pass unchanged.
    Identity,
    /// A stream under a key made from the passphrase.
    Passphrase(&'a RedactedString),
}

impl AgeEncryptorConfig {
    /// Whether the passphrase is long enough.
    pub open spec fn valid(self) -> bool {
        match self {
            AgeEncryptorConfig::Passphrase { passphrase } => passphrase.valid(),
        }
    }

    /// `Ok` for a passphrase of eight characters or more, else a validation
    /// error.
    pub fn validate(&self) -> (res: Result<(), Error>)
        ensures
            res.is_ok() <==> self.valid(),
            res matches Err(e) ==> *e.inner is ValidationError,
    {
        match self {
            AgeEncryptorConfig::Passphrase { passphrase } => passphrase.validate(),
        }
    }

    /// What to ask of the cipher.
    pub fn build_encryptor(&self) -> (stage: EncryptorStage<'_>)
        ensures
            match *self {
                AgeEncryptorConfig::Passphrase { passphrase } => stage matches EncryptorStage::Passphrase(
                    p,
                ) && *p == passphrase,
            },
    {
        match self {
            AgeEncryptorConfig::Passphrase { passphrase } => EncryptorStage::Passphrase(passphrase),
        }
    }
}

/// Whether and how the archive is encrypted.
#[derive(Clone, PartialEq, Eq)]
pub enum EncryptorConfig {
    /// No encryption.
    NoEncryption,
    /// Authenticated encryption under a passphrase.
    Age(AgeEncryptorConfig),
}

impl Default for EncryptorConfig {
    /// No encryption.
    fn default() -> (config: EncryptorConfig)
        ensures
            config == EncryptorConfig::NoEncryption,
    {
        EncryptorConfig::NoEncryption
    }
}

impl EncryptorConfig {
    /// Whether the settings are valid.
    pub open spec fn valid(self) -> bool {
        match self {
            EncryptorConfig::NoEncryption => true,
            EncryptorConfig::Age(age) => age.valid(),
        }
    }

    /// The extension that the stage adds to the name of an archive.
    pub open spec fn ext(self) -> Option<Seq<char>> {
        match self {
            EncryptorConfig::NoEncryption => None,
            EncryptorConfig::Age(_) => Some(seq!['a', 'g', 'e']),
        }
    }

    /// `Ok` for valid settings, else a validation error.
    pub fn validate(&self) -> (res: Result<(), Error>)
        ensures
            res.is_ok() <==> self.valid(),
            res matches Err(e) ==> *e.inner is ValidationError,
    {
        match self {
            EncryptorConfig::NoEncryption => Ok(()),
            EncryptorConfig::Age(age) => age.validate(),
        }
    }

    /// What to ask of the cipher.
    pub fn build_encryptor(&self) -> (stage: EncryptorStage<'_>)
        ensures
            match *self {
                EncryptorConfig::NoEncryption => stage is Identity,
                EncryptorConfig::Age(AgeEncryptorConfig::Passphrase { passphrase }) => stage matches EncryptorStage::Passphrase(
                    p,
                ) && *p == passphrase,
            },
    {
        match self {
            EncryptorConfig::NoEncryption => EncryptorStage::Identity,
            EncryptorConfig::Age(age) => age.build_encryptor(),
        }
    }

    /// The characters of the extension, if there is one.
    pub fn ext_chars(&self) -> (res: Option<Vec<char>>)
        ensures
            res.is_some() == self.ext().is_some(),
            res matches Some(v) ==> v@ == self.ext().unwrap(),
    {
        match self {
            EncryptorConfig::NoEncryption => None,
            EncryptorConfig::Age(_) => {
                let mut v: Vec<char> = Vec::new();
                v.push('a');
                v.push('g');
                v.push('e');
                assert(v@ =~= seq!['a', 'g', 'e']);
                Some(v)
            },
        }
    }
}

impl FileExtProvider for EncryptorConfig {
    /// `age` where the archive is encrypted.
    fn file_ext(&self) -> (res: Option<String>)
        ensures
            res.is_some() == self.ext().is_some(),
            res matches Some(s) ==> s@ == self.ext().unwrap(),
    {
        match self.ext_chars() {
            None => None,
            Some(v) => Some(crate::text::string_of(&v)),
        }
    }
}

} // verus!
