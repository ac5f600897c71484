//! Error surface of the engine layer.
use vstd::prelude::*;
use crate::crypto::error::{crypto_error_text, CryptoError};
use crate::db::{db_error_text, DbError};
use crate::text::push_str;

verus! {

/// All errors that the engine layer can return to the command layer.
#[derive(Debug)]
pub enum CoreError {
    /// A database operation failed.
    Db(DbError),
    /// A cryptographic operation failed.
    Crypto(CryptoError),
    /// No `envy.toml` was found in the current directory or any parent.
    ManifestNotFound,
    /// `envy.toml` was found but could not be parsed or misses required fields.
    ManifestInvalid(String),
    /// An I/O error occurred while reading or writing `envy.toml`.
    ManifestIo(String),
    /// The secret key name failed validation (empty or contains `=`).
    InvalidSecretKey(String),
}

/// The user-facing text of a [`CoreError`].
pub open spec fn core_error_text(e: CoreError) -> Seq<char> {
    match e {
        CoreError::Db(d) => "database error: "@ + db_error_text(d),
        CoreError::Crypto(c) => "crypto error: "@ + crypto_error_text(c),
        CoreError::ManifestNotFound => "not an envy project (run `envy init` to initialize)"@,
        CoreError::ManifestInvalid(m) => "envy.toml is invalid: "@ + m@,
        CoreError::ManifestIo(m) => "could not read/write envy.toml: "@ + m@,
        CoreError::InvalidSecretKey(k) => "invalid secret key name \""@ + k@
            + "\": must be non-empty and must not contain `=`"@,
    }
}

impl CoreError {
    /// Renders the error as the text shown to users.
    pub fn message(&self) -> (s: String)
        ensures
            s@ == core_error_text(*self),
    {
        match self {
            CoreError::Db(d) => {
                let mut s = "database error: ".to_string();
                let m = d.message();
                push_str(&mut s, m.as_str());
                s
            },
            CoreError::Crypto(c) => {
                let mut s = "crypto error: ".to_string();
                let m = c.message();
                push_str(&mut s, m.as_str());
                s
            },
            CoreError::ManifestNotFound => "not an envy project (run `envy init` to initialize)".to_string(),
            CoreError::ManifestInvalid(m) => {
                let mut s = "envy.toml is invalid: ".to_string();
                push_str(&mut s, m.as_str());
                s
            },
            CoreError::ManifestIo(m) => {
                let mut s = "could not read/write envy.toml: ".to_string();
                push_str(&mut s, m.as_str());
                s
            },
            CoreError::InvalidSecretKey(k) => {
                let mut s = "invalid secret key name \"".to_string();
                push_str(&mut s, k.as_str());
                push_str(&mut s, "\": must be non-empty and must not contain `=`");
                proof {
                    assert(s@ =~= "invalid secret key name \""@ + k@ + "\": must be non-empty and must not contain `=`"@);
                }
                s
            },
        }
    }
}

} // verus!
