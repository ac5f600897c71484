//! Record types and error surface of the vault store.
//!
//! The store itself (an SQLCipher database) is opened and queried by the
//! application; the library works on the records it returns.
use vstd::prelude::*;
use crate::crypto::keyring::{hex_digit, hex_digit_exec, hex_lower};
use crate::text::push_str;

verus! {

/// A project's unique identifier (UUID v4, hyphenated string).
#[derive(Debug, Clone)]
pub struct ProjectId(pub String);

impl ProjectId {
    /// Returns the underlying string slice.
    pub fn as_str(&self) -> (s: &str)
        ensures
            s@ == self.0@,
    {
        self.0.as_str()
    }
}

/// An environment's unique identifier (UUID v4, hyphenated string).
#[derive(Debug, Clone)]
pub struct EnvId(pub String);

impl EnvId {
    /// Returns the underlying string slice.
    pub fn as_str(&self) -> (s: &str)
        ensures
            s@ == self.0@,
    {
        self.0.as_str()
    }
}

/// A secret's unique identifier (UUID v4, hyphenated string).
#[derive(Debug, Clone)]
pub struct SecretId(pub String);

impl SecretId {
    /// Returns the underlying string slice.
    pub fn as_str(&self) -> (s: &str)
        ensures
            s@ == self.0@,
    {
        self.0.as_str()
    }
}

/// A project record as stored in the vault.
#[derive(Debug, Clone)]
pub struct Project {
    /// Globally unique identifier (UUID v4, hyphenated).
    pub id: ProjectId,
    /// Human-readable project name.
    pub name: String,
    /// Creation time as Unix epoch (UTC, seconds).
    pub created_at: i64,
    /// Last-modification time as Unix epoch (UTC, seconds).
    pub updated_at: i64,
}

/// An environment record as stored in the vault.
#[derive(Debug, Clone)]
pub struct Environment {
    /// Globally unique identifier (UUID v4, hyphenated).
    pub id: EnvId,
    /// The project this environment belongs to.
    pub project_id: ProjectId,
    /// Lowercase environment label (e.g., `development`, `production`).
    pub name: String,
    /// Creation time as Unix epoch (UTC, seconds).
    pub created_at: i64,
    /// Last-modification time as Unix epoch (UTC, seconds).
    pub updated_at: i64,
}

/// A secret record as stored in the vault: the value only as AES-256-GCM
/// ciphertext and nonce.
#[derive(Debug, Clone)]
pub struct SecretRecord {
    /// Globally unique identifier (UUID v4, hyphenated).
    pub id: SecretId,
    /// The environment this secret belongs to.
    pub environment_id: EnvId,
    /// Secret key name (e.g., `DATABASE_URL`).
    pub key: String,
    /// AES-256-GCM ciphertext bytes.
    pub value_encrypted: Vec<u8>,
    /// 12-byte (96-bit) random nonce for this row's AES-256-GCM encryption.
    pub value_nonce: Vec<u8>,
    /// Creation time as Unix epoch (UTC, seconds).
    pub created_at: i64,
    /// Last-modification time as Unix epoch (UTC, seconds).
    pub updated_at: i64,
}

/// Raw per-environment aggregate returned by the status query.
#[derive(Debug, Clone)]
pub struct EnvironmentStatus {
    /// The environment's identifier.
    pub id: EnvId,
    /// Lowercase environment label (e.g., `development`, `production`).
    pub name: String,
    /// Number of secrets currently stored for this environment.
    pub secret_count: i64,
    /// Unix epoch (UTC, seconds) of the most-recently modified secret;
    /// `None` when the environment has zero secrets.
    pub last_modified_at: Option<i64>,
    /// Unix epoch (UTC, seconds) of the last successful seal; `None` when
    /// the environment has never been encrypted.
    pub sealed_at: Option<i64>,
}

/// One row of the local audit trail, joined with the environment name.
#[derive(Debug, Clone)]
pub struct AuditLogRecord {
    /// Globally unique identifier (UUID v4, hyphenated).
    pub id: String,
    /// Lowercase environment label the action was performed against.
    pub environment_name: String,
    /// One of `set`, `get`, `rm`, `run`.
    pub action: String,
    /// Secret key name touched, or `None` for whole-environment actions (`run`).
    pub key: Option<String>,
    /// Unix epoch (UTC, seconds) the action was recorded.
    pub created_at: i64,
}

/// All errors that the store can return.
#[derive(Debug)]
pub enum DbError {
    NotFound,
    AlreadyExists,
    ConstraintViolation(String),
    IoError(String),
    EncryptionError,
    MigrationError(String),
    Internal(String),
}

/// The user-facing text of a [`DbError`].
pub open spec fn db_error_text(e: DbError) -> Seq<char> {
    match e {
        DbError::NotFound => "record not found"@,
        DbError::AlreadyExists => "record already exists"@,
        DbError::ConstraintViolation(m) => "constraint violation: "@ + m@,
        DbError::IoError(m) => "I/O error: "@ + m@,
        DbError::EncryptionError => "wrong master key or corrupted vault"@,
        DbError::MigrationError(m) => "schema migration failed: "@ + m@,
        DbError::Internal(m) => "internal database error: "@ + m@,
    }
}

fn prefixed(prefix: &str, m: &String) -> (s: String)
    ensures
        s@ == prefix@ + m@,
{
    let mut s = prefix.to_string();
    push_str(&mut s, m.as_str());
    s
}

impl DbError {
    /// Renders the error as the text shown to users.
    pub fn message(&self) -> (s: String)
        ensures
            s@ == db_error_text(*self),
    {
        match self {
            DbError::NotFound => "record not found".to_string(),
            DbError::AlreadyExists => "record already exists".to_string(),
            DbError::ConstraintViolation(m) => prefixed("constraint violation: ", m),
            DbError::IoError(m) => prefixed("I/O error: ", m),
            DbError::EncryptionError => "wrong master key or corrupted vault".to_string(),
            DbError::MigrationError(m) => prefixed("schema migration failed: ", m),
            DbError::Internal(m) => prefixed("internal database error: ", m),
        }
    }
}

/// SQLite extended result code of `SQLITE_NOTADB` (26): the file is not a
/// database, which for SQLCipher means a wrong key.
pub const SQLITE_NOTADB: i32 = 26i32;
/// Extended result code of `SQLITE_CONSTRAINT_UNIQUE`.
pub const SQLITE_CONSTRAINT_UNIQUE: i32 = 2067i32;
/// Extended result code of `SQLITE_CONSTRAINT_PRIMARYKEY`.
pub const SQLITE_CONSTRAINT_PRIMARYKEY: i32 = 1555i32;

/// A failure reported by the SQLite driver, held as the plain values the
/// mapping reads.
pub enum SqliteFailure {
    /// A failure from SQLite itself: its extended result code, whether its
    /// primary code is `SQLITE_CONSTRAINT`, SQLite's message if any, and the
    /// driver's display text of the error.
    Sqlite { extended_code: i32, is_constraint: bool, message: Option<String>, display: String },
    /// A query that expected a row returned none (display text kept).
    NoRows(String),
    /// Any other driver error, with its display text.
    Other(String),
}

/// The [`DbError`] a driver failure maps to.
pub open spec fn mapped_error(f: SqliteFailure) -> DbError {
    match f {
        SqliteFailure::Sqlite { extended_code, is_constraint, message, display } => if extended_code
            == SQLITE_NOTADB {
            DbError::EncryptionError
        } else if extended_code == SQLITE_CONSTRAINT_UNIQUE || extended_code == SQLITE_CONSTRAINT_PRIMARYKEY {
            DbError::AlreadyExists
        } else if is_constraint {
            DbError::ConstraintViolation(
                match message {
                    Some(m) => m,
                    None => display,
                },
            )
        } else {
            DbError::Internal(display)
        },
        SqliteFailure::NoRows(display) => DbError::Internal(display),
        SqliteFailure::Other(display) => DbError::Internal(display),
    }
}

/// Maps a driver failure to a [`DbError`]: a wrong key (`SQLITE_NOTADB`) is
/// `EncryptionError`, a unique or primary-key violation `AlreadyExists`,
/// another constraint violation `ConstraintViolation` with SQLite's message,
/// anything else `Internal`.
pub fn map_rusqlite_error(f: SqliteFailure) -> (e: DbError)
    ensures
        e == mapped_error(f),
{
    match f {
        SqliteFailure::Sqlite { extended_code, is_constraint, message, display } => {
            if extended_code == SQLITE_NOTADB {
                DbError::EncryptionError
            } else if extended_code == SQLITE_CONSTRAINT_UNIQUE || extended_code == SQLITE_CONSTRAINT_PRIMARYKEY {
                DbError::AlreadyExists
            } else if is_constraint {
                match message {
                    Some(m) => DbError::ConstraintViolation(m),
                    None => DbError::ConstraintViolation(display),
                }
            } else {
                DbError::Internal(display)
            }
        },
        SqliteFailure::NoRows(display) => DbError::Internal(display),
        SqliteFailure::Other(display) => DbError::Internal(display),
    }
}

/// Like [`map_rusqlite_error`], except that a query returning no row is
/// `NotFound`.
pub fn not_found_or(f: SqliteFailure) -> (e: DbError)
    ensures
        f is NoRows ==> e == DbError::NotFound,
        !(f is NoRows) ==> e == mapped_error(f),
{
    match f {
        SqliteFailure::NoRows(_) => DbError::NotFound,
        other => map_rusqlite_error(other),
    }
}

/// Lowercase hex text of `bytes`, two digits per byte (the form in which
/// the master key is handed to SQLCipher).
pub fn bytes_to_hex(bytes: &[u8]) -> (s: String)
    requires
        bytes@.len() * 2 <= usize::MAX,
    ensures
        s@ == hex_lower(bytes@),
{
    let mut s = String::new();
    let mut i: usize = 0;
    while i < bytes.len()
        invariant
            0 <= i <= bytes@.len(),
            s@ =~= hex_lower(bytes@).take(2 * i as int),
        decreases bytes@.len() - i,
    {
        let b = bytes[i];
        crate::text::push_char(&mut s, hex_digit_exec(b / 16));
        crate::text::push_char(&mut s, hex_digit_exec(b % 16));
        proof {
            assert(hex_lower(bytes@).take(2 * (i + 1) as int) =~= hex_lower(bytes@).take(2 * i as int).push(
                hex_digit((b / 16) as int),
            ).push(hex_digit((b % 16) as int)));
        }
        i += 1;
    }
    proof {
        assert(hex_lower(bytes@).take(2 * bytes@.len() as int) =~= hex_lower(bytes@));
    }
    s
}

} // verus!
