//! Errors of the command layer and the exit-code table.
use vstd::prelude::*;
use crate::db::DbError;
use crate::engine::error::{core_error_text, CoreError};
use crate::text::push_str;

verus! {

/// Errors that originate in the command layer and do not come from the engine.
#[derive(Debug)]
pub enum CliError {
    /// `set` argument lacked a `=` separator (e.g. `envy set NOVALUE`).
    InvalidAssignment(String),
    /// `migrate` target file could not be opened or read (path, reason).
    FileNotFound(String, String),
    /// `init` was run in a directory that already contains `envy.toml`.
    AlreadyInitialised,
    /// `init` was run inside a directory tree that already has a project.
    ParentProjectExists(String),
    /// The vault was opened but the project UUID was not found inside it.
    ProjectNotInVault,
    /// Opening the vault failed (wrong key, corrupted file, or permissions).
    VaultOpen(String),
    /// An engine operation failed.
    Core(CoreError),
    /// No passphrase could be obtained, or the one given was empty or wrong.
    PassphraseInput(String),
    /// `decrypt` could open none of the environments in `envy.enc`.
    NothingImported,
    /// `diff`: the environment exists neither in the vault nor in `envy.enc`.
    EnvNotFound(String),
    /// `envy.enc` exists but is malformed or of an unsupported version.
    ArtifactUnreadable(String),
}

/// The user-facing text of a [`CliError`].
pub open spec fn cli_error_text(e: CliError) -> Seq<char> {
    match e {
        CliError::InvalidAssignment(a) => "invalid assignment \""@ + a@ + "\": expected KEY=VALUE format"@,
        CliError::FileNotFound(p, r) => "cannot read file \""@ + p@ + "\": "@ + r@,
        CliError::AlreadyInitialised => "already initialised: envy.toml exists in this directory"@,
        CliError::ParentProjectExists(p) => "parent project detected: \""@ + p@ + "\" already contains envy.toml"@,
        CliError::ProjectNotInVault => "project not found in vault \u{2014} was the vault file moved?"@,
        CliError::VaultOpen(m) => "could not open vault: "@ + m@,
        CliError::Core(c) => core_error_text(c),
        CliError::PassphraseInput(m) => m@,
        CliError::NothingImported => "no environments could be decrypted \u{2014} check your passphrase"@,
        CliError::EnvNotFound(env) => "environment '"@ + env@ + "' not found in the vault or in envy.enc"@,
        CliError::ArtifactUnreadable(m) => "envy.enc is unreadable: "@ + m@,
    }
}

impl CliError {
    /// Renders the error as the text shown to users.
    pub fn message(&self) -> (s: String)
        ensures
            s@ == cli_error_text(*self),
    {
        match self {
            CliError::InvalidAssignment(a) => {
                let mut s = "invalid assignment \"".to_string();
                push_str(&mut s, a.as_str());
                push_str(&mut s, "\": expected KEY=VALUE format");
                proof {
                    assert(s@ =~= "invalid assignment \""@ + a@ + "\": expected KEY=VALUE format"@);
                }
                s
            },
            CliError::FileNotFound(p, r) => {
                let mut s = "cannot read file \"".to_string();
                push_str(&mut s, p.as_str());
                push_str(&mut s, "\": ");
                push_str(&mut s, r.as_str());
                proof {
                    assert(s@ =~= "cannot read file \""@ + p@ + "\": "@ + r@);
                }
                s
            },
            CliError::AlreadyInitialised => "already initialised: envy.toml exists in this directory".to_string(),
            CliError::ParentProjectExists(p) => {
                let mut s = "parent project detected: \"".to_string();
                push_str(&mut s, p.as_str());
                push_str(&mut s, "\" already contains envy.toml");
                proof {
                    assert(s@ =~= "parent project detected: \""@ + p@ + "\" already contains envy.toml"@);
                }
                s
            },
            CliError::ProjectNotInVault => "project not found in vault \u{2014} was the vault file moved?".to_string(),
            CliError::VaultOpen(m) => {
                let mut s = "could not open vault: ".to_string();
                push_str(&mut s, m.as_str());
                s
            },
            CliError::Core(c) => c.message(),
            CliError::PassphraseInput(m) => m.clone(),
            CliError::NothingImported => "no environments could be decrypted \u{2014} check your passphrase".to_string(),
            CliError::EnvNotFound(env) => {
                let mut s = "environment '".to_string();
                push_str(&mut s, env.as_str());
                push_str(&mut s, "' not found in the vault or in envy.enc");
                proof {
                    assert(s@ =~= "environment '"@ + env@ + "' not found in the vault or in envy.enc"@);
                }
                s
            },
            CliError::ArtifactUnreadable(m) => {
                let mut s = "envy.enc is unreadable: ".to_string();
                push_str(&mut s, m.as_str());
                s
            },
        }
    }
}

/// Formats an engine error for the terminal: `"error: "` and its text.
pub fn format_core_error(e: &CoreError) -> (s: String)
    ensures
        s@ == "error: "@ + core_error_text(*e),
{
    let mut s = "error: ".to_string();
    let m = e.message();
    push_str(&mut s, m.as_str());
    s
}

/// Formats a command-layer error for the terminal: `"error: "` and its text.
pub fn format_cli_error(e: &CliError) -> (s: String)
    ensures
        s@ == "error: "@ + cli_error_text(*e),
{
    let mut s = "error: ".to_string();
    let m = e.message();
    push_str(&mut s, m.as_str());
    s
}

/// The exit code of an engine error: 1 for "not found" (manifest, record)
/// and manifest trouble, 2 for an invalid key name, 4 for other store and
/// crypto failures.
pub open spec fn core_exit_code_of(e: CoreError) -> i32 {
    match e {
        CoreError::ManifestNotFound => 1,
        CoreError::ManifestInvalid(_) => 1,
        CoreError::ManifestIo(_) => 1,
        CoreError::InvalidSecretKey(_) => 2,
        CoreError::Db(DbError::NotFound) => 1,
        CoreError::Db(_) => 4,
        CoreError::Crypto(_) => 4,
    }
}

/// Maps an engine error to a process exit code.
pub fn core_exit_code(e: &CoreError) -> (c: i32)
    ensures
        c == core_exit_code_of(*e),
{
    match e {
        CoreError::ManifestNotFound => 1,
        CoreError::ManifestInvalid(_) => 1,
        CoreError::ManifestIo(_) => 1,
        CoreError::InvalidSecretKey(_) => 2,
        CoreError::Db(DbError::NotFound) => 1,
        CoreError::Db(_) => 4,
        CoreError::Crypto(_) => 4,
    }
}

/// The exit code of a command-layer error: 1 not found or nothing
/// imported, 2 invalid input (assignment, passphrase), 3 initialisation
/// conflict or unknown environment, 4 vault failure, 5 unreadable
/// `envy.enc`; an engine error keeps its own code.
pub open spec fn cli_exit_code_of(e: CliError) -> i32 {
    match e {
        CliError::InvalidAssignment(_) => 2,
        CliError::FileNotFound(_, _) => 1,
        CliError::AlreadyInitialised => 3,
        CliError::ParentProjectExists(_) => 3,
        CliError::ProjectNotInVault => 4,
        CliError::VaultOpen(_) => 4,
        CliError::Core(c) => core_exit_code_of(c),
        CliError::PassphraseInput(_) => 2,
        CliError::NothingImported => 1,
        CliError::EnvNotFound(_) => 3,
        CliError::ArtifactUnreadable(_) => 5,
    }
}

/// Maps a command-layer error to a process exit code.
pub fn cli_exit_code(e: &CliError) -> (c: i32)
    ensures
        c == cli_exit_code_of(*e),
{
    match e {
        CliError::InvalidAssignment(_) => 2,
        CliError::FileNotFound(_, _) => 1,
        CliError::AlreadyInitialised => 3,
        CliError::ParentProjectExists(_) => 3,
        CliError::ProjectNotInVault => 4,
        CliError::VaultOpen(_) => 4,
        CliError::Core(c) => core_exit_code(c),
        CliError::PassphraseInput(_) => 2,
        CliError::NothingImported => 1,
        CliError::EnvNotFound(_) => 3,
        CliError::ArtifactUnreadable(_) => 5,
    }
}

/// Every error maps to a failure code: between 1 and 4 for an engine
/// error, between 1 and 5 for a command-layer one.
pub proof fn lemma_exit_codes_are_failures(c: CoreError, e: CliError)
    ensures
        1 <= core_exit_code_of(c) <= 4,
        1 <= cli_exit_code_of(e) <= 5,
{
}

} // verus!
