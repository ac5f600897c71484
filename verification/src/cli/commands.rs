//! The decisions and text of the command handlers: argument parsing,
//! `.env` migration parsing, passphrase resolution and the status report.
//! Prompts, the vault and the files are the application's job.
use vstd::prelude::*;
use crate::cli::error::CliError;
use crate::crypto::artifact::{EncryptedEnvelope, KdfParams, SyncArtifact};
use crate::engine::ops::DEFAULT_ENV;
use crate::engine::sync::{envelope_of, has_env, merge_envelope};
use crate::text::{
    chars_of, is_blank, is_blank_str, lines, lines_spec, push_char, push_str, spec_to_uppercase, split_once,
    split_once_spec, starts_with_spec, string_of, to_uppercase, trim, trim_spec,
};

verus! {

/// Subcommands of `envy hooks`.
#[derive(Debug, Clone, PartialEq, Eq)]
pub enum HooksAction {
    /// Install (or reinstall) the `pre-commit` hook; `force` overwrites a
    /// foreign hook after backing it up.
    Install { force: bool },
}

/// Subcommands of `envy key`.
#[derive(Debug, Clone, PartialEq, Eq)]
pub enum KeyAction {
    /// Write an encrypted backup of the master key to a file.
    Export { output: Option<String> },
    /// Restore the master key from a recovery file.
    Import { input: String, force: bool },
}

/// The environment name shown to the user: the default environment when
/// none was given.
pub fn display_env(env: &str) -> (s: &str)
    ensures
        env@.len() == 0 ==> s@ == "development"@,
        env@.len() > 0 ==> s@ == env@,
{
    if chars_of(env).len() == 0 {
        DEFAULT_ENV
    } else {
        env
    }
}

/// Splits a `KEY=VALUE` argument at its first `=`.
///
/// Fails with `InvalidAssignment` (holding the argument) when there is no `=`.
pub fn parse_assignment(assignment: &str) -> (r: Result<(String, String), CliError>)
    ensures
        match split_once_spec(assignment@, '=') {
            Some((k, v)) => r matches Ok((key, value)) && key@ == k && value@ == v,
            None => r matches Err(CliError::InvalidAssignment(a)) && a@ == assignment@,
        },
{
    match split_once(assignment, '=') {
        Some(kv) => Ok(kv),
        None => Err(CliError::InvalidAssignment(assignment.to_string())),
    }
}

/// How one line of a `.env` file is read by `envy migrate`.
pub enum EnvLine {
    /// A blank line or a `#` comment.
    Skip,
    /// `KEY=VALUE` (key trimmed, value as written after the first `=`).
    Assignment(String, String),
    /// A line without `=` (its trimmed text).
    Malformed(String),
}

/// The reading of one `.env` line: trimmed; blank or `#` lines are skipped;
/// otherwise split at the first `=`, the key trimmed again.
pub open spec fn env_line_kind(line: Seq<char>) -> Option<Option<(Seq<char>, Seq<char>)>> {
    let t = trim_spec(line);
    if t.len() == 0 || starts_with_spec(t, "#"@) {
        None
    } else {
        match split_once_spec(t, '=') {
            Some((k, v)) => Some(Some((trim_spec(k), v))),
            None => Some(None),
        }
    }
}

/// Reads one line of a `.env` file.
pub fn parse_env_line(line: &str) -> (r: EnvLine)
    ensures
        match env_line_kind(line@) {
            None => r is Skip,
            Some(Some((k, v))) => r matches EnvLine::Assignment(key, value) && key@ == k && value@ == v,
            Some(None) => r matches EnvLine::Malformed(t) && t@ == trim_spec(line@),
        },
{
    let t = trim(line);
    let tc = chars_of(t.as_str());
    if tc.len() == 0 {
        return EnvLine::Skip;
    }
    if tc[0] == '#' {
        proof {
            reveal_strlit("#");
            assert(t@.take(1) =~= "#"@);
        }
        return EnvLine::Skip;
    }
    proof {
        reveal_strlit("#");
        if starts_with_spec(t@, "#"@) {
            assert(t@.take(1)[0] == t@[0]);
            assert("#"@[0] == '#');
        }
    }
    match split_once(t.as_str(), '=') {
        Some((k, v)) => EnvLine::Assignment(trim(k.as_str()), v),
        None => EnvLine::Malformed(t),
    }
}

/// The result of parsing a `.env` file: the assignments in order and the
/// malformed lines with their 1-based numbers.
pub struct EnvFile {
    pub assignments: Vec<(String, String)>,
    pub malformed: Vec<(usize, String)>,
}

/// The assignments of the lines `ls`, in order.
pub open spec fn env_assignments(ls: Seq<Seq<char>>) -> Seq<(Seq<char>, Seq<char>)>
    decreases ls.len(),
{
    if ls.len() == 0 {
        seq![]
    } else {
        let prev = env_assignments(ls.drop_last());
        match env_line_kind(ls.last()) {
            Some(Some(kv)) => prev.push(kv),
            _ => prev,
        }
    }
}

/// The malformed lines of `ls` as (1-based line number, trimmed text).
pub open spec fn env_malformed(ls: Seq<Seq<char>>) -> Seq<(int, Seq<char>)>
    decreases ls.len(),
{
    if ls.len() == 0 {
        seq![]
    } else {
        let prev = env_malformed(ls.drop_last());
        match env_line_kind(ls.last()) {
            Some(None) => prev.push((ls.len() as int, trim_spec(ls.last()))),
            _ => prev,
        }
    }
}

/// Parses a legacy `.env` file for `envy migrate`, line by line
/// (`str::lines`): blank and `#` lines are skipped, `KEY=VALUE` lines are
/// split at the first `=`, other lines are reported as malformed.
pub fn parse_env_file(content: &str) -> (r: EnvFile)
    ensures
        r.assignments@.map_values(|p: (String, String)| (p.0@, p.1@)) == env_assignments(lines_spec(content@)),
        r.malformed@.map_values(|p: (usize, String)| (p.0 as int, p.1@)) == env_malformed(lines_spec(content@)),
{
    let ls = lines(content);
    let ghost lv = lines_spec(content@);
    let mut assignments: Vec<(String, String)> = Vec::new();
    let mut malformed: Vec<(usize, String)> = Vec::new();
    let n = ls.len();
    let mut i: usize = 0;
    proof {
        assert(lv.take(0) =~= Seq::<Seq<char>>::empty());
        assert(assignments@.map_values(|p: (String, String)| (p.0@, p.1@)) =~= Seq::<(Seq<char>, Seq<char>)>::empty());
        assert(malformed@.map_values(|p: (usize, String)| (p.0 as int, p.1@)) =~= Seq::<(int, Seq<char>)>::empty());
    }
    while i < n
        invariant
            ls@.map_values(|l: String| l@) == lv,
            n == lv.len(),
            0 <= i <= n,
            assignments@.map_values(|p: (String, String)| (p.0@, p.1@)) == env_assignments(lv.take(i as int)),
            malformed@.map_values(|p: (usize, String)| (p.0 as int, p.1@)) == env_malformed(lv.take(i as int)),
        decreases n - i,
    {
        proof {
            assert(ls@[i as int]@ == lv[i as int]);
            assert(lv.take(i + 1).drop_last() =~= lv.take(i as int));
            assert(lv.take(i + 1).last() == lv[i as int]);
            assert(lv.take(i + 1).len() == i + 1);
        }
        let ghost a0 = assignments@;
        let ghost m0 = malformed@;
        match parse_env_line(ls[i].as_str()) {
            EnvLine::Skip => {},
            EnvLine::Assignment(k, v) => {
                assignments.push((k, v));
                proof {
                    assert(assignments@.map_values(|p: (String, String)| (p.0@, p.1@)) =~= a0.map_values(
                        |p: (String, String)| (p.0@, p.1@),
                    ).push((k@, v@)));
                }
            },
            EnvLine::Malformed(t) => {
                malformed.push((i + 1, t));
                proof {
                    assert(malformed@.map_values(|p: (usize, String)| (p.0 as int, p.1@)) =~= m0.map_values(
                        |p: (usize, String)| (p.0 as int, p.1@),
                    ).push(((i + 1) as int, t@)));
                }
            },
        }
        i += 1;
    }
    proof {
        assert(lv.take(n as int) =~= lv);
    }
    EnvFile { assignments, malformed }
}

/// `s` with every `-` replaced by `_`.
pub open spec fn dashes_to_underscores(s: Seq<char>) -> Seq<char> {
    s.map_values(|c: char| if c == '-' { '_' } else { c })
}

/// The name of the per-environment passphrase variable for `env_name`:
/// `ENVY_PASSPHRASE_` and the uppercase name with `-` replaced by `_`.
pub open spec fn passphrase_var(env_name: Seq<char>) -> Seq<char> {
    "ENVY_PASSPHRASE_"@ + dashes_to_underscores(spec_to_uppercase(env_name))
}

/// Returns the per-environment passphrase variable name for `env_name`.
pub fn passphrase_var_name(env_name: &str) -> (s: String)
    ensures
        s@ == passphrase_var(env_name@),
{
    let upper = to_uppercase(env_name);
    let cs = chars_of(upper.as_str());
    let mut s = "ENVY_PASSPHRASE_".to_string();
    let mut i: usize = 0;
    while i < cs.len()
        invariant
            cs@ == spec_to_uppercase(env_name@),
            0 <= i <= cs@.len(),
            s@ == "ENVY_PASSPHRASE_"@ + dashes_to_underscores(cs@.take(i as int)),
        decreases cs@.len() - i,
    {
        let c = cs[i];
        push_char(&mut s, if c == '-' { '_' } else { c });
        proof {
            assert(dashes_to_underscores(cs@.take(i + 1)) =~= dashes_to_underscores(cs@.take(i as int)).push(
                if c == '-' { '_' } else { c },
            ));
        }
        i += 1;
    }
    proof {
        assert(cs@.take(cs@.len() as int) =~= cs@);
    }
    s
}

/// Where a passphrase comes from.
#[derive(Debug)]
pub enum PassphraseSource {
    /// A non-blank value from the environment.
    Value(String),
    /// A variable is set but blank: a configuration error (message).
    BlankVariable(String),
    /// No variable is set: ask on the terminal.
    Prompt,
}

/// Resolves an environment's passphrase from the variables: the
/// per-environment variable first, then `ENVY_PASSPHRASE`. A set but blank
/// variable is an error, never a silent fall-through to the prompt.
pub fn passphrase_from_env(var_name: &str, per_env: Option<String>, global: Option<String>) -> (r: PassphraseSource)
    ensures
        match per_env {
            Some(v) => if is_blank(v@) {
                r matches PassphraseSource::BlankVariable(m) && m@ == var_name@
                    + " is set but contains only whitespace"@
            } else {
                r matches PassphraseSource::Value(p) && p@ == v@
            },
            None => match global {
                Some(g) => if is_blank(g@) {
                    r matches PassphraseSource::BlankVariable(m) && m@
                        == "ENVY_PASSPHRASE is set but contains only whitespace"@
                } else {
                    r matches PassphraseSource::Value(p) && p@ == g@
                },
                None => r is Prompt,
            },
        },
{
    match per_env {
        Some(v) => {
            if is_blank_str(v.as_str()) {
                let mut m = var_name.to_string();
                push_str(&mut m, " is set but contains only whitespace");
                PassphraseSource::BlankVariable(m)
            } else {
                PassphraseSource::Value(v)
            }
        },
        None => match global {
            Some(g) => {
                if is_blank_str(g.as_str()) {
                    PassphraseSource::BlankVariable("ENVY_PASSPHRASE is set but contains only whitespace".to_string())
                } else {
                    PassphraseSource::Value(g)
                }
            },
            None => PassphraseSource::Prompt,
        },
    }
}

/// Whether any of the values is set and not blank.
pub open spec fn any_set(values: Seq<Option<String>>) -> bool {
    exists|i: int| 0 <= i < values.len() && ((#[trigger] values[i]) matches Some(v) && !is_blank(v@))
}

/// Headless mode: the global passphrase variable, or any per-environment
/// one, is set and not blank.
pub fn is_headless_mode(global: &Option<String>, per_env: &Vec<Option<String>>) -> (b: bool)
    ensures
        b == ((global matches Some(g) && !is_blank(g@)) || any_set(per_env@)),
{
    if let Some(g) = global {
        if !is_blank_str(g.as_str()) {
            return true;
        }
    }
    let mut i: usize = 0;
    while i < per_env.len()
        invariant
            !(global matches Some(g) && !is_blank(g@)),
            0 <= i <= per_env@.len(),
            forall|k: int| 0 <= k < i ==> !((#[trigger] per_env@[k]) matches Some(v) && !is_blank(v@)),
        decreases per_env@.len() - i,
    {
        if let Some(v) = &per_env[i] {
            if !is_blank_str(v.as_str()) {
                return true;
            }
        }
        i += 1;
    }
    false
}

/// What `envy encrypt` does with one selected environment.
#[derive(Debug, Clone, Copy, PartialEq, Eq, Structural)]
pub enum EncryptStep {
    /// The environment has no secrets: warn and skip.
    SkipEmpty,
    /// No passphrase could be had (no variable, no terminal): skip.
    SkipNoPassphrase,
    /// Interactive, and the passphrase does not open the envelope already in
    /// `envy.enc`: ask before rotating the key.
    ConfirmRotation,
    /// Seal and merge into the artifact.
    Seal,
}

/// The step of `envy encrypt` for an environment with `secret_count`
/// secrets; see [`encrypt_step`].
pub open spec fn encrypt_step_of(secret_count: int, has_passphrase: bool, headless: bool, existing_opens: Option<bool>) -> EncryptStep {
    if secret_count == 0 {
        EncryptStep::SkipEmpty
    } else if !has_passphrase {
        EncryptStep::SkipNoPassphrase
    } else if !headless && existing_opens == Some(false) {
        EncryptStep::ConfirmRotation
    } else {
        EncryptStep::Seal
    }
}

/// Decides the step for one environment of `envy encrypt`.
///
/// `existing_opens` tells whether the artifact already holds an envelope
/// for the environment and, if so, whether the passphrase opens it; it is
/// only consulted in interactive mode (headless runs never prompt).
pub fn encrypt_step(secret_count: usize, has_passphrase: bool, headless: bool, existing_opens: Option<bool>) -> (s: EncryptStep)
    ensures
        s == encrypt_step_of(secret_count as int, has_passphrase, headless, existing_opens),
        secret_count == 0 ==> s == EncryptStep::SkipEmpty,
        secret_count > 0 && !has_passphrase ==> s == EncryptStep::SkipNoPassphrase,
        secret_count > 0 && has_passphrase && !headless && existing_opens == Some(false) ==> s
            == EncryptStep::ConfirmRotation,
        secret_count > 0 && has_passphrase && (headless || existing_opens != Some(false)) ==> s == EncryptStep::Seal,
{
    if secret_count == 0 {
        EncryptStep::SkipEmpty
    } else if !has_passphrase {
        EncryptStep::SkipNoPassphrase
    } else if !headless && existing_opens == Some(false) {
        EncryptStep::ConfirmRotation
    } else {
        EncryptStep::Seal
    }
}

/// One selected environment of an `envy encrypt` run: what its step was
/// decided from, whether a key rotation was confirmed, and the envelope
/// sealed for it when the step seals it.
pub struct EncryptEntry {
    pub name: String,
    pub secret_count: usize,
    pub has_passphrase: bool,
    pub existing_opens: Option<bool>,
    pub confirmed: bool,
    pub envelope: Option<EncryptedEnvelope>,
}

/// Whether the run seals `e`: its step is `Seal`, or `ConfirmRotation` and
/// the rotation was confirmed.
pub open spec fn entry_seals(e: EncryptEntry, headless: bool) -> bool {
    let s = encrypt_step_of(e.secret_count as int, e.has_passphrase, headless, e.existing_opens);
    s == EncryptStep::Seal || (s == EncryptStep::ConfirmRotation && e.confirmed)
}

/// The envelope that the run leaves under `k`: that of the last entry named
/// `k` that the run seals, if any.
pub open spec fn run_envelope(run: Seq<EncryptEntry>, headless: bool, k: Seq<char>) -> Option<EncryptedEnvelope>
    decreases run.len(),
{
    if run.len() == 0 {
        None
    } else if entry_seals(run.last(), headless) && run.last().name@ == k {
        run.last().envelope
    } else {
        run_envelope(run.drop_last(), headless, k)
    }
}

/// The names that the run seals, in order.
pub open spec fn run_sealed(run: Seq<EncryptEntry>, headless: bool) -> Seq<Seq<char>>
    decreases run.len(),
{
    if run.len() == 0 {
        seq![]
    } else if entry_seals(run.last(), headless) {
        run_sealed(run.drop_last(), headless).push(run.last().name@)
    } else {
        run_sealed(run.drop_last(), headless)
    }
}

proof fn lemma_run_envelope_some(run: Seq<EncryptEntry>, headless: bool, k: Seq<char>)
    requires
        forall|i: int| 0 <= i < run.len() && entry_seals(#[trigger] run[i], headless) ==> run[i].envelope is Some,
    ensures
        run_envelope(run, headless, k) is Some <==> run_sealed(run, headless).contains(k),
    decreases run.len(),
{
    if run.len() > 0 {
        let init = run.drop_last();
        assert forall|i: int| 0 <= i < init.len() && entry_seals(#[trigger] init[i], headless) implies init[i].envelope is Some by {
            assert(init[i] == run[i]);
        }
        lemma_run_envelope_some(init, headless, k);
        assert(entry_seals(run.last(), headless) ==> run.last().envelope is Some) by {
            assert(run.last() == run[run.len() - 1]);
        }
        let prev = run_sealed(init, headless);
        if entry_seals(run.last(), headless) {
            assert(run_sealed(run, headless) == prev.push(run.last().name@));
            assert(prev.push(run.last().name@).contains(k) <==> (prev.contains(k) || run.last().name@ == k)) by {
                if prev.push(run.last().name@).contains(k) {
                    let j = choose|j: int| 0 <= j < prev.len() + 1 && prev.push(run.last().name@)[j] == k;
                    if j < prev.len() {
                        assert(prev[j] == k);
                    }
                }
                if prev.contains(k) {
                    let j = choose|j: int| 0 <= j < prev.len() && prev[j] == k;
                    assert(prev.push(run.last().name@)[j] == k);
                }
                if run.last().name@ == k {
                    assert(prev.push(run.last().name@)[prev.len() as int] == k);
                }
            }
        }
    }
}

fn copy_envelope(e: &EncryptedEnvelope) -> (r: EncryptedEnvelope)
    ensures
        r == *e,
{
    EncryptedEnvelope {
        ciphertext: e.ciphertext.clone(),
        nonce: e.nonce.clone(),
        kdf: KdfParams {
            algorithm: e.kdf.algorithm.clone(),
            memory_kib: e.kdf.memory_kib,
            time_cost: e.kdf.time_cost,
            parallelism: e.kdf.parallelism,
            salt: e.kdf.salt.clone(),
        },
    }
}

/// Merges the envelopes of an `envy encrypt` run into `artifact`, deciding
/// each entry's step with [`encrypt_step`]; returns the sealed names in
/// order.
///
/// Afterwards the artifact holds exactly its former environments and those
/// the run sealed: an environment with no secrets, without a passphrase or
/// with an unconfirmed rotation is never added, every sealed one holds the
/// envelope last sealed for it, and every other keeps its former envelope.
pub fn apply_encrypt_run(artifact: &mut SyncArtifact, run: &Vec<EncryptEntry>, headless: bool) -> (sealed: Vec<String>)
    requires
        old(artifact).wf(),
        forall|i: int| 0 <= i < run@.len() && entry_seals(#[trigger] run@[i], headless) ==> run@[i].envelope is Some,
    ensures
        final(artifact).wf(),
        final(artifact).version == old(artifact).version,
        sealed@.map_values(|n: String| n@) == run_sealed(run@, headless),
        forall|k: Seq<char>| #[trigger] has_env(final(artifact).environments@, k) <==> (has_env(old(artifact).environments@, k)
            || run_sealed(run@, headless).contains(k)),
        forall|k: Seq<char>| #[trigger] envelope_of(final(artifact).environments@, k) == match run_envelope(run@, headless, k) {
            Some(e) => Some(e),
            None => envelope_of(old(artifact).environments@, k),
        },
{
    let ghost start = *artifact;
    let mut sealed: Vec<String> = Vec::new();
    let mut i: usize = 0;
    while i < run.len()
        invariant
            0 <= i <= run@.len(),
            forall|x: int| 0 <= x < run@.len() && entry_seals(#[trigger] run@[x], headless) ==> run@[x].envelope is Some,
            artifact.wf(),
            artifact.version == start.version,
            sealed@.map_values(|n: String| n@) == run_sealed(run@.take(i as int), headless),
            forall|k: Seq<char>| #[trigger] has_env(artifact.environments@, k) <==> (has_env(start.environments@, k)
                || run_sealed(run@.take(i as int), headless).contains(k)),
            forall|k: Seq<char>| #[trigger] envelope_of(artifact.environments@, k) == match run_envelope(run@.take(i as int), headless, k) {
                Some(e) => Some(e),
                None => envelope_of(start.environments@, k),
            },
        decreases run@.len() - i,
    {
        let e = &run[i];
        let ghost pre = run@.take(i as int);
        let ghost post = run@.take(i + 1);
        proof {
            assert(post.drop_last() =~= pre);
            assert(post.last() == run@[i as int]);
            assert forall|x: int| 0 <= x < pre.len() && entry_seals(#[trigger] pre[x], headless) implies pre[x].envelope is Some by {
                assert(pre[x] == run@[x]);
            }
            assert forall|x: int| 0 <= x < post.len() && entry_seals(#[trigger] post[x], headless) implies post[x].envelope is Some by {
                assert(post[x] == run@[x]);
            }
        }
        let step = encrypt_step(e.secret_count, e.has_passphrase, headless, e.existing_opens);
        let seals = step == EncryptStep::Seal || (step == EncryptStep::ConfirmRotation && e.confirmed);
        if seals {
            let env = match &e.envelope {
                Some(env) => copy_envelope(env),
                None => {
                    proof {
                        assert(entry_seals(run@[i as int], headless));
                    }
                    i += 1;
                    continue;
                },
            };
            let ghost before = *artifact;
            let ghost names_before = sealed@;
            merge_envelope(artifact, e.name.clone(), env);
            sealed.push(e.name.clone());
            proof {
                assert(sealed@.map_values(|n: String| n@) =~= names_before.map_values(|n: String| n@).push(e.name@));
                let prev = run_sealed(pre, headless);
                assert(run_sealed(post, headless) == prev.push(e.name@));
                assert forall|k: Seq<char>| #[trigger] has_env(artifact.environments@, k) <==> (has_env(start.environments@, k)
                    || run_sealed(post, headless).contains(k)) by {
                    if prev.push(e.name@).contains(k) && k != e.name@ {
                        let j = choose|j: int| 0 <= j < prev.len() + 1 && prev.push(e.name@)[j] == k;
                        assert(j < prev.len());
                        assert(prev[j] == k);
                    }
                    if prev.contains(k) {
                        let j = choose|j: int| 0 <= j < prev.len() && prev[j] == k;
                        assert(prev.push(e.name@)[j] == k);
                    }
                    if k == e.name@ {
                        assert(prev.push(e.name@)[prev.len() as int] == k);
                    }
                }
                assert forall|k: Seq<char>| #[trigger] envelope_of(artifact.environments@, k) == match run_envelope(post, headless, k) {
                    Some(x) => Some(x),
                    None => envelope_of(start.environments@, k),
                } by {
                    if k != e.name@ {
                        assert(envelope_of(artifact.environments@, k) == envelope_of(before.environments@, k));
                    }
                }
            }
        } else {
            proof {
                assert(run_sealed(post, headless) == run_sealed(pre, headless));
                assert forall|k: Seq<char>| run_envelope(post, headless, k) == run_envelope(pre, headless, k) by {}
            }
        }
        i += 1;
    }
    proof {
        assert(run@.take(run@.len() as int) =~= run@);
    }
    sealed
}

/// In a headless run (a passphrase for every environment, no prompts) the
/// environments sealed are exactly those that have secrets: the artifact's
/// environments afterwards are its former ones plus every selected
/// environment with at least one secret.
pub proof fn lemma_headless_run_seals_nonempty(run: Seq<EncryptEntry>)
    requires
        forall|i: int| 0 <= i < run.len() ==> (#[trigger] run[i]).has_passphrase,
    ensures
        forall|i: int| 0 <= i < run.len() ==> (entry_seals(#[trigger] run[i], true) <==> run[i].secret_count > 0),
        run_sealed(run, true) == run.filter(|e: EncryptEntry| e.secret_count > 0).map_values(|e: EncryptEntry| e.name@),
    decreases run.len(),
{
    if run.len() > 0 {
        let init = run.drop_last();
        assert forall|i: int| 0 <= i < init.len() implies (#[trigger] init[i]).has_passphrase by {
            assert(init[i] == run[i]);
        }
        lemma_headless_run_seals_nonempty(init);
        let pred = |e: EncryptEntry| e.secret_count > 0;
        assert(run.filter(pred) == if pred(run.last()) { init.filter(pred).push(run.last()) } else { init.filter(pred) }) by {
            reveal(Seq::filter);
        }
        assert(run.last().has_passphrase) by {
            assert(run.last() == run[run.len() - 1]);
        }
        if pred(run.last()) {
            assert(run.filter(pred).map_values(|e: EncryptEntry| e.name@) =~= init.filter(pred).map_values(
                |e: EncryptEntry| e.name@,
            ).push(run.last().name@));
        } else {
            assert(run.filter(pred).map_values(|e: EncryptEntry| e.name@) =~= init.filter(pred).map_values(
                |e: EncryptEntry| e.name@,
            ));
        }
    }
}

/// How a `.env` line is read, in terms of its trimmed text `t`: a blank
/// line or one whose first character is `#` is skipped; any other line is
/// split at its first `=` (at `e`) into the trimmed text before it and all
/// the text after it, whatever characters (`#` included) the value holds;
/// a line without `=` is malformed.
pub proof fn lemma_env_line_reading(line: Seq<char>, e: int)
    ensures
        trim_spec(line).len() == 0 || trim_spec(line)[0] == '#' ==> env_line_kind(line) is None,
        ({
            let t = trim_spec(line);
            t.len() > 0 && t[0] != '#' && 0 <= e < t.len() && t[e] == '=' && (forall|k: int| 0 <= k < e ==> t[k] != '=')
                ==> env_line_kind(line) == Some(Some((trim_spec(t.take(e)), t.skip(e + 1))))
        }),
        ({
            let t = trim_spec(line);
            t.len() > 0 && t[0] != '#' && (forall|k: int| 0 <= k < t.len() ==> t[k] != '=') ==> env_line_kind(line)
                == Some(None::<(Seq<char>, Seq<char>)>)
        }),
{
    let t = trim_spec(line);
    reveal_strlit("#");
    assert("#"@.len() == 1 && "#"@[0] == '#');
    if t.len() > 0 {
        assert(starts_with_spec(t, "#"@) <==> t[0] == '#') by {
            if t[0] == '#' {
                assert(t.take(1) =~= "#"@);
            }
            if starts_with_spec(t, "#"@) {
                assert(t.take(1)[0] == t[0]);
            }
        }
    }
    if t.len() > 0 && t[0] != '#' && 0 <= e < t.len() && t[e] == '=' && (forall|k: int| 0 <= k < e ==> t[k] != '=') {
        assert(exists|i: int| 0 <= i < t.len() && t[i] == '=');
        let f = choose|i: int| 0 <= i < t.len() && t[i] == '=' && forall|k: int| 0 <= k < i ==> t[k] != '=';
        assert(0 <= e < t.len() && t[e] == '=' && forall|k: int| 0 <= k < e ==> t[k] != '=');
        assert(f == e) by {
            if f < e {
                assert(t[f] != '=');
            } else if e < f {
                assert(t[e] != '=');
            }
        }
        assert(crate::text::find_char(t, '=') == Some(e));
    }
}

} // verus!
