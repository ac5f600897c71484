//! Sealing vault environments into the sync artifact and unsealing them back.
//!
//! Reading the vault and reading or writing `envy.enc` happen in the
//! application; this module works on the secret lists and the artifact value.
use vstd::prelude::*;
use crate::crypto::aead::AES_GCM_MAX_PLAINTEXT;
use crate::crypto::artifact::{
    artifact_error_text, env_names, payload_json_len, seal_envelope, unseal_envelope,
    unseal_outcome, ArtifactError, ArtifactPayload, EncryptedEnvelope, SyncArtifact, UnsealOutcome,
    ARTIFACT_VERSION, KDF_PARALLELISM_LIMIT,
};
use crate::pairs::{names_sorted, pairs_view};
use crate::text::{spec_to_lowercase, to_lowercase, char_seq_lt, compare_str, decimal, is_blank, is_blank_str, lemma_lt_transitive, push_str, u64_to_decimal, KeyOrder};
use vstd::string::StringSliceAdditionalSpecFns;

verus! {

/// Errors at the sync artifact orchestration layer.
#[derive(Debug)]
pub enum SyncError {
    /// A low-level artifact cryptography error.
    Artifact(ArtifactError),
    /// `envy.enc` does not exist at the expected path.
    FileNotFound(String),
    /// A file read or write operation failed.
    Io(String),
    /// The artifact uses an unsupported schema version.
    UnsupportedVersion(u32),
    /// All environments were skipped; no secrets were imported.
    NothingImported,
    /// A vault read failed while sealing.
    VaultError(String),
}

/// The user-facing text of a [`SyncError`].
pub open spec fn sync_error_text(e: SyncError) -> Seq<char> {
    match e {
        SyncError::Artifact(a) => artifact_error_text(a),
        SyncError::FileNotFound(p) => "envy.enc not found at "@ + p@,
        SyncError::Io(m) => "failed to read/write envy.enc: "@ + m@,
        SyncError::UnsupportedVersion(v) => "envy.enc has unsupported schema version "@ + decimal(v as nat),
        SyncError::NothingImported => "no environments could be decrypted \u{2014} check your passphrase"@,
        SyncError::VaultError(m) => "vault error: "@ + m@,
    }
}

impl SyncError {
    /// Renders the error as the text shown to users.
    pub fn message(&self) -> (s: String)
        ensures
            s@ == sync_error_text(*self),
    {
        match self {
            SyncError::Artifact(a) => a.message(),
            SyncError::FileNotFound(p) => {
                let mut s = "envy.enc not found at ".to_string();
                push_str(&mut s, p.as_str());
                s
            },
            SyncError::Io(m) => {
                let mut s = "failed to read/write envy.enc: ".to_string();
                push_str(&mut s, m.as_str());
                s
            },
            SyncError::UnsupportedVersion(v) => {
                let mut s = "envy.enc has unsupported schema version ".to_string();
                let d = u64_to_decimal(*v as u64);
                push_str(&mut s, d.as_str());
                s
            },
            SyncError::NothingImported => "no environments could be decrypted \u{2014} check your passphrase".to_string(),
            SyncError::VaultError(m) => {
                let mut s = "vault error: ".to_string();
                push_str(&mut s, m.as_str());
                s
            },
        }
    }
}

/// The output of a successful [`unseal_artifact`] call: the environments that
/// were decrypted and those that could not be, both in artifact order.
pub struct UnsealResult {
    /// Decrypted environments: name and secret list (ascending key order).
    pub imported: Vec<(String, Vec<(String, String)>)>,
    /// Environments that could not be decrypted (wrong passphrase or malformed envelope).
    pub skipped: Vec<String>,
}

/// The (name, secret map) character view of imported environments.
pub open spec fn imported_view(s: Seq<(String, Vec<(String, String)>)>) -> Seq<(Seq<char>, Seq<(Seq<char>, Seq<char>)>)> {
    s.map_values(|p: (String, Vec<(String, String)>)| (p.0@, pairs_view(p.1@)))
}

/// The character view of a list of names.
pub open spec fn names_view(s: Seq<String>) -> Seq<Seq<char>> {
    s.map_values(|n: String| n@)
}

/// The environments of `envs` that `pass` opens, with their secret maps, in order.
pub open spec fn opened_envs(pass: Seq<char>, envs: Seq<(String, EncryptedEnvelope)>) -> Seq<(Seq<char>, Seq<(Seq<char>, Seq<char>)>)>
    decreases envs.len(),
{
    if envs.len() == 0 {
        seq![]
    } else {
        let prev = opened_envs(pass, envs.drop_last());
        match unseal_outcome(pass, envs.last().1) {
            UnsealOutcome::Opened(m) => prev.push((envs.last().0@, m)),
            _ => prev,
        }
    }
}

/// The names of the environments of `envs` that `pass` does not open, in order.
pub open spec fn refused_envs(pass: Seq<char>, envs: Seq<(String, EncryptedEnvelope)>) -> Seq<Seq<char>>
    decreases envs.len(),
{
    if envs.len() == 0 {
        seq![]
    } else {
        let prev = refused_envs(pass, envs.drop_last());
        match unseal_outcome(pass, envs.last().1) {
            UnsealOutcome::Opened(_) => prev,
            _ => prev.push(envs.last().0@),
        }
    }
}

/// Every envelope of the artifact has a parallelism that Argon2 can take.
pub open spec fn kdf_params_in_range(artifact: SyncArtifact) -> bool {
    forall|i: int| 0 <= i < artifact.environments@.len() ==> (#[trigger] artifact.environments@[i]).1.kdf.parallelism
        <= KDF_PARALLELISM_LIMIT
}

/// Decrypts all accessible environments in `artifact` using `passphrase`.
///
/// Every environment is tried on its own: one that the passphrase does not
/// open (wrong passphrase or tampered data) is listed in `skipped`, never an
/// error. Fails only for a blank passphrase or an unknown schema version.
pub fn unseal_artifact(artifact: &SyncArtifact, passphrase: &str) -> (r: Result<UnsealResult, SyncError>)
    requires
        kdf_params_in_range(*artifact),
    ensures
        is_blank(passphrase@) ==> r matches Err(SyncError::Artifact(ArtifactError::WeakPassphrase)),
        !is_blank(passphrase@) && artifact.version != ARTIFACT_VERSION ==> (r matches Err(
            SyncError::UnsupportedVersion(v),
        ) && v == artifact.version),
        !is_blank(passphrase@) && artifact.version == ARTIFACT_VERSION ==> (r matches Ok(u) && imported_view(
            u.imported@,
        ) == opened_envs(passphrase@, artifact.environments@) && names_view(u.skipped@) == refused_envs(
            passphrase@,
            artifact.environments@,
        )),
{
    if is_blank_str(passphrase) {
        return Err(SyncError::Artifact(ArtifactError::WeakPassphrase));
    }
    if artifact.version != ARTIFACT_VERSION {
        return Err(SyncError::UnsupportedVersion(artifact.version));
    }
    let ghost envs = artifact.environments@;
    let mut imported: Vec<(String, Vec<(String, String)>)> = Vec::new();
    let mut skipped: Vec<String> = Vec::new();
    let mut i: usize = 0;
    while i < artifact.environments.len()
        invariant
            envs == artifact.environments@,
            kdf_params_in_range(*artifact),
            !is_blank(passphrase@),
            0 <= i <= envs.len(),
            imported_view(imported@) == opened_envs(passphrase@, envs.take(i as int)),
            names_view(skipped@) == refused_envs(passphrase@, envs.take(i as int)),
        decreases envs.len() - i,
    {
        let name = &artifact.environments[i].0;
        let envelope = &artifact.environments[i].1;
        proof {
            assert(envs[i as int].1.kdf.parallelism <= KDF_PARALLELISM_LIMIT);
            assert(envs.take(i + 1).drop_last() =~= envs.take(i as int));
            assert(envs.take(i + 1).last() == envs[i as int]);
        }
        match unseal_envelope(passphrase, name.as_str(), envelope) {
            Ok(payload) => {
                imported.push((name.clone(), payload.secrets));
                proof {
                    assert(imported_view(imported@) =~= opened_envs(passphrase@, envs.take(i as int)).push(
                        (name@, pairs_view(payload.secrets@)),
                    ));
                }
            },
            Err(_) => {
                skipped.push(name.clone());
                proof {
                    assert(names_view(skipped@) =~= refused_envs(passphrase@, envs.take(i as int)).push(name@));
                }
            },
        }
        i = i + 1;
    }
    proof {
        assert(envs.take(envs.len() as int) =~= envs);
    }
    Ok(UnsealResult { imported, skipped })
}

/// The position of environment `name` in `envs`, if present.
pub open spec fn env_index(envs: Seq<(String, EncryptedEnvelope)>, name: Seq<char>) -> Option<int> {
    if exists|i: int| 0 <= i < envs.len() && (#[trigger] envs[i]).0@ == name {
        Some(choose|i: int| 0 <= i < envs.len() && (#[trigger] envs[i]).0@ == name)
    } else {
        None
    }
}

/// Finds the position of environment `name` in the artifact.
fn find_env(artifact: &SyncArtifact, name: &str) -> (r: Option<usize>)
    ensures
        match r {
            Some(i) => i < artifact.environments@.len() && artifact.environments@[i as int].0@ == name@,
            None => forall|i: int| 0 <= i < artifact.environments@.len() ==> (#[trigger] artifact.environments@[i]).0@
                != name@,
        },
{
    let mut i: usize = 0;
    while i < artifact.environments.len()
        invariant
            0 <= i <= artifact.environments@.len(),
            forall|k: int| 0 <= k < i ==> (#[trigger] artifact.environments@[k]).0@ != name@,
        decreases artifact.environments@.len() - i,
    {
        match compare_str(artifact.environments[i].0.as_str(), name) {
            KeyOrder::Equal => return Some(i),
            _ => {},
        }
        i = i + 1;
    }
    None
}

/// Decrypts a single named environment from `artifact` using `passphrase`.
///
/// `Ok(Some(secrets))` when the environment exists and the passphrase opens
/// it; `Ok(None)` when the environment is absent or cannot be opened (wrong
/// passphrase or tampered data). Never an error.
pub fn unseal_env(artifact: &SyncArtifact, env_name: &str, passphrase: &str) -> (r: Result<Option<Vec<(String, String)>>, SyncError>)
    requires
        artifact.wf(),
        kdf_params_in_range(*artifact),
    ensures
        r matches Ok(o) && match env_index(artifact.environments@, env_name@) {
            None => o is None,
            Some(i) => match unseal_outcome(passphrase@, artifact.environments@[i].1) {
                UnsealOutcome::Opened(m) => o matches Some(v) && pairs_view(v@) == m,
                _ => o is None,
            },
        },
{
    let idx = match find_env(artifact, env_name) {
        Some(i) => i,
        None => return Ok(None),
    };
    proof {
        let c = choose|k: int| 0 <= k < artifact.environments@.len() && (#[trigger] artifact.environments@[k]).0@
            == env_name@;
        lemma_names_unique(artifact.environments@, c, idx as int);
        assert(artifact.environments@[idx as int].1.kdf.parallelism <= KDF_PARALLELISM_LIMIT);
    }
    match unseal_envelope(passphrase, env_name, &artifact.environments[idx].1) {
        Ok(payload) => Ok(Some(payload.secrets)),
        Err(_) => Ok(None),
    }
}

/// Seals one environment's secrets into an envelope with `passphrase`.
///
/// The envelope opens with the same passphrase to exactly these secrets.
/// Recording the seal time in the vault is the caller's job, and is done
/// only when this succeeds.
pub fn seal_env(passphrase: &str, payload: &ArtifactPayload) -> (r: Result<EncryptedEnvelope, SyncError>)
    requires
        payload.wf(),
    ensures
        is_blank(passphrase@) ==> r matches Err(SyncError::Artifact(ArtifactError::WeakPassphrase)),
        !is_blank(passphrase@) && passphrase.spec_bytes().len() <= 0xFFFF_FFFF && payload_json_len(payload.secrets@)
            <= AES_GCM_MAX_PLAINTEXT && payload_json_len(payload.secrets@) + 16 <= usize::MAX / 4 ==> r is Ok,
        r is Err ==> r matches Err(SyncError::Artifact(_)),
        r matches Ok(e) ==> e.kdf.parallelism <= KDF_PARALLELISM_LIMIT && unseal_outcome(passphrase@, e)
            == UnsealOutcome::Opened(pairs_view(payload.secrets@)),
{
    if is_blank_str(passphrase) {
        return Err(SyncError::Artifact(ArtifactError::WeakPassphrase));
    }
    match seal_envelope(passphrase, payload) {
        Ok(e) => Ok(e),
        Err(e) => Err(SyncError::Artifact(e)),
    }
}

/// Returns `true` exactly when `passphrase` opens `envelope`.
///
/// A wrong passphrase and tampered data both give `false`: AES-GCM cannot
/// tell them apart, and both call for a rotation warning.
pub fn check_envelope_passphrase(passphrase: &str, env_name: &str, envelope: &EncryptedEnvelope) -> (b: bool)
    requires
        envelope.kdf.parallelism <= KDF_PARALLELISM_LIMIT,
    ensures
        b == (unseal_outcome(passphrase@, *envelope) is Opened),
{
    match unseal_envelope(passphrase, env_name, envelope) {
        Ok(_) => true,
        Err(_) => false,
    }
}

/// Returns a new, empty artifact at the current schema version.
pub fn new_empty_artifact() -> (a: SyncArtifact)
    ensures
        a.version == ARTIFACT_VERSION,
        a.environments@.len() == 0,
        a.wf(),
{
    SyncArtifact { version: ARTIFACT_VERSION, environments: Vec::new() }
}

/// Accepts a parsed artifact only at the supported schema version.
pub fn check_artifact_version(artifact: SyncArtifact) -> (r: Result<SyncArtifact, SyncError>)
    ensures
        artifact.version == ARTIFACT_VERSION ==> (r matches Ok(a) && a == artifact),
        artifact.version != ARTIFACT_VERSION ==> (r matches Err(SyncError::UnsupportedVersion(v)) && v
            == artifact.version),
{
    if artifact.version != ARTIFACT_VERSION {
        return Err(SyncError::UnsupportedVersion(artifact.version));
    }
    Ok(artifact)
}

/// The envelope stored under `name`, if any.
pub open spec fn envelope_of(envs: Seq<(String, EncryptedEnvelope)>, name: Seq<char>) -> Option<EncryptedEnvelope> {
    match env_index(envs, name) {
        Some(i) => Some(envs[i].1),
        None => None,
    }
}

/// Whether environment `name` occurs in `envs`.
pub open spec fn has_env(envs: Seq<(String, EncryptedEnvelope)>, name: Seq<char>) -> bool {
    exists|i: int| 0 <= i < envs.len() && (#[trigger] envs[i]).0@ == name
}

/// Stores `envelope` under `name`, replacing an envelope already stored there
/// and keeping every other environment exactly as it was (the smart merge of
/// `envy encrypt`: environments not sealed in this run are preserved).
pub fn merge_envelope(artifact: &mut SyncArtifact, name: String, envelope: EncryptedEnvelope)
    requires
        old(artifact).wf(),
    ensures
        final(artifact).wf(),
        final(artifact).version == old(artifact).version,
        envelope_of(final(artifact).environments@, name@) == Some(envelope),
        forall|k: Seq<char>| k != name@ ==> envelope_of(final(artifact).environments@, k) == envelope_of(
            old(artifact).environments@,
            k,
        ),
        forall|k: Seq<char>| has_env(final(artifact).environments@, k) <==> (k == name@ || has_env(
            old(artifact).environments@,
            k,
        )),
        forall|i: int| 0 <= i < final(artifact).environments@.len() ==> (#[trigger] final(artifact).environments@[i]).1
            == envelope || exists|j: int| 0 <= j < old(artifact).environments@.len() && old(artifact).environments@[j].1
            == final(artifact).environments@[i].1,
{
    let ghost olds = artifact.environments@;
    let n = artifact.environments.len();
    let mut pos: usize = 0;
    while pos < n
        invariant
            n == artifact.environments@.len(),
            artifact.environments@ == olds,
            artifact.wf(),
            0 <= pos <= n,
            forall|k: int| 0 <= k < pos ==> char_seq_lt((#[trigger] olds[k]).0@, name@),
        ensures
            0 <= pos <= n,
            artifact.environments@ == olds,
            forall|k: int| 0 <= k < pos ==> char_seq_lt((#[trigger] olds[k]).0@, name@),
            pos < n ==> !char_seq_lt(olds[pos as int].0@, name@),
        decreases n - pos,
    {
        match compare_str(artifact.environments[pos].0.as_str(), name.as_str()) {
            KeyOrder::Less => {},
            _ => break,
        }
        pos = pos + 1;
    }
    let ghost names = env_names(olds);
    let replace = pos < n && match compare_str(artifact.environments[pos].0.as_str(), name.as_str()) {
        KeyOrder::Equal => true,
        _ => false,
    };
    proof {
        assert forall|k: int| 0 <= k < olds.len() && pos <= k implies !char_seq_lt(
            (#[trigger] olds[k]).0@,
            name@,
        ) by {
            if pos < k {
                assert(names[pos as int] == olds[pos as int].0@);
                assert(names[k] == olds[k].0@);
                assert(char_seq_lt(names[pos as int], names[k]));
                if char_seq_lt(olds[k].0@, name@) {
                    lemma_lt_transitive(olds[pos as int].0@, olds[k].0@, name@);
                    crate::text::lemma_lt_asymmetric(olds[pos as int].0@, name@);
                }
            }
        }
        if pos < n && !replace {
            crate::text::lemma_lt_total(olds[pos as int].0@, name@);
        }
    }
    if replace {
        artifact.environments.set(pos, (name, envelope));
    } else {
        artifact.environments.insert(pos, (name, envelope));
    }
    let ghost news = artifact.environments@;
    proof {
        let nn = env_names(news);
        assert forall|i: int, j: int| 0 <= i < j < nn.len() implies char_seq_lt(#[trigger] nn[i], #[trigger] nn[j]) by {
            assert(nn[i] == news[i].0@);
            assert(nn[j] == news[j].0@);
            if replace {
                if i != pos && j != pos {
                    assert(names[i] == olds[i].0@ && names[j] == olds[j].0@);
                } else if i == pos {
                    assert(names[i] == olds[i].0@ && names[j] == olds[j].0@);
                } else {
                    assert(names[i] == olds[i].0@ && names[j] == olds[j].0@);
                }
            } else {
                if j < pos {
                    assert(names[i] == olds[i].0@ && names[j] == olds[j].0@);
                } else if i > pos {
                    assert(names[i - 1] == olds[i - 1].0@ && names[j - 1] == olds[j - 1].0@);
                } else if i == pos {
                    assert(names[j - 1] == olds[j - 1].0@);
                    if j - 1 > pos {
                        assert(names[pos as int] == olds[pos as int].0@);
                        lemma_lt_transitive(name@, olds[pos as int].0@, olds[j - 1].0@);
                    }
                } else if j > pos {
                    assert(names[i] == olds[i].0@ && names[j - 1] == olds[j - 1].0@);
                }
            }
        }
        assert(artifact.wf());
        assert(news[pos as int].0@ == name@);
        assert forall|k: Seq<char>| has_env(news, k) <==> (k == name@ || has_env(olds, k)) by {
            if has_env(olds, k) {
                let q = choose|q: int| 0 <= q < olds.len() && (#[trigger] olds[q]).0@ == k;
                if replace {
                    assert(news[q].0@ == k);
                } else if q < pos {
                    assert(news[q].0@ == k);
                } else {
                    assert(news[q + 1].0@ == k);
                }
            }
            if has_env(news, k) {
                let q = choose|q: int| 0 <= q < news.len() && (#[trigger] news[q]).0@ == k;
                if q != pos {
                    if replace || q < pos {
                        assert(olds[q].0@ == k);
                    } else {
                        assert(olds[q - 1].0@ == k);
                    }
                }
            }
        }
        assert forall|i: int| 0 <= i < news.len() implies (#[trigger] news[i]).1 == envelope || exists|j: int|
            0 <= j < olds.len() && olds[j].1 == news[i].1 by {
            if i != pos {
                if replace || i < pos {
                    assert(olds[i].1 == news[i].1);
                } else {
                    assert(olds[i - 1].1 == news[i].1);
                }
            }
        }
        assert(has_env(news, name@));
        let ci = choose|q: int| 0 <= q < news.len() && (#[trigger] news[q]).0@ == name@;
        lemma_names_unique(news, ci, pos as int);
        assert forall|k: Seq<char>| k != name@ implies envelope_of(news, k) == envelope_of(olds, k) by {
            if has_env(olds, k) {
                let q = choose|q: int| 0 <= q < olds.len() && (#[trigger] olds[q]).0@ == k;
                let q2 = choose|q2: int| 0 <= q2 < news.len() && (#[trigger] news[q2]).0@ == k;
                assert(has_env(news, k));
                let qn: int = if replace || q < pos { q } else { q + 1 };
                assert(news[qn] == olds[q]);
                lemma_names_unique(news, q2, qn);
                let q1 = choose|q1: int| 0 <= q1 < olds.len() && (#[trigger] olds[q1]).0@ == k;
                lemma_names_unique(olds, q1, q);
            } else {
                assert(!has_env(news, k));
            }
        }
    }
}

/// The secrets of the last environment of `envs` whose lowercased name is
/// `k`, if any.
pub open spec fn last_payload(envs: Seq<(String, ArtifactPayload)>, k: Seq<char>) -> Option<Seq<(Seq<char>, Seq<char>)>>
    decreases envs.len(),
{
    if envs.len() == 0 {
        None
    } else if spec_to_lowercase(envs.last().0@) == k {
        Some(pairs_view(envs.last().1.secrets@))
    } else {
        last_payload(envs.drop_last(), k)
    }
}

/// Whether sealing every payload of `envs` is within the limits of the
/// cryptography: the passphrase fits Argon2 and every JSON payload fits
/// AES-GCM and Base64.
pub open spec fn sealable(passphrase: &str, envs: Seq<(String, ArtifactPayload)>) -> bool {
    &&& passphrase.spec_bytes().len() <= 0xFFFF_FFFF
    &&& forall|i: int| 0 <= i < envs.len() ==> payload_json_len((#[trigger] envs[i]).1.secrets@)
        <= AES_GCM_MAX_PLAINTEXT && payload_json_len(envs[i].1.secrets@) + 16 <= usize::MAX / 4
}

/// Seals each environment's secrets with `passphrase` into a new artifact.
///
/// `envs` pairs each requested environment name with the secrets that the
/// vault holds for it. Names are lowercased: the artifact's environments are
/// exactly the lowercased names. When two names lowercase alike, the last
/// payload for them is kept. Each envelope of the result opens with
/// `passphrase` to exactly the secrets it was sealed from.
pub fn seal_artifact(passphrase: &str, envs: &Vec<(String, ArtifactPayload)>) -> (r: Result<SyncArtifact, SyncError>)
    requires
        forall|i: int| 0 <= i < envs@.len() ==> (#[trigger] envs@[i]).1.wf(),
    ensures
        is_blank(passphrase@) ==> r matches Err(SyncError::Artifact(ArtifactError::WeakPassphrase)),
        !is_blank(passphrase@) && sealable(passphrase, envs@) ==> r is Ok,
        r is Err ==> r matches Err(SyncError::Artifact(_)),
        r matches Ok(a) ==> {
            &&& a.version == ARTIFACT_VERSION
            &&& a.wf()
            &&& kdf_params_in_range(a)
            &&& forall|k: Seq<char>| #![trigger last_payload(envs@, k)] #![trigger envelope_of(a.environments@, k)] match last_payload(envs@, k) {
                Some(m) => envelope_of(a.environments@, k) matches Some(e) && unseal_outcome(passphrase@, e)
                    == UnsealOutcome::Opened(m),
                None => envelope_of(a.environments@, k) is None,
            }
        },
{
    if is_blank_str(passphrase) {
        return Err(SyncError::Artifact(ArtifactError::WeakPassphrase));
    }
    let mut artifact = new_empty_artifact();
    let mut i: usize = 0;
    while i < envs.len()
        invariant
            forall|x: int| 0 <= x < envs@.len() ==> (#[trigger] envs@[x]).1.wf(),
            !is_blank(passphrase@),
            0 <= i <= envs@.len(),
            artifact.version == ARTIFACT_VERSION,
            artifact.wf(),
            kdf_params_in_range(artifact),
            forall|k: Seq<char>| #![trigger last_payload(envs@.take(i as int), k)] #![trigger envelope_of(artifact.environments@, k)] match last_payload(envs@.take(i as int), k) {
                Some(m) => envelope_of(artifact.environments@, k) matches Some(e) && unseal_outcome(passphrase@, e)
                    == UnsealOutcome::Opened(m),
                None => envelope_of(artifact.environments@, k) is None,
            },
        decreases envs@.len() - i,
    {
        let envelope = match seal_envelope(passphrase, &envs[i].1) {
            Ok(e) => e,
            Err(e) => return Err(SyncError::Artifact(e)),
        };
        let ghost before = artifact;
        let ghost sealed = envelope;
        let name = to_lowercase(envs[i].0.as_str());
        merge_envelope(&mut artifact, name, envelope);
        proof {
            let pre = envs@.take(i as int);
            let post = envs@.take(i + 1);
            assert(post.drop_last() =~= pre);
            assert(post.last() == envs@[i as int]);
            assert forall|x: int| 0 <= x < artifact.environments@.len() implies (#[trigger] artifact.environments@[x]).1.kdf.parallelism
                <= KDF_PARALLELISM_LIMIT by {
                if artifact.environments@[x].1 != sealed {
                    let j = choose|j: int| 0 <= j < before.environments@.len() && before.environments@[j].1
                        == artifact.environments@[x].1;
                    assert(before.environments@[j].1.kdf.parallelism <= KDF_PARALLELISM_LIMIT);
                }
            }
        }
        i = i + 1;
    }
    proof {
        assert(envs@.take(envs@.len() as int) =~= envs@);
    }
    Ok(artifact)
}

/// Unsealing sorts every environment into exactly one of the two lists: the
/// imported and the skipped environments together are as many as the
/// artifact holds.
pub proof fn lemma_unseal_partitions(pass: Seq<char>, envs: Seq<(String, EncryptedEnvelope)>)
    ensures
        opened_envs(pass, envs).len() + refused_envs(pass, envs).len() == envs.len(),
    decreases envs.len(),
{
    if envs.len() > 0 {
        lemma_unseal_partitions(pass, envs.drop_last());
    }
}

/// When the passphrase opens every envelope, unsealing imports every
/// environment, in order and with the secrets its envelope opens to, and
/// skips none.
pub proof fn lemma_all_opened(pass: Seq<char>, envs: Seq<(String, EncryptedEnvelope)>)
    requires
        forall|i: int| 0 <= i < envs.len() ==> unseal_outcome(pass, (#[trigger] envs[i]).1) is Opened,
    ensures
        refused_envs(pass, envs).len() == 0,
        opened_envs(pass, envs).len() == envs.len(),
        forall|i: int| 0 <= i < envs.len() ==> UnsealOutcome::Opened((#[trigger] opened_envs(pass, envs)[i]).1)
            == unseal_outcome(pass, envs[i].1) && opened_envs(pass, envs)[i].0 == envs[i].0@,
    decreases envs.len(),
{
    if envs.len() > 0 {
        let init = envs.drop_last();
        assert forall|i: int| 0 <= i < init.len() implies unseal_outcome(pass, (#[trigger] init[i]).1) is Opened by {
            assert(init[i] == envs[i]);
        }
        lemma_all_opened(pass, init);
        assert(unseal_outcome(pass, envs[envs.len() - 1].1) is Opened);
        assert forall|i: int| 0 <= i < envs.len() implies UnsealOutcome::Opened(
            (#[trigger] opened_envs(pass, envs)[i]).1,
        ) == unseal_outcome(pass, envs[i].1) && opened_envs(pass, envs)[i].0 == envs[i].0@ by {
            if i < init.len() {
                assert(init[i] == envs[i]);
                assert(opened_envs(pass, envs)[i] == opened_envs(pass, init)[i]);
            }
        }
    }
}

/// Sealing then unsealing with the same passphrase: every environment of an
/// artifact that [`seal_artifact`] built from `input` is imported, with the
/// secrets last given for its name, and none is skipped.
pub proof fn lemma_seal_then_unseal(pass: Seq<char>, input: Seq<(String, ArtifactPayload)>, a: SyncArtifact)
    requires
        a.wf(),
        forall|k: Seq<char>| #![trigger last_payload(input, k)] #![trigger envelope_of(a.environments@, k)] match last_payload(input, k) {
            Some(m) => envelope_of(a.environments@, k) matches Some(e) && unseal_outcome(pass, e)
                == UnsealOutcome::Opened(m),
            None => envelope_of(a.environments@, k) is None,
        },
    ensures
        refused_envs(pass, a.environments@).len() == 0,
        opened_envs(pass, a.environments@).len() == a.environments@.len(),
        forall|i: int| 0 <= i < a.environments@.len() ==> (#[trigger] opened_envs(pass, a.environments@)[i]) == (
            a.environments@[i].0@,
            last_payload(input, a.environments@[i].0@)->0,
        ),
{
    let envs = a.environments@;
    assert forall|i: int| 0 <= i < envs.len() implies unseal_outcome(pass, (#[trigger] envs[i]).1) == UnsealOutcome::Opened(
        last_payload(input, envs[i].0@)->0,
    ) by {
        let k = envs[i].0@;
        assert(has_env(envs, k));
        assert(env_index(envs, k) is Some);
        let d = env_index(envs, k)->0;
        assert(0 <= d < envs.len() && envs[d].0@ == k);
        lemma_names_unique(envs, d, i);
        assert(envelope_of(envs, k) == Some(envs[i].1));
        match last_payload(input, k) {
            Some(m) => {},
            None => {},
        }
    }
    lemma_all_opened(pass, envs);
}

/// In a list with strictly ascending names a name occurs at most once.
proof fn lemma_names_unique(envs: Seq<(String, EncryptedEnvelope)>, i: int, j: int)
    requires
        names_sorted(env_names(envs)),
        0 <= i < envs.len(),
        0 <= j < envs.len(),
        envs[i].0@ == envs[j].0@,
    ensures
        i == j,
{
    let names = env_names(envs);
    assert(names[i] == envs[i].0@);
    assert(names[j] == envs[j].0@);
    if i < j {
        assert(char_seq_lt(names[i], names[j]));
        crate::text::lemma_lt_irreflexive(names[i]);
    } else if j < i {
        assert(char_seq_lt(names[j], names[i]));
        crate::text::lemma_lt_irreflexive(names[i]);
    }
}

} // verus!
