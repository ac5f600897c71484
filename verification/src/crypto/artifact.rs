//! Cryptography of the `envy.enc` sync artifact: Argon2id key derivation,
//! per-environment AES-256-GCM envelopes and the artifact data types.
//!
//! Reading and writing the artifact file is the application's job; this
//! module only turns passphrases and secret maps into envelopes and back.
use vstd::prelude::*;
use vstd::string::StringSliceAdditionalSpecFns;
use aes_gcm::aead::OsRng;
use aes_gcm::aead::rand_core::RngCore;
use base64ct::{Base64, Encoding};
use crate::crypto::aead::{decrypt, decrypt_outcome, encrypt, AES_GCM_MAX_PLAINTEXT};
use crate::crypto::error::CryptoError;
use crate::pairs::{keys_sorted, names_sorted, pairs_view};
use crate::text::{compare_str, is_blank, is_blank_str, push_str, KeyOrder};

verus! {

/// Schema version embedded in every `envy.enc` file.
pub const ARTIFACT_VERSION: u32 = 1u32;
/// Argon2id memory cost in kibibytes (64 MiB).
pub const KDF_MEMORY_KIB: u32 = 65536u32;
/// Argon2id time cost (iterations).
pub const KDF_TIME_COST: u32 = 3u32;
/// Argon2id parallelism factor.
pub const KDF_PARALLELISM: u32 = 4u32;
/// Size in bytes of the per-envelope random salt.
pub const KDF_SALT_BYTES: usize = 16usize;
/// Largest parallelism for which `argon2::Params::new` does not overflow
/// computing `p_cost * 8`.
pub const KDF_PARALLELISM_LIMIT: u32 = 0x1FFF_FFFFu32;

/// All errors that can be returned by the artifact cryptography layer.
#[derive(Debug)]
pub enum ArtifactError {
    /// Passphrase is empty or whitespace-only.
    WeakPassphrase,
    /// The top-level `envy.enc` structure is invalid.
    MalformedArtifact(String),
    /// One envelope is invalid or failed authentication (environment, reason).
    MalformedEnvelope(String, String),
    /// Unknown schema version or KDF algorithm (found, expected).
    UnsupportedVersion(u32, u32),
    /// Argon2id key derivation failed.
    KdfFailed(String),
}

/// The user-facing text of an [`ArtifactError`].
pub open spec fn artifact_error_text(e: ArtifactError) -> Seq<char> {
    match e {
        ArtifactError::WeakPassphrase => "passphrase must not be empty or whitespace"@,
        ArtifactError::MalformedArtifact(m) => "envy.enc is malformed: "@ + m@,
        ArtifactError::MalformedEnvelope(env, m) =>
            "envelope for environment '"@ + env@ + "' is malformed: "@ + m@,
        ArtifactError::UnsupportedVersion(found, expected) =>
            "unsupported artifact version "@ + crate::text::decimal(found as nat) + " (expected "@
                + crate::text::decimal(expected as nat) + ")"@,
        ArtifactError::KdfFailed(m) => "key derivation failed: "@ + m@,
    }
}

impl ArtifactError {
    /// Renders the error as the text shown to users.
    pub fn message(&self) -> (s: String)
        ensures
            s@ == artifact_error_text(*self),
    {
        match self {
            ArtifactError::WeakPassphrase => "passphrase must not be empty or whitespace".to_string(),
            ArtifactError::MalformedArtifact(m) => {
                let mut s = "envy.enc is malformed: ".to_string();
                push_str(&mut s, m.as_str());
                s
            },
            ArtifactError::MalformedEnvelope(env, m) => {
                let mut s = "envelope for environment '".to_string();
                push_str(&mut s, env.as_str());
                push_str(&mut s, "' is malformed: ");
                push_str(&mut s, m.as_str());
                proof {
                    assert(s@ =~= "envelope for environment '"@ + env@ + "' is malformed: "@ + m@);
                }
                s
            },
            ArtifactError::UnsupportedVersion(found, expected) => {
                let mut s = "unsupported artifact version ".to_string();
                let f = crate::text::u64_to_decimal(*found as u64);
                push_str(&mut s, f.as_str());
                push_str(&mut s, " (expected ");
                let x = crate::text::u64_to_decimal(*expected as u64);
                push_str(&mut s, x.as_str());
                push_str(&mut s, ")");
                proof {
                    assert(s@ =~= "unsupported artifact version "@ + crate::text::decimal(*found as nat)
                        + " (expected "@ + crate::text::decimal(*expected as nat) + ")"@);
                }
                s
            },
            ArtifactError::KdfFailed(m) => {
                let mut s = "key derivation failed: ".to_string();
                push_str(&mut s, m.as_str());
                s
            },
        }
    }
}

// ---------------------------------------------------------------------------
// Data types
// ---------------------------------------------------------------------------

/// Argon2id key-derivation parameters embedded in every envelope.
pub struct KdfParams {
    /// KDF algorithm identifier. Always `"argon2id"` for this version.
    pub algorithm: String,
    /// Argon2 memory parameter in kibibytes.
    pub memory_kib: u32,
    /// Argon2 time cost (sequential iterations).
    pub time_cost: u32,
    /// Argon2 parallelism factor (number of lanes).
    pub parallelism: u32,
    /// Base64-encoded 16-byte random salt.
    pub salt: String,
}

/// Self-describing encrypted payload for one environment.
pub struct EncryptedEnvelope {
    /// Base64-encoded AES-256-GCM ciphertext with the GCM tag appended.
    pub ciphertext: String,
    /// Base64-encoded 12-byte AES-GCM nonce.
    pub nonce: String,
    /// Argon2id parameters used to derive the key from the passphrase.
    pub kdf: KdfParams,
}

/// Root structure of an `envy.enc` file: per-environment envelopes, held in
/// ascending name order with no name twice (the order of the JSON object).
pub struct SyncArtifact {
    /// Schema version. Equals [`ARTIFACT_VERSION`] for this release.
    pub version: u32,
    /// Per-environment encrypted payloads, keyed by environment name.
    pub environments: Vec<(String, EncryptedEnvelope)>,
}

/// Plaintext content of one environment: secret names and values in
/// ascending name order, no name twice.
pub struct ArtifactPayload {
    /// Secret key names paired with their plaintext values.
    pub secrets: Vec<(String, String)>,
}

/// The environment names of an artifact, in order.
pub open spec fn env_names(s: Seq<(String, EncryptedEnvelope)>) -> Seq<Seq<char>> {
    s.map_values(|p: (String, EncryptedEnvelope)| p.0@)
}

impl ArtifactPayload {
    /// Well-formed: secret names strictly ascending.
    pub open spec fn wf(&self) -> bool {
        keys_sorted(pairs_view(self.secrets@))
    }
}

impl SyncArtifact {
    /// Well-formed: environment names strictly ascending.
    pub open spec fn wf(&self) -> bool {
        names_sorted(env_names(self.environments@))
    }
}

// ---------------------------------------------------------------------------
// Trusted calls into base64ct, argon2, serde_json, std and the OS RNG
// ---------------------------------------------------------------------------

/// Padded standard Base64 text of `b` (RFC 4648).
pub uninterp spec fn spec_base64_encode(b: Seq<u8>) -> Seq<char>;

/// Bytes encoded by padded standard Base64 text `s`, if it is valid.
pub uninterp spec fn spec_base64_decode(s: Seq<char>) -> Option<Seq<u8>>;

/// Argon2id (version 0x13) output of 32 bytes for a password, salt and costs.
pub uninterp spec fn spec_argon2id(password: Seq<u8>, salt: Seq<u8>, m_cost: u32, t_cost: u32, p_cost: u32) -> Seq<u8>;

/// Compact JSON object encoding of a map from secret names to values.
pub uninterp spec fn spec_json_encode_secrets(m: Seq<(Seq<char>, Seq<char>)>) -> Seq<u8>;

/// The name/value map (in ascending name order) that JSON bytes encode, if
/// they are a JSON object of strings.
pub uninterp spec fn spec_json_decode_secrets(b: Seq<u8>) -> Option<Seq<(Seq<char>, Seq<char>)>>;

/// Trusted: `base64ct::Base64::encode_string`.
///
/// Claims: the result is the padded Base64 text [`spec_base64_encode`],
/// 4 characters per started 3 bytes, and `decode_vec` of it gives the bytes
/// back. The call panics for inputs longer than `usize::MAX / 4`.
#[verifier::external_body]
fn base64_encode(b: &[u8]) -> (s: String)
    requires
        b@.len() <= usize::MAX / 4,
    ensures
        s@ == spec_base64_encode(b@),
        s@.len() == 4 * ((b@.len() + 2) / 3),
        spec_base64_decode(s@) == Some(b@),
{
    Base64::encode_string(b)
}

/// Trusted: `base64ct::Base64::decode_vec`.
///
/// Claims: it succeeds exactly when [`spec_base64_decode`] gives bytes, and
/// returns them; on failure the text is the error's `Display` (not stated).
#[verifier::external_body]
fn base64_decode(s: &str) -> (r: Result<Vec<u8>, String>)
    ensures
        match spec_base64_decode(s@) {
            Some(b) => r matches Ok(v) && v@ == b,
            None => r is Err,
        },
{
    Base64::decode_vec(s).map_err(|e| e.to_string())
}

/// Whether `argon2::Params::new(m, t, p, Some(32))` accepts the costs.
pub open spec fn argon2_params_accepted(m: u32, t: u32, p: u32) -> bool {
    &&& m >= 8
    &&& m >= p * 8
    &&& t >= 1
    &&& p >= 1
    &&& p <= 0xFF_FFFF
}

/// Trusted: `argon2::Params::new(m, t, p, Some(32))` followed by
/// `Argon2::new(Argon2id, V0x13, params).hash_password_into` into 32 bytes.
///
/// Claims: it succeeds exactly when the costs pass the checks of
/// `Params::new` and the password is at most `u32::MAX` bytes (the salt is
/// 16 bytes, within bounds), and the output is [`spec_argon2id`]. The error
/// text is the argon2 error's `Display` (not stated). `Params::new` computes
/// `p * 8` in `u32`, so a larger `p` is excluded. Allocation of the memory
/// blocks is not modelled.
#[verifier::external_body]
fn argon2id_hash(password: &[u8], salt: &[u8; 16], m: u32, t: u32, p: u32) -> (r: Result<[u8; 32], String>)
    requires
        p <= KDF_PARALLELISM_LIMIT,
    ensures
        (r is Ok) == (argon2_params_accepted(m, t, p) && password@.len() <= 0xFFFF_FFFF),
        r matches Ok(k) ==> k@ == spec_argon2id(password@, salt@, m, t, p),
{
    let params = argon2::Params::new(m, t, p, Some(32)).map_err(|e| e.to_string())?;
    let mut out = [0u8; 32];
    argon2::Argon2::new(argon2::Algorithm::Argon2id, argon2::Version::V0x13, params)
        .hash_password_into(password, salt, &mut out)
        .map_err(|e| e.to_string())?;
    Ok(out)
}

/// Trusted: `serde_json::to_vec` of the pairs collected into a
/// `BTreeMap<&str, &str>`.
///
/// Claims: serialization succeeds (string keys and values only, which the
/// crate documents as infallible), the bytes are [`spec_json_encode_secrets`],
/// and decoding them as a map gives the same ascending pairs back.
#[verifier::external_body]
fn json_encode_secrets(secrets: &Vec<(String, String)>) -> (r: Result<Vec<u8>, String>)
    requires
        keys_sorted(pairs_view(secrets@)),
    ensures
        r is Ok,
        r matches Ok(b) ==> {
            &&& b@ == spec_json_encode_secrets(pairs_view(secrets@))
            &&& spec_json_decode_secrets(b@) == Some(pairs_view(secrets@))
        },
{
    let map: std::collections::BTreeMap<&str, &str> =
        secrets.iter().map(|(k, v)| (k.as_str(), v.as_str())).collect();
    serde_json::to_vec(&map).map_err(|e| e.to_string())
}

/// Trusted: `serde_json::from_slice::<BTreeMap<String, String>>`, the map
/// then listed in its (ascending) iteration order.
///
/// Claims: it succeeds exactly when [`spec_json_decode_secrets`] gives a
/// map, returns its pairs, and those are in strictly ascending key order
/// (`BTreeMap` iterates in key order; UTF-8 byte order is code-point order).
/// The error text is serde_json's `Display` (not stated).
#[verifier::external_body]
fn json_decode_secrets(b: &[u8]) -> (r: Result<Vec<(String, String)>, String>)
    ensures
        match spec_json_decode_secrets(b@) {
            Some(m) => r matches Ok(v) && pairs_view(v@) == m,
            None => r is Err,
        },
        r matches Ok(v) ==> keys_sorted(pairs_view(v@)),
{
    let map: std::collections::BTreeMap<String, String> =
        serde_json::from_slice(b).map_err(|e| e.to_string())?;
    Ok(map.into_iter().collect())
}

/// Trusted: `RngCore::fill_bytes` of `OsRng` on 16 bytes. Nothing is
/// promised of the value.
#[verifier::external_body]
fn random_salt() -> (s: [u8; 16]) {
    let mut salt = [0u8; 16];
    OsRng.fill_bytes(&mut salt);
    salt
}

// ---------------------------------------------------------------------------
// derive_key / seal_envelope / unseal_envelope
// ---------------------------------------------------------------------------

/// Whether Argon2id accepts `params` for a passphrase of `pass_bytes`.
pub open spec fn kdf_accepts(pass_bytes: Seq<u8>, params: KdfParams) -> bool {
    argon2_params_accepted(params.memory_kib, params.time_cost, params.parallelism)
        && pass_bytes.len() <= 0xFFFF_FFFF
}

/// What [`derive_key`] computes, or `None` when it fails.
pub open spec fn derived_key(pass: Seq<char>, salt: Seq<u8>, params: KdfParams) -> Option<Seq<u8>> {
    if is_blank(pass) || !kdf_accepts(vstd::utf8::encode_utf8(pass), params) {
        None
    } else {
        Some(spec_argon2id(vstd::utf8::encode_utf8(pass), salt, params.memory_kib, params.time_cost, params.parallelism))
    }
}

/// Derives a 32-byte AES-256-GCM key from `passphrase` with Argon2id.
///
/// Fails with `WeakPassphrase` for a blank passphrase and with `KdfFailed`
/// when Argon2 rejects the parameters (or a passphrase over 4 GiB).
pub fn derive_key(passphrase: &str, salt: &[u8; 16], params: &KdfParams) -> (r: Result<[u8; 32], ArtifactError>)
    requires
        params.parallelism <= KDF_PARALLELISM_LIMIT,
    ensures
        is_blank(passphrase@) ==> r matches Err(ArtifactError::WeakPassphrase),
        !is_blank(passphrase@) && !kdf_accepts(passphrase.spec_bytes(), *params) ==> r matches Err(
            ArtifactError::KdfFailed(_),
        ),
        match derived_key(passphrase@, salt@, *params) {
            Some(k) => r matches Ok(key) && key@ == k,
            None => r is Err,
        },
{
    if is_blank_str(passphrase) {
        return Err(ArtifactError::WeakPassphrase);
    }
    match argon2id_hash(passphrase.as_bytes(), salt, params.memory_kib, params.time_cost, params.parallelism) {
        Ok(key) => Ok(key),
        Err(msg) => Err(ArtifactError::KdfFailed(msg)),
    }
}

/// Length of the JSON encoding of a secret map.
pub open spec fn payload_json_len(secrets: Seq<(String, String)>) -> nat {
    spec_json_encode_secrets(pairs_view(secrets)).len()
}

/// How unsealing an envelope with a passphrase ends.
pub enum UnsealOutcome {
    /// The passphrase is blank.
    Weak,
    /// The KDF algorithm is not `argon2id`.
    UnsupportedAlgorithm,
    /// Argon2id rejected the parameters.
    KdfRejected,
    /// Bad Base64, bad salt length, failed authentication or bad JSON.
    Malformed,
    /// The decrypted secret map.
    Opened(Seq<(Seq<char>, Seq<char>)>),
}

/// What [`unseal_envelope`] gives for passphrase `pass` and `env`.
pub open spec fn unseal_outcome(pass: Seq<char>, env: EncryptedEnvelope) -> UnsealOutcome {
    if is_blank(pass) {
        UnsealOutcome::Weak
    } else if env.kdf.algorithm@ != "argon2id"@ {
        UnsealOutcome::UnsupportedAlgorithm
    } else {
        match spec_base64_decode(env.kdf.salt@) {
            None => UnsealOutcome::Malformed,
            Some(salt) => if salt.len() != 16 {
                UnsealOutcome::Malformed
            } else {
                match derived_key(pass, salt, env.kdf) {
                    None => UnsealOutcome::KdfRejected,
                    Some(key) => match (spec_base64_decode(env.ciphertext@), spec_base64_decode(env.nonce@)) {
                        (Some(ct), Some(nonce)) => match decrypt_outcome(key, ct, nonce) {
                            Ok(pt) => match spec_json_decode_secrets(pt) {
                                Some(m) => UnsealOutcome::Opened(m),
                                None => UnsealOutcome::Malformed,
                            },
                            Err(_) => UnsealOutcome::Malformed,
                        },
                        _ => UnsealOutcome::Malformed,
                    },
                }
            },
        }
    }
}

/// Whether an `unseal_envelope` result for environment `name` agrees with
/// the outcome `o`.
pub open spec fn matches_unseal(r: Result<ArtifactPayload, ArtifactError>, name: Seq<char>, o: UnsealOutcome) -> bool {
    match o {
        UnsealOutcome::Weak => r matches Err(ArtifactError::WeakPassphrase),
        UnsealOutcome::UnsupportedAlgorithm => r matches Err(ArtifactError::UnsupportedVersion(found, expected))
            && found == 0 && expected == ARTIFACT_VERSION,
        UnsealOutcome::KdfRejected => r matches Err(ArtifactError::KdfFailed(_)),
        UnsealOutcome::Malformed => r matches Err(ArtifactError::MalformedEnvelope(n, _)) && n@ == name,
        UnsealOutcome::Opened(m) => r matches Ok(p) && pairs_view(p.secrets@) == m && p.wf(),
    }
}

/// Encrypts `payload` into a self-describing envelope sealed with
/// `passphrase`: fresh random salt and nonce, Argon2id with the constant
/// costs, AES-256-GCM over the JSON encoding of the secret map.
///
/// Unsealing the envelope with the same passphrase gives `payload` back.
pub fn seal_envelope(passphrase: &str, payload: &ArtifactPayload) -> (r: Result<EncryptedEnvelope, ArtifactError>)
    requires
        payload.wf(),
    ensures
        is_blank(passphrase@) ==> r matches Err(ArtifactError::WeakPassphrase),
        !is_blank(passphrase@) && passphrase.spec_bytes().len() <= 0xFFFF_FFFF
            && payload_json_len(payload.secrets@) <= AES_GCM_MAX_PLAINTEXT
            && payload_json_len(payload.secrets@) + 16 <= usize::MAX / 4 ==> r is Ok,
        r matches Ok(env) ==> {
            &&& env.kdf.algorithm@ == "argon2id"@
            &&& env.kdf.memory_kib == KDF_MEMORY_KIB
            &&& env.kdf.time_cost == KDF_TIME_COST
            &&& env.kdf.parallelism == KDF_PARALLELISM
            &&& unseal_outcome(passphrase@, env) == UnsealOutcome::Opened(pairs_view(payload.secrets@))
        },
{
    if is_blank_str(passphrase) {
        return Err(ArtifactError::WeakPassphrase);
    }
    let salt = random_salt();
    let salt_text = base64_encode(&salt);
    let kdf = KdfParams {
        algorithm: "argon2id".to_string(),
        memory_kib: KDF_MEMORY_KIB,
        time_cost: KDF_TIME_COST,
        parallelism: KDF_PARALLELISM,
        salt: salt_text,
    };
    let key = derive_key(passphrase, &salt, &kdf)?;
    let json = match json_encode_secrets(&payload.secrets) {
        Ok(b) => b,
        Err(msg) => return Err(ArtifactError::MalformedArtifact(msg)),
    };
    let encrypted = match encrypt(&key, json.as_slice()) {
        Ok(e) => e,
        Err(e) => return Err(ArtifactError::MalformedArtifact(e.message())),
    };
    if encrypted.ciphertext.len() > usize::MAX / 4 {
        return Err(ArtifactError::MalformedArtifact("ciphertext too long".to_string()));
    }
    let ciphertext = base64_encode(encrypted.ciphertext.as_slice());
    let nonce = base64_encode(&encrypted.nonce);
    let env = EncryptedEnvelope { ciphertext, nonce, kdf };
    proof {
        assert(salt@.len() == 16);
        assert(derived_key(passphrase@, salt@, env.kdf) == Some(key@));
    }
    Ok(env)
}

/// Decrypts an envelope back into its secret map.
///
/// Every failure other than a blank passphrase, an unknown algorithm or a
/// KDF rejection is reported as `MalformedEnvelope` naming `env_name`:
/// AES-GCM cannot tell a wrong passphrase from tampered data.
pub fn unseal_envelope(passphrase: &str, env_name: &str, envelope: &EncryptedEnvelope) -> (r: Result<ArtifactPayload, ArtifactError>)
    requires
        envelope.kdf.parallelism <= KDF_PARALLELISM_LIMIT,
    ensures
        matches_unseal(r, env_name@, unseal_outcome(passphrase@, *envelope)),
{
    if is_blank_str(passphrase) {
        return Err(ArtifactError::WeakPassphrase);
    }
    match compare_str(envelope.kdf.algorithm.as_str(), "argon2id") {
        KeyOrder::Equal => {},
        _ => return Err(ArtifactError::UnsupportedVersion(0, ARTIFACT_VERSION)),
    }
    let salt_bytes = match base64_decode(envelope.kdf.salt.as_str()) {
        Ok(b) => b,
        Err(msg) => return Err(ArtifactError::MalformedEnvelope(env_name.to_string(), msg)),
    };
    if salt_bytes.len() != 16 {
        return Err(ArtifactError::MalformedEnvelope(env_name.to_string(), "salt must be 16 bytes".to_string()));
    }
    let mut salt = [0u8; 16];
    let mut i: usize = 0;
    while i < 16
        invariant
            0 <= i <= 16,
            salt_bytes@.len() == 16,
            forall|j: int| 0 <= j < i ==> salt@[j] == salt_bytes@[j],
        decreases 16 - i,
    {
        salt[i] = salt_bytes[i];
        i += 1;
    }
    proof {
        assert(salt@ =~= salt_bytes@);
    }
    let key = derive_key(passphrase, &salt, &envelope.kdf)?;
    let ct = match base64_decode(envelope.ciphertext.as_str()) {
        Ok(b) => b,
        Err(msg) => return Err(ArtifactError::MalformedEnvelope(env_name.to_string(), msg)),
    };
    let nonce = match base64_decode(envelope.nonce.as_str()) {
        Ok(b) => b,
        Err(msg) => return Err(ArtifactError::MalformedEnvelope(env_name.to_string(), msg)),
    };
    let plaintext = match decrypt(&key, ct.as_slice(), nonce.as_slice()) {
        Ok(p) => p,
        Err(_) => return Err(ArtifactError::MalformedEnvelope(env_name.to_string(), "authentication failed".to_string())),
    };
    match json_decode_secrets(plaintext.as_slice()) {
        Ok(secrets) => Ok(ArtifactPayload { secrets }),
        Err(msg) => Err(ArtifactError::MalformedEnvelope(env_name.to_string(), msg)),
    }
}

} // verus!
