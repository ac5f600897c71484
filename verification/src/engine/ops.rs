//! Secret operations: key validation, environment-name normalisation and
//! the encrypt-to-store and fetch-to-decrypt steps around the vault store.
use vstd::prelude::*;
use crate::crypto::aead::{decrypt, decrypt_outcome, encrypt, EncryptedSecret, AES_GCM_MAX_PLAINTEXT};
use crate::crypto::error::CryptoError;
use crate::db::SecretRecord;
use crate::engine::error::CoreError;
use crate::text::{contains_spec, spec_to_lowercase, to_lowercase};
use vstd::string::StringSliceAdditionalSpecFns;

verus! {

/// The environment used when no explicit environment is given.
pub const DEFAULT_ENV: &'static str = "development";

/// Whether a secret key name is acceptable: non-empty and without `=`.
pub open spec fn valid_key(key: Seq<char>) -> bool {
    key.len() > 0 && !key.contains('=')
}

/// Validates a secret key name before any store or crypto call.
///
/// Fails with `InvalidSecretKey(key)` exactly when the key is empty or
/// contains `=`.
pub fn validate_key(key: &str) -> (r: Result<(), CoreError>)
    ensures
        valid_key(key@) ==> r is Ok,
        !valid_key(key@) ==> (r matches Err(CoreError::InvalidSecretKey(k)) && k@ == key@),
{
    let cs = crate::text::chars_of(key);
    if cs.len() == 0 {
        return Err(CoreError::InvalidSecretKey(key.to_string()));
    }
    let mut i: usize = 0;
    while i < cs.len()
        invariant
            cs@ == key@,
            0 <= i <= cs@.len(),
            forall|k: int| 0 <= k < i ==> cs@[k] != '=',
        decreases cs@.len() - i,
    {
        if cs[i] == '=' {
            proof {
                assert(key@.contains('='));
            }
            return Err(CoreError::InvalidSecretKey(key.to_string()));
        }
        i += 1;
    }
    Ok(())
}

/// The environment name an operation acts on: [`DEFAULT_ENV`] for an empty
/// name, else the name in Unicode lowercase.
pub open spec fn normalized_env(env_name: Seq<char>) -> Seq<char> {
    if env_name.len() == 0 {
        "development"@
    } else {
        spec_to_lowercase(env_name)
    }
}

/// Normalises an environment name: defaults to [`DEFAULT_ENV`] when empty,
/// then lowercases.
pub fn normalize_env(env_name: &str) -> (r: String)
    ensures
        r@ == normalized_env(env_name@),
{
    if crate::text::chars_of(env_name).len() == 0 {
        DEFAULT_ENV.to_string()
    } else {
        to_lowercase(env_name)
    }
}

/// Trusted: `String::from_utf8`, which std documents as succeeding exactly
/// when the bytes are valid UTF-8, the string then holding the characters
/// they encode.
#[verifier::external_body]
fn string_from_utf8(bytes: Vec<u8>) -> (r: Option<String>)
    ensures
        (r is Some) == vstd::utf8::valid_utf8(bytes@),
        r matches Some(s) ==> s@ == vstd::utf8::decode_utf8(bytes@),
{
    String::from_utf8(bytes).ok()
}

/// What decrypting a stored value gives: the text, or the error.
pub open spec fn decrypted_value(key: Seq<u8>, ciphertext: Seq<u8>, nonce: Seq<u8>) -> Result<Seq<char>, CryptoError> {
    match decrypt_outcome(key, ciphertext, nonce) {
        Ok(p) => if vstd::utf8::valid_utf8(p) {
            Ok(vstd::utf8::decode_utf8(p))
        } else {
            Err(CryptoError::DecryptionFailed)
        },
        Err(e) => Err(e),
    }
}

/// Whether a result agrees with [`decrypted_value`].
pub open spec fn matches_decrypted(r: Result<String, CoreError>, o: Result<Seq<char>, CryptoError>) -> bool {
    match o {
        Ok(v) => r matches Ok(s) && s@ == v,
        Err(CryptoError::InvalidNonce) => r matches Err(CoreError::Crypto(CryptoError::InvalidNonce)),
        Err(_) => r matches Err(CoreError::Crypto(CryptoError::DecryptionFailed)),
    }
}

/// Decrypts one stored value: AES-256-GCM under the master key, then UTF-8.
/// A value that authenticates but is not UTF-8 counts as a failed decryption.
pub fn decrypt_value(master_key: &[u8; 32], ciphertext: &[u8], nonce: &[u8]) -> (r: Result<String, CoreError>)
    ensures
        matches_decrypted(r, decrypted_value(master_key@, ciphertext@, nonce@)),
{
    match decrypt(master_key, ciphertext, nonce) {
        Ok(bytes) => match string_from_utf8(bytes) {
            Some(s) => Ok(s),
            None => Err(CoreError::Crypto(CryptoError::DecryptionFailed)),
        },
        Err(e) => Err(CoreError::Crypto(e)),
    }
}

/// Validates `key` and encrypts `plaintext` for storage under the master key.
///
/// Fails with `InvalidSecretKey` for a bad key name (before any encryption)
/// and with `Crypto(EncryptionFailed)` only for a value over 2^36 bytes.
/// Decrypting the stored ciphertext gives `plaintext` back.
pub fn encrypt_value(master_key: &[u8; 32], key: &str, plaintext: &str) -> (r: Result<EncryptedSecret, CoreError>)
    ensures
        !valid_key(key@) ==> (r matches Err(CoreError::InvalidSecretKey(k)) && k@ == key@),
        valid_key(key@) && plaintext.spec_bytes().len() <= AES_GCM_MAX_PLAINTEXT ==> r is Ok,
        valid_key(key@) && r is Err ==> r matches Err(CoreError::Crypto(CryptoError::EncryptionFailed)),
        r matches Ok(s) ==> decrypted_value(master_key@, s.ciphertext@, s.nonce@) == Ok::<Seq<char>, CryptoError>(
            plaintext@,
        ),
{
    validate_key(key)?;
    match encrypt(master_key, plaintext.as_bytes()) {
        Ok(s) => {
            proof {
                vstd::utf8::encode_utf8_valid_utf8(plaintext@);
                vstd::utf8::encode_utf8_decode_utf8(plaintext@);
            }
            Ok(s)
        },
        Err(e) => Err(CoreError::Crypto(e)),
    }
}

/// The decrypted (key, value) pairs of `records`, or the first failure.
pub open spec fn decrypted_records(key: Seq<u8>, records: Seq<SecretRecord>) -> Result<Seq<(Seq<char>, Seq<char>)>, CryptoError>
    decreases records.len(),
{
    if records.len() == 0 {
        Ok(seq![])
    } else {
        match decrypted_records(key, records.drop_last()) {
            Err(e) => Err(e),
            Ok(prev) => match decrypted_value(key, records.last().value_encrypted@, records.last().value_nonce@) {
                Ok(v) => Ok(prev.push((records.last().key@, v))),
                Err(e) => Err(e),
            },
        }
    }
}

proof fn lemma_error_sticks(key: Seq<u8>, records: Seq<SecretRecord>, i: int, n: int)
    requires
        1 <= i <= n <= records.len(),
        decrypted_records(key, records.take(i)) is Err,
    ensures
        decrypted_records(key, records.take(n)) == decrypted_records(key, records.take(i)),
    decreases n - i,
{
    if n > i {
        lemma_error_sticks(key, records, i, n - 1);
        assert(records.take(n).drop_last() =~= records.take(n - 1));
    }
}

/// Decrypts every record of an environment, keeping record order.
///
/// All or nothing: if any single value fails to decrypt, the whole call
/// fails with that value's error and no pair is returned.
pub fn decrypt_records(master_key: &[u8; 32], records: &Vec<SecretRecord>) -> (r: Result<Vec<(String, String)>, CoreError>)
    ensures
        match decrypted_records(master_key@, records@) {
            Ok(m) => r matches Ok(v) && crate::pairs::pairs_view(v@) == m,
            Err(CryptoError::InvalidNonce) => r matches Err(CoreError::Crypto(CryptoError::InvalidNonce)),
            Err(_) => r matches Err(CoreError::Crypto(CryptoError::DecryptionFailed)),
        },
{
    let mut out: Vec<(String, String)> = Vec::new();
    let mut i: usize = 0;
    proof {
        assert(records@.take(0) =~= Seq::<SecretRecord>::empty());
        assert(crate::pairs::pairs_view(out@) =~= Seq::<(Seq<char>, Seq<char>)>::empty());
    }
    while i < records.len()
        invariant
            0 <= i <= records@.len(),
            decrypted_records(master_key@, records@.take(i as int)) == Ok::<Seq<(Seq<char>, Seq<char>)>, CryptoError>(
                crate::pairs::pairs_view(out@),
            ),
        decreases records@.len() - i,
    {
        let rec = &records[i];
        proof {
            assert(records@.take(i + 1).drop_last() =~= records@.take(i as int));
            assert(records@.take(i + 1).last() == records@[i as int]);
        }
        let value = decrypt_value(master_key, rec.value_encrypted.as_slice(), rec.value_nonce.as_slice());
        let ghost prev = out@;
        match value {
            Ok(v) => {
                out.push((rec.key.clone(), v));
                proof {
                    assert(crate::pairs::pairs_view(out@) =~= crate::pairs::pairs_view(prev).push((rec.key@, v@)));
                }
            },
            Err(e) => {
                proof {
                    lemma_error_sticks(master_key@, records@, i + 1, records@.len() as int);
                    assert(records@.take(records@.len() as int) =~= records@);
                }
                return Err(e);
            },
        }
        i += 1;
    }
    proof {
        assert(records@.take(records@.len() as int) =~= records@);
    }
    Ok(out)
}

} // verus!
