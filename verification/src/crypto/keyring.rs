//! Hex encoding of the 32-byte vault master key.
//!
//! The master key is persisted in the OS credential store as a 64-character
//! lowercase hex string; the same encoding is used by the recovery-file flow.
//! Talking to the credential store itself is the application's job.
use vstd::prelude::*;
use crate::crypto::error::CryptoError;
use vstd::string::StringSliceAdditionalSpecFns;

verus! {

/// Lowercase hex digit for a value below 16.
pub open spec fn hex_digit(n: int) -> char {
    if n == 0 { '0' } else if n == 1 { '1' } else if n == 2 { '2' } else if n == 3 { '3' }
    else if n == 4 { '4' } else if n == 5 { '5' } else if n == 6 { '6' } else if n == 7 { '7' }
    else if n == 8 { '8' } else if n == 9 { '9' } else if n == 10 { 'a' } else if n == 11 { 'b' }
    else if n == 12 { 'c' } else if n == 13 { 'd' } else if n == 14 { 'e' } else { 'f' }
}

/// Lowercase hex text of a byte sequence: two digits per byte, high nibble first.
pub open spec fn hex_lower(b: Seq<u8>) -> Seq<char> {
    Seq::new(
        (2 * b.len()) as nat,
        |i: int|
            if i % 2 == 0 {
                hex_digit((b[i / 2] / 16) as int)
            } else {
                hex_digit((b[i / 2] % 16) as int)
            },
    )
}

/// Value of one hex digit byte (either case), or `None` for any other byte.
pub open spec fn nibble_value(c: u8) -> Option<u8> {
    if 48 <= c <= 57 {
        Some((c - 48) as u8)
    } else if 97 <= c <= 102 {
        Some((c - 87) as u8)
    } else if 65 <= c <= 70 {
        Some((c - 55) as u8)
    } else {
        None
    }
}

/// The 32 bytes encoded by `b` (the UTF-8 bytes of a stored key), or `None`
/// when `b` is not exactly 64 hex digits.
pub open spec fn decode_key_bytes(b: Seq<u8>) -> Option<Seq<u8>> {
    if b.len() != 64 {
        None
    } else if exists|i: int| 0 <= i < 64 && (#[trigger] nibble_value(b[i])) is None {
        None
    } else {
        Some(Seq::new(32, |i: int| (nibble_value(b[2 * i])->0 * 16 + nibble_value(b[2 * i + 1])->0) as u8))
    }
}

pub(crate) fn hex_digit_exec(n: u8) -> (c: char)
    requires
        n < 16,
    ensures
        c == hex_digit(n as int),
{
    if n == 0 { '0' } else if n == 1 { '1' } else if n == 2 { '2' } else if n == 3 { '3' }
    else if n == 4 { '4' } else if n == 5 { '5' } else if n == 6 { '6' } else if n == 7 { '7' }
    else if n == 8 { '8' } else if n == 9 { '9' } else if n == 10 { 'a' } else if n == 11 { 'b' }
    else if n == 12 { 'c' } else if n == 13 { 'd' } else if n == 14 { 'e' } else { 'f' }
}

/// Encodes a 32-byte key as a 64-character lowercase hex string.
fn encode_key(key: &[u8; 32]) -> (s: String)
    ensures
        s@ == hex_lower(key@),
{
    let mut s = String::new();
    let mut i: usize = 0;
    while i < 32
        invariant
            0 <= i <= 32,
            key@.len() == 32,
            s@ =~= hex_lower(key@).take(2 * i as int),
        decreases 32 - i,
    {
        let b = key[i];
        crate::text::push_char(&mut s, hex_digit_exec(b / 16));
        crate::text::push_char(&mut s, hex_digit_exec(b % 16));
        proof {
            assert(hex_lower(key@).take(2 * (i + 1) as int) =~= hex_lower(key@).take(2 * i as int).push(
                hex_digit((b / 16) as int),
            ).push(hex_digit((b % 16) as int)));
        }
        i += 1;
    }
    proof {
        assert(hex_lower(key@).take(64) =~= hex_lower(key@));
    }
    s
}

fn hex_nibble(c: u8) -> (r: Result<u8, CryptoError>)
    ensures
        match nibble_value(c) {
            Some(v) => r == Ok::<u8, CryptoError>(v),
            None => r matches Err(CryptoError::KeyCorrupted),
        },
{
    if 48 <= c && c <= 57 {
        Ok(c - 48)
    } else if 97 <= c && c <= 102 {
        Ok(c - 87)
    } else if 65 <= c && c <= 70 {
        Ok(c - 55)
    } else {
        Err(CryptoError::KeyCorrupted)
    }
}

/// Decodes a hex-encoded key string back into 32 bytes.
fn decode_key(s: &str) -> (r: Result<[u8; 32], CryptoError>)
    ensures
        match decode_key_bytes(s.spec_bytes()) {
            Some(k) => r matches Ok(key) && key@ == k,
            None => r matches Err(CryptoError::KeyCorrupted),
        },
{
    let bytes = s.as_bytes();
    if bytes.len() != 64 {
        return Err(CryptoError::KeyCorrupted);
    }
    let ghost b = bytes@;
    let mut key = [0u8; 32];
    let mut i: usize = 0;
    while i < 32
        invariant
            0 <= i <= 32,
            bytes@ == b,
            b.len() == 64,
            b == s.spec_bytes(),
            forall|j: int| 0 <= j < 2 * i ==> (#[trigger] nibble_value(b[j])) is Some,
            forall|j: int|
                0 <= j < i ==> key@[j] == (nibble_value(b[2 * j])->0 * 16 + nibble_value(
                    b[2 * j + 1],
                )->0) as u8,
        decreases 32 - i,
    {
        let hi = match hex_nibble(bytes[2 * i]) {
            Ok(v) => v,
            Err(e) => {
                proof {
                    assert(nibble_value(b[2 * i as int]) is None);
                }
                return Err(e);
            },
        };
        let lo = match hex_nibble(bytes[2 * i + 1]) {
            Ok(v) => v,
            Err(e) => {
                proof {
                    assert(nibble_value(b[2 * i + 1]) is None);
                }
                return Err(e);
            },
        };
        key[i] = hi * 16 + lo;
        i += 1;
    }
    proof {
        assert(forall|j: int| 0 <= j < 64 ==> (#[trigger] nibble_value(b[j])) is Some);
        assert(key@ =~= Seq::new(
            32,
            |j: int| (nibble_value(b[2 * j])->0 * 16 + nibble_value(b[2 * j + 1])->0) as u8,
        ));
    }
    Ok(key)
}

/// Hex-encodes a 32-byte key in the format persisted in the OS keyring
/// (64 lowercase hex digits, high nibble first).
pub fn encode_key_hex(key: &[u8; 32]) -> (s: String)
    ensures
        s@ == hex_lower(key@),
        s@.len() == 64,
{
    encode_key(key)
}

/// Decodes a hex string produced by [`encode_key_hex`] back into a 32-byte
/// key. Upper-case digits are accepted too.
///
/// Fails with `KeyCorrupted` exactly when the text is not 64 hex digits.
pub fn decode_key_hex(s: &str) -> (r: Result<[u8; 32], CryptoError>)
    ensures
        match decode_key_bytes(s.spec_bytes()) {
            Some(k) => r matches Ok(key) && key@ == k,
            None => r matches Err(CryptoError::KeyCorrupted),
        },
{
    decode_key(s)
}

/// Decoding the hex encoding of any 32-byte key gives the key back.
pub proof fn lemma_key_hex_round_trip(key: Seq<u8>)
    requires
        key.len() == 32,
    ensures
        decode_key_bytes(vstd::utf8::encode_utf8(hex_lower(key))) == Some(key),
{
    let h = hex_lower(key);
    assert(vstd::utf8::is_ascii_chars(h)) by {
        assert forall|i: int| 0 <= i < h.len() implies '\0' <= #[trigger] h[i] <= '\u{7f}' by {
            if i % 2 == 0 {
                assert(0 <= key[i / 2] / 16 < 16);
            } else {
                assert(0 <= key[i / 2] % 16 < 16);
            }
        }
    }
    vstd::utf8::is_ascii_chars_encode_utf8(h);
    let b = vstd::utf8::encode_utf8(h);
    assert forall|i: int| 0 <= i < 64 implies (#[trigger] nibble_value(b[i])) is Some by {
        assert(b[i] == h[i] as u8);
    }
    let d = Seq::new(32, |j: int| (nibble_value(b[2 * j])->0 * 16 + nibble_value(b[2 * j + 1])->0) as u8);
    assert forall|j: int| 0 <= j < 32 implies d[j] == key[j] by {
        assert(b[2 * j] == h[2 * j] as u8);
        assert(b[2 * j + 1] == h[2 * j + 1] as u8);
        assert((2 * j) / 2 == j);
        assert((2 * j + 1) / 2 == j);
        assert((2 * j) % 2 == 0);
        assert((2 * j + 1) % 2 == 1);
        assert(key[j] == (key[j] / 16) * 16 + key[j] % 16);
    }
    assert(d =~= key);
}


/// What the OS credential store answered for the master-key entry.
pub enum StoredKey {
    /// The entry exists, with this text.
    Found(String),
    /// There is no entry yet.
    Missing,
    /// The store could not be reached (diagnostic text, never key material).
    Unavailable(String),
}

/// Turns the credential store's answer into the master key.
///
/// A found entry must be 64 hex digits (`KeyCorrupted` otherwise); a missing
/// entry is `KeyNotFound`, telling the caller to generate a key; an
/// unreachable store is `KeyringUnavailable` with its diagnostic.
pub fn retrieve_key(stored: StoredKey) -> (r: Result<[u8; 32], CryptoError>)
    ensures
        match stored {
            StoredKey::Found(s) => match decode_key_bytes(vstd::utf8::encode_utf8(s@)) {
                Some(k) => r matches Ok(key) && key@ == k,
                None => r matches Err(CryptoError::KeyCorrupted),
            },
            StoredKey::Missing => r matches Err(CryptoError::KeyNotFound),
            StoredKey::Unavailable(m) => r matches Err(CryptoError::KeyringUnavailable(msg)) && msg == m,
        },
{
    match stored {
        StoredKey::Found(s) => decode_key_hex(s.as_str()),
        StoredKey::Missing => Err(CryptoError::KeyNotFound),
        StoredKey::Unavailable(m) => Err(CryptoError::KeyringUnavailable(m)),
    }
}

/// Where the credential store is unreachable, headless CI runs (with
/// `ENVY_PASSPHRASE` or `CI` set) get the all-zero ephemeral key; otherwise
/// the error stands.
pub fn ci_fallback(err: CryptoError, ci: bool) -> (r: Result<[u8; 32], CryptoError>)
    ensures
        ci ==> (r matches Ok(k) && k@ == Seq::new(32, |i: int| 0u8)),
        !ci ==> (r matches Err(e) && e == err),
{
    if ci {
        let k = [0u8; 32];
        proof {
            assert(k@ =~= Seq::new(32, |i: int| 0u8));
        }
        Ok(k)
    } else {
        Err(err)
    }
}

/// Each hex digit has its standard value: the digit for `n` is the
/// character with code 48 + n for n below 10 ('0' to '9') and 87 + n above
/// ('a' to 'f'), and reading a digit byte gives its value back: `c - 48` for
/// '0'..'9', `c - 87` for 'a'..'f', `c - 55` for 'A'..'F', nothing else.
pub proof fn lemma_hex_digit_values(n: int, c: u8)
    ensures
        0 <= n < 16 ==> hex_digit(n) as u32 == if n < 10 { 48 + n } else { 87 + n },
        0 <= n < 16 ==> nibble_value(hex_digit(n) as u32 as u8) == Some(n as u8),
        48 <= c <= 57 ==> nibble_value(c) == Some((c - 48) as u8),
        97 <= c <= 102 ==> nibble_value(c) == Some((c - 87) as u8),
        65 <= c <= 70 ==> nibble_value(c) == Some((c - 55) as u8),
        !(48 <= c <= 57 || 97 <= c <= 102 || 65 <= c <= 70) ==> nibble_value(c) is None,
{
}

} // verus!
