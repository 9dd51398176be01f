//! The master key, and AES-256-GCM encryption of issued keys under it.
//!
//! A stored key is the 12-byte nonce followed by the AES-GCM ciphertext of the
//! key's UTF-8 bytes (which ends with the 16-byte tag).

use vstd::prelude::*;
use vstd::utf8::*;

use crate::text::{hex_char, hex_lower, string_from_utf8};

verus! {

broadcast use {vstd::utf8::encode_utf8_valid_utf8, vstd::utf8::encode_utf8_decode_utf8};

/// Length in bytes of the master key (AES-256).
pub const MASTER_KEY_LEN: usize = 32;

/// Length in bytes of the nonce stored in front of each ciphertext.
pub const NONCE_SIZE: usize = 12;

/// Length in bytes of the AES-GCM authentication tag.
pub open spec fn tag_len() -> nat {
    16
}

/// The longest plaintext, in bytes, that AES-GCM encrypts (`aes_gcm::P_MAX`).
pub open spec fn max_plaintext_len() -> nat {
    0x10_0000_0000
}

/// Why encryption or decryption failed.
#[derive(Debug, Clone, Copy, PartialEq, Eq, Structural)]
pub enum CryptoError {
    /// The plaintext is longer than AES-GCM accepts.
    EncryptionFailed,
    /// The stored value is shorter than a nonce.
    CiphertextTooShort,
    /// The ciphertext does not authenticate under the key.
    DecryptionFailed,
    /// The decrypted bytes are not UTF-8.
    InvalidUtf8,
}

// ---------------------------------------------------------------------------
// Randomness
// ---------------------------------------------------------------------------

/// `OsRng::fill_bytes` (re-exported by `aes_gcm::aead`): overwrites the buffer
/// with bytes from the operating system.  Nothing is said of the bytes, only
/// that the length stays.  The call panics if the operating system cannot
/// provide randomness.
#[verifier::external_body]
fn fill_os_random(buf: &mut Vec<u8>)
    ensures
        final(buf)@.len() == old(buf)@.len(),
{
    aes_gcm::aead::rand_core::RngCore::fill_bytes(&mut aes_gcm::aead::OsRng, buf.as_mut_slice());
}

fn zeroes(n: usize) -> (v: Vec<u8>)
    ensures
        v@.len() == n,
{
    let mut v: Vec<u8> = Vec::new();
    let mut i: usize = 0;
    while i < n
        invariant
            i <= n,
            v@.len() == i,
        decreases n - i,
    {
        v.push(0u8);
        i = i + 1;
    }
    v
}

/// A fresh random master key of 32 bytes.
pub fn generate_master_key() -> (key: Vec<u8>)
    ensures
        key@.len() == MASTER_KEY_LEN,
{
    let mut key = zeroes(MASTER_KEY_LEN);
    fill_os_random(&mut key);
    key
}

// ---------------------------------------------------------------------------
// AES-256-GCM
// ---------------------------------------------------------------------------

/// The AES-256-GCM ciphertext (with its tag appended) of a plaintext under a
/// key and nonce, without associated data.
pub uninterp spec fn aes256gcm_seal(key: Seq<u8>, nonce: Seq<u8>, plaintext: Seq<u8>) -> Seq<u8>;

/// What AES-256-GCM decryption of a ciphertext (tag appended) under a key and
/// nonce gives, without associated data: the plaintext, or nothing when the
/// tag does not authenticate.
pub uninterp spec fn aes256gcm_open(key: Seq<u8>, nonce: Seq<u8>, ciphertext: Seq<u8>) -> Option<
    Seq<u8>,
>;

/// `Aead::encrypt` of `Aes256Gcm`, with the key and nonce taken from slices.
/// It fails exactly when the plaintext is longer than `P_MAX`; otherwise the
/// ciphertext is named by `aes256gcm_seal`, is the plaintext's length plus the
/// 16-byte tag, and decrypts under the same key and nonce to the plaintext.
#[verifier::external_body]
fn aes256gcm_encrypt(key: &[u8], nonce: &[u8], plaintext: &[u8]) -> (r: Option<Vec<u8>>)
    requires
        key@.len() == MASTER_KEY_LEN,
        nonce@.len() == NONCE_SIZE,
    ensures
        r is Some <==> plaintext@.len() <= max_plaintext_len(),
        r matches Some(c) ==> c@ == aes256gcm_seal(key@, nonce@, plaintext@),
        r matches Some(c) ==> c@.len() == plaintext@.len() + tag_len(),
        r matches Some(c) ==> aes256gcm_open(key@, nonce@, c@) == Some(plaintext@),
{
    let cipher = <aes_gcm::Aes256Gcm as aes_gcm::KeyInit>::new(aes_gcm::Key::<aes_gcm::Aes256Gcm>::from_slice(key));
    aes_gcm::aead::Aead::encrypt(&cipher, aes_gcm::Nonce::from_slice(nonce), plaintext).ok()
}

/// `Aead::decrypt` of `Aes256Gcm`, with the key and nonce taken from slices;
/// its result is named by `aes256gcm_open`.
#[verifier::external_body]
fn aes256gcm_decrypt(key: &[u8], nonce: &[u8], ciphertext: &[u8]) -> (r: Option<Vec<u8>>)
    requires
        key@.len() == MASTER_KEY_LEN,
        nonce@.len() == NONCE_SIZE,
    ensures
        match r {
            Some(p) => aes256gcm_open(key@, nonce@, ciphertext@) == Some(p@),
            None => aes256gcm_open(key@, nonce@, ciphertext@) is None,
        },
{
    let cipher = <aes_gcm::Aes256Gcm as aes_gcm::KeyInit>::new(aes_gcm::Key::<aes_gcm::Aes256Gcm>::from_slice(key));
    aes_gcm::aead::Aead::decrypt(&cipher, aes_gcm::Nonce::from_slice(nonce), ciphertext).ok()
}

/// What decrypting a stored value gives: the value is a nonce followed by a
/// ciphertext; the plaintext must authenticate and be UTF-8.
pub open spec fn decryption_outcome(key: Seq<u8>, stored: Seq<u8>) -> Result<Seq<char>, CryptoError> {
    if stored.len() < NONCE_SIZE {
        Err(CryptoError::CiphertextTooShort)
    } else {
        match aes256gcm_open(key, stored.take(NONCE_SIZE as int), stored.skip(NONCE_SIZE as int)) {
            None => Err(CryptoError::DecryptionFailed),
            Some(bytes) => if valid_utf8(bytes) {
                Ok(decode_utf8(bytes))
            } else {
                Err(CryptoError::InvalidUtf8)
            },
        }
    }
}

/// `stored` is an encryption of `plaintext` under `key`: a nonce, then the
/// AES-GCM ciphertext of the plaintext's UTF-8 bytes under that nonce, which
/// opens again to those bytes.
pub open spec fn is_encryption_of(key: Seq<u8>, plaintext: Seq<char>, stored: Seq<u8>) -> bool {
    &&& stored.len() >= NONCE_SIZE
    &&& stored.skip(NONCE_SIZE as int) == aes256gcm_seal(
        key,
        stored.take(NONCE_SIZE as int),
        encode_utf8(plaintext),
    )
    &&& aes256gcm_open(key, stored.take(NONCE_SIZE as int), stored.skip(NONCE_SIZE as int))
        == Some(encode_utf8(plaintext))
}

/// Law: decrypting an encryption of a text under the same key gives the text
/// back.
pub proof fn lemma_decrypt_inverts_encrypt(key: Seq<u8>, plaintext: Seq<char>, stored: Seq<u8>)
    requires
        is_encryption_of(key, plaintext, stored),
    ensures
        decryption_outcome(key, stored) == Ok::<Seq<char>, CryptoError>(plaintext),
{
}

pub open spec fn crypto_texts(r: Result<String, CryptoError>) -> Result<Seq<char>, CryptoError> {
    match r {
        Ok(s) => Ok(s@),
        Err(e) => Err(e),
    }
}

/// Encrypts a key under the master key with a fresh random nonce; the result
/// is the nonce followed by the ciphertext.
pub fn encrypt(plaintext: &str, master_key: &[u8]) -> (r: Result<Vec<u8>, CryptoError>)
    requires
        master_key@.len() == MASTER_KEY_LEN,
    ensures
        r is Ok <==> encode_utf8(plaintext@).len() <= max_plaintext_len(),
        r matches Err(e) ==> e == CryptoError::EncryptionFailed,
        r matches Ok(c) ==> is_encryption_of(master_key@, plaintext@, c@),
        r matches Ok(c) ==> c@.len() == NONCE_SIZE + encode_utf8(plaintext@).len() + tag_len(),
        r matches Ok(c) ==> decryption_outcome(master_key@, c@) == Ok::<Seq<char>, CryptoError>(
            plaintext@,
        ),
{
    let mut nonce = zeroes(NONCE_SIZE);
    fill_os_random(&mut nonce);
    let bytes = plaintext.as_bytes();
    match aes256gcm_encrypt(master_key, nonce.as_slice(), bytes) {
        None => Err(CryptoError::EncryptionFailed),
        Some(ciphertext) => {
            let ghost n = nonce@;
            let mut combined = nonce;
            let mut i: usize = 0;
            while i < ciphertext.len()
                invariant
                    combined@ == n + ciphertext@.take(i as int),
                    i <= ciphertext@.len(),
                decreases ciphertext@.len() - i,
            {
                combined.push(ciphertext[i]);
                assert(ciphertext@.take(i + 1) =~= ciphertext@.take(i as int).push(ciphertext@[i as int]));
                i = i + 1;
            }
            assert(ciphertext@.take(ciphertext@.len() as int) =~= ciphertext@);
            assert(combined@.take(NONCE_SIZE as int) =~= n);
            assert(combined@.skip(NONCE_SIZE as int) =~= ciphertext@);
            proof {
                lemma_decrypt_inverts_encrypt(master_key@, plaintext@, combined@);
            }
            Ok(combined)
        },
    }
}

fn split_stored(stored: &[u8]) -> (r: (Vec<u8>, Vec<u8>))
    requires
        stored@.len() >= NONCE_SIZE,
    ensures
        r.0@ == stored@.take(NONCE_SIZE as int),
        r.1@ == stored@.skip(NONCE_SIZE as int),
{
    let mut nonce: Vec<u8> = Vec::new();
    let mut data: Vec<u8> = Vec::new();
    let mut i: usize = 0;
    while i < stored.len()
        invariant
            stored@.len() >= NONCE_SIZE,
            i <= stored@.len(),
            i <= NONCE_SIZE ==> nonce@ == stored@.take(i as int) && data@.len() == 0,
            i > NONCE_SIZE ==> nonce@ == stored@.take(NONCE_SIZE as int) && data@
                == stored@.subrange(NONCE_SIZE as int, i as int),
        decreases stored@.len() - i,
    {
        if i < NONCE_SIZE {
            nonce.push(stored[i]);
            assert(nonce@ =~= stored@.take(i + 1));
        } else {
            data.push(stored[i]);
            assert(data@ =~= stored@.subrange(NONCE_SIZE as int, i + 1));
        }
        i = i + 1;
    }
    assert(data@ =~= stored@.skip(NONCE_SIZE as int));
    (nonce, data)
}

/// Decrypts a stored value under the master key.  A value shorter than a
/// nonce is refused before the key is used.
pub fn decrypt(ciphertext: &[u8], master_key: &[u8]) -> (r: Result<String, CryptoError>)
    requires
        ciphertext@.len() >= NONCE_SIZE ==> master_key@.len() == MASTER_KEY_LEN,
    ensures
        crypto_texts(r) == decryption_outcome(master_key@, ciphertext@),
{
    if ciphertext.len() < NONCE_SIZE {
        return Err(CryptoError::CiphertextTooShort);
    }
    let (nonce, data) = split_stored(ciphertext);
    match aes256gcm_decrypt(master_key, nonce.as_slice(), data.as_slice()) {
        None => Err(CryptoError::DecryptionFailed),
        Some(bytes) => match string_from_utf8(bytes) {
            Some(s) => Ok(s),
            None => Err(CryptoError::InvalidUtf8),
        },
    }
}

// ---------------------------------------------------------------------------
// A master key given in hexadecimal
// ---------------------------------------------------------------------------

/// The value of an ASCII hexadecimal digit, in either case.
pub open spec fn hex_value(c: u8) -> Option<u8> {
    if 48 <= c <= 57 {
        Some((c - 48) as u8)
    } else if 65 <= c <= 70 {
        Some((c - 55) as u8)
    } else if 97 <= c <= 102 {
        Some((c - 87) as u8)
    } else {
        None
    }
}

/// Hexadecimal decoding of a byte string: an even number of hexadecimal
/// digits, two per byte, high nibble first.
pub open spec fn hex_decoded(b: Seq<u8>) -> Option<Seq<u8>>
    decreases b.len(),
{
    if b.len() % 2 != 0 {
        None
    } else if b.len() == 0 {
        Some(seq![])
    } else {
        match (hex_decoded(b.take(b.len() - 2)), hex_value(b[b.len() - 2]), hex_value(b[b.len() - 1])) {
            (Some(p), Some(h), Some(l)) => Some(p.push((h * 16 + l) as u8)),
            _ => None,
        }
    }
}

/// `hex::decode`: succeeds exactly on an even number of hexadecimal digits
/// (either case) and gives one byte per pair, as its source shows.
#[verifier::external_body]
fn hex_decode(text: &str) -> (r: Option<Vec<u8>>)
    ensures
        match r {
            Some(v) => hex_decoded(encode_utf8(text@)) == Some(v@),
            None => hex_decoded(encode_utf8(text@)) is None,
        },
{
    hex::decode(text).ok()
}

/// Reads a master key given in hexadecimal on the command line.
pub fn master_key_from_hex(text: &str) -> (r: Option<Vec<u8>>)
    ensures
        match r {
            Some(v) => hex_decoded(encode_utf8(text@)) == Some(v@),
            None => hex_decoded(encode_utf8(text@)) is None,
        },
{
    hex_decode(text)
}

/// The ASCII code of the lower-case hexadecimal digit for `v`.
pub open spec fn hex_digit_byte(v: int) -> u8 {
    if v < 10 {
        (48 + v) as u8
    } else {
        (87 + v) as u8
    }
}

/// The ASCII bytes of the lower-case hexadecimal rendering of `bytes`.
pub open spec fn hex_ascii(bytes: Seq<u8>) -> Seq<u8>
    decreases bytes.len(),
{
    if bytes.len() == 0 {
        seq![]
    } else {
        hex_ascii(bytes.drop_last()) + seq![
            hex_digit_byte((bytes.last() / 16) as int),
            hex_digit_byte((bytes.last() % 16) as int),
        ]
    }
}

proof fn lemma_hex_char_byte(v: int)
    requires
        0 <= v < 16,
    ensures
        hex_char(v) as u8 == hex_digit_byte(v),
        '\0' <= hex_char(v) <= '\u{7f}',
{
    if v == 0 {
        assert(hex_char(v) == '0');
    } else if v == 1 {
        assert(hex_char(v) == '1');
    } else if v == 2 {
        assert(hex_char(v) == '2');
    } else if v == 3 {
        assert(hex_char(v) == '3');
    } else if v == 4 {
        assert(hex_char(v) == '4');
    } else if v == 5 {
        assert(hex_char(v) == '5');
    } else if v == 6 {
        assert(hex_char(v) == '6');
    } else if v == 7 {
        assert(hex_char(v) == '7');
    } else if v == 8 {
        assert(hex_char(v) == '8');
    } else if v == 9 {
        assert(hex_char(v) == '9');
    } else if v == 10 {
        assert(hex_char(v) == 'a');
    } else if v == 11 {
        assert(hex_char(v) == 'b');
    } else if v == 12 {
        assert(hex_char(v) == 'c');
    } else if v == 13 {
        assert(hex_char(v) == 'd');
    } else if v == 14 {
        assert(hex_char(v) == 'e');
    } else if v == 15 {
        assert(hex_char(v) == 'f');
    }
}

proof fn lemma_hex_lower_as_ascii(bytes: Seq<u8>)
    ensures
        hex_lower(bytes).len() == hex_ascii(bytes).len(),
        forall|i: int|
            0 <= i < hex_ascii(bytes).len() ==> {
                &&& hex_lower(bytes)[i] as u8 == #[trigger] hex_ascii(bytes)[i]
                &&& '\0' <= hex_lower(bytes)[i] <= '\u{7f}'
            },
    decreases bytes.len(),
{
    if bytes.len() > 0 {
        let rest = bytes.drop_last();
        lemma_hex_lower_as_ascii(rest);
        let hi = (bytes.last() / 16) as int;
        let lo = (bytes.last() % 16) as int;
        lemma_hex_char_byte(hi);
        lemma_hex_char_byte(lo);
        let k = hex_ascii(rest).len() as int;
        assert forall|i: int| 0 <= i < hex_ascii(bytes).len() implies {
            &&& hex_lower(bytes)[i] as u8 == #[trigger] hex_ascii(bytes)[i]
            &&& '\0' <= hex_lower(bytes)[i] <= '\u{7f}'
        } by {
            if i < k {
                assert(hex_lower(bytes)[i] == hex_lower(rest)[i]);
                assert(hex_ascii(bytes)[i] == hex_ascii(rest)[i]);
            } else if i == k {
                assert(hex_lower(bytes)[i] == hex_char(hi));
            } else {
                assert(hex_lower(bytes)[i] == hex_char(lo));
            }
        }
    }
}

proof fn lemma_hex_ascii_decodes(bytes: Seq<u8>)
    ensures
        hex_decoded(hex_ascii(bytes)) == Some(bytes),
    decreases bytes.len(),
{
    if bytes.len() > 0 {
        let rest = bytes.drop_last();
        lemma_hex_ascii_decodes(rest);
        let e = hex_ascii(bytes);
        lemma_hex_ascii_len(rest);
        assert(e.take(e.len() - 2) =~= hex_ascii(rest));
        let b = bytes.last();
        assert(hex_value(hex_digit_byte((b / 16) as int)) == Some((b / 16) as u8));
        assert(hex_value(hex_digit_byte((b % 16) as int)) == Some((b % 16) as u8));
        assert(((b / 16) as u8 * 16 + (b % 16) as u8) as u8 == b);
        assert(rest.push(b) =~= bytes);
    } else {
        assert(hex_ascii(bytes) =~= Seq::<u8>::empty());
    }
}

proof fn lemma_hex_ascii_len(bytes: Seq<u8>)
    ensures
        hex_ascii(bytes).len() == 2 * bytes.len(),
    decreases bytes.len(),
{
    if bytes.len() > 0 {
        lemma_hex_ascii_len(bytes.drop_last());
    }
}

/// Law: reading back the lower-case hexadecimal rendering of bytes (as keys
/// are generated) gives the bytes.
pub proof fn lemma_hex_roundtrip(bytes: Seq<u8>)
    ensures
        hex_decoded(encode_utf8(hex_lower(bytes))) == Some(bytes),
{
    lemma_hex_lower_as_ascii(bytes);
    let chars = hex_lower(bytes);
    assert forall|i: int| 0 <= i < chars.len() implies '\0' <= #[trigger] chars[i] <= '\u{7f}' by {
        assert(hex_ascii(bytes)[i] == chars[i] as u8);
    }
    assert(is_ascii_chars(chars));
    is_ascii_chars_encode_utf8(chars);
    assert(encode_utf8(chars) =~= hex_ascii(bytes));
    lemma_hex_ascii_decodes(bytes);
}

} // verus!
