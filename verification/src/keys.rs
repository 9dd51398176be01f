//! Generating keys and checking that all configured hashers agree on a key's
//! digest.

use vstd::prelude::*;

use crate::hashers::Hasher;
use crate::text::{
    eq_ignore_ascii_case, hex_lower, is_lower_hex_char, lemma_hex_lower_chars, lemma_hex_lower_len,
    lemma_same_ignoring_case_symmetric, lemma_same_ignoring_case_transitive,
    same_ignoring_ascii_case, to_hex_lower,
};

verus! {

/// `ThreadRng::fill_bytes` (from `rand::rng()`): overwrites the buffer with
/// random bytes.  Nothing is said of the bytes, only that the length stays.
/// The call panics if the operating system cannot seed the generator.
#[verifier::external_body]
fn fill_thread_random(buf: &mut Vec<u8>)
    ensures
        final(buf)@.len() == old(buf)@.len(),
{
    rand::RngCore::fill_bytes(&mut rand::rng(), buf.as_mut_slice());
}

/// Number of random bytes in a generated key.
pub const KEY_BYTES: usize = 32;

/// A new key: 32 random bytes written as 64 lower-case hexadecimal digits.
pub fn generate_key() -> (key: String)
    ensures
        exists|bytes: Seq<u8>| bytes.len() == KEY_BYTES && key@ == hex_lower(bytes),
        key@.len() == 2 * KEY_BYTES,
        forall|i: int| 0 <= i < key@.len() ==> is_lower_hex_char(#[trigger] key@[i]),
{
    let mut bytes: Vec<u8> = Vec::new();
    let mut i: usize = 0;
    while i < KEY_BYTES
        invariant
            i <= KEY_BYTES,
            bytes@.len() == i,
        decreases KEY_BYTES - i,
    {
        bytes.push(0u8);
        i = i + 1;
    }
    fill_thread_random(&mut bytes);
    let key = to_hex_lower(bytes.as_slice());
    proof {
        lemma_hex_lower_len(bytes@);
        lemma_hex_lower_chars(bytes@);
    }
    key
}

/// Why the hashers do not agree on a key.
#[derive(Debug)]
pub enum HashCheckError {
    /// A hasher failed with this message.
    HasherFailed { hasher: String, message: String },
    /// A hasher's digest differs from the expected one.
    Mismatch { hasher: String, expected: String, got: String },
}

/// The verdict on one hasher's result: a failure is reported with the
/// hasher's name; a digest must equal the expected one up to the case of
/// ASCII letters.
pub open spec fn result_accepted(
    canonical: Seq<char>,
    hasher: Seq<char>,
    result: Result<String, String>,
    verdict: Result<(), HashCheckError>,
) -> bool {
    match result {
        Err(msg) => verdict matches Err(HashCheckError::HasherFailed { hasher: h, message: m }) && h@
            == hasher && m@ == msg@,
        Ok(got) => if same_ignoring_ascii_case(got@, canonical) {
            verdict is Ok
        } else {
            verdict matches Err(HashCheckError::Mismatch { hasher: h, expected: e, got: g }) && h@
                == hasher && e@ == canonical && g@ == got@
        },
    }
}

/// Judges one hasher's result against the expected digest.
pub fn check_hash_result(canonical: &str, hasher: &str, result: Result<String, String>) -> (r: Result<
    (),
    HashCheckError,
>)
    ensures
        result_accepted(canonical@, hasher@, result, r),
{
    let ghost res = result;
    match result {
        Err(message) => Err(HashCheckError::HasherFailed { hasher: String::from_str(hasher), message }),
        Ok(got) => {
            if eq_ignore_ascii_case(got.as_str(), canonical) {
                Ok(())
            } else {
                Err(
                    HashCheckError::Mismatch {
                        hasher: String::from_str(hasher),
                        expected: String::from_str(canonical),
                        got,
                    },
                )
            }
        },
    }
}

/// The hasher may give, for the key, a digest equal to the expected one up to
/// the case of ASCII letters.
pub open spec fn accepts<H: Hasher + ?Sized>(h: &H, input: Seq<char>, canonical: Seq<char>) -> bool {
    exists|d: Seq<char>| h.gives(input, Ok(d)) && same_ignoring_ascii_case(d, canonical)
}

/// The verdict that the hasher may have caused: it gave a failure, reported
/// with a name it reports, or a digest that differs from the expected one.
pub open spec fn rejects<H: Hasher + ?Sized>(
    h: &H,
    input: Seq<char>,
    canonical: Seq<char>,
    e: HashCheckError,
) -> bool {
    match e {
        HashCheckError::HasherFailed { hasher, message } => h.reports_name(hasher@) && h.gives(
            input,
            Err(message@),
        ),
        HashCheckError::Mismatch { hasher, expected, got } => {
            &&& h.reports_name(hasher@)
            &&& expected@ == canonical
            &&& h.gives(input, Ok(got@))
            &&& !same_ignoring_ascii_case(got@, canonical)
        },
    }
}

/// Runs every hasher on the key and checks each digest against the expected
/// one, in order; the first failure or mismatch is returned.
pub fn compare_hashes<'a>(input: &str, canonical_hash: &str, hashers: &[Box<dyn Hasher + 'a>]) -> (r:
    Result<(), HashCheckError>)
    ensures
        r is Ok ==> forall|k: int|
            0 <= k < hashers@.len() ==> accepts(&*#[trigger] hashers@[k], input@, canonical_hash@),
        r matches Err(e) ==> exists|i: int|
            0 <= i < hashers@.len() && rejects(&*#[trigger] hashers@[i], input@, canonical_hash@, e)
                && forall|k: int| 0 <= k < i ==> accepts(&*#[trigger] hashers@[k], input@, canonical_hash@),
{
    let n = hashers.len();
    let mut i: usize = 0;
    while i < n
        invariant
            n == hashers@.len(),
            i <= n,
            forall|k: int| 0 <= k < i ==> accepts(&*#[trigger] hashers@[k], input@, canonical_hash@),
        decreases n - i,
    {
        let hasher = &hashers[i];
        let result = hasher.hash(input);
        let name = hasher.name();
        let ghost res = result;
        let verdict = check_hash_result(canonical_hash, name, result);
        match verdict {
            Err(e) => {
                assert(rejects(&*hashers@[i as int], input@, canonical_hash@, e));
                return Err(e);
            },
            Ok(()) => {
                assert(res matches Ok(got) && hashers@[i as int].gives(input@, Ok(got@))
                    && same_ignoring_ascii_case(got@, canonical_hash@));
                assert(accepts(&*hashers@[i as int], input@, canonical_hash@));
            },
        }
        i = i + 1;
    }
    Ok(())
}

/// Every digest equals the first one up to the case of ASCII letters.
pub open spec fn all_agree(hashes: Seq<String>) -> bool {
    forall|i: int| 0 <= i < hashes.len() ==> same_ignoring_ascii_case(#[trigger] hashes[i]@, hashes[0]@)
}

/// Whether all digests of a key agree, each compared with the first.
pub fn hashes_agree(hashes: &Vec<String>) -> (r: bool)
    ensures
        r == all_agree(hashes@),
{
    let n = hashes.len();
    if n == 0 {
        return true;
    }
    let reference = hashes[0].as_str();
    let mut i: usize = 0;
    while i < n
        invariant
            n == hashes@.len(),
            n > 0,
            reference@ == hashes@[0]@,
            i <= n,
            forall|k: int| 0 <= k < i ==> same_ignoring_ascii_case(#[trigger] hashes@[k]@, hashes@[0]@),
        decreases n - i,
    {
        if !eq_ignore_ascii_case(hashes[i].as_str(), reference) {
            return false;
        }
        i = i + 1;
    }
    true
}

/// Law: when every digest agrees with the first, any two digests agree.
pub proof fn lemma_agreement_is_pairwise(hashes: Seq<String>, i: int, j: int)
    requires
        all_agree(hashes),
        0 <= i < hashes.len(),
        0 <= j < hashes.len(),
    ensures
        same_ignoring_ascii_case(hashes[i]@, hashes[j]@),
{
    assert(same_ignoring_ascii_case(hashes[j]@, hashes[0]@));
    lemma_same_ignoring_case_symmetric(hashes[j]@, hashes[0]@);
    lemma_same_ignoring_case_transitive(hashes[i]@, hashes[0]@, hashes[j]@);
}

} // verus!
