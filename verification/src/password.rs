//! Password policy, credential hashing and master-key derivation.

use vstd::prelude::*;
use vstd::utf8::encode_utf8;
use argon2::{PasswordHasher, PasswordVerifier};
use crate::cipher::KEY_LEN;
use crate::codec::{
    base64_decode, base64_decoded, base64_encode, base64_encoded, base64_fits, fits_base64,
    os_random_bytes,
};
use crate::text::{byte_len, chars_of, is_alphabetic_char, is_numeric_char, text_result};

verus! {

/// Fewest UTF-8 bytes that a password may have.
pub const MIN_PASSWORD_LENGTH: usize = 8;

/// Why a password was turned down by the policy.
#[derive(Debug, Clone, Copy, PartialEq, Eq, Structural)]
pub enum PolicyViolation {
    /// The password is shorter than [`MIN_PASSWORD_LENGTH`] bytes.
    TooShort,
    /// The password lacks an alphabetic or a numeric character.
    MissingLetterOrDigit,
}

/// Some character of `s` is alphabetic.
pub open spec fn has_alphabetic(s: Seq<char>) -> bool {
    exists|i: int| 0 <= i < s.len() && is_alphabetic_char(#[trigger] s[i])
}

/// Some character of `s` is numeric.
pub open spec fn has_numeric(s: Seq<char>) -> bool {
    exists|i: int| 0 <= i < s.len() && is_numeric_char(#[trigger] s[i])
}

/// What the policy says of a password of `byte_len` UTF-8 bytes that has,
/// or has not, a letter and a digit: long enough first, then one of each.
pub open spec fn policy_for(byte_len: nat, has_letter: bool, has_digit: bool) -> Result<
    (),
    PolicyViolation,
> {
    if byte_len < MIN_PASSWORD_LENGTH {
        Err(PolicyViolation::TooShort)
    } else if !has_letter || !has_digit {
        Err(PolicyViolation::MissingLetterOrDigit)
    } else {
        Ok(())
    }
}

/// What the policy says of a password.
pub open spec fn policy_verdict(password: Seq<char>) -> Result<(), PolicyViolation> {
    policy_for(encode_utf8(password).len(), has_alphabetic(password), has_numeric(password))
}

/// Applies the policy to what was found in a password: its length in UTF-8
/// bytes, and whether it holds an alphabetic and a numeric character.
pub fn judge_password(byte_len: usize, has_letter: bool, has_digit: bool) -> (r: Result<
    (),
    PolicyViolation,
>)
    ensures
        r == policy_for(byte_len as nat, has_letter, has_digit),
{
    if byte_len < MIN_PASSWORD_LENGTH {
        Err(PolicyViolation::TooShort)
    } else if !has_letter || !has_digit {
        Err(PolicyViolation::MissingLetterOrDigit)
    } else {
        Ok(())
    }
}

/// Checks a password against the policy. No hashing or derivation is
/// attempted here; callers run this first.
pub fn validate_password(password: &str) -> (r: Result<(), PolicyViolation>)
    ensures
        r == policy_verdict(password@),
        r is Ok <==> encode_utf8(password@).len() >= MIN_PASSWORD_LENGTH && has_alphabetic(
            password@,
        ) && has_numeric(password@),
{
    let chars = chars_of(password);
    let mut has_letter = false;
    let mut has_number = false;
    let mut i: usize = 0;
    while i < chars.len()
        invariant
            i <= chars.len(),
            has_letter <==> has_alphabetic(chars@.take(i as int)),
            has_number <==> has_numeric(chars@.take(i as int)),
        decreases chars.len() - i,
    {
        let c = chars[i];
        proof {
            let before = chars@.take(i as int);
            let after = chars@.take(i as int + 1);
            assert(after == before.push(c));
            if has_alphabetic(before) {
                let k = choose|k: int| 0 <= k < before.len() && is_alphabetic_char(before[k]);
                assert(is_alphabetic_char(after[k]));
            }
            if has_numeric(before) {
                let k = choose|k: int| 0 <= k < before.len() && is_numeric_char(before[k]);
                assert(is_numeric_char(after[k]));
            }
            if is_alphabetic_char(c) {
                assert(is_alphabetic_char(after[i as int]));
            }
            if is_numeric_char(c) {
                assert(is_numeric_char(after[i as int]));
            }
        }
        if c.is_alphabetic() {
            has_letter = true;
        }
        if c.is_numeric() {
            has_number = true;
        }
        i += 1;
    }
    proof {
        assert(chars@.take(chars.len() as int) == chars@);
    }
    judge_password(byte_len(password), has_letter, has_number)
}

/// Bytes in a freshly drawn salt.
pub const SALT_LEN: usize = 16;

/// Fewest bytes of salt that Argon2 takes.
pub const MIN_SALT_LEN: usize = 8;

/// The PHC string that Argon2id, with the crate's default parameters, makes
/// of a password and a salt, if it makes one.
pub uninterp spec fn argon2_phc(password: Seq<u8>, salt: Seq<u8>) -> Option<Seq<char>>;

/// Whether a text parses as a PHC string.
pub uninterp spec fn is_phc_string(text: Seq<char>) -> bool;

/// Whether Argon2, run with the parameters and the salt that a PHC string
/// carries, gives for the password the output that the string carries.
pub uninterp spec fn argon2_verifies(password: Seq<u8>, phc: Seq<char>) -> bool;

/// The raw output of `len` bytes that Argon2id, with the crate's default
/// parameters, derives from a password and a salt, if it derives one.
pub uninterp spec fn argon2_derived(password: Seq<u8>, salt: Seq<u8>, len: nat) -> Option<Seq<u8>>;

/// The error of the password-hash crate, carried through unread.
#[verifier::external_type_specification]
#[verifier::external_body]
pub struct ExPasswordHashError(argon2::password_hash::Error);

/// The error of the Argon2 crate, carried through unread.
#[verifier::external_type_specification]
#[verifier::external_body]
pub struct ExArgon2Error(argon2::Error);

/// Calls `PasswordHasher::hash_password` of `argon2::Argon2::default()` on a
/// salt encoded by `SaltString::encode_b64`, and writes the hash out as its
/// PHC string. Believed: the string is a function of password and salt; it
/// is not empty, it parses as a PHC string, and
/// `PasswordVerifier::verify_password` accepts the same password against it. A salt under three bytes would make the
/// call panic and is excluded.
#[verifier::external_body]
pub(crate) fn argon2_phc_hash(password: &[u8], salt: &[u8]) -> (r: Result<
    String,
    argon2::password_hash::Error,
>)
    requires
        salt@.len() >= 3,
    ensures
        match r {
            Ok(phc) => argon2_phc(password@, salt@) == Some(phc@),
            Err(_) => argon2_phc(password@, salt@) is None,
        },
        r matches Ok(phc) ==> phc@.len() > 0 && is_phc_string(phc@) && argon2_verifies(
            password@,
            phc@,
        ),
{
    let salt = argon2::password_hash::SaltString::encode_b64(salt)?;
    Ok(argon2::Argon2::default().hash_password(password, &salt)?.to_string())
}

/// Calls `PasswordHash::new`. Believed: whether it parses is a function of
/// the text.
#[verifier::external_body]
pub(crate) fn phc_parses(text: &str) -> (r: bool)
    ensures
        r == is_phc_string(text@),
{
    argon2::password_hash::PasswordHash::new(text).is_ok()
}

/// Calls `PasswordVerifier::verify_password` of `argon2::Argon2::default()`
/// on the hash that `PasswordHash::new` reads from the text. Believed:
/// whether it accepts is a function of password and text.
#[verifier::external_body]
pub(crate) fn argon2_verify(password: &[u8], phc: &str) -> (r: Result<
    (),
    argon2::password_hash::Error,
>)
    requires
        is_phc_string(phc@),
    ensures
        r is Ok <==> argon2_verifies(password@, phc@),
{
    let parsed = argon2::password_hash::PasswordHash::new(phc)?;
    argon2::Argon2::default().verify_password(password, &parsed)
}

/// Calls `Argon2::hash_password_into` of `argon2::Argon2::default()` on a
/// fresh buffer of `len` bytes. Believed: the output is a function of
/// password, salt and length, and fills the buffer.
#[verifier::external_body]
pub(crate) fn argon2_derive(password: &[u8], salt: &[u8], len: usize) -> (r: Result<
    Vec<u8>,
    argon2::Error,
>)
    ensures
        match r {
            Ok(key) => argon2_derived(password@, salt@, len as nat) == Some(key@),
            Err(_) => argon2_derived(password@, salt@, len as nat) is None,
        },
        r matches Ok(key) ==> key@.len() == len,
{
    let mut out = vec![0u8; len];
    argon2::Argon2::default().hash_password_into(password, salt, &mut out)?;
    Ok(out)
}

/// Why no credential hash was made.
#[derive(Debug, Clone, Copy, PartialEq, Eq, Structural)]
pub enum HashError {
    /// The operating system gave no random bytes for the salt.
    RandomSource,
    /// The salt is shorter than Argon2 takes.
    SaltTooShort,
    /// Argon2 turned the input down.
    Hasher,
}

/// Why a password was not accepted against a stored hash.
#[derive(Debug, Clone, Copy, PartialEq, Eq, Structural)]
pub enum VerifyError {
    /// The stored hash is no PHC string.
    MalformedHash,
    /// The password does not give the stored hash.
    Mismatch,
}

/// Why no master key was derived.
#[derive(Debug, Clone, Copy, PartialEq, Eq, Structural)]
pub enum KdfError {
    /// The operating system gave no random bytes for the salt.
    RandomSource,
    /// The stored salt is no base64.
    MalformedSalt,
    /// Argon2 turned the input down.
    DerivationFailed,
}

/// The credential hash of a password under a salt.
pub open spec fn credential_hash(password: Seq<char>, salt: Seq<u8>) -> Result<
    Seq<char>,
    HashError,
> {
    if salt.len() < MIN_SALT_LEN {
        Err(HashError::SaltTooShort)
    } else {
        match argon2_phc(encode_utf8(password), salt) {
            Some(phc) => Ok(phc),
            None => Err(HashError::Hasher),
        }
    }
}

/// What a check gives, from whether the stored hash parses and whether
/// Argon2 accepts the password against it: a hash that does not parse is
/// malformed, whatever else is said of it.
pub open spec fn verdict_for(parses: bool, accepts: bool) -> Result<(), VerifyError> {
    if !parses {
        Err(VerifyError::MalformedHash)
    } else if !accepts {
        Err(VerifyError::Mismatch)
    } else {
        Ok(())
    }
}

/// What checking a password against a stored hash gives.
pub open spec fn verification(password: Seq<char>, password_hash: Seq<char>) -> Result<
    (),
    VerifyError,
> {
    verdict_for(
        is_phc_string(password_hash),
        argon2_verifies(encode_utf8(password), password_hash),
    )
}

/// The master key under a decoded salt, or the error where the stored salt
/// did not decode or Argon2 turned the input down.
pub open spec fn key_under_salt(password: Seq<char>, salt: Option<Seq<u8>>) -> Result<
    Seq<u8>,
    KdfError,
> {
    match salt {
        None => Err(KdfError::MalformedSalt),
        Some(bytes) => match argon2_derived(encode_utf8(password), bytes, KEY_LEN as nat) {
            Some(key) => Ok(key),
            None => Err(KdfError::DerivationFailed),
        },
    }
}

/// The master key of a password under a stored salt.
pub open spec fn derived_key(password: Seq<char>, salt_b64: Seq<char>) -> Result<
    Seq<u8>,
    KdfError,
> {
    key_under_salt(password, base64_decoded(salt_b64))
}

/// The salt in base64 and the master key under it, for a salt given as
/// bytes. A salt too long to be written out counts as a failed derivation.
pub open spec fn salted_key(password: Seq<char>, salt: Seq<u8>) -> Result<
    (Seq<char>, Seq<u8>),
    KdfError,
> {
    match argon2_derived(encode_utf8(password), salt, KEY_LEN as nat) {
        Some(key) => if base64_fits(salt.len()) {
            Ok((base64_encoded(salt), key))
        } else {
            Err(KdfError::DerivationFailed)
        },
        None => Err(KdfError::DerivationFailed),
    }
}

/// A result that holds a salt's text and a key, with both as sequences.
pub open spec fn salted_result(r: Result<(String, Vec<u8>), KdfError>) -> Result<
    (Seq<char>, Seq<u8>),
    KdfError,
> {
    match r {
        Ok((salt_b64, key)) => Ok((salt_b64@, key@)),
        Err(e) => Err(e),
    }
}

/// A salt that may be missing, as a sequence.
pub open spec fn salt_view(salt: Option<&[u8]>) -> Option<Seq<u8>> {
    match salt {
        Some(bytes) => Some(bytes@),
        None => None,
    }
}

/// A result that holds bytes, with the bytes as a sequence.
pub open spec fn bytes_result<E>(r: Result<Vec<u8>, E>) -> Result<Seq<u8>, E> {
    match r {
        Ok(bytes) => Ok(bytes@),
        Err(e) => Err(e),
    }
}

/// Hashes a password under the given salt. The hash is a function of the
/// two, it carries the salt in itself, and the same password verifies
/// against it.
pub fn hash_password_with_salt(password: &str, salt: &[u8]) -> (r: Result<String, HashError>)
    ensures
        text_result(r) == credential_hash(password@, salt@),
        r matches Ok(hash) ==> hash@.len() > 0 && verification(password@, hash@) == Ok::<
            (),
            VerifyError,
        >(()),
{
    if salt.len() < MIN_SALT_LEN {
        return Err(HashError::SaltTooShort);
    }
    match argon2_phc_hash(password.as_bytes(), salt) {
        Ok(phc) => Ok(phc),
        Err(_) => Err(HashError::Hasher),
    }
}

/// Hashes a password under a salt drawn afresh from the operating system.
///
/// Which salt is drawn is not known beforehand; whatever it is, the result
/// is the hash under it, and the same password verifies against it.
pub fn hash_password(password: &str) -> (r: Result<String, HashError>)
    ensures
        r matches Err(e) ==> e == HashError::RandomSource || e == HashError::Hasher,
        r matches Ok(hash) ==> exists|salt: Seq<u8>|
            salt.len() == SALT_LEN && #[trigger] credential_hash(password@, salt) == text_result(
                r,
            ),
        r matches Ok(hash) ==> hash@.len() > 0 && verification(password@, hash@) == Ok::<
            (),
            VerifyError,
        >(()),
{
    let salt = match os_random_bytes(SALT_LEN) {
        Ok(salt) => salt,
        Err(_) => {
            return Err(HashError::RandomSource);
        },
    };
    hash_password_with_salt(password, salt.as_slice())
}

/// Checks a password against a stored hash. A hash that does not parse and
/// a password that does not match are told apart.
pub fn verify_password(password: &str, password_hash: &str) -> (r: Result<(), VerifyError>)
    ensures
        r == verification(password@, password_hash@),
{
    let parses = phc_parses(password_hash);
    let accepts = parses && match argon2_verify(password.as_bytes(), password_hash) {
        Ok(()) => true,
        Err(_) => false,
    };
    judge_verification(parses, accepts)
}

/// Gives the verdict of a check from its two answers: whether the stored
/// hash parses, and whether Argon2 accepts the password against it.
pub fn judge_verification(parses: bool, accepts: bool) -> (r: Result<(), VerifyError>)
    ensures
        r == verdict_for(parses, accepts),
{
    if !parses {
        Err(VerifyError::MalformedHash)
    } else if !accepts {
        Err(VerifyError::Mismatch)
    } else {
        Ok(())
    }
}

/// Derives the master key from a password and the decoded salt; `None`
/// stands for a stored salt that did not decode.
pub fn derive_master_key_from_decoded_salt(password: &str, salt: Option<&[u8]>) -> (r: Result<
    Vec<u8>,
    KdfError,
>)
    ensures
        bytes_result(r) == key_under_salt(password@, salt_view(salt)),
        r matches Ok(key) ==> key@.len() == KEY_LEN,
{
    match salt {
        None => Err(KdfError::MalformedSalt),
        Some(bytes) => match argon2_derive(password.as_bytes(), bytes, KEY_LEN) {
            Ok(key) => Ok(key),
            Err(_) => Err(KdfError::DerivationFailed),
        },
    }
}

/// Derives the master key from a password and the stored salt. The same
/// password and salt always give the same key, of 32 bytes.
pub fn derive_master_key_from_salt(password: &str, salt_b64: &str) -> (r: Result<
    Vec<u8>,
    KdfError,
>)
    ensures
        bytes_result(r) == derived_key(password@, salt_b64@),
        r matches Ok(key) ==> key@.len() == KEY_LEN,
{
    match base64_decode(salt_b64) {
        Ok(salt) => derive_master_key_from_decoded_salt(password, Some(salt.as_slice())),
        Err(_) => derive_master_key_from_decoded_salt(password, None),
    }
}

/// The derivation is repeatable: the same password and the same stored salt
/// stand for the same key, however often and wherever it is derived. This is
/// what brings the key back once the secret cache has lost it.
pub proof fn lemma_derivation_is_repeatable(
    password: Seq<char>,
    salt_b64: Seq<char>,
    again_password: Seq<char>,
    again_salt_b64: Seq<char>,
)
    requires
        password == again_password,
        salt_b64 == again_salt_b64,
    ensures
        derived_key(password, salt_b64) == derived_key(again_password, again_salt_b64),
{
}

/// Derives the master key under the given salt and writes the salt out in
/// base64. The pair is a function of password and salt; the text is the
/// base64 of this very salt, and [`derive_master_key_from_salt`] gives the
/// same key again for it.
pub fn derive_master_key_with_salt(password: &str, salt: &[u8]) -> (r: Result<
    (String, Vec<u8>),
    KdfError,
>)
    ensures
        salted_result(r) == salted_key(password@, salt@),
        r matches Ok((salt_b64, key)) ==> {
            &&& key@.len() == KEY_LEN
            &&& salt_b64@ == base64_encoded(salt@)
            &&& salt_b64@.len() == (salt@.len() + 2) / 3 * 4
            &&& base64_decoded(salt_b64@) == Some(salt@)
            &&& derived_key(password@, salt_b64@) == Ok::<Seq<u8>, KdfError>(key@)
        },
{
    let key = match derive_master_key_from_decoded_salt(password, Some(salt)) {
        Ok(key) => key,
        Err(_) => {
            return Err(KdfError::DerivationFailed);
        },
    };
    if !fits_base64(salt.len()) {
        return Err(KdfError::DerivationFailed);
    }
    Ok((base64_encode(salt), key))
}

/// Draws a fresh salt of 16 bytes and derives the master key under it.
/// Returns the salt in base64 with the key.
///
/// Which salt is drawn is not known beforehand; whatever it is, the result
/// is what [`derive_master_key_with_salt`] gives for it: the text is the
/// base64 of the drawn salt, and the key is the one that
/// [`derive_master_key_from_salt`] gives again for that text.
pub fn derive_master_key_new_salt(password: &str) -> (r: Result<(String, Vec<u8>), KdfError>)
    ensures
        r matches Err(e) ==> e == KdfError::RandomSource || e == KdfError::DerivationFailed,
        r is Ok ==> exists|salt: Seq<u8>|
            salt.len() == SALT_LEN && #[trigger] salted_key(password@, salt) == salted_result(r),
        r matches Ok((salt_b64, key)) ==> {
            &&& key@.len() == KEY_LEN
            &&& derived_key(password@, salt_b64@) == Ok::<Seq<u8>, KdfError>(key@)
            &&& base64_decoded(salt_b64@) matches Some(salt) && salt.len() == SALT_LEN
                && salt_b64@ == base64_encoded(salt)
            &&& salt_b64@.len() == 24
        },
{
    let salt = match os_random_bytes(SALT_LEN) {
        Ok(salt) => salt,
        Err(_) => {
            return Err(KdfError::RandomSource);
        },
    };
    derive_master_key_with_salt(password, salt.as_slice())
}

} // verus!
