//! AES-256-GCM, the authenticated cipher under the envelope.

use vstd::prelude::*;
use aes_gcm::aead::Aead;
use aes_gcm::KeyInit;
use crate::codec::base64_fits;

verus! {

/// Bytes in a master key.
pub const KEY_LEN: usize = 32;

/// Bytes in a nonce.
pub const NONCE_LEN: usize = 12;

/// Bytes in the authentication tag that follows the encrypted bytes.
pub const TAG_LEN: usize = 16;

/// Most bytes that one call of the cipher encrypts.
pub const MAX_PLAINTEXT_LEN: u64 = 0x10_0000_0000;

/// What AES-256-GCM makes of a plaintext under a key and a nonce, with no
/// associated data: the encrypted bytes followed by the tag.
pub uninterp spec fn aes256_gcm_sealed(key: Seq<u8>, nonce: Seq<u8>, plaintext: Seq<u8>) -> Option<
    Seq<u8>,
>;

/// What AES-256-GCM recovers from a ciphertext under a key and a nonce, with
/// no associated data, if the tag authenticates it.
pub uninterp spec fn aes256_gcm_opened(key: Seq<u8>, nonce: Seq<u8>, ciphertext: Seq<u8>) -> Option<
    Seq<u8>,
>;

/// Whether a plaintext of `len` bytes can be made into an envelope: the
/// base64 text of the sealed bytes, and so the sealed bytes themselves, can
/// be allocated, and the cipher's own limit is kept.
pub open spec fn plaintext_fits(len: nat) -> bool {
    base64_fits(len + TAG_LEN as nat) && len <= MAX_PLAINTEXT_LEN
}

/// The opaque error of the cipher, carried through unread.
#[verifier::external_type_specification]
#[verifier::external_body]
pub struct ExCipherError(aes_gcm::Error);

/// Calls `Aead::encrypt` of `aes_gcm::Aes256Gcm`, keyed through
/// `KeyInit::new_from_slice`. Believed: the call fails only on a plaintext
/// beyond the cipher's limit; the result is the plaintext's length plus the
/// tag, and `Aead::decrypt` under the same key and nonce gives the plaintext
/// back. The key and nonce lengths that would make the call panic, and a
/// length whose buffer cannot be allocated, are excluded.
#[verifier::external_body]
pub(crate) fn aes256_gcm_seal(key: &[u8], nonce: &[u8], plaintext: &[u8]) -> (r: Result<
    Vec<u8>,
    aes_gcm::Error,
>)
    requires
        key@.len() == KEY_LEN,
        nonce@.len() == NONCE_LEN,
        plaintext@.len() + TAG_LEN <= isize::MAX,
    ensures
        r is Ok <==> plaintext@.len() <= MAX_PLAINTEXT_LEN,
        match r {
            Ok(sealed) => aes256_gcm_sealed(key@, nonce@, plaintext@) == Some(sealed@),
            Err(_) => aes256_gcm_sealed(key@, nonce@, plaintext@) is None,
        },
        r matches Ok(sealed) ==> sealed@.len() == plaintext@.len() + TAG_LEN && aes256_gcm_opened(
            key@,
            nonce@,
            sealed@,
        ) == Some(plaintext@),
{
    let cipher = match aes_gcm::Aes256Gcm::new_from_slice(key) {
        Ok(cipher) => cipher,
        Err(_) => return Err(aes_gcm::Error),
    };
    cipher.encrypt(aes_gcm::Nonce::from_slice(nonce), plaintext)
}

/// Calls `Aead::decrypt` of `aes_gcm::Aes256Gcm`, keyed through
/// `KeyInit::new_from_slice`. Believed: the call returns the plaintext when
/// the tag authenticates the ciphertext and an error otherwise; a ciphertext
/// shorter than the tag is always an error, and a plaintext is as long as the
/// ciphertext without the tag. The key and nonce lengths that would make the
/// call panic are excluded.
#[verifier::external_body]
pub(crate) fn aes256_gcm_open(key: &[u8], nonce: &[u8], ciphertext: &[u8]) -> (r: Result<
    Vec<u8>,
    aes_gcm::Error,
>)
    requires
        key@.len() == KEY_LEN,
        nonce@.len() == NONCE_LEN,
    ensures
        match r {
            Ok(plain) => aes256_gcm_opened(key@, nonce@, ciphertext@) == Some(plain@),
            Err(_) => aes256_gcm_opened(key@, nonce@, ciphertext@) is None,
        },
        r matches Ok(plain) ==> plain@.len() + TAG_LEN == ciphertext@.len(),
        ciphertext@.len() < TAG_LEN ==> r is Err,
{
    let cipher = match aes_gcm::Aes256Gcm::new_from_slice(key) {
        Ok(cipher) => cipher,
        Err(_) => return Err(aes_gcm::Error),
    };
    cipher.decrypt(aes_gcm::Nonce::from_slice(nonce), ciphertext)
}

} // verus!
