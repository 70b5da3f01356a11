//! The encrypted envelope: text in, storable text out, and back.

use vstd::prelude::*;
use vstd::utf8::{
    decode_utf8, encode_utf8, encode_utf8_decode_utf8, encode_utf8_valid_utf8, valid_utf8,
};
use crate::cipher::{
    aes256_gcm_open, aes256_gcm_opened, aes256_gcm_seal, aes256_gcm_sealed, plaintext_fits,
    KEY_LEN, NONCE_LEN, TAG_LEN,
};
use crate::codec::{
    base64_decode, base64_decoded, base64_encode, base64_encoded, fits_base64, is_base64_char,
    is_base64_text, os_random_bytes,
};
use crate::text::text_result;
use crate::envelope::{
    envelope_text, is_plain_char, is_plain_text, parse_envelope, parsed_envelope, write_envelope,
    EncryptedPayload, PayloadView,
};

verus! {

/// The one format version that is written and read.
pub const ENVELOPE_VERSION: u8 = 1;

/// Why an envelope could not be made or opened.
#[derive(Debug, Clone, Copy, PartialEq, Eq, Structural)]
pub enum CryptoError {
    /// The master key is not 32 bytes long.
    InvalidKeyLength,
    /// The operating system gave no random bytes for the nonce.
    RandomSource,
    /// The plaintext is longer than the cipher takes.
    EncryptionFailed,
    /// The text is no envelope.
    MalformedEnvelope,
    /// The envelope's version is not the one that is read.
    UnsupportedVersion,
    /// The nonce field is no base64.
    MalformedNonce,
    /// The nonce is not 12 bytes long.
    InvalidNonceLength,
    /// The ciphertext field is no base64.
    MalformedCiphertext,
    /// The tag does not authenticate the ciphertext: a wrong key, or a
    /// changed envelope.
    DecryptionFailed,
    /// The decrypted bytes are no UTF-8.
    InvalidUtf8,
}

/// The payload of a plaintext under a key and a nonce: the version that is
/// written, the nonce and the sealed bytes in base64.
pub open spec fn sealed_payload(key: Seq<u8>, nonce: Seq<u8>, plaintext: Seq<char>) -> Result<
    PayloadView,
    CryptoError,
> {
    if key.len() != KEY_LEN {
        Err(CryptoError::InvalidKeyLength)
    } else if nonce.len() != NONCE_LEN {
        Err(CryptoError::InvalidNonceLength)
    } else if !plaintext_fits(encode_utf8(plaintext).len()) {
        Err(CryptoError::EncryptionFailed)
    } else {
        match aes256_gcm_sealed(key, nonce, encode_utf8(plaintext)) {
            Some(sealed) => Ok(
                PayloadView {
                    v: ENVELOPE_VERSION as nat,
                    nonce_b64: base64_encoded(nonce),
                    ciphertext_b64: base64_encoded(sealed),
                },
            ),
            None => Err(CryptoError::EncryptionFailed),
        }
    }
}

/// The envelope of a plaintext under a key and a nonce: the compact text of
/// its payload.
pub open spec fn sealed_envelope(key: Seq<u8>, nonce: Seq<u8>, plaintext: Seq<char>) -> Result<
    Seq<char>,
    CryptoError,
> {
    match sealed_payload(key, nonce, plaintext) {
        Ok(payload) => Ok(envelope_text(payload.v, payload.nonce_b64, payload.ciphertext_b64)),
        Err(e) => Err(e),
    }
}

/// What opening gives, from the answers of the codec and the cipher: the
/// key's length, the version, the decoded nonce, the decoded ciphertext and
/// what the cipher recovered. Each check comes in this order, and the
/// plaintext only when all of them pass.
pub open spec fn opened_from(
    key_len: nat,
    version: nat,
    nonce: Option<Seq<u8>>,
    sealed: Option<Seq<u8>>,
    recovered: Option<Seq<u8>>,
) -> Result<Seq<char>, CryptoError> {
    if key_len != KEY_LEN {
        Err(CryptoError::InvalidKeyLength)
    } else if version != ENVELOPE_VERSION {
        Err(CryptoError::UnsupportedVersion)
    } else if nonce is None {
        Err(CryptoError::MalformedNonce)
    } else if nonce->0.len() != NONCE_LEN {
        Err(CryptoError::InvalidNonceLength)
    } else if sealed is None {
        Err(CryptoError::MalformedCiphertext)
    } else {
        match recovered {
            None => Err(CryptoError::DecryptionFailed),
            Some(bytes) => if valid_utf8(bytes) {
                Ok(decode_utf8(bytes))
            } else {
                Err(CryptoError::InvalidUtf8)
            },
        }
    }
}

/// What the cipher recovers under a key from a decoded nonce and a decoded
/// ciphertext, where both decoded.
pub open spec fn recovered_bytes(
    key: Seq<u8>,
    nonce: Option<Seq<u8>>,
    sealed: Option<Seq<u8>>,
) -> Option<Seq<u8>> {
    match (nonce, sealed) {
        (Some(n), Some(c)) => aes256_gcm_opened(key, n, c),
        _ => None,
    }
}

/// What opening a payload under a key gives: its two fields are decoded,
/// the cipher is asked, and [`opened_from`] judges the answers.
pub open spec fn opened_payload(key: Seq<u8>, payload: PayloadView) -> Result<
    Seq<char>,
    CryptoError,
> {
    opened_from(
        key.len(),
        payload.v,
        base64_decoded(payload.nonce_b64),
        base64_decoded(payload.ciphertext_b64),
        recovered_bytes(
            key,
            base64_decoded(payload.nonce_b64),
            base64_decoded(payload.ciphertext_b64),
        ),
    )
}

/// Bytes that may be missing, as a sequence.
pub open spec fn optional_bytes(bytes: Option<Vec<u8>>) -> Option<Seq<u8>> {
    match bytes {
        Some(b) => Some(b@),
        None => None,
    }
}

/// What opening an envelope under a key gives: the key's length is checked
/// first, then the text is read, then its payload is opened.
pub open spec fn opened_envelope(key: Seq<u8>, text: Seq<char>) -> Result<Seq<char>, CryptoError> {
    if key.len() != KEY_LEN {
        Err(CryptoError::InvalidKeyLength)
    } else {
        match parsed_envelope(text) {
            None => Err(CryptoError::MalformedEnvelope),
            Some(payload) => opened_payload(key, payload),
        }
    }
}

/// A result that holds a payload, with the payload as plain values.
pub open spec fn payload_result(r: Result<EncryptedPayload, CryptoError>) -> Result<
    PayloadView,
    CryptoError,
> {
    match r {
        Ok(payload) => Ok(payload@),
        Err(e) => Err(e),
    }
}

/// Base64 text needs no escaping.
proof fn lemma_base64_text_is_plain(text: Seq<char>)
    requires
        is_base64_text(text),
    ensures
        is_plain_text(text),
{
    assert forall|i: int| 0 <= i < text.len() implies is_plain_char(#[trigger] text[i]) by {
        assert(is_base64_char(text[i]));
    }
}

/// Encrypts `plaintext` under `master_key` with the given nonce. The
/// payload is a function of the three arguments. Its two strings are
/// base64: the one of the nonce, the other of bytes that are longer than
/// the plaintext by the 16 bytes of the tag. It opens again, under the same
/// key, to the same plaintext.
pub fn encrypt_payload(master_key: &[u8], nonce: &[u8], plaintext: &str) -> (r: Result<
    EncryptedPayload,
    CryptoError,
>)
    ensures
        payload_result(r) == sealed_payload(master_key@, nonce@, plaintext@),
        r is Ok <==> master_key@.len() == KEY_LEN && nonce@.len() == NONCE_LEN && plaintext_fits(
            encode_utf8(plaintext@).len(),
        ),
        r matches Ok(payload) ==> {
            &&& is_base64_text(payload.nonce_b64@)
            &&& is_base64_text(payload.ciphertext_b64@)
            &&& base64_decoded(payload.nonce_b64@) == Some(nonce@)
            &&& base64_decoded(payload.ciphertext_b64@) matches Some(sealed) && sealed.len()
                == encode_utf8(plaintext@).len() + TAG_LEN
            &&& opened_payload(master_key@, payload@) == Ok::<Seq<char>, CryptoError>(plaintext@)
        },
{
    if master_key.len() != KEY_LEN {
        return Err(CryptoError::InvalidKeyLength);
    }
    if nonce.len() != NONCE_LEN {
        return Err(CryptoError::InvalidNonceLength);
    }
    let bytes = plaintext.as_bytes();
    if bytes.len() > usize::MAX - TAG_LEN || !fits_base64(bytes.len() + TAG_LEN) {
        return Err(CryptoError::EncryptionFailed);
    }
    let sealed = match aes256_gcm_seal(master_key, nonce, bytes) {
        Ok(sealed) => sealed,
        Err(_) => {
            return Err(CryptoError::EncryptionFailed);
        },
    };
    proof {
        encode_utf8_valid_utf8(plaintext@);
        encode_utf8_decode_utf8(plaintext@);
    }
    Ok(
        EncryptedPayload {
            v: ENVELOPE_VERSION,
            nonce_b64: base64_encode(nonce),
            ciphertext_b64: base64_encode(sealed.as_slice()),
        },
    )
}

/// Encrypts `plaintext` under `master_key` with the given nonce and writes
/// the envelope. The result is a function of the three arguments, and what
/// it writes opens again, under the same key, to the same plaintext.
pub fn encrypt_text_with_nonce(master_key: &[u8], nonce: &[u8], plaintext: &str) -> (r: Result<
    String,
    CryptoError,
>)
    ensures
        text_result(r) == sealed_envelope(master_key@, nonce@, plaintext@),
        r is Ok <==> master_key@.len() == KEY_LEN && nonce@.len() == NONCE_LEN && plaintext_fits(
            encode_utf8(plaintext@).len(),
        ),
        r matches Ok(text) ==> opened_envelope(master_key@, text@) == Ok::<Seq<char>, CryptoError>(
            plaintext@,
        ),
{
    let payload = match encrypt_payload(master_key, nonce, plaintext) {
        Ok(payload) => payload,
        Err(e) => {
            return Err(e);
        },
    };
    proof {
        lemma_base64_text_is_plain(payload.nonce_b64@);
        lemma_base64_text_is_plain(payload.ciphertext_b64@);
    }
    Ok(write_envelope(&payload))
}

/// Encrypts `plaintext` under `master_key` with a nonce drawn afresh from
/// the operating system, and writes the envelope.
///
/// Which nonce is drawn is not known beforehand; whatever it is, the result
/// is the envelope under it, and opens again to the plaintext.
pub fn encrypt_text(master_key: &[u8], plaintext: &str) -> (r: Result<String, CryptoError>)
    ensures
        r == Err::<String, CryptoError>(CryptoError::InvalidKeyLength) <==> master_key@.len()
            != KEY_LEN,
        r is Ok ==> plaintext_fits(encode_utf8(plaintext@).len()),
        r matches Err(e) ==> e == CryptoError::InvalidKeyLength || e == CryptoError::RandomSource
            || (e == CryptoError::EncryptionFailed && !plaintext_fits(
            encode_utf8(plaintext@).len(),
        )),
        r matches Ok(text) ==> exists|nonce: Seq<u8>|
            nonce.len() == NONCE_LEN && #[trigger] sealed_envelope(master_key@, nonce, plaintext@)
                == text_result(r),
        r matches Ok(text) ==> opened_envelope(master_key@, text@) == Ok::<Seq<char>, CryptoError>(
            plaintext@,
        ),
{
    if master_key.len() != KEY_LEN {
        return Err(CryptoError::InvalidKeyLength);
    }
    let nonce = match os_random_bytes(NONCE_LEN) {
        Ok(nonce) => nonce,
        Err(_) => {
            return Err(CryptoError::RandomSource);
        },
    };
    encrypt_text_with_nonce(master_key, nonce.as_slice(), plaintext)
}

/// Judges the answers of the codec and the cipher: the key's length, the
/// version, the decoded nonce and ciphertext (`None` where the text was no
/// base64) and what the cipher recovered (`None` where it authenticated
/// nothing). Each way of failing has its own error, and no part of a
/// plaintext is returned with any of them.
pub fn judge_opening(
    key_len: usize,
    version: u8,
    nonce: &Option<Vec<u8>>,
    sealed: &Option<Vec<u8>>,
    recovered: Option<Vec<u8>>,
) -> (r: Result<String, CryptoError>)
    ensures
        text_result(r) == opened_from(
            key_len as nat,
            version as nat,
            optional_bytes(*nonce),
            optional_bytes(*sealed),
            optional_bytes(recovered),
        ),
{
    if key_len != KEY_LEN {
        return Err(CryptoError::InvalidKeyLength);
    }
    if version != ENVELOPE_VERSION {
        return Err(CryptoError::UnsupportedVersion);
    }
    match nonce {
        None => {
            return Err(CryptoError::MalformedNonce);
        },
        Some(bytes) => {
            if bytes.len() != NONCE_LEN {
                return Err(CryptoError::InvalidNonceLength);
            }
        },
    }
    if sealed.is_none() {
        return Err(CryptoError::MalformedCiphertext);
    }
    let bytes = match recovered {
        Some(bytes) => bytes,
        None => {
            return Err(CryptoError::DecryptionFailed);
        },
    };
    match String::from_utf8(bytes) {
        Ok(plaintext) => Ok(plaintext),
        Err(_) => Err(CryptoError::InvalidUtf8),
    }
}

/// Opens a payload under `master_key`: decodes its two fields, asks the
/// cipher where key and nonce have their lengths, and lets
/// [`judge_opening`] judge the answers.
pub fn decrypt_payload(master_key: &[u8], payload: &EncryptedPayload) -> (r: Result<
    String,
    CryptoError,
>)
    ensures
        text_result(r) == opened_payload(master_key@, payload@),
{
    let nonce = match base64_decode(payload.nonce_b64.as_str()) {
        Ok(bytes) => Some(bytes),
        Err(_) => None,
    };
    let sealed = match base64_decode(payload.ciphertext_b64.as_str()) {
        Ok(bytes) => Some(bytes),
        Err(_) => None,
    };
    let recovered = match (&nonce, &sealed) {
        (Some(n), Some(c)) => {
            if master_key.len() == KEY_LEN && n.len() == NONCE_LEN {
                match aes256_gcm_open(master_key, n.as_slice(), c.as_slice()) {
                    Ok(bytes) => Some(bytes),
                    Err(_) => None,
                }
            } else {
                None
            }
        },
        _ => None,
    };
    judge_opening(master_key.len(), payload.v, &nonce, &sealed, recovered)
}

/// Opens an envelope under `master_key`: reads the text and opens its
/// payload. The key's length is checked before the text is looked at.
pub fn decrypt_text(master_key: &[u8], encrypted_text: &str) -> (r: Result<String, CryptoError>)
    ensures
        text_result(r) == opened_envelope(master_key@, encrypted_text@),
{
    if master_key.len() != KEY_LEN {
        return Err(CryptoError::InvalidKeyLength);
    }
    match parse_envelope(encrypted_text) {
        Some(payload) => decrypt_payload(master_key, &payload),
        None => Err(CryptoError::MalformedEnvelope),
    }
}

} // verus!
