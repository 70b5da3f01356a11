//! The secret cache: how the master key is written into, and read back
//! from, the single entry of the operating system's secret store.
//!
//! The store itself is reached by the caller. This module decides what is
//! written there and what a lookup means.

use vstd::prelude::*;
use crate::cipher::KEY_LEN;
use crate::codec::{base64_decode, base64_decoded, base64_encode, base64_encoded};
use crate::text::text_result;

verus! {

/// Name of the service under which the entry is kept.
pub const SERVICE_NAME: &'static str = "TraceDiary";

/// Name of the account under which the entry is kept.
pub const USERNAME: &'static str = "default";

/// What a lookup in the secret store came back with.
#[derive(Debug, Clone, PartialEq, Eq)]
pub enum SecretLookup {
    /// The entry exists and holds this text.
    Found(String),
    /// There is no entry: the diary is locked.
    NotFound,
    /// The store could not be asked.
    Failed,
}

/// Why the secret cache gave no answer.
#[derive(Debug, Clone, Copy, PartialEq, Eq, Structural)]
pub enum SecretError {
    /// The key to store is not 32 bytes long.
    InvalidKeyLength,
    /// The stored text is no base64.
    MalformedSecret,
    /// The stored text does not hold 32 bytes.
    WrongLength,
    /// The store could not be asked.
    StoreFailed,
}

/// The text under which a master key is stored.
pub open spec fn stored_secret(master_key: Seq<u8>) -> Result<Seq<char>, SecretError> {
    if master_key.len() != KEY_LEN {
        Err(SecretError::InvalidKeyLength)
    } else {
        Ok(base64_encoded(master_key))
    }
}

/// What a lookup means: no entry is the locked state, a stored text must
/// hold exactly 32 bytes, and everything else is an error.
pub open spec fn loaded_key(lookup: SecretLookup) -> Result<Option<Seq<u8>>, SecretError> {
    match lookup {
        SecretLookup::NotFound => Ok(None),
        SecretLookup::Failed => Err(SecretError::StoreFailed),
        SecretLookup::Found(text) => match base64_decoded(text@) {
            None => Err(SecretError::MalformedSecret),
            Some(key) => if key.len() != KEY_LEN {
                Err(SecretError::WrongLength)
            } else {
                Ok(Some(key))
            },
        },
    }
}

/// A result that may hold a key, with the key as a sequence.
pub open spec fn key_result(r: Result<Option<Vec<u8>>, SecretError>) -> Result<
    Option<Seq<u8>>,
    SecretError,
> {
    match r {
        Ok(Some(key)) => Ok(Some(key@)),
        Ok(None) => Ok(None),
        Err(e) => Err(e),
    }
}

/// Prepares a master key for the secret store: the text that the caller
/// writes into the entry, over whatever was there. A lookup that finds this
/// text gives the key back.
pub fn store_master_key(master_key: &[u8]) -> (r: Result<String, SecretError>)
    ensures
        text_result(r) == stored_secret(master_key@),
        r matches Ok(secret) ==> loaded_key(SecretLookup::Found(secret)) == Ok::<
            Option<Seq<u8>>,
            SecretError,
        >(Some(master_key@)),
{
    if master_key.len() != KEY_LEN {
        return Err(SecretError::InvalidKeyLength);
    }
    Ok(base64_encode(master_key))
}

/// Reads the master key out of what a lookup in the secret store came back
/// with. `Ok(None)` is the locked state.
pub fn load_master_key(lookup: SecretLookup) -> (r: Result<Option<Vec<u8>>, SecretError>)
    ensures
        key_result(r) == loaded_key(lookup),
        r matches Ok(Some(key)) ==> key@.len() == KEY_LEN,
{
    match lookup {
        SecretLookup::NotFound => Ok(None),
        SecretLookup::Failed => Err(SecretError::StoreFailed),
        SecretLookup::Found(text) => {
            let key = match base64_decode(text.as_str()) {
                Ok(key) => key,
                Err(_) => {
                    return Err(SecretError::MalformedSecret);
                },
            };
            if key.len() != KEY_LEN {
                return Err(SecretError::WrongLength);
            }
            Ok(Some(key))
        },
    }
}

} // verus!
