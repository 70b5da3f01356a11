//! Credential and encryption core of an encrypted personal journal.
//!
//! The crate holds the password policy, the credential hash, the master-key
//! derivation, the secret-cache codec, the encrypted envelope, the
//! authentication state and the coordinator rules that gate diary reads and
//! writes behind an unlocked master key. Every executable function carries a
//! contract that Verus proves; the calls into the cryptographic crates, the
//! random source and the clock sit behind small trusted items whose doc
//! comments say what is believed of them.
//!
//! The settings store, the entries table, the blob files and the operating
//! system's secret store are reached by the caller: each function here takes
//! what was read as plain values and returns what is to be written.

pub mod auth;
pub mod cipher;
pub mod clock;
pub mod codec;
pub mod diary;
pub mod diary_repo;
pub mod encryption;
pub mod envelope;
pub mod history;
pub mod keyring_store;
pub mod password;
pub mod state;
pub mod text;
