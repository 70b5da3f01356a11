//! The authentication state: whether a password is set, whether it has to
//! be verified again, and what setting or verifying a password produces.
//!
//! The settings store and the secret store are reached by the caller, who
//! hands in what was read and writes out what comes back.

use vstd::prelude::*;
use crate::cipher::KEY_LEN;
use crate::clock::now_unix_seconds;
use crate::codec::{base64_decoded, base64_encoded};
use crate::keyring_store::{loaded_key, store_master_key, SecretError, SecretLookup};
use crate::password::{
    derive_master_key_from_salt, derive_master_key_new_salt, derived_key, hash_password,
    policy_verdict, validate_password, verification, HashError, KdfError, PolicyViolation,
    VerifyError, SALT_LEN,
};
use crate::text::{
    bounded_decimal, chars_of, decimal_digits, decimal_string, is_digit, is_white_space,
    lemma_decimal_digits, read_bounded_decimal, trim_range, trimmed,
};

verus! {

/// Seconds after which a verified password has to be verified again.
pub const SEVEN_DAYS_SECONDS: u64 = 7 * 24 * 60 * 60;

/// What a status query answers.
#[derive(Debug, Clone, Copy, PartialEq, Eq, Structural)]
pub struct AuthStatus {
    pub password_set: bool,
    pub needs_verify: bool,
}

/// The three states of the authentication state machine.
#[derive(Debug, Clone, Copy, PartialEq, Eq, Structural)]
pub enum AuthState {
    /// No password has been set.
    NoPassword,
    /// A password is set and was verified within the last seven days.
    Verified,
    /// A password is set and has to be verified again.
    StaleVerification,
}

impl AuthStatus {
    /// The state that a status stands for.
    pub open spec fn state_of(self) -> AuthState {
        if !self.password_set {
            AuthState::NoPassword
        } else if self.needs_verify {
            AuthState::StaleVerification
        } else {
            AuthState::Verified
        }
    }

    /// The state that this status stands for.
    pub fn state(&self) -> (r: AuthState)
        ensures
            r == self.state_of(),
    {
        if !self.password_set {
            AuthState::NoPassword
        } else if self.needs_verify {
            AuthState::StaleVerification
        } else {
            AuthState::Verified
        }
    }
}

/// Why a password was not set or not verified.
#[derive(Debug, Clone, Copy, PartialEq, Eq, Structural)]
pub enum AuthError {
    /// The password does not meet the policy. Nothing was computed.
    Policy(PolicyViolation),
    /// No credential hash was made.
    Hash(HashError),
    /// No master key was derived.
    Kdf(KdfError),
    /// The master key could not be prepared for the secret cache.
    Secret(SecretError),
    /// The clock could not be read.
    ClockUnavailable,
    /// No password has been set yet.
    NoPasswordSet,
    /// The password is wrong, or the stored hash is corrupt.
    AuthenticationFailed(VerifyError),
    /// A hash is stored without its salt.
    MissingSalt,
}

/// The Unix seconds that a stored timestamp writes: white space around it
/// and one leading `+` are passed over, the rest is decimal digits within
/// 64 bits.
pub open spec fn unix_seconds(s: Seq<char>) -> Option<nat> {
    let t = trimmed(s);
    if t.len() > 0 && t[0] == '+' {
        bounded_decimal(t.skip(1), u64::MAX as nat)
    } else {
        bounded_decimal(t, u64::MAX as nat)
    }
}

/// Reads a stored timestamp.
pub fn parse_unix_seconds(s: &str) -> (r: Option<u64>)
    ensures
        match r {
            Some(n) => unix_seconds(s@) == Some(n as nat),
            None => unix_seconds(s@) is None,
        },
{
    let chars = chars_of(s);
    let (from, to) = trim_range(&chars, 0, chars.len());
    proof {
        assert(chars@.subrange(0, chars@.len() as int) == chars@);
    }
    let ghost t = chars@.subrange(from as int, to as int);
    if from < to && chars[from] == '+' {
        proof {
            assert(t[0] == chars@[from as int]);
            assert(t.skip(1) == chars@.subrange(from + 1, to as int));
        }
        read_bounded_decimal(&chars, from + 1, to, u64::MAX)
    } else {
        proof {
            if from < to {
                assert(t[0] == chars@[from as int]);
            }
        }
        read_bounded_decimal(&chars, from, to, u64::MAX)
    }
}

/// Whether a verification recorded at `last_verified_at` is stale at `now`:
/// more than seven days have passed, or the record cannot be read.
pub open spec fn is_stale(last_verified_at: Seq<char>, now: nat) -> bool {
    match unix_seconds(last_verified_at) {
        None => true,
        Some(last) => now - last > SEVEN_DAYS_SECONDS,
    }
}

/// The status at `now`, given the stored hash and the stored time of the
/// last verification; an empty text stands for a missing setting.
pub open spec fn auth_status(
    password_hash: Seq<char>,
    last_verified_at: Seq<char>,
    now: nat,
) -> AuthStatus {
    AuthStatus {
        password_set: password_hash.len() > 0,
        needs_verify: password_hash.len() > 0 && is_stale(last_verified_at, now),
    }
}

/// Answers a status query for the time `now`, in Unix seconds.
pub fn get_auth_status_at(password_hash: &str, last_verified_at: &str, now: u64) -> (r: AuthStatus)
    ensures
        r == auth_status(password_hash@, last_verified_at@, now as nat),
        r.needs_verify ==> r.password_set,
{
    if password_hash.is_empty() {
        return AuthStatus { password_set: false, needs_verify: false };
    }
    let needs_verify = match parse_unix_seconds(last_verified_at) {
        None => true,
        Some(last) => now > last && now - last > SEVEN_DAYS_SECONDS,
    };
    AuthStatus { password_set: true, needs_verify }
}

/// Answers a status query for the present. The clock is read only where a
/// password is set: without one the answer is `{false, false}`, and with
/// one a clock that cannot be read is an error. What the clock says is not
/// known beforehand; whatever it says, the answer is the status at that
/// time.
pub fn get_auth_status(password_hash: &str, last_verified_at: &str) -> (r: Result<
    AuthStatus,
    AuthError,
>)
    ensures
        password_hash@.len() == 0 ==> r == Ok::<AuthStatus, AuthError>(
            AuthStatus { password_set: false, needs_verify: false },
        ),
        r matches Err(e) ==> e == AuthError::ClockUnavailable,
        r matches Ok(status) ==> exists|now: nat|
            status == #[trigger] auth_status(password_hash@, last_verified_at@, now),
        r matches Ok(status) ==> status.password_set == (password_hash@.len() > 0) && (
        status.needs_verify ==> status.password_set),
        r matches Ok(status) ==> (password_hash@.len() > 0 && unix_seconds(last_verified_at@)
            is None ==> status.needs_verify),
{
    if password_hash.is_empty() {
        proof {
            lemma_no_password_never_stale(last_verified_at@, 0);
            assert(password_hash@ == Seq::<char>::empty());
        }
        return Ok(AuthStatus { password_set: false, needs_verify: false });
    }
    match now_unix_seconds() {
        Some(now) => Ok(get_auth_status_at(password_hash, last_verified_at, now)),
        None => Err(AuthError::ClockUnavailable),
    }
}

/// A timestamp written by this library reads back as the same number.
pub proof fn lemma_timestamp_round_trip(n: nat)
    requires
        n <= u64::MAX,
    ensures
        unix_seconds(decimal_digits(n)) == Some(n),
{
    lemma_decimal_digits(n);
    let s = decimal_digits(n);
    assert(is_digit(s[0]));
    assert(is_digit(s[s.len() - 1]));
    assert(!is_white_space(s[0]));
    assert(!is_white_space(s[s.len() - 1]));
    assert(trimmed(s) == s) by {
        assert(s.subrange(0, s.len() as int) == s);
    }
}

/// Staleness: for a set password whose last verification was recorded at
/// `last`, a status query at `now` asks for a new verification exactly when
/// more than seven days lie between the two. Eight days are stale, six are
/// not.
pub proof fn lemma_staleness_window(password_hash: Seq<char>, last: nat, now: nat)
    requires
        password_hash.len() > 0,
        last <= u64::MAX,
    ensures
        auth_status(password_hash, decimal_digits(last), now).password_set,
        auth_status(password_hash, decimal_digits(last), now).needs_verify <==> now - last
            > SEVEN_DAYS_SECONDS,
        now - last == 8 * 86400 ==> auth_status(password_hash, decimal_digits(last), now).needs_verify,
        now - last == 6 * 86400 ==> !auth_status(
            password_hash,
            decimal_digits(last),
            now,
        ).needs_verify,
{
    lemma_timestamp_round_trip(last);
}

/// Without a password nothing asks for a verification, whatever the stored
/// timestamp and the clock say.
pub proof fn lemma_no_password_never_stale(last_verified_at: Seq<char>, now: nat)
    ensures
        auth_status(Seq::<char>::empty(), last_verified_at, now) == (AuthStatus {
            password_set: false,
            needs_verify: false,
        }),
        auth_status(Seq::<char>::empty(), last_verified_at, now).state_of()
            == AuthState::NoPassword,
{
}

/// The passage of time alone moves a set password from `Verified` to
/// `StaleVerification`: with the last verification recorded at `last`, the
/// state is `Verified` up to seven days later and `StaleVerification` from
/// then on. It never falls back to `NoPassword`.
pub proof fn lemma_time_makes_stale(password_hash: Seq<char>, last: nat, now: nat)
    requires
        password_hash.len() > 0,
        last <= u64::MAX,
    ensures
        now <= last + SEVEN_DAYS_SECONDS ==> auth_status(
            password_hash,
            decimal_digits(last),
            now,
        ).state_of() == AuthState::Verified,
        now > last + SEVEN_DAYS_SECONDS ==> auth_status(
            password_hash,
            decimal_digits(last),
            now,
        ).state_of() == AuthState::StaleVerification,
{
    lemma_timestamp_round_trip(last);
}

/// What setting a password produces, for the caller to write out: the
/// secret into the secret store, the other four into the settings.
#[derive(Debug, Clone, PartialEq, Eq)]
pub struct PasswordSetup {
    /// The credential hash, self-describing.
    pub password_hash: String,
    /// The salt of the master key, in base64. Written together with the
    /// hash, never one without the other.
    pub kdf_salt: String,
    /// The master key as the secret store holds it.
    pub secret: String,
    /// Unix seconds, in decimal.
    pub password_set_at: String,
    /// Unix seconds, in decimal.
    pub last_verified_at: String,
}

/// What a successful verification produces, for the caller to write out.
#[derive(Debug, Clone, PartialEq, Eq)]
pub struct Unlock {
    /// The master key as the secret store holds it.
    pub secret: String,
    /// Unix seconds, in decimal.
    pub last_verified_at: String,
}

/// What setting a password computes before the clock is read: the hash,
/// the salt and the secret.
struct Credentials {
    password_hash: String,
    kdf_salt: String,
    secret: String,
}

/// Whether the three texts are credentials of the password: it verifies
/// against the hash, the salt text holds 16 bytes, and the secret is the key
/// that the password derives from the salt, as the secret store holds it.
pub open spec fn are_credentials(
    password: Seq<char>,
    password_hash: Seq<char>,
    kdf_salt: Seq<char>,
    secret: String,
) -> bool {
    &&& password_hash.len() > 0
    &&& kdf_salt.len() > 0
    &&& base64_decoded(kdf_salt) matches Some(salt) && salt.len() == SALT_LEN
    &&& verification(password, password_hash) == Ok::<(), VerifyError>(())
    &&& derived_key(password, kdf_salt) matches Ok(key) && key.len() == KEY_LEN && secret@
        == base64_encoded(key) && loaded_key(SecretLookup::Found(secret)) == Ok::<
        Option<Seq<u8>>,
        SecretError,
    >(Some(key))
}

/// Whether an error is one that making credentials for a password that
/// meets the policy can end in: the random source or Argon2 gave out.
pub open spec fn is_credential_failure(e: AuthError) -> bool {
    e == AuthError::Hash(HashError::RandomSource) || e == AuthError::Hash(HashError::Hasher) || e
        == AuthError::Kdf(KdfError::RandomSource) || e == AuthError::Kdf(
        KdfError::DerivationFailed,
    )
}

/// Checks the policy, hashes the password, derives a master key under a
/// fresh salt and prepares it for the secret cache.
fn make_credentials(password: &str) -> (r: Result<Credentials, AuthError>)
    ensures
        match policy_verdict(password@) {
            Err(violation) => r == Err::<Credentials, AuthError>(AuthError::Policy(violation)),
            Ok(()) => match r {
                Err(e) => is_credential_failure(e),
                Ok(made) => are_credentials(
                    password@,
                    made.password_hash@,
                    made.kdf_salt@,
                    made.secret,
                ),
            },
        },
{
    match validate_password(password) {
        Ok(()) => {},
        Err(violation) => {
            return Err(AuthError::Policy(violation));
        },
    }
    let password_hash = match hash_password(password) {
        Ok(hash) => hash,
        Err(e) => {
            return Err(AuthError::Hash(e));
        },
    };
    let (kdf_salt, master_key) = match derive_master_key_new_salt(password) {
        Ok(derived) => derived,
        Err(e) => {
            return Err(AuthError::Kdf(e));
        },
    };
    let secret = match store_master_key(master_key.as_slice()) {
        Ok(secret) => secret,
        Err(e) => {
            return Err(AuthError::Secret(e));
        },
    };
    Ok(Credentials { password_hash, kdf_salt, secret })
}

/// Whether `setup` is what setting `password` at `now` produces: its
/// credentials, both timestamps at `now`, and with them the state
/// `Verified`.
pub open spec fn is_setup_at(setup: PasswordSetup, password: Seq<char>, now: nat) -> bool {
    &&& are_credentials(password, setup.password_hash@, setup.kdf_salt@, setup.secret)
    &&& setup.password_set_at@ == decimal_digits(now)
    &&& setup.last_verified_at@ == decimal_digits(now)
    &&& auth_status(setup.password_hash@, setup.last_verified_at@, now) == (AuthStatus {
        password_set: true,
        needs_verify: false,
    })
    &&& auth_status(setup.password_hash@, setup.last_verified_at@, now).state_of()
        == AuthState::Verified
}

/// Puts the time `now` on freshly made credentials: both timestamps are
/// written at `now`.
fn stamp_setup(made: Credentials, now: u64) -> (r: PasswordSetup)
    ensures
        r.password_hash == made.password_hash,
        r.kdf_salt == made.kdf_salt,
        r.secret == made.secret,
        r.password_set_at@ == decimal_digits(now as nat),
        r.last_verified_at@ == decimal_digits(now as nat),
        unix_seconds(r.last_verified_at@) == Some(now as nat),
{
    proof {
        lemma_timestamp_round_trip(now as nat);
    }
    PasswordSetup {
        password_hash: made.password_hash,
        kdf_salt: made.kdf_salt,
        secret: made.secret,
        password_set_at: decimal_string(now),
        last_verified_at: decimal_string(now),
    }
}

/// Puts the time `now` on a secret that a verified password unlocked.
fn stamp_unlock(secret: String, now: u64) -> (r: Unlock)
    ensures
        r.secret == secret,
        r.last_verified_at@ == decimal_digits(now as nat),
        unix_seconds(r.last_verified_at@) == Some(now as nat),
{
    proof {
        lemma_timestamp_round_trip(now as nat);
    }
    Unlock { secret, last_verified_at: decimal_string(now) }
}

/// Sets a password at the time `now`: checks the policy, hashes the
/// password, derives a master key under a fresh salt and prepares it for
/// the secret cache.
///
/// A password that fails the policy is turned down before anything is
/// hashed or derived. On success the password verifies against the hash,
/// the stored secret is the key that the password derives again from the
/// stored salt, and a status query at `now` reports a set password that
/// needs no verification.
pub fn set_password_at(password: &str, now: u64) -> (r: Result<PasswordSetup, AuthError>)
    ensures
        match policy_verdict(password@) {
            Err(violation) => r == Err::<PasswordSetup, AuthError>(AuthError::Policy(violation)),
            Ok(()) => match r {
                Err(e) => is_credential_failure(e),
                Ok(setup) => is_setup_at(setup, password@, now as nat),
            },
        },
{
    match make_credentials(password) {
        Ok(made) => Ok(stamp_setup(made, now)),
        Err(e) => Err(e),
    }
}

/// Sets a password now: as [`set_password_at`], at the time that the clock
/// shows once the credentials are made. A clock that cannot be read is an
/// error, and nothing is produced.
pub fn set_password(password: &str) -> (r: Result<PasswordSetup, AuthError>)
    ensures
        policy_verdict(password@) matches Err(violation) ==> r == Err::<PasswordSetup, AuthError>(
            AuthError::Policy(violation),
        ),
        policy_verdict(password@) is Ok ==> (r matches Err(e) ==> is_credential_failure(e) || e
            == AuthError::ClockUnavailable),
        policy_verdict(password@) is Ok ==> (r matches Ok(setup) ==> exists|now: nat| #[trigger]
            is_setup_at(setup, password@, now)),
{
    let made = match make_credentials(password) {
        Ok(made) => made,
        Err(e) => {
            return Err(e);
        },
    };
    let now = match now_unix_seconds() {
        Some(now) => now,
        None => {
            return Err(AuthError::ClockUnavailable);
        },
    };
    let r = Ok(stamp_setup(made, now));
    proof {
        assert(is_setup_at(r->Ok_0, password@, now as nat));
    }
    r
}

/// The master key that verifying a password unlocks, given the stored hash
/// and the stored salt; an empty text stands for a missing setting. The
/// hash is checked before the salt is looked at.
pub open spec fn unlocked_by(
    password: Seq<char>,
    stored_hash: Seq<char>,
    stored_salt: Seq<char>,
) -> Result<Seq<u8>, AuthError> {
    if stored_hash.len() == 0 {
        Err(AuthError::NoPasswordSet)
    } else {
        match verification(password, stored_hash) {
            Err(e) => Err(AuthError::AuthenticationFailed(e)),
            Ok(()) => if stored_salt.len() == 0 {
                Err(AuthError::MissingSalt)
            } else {
                match derived_key(password, stored_salt) {
                    Err(e) => Err(AuthError::Kdf(e)),
                    Ok(key) => Ok(key),
                }
            },
        }
    }
}

/// Whether `secret` is the key `key` as the secret store holds it.
pub open spec fn is_secret_of(secret: String, key: Seq<u8>) -> bool {
    &&& key.len() == KEY_LEN
    &&& secret@ == base64_encoded(key)
    &&& loaded_key(SecretLookup::Found(secret)) == Ok::<Option<Seq<u8>>, SecretError>(Some(key))
}

/// Verifies the password against the stored hash, derives the master key
/// again from the stored salt and prepares it for the secret cache.
fn unlock_secret(password: &str, stored_hash: &str, stored_salt: &str) -> (r: Result<
    String,
    AuthError,
>)
    ensures
        match unlocked_by(password@, stored_hash@, stored_salt@) {
            Err(e) => r == Err::<String, AuthError>(e),
            Ok(key) => r matches Ok(secret) && is_secret_of(secret, key),
        },
{
    if stored_hash.is_empty() {
        return Err(AuthError::NoPasswordSet);
    }
    match crate::password::verify_password(password, stored_hash) {
        Ok(()) => {},
        Err(e) => {
            return Err(AuthError::AuthenticationFailed(e));
        },
    }
    if stored_salt.is_empty() {
        return Err(AuthError::MissingSalt);
    }
    let master_key = match derive_master_key_from_salt(password, stored_salt) {
        Ok(key) => key,
        Err(e) => {
            return Err(AuthError::Kdf(e));
        },
    };
    match store_master_key(master_key.as_slice()) {
        Ok(secret) => Ok(secret),
        Err(e) => Err(AuthError::Secret(e)),
    }
}

/// Whether `unlock` is what verifying at `now` produces for the key `key`:
/// the key as the secret store holds it, the timestamp at `now`, and with
/// it the state `Verified`.
pub open spec fn is_unlock_at(unlock: Unlock, stored_hash: Seq<char>, key: Seq<u8>, now: nat) -> bool {
    &&& is_secret_of(unlock.secret, key)
    &&& unlock.last_verified_at@ == decimal_digits(now)
    &&& !is_stale(unlock.last_verified_at@, now)
    &&& auth_status(stored_hash, unlock.last_verified_at@, now).state_of() == AuthState::Verified
}

/// Verifies a password at the time `now` against the stored hash, derives
/// the master key again from the stored salt and prepares it for the secret
/// cache.
///
/// A wrong password produces nothing to write: no secret and no timestamp.
pub fn verify_password_at(password: &str, stored_hash: &str, stored_salt: &str, now: u64) -> (r:
    Result<Unlock, AuthError>)
    ensures
        match unlocked_by(password@, stored_hash@, stored_salt@) {
            Err(e) => r == Err::<Unlock, AuthError>(e),
            Ok(key) => r matches Ok(unlock) && is_unlock_at(unlock, stored_hash@, key, now as nat),
        },
{
    match unlock_secret(password, stored_hash, stored_salt) {
        Ok(secret) => Ok(stamp_unlock(secret, now)),
        Err(e) => Err(e),
    }
}

/// Verifies a password now: as [`verify_password_at`], at the time that the
/// clock shows once the password is verified. A wrong password is answered
/// without a look at the clock; a clock that cannot be read is an error,
/// and nothing is produced.
pub fn verify_password(password: &str, stored_hash: &str, stored_salt: &str) -> (r: Result<
    Unlock,
    AuthError,
>)
    ensures
        unlocked_by(password@, stored_hash@, stored_salt@) matches Err(e) ==> r == Err::<
            Unlock,
            AuthError,
        >(e),
        unlocked_by(password@, stored_hash@, stored_salt@) is Ok ==> (r matches Err(e) ==> e
            == AuthError::ClockUnavailable),
        unlocked_by(password@, stored_hash@, stored_salt@) matches Ok(key) ==> (r matches Ok(
            unlock,
        ) ==> exists|now: nat| #[trigger] is_unlock_at(unlock, stored_hash@, key, now)),
{
    let secret = match unlock_secret(password, stored_hash, stored_salt) {
        Ok(secret) => secret,
        Err(e) => {
            return Err(e);
        },
    };
    let now = match now_unix_seconds() {
        Some(now) => now,
        None => {
            return Err(AuthError::ClockUnavailable);
        },
    };
    let r = Ok(stamp_unlock(secret, now));
    proof {
        let key = unlocked_by(password@, stored_hash@, stored_salt@)->Ok_0;
        assert(is_unlock_at(r->Ok_0, stored_hash@, key, now as nat));
    }
    r
}

/// After the secret cache has lost the key, the password that was set
/// brings the same key back: what setting a password stored (a hash that the
/// password verifies against, and the salt under which the key was
/// derived) is all that verifying needs.
pub proof fn lemma_verify_restores_key(
    password: Seq<char>,
    stored_hash: Seq<char>,
    stored_salt: Seq<char>,
    key: Seq<u8>,
)
    requires
        stored_hash.len() > 0,
        stored_salt.len() > 0,
        verification(password, stored_hash) == Ok::<(), VerifyError>(()),
        derived_key(password, stored_salt) == Ok::<Seq<u8>, KdfError>(key),
    ensures
        unlocked_by(password, stored_hash, stored_salt) == Ok::<Seq<u8>, AuthError>(key),
{
}

} // verus!
