//! What the service takes from its surroundings: fresh identifiers, the time
//! of day, and the hashing of passwords; and what it decides on them.

use vstd::prelude::*;
use argon2::password_hash::rand_core::OsRng;
use argon2::password_hash::{PasswordHash, PasswordHasher, PasswordVerifier, SaltString};
use argon2::Argon2;
use crate::error::{AppError, AppResult, TokenError};

verus! {

/// Calls `uuid::Uuid::new_v4` and hands back the 128-bit value of the UUID
/// (`Uuid::as_u128`). The value is random: nothing is claimed of it.
#[verifier::external_body]
pub(crate) fn fresh_transaction_id() -> u128 {
    uuid::Uuid::new_v4().as_u128()
}

/// Calls `chrono::Utc::now` and hands back `DateTime::timestamp_micros` of
/// it, the microseconds since the Unix epoch. Nothing is claimed of the value.
#[verifier::external_body]
pub(crate) fn now_micros() -> i64 {
    chrono::Utc::now().timestamp_micros()
}

/// The microseconds of a second.
pub const MICROS_PER_SECOND: i64 = 1_000_000;

/// Whether `seconds` is the second of the Unix epoch in which the
/// microsecond `micros` lies.
pub open spec fn within_second(micros: int, seconds: int) -> bool {
    seconds * MICROS_PER_SECOND <= micros < (seconds + 1) * MICROS_PER_SECOND
}

/// The second of the Unix epoch in which the microsecond `micros` lies,
/// before the epoch as after it.
pub fn seconds_of(micros: i64) -> (seconds: i64)
    ensures
        within_second(micros as int, seconds as int),
{
    let whole = micros / MICROS_PER_SECOND;
    let rest = micros % MICROS_PER_SECOND;
    if rest < 0 {
        whole - 1
    } else {
        whole
    }
}

/// What Argon2 says of a password and a stored hash: `None` where the hash
/// is no hash string that `argon2::password_hash::PasswordHash::new` can
/// read, otherwise whether `verify_password` of `argon2::Argon2::default()`
/// accepts the password for it.
pub uninterp spec fn argon2_accepts(password: Seq<char>, hash: Seq<char>) -> Option<bool>;

/// Reads `hash` with `PasswordHash::new` and calls
/// `Argon2::default().verify_password` on the bytes of `password` and the
/// hash that was read. The result is that of the two calls on these
/// arguments, under the name `argon2_accepts`.
#[verifier::external_body]
pub(crate) fn argon2_verify(password: &str, hash: &str) -> (r: Option<bool>)
    ensures
        r == argon2_accepts(password@, hash@),
{
    match PasswordHash::new(hash) {
        Ok(parsed) => Some(Argon2::default().verify_password(password.as_bytes(), &parsed).is_ok()),
        Err(_) => None,
    }
}

/// Calls `Argon2::default().hash_password` on the bytes of `password` with a
/// salt from `SaltString::generate`, and hands back the hash string. The salt
/// is random, so the string is not determined; as the documentation of the
/// crate shows, it is a hash that Argon2 accepts `password` for.
#[verifier::external_body]
pub(crate) fn argon2_hash(password: &str) -> (r: Option<String>)
    ensures
        r matches Some(hash) ==> argon2_accepts(password@, hash@) == Some(true),
{
    let salt = SaltString::generate(&mut OsRng);
    match Argon2::default().hash_password(password.as_bytes(), &salt) {
        Ok(hash) => Some(hash.to_string()),
        Err(_) => None,
    }
}

/// What the service makes of Argon2's answer: a hash that cannot be read is
/// a failure inside the service, anything else is the answer itself.
pub open spec fn password_checked(answer: Option<bool>) -> AppResult<bool> {
    match answer {
        Some(accepted) => Ok(accepted),
        None => Err(AppError::Internal),
    }
}

/// Hashes `password` with a fresh salt.
pub fn hash_password(password: &str) -> (r: AppResult<String>)
    ensures
        match r {
            Ok(hash) => argon2_accepts(password@, hash@) == Some(true),
            Err(e) => e == AppError::Internal,
        },
{
    match argon2_hash(password) {
        Some(hash) => Ok(hash),
        None => Err(AppError::Internal),
    }
}

/// What the service makes of Argon2's answer.
pub fn check_of(answer: Option<bool>) -> (r: AppResult<bool>)
    ensures
        r == password_checked(answer),
{
    match answer {
        Some(accepted) => Ok(accepted),
        None => Err(AppError::Internal),
    }
}

/// Whether `password` is the password that `hash` was made of.
pub fn validate_password(password: &str, hash: &str) -> (r: AppResult<bool>)
    ensures
        r == password_checked(argon2_accepts(password@, hash@)),
{
    check_of(argon2_verify(password, hash))
}

/// What a token says: whom it was issued to, and the second of the Unix
/// epoch after which it is no longer good.
#[derive(Debug)]
pub struct CustomClaims {
    pub sub: String,
    pub exp: i64,
}

/// The seconds for which a token is good after a login.
pub const TOKEN_LIFETIME: i64 = 3600;

/// Whether `r` is what issuing a token to `user_id` at the second `now` for
/// `expiry_time` seconds gives: claims that name the user and expire at
/// `now + expiry_time`, or nothing where that is no 64-bit number.
pub open spec fn claims_issued(
    r: Option<CustomClaims>,
    now: int,
    expiry_time: int,
    user_id: String,
) -> bool {
    if i64::MIN <= now + expiry_time <= i64::MAX {
        r is Some && r->Some_0.sub == user_id && r->Some_0.exp == now + expiry_time
    } else {
        r is None
    }
}

/// The claims of a token issued to `user_id` at the second `now`, good for
/// `expiry_time` seconds.
pub fn claims_at(now: i64, expiry_time: i64, user_id: String) -> (r: Option<CustomClaims>)
    ensures
        claims_issued(r, now as int, expiry_time as int, user_id),
{
    match now.checked_add(expiry_time) {
        Some(exp) => Some(CustomClaims { sub: user_id, exp }),
        None => None,
    }
}

/// The claims of a token issued to `user_id` now, good for `expiry_time`
/// seconds.
pub fn generate_claims(expiry_time: i64, user_id: String) -> (r: Option<CustomClaims>)
    ensures
        exists|now: i64| #[trigger] claims_issued(r, now as int, expiry_time as int, user_id),
{
    claims_at(seconds_of(now_micros()), expiry_time, user_id)
}

/// Whom a token was issued to, at the second `now`: a token that could not
/// be read stays an error, one whose expiry time lies before `now` has
/// expired, and any other names its user.
pub open spec fn claims_checked(decoded: Result<CustomClaims, TokenError>, now: int) -> Result<
    String,
    TokenError,
> {
    match decoded {
        Ok(claims) => if claims.exp < now {
            Err(TokenError::Expired)
        } else {
            Ok(claims.sub)
        },
        Err(e) => Err(e),
    }
}

/// Whom a token was issued to, at the second `now`.
pub fn claims_valid_at(decoded: Result<CustomClaims, TokenError>, now: i64) -> (r: Result<
    String,
    TokenError,
>)
    ensures
        r == claims_checked(decoded, now as int),
{
    match decoded {
        Ok(claims) => {
            if claims.exp < now {
                Err(TokenError::Expired)
            } else {
                Ok(claims.sub)
            }
        },
        Err(e) => Err(e),
    }
}

/// Whom a token was issued to, now.
pub fn validate_claims(decoded: Result<CustomClaims, TokenError>) -> (r: Result<String, TokenError>)
    ensures
        exists|now: i64| r == #[trigger] claims_checked(decoded, now as int),
        decoded matches Err(e) ==> r == Err::<String, TokenError>(e),
{
    claims_valid_at(decoded, seconds_of(now_micros()))
}

} // verus!
