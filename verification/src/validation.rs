//! The rules that a request has to meet before anything is done with it.

use vstd::prelude::*;
use validator::{ValidateLength, ValidateRange};

verus! {

/// The field of a request that breaks its rule.
#[derive(Clone, Copy, Debug, PartialEq, Eq, Structural)]
pub enum ValidationError {
    /// A user name is shorter than 4 or longer than 16 characters.
    Username,
    /// A password is shorter than 8 or longer than 100 characters.
    Password,
    /// An amount is below 1.
    Amount,
}

/// The fewest characters of a user name.
pub const USERNAME_MIN: u64 = 4;

/// The most characters of a user name.
pub const USERNAME_MAX: u64 = 16;

/// The fewest characters of a password.
pub const PASSWORD_MIN: u64 = 8;

/// The most characters of a password.
pub const PASSWORD_MAX: u64 = 100;

/// The least amount that can be deposited or transferred.
pub const AMOUNT_MIN: i32 = 1;

/// Calls `validator::ValidateLength::validate_length` on a string with a
/// least and a greatest length and no exact one. The length of a string is
/// there the number of its characters, and the string passes when that
/// number is neither below `min` nor above `max`.
#[verifier::external_body]
pub(crate) fn length_between(value: &str, min: u64, max: u64) -> (ok: bool)
    ensures
        ok == (min <= value@.len() <= max),
{
    value.validate_length(Some(min), Some(max), None)
}

/// Calls `validator::ValidateRange::validate_range` on an `i32` with a least
/// value and no other bound. The value passes when it is not below `min`.
#[verifier::external_body]
pub(crate) fn at_least(value: i32, min: i32) -> (ok: bool)
    ensures
        ok == (value >= min),
{
    value.validate_range(Some(min), None, None, None)
}

/// Whether `name` has the length of a user name.
pub open spec fn username_ok(name: Seq<char>) -> bool {
    USERNAME_MIN <= name.len() <= USERNAME_MAX
}

/// Whether `password` has the length of a password.
pub open spec fn password_ok(password: Seq<char>) -> bool {
    PASSWORD_MIN <= password.len() <= PASSWORD_MAX
}

/// Whether `amount` can be deposited or transferred.
pub open spec fn amount_ok(amount: int) -> bool {
    amount >= AMOUNT_MIN
}

/// Whether `name` has the length of a user name.
pub fn check_username(name: &str) -> (ok: bool)
    ensures
        ok == username_ok(name@),
{
    length_between(name, USERNAME_MIN, USERNAME_MAX)
}

/// Whether `password` has the length of a password.
pub fn check_password(password: &str) -> (ok: bool)
    ensures
        ok == password_ok(password@),
{
    length_between(password, PASSWORD_MIN, PASSWORD_MAX)
}

/// Whether `amount` can be deposited or transferred.
pub fn check_amount(amount: i32) -> (ok: bool)
    ensures
        ok == amount_ok(amount as int),
{
    at_least(amount, AMOUNT_MIN)
}

} // verus!
