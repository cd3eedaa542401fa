//! Balances: reading one, and depositing into one.

use vstd::prelude::*;
use crate::db::Db;
use crate::model::{deposit_result, LedgerError, LedgerView};
use crate::validation::{amount_ok, check_amount, ValidationError};

verus! {

/// A request to deposit `deposit_amount` into the requester's account.
#[derive(Debug)]
pub struct DepositAmount {
    pub deposit_amount: i32,
}

impl DepositAmount {
    /// Whether the request meets its rule: the amount is at least 1.
    pub fn validate(&self) -> (r: Result<(), ValidationError>)
        ensures
            r == if amount_ok(self.deposit_amount as int) {
                Ok::<(), ValidationError>(())
            } else {
                Err(ValidationError::Amount)
            },
    {
        if check_amount(self.deposit_amount) {
            Ok(())
        } else {
            Err(ValidationError::Amount)
        }
    }
}

/// Deposits `deposit_amount` into the account named `username` and returns
/// the new balance.
pub fn deposit(db: &mut Db, username: &str, deposit_amount: &DepositAmount) -> (r: Result<
    i64,
    LedgerError,
>)
    requires
        old(db).wf(),
    ensures
        final(db).wf(),
        (r, final(db)@) == deposit_result(
            old(db)@,
            username@,
            deposit_amount.deposit_amount as int,
        ),
{
    match deposit_amount.validate() {
        Ok(()) => db.deposit(username, deposit_amount.deposit_amount),
        Err(_) => Err(LedgerError::InvalidAmount),
    }
}

/// What reading the balance of `username` returns.
pub open spec fn balance_result(s: LedgerView, username: Seq<char>) -> Result<i64, LedgerError> {
    if s.has_account(username) {
        Ok(s.balance_of(username) as i64)
    } else {
        Err(LedgerError::NotFound)
    }
}

/// The balance of the account named `username`.
pub fn get_balance(db: &Db, username: &str) -> (r: Result<i64, LedgerError>)
    requires
        db.wf(),
    ensures
        r == balance_result(db@, username@),
{
    db.get_balance_of_user(username)
}

/// Reading a balance twice from the same ledger gives the same result.
pub proof fn lemma_balance_read_is_repeatable(
    s: LedgerView,
    username: Seq<char>,
    first: Result<i64, LedgerError>,
    second: Result<i64, LedgerError>,
)
    requires
        first == balance_result(s, username),
        second == balance_result(s, username),
    ensures
        first == second,
{
}

} // verus!
