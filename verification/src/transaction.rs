//! Transfers: the record that one leaves behind and the request that asks
//! for one.

use vstd::prelude::*;
use crate::db::Db;
use crate::model::{involves, transfer_result, LedgerError, LedgerView, TransactionView};
use crate::order::{lemma_rank_same, rank_of, Rank};
use crate::validation::{
    amount_ok, check_amount, check_username, username_ok, ValidationError,
};

verus! {

/// The record of a completed transfer. `transaction_id` is the 128-bit value
/// of the record's UUID, `created_at` the time of the commit in microseconds
/// since the Unix epoch.
#[derive(Debug)]
pub struct Transaction {
    pub transaction_id: u128,
    pub from_user: String,
    pub to_user: String,
    pub amount: i32,
    pub created_at: i64,
}

impl View for Transaction {
    type V = TransactionView;

    open spec fn view(&self) -> TransactionView {
        TransactionView {
            transaction_id: self.transaction_id,
            from_user: self.from_user@,
            to_user: self.to_user@,
            amount: self.amount as int,
            created_at: self.created_at as int,
        }
    }
}

impl Clone for Transaction {
    fn clone(&self) -> (r: Self)
        ensures
            r@ == self@,
    {
        Transaction {
            transaction_id: self.transaction_id,
            from_user: self.from_user.clone(),
            to_user: self.to_user.clone(),
            amount: self.amount,
            created_at: self.created_at,
        }
    }
}

/// The records as the contracts see them.
pub open spec fn transactions_view(records: Seq<Transaction>) -> Seq<TransactionView> {
    records.map_values(|t: Transaction| t@)
}

/// A request to move `amount` from the requester to `to_user`.
#[derive(Debug)]
pub struct TransactionRequest {
    pub to_user: String,
    pub amount: i32,
}

impl TransactionRequest {
    /// Whether the request meets its rules: the receiver's name has the
    /// length of a user name, and the amount is at least 1. The first rule
    /// that is broken is reported.
    pub fn validate(&self) -> (r: Result<(), ValidationError>)
        ensures
            r == if !username_ok(self.to_user@) {
                Err::<(), ValidationError>(ValidationError::Username)
            } else if !amount_ok(self.amount as int) {
                Err(ValidationError::Amount)
            } else {
                Ok(())
            },
    {
        if !check_username(self.to_user.as_str()) {
            Err(ValidationError::Username)
        } else if !check_amount(self.amount) {
            Err(ValidationError::Amount)
        } else {
            Ok(())
        }
    }
}

/// What a request for a transfer returns and leaves behind, when the record
/// gets the identifier `transaction_id` and the time `created_at`: a receiver
/// whose name no user can have is not found, and any other request is a
/// transfer.
pub open spec fn create_transaction_result(
    s: LedgerView,
    username: Seq<char>,
    to_user: Seq<char>,
    amount: int,
    transaction_id: u128,
    created_at: int,
) -> (Result<bool, LedgerError>, LedgerView) {
    if !username_ok(to_user) {
        (Err(LedgerError::NotFound), s)
    } else {
        transfer_result(s, username, to_user, amount, transaction_id, created_at)
    }
}

/// Transfers `transaction_request.amount` from the account named `username`
/// to the account named `transaction_request.to_user`. `Ok(false)` says that
/// the sender's balance does not cover the amount.
pub fn create_transaction(db: &mut Db, username: &str, transaction_request: TransactionRequest) -> (r:
    Result<bool, LedgerError>)
    requires
        old(db).wf(),
    ensures
        final(db).wf(),
        exists|transaction_id: u128, created_at: i64|
            (r, final(db)@) == #[trigger] create_transaction_result(
                old(db)@,
                username@,
                transaction_request.to_user@,
                transaction_request.amount as int,
                transaction_id,
                created_at as int,
            ),
        final(db)@.total() == old(db)@.total(),
{
    match transaction_request.validate() {
        Err(ValidationError::Amount) => {
            assert((Err::<bool, LedgerError>(LedgerError::InvalidAmount), db@)
                == create_transaction_result(
                db@,
                username@,
                transaction_request.to_user@,
                transaction_request.amount as int,
                0,
                0i64 as int,
            ));
            Err(LedgerError::InvalidAmount)
        },
        Err(_) => {
            assert((Err::<bool, LedgerError>(LedgerError::NotFound), db@)
                == create_transaction_result(
                db@,
                username@,
                transaction_request.to_user@,
                transaction_request.amount as int,
                0,
                0i64 as int,
            ));
            Err(LedgerError::NotFound)
        },
        Ok(()) => {
            let ghost to_user = transaction_request.to_user@;
            let ghost amount = transaction_request.amount as int;
            let r = db.process_transaction(username, transaction_request);
            proof {
                let (id, at) = choose|id: u128, at: i64|
                    (r, db@) == #[trigger] transfer_result(
                        old(db)@,
                        username@,
                        to_user,
                        amount,
                        id,
                        at as int,
                    );
                assert((r, db@) == create_transaction_result(
                    old(db)@,
                    username@,
                    to_user,
                    amount,
                    id,
                    at as int,
                ));
            }
            r
        },
    }
}

/// What showing `transaction` to `username` gives: the record where the user
/// is its sender or its receiver, a refusal to anybody else.
pub fn authorize(transaction: Transaction, username: &str) -> (r: Result<Transaction, LedgerError>)
    ensures
        involves(transaction@, username@) ==> r == Ok::<Transaction, LedgerError>(transaction),
        !involves(transaction@, username@) ==> r is Err && r->Err_0 == LedgerError::Forbidden,
{
    proof {
        lemma_rank_same(transaction.to_user@, username@);
        lemma_rank_same(transaction.from_user@, username@);
    }
    if rank_of(transaction.to_user.as_str(), username) != Rank::Same && rank_of(
        transaction.from_user.as_str(),
        username,
    ) != Rank::Same {
        return Err(LedgerError::Forbidden);
    }
    Ok(transaction)
}

/// The record with identifier `id`, for `username` to see: a record that
/// does not exist is not found, and one to which the user is no party is
/// forbidden.
pub fn get_transaction_by_id(db: &Db, username: &str, id: u128) -> (r: Result<
    Transaction,
    LedgerError,
>)
    requires
        db.wf(),
    ensures
        !db@.has_record(id) ==> r is Err && r->Err_0 == LedgerError::NotFound,
        db@.has_record(id) && !involves(db@.record_of(id), username@) ==> r is Err && r->Err_0
            == LedgerError::Forbidden,
        db@.has_record(id) && involves(db@.record_of(id), username@) ==> r is Ok && r->Ok_0@
            == db@.record_of(id),
{
    match db.get_transaction(id) {
        Ok(transaction) => authorize(transaction, username),
        Err(e) => Err(e),
    }
}

/// The records in which `username` is sender or receiver, oldest first.
pub fn transactions_list(db: &Db, username: &str) -> (r: Result<Vec<Transaction>, LedgerError>)
    requires
        db.wf(),
    ensures
        r is Ok,
        transactions_view(r->Ok_0@) == db@.records_of(username@),
{
    db.get_transactions_list(username)
}

} // verus!
