//! The store: the accounts and the transaction log, held in memory.
//!
//! Every operation takes the store by `&mut` or by `&`, so whoever runs one
//! has the store to itself until the operation is over: an operation is one
//! indivisible step, and what it does is stated as one step of the model.

use vstd::prelude::*;
use crate::model::{
    deposit_result, lemma_credited, lemma_enrolled, lemma_index_unique, lemma_record_unique,
    lemma_transfer, records_involving, signup_result, transfer_result, AccountView, LedgerError,
    LedgerView,
};
use crate::order::{lemma_rank_same, rank_of, Rank};
use crate::transaction::{transactions_view, Transaction, TransactionRequest};
use crate::user::HashedUserCredentials;
use crate::utils::{fresh_transaction_id, now_micros};

verus! {

/// One account: its name, the hash of its password, and its balance.
pub struct Account {
    pub username: String,
    pub hashed_password: String,
    pub balance: i64,
}

impl View for Account {
    type V = AccountView;

    open spec fn view(&self) -> AccountView {
        AccountView {
            username: self.username@,
            hashed_password: self.hashed_password@,
            balance: self.balance as int,
        }
    }
}

/// The accounts as the contracts see them.
pub open spec fn accounts_view(accounts: Seq<Account>) -> Seq<AccountView> {
    accounts.map_values(|a: Account| a@)
}

/// The store. It holds a ledger that is well formed (`wf`): it is made
/// empty, and every operation keeps it well formed.
pub struct Db {
    accounts: Vec<Account>,
    transactions: Vec<Transaction>,
}

impl View for Db {
    type V = LedgerView;

    closed spec fn view(&self) -> LedgerView {
        LedgerView {
            accounts: accounts_view(self.accounts@),
            transactions: transactions_view(self.transactions@),
        }
    }
}

impl Db {
    /// Whether the store holds a well-formed ledger.
    pub open spec fn wf(&self) -> bool {
        self@.wf()
    }

    /// An empty store.
    pub fn init() -> (db: Db)
        ensures
            db.wf(),
            db@ == LedgerView::empty(),
    {
        let db = Db { accounts: Vec::new(), transactions: Vec::new() };
        assert(db@.accounts =~= LedgerView::empty().accounts);
        assert(db@.transactions =~= LedgerView::empty().transactions);
        db
    }

    /// The position of the account named `username`, if there is one.
    fn find(&self, username: &str) -> (r: Option<usize>)
        requires
            self.wf(),
        ensures
            match r {
                Some(i) => self@.account_at(username@, i as int) && self@.index_of(username@) == i,
                None => !self@.has_account(username@),
            },
    {
        let mut i: usize = 0;
        while i < self.accounts.len()
            invariant
                i <= self.accounts.len(),
                self@.wf(),
                forall|j: int| 0 <= j < i ==> !self@.account_at(username@, j),
            decreases self.accounts.len() - i,
        {
            if rank_of(self.accounts[i].username.as_str(), username) == Rank::Same {
                proof {
                    lemma_rank_same(self.accounts[i as int].username@, username@);
                    lemma_index_unique(self@, username@, i as int);
                }
                return Some(i);
            }
            proof {
                lemma_rank_same(self.accounts[i as int].username@, username@);
            }
            i = i + 1;
        }
        None
    }

    /// The balance of the account named `username`.
    pub fn get_balance_of_user(&self, username: &str) -> (r: Result<i64, LedgerError>)
        requires
            self.wf(),
        ensures
            self@.has_account(username@) ==> r == Ok::<i64, LedgerError>(
                self@.balance_of(username@) as i64,
            ),
            !self@.has_account(username@) ==> r == Err::<i64, LedgerError>(LedgerError::NotFound),
            r is Ok ==> r->Ok_0 >= 0,
    {
        match self.find(username) {
            Some(i) => Ok(self.accounts[i].balance),
            None => Err(LedgerError::NotFound),
        }
    }
}

impl Db {
    /// Adds `amount` to the balance of the account named `username` and
    /// returns the new balance.
    pub fn deposit(&mut self, username: &str, amount: i32) -> (r: Result<i64, LedgerError>)
        requires
            old(self).wf(),
        ensures
            final(self).wf(),
            (r, final(self)@) == deposit_result(old(self)@, username@, amount as int),
    {
        if amount <= 0 {
            return Err(LedgerError::InvalidAmount);
        }
        let i = match self.find(username) {
            Some(i) => i,
            None => {
                return Err(LedgerError::NotFound);
            },
        };
        let balance = self.accounts[i].balance;
        if balance > i64::MAX - (amount as i64) {
            return Err(LedgerError::Fault);
        }
        let updated = Account {
            username: self.accounts[i].username.clone(),
            hashed_password: self.accounts[i].hashed_password.clone(),
            balance: balance + (amount as i64),
        };
        proof {
            lemma_credited(self@, username@, amount as int);
            assert(accounts_view(self.accounts@.update(i as int, updated)) =~= self@.credited(
                username@,
                amount as int,
            ).accounts);
        }
        self.accounts.set(i, updated);
        Ok(balance + (amount as i64))
    }
}

impl Db {
    /// The position in the log of the record with identifier `id`, if there
    /// is one.
    fn find_record(&self, id: u128) -> (r: Option<usize>)
        ensures
            match r {
                Some(i) => self@.record_at(id, i as int),
                None => !self@.has_record(id),
            },
    {
        let mut i: usize = 0;
        while i < self.transactions.len()
            invariant
                i <= self.transactions.len(),
                forall|j: int| 0 <= j < i ==> !self@.record_at(id, j),
            decreases self.transactions.len() - i,
        {
            if self.transactions[i].transaction_id == id {
                return Some(i);
            }
            i = i + 1;
        }
        None
    }

    /// Moves `transaction_request.amount` from the account named `username`
    /// to the account named `transaction_request.to_user` and appends the
    /// record of it, with `transaction_id` as its identifier and `created_at`
    /// as its time, all or nothing. `Ok(false)` says that the sender's
    /// balance does not cover the amount.
    pub fn record_transfer(
        &mut self,
        username: &str,
        transaction_request: &TransactionRequest,
        transaction_id: u128,
        created_at: i64,
    ) -> (r: Result<bool, LedgerError>)
        requires
            old(self).wf(),
        ensures
            final(self).wf(),
            (r, final(self)@) == transfer_result(
                old(self)@,
                username@,
                transaction_request.to_user@,
                transaction_request.amount as int,
                transaction_id,
                created_at as int,
            ),
            final(self)@.total() == old(self)@.total(),
    {
        let amount = transaction_request.amount;
        let to_user = transaction_request.to_user.as_str();
        proof {
            lemma_transfer(
                self@,
                username@,
                to_user@,
                amount as int,
                transaction_id,
                created_at as int,
            );
            lemma_rank_same(username@, to_user@);
        }
        if amount <= 0 {
            return Err(LedgerError::InvalidAmount);
        }
        if rank_of(username, to_user) == Rank::Same {
            return Err(LedgerError::SameAccount);
        }
        let i = match self.find(username) {
            Some(i) => i,
            None => {
                return Err(LedgerError::NotFound);
            },
        };
        let j = match self.find(to_user) {
            Some(j) => j,
            None => {
                return Err(LedgerError::NotFound);
            },
        };
        let sender_balance = self.accounts[i].balance;
        if sender_balance < amount as i64 {
            return Ok(false);
        }
        let receiver_balance = self.accounts[j].balance;
        if receiver_balance > i64::MAX - (amount as i64) {
            return Err(LedgerError::Fault);
        }
        if self.find_record(transaction_id).is_some() {
            return Err(LedgerError::Fault);
        }
        let debited = Account {
            username: self.accounts[i].username.clone(),
            hashed_password: self.accounts[i].hashed_password.clone(),
            balance: sender_balance - (amount as i64),
        };
        let credited = Account {
            username: self.accounts[j].username.clone(),
            hashed_password: self.accounts[j].hashed_password.clone(),
            balance: receiver_balance + (amount as i64),
        };
        let record = Transaction {
            transaction_id,
            from_user: self.accounts[i].username.clone(),
            to_user: self.accounts[j].username.clone(),
            amount,
            created_at,
        };
        self.accounts.set(i, debited);
        self.accounts.set(j, credited);
        self.transactions.push(record);
        proof {
            let t = transfer_result(
                old(self)@,
                username@,
                to_user@,
                amount as int,
                transaction_id,
                created_at as int,
            ).1;
            assert(self@.accounts =~= t.accounts);
            assert(self@.transactions =~= t.transactions);
        }
        Ok(true)
    }

    /// Moves `transaction_request.amount` from the account named `username`
    /// to the account named `transaction_request.to_user`, all or nothing,
    /// and records the transfer under a fresh identifier with the current
    /// time. `Ok(false)` says that the sender's balance does not cover the
    /// amount.
    pub fn process_transaction(
        &mut self,
        username: &str,
        transaction_request: TransactionRequest,
    ) -> (r: Result<bool, LedgerError>)
        requires
            old(self).wf(),
        ensures
            final(self).wf(),
            exists|transaction_id: u128, created_at: i64|
                (r, final(self)@) == #[trigger] transfer_result(
                    old(self)@,
                    username@,
                    transaction_request.to_user@,
                    transaction_request.amount as int,
                    transaction_id,
                    created_at as int,
                ),
            final(self)@.total() == old(self)@.total(),
    {
        let transaction_id = fresh_transaction_id();
        let created_at = now_micros();
        self.record_transfer(username, &transaction_request, transaction_id, created_at)
    }
}

/// What a look-up says of whether the row exists: a row that was found
/// exists, one that was not found does not, and any other failure of the
/// look-up stays a failure.
pub fn row_exists<T>(lookup: Result<T, LedgerError>) -> (r: Result<bool, LedgerError>)
    ensures
        r == match lookup {
            Ok(_) => Ok::<bool, LedgerError>(true),
            Err(LedgerError::NotFound) => Ok(false),
            Err(e) => Err(e),
        },
{
    match lookup {
        Ok(_) => Ok(true),
        Err(LedgerError::NotFound) => Ok(false),
        Err(e) => Err(e),
    }
}

impl Db {
    /// Enrols an account under the name and with the password hash of
    /// `hashed_user_credentials`, with a balance of zero.
    pub fn signup_user(&mut self, hashed_user_credentials: HashedUserCredentials) -> (r: Result<
        (),
        LedgerError,
    >)
        requires
            old(self).wf(),
        ensures
            final(self).wf(),
            (r, final(self)@) == signup_result(
                old(self)@,
                hashed_user_credentials.username@,
                hashed_user_credentials.hashed_password@,
            ),
    {
        if self.find(hashed_user_credentials.username.as_str()).is_some() {
            return Err(LedgerError::Fault);
        }
        proof {
            lemma_enrolled(
                self@,
                hashed_user_credentials.username@,
                hashed_user_credentials.hashed_password@,
            );
        }
        self.accounts.push(
            Account {
                username: hashed_user_credentials.username,
                hashed_password: hashed_user_credentials.hashed_password,
                balance: 0,
            },
        );
        proof {
            assert(self@.accounts =~= old(self)@.enrolled(
                hashed_user_credentials.username@,
                hashed_user_credentials.hashed_password@,
            ).accounts);
        }
        Ok(())
    }

    /// The stored password hash of the account named `username`.
    pub fn get_hashed_password_of_user(&self, username: &str) -> (r: Result<String, LedgerError>)
        requires
            self.wf(),
        ensures
            self@.has_account(username@) ==> r is Ok && r->Ok_0@ == self@.password_of(username@),
            !self@.has_account(username@) ==> r == Err::<String, LedgerError>(
                LedgerError::NotFound,
            ),
    {
        match self.find(username) {
            Some(i) => Ok(self.accounts[i].hashed_password.clone()),
            None => Err(LedgerError::NotFound),
        }
    }

    /// Whether an account named `username` exists.
    pub fn check_if_username_exists(&self, username: &str) -> (r: Result<bool, LedgerError>)
        requires
            self.wf(),
        ensures
            r == Ok::<bool, LedgerError>(self@.has_account(username@)),
    {
        row_exists(self.get_hashed_password_of_user(username))
    }

    /// The record with identifier `id`.
    pub fn get_transaction(&self, id: u128) -> (r: Result<Transaction, LedgerError>)
        requires
            self.wf(),
        ensures
            self@.has_record(id) ==> r is Ok && r->Ok_0@ == self@.record_of(id),
            !self@.has_record(id) ==> r is Err && r->Err_0 == LedgerError::NotFound,
    {
        match self.find_record(id) {
            Some(i) => {
                proof {
                    lemma_record_unique(self@, id, i as int);
                }
                Ok(self.transactions[i].clone())
            },
            None => Err(LedgerError::NotFound),
        }
    }

    /// The records in which `username` is sender or receiver, oldest first.
    pub fn get_transactions_list(&self, username: &str) -> (r: Result<
        Vec<Transaction>,
        LedgerError,
    >)
        requires
            self.wf(),
        ensures
            r is Ok,
            transactions_view(r->Ok_0@) == self@.records_of(username@),
    {
        let mut found: Vec<Transaction> = Vec::new();
        let mut i: usize = 0;
        assert(self@.transactions.take(0) =~= Seq::empty());
        assert(transactions_view(found@) =~= Seq::empty());
        while i < self.transactions.len()
            invariant
                i <= self.transactions.len(),
                transactions_view(found@) == records_involving(
                    self@.transactions.take(i as int),
                    username@,
                ),
            decreases self.transactions.len() - i,
        {
            let record = &self.transactions[i];
            let from_user = rank_of(record.from_user.as_str(), username) == Rank::Same;
            let to_user = rank_of(record.to_user.as_str(), username) == Rank::Same;
            proof {
                lemma_rank_same(record.from_user@, username@);
                lemma_rank_same(record.to_user@, username@);
                assert(self@.transactions.take(i + 1).drop_last() =~= self@.transactions.take(
                    i as int,
                ));
                assert(self@.transactions.take(i + 1).last() == record@);
            }
            if from_user || to_user {
                let copy = record.clone();
                found.push(copy);
                proof {
                    assert(transactions_view(found@) =~= records_involving(
                        self@.transactions.take(i as int),
                        username@,
                    ).push(record@));
                }
            }
            i = i + 1;
        }
        assert(self@.transactions.take(i as int) =~= self@.transactions);
        Ok(found)
    }
}

} // verus!
