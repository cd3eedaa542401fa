//! What holds of every ledger that deposits, transfers and sign-ups can lead
//! to, in whatever order they come.
//!
//! Each operation on the store is one indivisible step: whoever runs it holds
//! the store exclusively until it is over. However many callers there are,
//! the store therefore goes through the operations one after the other, in
//! some order; the laws below hold for every order. (Where the steps of
//! operations interleave under row locks, `isolation` shows that the ledger
//! is still the ledger of some such order.)

use vstd::prelude::*;
use crate::model::{
    deposit_result, lemma_credited, lemma_enrolled, lemma_transfer, same_names, signup_result,
    transfer_result, LedgerView,
};

verus! {

/// One operation on the ledger.
pub enum LedgerOp {
    /// Enrol an account.
    Signup { username: Seq<char>, hashed_password: Seq<char> },
    /// Deposit into an account.
    Deposit { username: Seq<char>, amount: int },
    /// Transfer from one account to another.
    Transfer {
        from_user: Seq<char>,
        to_user: Seq<char>,
        amount: int,
        transaction_id: u128,
        created_at: int,
    },
}

impl LedgerOp {
    /// Whether the amount of the operation, if it has one, is a 32-bit
    /// number, as every amount that reaches the store is.
    pub open spec fn in_range(self) -> bool {
        match self {
            LedgerOp::Signup { .. } => true,
            LedgerOp::Deposit { amount, .. } => i32::MIN <= amount <= i32::MAX,
            LedgerOp::Transfer { amount, .. } => i32::MIN <= amount <= i32::MAX,
        }
    }
}

/// The ledger that `op` leaves behind.
pub open spec fn apply(s: LedgerView, op: LedgerOp) -> LedgerView {
    match op {
        LedgerOp::Signup { username, hashed_password } => signup_result(
            s,
            username,
            hashed_password,
        ).1,
        LedgerOp::Deposit { username, amount } => deposit_result(s, username, amount).1,
        LedgerOp::Transfer { from_user, to_user, amount, transaction_id, created_at } => transfer_result(
            s,
            from_user,
            to_user,
            amount,
            transaction_id,
            created_at,
        ).1,
    }
}

/// The ledger that the operations `ops` leave behind, carried out one after
/// the other.
pub open spec fn apply_all(s: LedgerView, ops: Seq<LedgerOp>) -> LedgerView
    decreases ops.len(),
{
    if ops.len() == 0 {
        s
    } else {
        apply(apply_all(s, ops.drop_last()), ops.last())
    }
}

/// Whether every operation of `ops` is a transfer.
pub open spec fn only_transfers(ops: Seq<LedgerOp>) -> bool {
    forall|i: int| 0 <= i < ops.len() ==> #[trigger] ops[i] is Transfer
}

/// Whether every operation of `ops` has an amount in range.
pub open spec fn all_in_range(ops: Seq<LedgerOp>) -> bool {
    forall|i: int| 0 <= i < ops.len() ==> (#[trigger] ops[i]).in_range()
}

/// One operation keeps a ledger well formed.
pub proof fn lemma_apply_wf(s: LedgerView, op: LedgerOp)
    requires
        s.wf(),
        op.in_range(),
    ensures
        apply(s, op).wf(),
{
    match op {
        LedgerOp::Signup { username, hashed_password } => {
            if !s.has_account(username) {
                lemma_enrolled(s, username, hashed_password);
            }
        },
        LedgerOp::Deposit { username, amount } => {
            if deposit_result(s, username, amount).0 is Ok {
                lemma_credited(s, username, amount);
            }
        },
        LedgerOp::Transfer { from_user, to_user, amount, transaction_id, created_at } => {
            lemma_transfer(s, from_user, to_user, amount, transaction_id, created_at);
        },
    }
}

/// No balance is ever negative: whatever operations a well-formed ledger
/// goes through, in whatever order, it stays well formed, and so every
/// balance stays a non-negative 64-bit amount.
pub proof fn lemma_no_negative_balance(s: LedgerView, ops: Seq<LedgerOp>)
    requires
        s.wf(),
        all_in_range(ops),
    ensures
        apply_all(s, ops).wf(),
        forall|i: int|
            0 <= i < apply_all(s, ops).accounts.len() ==> 0 <= (#[trigger] apply_all(
                s,
                ops,
            ).accounts[i]).balance <= i64::MAX,
    decreases ops.len(),
{
    if ops.len() > 0 {
        let before = ops.drop_last();
        assert forall|i: int| 0 <= i < before.len() implies (#[trigger] before[i]).in_range() by {
            assert(before[i] == ops[i]);
        }
        lemma_no_negative_balance(s, before);
        assert(ops.last() == ops[ops.len() - 1]);
        lemma_apply_wf(apply_all(s, before), ops.last());
    }
}

/// Every ledger that the operations lead to from the empty ledger is well
/// formed.
pub proof fn lemma_reachable_wf(ops: Seq<LedgerOp>)
    requires
        all_in_range(ops),
    ensures
        apply_all(LedgerView::empty(), ops).wf(),
{
    lemma_no_negative_balance(LedgerView::empty(), ops);
}

/// Conservation: whatever transfers a well-formed ledger goes through, in
/// whatever order, the sum of all balances at the end is the sum at the
/// start, and the accounts are the same.
pub proof fn lemma_transfers_conserve_total(s: LedgerView, ops: Seq<LedgerOp>)
    requires
        s.wf(),
        only_transfers(ops),
        all_in_range(ops),
    ensures
        apply_all(s, ops).wf(),
        apply_all(s, ops).total() == s.total(),
        same_names(s, apply_all(s, ops)),
    decreases ops.len(),
{
    if ops.len() > 0 {
        let before = ops.drop_last();
        assert forall|i: int| 0 <= i < before.len() implies (#[trigger] before[i]).in_range()
            && before[i] is Transfer by {
            assert(before[i] == ops[i]);
        }
        lemma_transfers_conserve_total(s, before);
        let mid = apply_all(s, before);
        assert(ops.last() == ops[ops.len() - 1]);
        match ops.last() {
            LedgerOp::Transfer { from_user, to_user, amount, transaction_id, created_at } => {
                lemma_transfer(mid, from_user, to_user, amount, transaction_id, created_at);
            },
            _ => {},
        }
    }
}

/// A deposit that succeeds raises the sum of all balances by its amount, and
/// one that does not leaves the ledger as it was: no deposit is lost, and
/// none counts twice.
pub proof fn lemma_deposit_total(s: LedgerView, username: Seq<char>, amount: int)
    requires
        s.wf(),
    ensures
        ({
            let (r, t) = deposit_result(s, username, amount);
            &&& t.wf()
            &&& r is Ok ==> t.total() == s.total() + amount && t.balance_of(username)
                == s.balance_of(username) + amount && r->Ok_0 == t.balance_of(username)
            &&& r is Err ==> t == s
        }),
{
    if deposit_result(s, username, amount).0 is Ok {
        lemma_credited(s, username, amount);
        let i = s.index_of(username);
        assert(s.account_at(username, i));
        assert(0 <= s.accounts[i].balance);
    }
}

/// Whether every operation of `ops` is a deposit of `amount` into the account
/// named `username`.
pub open spec fn only_deposits_of(ops: Seq<LedgerOp>, username: Seq<char>, amount: int) -> bool {
    forall|i: int| 0 <= i < ops.len() ==> #[trigger] ops[i] == (LedgerOp::Deposit { username, amount })
}

/// Every deposit counts, and counts once: after any number of deposits of
/// the same positive amount into an account, the balance has grown by the
/// amount times their number, as long as that is a 64-bit amount.
pub proof fn lemma_deposits_all_count(
    s: LedgerView,
    username: Seq<char>,
    amount: int,
    ops: Seq<LedgerOp>,
)
    requires
        s.wf(),
        s.has_account(username),
        0 < amount,
        only_deposits_of(ops, username, amount),
        s.balance_of(username) + ops.len() * amount <= i64::MAX,
    ensures
        apply_all(s, ops).wf(),
        apply_all(s, ops).has_account(username),
        apply_all(s, ops).balance_of(username) == s.balance_of(username) + ops.len() * amount,
    decreases ops.len(),
{
    if ops.len() > 0 {
        let before = ops.drop_last();
        let n = before.len() as int;
        assert((n + 1) * amount == n * amount + amount) by (nonlinear_arith);
        assert(0 <= n * amount) by (nonlinear_arith)
            requires
                0 <= n,
                0 < amount,
        ;
        assert forall|i: int| 0 <= i < before.len() implies #[trigger] before[i]
            == (LedgerOp::Deposit { username, amount }) by {
            assert(before[i] == ops[i]);
        }
        lemma_deposits_all_count(s, username, amount, before);
        let mid = apply_all(s, before);
        assert(ops.last() == ops[ops.len() - 1]);
        lemma_credited(mid, username, amount);
    } else {
        assert(ops.len() * amount == 0) by (nonlinear_arith)
            requires
                ops.len() == 0,
        ;
    }
}

} // verus!
