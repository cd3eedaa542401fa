//! A transactional store as the protocols expect it, and what the protocols
//! achieve against one.

use vstd::prelude::*;
use crate::engine::{
    DepositStepView, DepositView, RequestView, StoreReply, TransferStepView, TransferView,
};
use crate::model::{
    deposit_result, lemma_credited, lemma_same_names, transfer_record, transfer_result,
    LedgerError, LedgerView,
};
use crate::order::{first_of, lemma_lock_order, second_of};

verus! {

/// A store in the course of one unit of work: the committed ledger, which
/// everybody else sees, and the ledger as the unit of work has made it.
pub struct StoreView {
    pub committed: LedgerView,
    pub working: LedgerView,
}

impl StoreView {
    /// A store at rest on the ledger `s`.
    pub open spec fn at_rest(s: LedgerView) -> StoreView {
        StoreView { committed: s, working: s }
    }

    /// How a store that does not fail answers `request`, and what it is
    /// afterwards. A record is appended under the identifier `id` with the
    /// time `at`; an identifier that the log already holds is refused.
    pub open spec fn answer(self, request: RequestView, id: u128, at: int) -> (
        StoreReply,
        StoreView,
    ) {
        match request {
            RequestView::Begin => (StoreReply::Done, StoreView { working: self.committed, ..self }),
            RequestView::Lock(name) => if self.working.has_account(name) {
                (StoreReply::Balance(self.working.balance_of(name) as i64), self)
            } else {
                (StoreReply::Missing, self)
            },
            RequestView::SetBalance(name, balance) => if self.working.has_account(name) && 0
                <= balance <= i64::MAX {
                (
                    StoreReply::Done,
                    StoreView {
                        working: self.working.credited(
                            name,
                            balance - self.working.balance_of(name),
                        ),
                        ..self
                    },
                )
            } else {
                (StoreReply::Failed, self)
            },
            RequestView::Append(from_user, to_user, amount) => if self.working.has_record(id) {
                (StoreReply::Failed, self)
            } else {
                (
                    StoreReply::Done,
                    StoreView {
                        working: self.working.recorded(
                            transfer_record(from_user, to_user, amount, id, at),
                        ),
                        ..self
                    },
                )
            },
            RequestView::Commit => (StoreReply::Done, StoreView { committed: self.working, ..self }),
            RequestView::Rollback => (
                StoreReply::Done,
                StoreView { working: self.committed, ..self },
            ),
        }
    }
}

/// The result of driving a transfer from `step` on against a store that does
/// not fail, for at most `fuel` requests, and the ledger that is committed at
/// the end.
pub open spec fn run_transfer(
    transfer: TransferView,
    step: TransferStepView,
    store: StoreView,
    id: u128,
    at: int,
    fuel: nat,
) -> (Result<bool, LedgerError>, LedgerView)
    decreases fuel,
{
    match step {
        TransferStepView::Finish(result) => (result, store.committed),
        TransferStepView::Ask(request) => if fuel == 0 {
            (Err(LedgerError::Fault), store.committed)
        } else {
            let (reply, store) = store.answer(request, id, at);
            let (transfer, step) = transfer.next(reply);
            run_transfer(transfer, step, store, id, at, (fuel - 1) as nat)
        },
    }
}

/// The result of driving a deposit from `step` on against a store that does
/// not fail, for at most `fuel` requests, and the ledger that is committed at
/// the end.
pub open spec fn run_deposit(
    deposit: DepositView,
    step: DepositStepView,
    store: StoreView,
    fuel: nat,
) -> (Result<i64, LedgerError>, LedgerView)
    decreases fuel,
{
    match step {
        DepositStepView::Finish(result) => (result, store.committed),
        DepositStepView::Ask(request) => if fuel == 0 {
            (Err(LedgerError::Fault), store.committed)
        } else {
            let (reply, store) = store.answer(request, 0, 0);
            let (deposit, step) = deposit.next(reply);
            run_deposit(deposit, step, store, (fuel - 1) as nat)
        },
    }
}

/// Driven against a store that does not fail, the deposit protocol returns
/// what a deposit returns and commits what a deposit leaves behind, within
/// four requests.
pub proof fn lemma_deposit_protocol(s: LedgerView, username: Seq<char>, amount: int)
    requires
        s.wf(),
    ensures
        ({
            let (deposit, step) = DepositView::created(username, amount).start();
            run_deposit(deposit, step, StoreView::at_rest(s), 4)
        }) == deposit_result(s, username, amount),
{
    let store0 = StoreView::at_rest(s);
    let (d1, step1) = DepositView::created(username, amount).start();
    if amount > 0 {
        let (r1, store1) = store0.answer(RequestView::Begin, 0, 0);
        let (d2, step2) = d1.next(r1);
        assert(run_deposit(d1, step1, store0, 4) == run_deposit(d2, step2, store1, 3));
        let (r2, store2) = store1.answer(RequestView::Lock(username), 0, 0);
        let (d3, step3) = d2.next(r2);
        assert(run_deposit(d2, step2, store1, 3) == run_deposit(d3, step3, store2, 2));
        let (r3, store3) = store2.answer(step3->Ask_0, 0, 0);
        let (d4, step4) = d3.next(r3);
        assert(run_deposit(d3, step3, store2, 2) == run_deposit(d4, step4, store3, 1));
        if !s.has_account(username) {
            assert(run_deposit(d4, step4, store3, 1) == (
                Err::<i64, LedgerError>(LedgerError::NotFound),
                s,
            ));
        } else {
            let i = s.index_of(username);
            assert(s.account_at(username, i));
            assert(0 <= s.accounts[i].balance <= i64::MAX);
            if s.balance_of(username) + amount > i64::MAX {
                assert(run_deposit(d4, step4, store3, 1) == (
                    Err::<i64, LedgerError>(LedgerError::Fault),
                    s,
                ));
            } else {
                let (r4, store4) = store3.answer(RequestView::Commit, 0, 0);
                let (d5, step5) = d4.next(r4);
                assert(run_deposit(d4, step4, store3, 1) == run_deposit(d5, step5, store4, 0));
            }
        }
    }
}

/// Driven against a store that does not fail, the transfer protocol returns
/// what a transfer returns and commits what a transfer leaves behind, within
/// seven requests.
pub proof fn lemma_transfer_protocol(
    s: LedgerView,
    sender: Seq<char>,
    receiver: Seq<char>,
    amount: int,
    id: u128,
    at: int,
)
    requires
        s.wf(),
        amount <= i32::MAX,
    ensures
        ({
            let (transfer, step) = TransferView::created(sender, receiver, amount).start();
            run_transfer(transfer, step, StoreView::at_rest(s), id, at, 7)
        }) == transfer_result(s, sender, receiver, amount, id, at),
{
    let store0 = StoreView::at_rest(s);
    let (t1, step1) = TransferView::created(sender, receiver, amount).start();
    if amount > 0 && sender != receiver {
        lemma_lock_order(sender, receiver);
        let first = first_of(sender, receiver);
        let second = second_of(sender, receiver);
        let (r1, store1) = store0.answer(RequestView::Begin, id, at);
        let (t2, step2) = t1.next(r1);
        assert(run_transfer(t1, step1, store0, id, at, 7) == run_transfer(
            t2,
            step2,
            store1,
            id,
            at,
            6,
        ));
        let (r2, store2) = store1.answer(RequestView::Lock(first), id, at);
        let (t3, step3) = t2.next(r2);
        assert(run_transfer(t2, step2, store1, id, at, 6) == run_transfer(
            t3,
            step3,
            store2,
            id,
            at,
            5,
        ));
        let (r3, store3) = store2.answer(step3->Ask_0, id, at);
        let (t4, step4) = t3.next(r3);
        assert(run_transfer(t3, step3, store2, id, at, 5) == run_transfer(
            t4,
            step4,
            store3,
            id,
            at,
            4,
        ));
        if !s.has_account(first) {
            assert(run_transfer(t4, step4, store3, id, at, 4) == (
                Err::<bool, LedgerError>(LedgerError::NotFound),
                s,
            ));
        } else {
            let (r4, store4) = store3.answer(step4->Ask_0, id, at);
            let (t5, step5) = t4.next(r4);
            assert(run_transfer(t4, step4, store3, id, at, 4) == run_transfer(
                t5,
                step5,
                store4,
                id,
                at,
                3,
            ));
            if !s.has_account(second) {
                assert(run_transfer(t5, step5, store4, id, at, 3) == (
                    Err::<bool, LedgerError>(LedgerError::NotFound),
                    s,
                ));
            } else {
                let i = s.index_of(sender);
                let j = s.index_of(receiver);
                assert(s.account_at(sender, i));
                assert(s.account_at(receiver, j));
                assert(0 <= s.accounts[i].balance <= i64::MAX);
                assert(0 <= s.accounts[j].balance <= i64::MAX);
                assert(t4.sender_balance == s.balance_of(sender));
                assert(t4.receiver_balance == s.balance_of(receiver));
                if s.balance_of(sender) < amount {
                    assert(run_transfer(t5, step5, store4, id, at, 3) == (
                        Ok::<bool, LedgerError>(false),
                        s,
                    ));
                } else if s.balance_of(receiver) + amount > i64::MAX {
                    assert(run_transfer(t5, step5, store4, id, at, 3) == (
                        Err::<bool, LedgerError>(LedgerError::Fault),
                        s,
                    ));
                } else {
                    let mid = s.credited(sender, -amount);
                    lemma_credited(s, sender, -amount);
                    lemma_same_names(s, mid);
                    let end = mid.credited(receiver, amount);
                    lemma_credited(mid, receiver, amount);
                    assert(store4.working == mid);
                    let (r5, store5) = store4.answer(step5->Ask_0, id, at);
                    let (t6, step6) = t5.next(r5);
                    assert(run_transfer(t5, step5, store4, id, at, 3) == run_transfer(
                        t6,
                        step6,
                        store5,
                        id,
                        at,
                        2,
                    ));
                    assert(store5.working == end);
                    let (r6, store6) = store5.answer(step6->Ask_0, id, at);
                    let (t7, step7) = t6.next(r6);
                    assert(run_transfer(t6, step6, store5, id, at, 2) == run_transfer(
                        t7,
                        step7,
                        store6,
                        id,
                        at,
                        1,
                    ));
                    assert(end.has_record(id) == s.has_record(id)) by {
                        if end.has_record(id) {
                            let k = choose|k: int| end.record_at(id, k);
                            assert(s.record_at(id, k));
                        }
                        if s.has_record(id) {
                            let k = choose|k: int| s.record_at(id, k);
                            assert(end.record_at(id, k));
                        }
                    }
                    let (r7, store7) = store6.answer(step7->Ask_0, id, at);
                    let (t8, step8) = t7.next(r7);
                    assert(run_transfer(t7, step7, store6, id, at, 1) == run_transfer(
                        t8,
                        step8,
                        store7,
                        id,
                        at,
                        0,
                    ));
                }
            }
        }
    }
}

} // verus!
