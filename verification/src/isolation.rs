//! Why operations that run side by side leave the ledger as if they had run
//! one after the other.
//!
//! Each operation takes the locks on its rows, reads a balance when it gets
//! the lock on its row, and at the end writes what it has decided on the
//! balances that it has read, commits, and gives its locks back. The steps
//! of different operations interleave in any way that the locks allow. This
//! module proves that the ledger is then, at every moment, the ledger that
//! the committed operations would have left behind one after the other, in
//! the order in which they committed: no update is lost, and none counts
//! twice.

use vstd::prelude::*;
use vstd::set_lib::{lemma_int_range, set_int_range};
use crate::history::{
    apply, apply_all, lemma_deposits_all_count, lemma_transfers_conserve_total, only_deposits_of,
    only_transfers, LedgerOp,
};
use crate::locks::{
    advance, all_released, can_advance, claim_of, consistent, deposit_claim_of,
    lemma_advance_consistent, Claim, Hold,
};
use crate::model::{
    lemma_credited, lemma_same_names, lemma_transfer, same_names, transfer_record, LedgerView,
};
use crate::order::lemma_lock_order;

verus! {

/// One operation under way: what it is to do, how far it has come with its
/// locks, and the balances that it read when it got them.
pub struct Work {
    pub op: LedgerOp,
    pub claim: Claim,
    pub seen_first: int,
    pub seen_second: int,
}

/// The claim with which `op` starts.
pub open spec fn claim_for(op: LedgerOp) -> Claim {
    match op {
        LedgerOp::Transfer { from_user, to_user, .. } => claim_of(from_user, to_user),
        LedgerOp::Deposit { username, .. } => deposit_claim_of(username),
        LedgerOp::Signup { username, .. } => deposit_claim_of(username),
    }
}

/// `op` before its first step.
pub open spec fn fresh(op: LedgerOp) -> Work {
    Work { op, claim: claim_for(op), seen_first: 0, seen_second: 0 }
}

/// `ledger` with the balance of `name` set to `balance`.
pub open spec fn with_balance_of(ledger: LedgerView, name: Seq<char>, balance: int) -> LedgerView {
    ledger.credited(name, balance - ledger.balance_of(name))
}

impl Work {
    /// Whether the operation is a deposit into an account of `s`, or a
    /// transfer between two different accounts of `s`, of a 32-bit amount,
    /// and asks for the locks on these rows in the canonical order.
    pub open spec fn proper(self, s: LedgerView) -> bool {
        &&& self.claim.first == claim_for(self.op).first
        &&& self.claim.second == claim_for(self.op).second
        &&& match self.op {
            LedgerOp::Transfer { from_user, to_user, amount, .. } => from_user != to_user
                && s.has_account(from_user) && s.has_account(to_user) && i32::MIN <= amount
                <= i32::MAX,
            LedgerOp::Deposit { username, amount } => s.has_account(username) && i32::MIN
                <= amount <= i32::MAX,
            LedgerOp::Signup { .. } => false,
        }
    }

    /// The balance that the operation has read for `name`.
    pub open spec fn seen(self, name: Seq<char>) -> int {
        if name == self.claim.first {
            self.seen_first
        } else {
            self.seen_second
        }
    }

    /// The ledger after the operation has written what it decided on the
    /// balances that it has read.
    pub open spec fn written(self, ledger: LedgerView) -> LedgerView {
        match self.op {
            LedgerOp::Transfer { from_user, to_user, amount, transaction_id, created_at } => {
                let sender_balance = self.seen(from_user);
                let receiver_balance = self.seen(to_user);
                if amount <= 0 || sender_balance < amount || receiver_balance + amount > i64::MAX
                    || ledger.has_record(transaction_id) {
                    ledger
                } else {
                    with_balance_of(
                        with_balance_of(ledger, from_user, sender_balance - amount),
                        to_user,
                        receiver_balance + amount,
                    ).recorded(
                        transfer_record(from_user, to_user, amount, transaction_id, created_at),
                    )
                }
            },
            LedgerOp::Deposit { username, amount } => {
                let balance = self.seen(username);
                if amount <= 0 || balance + amount > i64::MAX {
                    ledger
                } else {
                    with_balance_of(ledger, username, balance + amount)
                }
            },
            LedgerOp::Signup { .. } => ledger,
        }
    }

    /// Whether the balances that the operation has read under its locks are
    /// the balances of `ledger`.
    pub open spec fn sees(self, ledger: LedgerView) -> bool {
        &&& self.claim.hold is HoldsFirst || self.claim.hold is HoldsAll ==> self.seen_first
            == ledger.balance_of(self.claim.first)
        &&& self.claim.hold is HoldsAll && self.claim.second is Some ==> self.seen_second
            == ledger.balance_of(self.claim.second->Some_0)
    }
}

/// The operations under way, the ledger as the committed ones have left it,
/// and which operations have committed, in the order in which they did.
pub struct System {
    pub ledger: LedgerView,
    pub works: Seq<Work>,
    pub done: Seq<int>,
}

/// The claims of the operations.
pub open spec fn claims(works: Seq<Work>) -> Seq<Claim> {
    works.map_values(|w: Work| w.claim)
}

/// The operations that have committed, in the order in which they did.
pub open spec fn committed(system: System) -> Seq<LedgerOp> {
    system.done.map_values(|i: int| system.works[i].op)
}

/// The system in which the operations `ops` are about to start on `ledger`.
pub open spec fn starting(ledger: LedgerView, ops: Seq<LedgerOp>) -> System {
    System { ledger, works: ops.map_values(|op: LedgerOp| fresh(op)), done: Seq::empty() }
}

/// The system after operation `i` has taken its next step: it gets a lock
/// and reads the balance of the row, or, holding all its locks, writes,
/// commits, and gives the locks back.
pub open spec fn step(system: System, i: int) -> System {
    let work = system.works[i];
    let claim = work.claim.advanced();
    match work.claim.hold {
        Hold::Waiting => System {
            works: system.works.update(
                i,
                Work { claim, seen_first: system.ledger.balance_of(work.claim.first), ..work },
            ),
            ..system
        },
        Hold::HoldsFirst => System {
            works: system.works.update(
                i,
                Work { claim, seen_second: system.ledger.balance_of(work.claim.wanted()), ..work },
            ),
            ..system
        },
        Hold::HoldsAll => System {
            ledger: work.written(system.ledger),
            works: system.works.update(i, Work { claim, ..work }),
            done: system.done.push(i),
        },
        Hold::Released => system,
    }
}

/// The system after the steps of `schedule`, which names the operation that
/// takes each step.
pub open spec fn run(system: System, schedule: Seq<int>) -> System
    decreases schedule.len(),
{
    if schedule.len() == 0 {
        system
    } else {
        step(run(system, schedule.drop_last()), schedule.last())
    }
}

/// Whether the locks allow each step of `schedule` when its turn comes.
pub open spec fn possible(system: System, schedule: Seq<int>) -> bool
    decreases schedule.len(),
{
    if schedule.len() == 0 {
        true
    } else {
        possible(system, schedule.drop_last()) && can_advance(
            claims(run(system, schedule.drop_last()).works),
            schedule.last(),
        )
    }
}

/// Whether the system is one that operations starting on `origin` can have
/// come to: the locks are consistent, every operation is proper and sees the
/// balances of the rows that it holds, the ledger is well formed and is what
/// the committed operations leave behind one after the other, and the
/// committed operations are those that are over, each of them once.
pub open spec fn sound(origin: LedgerView, system: System) -> bool {
    &&& origin.wf()
    &&& system.ledger.wf()
    &&& same_names(origin, system.ledger)
    &&& consistent(claims(system.works))
    &&& forall|i: int|
        0 <= i < system.works.len() ==> (#[trigger] system.works[i]).proper(origin)
            && system.works[i].sees(system.ledger)
    &&& system.ledger == apply_all(origin, committed(system))
    &&& forall|k: int|
        0 <= k < system.done.len() ==> 0 <= #[trigger] system.done[k] < system.works.len()
            && system.works[system.done[k]].claim.hold is Released
    &&& forall|k: int, l: int|
        0 <= k < l < system.done.len() ==> system.done[k] != system.done[l]
    &&& forall|i: int|
        0 <= i < system.works.len() && (#[trigger] system.works[i]).claim.hold is Released
            ==> system.done.contains(i)
}

/// When an operation that holds all its locks writes, it does to the ledger
/// what the operation does in one step.
pub proof fn lemma_written_is_applied(origin: LedgerView, ledger: LedgerView, work: Work)
    requires
        origin.wf(),
        ledger.wf(),
        same_names(origin, ledger),
        work.proper(origin),
        work.claim.hold is HoldsAll,
        work.sees(ledger),
    ensures
        work.written(ledger) == apply(ledger, work.op),
        work.written(ledger).wf(),
        same_names(origin, work.written(ledger)),
        forall|name: Seq<char>|
            origin.has_account(name) && !work.claim.holds(name) ==> #[trigger] work.written(
                ledger,
            ).balance_of(name) == ledger.balance_of(name),
{
    lemma_same_names(origin, ledger);
    match work.op {
        LedgerOp::Transfer { from_user, to_user, amount, transaction_id, created_at } => {
            lemma_lock_order(from_user, to_user);
            lemma_transfer(ledger, from_user, to_user, amount, transaction_id, created_at);
            assert(work.seen(from_user) == ledger.balance_of(from_user));
            assert(work.seen(to_user) == ledger.balance_of(to_user));
            let i = ledger.index_of(from_user);
            assert(ledger.account_at(from_user, i));
            assert(0 <= ledger.accounts[i].balance);
            if !(amount <= 0 || ledger.balance_of(from_user) < amount || ledger.balance_of(to_user)
                + amount > i64::MAX || ledger.has_record(transaction_id)) {
                let mid = ledger.credited(from_user, -amount);
                lemma_credited(ledger, from_user, -amount);
                assert(mid.balance_of(to_user) == ledger.balance_of(to_user));
            }
        },
        LedgerOp::Deposit { username, amount } => {
            let i = ledger.index_of(username);
            assert(ledger.account_at(username, i));
            assert(0 <= ledger.accounts[i].balance);
            if !(amount <= 0 || ledger.balance_of(username) + amount > i64::MAX) {
                lemma_credited(ledger, username, amount);
            }
        },
        LedgerOp::Signup { .. } => {},
    }
}

/// A step that the locks allow keeps the system sound.
pub proof fn lemma_step_sound(origin: LedgerView, system: System, i: int)
    requires
        sound(origin, system),
        can_advance(claims(system.works), i),
    ensures
        sound(origin, step(system, i)),
        claims(step(system, i).works) == advance(claims(system.works), i),
{
    let after = step(system, i);
    let work = system.works[i];
    assert(claims(system.works)[i] == work.claim);
    assert(claims(after.works) =~= advance(claims(system.works), i));
    lemma_advance_consistent(claims(system.works), i);
    lemma_same_names(origin, system.ledger);
    assert(work.proper(origin) && work.sees(system.ledger));
    if work.claim.hold is HoldsAll {
        lemma_written_is_applied(origin, system.ledger, work);
        assert(committed(after) =~= committed(system).push(work.op));
        assert(committed(after).drop_last() =~= committed(system));
        assert forall|j: int| 0 <= j < after.works.len() implies (#[trigger] after.works[j]).proper(
            origin,
        ) && after.works[j].sees(after.ledger) by {
            if j != i {
                let other = system.works[j];
                assert(other.proper(origin) && other.sees(system.ledger));
                assert(claims(system.works)[j] == other.claim);
                assert(claims(system.works)[i] == work.claim);
                if other.claim.hold is HoldsFirst || other.claim.hold is HoldsAll {
                    assert(other.claim.holds(other.claim.first));
                    assert(!work.claim.holds(other.claim.first));
                }
                if other.claim.hold is HoldsAll && other.claim.second is Some {
                    assert(other.claim.holds(other.claim.second->Some_0));
                    assert(!work.claim.holds(other.claim.second->Some_0));
                }
                lemma_lock_order(other.claim.first, other.claim.first);
                assert(origin.has_account(other.claim.first));
                assert(other.claim.second is Some ==> origin.has_account(
                    other.claim.second->Some_0,
                )) by {
                    match other.op {
                        LedgerOp::Transfer { from_user, to_user, .. } => {
                            lemma_lock_order(from_user, to_user);
                        },
                        _ => {},
                    }
                }
            }
        }
        assert forall|k: int| 0 <= k < after.done.len() implies 0 <= #[trigger] after.done[k]
            < after.works.len() && after.works[after.done[k]].claim.hold is Released by {
            if k < system.done.len() {
                assert(system.done[k] == after.done[k]);
            }
        }
        assert forall|k: int, l: int| 0 <= k < l < after.done.len() implies after.done[k]
            != after.done[l] by {
            if l == system.done.len() {
                assert(system.works[system.done[k]].claim.hold is Released);
            }
        }
        assert forall|j: int|
            0 <= j < after.works.len() && (#[trigger] after.works[j]).claim.hold
                is Released implies after.done.contains(j) by {
            if j == i {
                assert(after.done[system.done.len() as int] == i);
            } else {
                assert(system.works[j].claim.hold is Released);
                let k = choose|k: int| 0 <= k < system.done.len() && system.done[k] == j;
                assert(after.done[k] == j);
            }
        }
    } else {
        assert(committed(after) =~= committed(system)) by {
            assert forall|k: int| 0 <= k < system.done.len() implies after.works[system.done[k]].op
                == system.works[system.done[k]].op by {}
        }
        assert forall|j: int| 0 <= j < after.works.len() implies (#[trigger] after.works[j]).proper(
            origin,
        ) && after.works[j].sees(after.ledger) by {
            if j != i {
                assert(system.works[j].proper(origin) && system.works[j].sees(system.ledger));
            }
        }
        assert forall|k: int| 0 <= k < after.done.len() implies 0 <= #[trigger] after.done[k]
            < after.works.len() && after.works[after.done[k]].claim.hold is Released by {
            assert(system.works[system.done[k]].claim.hold is Released);
        }
        assert forall|j: int|
            0 <= j < after.works.len() && (#[trigger] after.works[j]).claim.hold
                is Released implies after.done.contains(j) by {
            assert(system.works[j].claim.hold is Released);
        }
    }
}

/// Operations that are about to start on a well-formed ledger form a sound
/// system, if each is proper.
pub proof fn lemma_starting_sound(origin: LedgerView, ops: Seq<LedgerOp>)
    requires
        origin.wf(),
        forall|i: int| 0 <= i < ops.len() ==> (#[trigger] fresh(ops[i])).proper(origin),
    ensures
        sound(origin, starting(origin, ops)),
{
    let system = starting(origin, ops);
    assert(committed(system) =~= Seq::<LedgerOp>::empty());
    assert forall|i: int| 0 <= i < system.works.len() implies (#[trigger] system.works[i]).proper(
        origin,
    ) && system.works[i].sees(system.ledger) by {
        assert(system.works[i] == fresh(ops[i]));
    }
    assert forall|i: int| 0 <= i < claims(system.works).len() implies (#[trigger] claims(
        system.works,
    )[i]).ordered() by {
        assert(system.works[i] == fresh(ops[i]));
        assert(fresh(ops[i]).proper(origin));
        match ops[i] {
            LedgerOp::Transfer { from_user, to_user, .. } => {
                lemma_lock_order(from_user, to_user);
            },
            _ => {},
        }
    }
}

/// Isolation: however the steps of the operations interleave, the ledger is
/// at every moment well formed, holds the accounts that it started with, and
/// is what the operations that have committed leave behind when they run one
/// after the other in the order in which they committed.
pub proof fn lemma_isolation(origin: LedgerView, system: System, schedule: Seq<int>)
    requires
        sound(origin, system),
        possible(system, schedule),
    ensures
        sound(origin, run(system, schedule)),
        run(system, schedule).ledger == apply_all(origin, committed(run(system, schedule))),
        claims(run(system, schedule).works) == crate::locks::run(claims(system.works), schedule),
        crate::locks::possible(claims(system.works), schedule),
    decreases schedule.len(),
{
    if schedule.len() > 0 {
        lemma_isolation(origin, system, schedule.drop_last());
        lemma_step_sound(origin, run(system, schedule.drop_last()), schedule.last());
    }
}

/// Conservation: however the steps of any number of transfers interleave,
/// the sum of all balances is at every moment the sum at the start, and no
/// balance is negative.
pub proof fn lemma_concurrent_transfers_conserve_total(
    origin: LedgerView,
    ops: Seq<LedgerOp>,
    schedule: Seq<int>,
)
    requires
        origin.wf(),
        only_transfers(ops),
        forall|i: int| 0 <= i < ops.len() ==> (#[trigger] fresh(ops[i])).proper(origin),
        possible(starting(origin, ops), schedule),
    ensures
        run(starting(origin, ops), schedule).ledger.wf(),
        run(starting(origin, ops), schedule).ledger.total() == origin.total(),
        same_names(origin, run(starting(origin, ops), schedule).ledger),
{
    lemma_starting_sound(origin, ops);
    let start = starting(origin, ops);
    lemma_isolation(origin, start, schedule);
    lemma_works_keep_their_ops(start, schedule);
    let end = run(start, schedule);
    let done = committed(end);
    assert forall|k: int| 0 <= k < done.len() implies (#[trigger] done[k]) is Transfer
        && done[k].in_range() by {
        let i = end.done[k];
        assert(end.works[i].op == start.works[i].op);
        assert(start.works[i] == fresh(ops[i]));
        assert(fresh(ops[i]).proper(origin));
    }
    lemma_transfers_conserve_total(origin, done);
}

/// No step changes what an operation is to do, or how many operations there
/// are.
pub proof fn lemma_works_keep_their_ops(system: System, schedule: Seq<int>)
    requires
        possible(system, schedule),
    ensures
        run(system, schedule).works.len() == system.works.len(),
        forall|i: int|
            0 <= i < system.works.len() ==> (#[trigger] run(system, schedule).works[i]).op
                == system.works[i].op,
    decreases schedule.len(),
{
    if schedule.len() > 0 {
        lemma_works_keep_their_ops(system, schedule.drop_last());
        let before = run(system, schedule.drop_last());
        assert(can_advance(claims(before.works), schedule.last()));
    }
}

/// When all operations are over, each of them has committed.
pub proof fn lemma_all_committed(origin: LedgerView, system: System)
    requires
        sound(origin, system),
        all_released(claims(system.works)),
    ensures
        system.done.len() == system.works.len(),
{
    let n = system.works.len() as int;
    assert(system.done.no_duplicates());
    system.done.unique_seq_to_set();
    lemma_int_range(0, n);
    assert(system.done.to_set() =~= set_int_range(0, n)) by {
        assert forall|i: int| set_int_range(0, n).contains(i) implies system.done.to_set().contains(
            i,
        ) by {
            assert(claims(system.works)[i].hold is Released);
            assert(system.works[i].claim.hold is Released);
            assert(system.done.contains(i));
        }
        assert forall|i: int| system.done.to_set().contains(i) implies set_int_range(
            0,
            n,
        ).contains(i) by {
            let k = choose|k: int| 0 <= k < system.done.len() && system.done[k] == i;
            assert(0 <= system.done[k] < n);
        }
    }
}

/// `n` deposits of `amount` into the account named `username`.
pub open spec fn deposits(username: Seq<char>, amount: int, n: nat) -> Seq<LedgerOp> {
    Seq::new(n, |i: int| LedgerOp::Deposit { username, amount })
}

/// No lost update: when any number of deposits of the same amount into one
/// account run side by side, then, however their steps interleave, once they
/// are all over the balance has grown by the amount times their number.
pub proof fn lemma_concurrent_deposits_all_count(
    origin: LedgerView,
    username: Seq<char>,
    amount: int,
    n: nat,
    schedule: Seq<int>,
)
    requires
        origin.wf(),
        origin.has_account(username),
        0 < amount <= i32::MAX,
        origin.balance_of(username) + n * amount <= i64::MAX,
        possible(starting(origin, deposits(username, amount, n)), schedule),
        all_released(claims(run(starting(origin, deposits(username, amount, n)), schedule).works)),
    ensures
        run(starting(origin, deposits(username, amount, n)), schedule).ledger.balance_of(username)
            == origin.balance_of(username) + n * amount,
{
    let ops = deposits(username, amount, n);
    let start = starting(origin, ops);
    lemma_starting_sound(origin, ops);
    lemma_isolation(origin, start, schedule);
    lemma_works_keep_their_ops(start, schedule);
    let end = run(start, schedule);
    lemma_all_committed(origin, end);
    let done = committed(end);
    assert(only_deposits_of(done, username, amount)) by {
        assert forall|k: int| 0 <= k < done.len() implies #[trigger] done[k]
            == (LedgerOp::Deposit { username, amount }) by {
            let i = end.done[k];
            assert(end.works[i].op == start.works[i].op);
            assert(start.works[i] == fresh(ops[i]));
        }
    }
    lemma_deposits_all_count(origin, username, amount, done);
}

} // verus!
