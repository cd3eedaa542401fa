//! Why operations that run side by side never wait for each other in a
//! circle.
//!
//! A transfer needs the locks on two rows. It asks for them one after the
//! other, in the canonical order of the two names, and waits where a lock is
//! held by another operation. A deposit needs the lock on one row. This
//! module models any number of such operations and proves that, whatever
//! they have come to, one of them can always go on, and that they are all
//! over after three steps for each transfer and two for each deposit.

use vstd::prelude::*;
use crate::order::{
    first_of, lemma_lock_order, lemma_rank_same, lemma_rank_swap, lemma_rank_transitive, rank,
    second_of, Rank,
};

verus! {

/// How far an operation has come with its locks.
pub enum Hold {
    /// It holds no lock and asks for the first.
    Waiting,
    /// It holds the first of two locks and asks for the second.
    HoldsFirst,
    /// It holds all its locks and does its work.
    HoldsAll,
    /// It is over and has given its locks back.
    Released,
}

/// The locks of one operation, in the order in which it asks for them, and
/// how far it has come. A deposit has no second lock.
pub struct Claim {
    pub first: Seq<char>,
    pub second: Option<Seq<char>>,
    pub hold: Hold,
}

/// The claim of a transfer between `sender` and `receiver` that has not
/// started: it asks for the two rows in their canonical order.
pub open spec fn claim_of(sender: Seq<char>, receiver: Seq<char>) -> Claim {
    Claim {
        first: first_of(sender, receiver),
        second: Some(second_of(sender, receiver)),
        hold: Hold::Waiting,
    }
}

/// The claim of a deposit into `username` that has not started.
pub open spec fn deposit_claim_of(username: Seq<char>) -> Claim {
    Claim { first: username, second: None, hold: Hold::Waiting }
}

impl Claim {
    /// Whether the operation holds the lock on `key`.
    pub open spec fn holds(self, key: Seq<char>) -> bool {
        match self.hold {
            Hold::Waiting => false,
            Hold::HoldsFirst => key == self.first,
            Hold::HoldsAll => key == self.first || self.second == Some(key),
            Hold::Released => false,
        }
    }

    /// The lock that the operation asks for; where it asks for none, its
    /// first.
    pub open spec fn wanted(self) -> Seq<char> {
        match (self.hold, self.second) {
            (Hold::HoldsFirst, Some(second)) => second,
            _ => self.first,
        }
    }

    /// Whether the operation asks for a lock.
    pub open spec fn asks(self) -> bool {
        self.hold is Waiting || self.hold is HoldsFirst
    }

    /// Whether the operation is in a state of its own kind, and asks for its
    /// locks in the canonical order: a first lock stands before a second, and
    /// an operation with one lock never holds the first of two.
    pub open spec fn ordered(self) -> bool {
        match self.second {
            Some(second) => rank(self.first, second) == Rank::Before,
            None => !(self.hold is HoldsFirst),
        }
    }

    /// The steps that the operation has still to take.
    pub open spec fn left(self) -> nat {
        match self.hold {
            Hold::Waiting => if self.second is Some {
                3
            } else {
                2
            },
            Hold::HoldsFirst => 2,
            Hold::HoldsAll => 1,
            Hold::Released => 0,
        }
    }

    /// The claim after the operation's next step.
    pub open spec fn advanced(self) -> Claim {
        match self.hold {
            Hold::Waiting => if self.second is Some {
                Claim { hold: Hold::HoldsFirst, ..self }
            } else {
                Claim { hold: Hold::HoldsAll, ..self }
            },
            Hold::HoldsFirst => Claim { hold: Hold::HoldsAll, ..self },
            Hold::HoldsAll => Claim { hold: Hold::Released, ..self },
            Hold::Released => self,
        }
    }
}

/// Whether one of the operations holds the lock on `key`.
pub open spec fn held(claims: Seq<Claim>, key: Seq<char>) -> bool {
    exists|j: int| 0 <= j < claims.len() && (#[trigger] claims[j]).holds(key)
}

/// Whether operation `i` can take its next step: the lock that it asks for is
/// free, or it holds both and finishes.
pub open spec fn can_advance(claims: Seq<Claim>, i: int) -> bool {
    &&& 0 <= i < claims.len()
    &&& match claims[i].hold {
        Hold::Waiting => !held(claims, claims[i].first),
        Hold::HoldsFirst => !held(claims, claims[i].wanted()),
        Hold::HoldsAll => true,
        Hold::Released => false,
    }
}

/// Whether operation `i` waits for a lock that another holds.
pub open spec fn blocked(claims: Seq<Claim>, i: int) -> bool {
    0 <= i < claims.len() && claims[i].asks() && held(claims, claims[i].wanted())
}

/// The operations after operation `i` has taken its next step.
pub open spec fn advance(claims: Seq<Claim>, i: int) -> Seq<Claim> {
    claims.update(i, claims[i].advanced())
}

/// Whether the operations are in a state that they can have come to: each
/// asks for its locks in the canonical order, and no lock is held by two.
pub open spec fn consistent(claims: Seq<Claim>) -> bool {
    &&& forall|i: int| 0 <= i < claims.len() ==> (#[trigger] claims[i]).ordered()
    &&& forall|i: int, j: int, key: Seq<char>|
        0 <= i < claims.len() && 0 <= j < claims.len() && i != j && (#[trigger] claims[i]).holds(
            key,
        ) ==> !(#[trigger] claims[j].holds(key))
}

/// Whether all operations are over.
pub open spec fn all_released(claims: Seq<Claim>) -> bool {
    forall|i: int| 0 <= i < claims.len() ==> (#[trigger] claims[i]).hold is Released
}

/// The steps that the operations have still to take, all together.
pub open spec fn remaining(claims: Seq<Claim>) -> nat
    decreases claims.len(),
{
    if claims.len() == 0 {
        0
    } else {
        remaining(claims.drop_last()) + claims.last().left()
    }
}

/// A step keeps the operations consistent.
pub proof fn lemma_advance_consistent(claims: Seq<Claim>, i: int)
    requires
        consistent(claims),
        can_advance(claims, i),
    ensures
        consistent(advance(claims, i)),
{
    let after = advance(claims, i);
    assert(claims[i].ordered());
    if claims[i].second is Some {
        lemma_rank_same(claims[i].first, claims[i].second->Some_0);
    }
    assert forall|a: int, b: int, key: Seq<char>|
        0 <= a < after.len() && 0 <= b < after.len() && a != b && (#[trigger] after[a]).holds(
            key,
        ) implies !(#[trigger] after[b].holds(key)) by {
        if after[b].holds(key) {
            if a == i {
                assert(claims[b].holds(key));
                if !claims[a].holds(key) {
                    assert(held(claims, key));
                }
            } else if b == i {
                assert(claims[a].holds(key));
                if !claims[b].holds(key) {
                    assert(held(claims, key));
                }
            } else {
                assert(claims[a].holds(key) && claims[b].holds(key));
            }
        }
    }
    assert forall|k: int| 0 <= k < after.len() implies (#[trigger] after[k]).ordered() by {
        assert(claims[k].ordered());
    }
}

/// Among the first `n` operations, if one is blocked, then one is blocked on
/// a lock that stands before no lock that one of them is blocked on.
proof fn lemma_last_blocked(claims: Seq<Claim>, n: int) -> (m: int)
    requires
        0 <= n <= claims.len(),
        exists|i: int| 0 <= i < n && blocked(claims, i),
    ensures
        0 <= m < n,
        blocked(claims, m),
        forall|k: int|
            0 <= k < n && #[trigger] blocked(claims, k) ==> rank(
                claims[m].wanted(),
                claims[k].wanted(),
            ) != Rank::Before,
    decreases n,
{
    let last = n - 1;
    if exists|i: int| 0 <= i < last && blocked(claims, i) {
        let m = lemma_last_blocked(claims, last);
        if blocked(claims, last) && rank(claims[m].wanted(), claims[last].wanted())
            == Rank::Before {
            assert forall|k: int| 0 <= k < n && #[trigger] blocked(claims, k) implies rank(
                claims[last].wanted(),
                claims[k].wanted(),
            ) != Rank::Before by {
                let top = claims[last].wanted();
                let mid = claims[m].wanted();
                let low = claims[k].wanted();
                lemma_rank_same(top, top);
                if k < last && rank(top, low) == Rank::Before {
                    lemma_rank_transitive(mid, top, low);
                }
            }
            last
        } else {
            m
        }
    } else {
        let i = choose|i: int| 0 <= i < n && blocked(claims, i);
        assert(i == last);
        lemma_rank_same(claims[last].wanted(), claims[last].wanted());
        last
    }
}

/// No deadlock: as long as one operation is not over, one operation can take
/// its next step.
pub proof fn lemma_one_can_advance(claims: Seq<Claim>)
    requires
        consistent(claims),
        !all_released(claims),
    ensures
        exists|j: int| can_advance(claims, j),
{
    if !(exists|j: int| can_advance(claims, j)) {
        let i = choose|i: int| 0 <= i < claims.len() && !((#[trigger] claims[i]).hold is Released);
        assert(!can_advance(claims, i));
        assert(blocked(claims, i));
        let m = lemma_last_blocked(claims, claims.len() as int);
        let key = claims[m].wanted();
        let j = choose|j: int| 0 <= j < claims.len() && (#[trigger] claims[j]).holds(key);
        assert(!can_advance(claims, j));
        assert(claims[j].hold is HoldsFirst);
        assert(claims[j].second is Some);
        assert(blocked(claims, j));
        assert(claims[j].ordered());
        assert(false);
    }
}

/// A step is one step less to take.
pub proof fn lemma_advance_remaining(claims: Seq<Claim>, i: int)
    requires
        can_advance(claims, i),
    ensures
        remaining(advance(claims, i)) + 1 == remaining(claims),
    decreases claims.len(),
{
    let after = advance(claims, i);
    if i == claims.len() - 1 {
        assert(after.drop_last() =~= claims.drop_last());
    } else {
        let front = claims.drop_last();
        assert(can_advance(front, i)) by {
            if claims[i].asks() && held(front, claims[i].wanted()) {
                let j = choose|j: int|
                    0 <= j < front.len() && (#[trigger] front[j]).holds(claims[i].wanted());
                assert(claims[j].holds(claims[i].wanted()));
            }
        }
        lemma_advance_remaining(front, i);
        assert(after.drop_last() =~= advance(front, i));
    }
}

/// When no step is left to take, all operations are over.
pub proof fn lemma_none_remaining(claims: Seq<Claim>)
    requires
        remaining(claims) == 0,
    ensures
        all_released(claims),
    decreases claims.len(),
{
    if claims.len() > 0 {
        lemma_none_remaining(claims.drop_last());
        assert forall|i: int| 0 <= i < claims.len() implies (#[trigger] claims[i]).hold
            is Released by {
            if i < claims.len() - 1 {
                assert(claims.drop_last()[i].hold is Released);
            }
        }
    }
}

/// The operations after the steps of `schedule`, which names the operation
/// that takes each step.
pub open spec fn run(claims: Seq<Claim>, schedule: Seq<int>) -> Seq<Claim>
    decreases schedule.len(),
{
    if schedule.len() == 0 {
        claims
    } else {
        advance(run(claims, schedule.drop_last()), schedule.last())
    }
}

/// Whether each step of `schedule` can be taken when its turn comes.
pub open spec fn possible(claims: Seq<Claim>, schedule: Seq<int>) -> bool
    decreases schedule.len(),
{
    if schedule.len() == 0 {
        true
    } else {
        possible(claims, schedule.drop_last()) && can_advance(
            run(claims, schedule.drop_last()),
            schedule.last(),
        )
    }
}

/// Deadlock freedom: however the steps of the operations interleave, the
/// operations stay consistent, every step is one step less to take, and after
/// any number of steps either all operations are over or one of them can take
/// its next step. So no schedule ends before all operations are over, and
/// none is longer than three steps for each transfer and two for each
/// deposit.
pub proof fn lemma_deadlock_free(claims: Seq<Claim>, schedule: Seq<int>)
    requires
        consistent(claims),
        possible(claims, schedule),
    ensures
        consistent(run(claims, schedule)),
        remaining(run(claims, schedule)) + schedule.len() == remaining(claims),
        all_released(run(claims, schedule)) || exists|j: int|
            can_advance(run(claims, schedule), j),
        schedule.len() == remaining(claims) ==> all_released(run(claims, schedule)),
    decreases schedule.len(),
{
    if schedule.len() > 0 {
        let before = run(claims, schedule.drop_last());
        lemma_deadlock_free(claims, schedule.drop_last());
        lemma_advance_consistent(before, schedule.last());
        lemma_advance_remaining(before, schedule.last());
    }
    let now = run(claims, schedule);
    if !all_released(now) {
        lemma_one_can_advance(now);
    }
    if remaining(now) == 0 {
        lemma_none_remaining(now);
    }
}

/// Two transfers between the same two accounts, one in each direction, ask
/// for the same lock first. So, however their steps interleave, neither
/// waits for the other for good: after any number of steps one of them can
/// take its next step or both are over, and both are over after six steps.
pub proof fn lemma_opposite_transfers(a: Seq<char>, b: Seq<char>, schedule: Seq<int>)
    requires
        a != b,
        possible(seq![claim_of(a, b), claim_of(b, a)], schedule),
    ensures
        claim_of(a, b).first == claim_of(b, a).first,
        claim_of(a, b).second == claim_of(b, a).second,
        claim_of(a, b).ordered(),
        schedule.len() <= 6,
        all_released(run(seq![claim_of(a, b), claim_of(b, a)], schedule)) || exists|j: int|
            can_advance(run(seq![claim_of(a, b), claim_of(b, a)], schedule), j),
        schedule.len() == 6 ==> all_released(run(seq![claim_of(a, b), claim_of(b, a)], schedule)),
{
    lemma_lock_order(a, b);
    let claims = seq![claim_of(a, b), claim_of(b, a)];
    assert(claims.drop_last() =~= seq![claim_of(a, b)]);
    assert(claims.drop_last().drop_last() =~= Seq::<Claim>::empty());
    assert(remaining(claims.drop_last().drop_last()) == 0);
    assert(remaining(claims.drop_last()) == 3);
    assert(remaining(claims) == 6);
    assert(consistent(claims));
    lemma_deadlock_free(claims, schedule);
}

} // verus!
