//! The transfer and the deposit as protocols against a transactional store.
//!
//! A protocol decides; its driver carries out. The driver asks the protocol
//! for a step, performs the request of that step against the store (a store
//! with row locks and commit and rollback), and hands the store's reply back
//! for the next step, until the step is `Finish`.

use vstd::prelude::*;
use crate::model::LedgerError;
use crate::order::{
    first_of, lemma_lock_order, lemma_rank_same, lock_order, rank_of, second_of, Rank,
};
use crate::transaction::TransactionRequest;

verus! {

/// One request to the store.
#[derive(Debug)]
pub enum StoreRequest {
    /// Open a unit of work.
    Begin,
    /// Lock the row of the named account for this unit of work, and read its
    /// balance.
    Lock(String),
    /// Write the balance of the named account.
    SetBalance(String, i64),
    /// Append the record of a transfer: sender, receiver, amount.
    Append(String, String, i32),
    /// Commit the unit of work.
    Commit,
    /// Roll the unit of work back.
    Rollback,
}

/// A request as the contracts see it.
pub enum RequestView {
    Begin,
    Lock(Seq<char>),
    SetBalance(Seq<char>, int),
    Append(Seq<char>, Seq<char>, int),
    Commit,
    Rollback,
}

impl View for StoreRequest {
    type V = RequestView;

    open spec fn view(&self) -> RequestView {
        match self {
            StoreRequest::Begin => RequestView::Begin,
            StoreRequest::Lock(name) => RequestView::Lock(name@),
            StoreRequest::SetBalance(name, balance) => RequestView::SetBalance(
                name@,
                *balance as int,
            ),
            StoreRequest::Append(from_user, to_user, amount) => RequestView::Append(
                from_user@,
                to_user@,
                *amount as int,
            ),
            StoreRequest::Commit => RequestView::Commit,
            StoreRequest::Rollback => RequestView::Rollback,
        }
    }
}

/// What the store answered to a request.
#[derive(Clone, Copy, Debug, PartialEq, Eq, Structural)]
pub enum StoreReply {
    /// The request was carried out.
    Done,
    /// The row is locked; this is its balance.
    Balance(i64),
    /// There is no such row.
    Missing,
    /// The store failed, or did not answer in time.
    Failed,
}

/// How far a protocol has come.
#[derive(Clone, Copy, Debug, PartialEq, Eq, Structural)]
pub enum Phase {
    Created,
    Opening,
    LockingFirst,
    LockingSecond,
    Debiting,
    Crediting,
    Appending,
    Committing,
    RollingBack,
    Finished,
}

/// What the driver of a transfer does next.
#[derive(Debug)]
pub enum TransferStep {
    /// Perform this request and come back with the reply.
    Ask(StoreRequest),
    /// The transfer is over, with this result.
    Finish(Result<bool, LedgerError>),
}

/// A step of a transfer as the contracts see it.
pub enum TransferStepView {
    Ask(RequestView),
    Finish(Result<bool, LedgerError>),
}

impl View for TransferStep {
    type V = TransferStepView;

    open spec fn view(&self) -> TransferStepView {
        match self {
            TransferStep::Ask(request) => TransferStepView::Ask(request@),
            TransferStep::Finish(result) => TransferStepView::Finish(*result),
        }
    }
}

/// A transfer under way.
pub struct Transfer {
    sender: String,
    receiver: String,
    amount: i32,
    phase: Phase,
    sender_balance: i64,
    receiver_balance: i64,
    outcome: Result<bool, LedgerError>,
}

/// A transfer under way as the contracts see it. `outcome` is what the
/// transfer will report once the unit of work is closed.
pub struct TransferView {
    pub sender: Seq<char>,
    pub receiver: Seq<char>,
    pub amount: int,
    pub phase: Phase,
    pub sender_balance: int,
    pub receiver_balance: int,
    pub outcome: Result<bool, LedgerError>,
}

impl TransferView {
    /// A transfer of which no step has been taken.
    pub open spec fn created(sender: Seq<char>, receiver: Seq<char>, amount: int) -> TransferView {
        TransferView {
            sender,
            receiver,
            amount,
            phase: Phase::Created,
            sender_balance: 0,
            receiver_balance: 0,
            outcome: Err(LedgerError::Fault),
        }
    }

    /// The transfer is over with `outcome`.
    pub open spec fn finish(self, outcome: Result<bool, LedgerError>) -> (
        TransferView,
        TransferStepView,
    ) {
        (TransferView { phase: Phase::Finished, outcome, ..self }, TransferStepView::Finish(outcome))
    }

    /// The unit of work is rolled back, and the transfer will then be over
    /// with `outcome`.
    pub open spec fn abandon(self, outcome: Result<bool, LedgerError>) -> (
        TransferView,
        TransferStepView,
    ) {
        (
            TransferView { phase: Phase::RollingBack, outcome, ..self },
            TransferStepView::Ask(RequestView::Rollback),
        )
    }

    /// The transfer goes on in `phase` with `request`.
    pub open spec fn ask(self, phase: Phase, request: RequestView) -> (
        TransferView,
        TransferStepView,
    ) {
        (TransferView { phase, ..self }, TransferStepView::Ask(request))
    }

    /// The transfer with the balance that the store reported for `name`.
    pub open spec fn noting(self, name: Seq<char>, balance: int) -> TransferView {
        if name == self.sender {
            TransferView { sender_balance: balance, ..self }
        } else {
            TransferView { receiver_balance: balance, ..self }
        }
    }

    /// The account that is locked first.
    pub open spec fn first(self) -> Seq<char> {
        first_of(self.sender, self.receiver)
    }

    /// The account that is locked second.
    pub open spec fn second(self) -> Seq<char> {
        second_of(self.sender, self.receiver)
    }

    /// The first step: a transfer of a non-positive amount, or from an
    /// account to itself, is over at once; any other opens a unit of work.
    pub open spec fn start(self) -> (TransferView, TransferStepView) {
        if self.amount <= 0 {
            self.finish(Err(LedgerError::InvalidAmount))
        } else if self.sender == self.receiver {
            self.finish(Err(LedgerError::SameAccount))
        } else {
            self.ask(Phase::Opening, RequestView::Begin)
        }
    }

    /// Whether the receiver's balance can take the amount.
    pub open spec fn receiver_has_room(self) -> bool {
        self.amount > 0 && self.receiver_balance + self.amount <= i64::MAX
    }

    /// With both rows locked and both balances known: what insufficient
    /// funds, an overflowing receiver, or neither leads to.
    pub open spec fn decide(self) -> (TransferView, TransferStepView) {
        if self.sender_balance < self.amount {
            self.abandon(Ok(false))
        } else if !self.receiver_has_room() {
            self.abandon(Err(LedgerError::Fault))
        } else {
            self.ask(
                Phase::Debiting,
                RequestView::SetBalance(self.sender, self.sender_balance - self.amount),
            )
        }
    }

    /// The step that follows `reply`.
    ///
    /// The two rows are locked in the canonical order of their names, the
    /// balances are read under the locks, and only then is anything decided
    /// or written. Any reply but the one that the last request calls for ends
    /// the transfer as a fault, after a rollback where a unit of work is open.
    pub open spec fn next(self, reply: StoreReply) -> (TransferView, TransferStepView) {
        match self.phase {
            Phase::Created => self.start(),
            Phase::Opening => match reply {
                StoreReply::Done => self.ask(Phase::LockingFirst, RequestView::Lock(self.first())),
                _ => self.finish(Err(LedgerError::Fault)),
            },
            Phase::LockingFirst => match reply {
                StoreReply::Balance(balance) => self.noting(self.first(), balance as int).ask(
                    Phase::LockingSecond,
                    RequestView::Lock(self.second()),
                ),
                StoreReply::Missing => self.abandon(Err(LedgerError::NotFound)),
                _ => self.abandon(Err(LedgerError::Fault)),
            },
            Phase::LockingSecond => match reply {
                StoreReply::Balance(balance) => self.noting(
                    self.second(),
                    balance as int,
                ).decide(),
                StoreReply::Missing => self.abandon(Err(LedgerError::NotFound)),
                _ => self.abandon(Err(LedgerError::Fault)),
            },
            Phase::Debiting => match reply {
                StoreReply::Done if self.receiver_has_room() => self.ask(
                    Phase::Crediting,
                    RequestView::SetBalance(self.receiver, self.receiver_balance + self.amount),
                ),
                _ => self.abandon(Err(LedgerError::Fault)),
            },
            Phase::Crediting => match reply {
                StoreReply::Done => self.ask(
                    Phase::Appending,
                    RequestView::Append(self.sender, self.receiver, self.amount),
                ),
                _ => self.abandon(Err(LedgerError::Fault)),
            },
            Phase::Appending => match reply {
                StoreReply::Done => self.ask(Phase::Committing, RequestView::Commit),
                _ => self.abandon(Err(LedgerError::Fault)),
            },
            Phase::Committing => match reply {
                StoreReply::Done => self.finish(Ok(true)),
                _ => self.finish(Err(LedgerError::Fault)),
            },
            Phase::RollingBack => match reply {
                StoreReply::Done => self.finish(self.outcome),
                _ => self.finish(Err(LedgerError::Fault)),
            },
            Phase::Finished => (self, TransferStepView::Finish(self.outcome)),
        }
    }
}

impl View for Transfer {
    type V = TransferView;

    closed spec fn view(&self) -> TransferView {
        TransferView {
            sender: self.sender@,
            receiver: self.receiver@,
            amount: self.amount as int,
            phase: self.phase,
            sender_balance: self.sender_balance as int,
            receiver_balance: self.receiver_balance as int,
            outcome: self.outcome,
        }
    }
}

impl Transfer {
    /// A transfer of `transaction_request.amount` from `username` to
    /// `transaction_request.to_user`, of which no step has been taken.
    pub fn new(username: &str, transaction_request: &TransactionRequest) -> (t: Transfer)
        ensures
            t@ == TransferView::created(
                username@,
                transaction_request.to_user@,
                transaction_request.amount as int,
            ),
    {
        Transfer {
            sender: username.to_owned(),
            receiver: transaction_request.to_user.clone(),
            amount: transaction_request.amount,
            phase: Phase::Created,
            sender_balance: 0,
            receiver_balance: 0,
            outcome: Err(LedgerError::Fault),
        }
    }

    fn finish(&mut self, outcome: Result<bool, LedgerError>) -> (step: TransferStep)
        ensures
            (final(self)@, step@) == old(self)@.finish(outcome),
    {
        self.phase = Phase::Finished;
        self.outcome = outcome;
        TransferStep::Finish(outcome)
    }

    fn abandon(&mut self, outcome: Result<bool, LedgerError>) -> (step: TransferStep)
        ensures
            (final(self)@, step@) == old(self)@.abandon(outcome),
    {
        self.phase = Phase::RollingBack;
        self.outcome = outcome;
        TransferStep::Ask(StoreRequest::Rollback)
    }

    fn ask(&mut self, phase: Phase, request: StoreRequest) -> (step: TransferStep)
        ensures
            (final(self)@, step@) == old(self)@.ask(phase, request@),
    {
        self.phase = phase;
        TransferStep::Ask(request)
    }

    fn receiver_has_room(&self) -> (r: bool)
        ensures
            r == self@.receiver_has_room(),
    {
        self.amount > 0 && self.receiver_balance <= i64::MAX - (self.amount as i64)
    }

    fn noting(&mut self, first: bool, balance: i64)
        ensures
            final(self)@ == old(self)@.noting(
                if first {
                    old(self)@.first()
                } else {
                    old(self)@.second()
                },
                balance as int,
            ),
    {
        let (one, other) = lock_order(self.sender.as_str(), self.receiver.as_str());
        let name = if first {
            one
        } else {
            other
        };
        proof {
            lemma_rank_same(name@, self.sender@);
        }
        if rank_of(name, self.sender.as_str()) == Rank::Same {
            self.sender_balance = balance;
        } else {
            self.receiver_balance = balance;
        }
    }

    /// The first step of the transfer.
    pub fn start(&mut self) -> (step: TransferStep)
        ensures
            (final(self)@, step@) == old(self)@.next(StoreReply::Done),
            old(self)@.phase == Phase::Created ==> (final(self)@, step@) == old(self)@.start(),
    {
        self.next(StoreReply::Done)
    }

    /// The step that follows the store's `reply` to the request of the step
    /// before.
    pub fn next(&mut self, reply: StoreReply) -> (step: TransferStep)
        ensures
            (final(self)@, step@) == old(self)@.next(reply),
    {
        match self.phase {
            Phase::Created => {
                proof {
                    lemma_rank_same(self.sender@, self.receiver@);
                }
                if self.amount <= 0 {
                    self.finish(Err(LedgerError::InvalidAmount))
                } else if rank_of(self.sender.as_str(), self.receiver.as_str()) == Rank::Same {
                    self.finish(Err(LedgerError::SameAccount))
                } else {
                    self.ask(Phase::Opening, StoreRequest::Begin)
                }
            },
            Phase::Opening => match reply {
                StoreReply::Done => {
                    let (first, _) = lock_order(self.sender.as_str(), self.receiver.as_str());
                    let request = StoreRequest::Lock(first.to_owned());
                    self.ask(Phase::LockingFirst, request)
                },
                _ => self.finish(Err(LedgerError::Fault)),
            },
            Phase::LockingFirst => match reply {
                StoreReply::Balance(balance) => {
                    self.noting(true, balance);
                    let (_, second) = lock_order(self.sender.as_str(), self.receiver.as_str());
                    let request = StoreRequest::Lock(second.to_owned());
                    self.ask(Phase::LockingSecond, request)
                },
                StoreReply::Missing => self.abandon(Err(LedgerError::NotFound)),
                _ => self.abandon(Err(LedgerError::Fault)),
            },
            Phase::LockingSecond => match reply {
                StoreReply::Balance(balance) => {
                    self.noting(false, balance);
                    if self.sender_balance < self.amount as i64 {
                        self.abandon(Ok(false))
                    } else if !self.receiver_has_room() {
                        self.abandon(Err(LedgerError::Fault))
                    } else {
                        let request = StoreRequest::SetBalance(
                            self.sender.clone(),
                            self.sender_balance - (self.amount as i64),
                        );
                        self.ask(Phase::Debiting, request)
                    }
                },
                StoreReply::Missing => self.abandon(Err(LedgerError::NotFound)),
                _ => self.abandon(Err(LedgerError::Fault)),
            },
            Phase::Debiting => match reply {
                StoreReply::Done => {
                    if self.receiver_has_room() {
                        let request = StoreRequest::SetBalance(
                            self.receiver.clone(),
                            self.receiver_balance + (self.amount as i64),
                        );
                        self.ask(Phase::Crediting, request)
                    } else {
                        self.abandon(Err(LedgerError::Fault))
                    }
                },
                _ => self.abandon(Err(LedgerError::Fault)),
            },
            Phase::Crediting => match reply {
                StoreReply::Done => {
                    let request = StoreRequest::Append(
                        self.sender.clone(),
                        self.receiver.clone(),
                        self.amount,
                    );
                    self.ask(Phase::Appending, request)
                },
                _ => self.abandon(Err(LedgerError::Fault)),
            },
            Phase::Appending => match reply {
                StoreReply::Done => self.ask(Phase::Committing, StoreRequest::Commit),
                _ => self.abandon(Err(LedgerError::Fault)),
            },
            Phase::Committing => match reply {
                StoreReply::Done => self.finish(Ok(true)),
                _ => self.finish(Err(LedgerError::Fault)),
            },
            Phase::RollingBack => match reply {
                StoreReply::Done => {
                    let outcome = self.outcome;
                    self.finish(outcome)
                },
                _ => self.finish(Err(LedgerError::Fault)),
            },
            Phase::Finished => TransferStep::Finish(self.outcome),
        }
    }
}

impl TransferView {
    /// Whether the transfer is in a state that it can have come to: while it
    /// rolls back, what it will report is no success.
    pub open spec fn coherent(self) -> bool {
        self.phase == Phase::RollingBack ==> self.outcome != Ok::<bool, LedgerError>(true)
    }

    /// Whether `reply` is the reply that the request of this phase calls for.
    pub open spec fn expects(self, reply: StoreReply) -> bool {
        match self.phase {
            Phase::Created => true,
            Phase::LockingFirst | Phase::LockingSecond => reply is Balance,
            Phase::Finished => false,
            _ => reply == StoreReply::Done,
        }
    }
}

/// The two locks are asked for in the canonical order of the two names,
/// whichever of them is the sender: the first when the unit of work is open,
/// the second when the first is held, and at no other time.
pub proof fn lemma_locks_in_canonical_order(transfer: TransferView, reply: StoreReply)
    ensures
        transfer.phase == Phase::Opening && reply == StoreReply::Done ==> transfer.next(reply).1
            == TransferStepView::Ask(
            RequestView::Lock(first_of(transfer.sender, transfer.receiver)),
        ),
        transfer.phase == Phase::LockingFirst && reply is Balance ==> transfer.next(reply).1
            == TransferStepView::Ask(
            RequestView::Lock(second_of(transfer.sender, transfer.receiver)),
        ),
        transfer.next(reply).1 matches TransferStepView::Ask(RequestView::Lock(_))
            ==> transfer.phase == Phase::Opening || transfer.phase == Phase::LockingFirst,
        first_of(transfer.sender, transfer.receiver) == first_of(
            transfer.receiver,
            transfer.sender,
        ),
        second_of(transfer.sender, transfer.receiver) == second_of(
            transfer.receiver,
            transfer.sender,
        ),
{
    lemma_lock_order(transfer.sender, transfer.receiver);
}

/// All or nothing: a transfer writes and commits only while the store
/// answers as asked, and reports success only when the store has
/// acknowledged the commit.
///
/// Whatever the store replies, the step after it stays coherent. A write or
/// a commit is requested only after the reply that the request before it
/// called for. Any other reply inside the unit of work is followed by a
/// rollback, after which the transfer is over without success; outside a unit
/// of work it ends the transfer as a fault at once.
pub proof fn lemma_all_or_nothing(transfer: TransferView, reply: StoreReply)
    requires
        transfer.coherent(),
    ensures
        transfer.next(reply).0.coherent(),
        (transfer.next(reply).1 matches TransferStepView::Ask(request) && (request is SetBalance
            || request is Append || request is Commit)) ==> transfer.expects(reply),
        transfer.next(reply).1 == TransferStepView::Finish(Ok::<bool, LedgerError>(true))
            ==> (transfer.phase == Phase::Committing && reply == StoreReply::Done)
            || transfer.phase == Phase::Finished,
        !transfer.expects(reply) && (transfer.phase == Phase::LockingFirst || transfer.phase
            == Phase::LockingSecond || transfer.phase == Phase::Debiting || transfer.phase
            == Phase::Crediting || transfer.phase == Phase::Appending) ==> transfer.next(reply)
            == transfer.abandon(
            if reply == StoreReply::Missing && (transfer.phase == Phase::LockingFirst
                || transfer.phase == Phase::LockingSecond) {
                Err::<bool, LedgerError>(LedgerError::NotFound)
            } else {
                Err(LedgerError::Fault)
            },
        ),
        !transfer.expects(reply) && (transfer.phase == Phase::Opening || transfer.phase
            == Phase::Committing || transfer.phase == Phase::RollingBack) ==> transfer.next(reply)
            == transfer.finish(Err::<bool, LedgerError>(LedgerError::Fault)),
        transfer.phase == Phase::RollingBack ==> transfer.next(reply).1 is Finish,
{
}

/// How far a deposit has come.
#[derive(Clone, Copy, Debug, PartialEq, Eq, Structural)]
pub enum DepositPhase {
    Created,
    Opening,
    Locking,
    Writing,
    Committing,
    RollingBack,
    Finished,
}

/// What the driver of a deposit does next.
#[derive(Debug)]
pub enum DepositStep {
    /// Perform this request and come back with the reply.
    Ask(StoreRequest),
    /// The deposit is over, with this result: the new balance, or why there
    /// is none.
    Finish(Result<i64, LedgerError>),
}

/// A step of a deposit as the contracts see it.
pub enum DepositStepView {
    Ask(RequestView),
    Finish(Result<i64, LedgerError>),
}

impl View for DepositStep {
    type V = DepositStepView;

    open spec fn view(&self) -> DepositStepView {
        match self {
            DepositStep::Ask(request) => DepositStepView::Ask(request@),
            DepositStep::Finish(result) => DepositStepView::Finish(*result),
        }
    }
}

/// A deposit under way.
pub struct Deposit {
    username: String,
    amount: i32,
    phase: DepositPhase,
    outcome: Result<i64, LedgerError>,
}

/// A deposit under way as the contracts see it. `outcome` is what the deposit
/// will report once the unit of work is closed.
pub struct DepositView {
    pub username: Seq<char>,
    pub amount: int,
    pub phase: DepositPhase,
    pub outcome: Result<i64, LedgerError>,
}

impl DepositView {
    /// A deposit of which no step has been taken.
    pub open spec fn created(username: Seq<char>, amount: int) -> DepositView {
        DepositView {
            username,
            amount,
            phase: DepositPhase::Created,
            outcome: Err(LedgerError::Fault),
        }
    }

    /// The deposit is over with `outcome`.
    pub open spec fn finish(self, outcome: Result<i64, LedgerError>) -> (
        DepositView,
        DepositStepView,
    ) {
        (
            DepositView { phase: DepositPhase::Finished, outcome, ..self },
            DepositStepView::Finish(outcome),
        )
    }

    /// The unit of work is rolled back, and the deposit will then be over
    /// with `outcome`.
    pub open spec fn abandon(self, outcome: Result<i64, LedgerError>) -> (
        DepositView,
        DepositStepView,
    ) {
        (
            DepositView { phase: DepositPhase::RollingBack, outcome, ..self },
            DepositStepView::Ask(RequestView::Rollback),
        )
    }

    /// The deposit goes on in `phase` with `request`.
    pub open spec fn ask(self, phase: DepositPhase, request: RequestView) -> (
        DepositView,
        DepositStepView,
    ) {
        (DepositView { phase, ..self }, DepositStepView::Ask(request))
    }

    /// The first step: a deposit of a non-positive amount is over at once;
    /// any other opens a unit of work.
    pub open spec fn start(self) -> (DepositView, DepositStepView) {
        if self.amount <= 0 {
            self.finish(Err(LedgerError::InvalidAmount))
        } else {
            self.ask(DepositPhase::Opening, RequestView::Begin)
        }
    }

    /// With the row locked and its balance known: the new balance is written
    /// unless it would leave the 64-bit range.
    pub open spec fn decide(self, balance: int) -> (DepositView, DepositStepView) {
        if self.amount <= 0 || balance + self.amount > i64::MAX {
            self.abandon(Err(LedgerError::Fault))
        } else {
            DepositView { outcome: Ok((balance + self.amount) as i64), ..self }.ask(
                DepositPhase::Writing,
                RequestView::SetBalance(self.username, balance + self.amount),
            )
        }
    }

    /// The step that follows `reply`.
    ///
    /// The balance is read under the lock on its row and written before the
    /// lock is given up, so that no other deposit or transfer comes between
    /// the two. Any reply but the one that the last request calls for ends
    /// the deposit as a fault, after a rollback where a unit of work is open.
    pub open spec fn next(self, reply: StoreReply) -> (DepositView, DepositStepView) {
        match self.phase {
            DepositPhase::Created => self.start(),
            DepositPhase::Opening => match reply {
                StoreReply::Done => self.ask(
                    DepositPhase::Locking,
                    RequestView::Lock(self.username),
                ),
                _ => self.finish(Err(LedgerError::Fault)),
            },
            DepositPhase::Locking => match reply {
                StoreReply::Balance(balance) => self.decide(balance as int),
                StoreReply::Missing => self.abandon(Err(LedgerError::NotFound)),
                _ => self.abandon(Err(LedgerError::Fault)),
            },
            DepositPhase::Writing => match reply {
                StoreReply::Done => self.ask(DepositPhase::Committing, RequestView::Commit),
                _ => self.abandon(Err(LedgerError::Fault)),
            },
            DepositPhase::Committing => match reply {
                StoreReply::Done => self.finish(self.outcome),
                _ => self.finish(Err(LedgerError::Fault)),
            },
            DepositPhase::RollingBack => match reply {
                StoreReply::Done => self.finish(self.outcome),
                _ => self.finish(Err(LedgerError::Fault)),
            },
            DepositPhase::Finished => (self, DepositStepView::Finish(self.outcome)),
        }
    }
}

impl View for Deposit {
    type V = DepositView;

    closed spec fn view(&self) -> DepositView {
        DepositView {
            username: self.username@,
            amount: self.amount as int,
            phase: self.phase,
            outcome: self.outcome,
        }
    }
}

impl Deposit {
    /// A deposit of `amount` into the account named `username`, of which no
    /// step has been taken.
    pub fn new(username: &str, amount: i32) -> (d: Deposit)
        ensures
            d@ == DepositView::created(username@, amount as int),
    {
        Deposit {
            username: username.to_owned(),
            amount,
            phase: DepositPhase::Created,
            outcome: Err(LedgerError::Fault),
        }
    }

    fn finish(&mut self, outcome: Result<i64, LedgerError>) -> (step: DepositStep)
        ensures
            (final(self)@, step@) == old(self)@.finish(outcome),
    {
        self.phase = DepositPhase::Finished;
        self.outcome = outcome;
        DepositStep::Finish(outcome)
    }

    fn abandon(&mut self, outcome: Result<i64, LedgerError>) -> (step: DepositStep)
        ensures
            (final(self)@, step@) == old(self)@.abandon(outcome),
    {
        self.phase = DepositPhase::RollingBack;
        self.outcome = outcome;
        DepositStep::Ask(StoreRequest::Rollback)
    }

    fn ask(&mut self, phase: DepositPhase, request: StoreRequest) -> (step: DepositStep)
        ensures
            (final(self)@, step@) == old(self)@.ask(phase, request@),
    {
        self.phase = phase;
        DepositStep::Ask(request)
    }

    /// The first step of the deposit.
    pub fn start(&mut self) -> (step: DepositStep)
        ensures
            (final(self)@, step@) == old(self)@.next(StoreReply::Done),
            old(self)@.phase == DepositPhase::Created ==> (final(self)@, step@) == old(
                self,
            )@.start(),
    {
        self.next(StoreReply::Done)
    }

    /// The step that follows the store's `reply` to the request of the step
    /// before.
    pub fn next(&mut self, reply: StoreReply) -> (step: DepositStep)
        ensures
            (final(self)@, step@) == old(self)@.next(reply),
    {
        match self.phase {
            DepositPhase::Created => {
                if self.amount <= 0 {
                    self.finish(Err(LedgerError::InvalidAmount))
                } else {
                    self.ask(DepositPhase::Opening, StoreRequest::Begin)
                }
            },
            DepositPhase::Opening => match reply {
                StoreReply::Done => {
                    let request = StoreRequest::Lock(self.username.clone());
                    self.ask(DepositPhase::Locking, request)
                },
                _ => self.finish(Err(LedgerError::Fault)),
            },
            DepositPhase::Locking => match reply {
                StoreReply::Balance(balance) => {
                    if self.amount <= 0 || balance > i64::MAX - (self.amount as i64) {
                        self.abandon(Err(LedgerError::Fault))
                    } else {
                        let balance = balance + (self.amount as i64);
                        self.outcome = Ok(balance);
                        let request = StoreRequest::SetBalance(self.username.clone(), balance);
                        self.ask(DepositPhase::Writing, request)
                    }
                },
                StoreReply::Missing => self.abandon(Err(LedgerError::NotFound)),
                _ => self.abandon(Err(LedgerError::Fault)),
            },
            DepositPhase::Writing => match reply {
                StoreReply::Done => self.ask(DepositPhase::Committing, StoreRequest::Commit),
                _ => self.abandon(Err(LedgerError::Fault)),
            },
            DepositPhase::Committing => match reply {
                StoreReply::Done => {
                    let outcome = self.outcome;
                    self.finish(outcome)
                },
                _ => self.finish(Err(LedgerError::Fault)),
            },
            DepositPhase::RollingBack => match reply {
                StoreReply::Done => {
                    let outcome = self.outcome;
                    self.finish(outcome)
                },
                _ => self.finish(Err(LedgerError::Fault)),
            },
            DepositPhase::Finished => DepositStep::Finish(self.outcome),
        }
    }
}

} // verus!
