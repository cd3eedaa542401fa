use std::collections::BTreeMap;

use simple_payment_system::db::Db;
use simple_payment_system::engine::{
    Deposit, DepositStep, StoreReply, StoreRequest, Transfer, TransferStep,
};
use simple_payment_system::user::HashedUserCredentials;
use simple_payment_system::model::LedgerError;
use simple_payment_system::order::{lock_order, rank_of, Rank};
use simple_payment_system::transaction::TransactionRequest;

fn transfer(from: &str, to: &str, amount: i32) -> Transfer {
    Transfer::new(from, &TransactionRequest { to_user: String::from(to), amount })
}

fn asked(step: TransferStep) -> StoreRequest {
    match step {
        TransferStep::Ask(request) => request,
        TransferStep::Finish(result) => panic!("finished early with {result:?}"),
    }
}

fn finished(step: TransferStep) -> Result<bool, LedgerError> {
    match step {
        TransferStep::Finish(result) => result,
        TransferStep::Ask(request) => panic!("went on with {request:?}"),
    }
}

fn deposit_asked(step: DepositStep) -> StoreRequest {
    match step {
        DepositStep::Ask(request) => request,
        DepositStep::Finish(result) => panic!("finished early with {result:?}"),
    }
}

fn deposit_finished(step: DepositStep) -> Result<i64, LedgerError> {
    match step {
        DepositStep::Finish(result) => result,
        DepositStep::Ask(request) => panic!("went on with {request:?}"),
    }
}

fn is_lock(request: &StoreRequest, name: &str) -> bool {
    matches!(request, StoreRequest::Lock(locked) if locked == name)
}

fn is_set(request: &StoreRequest, name: &str, balance: i64) -> bool {
    matches!(request, StoreRequest::SetBalance(set, to) if set == name && *to == balance)
}

#[test]
fn canonical_order_is_by_code_point() {
    assert_eq!(rank_of("alice", "bob"), Rank::Before);
    assert_eq!(rank_of("bob", "alice"), Rank::After);
    assert_eq!(rank_of("alice", "alice"), Rank::Same);
    assert_eq!(rank_of("alice", "alicea"), Rank::Before);
    assert_eq!(rank_of("alicea", "alice"), Rank::After);
    assert_eq!(rank_of("", ""), Rank::Same);
    assert_eq!(rank_of("", "a"), Rank::Before);
    assert_eq!(rank_of("Zed", "alice"), Rank::Before);
    assert_eq!(rank_of("zoë", "zoe"), Rank::After);
    assert_eq!(rank_of("a\u{10000}", "a\u{ffff}"), Rank::After);
    for (a, b) in [("alice", "bob"), ("bob", "alice"), ("x", "x"), ("", "a"), ("é", "z")] {
        let by_std = match a.cmp(b) {
            std::cmp::Ordering::Less => Rank::Before,
            std::cmp::Ordering::Equal => Rank::Same,
            std::cmp::Ordering::Greater => Rank::After,
        };
        assert_eq!(rank_of(a, b), by_std);
    }
}

#[test]
fn lock_order_ignores_the_direction() {
    assert_eq!(lock_order("alice", "bob"), ("alice", "bob"));
    assert_eq!(lock_order("bob", "alice"), ("alice", "bob"));
    assert_eq!(lock_order("bob", "bob"), ("bob", "bob"));
    assert_eq!(lock_order("bob", "bobby"), ("bob", "bobby"));
    assert_eq!(lock_order("bobby", "bob"), ("bob", "bobby"));
}

#[test]
fn transfer_protocol_commits() {
    let mut t = transfer("bob", "alice", 30);
    assert!(matches!(asked(t.start()), StoreRequest::Begin));
    assert!(is_lock(&asked(t.next(StoreReply::Done)), "alice"));
    assert!(is_lock(&asked(t.next(StoreReply::Balance(50))), "bob"));
    assert!(is_set(&asked(t.next(StoreReply::Balance(100))), "bob", 70));
    assert!(is_set(&asked(t.next(StoreReply::Done)), "alice", 80));
    match asked(t.next(StoreReply::Done)) {
        StoreRequest::Append(from, to, amount) => {
            assert_eq!(from, "bob");
            assert_eq!(to, "alice");
            assert_eq!(amount, 30);
        }
        other => panic!("asked {other:?}"),
    }
    assert!(matches!(asked(t.next(StoreReply::Done)), StoreRequest::Commit));
    assert_eq!(finished(t.next(StoreReply::Done)), Ok(true));
    assert_eq!(finished(t.next(StoreReply::Done)), Ok(true));
    assert_eq!(finished(t.next(StoreReply::Failed)), Ok(true));
}

#[test]
fn opposite_transfers_lock_the_same_row_first() {
    let mut there = transfer("alice", "bob", 1);
    let mut back = transfer("bob", "alice", 1);
    there.start();
    back.start();
    assert!(is_lock(&asked(there.next(StoreReply::Done)), "alice"));
    assert!(is_lock(&asked(back.next(StoreReply::Done)), "alice"));
    assert!(is_lock(&asked(there.next(StoreReply::Balance(5))), "bob"));
    assert!(is_lock(&asked(back.next(StoreReply::Balance(5))), "bob"));
    assert!(is_set(&asked(there.next(StoreReply::Balance(9))), "alice", 4));
    assert!(is_set(&asked(back.next(StoreReply::Balance(9))), "bob", 8));
}

#[test]
fn transfer_protocol_rolls_back_on_insufficient_funds() {
    let mut t = transfer("alice", "bob", 1000);
    t.start();
    t.next(StoreReply::Done);
    t.next(StoreReply::Balance(70));
    assert!(matches!(asked(t.next(StoreReply::Balance(80))), StoreRequest::Rollback));
    assert_eq!(finished(t.next(StoreReply::Done)), Ok(false));
}

#[test]
fn transfer_protocol_covers_the_exact_balance() {
    let mut t = transfer("alice", "bob", 70);
    t.start();
    t.next(StoreReply::Done);
    t.next(StoreReply::Balance(70));
    assert!(is_set(&asked(t.next(StoreReply::Balance(0))), "alice", 0));
    assert!(is_set(&asked(t.next(StoreReply::Done)), "bob", 70));
}

#[test]
fn transfer_protocol_refuses_before_any_request() {
    assert_eq!(finished(transfer("alice", "bob", 0).start()), Err(LedgerError::InvalidAmount));
    assert_eq!(finished(transfer("alice", "bob", -3).start()), Err(LedgerError::InvalidAmount));
    assert_eq!(finished(transfer("alice", "alice", 3).start()), Err(LedgerError::SameAccount));
    assert_eq!(finished(transfer("alice", "alice", 0).start()), Err(LedgerError::InvalidAmount));
}

#[test]
fn transfer_protocol_reports_a_missing_row() {
    let mut t = transfer("alice", "bob", 5);
    t.start();
    t.next(StoreReply::Done);
    assert!(matches!(asked(t.next(StoreReply::Missing)), StoreRequest::Rollback));
    assert_eq!(finished(t.next(StoreReply::Done)), Err(LedgerError::NotFound));

    let mut t = transfer("alice", "bob", 5);
    t.start();
    t.next(StoreReply::Done);
    t.next(StoreReply::Balance(10));
    assert!(matches!(asked(t.next(StoreReply::Missing)), StoreRequest::Rollback));
    assert_eq!(finished(t.next(StoreReply::Done)), Err(LedgerError::NotFound));
}

#[test]
fn transfer_protocol_does_not_overflow_the_receiver() {
    let mut t = transfer("alice", "bob", 5);
    t.start();
    t.next(StoreReply::Done);
    t.next(StoreReply::Balance(10));
    assert!(matches!(asked(t.next(StoreReply::Balance(i64::MAX - 4))), StoreRequest::Rollback));
    assert_eq!(finished(t.next(StoreReply::Done)), Err(LedgerError::Fault));

    let mut t = transfer("alice", "bob", 5);
    t.start();
    t.next(StoreReply::Done);
    t.next(StoreReply::Balance(10));
    assert!(is_set(&asked(t.next(StoreReply::Balance(i64::MAX - 5))), "alice", 5));
    assert!(is_set(&asked(t.next(StoreReply::Done)), "bob", i64::MAX));
}

#[test]
fn transfer_protocol_rolls_back_on_any_failure() {
    let replies = [
        StoreReply::Done,
        StoreReply::Balance(100),
        StoreReply::Balance(50),
        StoreReply::Done,
        StoreReply::Done,
        StoreReply::Done,
    ];
    for failing in 1..=replies.len() {
        let mut t = transfer("alice", "bob", 30);
        t.start();
        for reply in &replies[..failing - 1] {
            asked(t.next(*reply));
        }
        let step = t.next(StoreReply::Failed);
        if failing == 1 {
            assert_eq!(finished(step), Err(LedgerError::Fault));
        } else {
            assert!(matches!(asked(step), StoreRequest::Rollback));
            assert_eq!(finished(t.next(StoreReply::Done)), Err(LedgerError::Fault));
        }
    }
}

#[test]
fn transfer_protocol_reports_a_failed_commit_or_rollback() {
    let mut t = transfer("alice", "bob", 30);
    t.start();
    for reply in [
        StoreReply::Done,
        StoreReply::Balance(100),
        StoreReply::Balance(50),
        StoreReply::Done,
        StoreReply::Done,
        StoreReply::Done,
    ] {
        t.next(reply);
    }
    assert_eq!(finished(t.next(StoreReply::Failed)), Err(LedgerError::Fault));

    let mut t = transfer("alice", "bob", 1000);
    t.start();
    t.next(StoreReply::Done);
    t.next(StoreReply::Balance(70));
    t.next(StoreReply::Balance(80));
    assert_eq!(finished(t.next(StoreReply::Failed)), Err(LedgerError::Fault));
}

#[test]
fn transfer_protocol_takes_an_unasked_reply_for_a_failure() {
    let mut t = transfer("alice", "bob", 30);
    t.start();
    t.next(StoreReply::Done);
    assert!(matches!(asked(t.next(StoreReply::Done)), StoreRequest::Rollback));
    assert_eq!(finished(t.next(StoreReply::Done)), Err(LedgerError::Fault));
}

#[test]
fn deposit_protocol_commits_the_new_balance() {
    let mut d = Deposit::new("alice", 10);
    assert!(matches!(deposit_asked(d.start()), StoreRequest::Begin));
    assert!(is_lock(&deposit_asked(d.next(StoreReply::Done)), "alice"));
    assert!(is_set(&deposit_asked(d.next(StoreReply::Balance(32))), "alice", 42));
    assert!(matches!(deposit_asked(d.next(StoreReply::Done)), StoreRequest::Commit));
    assert_eq!(deposit_finished(d.next(StoreReply::Done)), Ok(42));
    assert_eq!(deposit_finished(d.next(StoreReply::Done)), Ok(42));
}

#[test]
fn deposit_protocol_refuses_or_rolls_back() {
    assert_eq!(deposit_finished(Deposit::new("alice", 0).start()), Err(LedgerError::InvalidAmount));
    assert_eq!(deposit_finished(Deposit::new("alice", -1).start()), Err(LedgerError::InvalidAmount));

    let mut d = Deposit::new("alice", 10);
    d.start();
    assert_eq!(deposit_finished(d.next(StoreReply::Failed)), Err(LedgerError::Fault));

    let mut d = Deposit::new("alice", 10);
    d.start();
    d.next(StoreReply::Done);
    assert!(matches!(deposit_asked(d.next(StoreReply::Missing)), StoreRequest::Rollback));
    assert_eq!(deposit_finished(d.next(StoreReply::Done)), Err(LedgerError::NotFound));

    let mut d = Deposit::new("alice", 10);
    d.start();
    d.next(StoreReply::Done);
    assert!(matches!(
        deposit_asked(d.next(StoreReply::Balance(i64::MAX - 9))),
        StoreRequest::Rollback
    ));
    assert_eq!(deposit_finished(d.next(StoreReply::Done)), Err(LedgerError::Fault));

    let mut d = Deposit::new("alice", 10);
    d.start();
    d.next(StoreReply::Done);
    assert!(is_set(&deposit_asked(d.next(StoreReply::Balance(i64::MAX - 10))), "alice", i64::MAX));
    assert!(matches!(deposit_asked(d.next(StoreReply::Failed)), StoreRequest::Rollback));
    assert_eq!(deposit_finished(d.next(StoreReply::Done)), Err(LedgerError::Fault));

    let mut d = Deposit::new("alice", 10);
    d.start();
    d.next(StoreReply::Done);
    d.next(StoreReply::Balance(5));
    d.next(StoreReply::Done);
    assert_eq!(deposit_finished(d.next(StoreReply::Failed)), Err(LedgerError::Fault));
}

/// A store with units of work, as small as one can be: what is committed,
/// and what the open unit of work has made of it.
struct SmallStore {
    committed: (BTreeMap<String, i64>, Vec<(String, String, i32)>),
    working: (BTreeMap<String, i64>, Vec<(String, String, i32)>),
    asked: Vec<String>,
}

impl SmallStore {
    fn with(accounts: &[(&str, i64)]) -> SmallStore {
        let balances: BTreeMap<String, i64> =
            accounts.iter().map(|(name, balance)| (name.to_string(), *balance)).collect();
        SmallStore {
            committed: (balances.clone(), Vec::new()),
            working: (balances, Vec::new()),
            asked: Vec::new(),
        }
    }

    fn answer(&mut self, request: StoreRequest) -> StoreReply {
        self.asked.push(format!("{request:?}"));
        match request {
            StoreRequest::Begin => {
                self.working = self.committed.clone();
                StoreReply::Done
            }
            StoreRequest::Lock(name) => match self.working.0.get(&name) {
                Some(balance) => StoreReply::Balance(*balance),
                None => StoreReply::Missing,
            },
            StoreRequest::SetBalance(name, balance) => match self.working.0.get_mut(&name) {
                Some(held) => {
                    *held = balance;
                    StoreReply::Done
                }
                None => StoreReply::Missing,
            },
            StoreRequest::Append(from, to, amount) => {
                self.working.1.push((from, to, amount));
                StoreReply::Done
            }
            StoreRequest::Commit => {
                self.committed = self.working.clone();
                StoreReply::Done
            }
            StoreRequest::Rollback => {
                self.working = self.committed.clone();
                StoreReply::Done
            }
        }
    }

    fn transfer(&mut self, from: &str, to: &str, amount: i32) -> Result<bool, LedgerError> {
        let mut t = transfer(from, to, amount);
        let mut step = t.start();
        loop {
            match step {
                TransferStep::Finish(result) => return result,
                TransferStep::Ask(request) => step = t.next(self.answer(request)),
            }
        }
    }

    fn deposit(&mut self, name: &str, amount: i32) -> Result<i64, LedgerError> {
        let mut d = Deposit::new(name, amount);
        let mut step = d.start();
        loop {
            match step {
                DepositStep::Finish(result) => return result,
                DepositStep::Ask(request) => step = d.next(self.answer(request)),
            }
        }
    }
}

#[test]
fn protocols_and_ledger_agree() {
    let names = ["alice", "bob", "carol"];
    let mut store = SmallStore::with(&[("alice", 0), ("bob", 0), ("carol", 0)]);
    let mut db = Db::init();
    for name in names {
        db.signup_user(HashedUserCredentials {
            username: name.to_string(),
            hashed_password: String::new(),
        })
        .unwrap();
    }
    let deposits = [("alice", 100), ("bob", 50), ("dave", 5), ("carol", 0), ("carol", 7)];
    for (name, amount) in deposits {
        assert_eq!(store.deposit(name, amount), db.deposit(name, amount));
    }
    let moves = [
        ("alice", "bob", 30),
        ("bob", "alice", 81),
        ("bob", "carol", 80),
        ("carol", "dave", 1),
        ("dave", "carol", 1),
        ("carol", "carol", 1),
        ("carol", "alice", -1),
        ("carol", "alice", 87),
        ("alice", "bob", 157),
    ];
    let mut next_id = 1;
    for (from, to, amount) in moves {
        let request = TransactionRequest { to_user: String::from(to), amount };
        let by_ledger = db.record_transfer(from, &request, next_id, 0);
        next_id += 1;
        assert_eq!(store.transfer(from, to, amount), by_ledger);
        for name in names {
            assert_eq!(Ok(store.committed.0[name]), db.get_balance_of_user(name));
        }
    }
    assert_eq!(store.committed.0["bob"], 157);
    assert_eq!(store.committed.1.len(), 4);
    let logged: Vec<(String, String, i32)> = names
        .iter()
        .flat_map(|name| db.get_transactions_list(name).unwrap())
        .filter(|record| record.from_user != "bob" || record.to_user == "carol")
        .map(|record| (record.from_user, record.to_user, record.amount))
        .collect();
    for record in &store.committed.1 {
        assert!(logged.contains(record));
    }
}

#[test]
fn transfer_protocol_asks_for_seven_things() {
    let mut store = SmallStore::with(&[("alice", 100), ("bob", 50)]);
    assert_eq!(store.transfer("bob", "alice", 30), Ok(true));
    assert_eq!(
        store.asked,
        vec![
            "Begin",
            "Lock(\"alice\")",
            "Lock(\"bob\")",
            "SetBalance(\"bob\", 20)",
            "SetBalance(\"alice\", 130)",
            "Append(\"bob\", \"alice\", 30)",
            "Commit",
        ]
    );
    store.asked.clear();
    assert_eq!(store.transfer("bob", "alice", 30), Ok(false));
    assert_eq!(store.asked, vec!["Begin", "Lock(\"alice\")", "Lock(\"bob\")", "Rollback"]);
    assert_eq!(store.committed.0["alice"], 130);
    assert_eq!(store.committed.0["bob"], 20);
    assert_eq!(store.committed.1.len(), 1);
}
