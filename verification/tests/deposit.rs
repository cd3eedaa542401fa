use std::sync::{Arc, Mutex};

use simple_payment_system::balance::{deposit, get_balance, DepositAmount};
use simple_payment_system::db::{row_exists, Db};
use simple_payment_system::model::LedgerError;
use simple_payment_system::user::HashedUserCredentials;
use simple_payment_system::validation::ValidationError;

fn enrol(db: &mut Db, name: &str) {
    db.signup_user(HashedUserCredentials {
        username: name.to_string(),
        hashed_password: format!("hash of {name}"),
    })
    .unwrap();
}

#[test]
fn new_account_has_balance_zero() {
    let mut db = Db::init();
    assert_eq!(db.get_balance_of_user("alice"), Err(LedgerError::NotFound));
    enrol(&mut db, "alice");
    assert_eq!(db.get_balance_of_user("alice"), Ok(0));
    assert_eq!(db.get_hashed_password_of_user("alice"), Ok(String::from("hash of alice")));
    assert_eq!(db.get_hashed_password_of_user("bob"), Err(LedgerError::NotFound));
}

#[test]
fn name_can_be_taken_once() {
    let mut db = Db::init();
    enrol(&mut db, "alice");
    db.deposit("alice", 5).unwrap();
    let again = db.signup_user(HashedUserCredentials {
        username: String::from("alice"),
        hashed_password: String::from("other"),
    });
    assert_eq!(again, Err(LedgerError::Fault));
    assert_eq!(db.get_balance_of_user("alice"), Ok(5));
    assert_eq!(db.get_hashed_password_of_user("alice"), Ok(String::from("hash of alice")));
}

#[test]
fn existence_of_a_name() {
    let mut db = Db::init();
    assert_eq!(db.check_if_username_exists("alice"), Ok(false));
    enrol(&mut db, "alice");
    assert_eq!(db.check_if_username_exists("alice"), Ok(true));
    assert_eq!(db.check_if_username_exists("alic"), Ok(false));
    assert_eq!(db.check_if_username_exists("alicea"), Ok(false));
    assert_eq!(db.check_if_username_exists("Alice"), Ok(false));
}

#[test]
fn look_up_that_failed_says_nothing_of_existence() {
    assert_eq!(row_exists(Ok::<i64, LedgerError>(3)), Ok(true));
    assert_eq!(row_exists(Err::<i64, LedgerError>(LedgerError::NotFound)), Ok(false));
    assert_eq!(row_exists(Err::<i64, LedgerError>(LedgerError::Fault)), Err(LedgerError::Fault));
    assert_eq!(
        row_exists(Err::<String, LedgerError>(LedgerError::Forbidden)),
        Err(LedgerError::Forbidden)
    );
}

#[test]
fn deposit_returns_the_new_balance() {
    let mut db = Db::init();
    enrol(&mut db, "alice");
    enrol(&mut db, "bob");
    assert_eq!(db.deposit("alice", 10), Ok(10));
    assert_eq!(db.deposit("alice", 32), Ok(42));
    assert_eq!(db.get_balance_of_user("alice"), Ok(42));
    assert_eq!(db.get_balance_of_user("bob"), Ok(0));
}

#[test]
fn deposit_of_nothing_or_less_is_refused() {
    let mut db = Db::init();
    enrol(&mut db, "alice");
    assert_eq!(db.deposit("alice", 0), Err(LedgerError::InvalidAmount));
    assert_eq!(db.deposit("alice", -1), Err(LedgerError::InvalidAmount));
    assert_eq!(db.deposit("nobody", 0), Err(LedgerError::InvalidAmount));
    assert_eq!(db.get_balance_of_user("alice"), Ok(0));
}

#[test]
fn deposit_into_an_unknown_account_finds_nothing() {
    let mut db = Db::init();
    enrol(&mut db, "alice");
    assert_eq!(db.deposit("bob", 10), Err(LedgerError::NotFound));
    assert_eq!(db.get_balance_of_user("alice"), Ok(0));
}

#[test]
fn hundred_deposits_all_count() {
    let mut db = Db::init();
    enrol(&mut db, "alice");
    let db = Arc::new(Mutex::new(db));
    let runtime = tokio::runtime::Builder::new_multi_thread().worker_threads(4).build().unwrap();
    runtime.block_on(async {
        let callers: Vec<_> = (0..100)
            .map(|_| {
                let db = Arc::clone(&db);
                tokio::spawn(async move {
                    db.lock().unwrap().deposit("alice", 10).unwrap();
                })
            })
            .collect();
        for caller in callers {
            caller.await.unwrap();
        }
    });
    assert_eq!(db.lock().unwrap().get_balance_of_user("alice"), Ok(1000));
}

#[test]
fn transfers_from_many_callers_conserve_the_total() {
    let mut db = Db::init();
    for name in ["alice", "bob", "carol"] {
        enrol(&mut db, name);
        db.deposit(name, 500).unwrap();
    }
    let db = Arc::new(Mutex::new(db));
    let runtime = tokio::runtime::Builder::new_multi_thread().worker_threads(4).build().unwrap();
    runtime.block_on(async {
        let pairs = [("alice", "bob"), ("bob", "alice"), ("bob", "carol"), ("carol", "alice")];
        let callers: Vec<_> = (0..200)
            .map(|i: usize| {
                let db = Arc::clone(&db);
                let (from, to) = pairs[i % pairs.len()];
                let amount = (i % 90) as i32 + 1;
                tokio::spawn(async move {
                    let request = simple_payment_system::transaction::TransactionRequest {
                        to_user: String::from(to),
                        amount,
                    };
                    let mut db = db.lock().unwrap();
                    let done = db.process_transaction(from, request);
                    assert!(done == Ok(true) || done == Ok(false));
                    done == Ok(true)
                })
            })
            .collect();
        let mut committed = 0;
        for caller in callers {
            if caller.await.unwrap() {
                committed += 1;
            }
        }
        let db = db.lock().unwrap();
        let balances: Vec<i64> = ["alice", "bob", "carol"]
            .iter()
            .map(|name| db.get_balance_of_user(name).unwrap())
            .collect();
        assert!(balances.iter().all(|balance| *balance >= 0));
        assert_eq!(balances.iter().sum::<i64>(), 1500);
        let mut ids: Vec<u128> = Vec::new();
        for name in ["alice", "bob", "carol"] {
            for record in db.get_transactions_list(name).unwrap() {
                if !ids.contains(&record.transaction_id) {
                    ids.push(record.transaction_id);
                }
            }
        }
        assert_eq!(ids.len(), committed);
    });
}

#[test]
fn deposit_request_is_checked_first() {
    assert_eq!(DepositAmount { deposit_amount: 1 }.validate(), Ok(()));
    assert_eq!(DepositAmount { deposit_amount: i32::MAX }.validate(), Ok(()));
    assert_eq!(DepositAmount { deposit_amount: 0 }.validate(), Err(ValidationError::Amount));
    assert_eq!(DepositAmount { deposit_amount: -7 }.validate(), Err(ValidationError::Amount));

    let mut db = Db::init();
    enrol(&mut db, "alice");
    assert_eq!(deposit(&mut db, "alice", &DepositAmount { deposit_amount: 25 }), Ok(25));
    assert_eq!(
        deposit(&mut db, "alice", &DepositAmount { deposit_amount: 0 }),
        Err(LedgerError::InvalidAmount)
    );
    assert_eq!(
        deposit(&mut db, "bob", &DepositAmount { deposit_amount: 5 }),
        Err(LedgerError::NotFound)
    );
    assert_eq!(get_balance(&db, "alice"), Ok(25));
    assert_eq!(get_balance(&db, "alice"), Ok(25));
    assert_eq!(get_balance(&db, "bob"), Err(LedgerError::NotFound));
}
