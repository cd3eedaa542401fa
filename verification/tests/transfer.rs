use simple_payment_system::db::Db;
use simple_payment_system::model::LedgerError;
use simple_payment_system::transaction::{
    authorize, create_transaction, get_transaction_by_id, transactions_list, Transaction,
    TransactionRequest,
};
use simple_payment_system::user::HashedUserCredentials;
use simple_payment_system::validation::ValidationError;

fn store_with(accounts: &[(&str, i32)]) -> Db {
    let mut db = Db::init();
    for (name, balance) in accounts {
        db.signup_user(HashedUserCredentials {
            username: name.to_string(),
            hashed_password: String::from("hash"),
        })
        .unwrap();
        if *balance > 0 {
            db.deposit(name, *balance).unwrap();
        }
    }
    db
}

fn request(to_user: &str, amount: i32) -> TransactionRequest {
    TransactionRequest { to_user: String::from(to_user), amount }
}

fn total(db: &Db, names: &[&str]) -> i64 {
    names.iter().map(|name| db.get_balance_of_user(name).unwrap()).sum()
}

#[test]
fn transfer_moves_the_amount_and_leaves_one_record() {
    let mut db = store_with(&[("alice", 100), ("bob", 50)]);
    assert_eq!(db.process_transaction("alice", request("bob", 30)), Ok(true));
    assert_eq!(db.get_balance_of_user("alice"), Ok(70));
    assert_eq!(db.get_balance_of_user("bob"), Ok(80));
    let records = db.get_transactions_list("alice").unwrap();
    assert_eq!(records.len(), 1);
    assert_eq!(records[0].amount, 30);
    assert_eq!(records[0].from_user, "alice");
    assert_eq!(records[0].to_user, "bob");
    let seen_by_bob = db.get_transactions_list("bob").unwrap();
    assert_eq!(seen_by_bob.len(), 1);
    assert_eq!(seen_by_bob[0].transaction_id, records[0].transaction_id);
}

#[test]
fn transfer_beyond_the_balance_changes_nothing() {
    let mut db = store_with(&[("alice", 70), ("bob", 80)]);
    assert_eq!(db.process_transaction("alice", request("bob", 1000)), Ok(false));
    assert_eq!(db.get_balance_of_user("alice"), Ok(70));
    assert_eq!(db.get_balance_of_user("bob"), Ok(80));
    assert!(db.get_transactions_list("alice").unwrap().is_empty());
    assert!(db.get_transactions_list("bob").unwrap().is_empty());
}

#[test]
fn transfer_of_the_whole_balance_leaves_zero() {
    let mut db = store_with(&[("alice", 70), ("bob", 0)]);
    assert_eq!(db.process_transaction("alice", request("bob", 70)), Ok(true));
    assert_eq!(db.get_balance_of_user("alice"), Ok(0));
    assert_eq!(db.get_balance_of_user("bob"), Ok(70));
    assert_eq!(db.process_transaction("alice", request("bob", 1)), Ok(false));
    assert_eq!(db.get_balance_of_user("alice"), Ok(0));
}

#[test]
fn transfer_to_oneself_is_refused() {
    let mut db = store_with(&[("alice", 70)]);
    assert_eq!(db.process_transaction("alice", request("alice", 10)), Err(LedgerError::SameAccount));
    assert_eq!(db.get_balance_of_user("alice"), Ok(70));
    assert!(db.get_transactions_list("alice").unwrap().is_empty());
}

#[test]
fn transfer_of_nothing_or_less_is_refused() {
    let mut db = store_with(&[("alice", 70), ("bob", 5)]);
    assert_eq!(db.process_transaction("alice", request("bob", 0)), Err(LedgerError::InvalidAmount));
    assert_eq!(db.process_transaction("alice", request("bob", -5)), Err(LedgerError::InvalidAmount));
    assert_eq!(db.get_balance_of_user("alice"), Ok(70));
    assert_eq!(db.get_balance_of_user("bob"), Ok(5));
}

#[test]
fn transfer_with_an_unknown_party_finds_nothing() {
    let mut db = store_with(&[("alice", 70)]);
    assert_eq!(db.process_transaction("alice", request("nobody", 10)), Err(LedgerError::NotFound));
    assert_eq!(db.process_transaction("nobody", request("alice", 10)), Err(LedgerError::NotFound));
    assert_eq!(db.get_balance_of_user("alice"), Ok(70));
}

#[test]
fn transfers_get_fresh_identifiers_and_the_time_of_day() {
    let mut db = store_with(&[("alice", 100), ("bob", 50)]);
    let before = chrono::Utc::now().timestamp_micros();
    assert_eq!(db.process_transaction("alice", request("bob", 1)), Ok(true));
    assert_eq!(db.process_transaction("alice", request("bob", 2)), Ok(true));
    assert_eq!(db.process_transaction("bob", request("alice", 3)), Ok(true));
    let after = chrono::Utc::now().timestamp_micros();
    let records = db.get_transactions_list("alice").unwrap();
    assert_eq!(records.len(), 3);
    assert_ne!(records[0].transaction_id, records[1].transaction_id);
    assert_ne!(records[1].transaction_id, records[2].transaction_id);
    assert_ne!(records[0].transaction_id, records[2].transaction_id);
    for record in &records {
        assert!(before <= record.created_at && record.created_at <= after);
        let id = uuid::Uuid::from_u128(record.transaction_id);
        assert_eq!(id.get_version_num(), 4);
        assert_eq!(db.get_transaction(record.transaction_id).unwrap().amount, record.amount);
    }
}

#[test]
fn transfer_under_a_given_identifier_leaves_that_record() {
    let mut db = store_with(&[("alice", 100), ("bob", 50)]);
    assert_eq!(db.record_transfer("alice", &request("bob", 30), 7, 1_700_000_000_000_000), Ok(true));
    let record = db.get_transaction(7).unwrap();
    assert_eq!(record.transaction_id, 7);
    assert_eq!(record.from_user, "alice");
    assert_eq!(record.to_user, "bob");
    assert_eq!(record.amount, 30);
    assert_eq!(record.created_at, 1_700_000_000_000_000);
}

#[test]
fn transfer_under_a_used_identifier_is_a_fault() {
    let mut db = store_with(&[("alice", 100), ("bob", 50)]);
    assert_eq!(db.record_transfer("alice", &request("bob", 30), 7, 1), Ok(true));
    assert_eq!(db.record_transfer("bob", &request("alice", 5), 7, 2), Err(LedgerError::Fault));
    assert_eq!(db.get_balance_of_user("alice"), Ok(70));
    assert_eq!(db.get_balance_of_user("bob"), Ok(80));
    assert_eq!(db.get_transactions_list("bob").unwrap().len(), 1);
}

#[test]
fn transfers_conserve_the_total() {
    let names = ["alice", "bob", "carol"];
    let mut db = store_with(&[("alice", 100), ("bob", 50), ("carol", 7)]);
    let before = total(&db, &names);
    let moves = [
        ("alice", "bob", 30),
        ("bob", "carol", 80),
        ("carol", "alice", 1000),
        ("carol", "alice", 87),
        ("alice", "alice", 5),
        ("bob", "nobody", 5),
        ("alice", "carol", 0),
        ("alice", "bob", 157),
    ];
    for (from, to, amount) in moves {
        let _ = db.process_transaction(from, request(to, amount));
        assert_eq!(total(&db, &names), before);
        for name in names {
            assert!(db.get_balance_of_user(name).unwrap() >= 0);
        }
    }
    assert_eq!(db.get_balance_of_user("alice"), Ok(0));
    assert_eq!(db.get_balance_of_user("bob"), Ok(157));
    assert_eq!(db.get_balance_of_user("carol"), Ok(0));
}

#[test]
fn opposite_transfers_both_complete() {
    let mut db = store_with(&[("alice", 100), ("bob", 50)]);
    assert_eq!(db.process_transaction("alice", request("bob", 30)), Ok(true));
    assert_eq!(db.process_transaction("bob", request("alice", 20)), Ok(true));
    assert_eq!(db.get_balance_of_user("alice"), Ok(90));
    assert_eq!(db.get_balance_of_user("bob"), Ok(60));
    assert_eq!(db.get_transactions_list("alice").unwrap().len(), 2);
}

#[test]
fn reading_a_balance_twice_gives_the_same() {
    let db = store_with(&[("alice", 100)]);
    let first = db.get_balance_of_user("alice");
    let second = db.get_balance_of_user("alice");
    assert_eq!(first, Ok(100));
    assert_eq!(first, second);
    assert_eq!(db.get_balance_of_user("nobody"), Err(LedgerError::NotFound));
    assert_eq!(db.get_balance_of_user("nobody"), Err(LedgerError::NotFound));
}

#[test]
fn list_holds_the_transfers_of_the_user_oldest_first() {
    let mut db = store_with(&[("alice", 100), ("bob", 50), ("carol", 10)]);
    db.record_transfer("alice", &request("bob", 1), 11, 1).unwrap();
    db.record_transfer("bob", &request("carol", 2), 12, 2).unwrap();
    db.record_transfer("carol", &request("alice", 3), 13, 3).unwrap();
    let ids = |records: Vec<Transaction>| -> Vec<u128> {
        records.iter().map(|t| t.transaction_id).collect()
    };
    assert_eq!(ids(db.get_transactions_list("alice").unwrap()), vec![11, 13]);
    assert_eq!(ids(db.get_transactions_list("bob").unwrap()), vec![11, 12]);
    assert_eq!(ids(transactions_list(&db, "carol").unwrap()), vec![12, 13]);
    assert!(db.get_transactions_list("nobody").unwrap().is_empty());
}

#[test]
fn record_is_shown_to_its_parties_only() {
    let mut db = store_with(&[("alice", 100), ("bob", 50), ("carol", 10)]);
    db.record_transfer("alice", &request("bob", 30), 21, 5).unwrap();
    assert_eq!(get_transaction_by_id(&db, "alice", 21).unwrap().amount, 30);
    assert_eq!(get_transaction_by_id(&db, "bob", 21).unwrap().transaction_id, 21);
    assert_eq!(get_transaction_by_id(&db, "carol", 21).err(), Some(LedgerError::Forbidden));
    assert_eq!(get_transaction_by_id(&db, "alice", 22).err(), Some(LedgerError::NotFound));
    assert_eq!(db.get_transaction(22).err(), Some(LedgerError::NotFound));
}

#[test]
fn authorize_hands_the_record_back_or_refuses() {
    let record = Transaction {
        transaction_id: 3,
        from_user: String::from("alice"),
        to_user: String::from("bob"),
        amount: 4,
        created_at: 5,
    };
    assert_eq!(authorize(record.clone(), "bob").unwrap().transaction_id, 3);
    assert_eq!(authorize(record.clone(), "alice").unwrap().created_at, 5);
    assert_eq!(authorize(record.clone(), "alic").err(), Some(LedgerError::Forbidden));
    assert_eq!(authorize(record, "").err(), Some(LedgerError::Forbidden));
}

#[test]
fn request_is_checked_before_the_transfer() {
    assert_eq!(request("bob", 1).validate(), Err(ValidationError::Username));
    assert_eq!(request("bobby", 0).validate(), Err(ValidationError::Amount));
    assert_eq!(request("bob", 0).validate(), Err(ValidationError::Username));
    assert_eq!(request("bobby", 1).validate(), Ok(()));
    assert_eq!(request("abcdefghijklmnop", 1).validate(), Ok(()));
    assert_eq!(request("abcdefghijklmnopq", 1).validate(), Err(ValidationError::Username));

    let mut db = store_with(&[("alice", 100), ("bobby", 50), ("bob", 1)]);
    assert_eq!(create_transaction(&mut db, "alice", request("bobby", 30)), Ok(true));
    assert_eq!(create_transaction(&mut db, "alice", request("bobby", 0)), Err(LedgerError::InvalidAmount));
    assert_eq!(create_transaction(&mut db, "alice", request("bob", 5)), Err(LedgerError::NotFound));
    assert_eq!(create_transaction(&mut db, "alice", request("bobby", 71)), Ok(false));
    assert_eq!(create_transaction(&mut db, "alice", request("alice", 5)), Err(LedgerError::SameAccount));
    assert_eq!(db.get_balance_of_user("alice"), Ok(70));
    assert_eq!(db.get_balance_of_user("bobby"), Ok(80));
    assert_eq!(db.get_balance_of_user("bob"), Ok(1));
}
