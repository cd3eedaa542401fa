//! A small payment ledger: accounts with non-negative balances, deposits,
//! and atomic transfers that leave an immutable record behind.
//!
//! `model` says what a ledger is and what each operation does to one, and
//! `history` what holds of every ledger that operations lead to. `db` is a
//! store in memory that does exactly that. `engine` runs a deposit or a
//! transfer as a protocol against any store with row locks and commit and
//! rollback; `store` proves that the protocols do what the model says,
//! `locks` that operations which lock their rows in the order of `order`
//! never block each other for good, and `isolation` that operations which
//! run side by side under these locks leave the ledger as if they had run one
//! after the other. `balance`, `transaction` and `user` are what a request
//! handler calls, `validation` the rules on what it is given, and `error` how
//! outcomes are reported.

pub mod balance;
pub mod config;
pub mod db;
pub mod engine;
pub mod error;
pub mod history;
pub mod isolation;
pub mod locks;
pub mod model;
pub mod order;
pub mod store;
pub mod transaction;
pub mod user;
pub mod utils;
pub mod validation;
