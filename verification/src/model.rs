//! The mathematical model of the ledger: what an account and a transaction
//! record are, which ledgers are well formed, and what a deposit and a
//! transfer do to one.

use vstd::prelude::*;

verus! {

/// An account as the contracts see it.
pub struct AccountView {
    pub username: Seq<char>,
    pub hashed_password: Seq<char>,
    pub balance: int,
}

/// A completed transfer as the contracts see it.
pub struct TransactionView {
    pub transaction_id: u128,
    pub from_user: Seq<char>,
    pub to_user: Seq<char>,
    pub amount: int,
    pub created_at: int,
}

/// The whole persisted state: the accounts, in the order in which they were
/// created, and the transaction log, oldest record first.
pub struct LedgerView {
    pub accounts: Seq<AccountView>,
    pub transactions: Seq<TransactionView>,
}

/// The outcomes that are not a success.
#[derive(Clone, Copy, Debug, PartialEq, Eq, Structural)]
pub enum LedgerError {
    /// The account or the transaction does not exist.
    NotFound,
    /// The amount is not positive.
    InvalidAmount,
    /// Sender and receiver are the same account.
    SameAccount,
    /// The requester is no party to the transaction.
    Forbidden,
    /// The store could not carry the operation out; nothing was changed.
    Fault,
}

/// The sum of the balances of `accounts`.
pub open spec fn sum_balances(accounts: Seq<AccountView>) -> int
    decreases accounts.len(),
{
    if accounts.len() == 0 {
        0
    } else {
        sum_balances(accounts.drop_last()) + accounts.last().balance
    }
}

/// `account` with its balance replaced by `balance`.
pub open spec fn with_balance(account: AccountView, balance: int) -> AccountView {
    AccountView { balance, ..account }
}

impl LedgerView {
    /// The ledger with no account and no record.
    pub open spec fn empty() -> LedgerView {
        LedgerView { accounts: Seq::empty(), transactions: Seq::empty() }
    }

    /// Whether position `i` holds the account named `username`.
    pub open spec fn account_at(self, username: Seq<char>, i: int) -> bool {
        0 <= i < self.accounts.len() && self.accounts[i].username == username
    }

    /// Whether an account named `username` exists.
    pub open spec fn has_account(self, username: Seq<char>) -> bool {
        exists|i: int| self.account_at(username, i)
    }

    /// The position of the account named `username`.
    pub open spec fn index_of(self, username: Seq<char>) -> int {
        choose|i: int| self.account_at(username, i)
    }

    /// The balance of the account named `username`.
    pub open spec fn balance_of(self, username: Seq<char>) -> int {
        self.accounts[self.index_of(username)].balance
    }

    /// The stored password hash of the account named `username`.
    pub open spec fn password_of(self, username: Seq<char>) -> Seq<char> {
        self.accounts[self.index_of(username)].hashed_password
    }

    /// Whether position `i` of the log holds the record with identifier `id`.
    pub open spec fn record_at(self, id: u128, i: int) -> bool {
        0 <= i < self.transactions.len() && self.transactions[i].transaction_id == id
    }

    /// Whether the log holds a record with identifier `id`.
    pub open spec fn has_record(self, id: u128) -> bool {
        exists|i: int| self.record_at(id, i)
    }

    /// The record with identifier `id`.
    pub open spec fn record_of(self, id: u128) -> TransactionView {
        self.transactions[choose|i: int| self.record_at(id, i)]
    }

    /// The sum of all balances.
    pub open spec fn total(self) -> int {
        sum_balances(self.accounts)
    }

    /// The records in which `username` is sender or receiver, oldest first.
    pub open spec fn records_of(self, username: Seq<char>) -> Seq<TransactionView> {
        records_involving(self.transactions, username)
    }

    /// A ledger is well formed when no two accounts share a name, every
    /// balance is a non-negative 64-bit amount, no two records share an
    /// identifier, and every record moves a positive 32-bit amount between
    /// two different existing accounts.
    pub open spec fn wf(self) -> bool {
        &&& forall|i: int, j: int|
            0 <= i < j < self.accounts.len() ==> self.accounts[i].username
                != self.accounts[j].username
        &&& forall|i: int|
            0 <= i < self.accounts.len() ==> 0 <= (#[trigger] self.accounts[i]).balance
                <= i64::MAX
        &&& forall|i: int, j: int|
            0 <= i < j < self.transactions.len() ==> self.transactions[i].transaction_id
                != self.transactions[j].transaction_id
        &&& forall|i: int|
            0 <= i < self.transactions.len() ==> self.record_ok(#[trigger] self.transactions[i])
    }

    /// What `wf` asks of one record.
    pub open spec fn record_ok(self, t: TransactionView) -> bool {
        &&& 0 < t.amount <= i32::MAX
        &&& t.from_user != t.to_user
        &&& self.has_account(t.from_user)
        &&& self.has_account(t.to_user)
    }
}

impl LedgerView {
    /// The ledger in which the balance of `username` has grown by `delta`.
    pub open spec fn credited(self, username: Seq<char>, delta: int) -> LedgerView {
        let i = self.index_of(username);
        LedgerView {
            accounts: self.accounts.update(
                i,
                with_balance(self.accounts[i], self.accounts[i].balance + delta),
            ),
            ..self
        }
    }

    /// The ledger with `record` appended to the log.
    pub open spec fn recorded(self, record: TransactionView) -> LedgerView {
        LedgerView { transactions: self.transactions.push(record), ..self }
    }

    /// The ledger with a new account of balance zero.
    pub open spec fn enrolled(self, username: Seq<char>, hashed_password: Seq<char>) -> LedgerView {
        LedgerView {
            accounts: self.accounts.push(AccountView { username, hashed_password, balance: 0 }),
            ..self
        }
    }
}

/// What enrolling a new account returns and leaves behind: a name that is
/// taken is a fault of the store, and changes nothing.
pub open spec fn signup_result(s: LedgerView, username: Seq<char>, hashed_password: Seq<char>) -> (
    Result<(), LedgerError>,
    LedgerView,
) {
    if s.has_account(username) {
        (Err(LedgerError::Fault), s)
    } else {
        (Ok(()), s.enrolled(username, hashed_password))
    }
}

/// What a deposit returns and leaves behind.
///
/// A deposit of a non-positive amount is refused, one into an account that
/// does not exist finds nothing, and one that would take the balance out of
/// the 64-bit range is a fault of the store; none of these changes anything.
/// Otherwise the balance grows by `amount` and the new balance is returned.
pub open spec fn deposit_result(s: LedgerView, username: Seq<char>, amount: int) -> (
    Result<i64, LedgerError>,
    LedgerView,
) {
    if amount <= 0 {
        (Err(LedgerError::InvalidAmount), s)
    } else if !s.has_account(username) {
        (Err(LedgerError::NotFound), s)
    } else if s.balance_of(username) + amount > i64::MAX {
        (Err(LedgerError::Fault), s)
    } else {
        (Ok((s.balance_of(username) + amount) as i64), s.credited(username, amount))
    }
}

/// The record that a transfer leaves in the log.
pub open spec fn transfer_record(
    from_user: Seq<char>,
    to_user: Seq<char>,
    amount: int,
    transaction_id: u128,
    created_at: int,
) -> TransactionView {
    TransactionView { transaction_id, from_user, to_user, amount, created_at }
}

/// What a transfer returns and leaves behind.
///
/// In this order: a non-positive amount is refused; so is a transfer from an
/// account to itself; a sender or receiver that does not exist is not found;
/// a sender whose balance is below `amount` gives `Ok(false)`; a receiver
/// whose balance would leave the 64-bit range, or an identifier that the log
/// already holds, is a fault of the store. None of these changes anything.
/// Otherwise `amount` moves from sender to receiver, one record is appended,
/// and the result is `Ok(true)`.
pub open spec fn transfer_result(
    s: LedgerView,
    from_user: Seq<char>,
    to_user: Seq<char>,
    amount: int,
    transaction_id: u128,
    created_at: int,
) -> (Result<bool, LedgerError>, LedgerView) {
    if amount <= 0 {
        (Err(LedgerError::InvalidAmount), s)
    } else if from_user == to_user {
        (Err(LedgerError::SameAccount), s)
    } else if !s.has_account(from_user) || !s.has_account(to_user) {
        (Err(LedgerError::NotFound), s)
    } else if s.balance_of(from_user) < amount {
        (Ok(false), s)
    } else if s.balance_of(to_user) + amount > i64::MAX || s.has_record(transaction_id) {
        (Err(LedgerError::Fault), s)
    } else {
        (
            Ok(true),
            s.credited(from_user, -amount).credited(to_user, amount).recorded(
                transfer_record(from_user, to_user, amount, transaction_id, created_at),
            ),
        )
    }
}

/// Whether `username` is a party to `t`.
pub open spec fn involves(t: TransactionView, username: Seq<char>) -> bool {
    t.from_user == username || t.to_user == username
}

/// The records of `log` to which `username` is a party, in the order of `log`.
pub open spec fn records_involving(log: Seq<TransactionView>, username: Seq<char>) -> Seq<
    TransactionView,
>
    decreases log.len(),
{
    if log.len() == 0 {
        Seq::empty()
    } else if involves(log.last(), username) {
        records_involving(log.drop_last(), username).push(log.last())
    } else {
        records_involving(log.drop_last(), username)
    }
}

/// In a well-formed ledger a name stands at one position only.
pub proof fn lemma_index_unique(s: LedgerView, username: Seq<char>, i: int)
    requires
        s.wf(),
        s.account_at(username, i),
    ensures
        s.has_account(username),
        s.index_of(username) == i,
{
    let j = s.index_of(username);
    assert(s.account_at(username, j));
    if i < j {
        assert(s.accounts[i].username != s.accounts[j].username);
    } else if j < i {
        assert(s.accounts[j].username != s.accounts[i].username);
    }
}

/// Replacing one balance changes the sum by the difference.
pub proof fn lemma_sum_update(accounts: Seq<AccountView>, i: int, balance: int)
    requires
        0 <= i < accounts.len(),
    ensures
        sum_balances(accounts.update(i, with_balance(accounts[i], balance))) == sum_balances(
            accounts,
        ) - accounts[i].balance + balance,
    decreases accounts.len(),
{
    let updated = accounts.update(i, with_balance(accounts[i], balance));
    if i == accounts.len() - 1 {
        assert(updated.drop_last() =~= accounts.drop_last());
    } else {
        lemma_sum_update(accounts.drop_last(), i, balance);
        assert(updated.drop_last() =~= accounts.drop_last().update(
            i,
            with_balance(accounts[i], balance),
        ));
    }
}

/// Appending an account adds its balance to the sum.
pub proof fn lemma_sum_push(accounts: Seq<AccountView>, account: AccountView)
    ensures
        sum_balances(accounts.push(account)) == sum_balances(accounts) + account.balance,
{
    assert(accounts.push(account).drop_last() =~= accounts);
}

/// Whether two ledgers hold the same accounts but for the balances.
pub open spec fn same_names(s: LedgerView, t: LedgerView) -> bool {
    &&& s.accounts.len() == t.accounts.len()
    &&& forall|i: int|
        0 <= i < s.accounts.len() ==> (#[trigger] s.accounts[i]).username == t.accounts[i].username
            && s.accounts[i].hashed_password == t.accounts[i].hashed_password
}

/// Two well-formed ledgers with the same accounts find every name at the
/// same position.
pub proof fn lemma_same_names(s: LedgerView, t: LedgerView)
    requires
        s.wf(),
        t.wf(),
        same_names(s, t),
    ensures
        forall|name: Seq<char>| #[trigger] t.has_account(name) == s.has_account(name),
        forall|name: Seq<char>|
            s.has_account(name) ==> #[trigger] t.index_of(name) == s.index_of(name),
{
    assert forall|name: Seq<char>| #[trigger] t.has_account(name) == s.has_account(name) by {
        if s.has_account(name) {
            let k = s.index_of(name);
            assert(s.account_at(name, k));
            assert(s.accounts[k].username == t.accounts[k].username);
            assert(t.account_at(name, k));
        }
        if t.has_account(name) {
            let k = t.index_of(name);
            assert(t.account_at(name, k));
            assert(s.accounts[k].username == t.accounts[k].username);
            assert(s.account_at(name, k));
        }
    }
    assert forall|name: Seq<char>| s.has_account(name) implies #[trigger] t.index_of(name)
        == s.index_of(name) by {
        let k = s.index_of(name);
        assert(s.account_at(name, k));
        assert(s.accounts[k].username == t.accounts[k].username);
        assert(t.account_at(name, k));
        lemma_index_unique(t, name, k);
    }
}

/// Changing one balance within the 64-bit range keeps a ledger well formed,
/// moves the total by the same amount, and touches no other account.
pub proof fn lemma_credited(s: LedgerView, username: Seq<char>, delta: int)
    requires
        s.wf(),
        s.has_account(username),
        0 <= s.balance_of(username) + delta <= i64::MAX,
    ensures
        s.credited(username, delta).wf(),
        same_names(s, s.credited(username, delta)),
        forall|name: Seq<char>|
            #[trigger] s.credited(username, delta).has_account(name) == s.has_account(name),
        s.credited(username, delta).transactions == s.transactions,
        s.credited(username, delta).total() == s.total() + delta,
        s.credited(username, delta).balance_of(username) == s.balance_of(username) + delta,
        forall|other: Seq<char>|
            s.has_account(other) && other != username ==> #[trigger] s.credited(
                username,
                delta,
            ).balance_of(other) == s.balance_of(other),
{
    let i = s.index_of(username);
    let t = s.credited(username, delta);
    assert(s.account_at(username, i));
    lemma_sum_update(s.accounts, i, s.accounts[i].balance + delta);
    assert(same_names(s, t));
    assert forall|k: int| 0 <= k < t.transactions.len() implies t.record_ok(
        #[trigger] t.transactions[k],
    ) by {
        let r = s.transactions[k];
        assert(s.record_ok(r));
        let a = s.index_of(r.from_user);
        let b = s.index_of(r.to_user);
        assert(s.account_at(r.from_user, a));
        assert(s.account_at(r.to_user, b));
        assert(t.account_at(r.from_user, a));
        assert(t.account_at(r.to_user, b));
    }
    assert(t.wf());
    lemma_same_names(s, t);
    assert forall|other: Seq<char>| s.has_account(other) && other != username implies #[trigger] t.balance_of(
        other,
    ) == s.balance_of(other) by {
        let k = s.index_of(other);
        assert(s.account_at(other, k));
    }
}

/// Appending a record with a fresh identifier, a positive 32-bit amount and
/// two different existing parties keeps a ledger well formed.
pub proof fn lemma_recorded(s: LedgerView, record: TransactionView)
    requires
        s.wf(),
        s.record_ok(record),
        !s.has_record(record.transaction_id),
    ensures
        s.recorded(record).wf(),
        s.recorded(record).accounts == s.accounts,
        s.recorded(record).total() == s.total(),
{
    let t = s.recorded(record);
    assert forall|i: int, j: int| 0 <= i < j < t.transactions.len() implies t.transactions[i].transaction_id
        != t.transactions[j].transaction_id by {
        if j == s.transactions.len() {
            assert(!s.record_at(record.transaction_id, i));
        }
    }
    assert forall|k: int| 0 <= k < t.transactions.len() implies t.record_ok(
        #[trigger] t.transactions[k],
    ) by {
        let r = t.transactions[k];
        if k < s.transactions.len() {
            assert(s.record_ok(s.transactions[k]));
        }
        let a = s.index_of(r.from_user);
        let b = s.index_of(r.to_user);
        assert(s.account_at(r.from_user, a));
        assert(s.account_at(r.to_user, b));
        assert(t.account_at(r.from_user, a));
        assert(t.account_at(r.to_user, b));
    }
}

/// A transfer keeps a ledger well formed and its total unchanged, creates and
/// removes no account, and, unless it returns `Ok(true)`, changes nothing at
/// all. When it returns `Ok(true)`, the sender has `amount` less, the receiver
/// `amount` more, every other balance is as before, and the log has grown by
/// the one record of this transfer.
pub proof fn lemma_transfer(
    s: LedgerView,
    from_user: Seq<char>,
    to_user: Seq<char>,
    amount: int,
    transaction_id: u128,
    created_at: int,
)
    requires
        s.wf(),
        amount <= i32::MAX,
    ensures
        ({
            let (r, t) = transfer_result(s, from_user, to_user, amount, transaction_id, created_at);
            &&& t.wf()
            &&& t.total() == s.total()
            &&& same_names(s, t)
            &&& forall|name: Seq<char>| #[trigger] t.has_account(name) == s.has_account(name)
            &&& r != Ok::<bool, LedgerError>(true) ==> t == s
            &&& r == Ok::<bool, LedgerError>(true) ==> {
                &&& t.balance_of(from_user) == s.balance_of(from_user) - amount
                &&& t.balance_of(to_user) == s.balance_of(to_user) + amount
                &&& forall|other: Seq<char>|
                    s.has_account(other) && other != from_user && other != to_user
                        ==> #[trigger] t.balance_of(other) == s.balance_of(other)
                &&& t.transactions == s.transactions.push(
                    transfer_record(from_user, to_user, amount, transaction_id, created_at),
                )
                &&& t.accounts == s.accounts.update(
                    s.index_of(from_user),
                    with_balance(
                        s.accounts[s.index_of(from_user)],
                        s.balance_of(from_user) - amount,
                    ),
                ).update(
                    s.index_of(to_user),
                    with_balance(s.accounts[s.index_of(to_user)], s.balance_of(to_user) + amount),
                )
            }
        }),
{
    let (r, t) = transfer_result(s, from_user, to_user, amount, transaction_id, created_at);
    if r == Ok::<bool, LedgerError>(true) {
        let record = transfer_record(from_user, to_user, amount, transaction_id, created_at);
        let i = s.index_of(from_user);
        let j = s.index_of(to_user);
        assert(s.account_at(from_user, i));
        assert(s.account_at(to_user, j));
        let mid = s.credited(from_user, -amount);
        lemma_credited(s, from_user, -amount);
        lemma_same_names(s, mid);
        assert(mid.balance_of(to_user) == s.balance_of(to_user));
        let end = mid.credited(to_user, amount);
        lemma_credited(mid, to_user, amount);
        lemma_same_names(mid, end);
        assert(end.record_ok(record));
        assert(!end.has_record(transaction_id)) by {
            if end.has_record(transaction_id) {
                let k = choose|k: int| end.record_at(transaction_id, k);
                assert(s.record_at(transaction_id, k));
            }
        }
        lemma_recorded(end, record);
        assert(t == end.recorded(record));
        assert(same_names(s, t));
        lemma_same_names(s, t);
        assert(t.balance_of(from_user) == end.balance_of(from_user));
        assert(t.balance_of(to_user) == end.balance_of(to_user));
        assert forall|other: Seq<char>|
            s.has_account(other) && other != from_user && other != to_user implies #[trigger] t.balance_of(
            other,
        ) == s.balance_of(other) by {
            assert(mid.balance_of(other) == s.balance_of(other));
            assert(end.balance_of(other) == mid.balance_of(other));
        }
    } else {
        assert(same_names(s, s));
    }
}

/// In a well-formed ledger an identifier stands at one position of the log
/// only.
pub proof fn lemma_record_unique(s: LedgerView, id: u128, i: int)
    requires
        s.wf(),
        s.record_at(id, i),
    ensures
        s.has_record(id),
        s.record_of(id) == s.transactions[i],
{
    let j = choose|j: int| s.record_at(id, j);
    assert(s.record_at(id, j));
    if i < j {
        assert(s.transactions[i].transaction_id != s.transactions[j].transaction_id);
    } else if j < i {
        assert(s.transactions[j].transaction_id != s.transactions[i].transaction_id);
    }
}

/// Enrolling an account under a name that is free keeps a ledger well formed
/// and its total unchanged.
pub proof fn lemma_enrolled(s: LedgerView, username: Seq<char>, hashed_password: Seq<char>)
    requires
        s.wf(),
        !s.has_account(username),
    ensures
        s.enrolled(username, hashed_password).wf(),
        s.enrolled(username, hashed_password).total() == s.total(),
        s.enrolled(username, hashed_password).has_account(username),
        s.enrolled(username, hashed_password).balance_of(username) == 0,
{
    let t = s.enrolled(username, hashed_password);
    let account = AccountView { username, hashed_password, balance: 0 };
    lemma_sum_push(s.accounts, account);
    assert forall|i: int, j: int| 0 <= i < j < t.accounts.len() implies t.accounts[i].username
        != t.accounts[j].username by {
        if j == s.accounts.len() {
            assert(!s.account_at(username, i));
        }
    }
    assert forall|k: int| 0 <= k < t.transactions.len() implies t.record_ok(
        #[trigger] t.transactions[k],
    ) by {
        let r = s.transactions[k];
        assert(s.record_ok(r));
        let a = s.index_of(r.from_user);
        let b = s.index_of(r.to_user);
        assert(s.account_at(r.from_user, a));
        assert(s.account_at(r.to_user, b));
        assert(t.account_at(r.from_user, a));
        assert(t.account_at(r.to_user, b));
    }
    assert(t.account_at(username, s.accounts.len() as int));
    lemma_index_unique(t, username, s.accounts.len() as int);
}

/// Insufficient funds change nothing: a transfer between two different
/// existing accounts of more than the sender has returns `Ok(false)` and
/// leaves every balance and the log as they were.
pub proof fn lemma_insufficient_funds(
    s: LedgerView,
    from_user: Seq<char>,
    to_user: Seq<char>,
    amount: int,
    transaction_id: u128,
    created_at: int,
)
    requires
        s.wf(),
        s.has_account(from_user),
        s.has_account(to_user),
        from_user != to_user,
        amount > s.balance_of(from_user),
    ensures
        transfer_result(s, from_user, to_user, amount, transaction_id, created_at) == (
            Ok::<bool, LedgerError>(false),
            s,
        ),
{
    let i = s.index_of(from_user);
    assert(s.account_at(from_user, i));
    assert(0 <= s.accounts[i].balance);
}

} // verus!
