use vstd::prelude::*;

use std::collections::HashMap;

use crate::client::{Client, ClientId};
use crate::transaction::{Transaction, TransactionId};

verus! {

broadcast use vstd::std_specs::hash::group_hash_axioms;

/// Why the exchange rejected a transaction. A rejection is local to the
/// offending record: the ledger is left as it was, and processing can go
/// on with the next record.
#[derive(Clone, Copy, Debug, PartialEq, Eq, Structural)]
pub enum ExchangeError {
    /// A transaction already exists with that ID.
    TransactionAlreadyExists,

    /// The original transaction has already been disputed and cannot be
    /// disputed again.
    TransactionAlreadyDisputed,

    /// The original transaction has not been disputed so Resolve or
    /// Chargeback transactions are invalid.
    TransactionNotDisputed,

    /// No transaction with that ID exists.
    TransactionNotFound,

    /// The client does not have enough funds to fulfill the transaction.
    InsufficientFunds,

    /// Applying the transaction would take a fixed-point balance, or the
    /// recorded amount, outside the signed 64-bit range.
    AmountOverflow,
}

/// Used by the exchange to keep track of transaction history.
#[derive(Clone, Copy, Debug, PartialEq, Eq, Structural)]
pub enum TransactionState {
    /// The transaction has been processed. The amount is positive for a
    /// deposit and negative for a withdrawal.
    Completed(i64),

    /// The transaction has been disputed. The funds are held until the
    /// dispute is resolved.
    Disputed(i64),

    /// The transaction had a dispute that has been resolved, either by a
    /// Resolve or Chargeback transaction. It can never be disputed again.
    Resolved,
}

/// Whether a mathematical value fits a signed 64-bit balance.
pub open spec fn in_i64(x: int) -> bool {
    i64::MIN <= x <= i64::MAX
}

/// The mathematical model of an exchange: the accounts of every known
/// client, and the state of every deposit or withdrawal seen so far.
pub struct LedgerModel {
    pub accounts: Map<ClientId, Client>,
    pub transactions: Map<TransactionId, TransactionState>,
}

impl LedgerModel {
    /// The ledger with no accounts and no transaction history.
    pub open spec fn empty() -> LedgerModel {
        LedgerModel { accounts: Map::empty(), transactions: Map::empty() }
    }

    /// The account for `client`, or a zeroed one if the ledger has none.
    pub open spec fn account_or_new(self, client: ClientId) -> Client {
        if self.accounts.dom().contains(client) {
            self.accounts[client]
        } else {
            Client::zeroed()
        }
    }

    /// The ledger after the account for `client` has been created, zeroed,
    /// if it was absent. Every operation but a lookup of an unknown
    /// transaction does this first, whether or not it then succeeds.
    pub open spec fn with_account(self, client: ClientId) -> LedgerModel {
        LedgerModel {
            accounts: self.accounts.insert(client, self.account_or_new(client)),
            ..self
        }
    }

    /// A deposit of `amount` for `client` under the fresh ID `tx`: the new
    /// ledger, and the outcome. A used ID is rejected before anything else;
    /// the amount itself is not validated, so a negative deposit passes.
    pub open spec fn deposit(self, client: ClientId, tx: TransactionId, amount: i64) -> (
        LedgerModel,
        Result<(), ExchangeError>,
    ) {
        let s = self.with_account(client);
        let acct = s.accounts[client];
        if self.transactions.dom().contains(tx) {
            (s, Err(ExchangeError::TransactionAlreadyExists))
        } else if !in_i64(acct.funds_available + amount) {
            (s, Err(ExchangeError::AmountOverflow))
        } else {
            (
                LedgerModel {
                    accounts: s.accounts.insert(
                        client,
                        Client {
                            funds_available: (acct.funds_available + amount) as i64,
                            ..acct
                        },
                    ),
                    transactions: s.transactions.insert(tx, TransactionState::Completed(amount)),
                },
                Ok(()),
            )
        }
    }

    /// A withdrawal of `amount` for `client` under the fresh ID `tx`. Too
    /// large a withdrawal fails before the used-ID check; the history
    /// records the amount negated.
    pub open spec fn withdraw(self, client: ClientId, tx: TransactionId, amount: i64) -> (
        LedgerModel,
        Result<(), ExchangeError>,
    ) {
        let s = self.with_account(client);
        let acct = s.accounts[client];
        if acct.funds_available < amount {
            (s, Err(ExchangeError::InsufficientFunds))
        } else if self.transactions.dom().contains(tx) {
            (s, Err(ExchangeError::TransactionAlreadyExists))
        } else if !in_i64(0 - amount) || !in_i64(acct.funds_available - amount) {
            (s, Err(ExchangeError::AmountOverflow))
        } else {
            (
                LedgerModel {
                    accounts: s.accounts.insert(
                        client,
                        Client {
                            funds_available: (acct.funds_available - amount) as i64,
                            ..acct
                        },
                    ),
                    transactions: s.transactions.insert(
                        tx,
                        TransactionState::Completed((0 - amount) as i64),
                    ),
                },
                Ok(()),
            )
        }
    }

    /// A dispute by `client` of the completed transaction `tx`: its amount
    /// moves from available to held, and the history marks it disputed.
    /// The account mutated is the one the dispute names; nothing checks
    /// that the transaction was booked for that same client.
    pub open spec fn dispute(self, client: ClientId, tx: TransactionId) -> (
        LedgerModel,
        Result<(), ExchangeError>,
    ) {
        if !self.transactions.dom().contains(tx) {
            (self, Err(ExchangeError::TransactionNotFound))
        } else {
            let s = self.with_account(client);
            let acct = s.accounts[client];
            match self.transactions[tx] {
                TransactionState::Completed(a) => {
                    if !in_i64(acct.funds_available - a) || !in_i64(acct.funds_held + a) {
                        (s, Err(ExchangeError::AmountOverflow))
                    } else {
                        (
                            LedgerModel {
                                accounts: s.accounts.insert(
                                    client,
                                    Client {
                                        funds_available: (acct.funds_available - a) as i64,
                                        funds_held: (acct.funds_held + a) as i64,
                                        ..acct
                                    },
                                ),
                                transactions: s.transactions.insert(
                                    tx,
                                    TransactionState::Disputed(a),
                                ),
                            },
                            Ok(()),
                        )
                    }
                },
                _ => (s, Err(ExchangeError::TransactionAlreadyDisputed)),
            }
        }
    }

    /// A resolve by `client` of the disputed transaction `tx`: its amount
    /// moves back from held to available, and the dispute is closed for
    /// good.
    pub open spec fn resolve(self, client: ClientId, tx: TransactionId) -> (
        LedgerModel,
        Result<(), ExchangeError>,
    ) {
        if !self.transactions.dom().contains(tx) {
            (self, Err(ExchangeError::TransactionNotFound))
        } else {
            let s = self.with_account(client);
            let acct = s.accounts[client];
            match self.transactions[tx] {
                TransactionState::Disputed(a) => {
                    if !in_i64(acct.funds_available + a) || !in_i64(acct.funds_held - a) {
                        (s, Err(ExchangeError::AmountOverflow))
                    } else {
                        (
                            LedgerModel {
                                accounts: s.accounts.insert(
                                    client,
                                    Client {
                                        funds_available: (acct.funds_available + a) as i64,
                                        funds_held: (acct.funds_held - a) as i64,
                                        ..acct
                                    },
                                ),
                                transactions: s.transactions.insert(tx, TransactionState::Resolved),
                            },
                            Ok(()),
                        )
                    }
                },
                _ => (s, Err(ExchangeError::TransactionNotDisputed)),
            }
        }
    }

    /// A chargeback by `client` of the disputed transaction `tx`: its
    /// amount leaves the held funds for good, the dispute is closed, and
    /// the account is locked.
    pub open spec fn chargeback(self, client: ClientId, tx: TransactionId) -> (
        LedgerModel,
        Result<(), ExchangeError>,
    ) {
        if !self.transactions.dom().contains(tx) {
            (self, Err(ExchangeError::TransactionNotFound))
        } else {
            let s = self.with_account(client);
            let acct = s.accounts[client];
            match self.transactions[tx] {
                TransactionState::Disputed(a) => {
                    if !in_i64(acct.funds_held - a) {
                        (s, Err(ExchangeError::AmountOverflow))
                    } else {
                        (
                            LedgerModel {
                                accounts: s.accounts.insert(
                                    client,
                                    Client {
                                        funds_held: (acct.funds_held - a) as i64,
                                        locked: true,
                                        ..acct
                                    },
                                ),
                                transactions: s.transactions.insert(tx, TransactionState::Resolved),
                            },
                            Ok(()),
                        )
                    }
                },
                _ => (s, Err(ExchangeError::TransactionNotDisputed)),
            }
        }
    }

    /// One record applied to the ledger, dispatched on its kind.
    pub open spec fn process(self, t: Transaction) -> (LedgerModel, Result<(), ExchangeError>) {
        match t {
            Transaction::Deposit(client, tx, amount) => self.deposit(client, tx, amount),
            Transaction::Withdrawal(client, tx, amount) => self.withdraw(client, tx, amount),
            Transaction::Dispute(client, tx) => self.dispute(client, tx),
            Transaction::Resolve(client, tx) => self.resolve(client, tx),
            Transaction::Chargeback(client, tx) => self.chargeback(client, tx),
        }
    }
}

/// The exchange handles all transactions.
///
/// It keeps track of clients and transaction history. It handles deposits,
/// withdrawals, and the dispute resolution process. All actions are done
/// via transactions. Its view is the [`LedgerModel`] that every contract
/// speaks of.
pub struct Exchange {
    transactions: HashMap<TransactionId, TransactionState>,
    clients: HashMap<ClientId, Client>,
    client_ids: Vec<ClientId>,
}

impl View for Exchange {
    type V = LedgerModel;

    closed spec fn view(&self) -> LedgerModel {
        LedgerModel { accounts: self.clients@, transactions: self.transactions@ }
    }
}

impl Exchange {
    /// The exchange is well formed: the list of known client IDs carries
    /// each exactly once, and carries exactly the accounts' keys.
    pub closed spec fn wf(&self) -> bool {
        &&& self.client_ids@.no_duplicates()
        &&& forall|c: ClientId|
            #![trigger self.clients@.dom().contains(c)]
            #![trigger self.client_ids@.contains(c)]
            self.clients@.dom().contains(c) <==> self.client_ids@.contains(c)
    }

    /// Creates an empty exchange.
    pub fn new() -> (e: Exchange)
        ensures
            e@ == LedgerModel::empty(),
            e.wf(),
    {
        Exchange {
            transactions: HashMap::new(),
            clients: HashMap::new(),
            client_ids: Vec::new(),
        }
    }

    /// Returns a copy of the current account for `client`, creating a
    /// zeroed one first if the exchange has not seen that client before.
    pub fn get_or_create_account(&mut self, client: ClientId) -> (a: Client)
        requires
            old(self).wf(),
        ensures
            final(self).wf(),
            a == old(self)@.account_or_new(client),
            final(self)@ == old(self)@.with_account(client),
    {
        let existing = match self.clients.get(&client) {
            Some(a) => Some(*a),
            None => None,
        };
        match existing {
            Some(a) => {
                proof {
                    assert(self@.accounts =~= old(self)@.with_account(client).accounts);
                }
                a
            },
            None => {
                let a = Client::new();
                self.clients.insert(client, a);
                self.client_ids.push(client);
                proof {
                    let ids0 = old(self).client_ids@;
                    let ids = self.client_ids@;
                    assert(!ids0.contains(client));
                    assert forall|i: int, j: int| 0 <= i < j < ids.len() implies ids[i] != ids[j] by {
                        if j < ids0.len() {
                            assert(ids0.no_duplicates());
                        } else {
                            assert(ids[j] == client);
                            assert(ids[i] == ids0[i]);
                            assert(!ids0.contains(client));
                        }
                    }
                    assert forall|c: ClientId| self.clients@.dom().contains(c)
                        <==> #[trigger] ids.contains(c) by {
                        if c == client {
                            assert(ids[ids.len() - 1] == client);
                            assert(ids.contains(client));
                        } else {
                            assert(ids.contains(c) <==> ids0.contains(c)) by {
                                if ids.contains(c) {
                                    let k = choose|k: int| 0 <= k < ids.len() && ids[k] == c;
                                    assert(k < ids0.len());
                                    assert(ids0[k] == c);
                                }
                                if ids0.contains(c) {
                                    let k = choose|k: int| 0 <= k < ids0.len() && ids0[k] == c;
                                    assert(ids[k] == c);
                                }
                            }
                        }
                    }
                }
                a
            },
        }
    }

    /// The state recorded for the transaction `tx`, if any. No side effect.
    pub fn lookup_transaction(&self, tx: TransactionId) -> (r: Option<TransactionState>)
        ensures
            match r {
                Some(s) => self@.transactions.dom().contains(tx) && s == self@.transactions[tx],
                None => !self@.transactions.dom().contains(tx),
            },
    {
        match self.transactions.get(&tx) {
            Some(s) => Some(*s),
            None => None,
        }
    }

    /// Records `state` for the fresh ID `tx`; a used ID is refused and
    /// nothing changes.
    pub fn insert_transaction_if_absent(&mut self, tx: TransactionId, state: TransactionState) -> (r:
        Result<(), ExchangeError>)
        requires
            old(self).wf(),
        ensures
            final(self).wf(),
            old(self)@.transactions.dom().contains(tx) ==> r == Err::<(), ExchangeError>(
                ExchangeError::TransactionAlreadyExists,
            ) && final(self)@ == old(self)@,
            !old(self)@.transactions.dom().contains(tx) ==> r == Ok::<(), ExchangeError>(())
                && final(self)@ == (LedgerModel {
                transactions: old(self)@.transactions.insert(tx, state),
                ..old(self)@
            }),
    {
        if self.transactions.contains_key(&tx) {
            Err(ExchangeError::TransactionAlreadyExists)
        } else {
            self.transactions.insert(tx, state);
            Ok(())
        }
    }

    /// A copy of the account for `client`, if the exchange knows the
    /// client. No side effect.
    pub fn client(&self, client: ClientId) -> (r: Option<Client>)
        ensures
            match r {
                Some(a) => self@.accounts.dom().contains(client) && a == self@.accounts[client],
                None => !self@.accounts.dom().contains(client),
            },
    {
        match self.clients.get(&client) {
            Some(a) => Some(*a),
            None => None,
        }
    }

    /// Every known account, each exactly once, paired with its client ID.
    /// The order is not specified.
    pub fn clients(&self) -> (r: Vec<(ClientId, Client)>)
        requires
            self.wf(),
        ensures
            forall|i: int|
                0 <= i < r@.len() ==> self@.accounts.dom().contains((#[trigger] r@[i]).0)
                    && r@[i].1 == self@.accounts[r@[i].0],
            forall|c: ClientId|
                #[trigger] self@.accounts.dom().contains(c) ==> exists|i: int|
                    0 <= i < r@.len() && (#[trigger] r@[i]).0 == c,
            forall|i: int, j: int| 0 <= i < j < r@.len() ==> r@[i].0 != r@[j].0,
            r@.len() == self@.accounts.dom().len(),
    {
        let mut r: Vec<(ClientId, Client)> = Vec::new();
        let mut idx: usize = 0;
        while idx < self.client_ids.len()
            invariant
                self.wf(),
                idx <= self.client_ids.len(),
                r@.len() == idx,
                forall|i: int|
                    0 <= i < idx ==> (#[trigger] r@[i]).0 == self.client_ids@[i]
                        && self@.accounts.dom().contains(r@[i].0)
                        && r@[i].1 == self@.accounts[r@[i].0],
            decreases self.client_ids@.len() - idx,
        {
            let id = self.client_ids[idx];
            proof {
                assert(self.client_ids@[idx as int] == id);
                assert(self.client_ids@.contains(id));
            }
            let acct = match self.clients.get(&id) {
                Some(a) => *a,
                None => {
                    proof {
                        assert(false);
                    }
                    Client::new()
                },
            };
            r.push((id, acct));
            idx = idx + 1;
        }
        proof {
            assert forall|c: ClientId| #[trigger] self@.accounts.dom().contains(c)
                implies exists|i: int| 0 <= i < r@.len() && (#[trigger] r@[i]).0 == c by {
                assert(self.client_ids@.contains(c));
                let k = choose|k: int| 0 <= k < self.client_ids@.len() && self.client_ids@[k] == c;
                assert(r@[k].0 == c);
            }
            self.client_ids@.unique_seq_to_set();
            assert(self.client_ids@.to_set() =~= self@.accounts.dom());
        }
        r
    }

    /// Applies one transaction, dispatching on its kind. The outcome and
    /// the new ledger are exactly what the model's `process` says.
    pub fn process(&mut self, transaction: Transaction) -> (r: Result<(), ExchangeError>)
        requires
            old(self).wf(),
        ensures
            final(self).wf(),
            (final(self)@, r) == old(self)@.process(transaction),
    {
        match transaction {
            Transaction::Deposit(client, tx, amount) => self.deposit(tx, client, amount),
            Transaction::Withdrawal(client, tx, amount) => self.withdraw(tx, client, amount),
            Transaction::Dispute(client, tx) => self.dispute(tx, client),
            Transaction::Resolve(client, tx) => self.resolve(tx, client),
            Transaction::Chargeback(client, tx) => self.chargeback(tx, client),
        }
    }

    /// Books a deposit: see the model's `deposit` for the exact rules.
    pub fn deposit(&mut self, tx: TransactionId, client: ClientId, amount: i64) -> (r: Result<
        (),
        ExchangeError,
    >)
        requires
            old(self).wf(),
        ensures
            final(self).wf(),
            (final(self)@, r) == old(self)@.deposit(client, tx, amount),
    {
        let acct = self.get_or_create_account(client);
        if self.transactions.contains_key(&tx) {
            return Err(ExchangeError::TransactionAlreadyExists);
        }
        let funds_available = match acct.funds_available.checked_add(amount) {
            Some(v) => v,
            None => {
                return Err(ExchangeError::AmountOverflow);
            },
        };
        self.transactions.insert(tx, TransactionState::Completed(amount));
        self.clients.insert(client, Client { funds_available, ..acct });
        Ok(())
    }

    /// Books a withdrawal: see the model's `withdraw` for the exact rules.
    pub fn withdraw(&mut self, tx: TransactionId, client: ClientId, amount: i64) -> (r: Result<
        (),
        ExchangeError,
    >)
        requires
            old(self).wf(),
        ensures
            final(self).wf(),
            (final(self)@, r) == old(self)@.withdraw(client, tx, amount),
    {
        let acct = self.get_or_create_account(client);
        if acct.funds_available < amount {
            return Err(ExchangeError::InsufficientFunds);
        }
        if self.transactions.contains_key(&tx) {
            return Err(ExchangeError::TransactionAlreadyExists);
        }
        let negated = match 0i64.checked_sub(amount) {
            Some(v) => v,
            None => {
                return Err(ExchangeError::AmountOverflow);
            },
        };
        let funds_available = match acct.funds_available.checked_sub(amount) {
            Some(v) => v,
            None => {
                return Err(ExchangeError::AmountOverflow);
            },
        };
        self.transactions.insert(tx, TransactionState::Completed(negated));
        self.clients.insert(client, Client { funds_available, ..acct });
        Ok(())
    }

    /// Opens a dispute: see the model's `dispute` for the exact rules.
    pub fn dispute(&mut self, tx: TransactionId, client: ClientId) -> (r: Result<
        (),
        ExchangeError,
    >)
        requires
            old(self).wf(),
        ensures
            final(self).wf(),
            (final(self)@, r) == old(self)@.dispute(client, tx),
    {
        let state = match self.transactions.get(&tx) {
            Some(s) => *s,
            None => {
                return Err(ExchangeError::TransactionNotFound);
            },
        };
        let acct = self.get_or_create_account(client);
        let a = match state {
            TransactionState::Completed(a) => a,
            _ => {
                return Err(ExchangeError::TransactionAlreadyDisputed);
            },
        };
        let funds_available = match acct.funds_available.checked_sub(a) {
            Some(v) => v,
            None => {
                return Err(ExchangeError::AmountOverflow);
            },
        };
        let funds_held = match acct.funds_held.checked_add(a) {
            Some(v) => v,
            None => {
                return Err(ExchangeError::AmountOverflow);
            },
        };
        self.transactions.insert(tx, TransactionState::Disputed(a));
        self.clients.insert(client, Client { funds_available, funds_held, ..acct });
        Ok(())
    }

    /// Closes a dispute in the client's favor: see the model's `resolve`
    /// for the exact rules.
    pub fn resolve(&mut self, tx: TransactionId, client: ClientId) -> (r: Result<
        (),
        ExchangeError,
    >)
        requires
            old(self).wf(),
        ensures
            final(self).wf(),
            (final(self)@, r) == old(self)@.resolve(client, tx),
    {
        let state = match self.transactions.get(&tx) {
            Some(s) => *s,
            None => {
                return Err(ExchangeError::TransactionNotFound);
            },
        };
        let acct = self.get_or_create_account(client);
        let a = match state {
            TransactionState::Disputed(a) => a,
            _ => {
                return Err(ExchangeError::TransactionNotDisputed);
            },
        };
        let funds_available = match acct.funds_available.checked_add(a) {
            Some(v) => v,
            None => {
                return Err(ExchangeError::AmountOverflow);
            },
        };
        let funds_held = match acct.funds_held.checked_sub(a) {
            Some(v) => v,
            None => {
                return Err(ExchangeError::AmountOverflow);
            },
        };
        self.transactions.insert(tx, TransactionState::Resolved);
        self.clients.insert(client, Client { funds_available, funds_held, ..acct });
        Ok(())
    }

    /// Closes a dispute against the client: see the model's `chargeback`
    /// for the exact rules.
    pub fn chargeback(&mut self, tx: TransactionId, client: ClientId) -> (r: Result<
        (),
        ExchangeError,
    >)
        requires
            old(self).wf(),
        ensures
            final(self).wf(),
            (final(self)@, r) == old(self)@.chargeback(client, tx),
    {
        let state = match self.transactions.get(&tx) {
            Some(s) => *s,
            None => {
                return Err(ExchangeError::TransactionNotFound);
            },
        };
        let acct = self.get_or_create_account(client);
        let a = match state {
            TransactionState::Disputed(a) => a,
            _ => {
                return Err(ExchangeError::TransactionNotDisputed);
            },
        };
        let funds_held = match acct.funds_held.checked_sub(a) {
            Some(v) => v,
            None => {
                return Err(ExchangeError::AmountOverflow);
            },
        };
        self.transactions.insert(tx, TransactionState::Resolved);
        self.clients.insert(client, Client { funds_held, locked: true, ..acct });
        Ok(())
    }
}

} // verus!
