use vstd::prelude::*;

use crate::client::ClientId;
use crate::exchange::{ExchangeError, LedgerModel, TransactionState};
use crate::transaction::{Transaction, TransactionId};

verus! {

/// The ledger after a whole sequence of transactions has been processed
/// in order, each record applied to the state the previous ones built.
pub open spec fn replay(s: LedgerModel, ts: Seq<Transaction>) -> LedgerModel
    decreases ts.len(),
{
    if ts.len() == 0 {
        s
    } else {
        replay(s.process(ts[0]).0, ts.drop_first())
    }
}

/// The funds a client controls in a ledger: available plus held, zero for
/// a client the ledger does not know.
pub open spec fn account_total(s: LedgerModel, client: ClientId) -> int {
    if s.accounts.dom().contains(client) {
        s.accounts[client].funds_available + s.accounts[client].funds_held
    } else {
        0
    }
}

/// The amount a ledger holds in dispute for `tx`, zero when `tx` is not
/// disputed there.
pub open spec fn disputed_amount(s: LedgerModel, tx: TransactionId) -> int {
    if s.transactions.dom().contains(tx) {
        match s.transactions[tx] {
            TransactionState::Disputed(a) => a as int,
            _ => 0,
        }
    } else {
        0
    }
}

/// What one record, applied to the ledger `s`, credits to `client`'s
/// funds: an accepted deposit adds its amount, an accepted withdrawal
/// subtracts its amount, an accepted chargeback removes the disputed
/// amount, and everything else moves nothing in or out.
pub open spec fn credit(s: LedgerModel, t: Transaction, client: ClientId) -> int {
    match t {
        Transaction::Deposit(c, tx, a) => if c == client && s.deposit(c, tx, a).1 is Ok {
            a as int
        } else {
            0
        },
        Transaction::Withdrawal(c, tx, a) => if c == client && s.withdraw(c, tx, a).1 is Ok {
            -(a as int)
        } else {
            0
        },
        Transaction::Chargeback(c, tx) => if c == client && s.chargeback(c, tx).1 is Ok {
            -disputed_amount(s, tx)
        } else {
            0
        },
        _ => 0,
    }
}

/// The net of everything a sequence of records credits to `client` when
/// replayed from `s`: accepted deposits, less accepted withdrawals, less
/// charged-back amounts.
pub open spec fn net_credit(s: LedgerModel, ts: Seq<Transaction>, client: ClientId) -> int
    decreases ts.len(),
{
    if ts.len() == 0 {
        0
    } else {
        credit(s, ts[0], client) + net_credit(s.process(ts[0]).0, ts.drop_first(), client)
    }
}

/// One step of the conservation law: a single record changes a client's
/// funds by exactly what it credits.
proof fn lemma_credit_step(s: LedgerModel, t: Transaction, client: ClientId)
    ensures
        account_total(s.process(t).0, client) == account_total(s, client) + credit(s, t, client),
{
}

/// Conservation of funds: replaying any sequence of transactions leaves
/// each client's available plus held funds exactly at what they were plus
/// the net of accepted deposits, accepted withdrawals and charged-back
/// amounts for that client; in particular the funds never exceed that sum.
pub proof fn lemma_conservation(s: LedgerModel, ts: Seq<Transaction>, client: ClientId)
    ensures
        account_total(replay(s, ts), client) == account_total(s, client) + net_credit(
            s,
            ts,
            client,
        ),
        account_total(replay(s, ts), client) <= account_total(s, client) + net_credit(
            s,
            ts,
            client,
        ),
    decreases ts.len(),
{
    if ts.len() == 0 {
    } else {
        lemma_credit_step(s, ts[0], client);
        lemma_conservation(s.process(ts[0]).0, ts.drop_first(), client);
    }
}

/// Conservation of funds from an empty ledger: after any sequence of
/// transactions, a client's available plus held funds equal, and so never
/// exceed, the accepted deposits less the accepted withdrawals less the
/// charged-back amounts for that client.
pub proof fn lemma_conservation_from_empty(ts: Seq<Transaction>, client: ClientId)
    ensures
        account_total(replay(LedgerModel::empty(), ts), client) == net_credit(
            LedgerModel::empty(),
            ts,
            client,
        ),
        account_total(replay(LedgerModel::empty(), ts), client) <= net_credit(
            LedgerModel::empty(),
            ts,
            client,
        ),
{
    lemma_conservation(LedgerModel::empty(), ts, client);
}

/// A transaction ID the history knows stays known through any one record.
proof fn lemma_tx_id_persists_step(s: LedgerModel, t: Transaction, tx: TransactionId)
    requires
        s.transactions.dom().contains(tx),
    ensures
        s.process(t).0.transactions.dom().contains(tx),
{
}

/// A transaction ID the history knows stays known through any replay.
pub proof fn lemma_tx_id_persists(s: LedgerModel, ts: Seq<Transaction>, tx: TransactionId)
    requires
        s.transactions.dom().contains(tx),
    ensures
        replay(s, ts).transactions.dom().contains(tx),
    decreases ts.len(),
{
    if ts.len() == 0 {
    } else {
        lemma_tx_id_persists_step(s, ts[0], tx);
        lemma_tx_id_persists(s.process(ts[0]).0, ts.drop_first(), tx);
    }
}

/// A used transaction ID, whoever the client, rejects a fresh deposit
/// outright and a fresh withdrawal one way or the other, and neither
/// attempt touches the history.
pub proof fn lemma_duplicate_tx_rejected(
    s: LedgerModel,
    client: ClientId,
    tx: TransactionId,
    amount: i64,
)
    requires
        s.transactions.dom().contains(tx),
    ensures
        s.deposit(client, tx, amount).1 == Err::<(), ExchangeError>(
            ExchangeError::TransactionAlreadyExists,
        ),
        s.deposit(client, tx, amount).0.transactions == s.transactions,
        s.withdraw(client, tx, amount).1 is Err,
        s.withdraw(client, tx, amount).0.transactions == s.transactions,
{
}

/// Once a deposit or withdrawal has used a transaction ID, every later
/// deposit or withdrawal with that ID is rejected, regardless of client
/// and however many records come between.
pub proof fn lemma_used_tx_id_always_rejected(
    s: LedgerModel,
    ts: Seq<Transaction>,
    client: ClientId,
    tx: TransactionId,
    amount: i64,
)
    requires
        s.transactions.dom().contains(tx),
    ensures
        replay(s, ts).deposit(client, tx, amount).1 == Err::<(), ExchangeError>(
            ExchangeError::TransactionAlreadyExists,
        ),
        replay(s, ts).withdraw(client, tx, amount).1 is Err,
{
    lemma_tx_id_persists(s, ts, tx);
    lemma_duplicate_tx_rejected(replay(s, ts), client, tx, amount);
}

/// A dispute followed at once by its resolve succeeds and returns the
/// named account to the exact available/held split it had immediately
/// before the dispute.
pub proof fn lemma_dispute_then_resolve_restores(
    s: LedgerModel,
    client: ClientId,
    tx: TransactionId,
)
    requires
        s.dispute(client, tx).1 is Ok,
    ensures
        ({
            let s1 = s.dispute(client, tx).0;
            let (s2, r) = s1.resolve(client, tx);
            &&& r is Ok
            &&& s2.accounts.dom().contains(client)
            &&& s2.accounts[client].funds_available == s.account_or_new(client).funds_available
            &&& s2.accounts[client].funds_held == s.account_or_new(client).funds_held
        }),
{
}

/// A dispute followed at once by its chargeback succeeds, takes exactly
/// the disputed amount out of the held funds, and locks the account.
pub proof fn lemma_dispute_then_chargeback_locks(
    s: LedgerModel,
    client: ClientId,
    tx: TransactionId,
)
    requires
        s.dispute(client, tx).1 is Ok,
    ensures
        ({
            let s1 = s.dispute(client, tx).0;
            let (s2, r) = s1.chargeback(client, tx);
            &&& r is Ok
            &&& s2.accounts.dom().contains(client)
            &&& s2.accounts[client].funds_held == s1.accounts[client].funds_held - disputed_amount(
                s1,
                tx,
            )
            &&& s2.accounts[client].locked
        }),
{
}

/// A locked account stays locked through any one record.
proof fn lemma_lock_persists_step(s: LedgerModel, t: Transaction, client: ClientId)
    requires
        s.accounts.dom().contains(client),
        s.accounts[client].locked,
    ensures
        s.process(t).0.accounts.dom().contains(client),
        s.process(t).0.accounts[client].locked,
{
}

/// Locking is permanent: once a chargeback has locked an account, no
/// sequence of further transactions unlocks it.
pub proof fn lemma_lock_is_permanent(s: LedgerModel, ts: Seq<Transaction>, client: ClientId)
    requires
        s.accounts.dom().contains(client),
        s.accounts[client].locked,
    ensures
        replay(s, ts).accounts.dom().contains(client),
        replay(s, ts).accounts[client].locked,
    decreases ts.len(),
{
    if ts.len() == 0 {
    } else {
        lemma_lock_persists_step(s, ts[0], client);
        lemma_lock_is_permanent(s.process(ts[0]).0, ts.drop_first(), client);
    }
}

/// A dispute of a transaction that is not in the completed state fails
/// with `TransactionAlreadyDisputed`, whoever the client.
pub proof fn lemma_redispute_fails(s: LedgerModel, client: ClientId, tx: TransactionId)
    requires
        s.transactions.dom().contains(tx),
        !(s.transactions[tx] is Completed),
    ensures
        s.dispute(client, tx).1 == Err::<(), ExchangeError>(
            ExchangeError::TransactionAlreadyDisputed,
        ),
{
}

/// A transaction once resolved stays resolved through any one record.
proof fn lemma_resolved_is_terminal_step(s: LedgerModel, t: Transaction, tx: TransactionId)
    requires
        s.transactions.dom().contains(tx),
        s.transactions[tx] is Resolved,
    ensures
        s.process(t).0.transactions.dom().contains(tx),
        s.process(t).0.transactions[tx] is Resolved,
{
}

/// A transaction once resolved stays resolved through any replay.
pub proof fn lemma_resolved_is_terminal(s: LedgerModel, ts: Seq<Transaction>, tx: TransactionId)
    requires
        s.transactions.dom().contains(tx),
        s.transactions[tx] is Resolved,
    ensures
        replay(s, ts).transactions.dom().contains(tx),
        replay(s, ts).transactions[tx] is Resolved,
    decreases ts.len(),
{
    if ts.len() == 0 {
    } else {
        lemma_resolved_is_terminal_step(s, ts[0], tx);
        lemma_resolved_is_terminal(s.process(ts[0]).0, ts.drop_first(), tx);
    }
}

/// After a resolve has closed a dispute, every later attempt to dispute
/// the same transaction again fails with `TransactionAlreadyDisputed`,
/// whoever asks and whatever comes between.
pub proof fn lemma_redispute_after_resolve_fails(
    s: LedgerModel,
    closer: ClientId,
    tx: TransactionId,
    ts: Seq<Transaction>,
    client: ClientId,
)
    requires
        s.resolve(closer, tx).1 is Ok,
    ensures
        replay(s.resolve(closer, tx).0, ts).dispute(client, tx).1 == Err::<(), ExchangeError>(
            ExchangeError::TransactionAlreadyDisputed,
        ),
{
    let s1 = s.resolve(closer, tx).0;
    lemma_resolved_is_terminal(s1, ts, tx);
    lemma_redispute_fails(replay(s1, ts), client, tx);
}

/// After a chargeback has closed a dispute, every later attempt to
/// dispute the same transaction again fails with
/// `TransactionAlreadyDisputed`, whoever asks and whatever comes between.
pub proof fn lemma_redispute_after_chargeback_fails(
    s: LedgerModel,
    closer: ClientId,
    tx: TransactionId,
    ts: Seq<Transaction>,
    client: ClientId,
)
    requires
        s.chargeback(closer, tx).1 is Ok,
    ensures
        replay(s.chargeback(closer, tx).0, ts).dispute(client, tx).1 == Err::<(), ExchangeError>(
            ExchangeError::TransactionAlreadyDisputed,
        ),
{
    let s1 = s.chargeback(closer, tx).0;
    lemma_resolved_is_terminal(s1, ts, tx);
    lemma_redispute_fails(replay(s1, ts), client, tx);
}

/// A resolve or chargeback of a transaction that has never been disputed
/// fails with `TransactionNotDisputed`, whoever the client.
pub proof fn lemma_close_without_dispute_fails(s: LedgerModel, client: ClientId, tx: TransactionId)
    requires
        s.transactions.dom().contains(tx),
        s.transactions[tx] is Completed,
    ensures
        s.resolve(client, tx).1 == Err::<(), ExchangeError>(ExchangeError::TransactionNotDisputed),
        s.chargeback(client, tx).1 == Err::<(), ExchangeError>(
            ExchangeError::TransactionNotDisputed,
        ),
{
}

} // verus!
