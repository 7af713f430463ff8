use vstd::prelude::*;

use crate::client::ClientId;

verus! {

/// Transactions are identified by a unique 32-bit number.
pub type TransactionId = u32;

/// Represents the types of transactions (and their associated data) that
/// can be used with an Exchange.
///
/// Amounts are fixed-point: signed 64-bit counts of minor units. Only
/// deposits and withdrawals carry an amount.
#[derive(Clone, Copy, Debug, PartialEq, Eq, Structural)]
pub enum Transaction {
    Deposit(ClientId, TransactionId, i64),
    Withdrawal(ClientId, TransactionId, i64),
    Dispute(ClientId, TransactionId),
    Resolve(ClientId, TransactionId),
    Chargeback(ClientId, TransactionId),
}

/// A plain transaction row, as an external reader hands it over: the kind
/// by its lowercase name, and the amount present only when the kind calls
/// for one.
pub struct TransactionDTO {
    pub kind: String,
    pub client: ClientId,
    pub tx: TransactionId,
    pub amount: Option<i64>,
}

/// What translating a row yields: the transaction it names, or the
/// message that says why it names none.
pub open spec fn spec_translate(
    kind: Seq<char>,
    client: ClientId,
    tx: TransactionId,
    amount: Option<i64>,
) -> Result<Transaction, Seq<char>> {
    if kind == "deposit"@ {
        match amount {
            Some(a) => Ok(Transaction::Deposit(client, tx, a)),
            None => Err("missing 'amount' field"@),
        }
    } else if kind == "withdrawal"@ {
        match amount {
            Some(a) => Ok(Transaction::Withdrawal(client, tx, a)),
            None => Err("missing 'amount' field"@),
        }
    } else if kind == "dispute"@ {
        Ok(Transaction::Dispute(client, tx))
    } else if kind == "resolve"@ {
        Ok(Transaction::Resolve(client, tx))
    } else if kind == "chargeback"@ {
        Ok(Transaction::Chargeback(client, tx))
    } else {
        Err("unknown transaction type"@)
    }
}

impl TransactionDTO {
    /// Turns the row into the transaction it names, or reports in words
    /// why it names none: an unknown kind, or a missing amount where the
    /// kind requires one.
    pub fn into_transaction(self) -> (r: Result<Transaction, String>)
        ensures
            match (r, spec_translate(self.kind@, self.client, self.tx, self.amount)) {
                (Ok(t), Ok(u)) => t == u,
                (Err(e), Err(m)) => e@ == m,
                _ => false,
            },
    {
        if self.kind == "deposit".to_owned() {
            match self.amount {
                Some(a) => Ok(Transaction::Deposit(self.client, self.tx, a)),
                None => Err("missing 'amount' field".to_owned()),
            }
        } else if self.kind == "withdrawal".to_owned() {
            match self.amount {
                Some(a) => Ok(Transaction::Withdrawal(self.client, self.tx, a)),
                None => Err("missing 'amount' field".to_owned()),
            }
        } else if self.kind == "dispute".to_owned() {
            Ok(Transaction::Dispute(self.client, self.tx))
        } else if self.kind == "resolve".to_owned() {
            Ok(Transaction::Resolve(self.client, self.tx))
        } else if self.kind == "chargeback".to_owned() {
            Ok(Transaction::Chargeback(self.client, self.tx))
        } else {
            Err("unknown transaction type".to_owned())
        }
    }
}

} // verus!
