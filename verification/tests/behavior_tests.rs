use exchange::client::Client;
use exchange::exchange::{Exchange, ExchangeError, TransactionState};
use exchange::transaction::{Transaction, TransactionDTO};

#[test]
fn scenario_overdraw_is_rejected_and_account_unchanged() {
    let mut exchange = Exchange::new();

    assert!(exchange
        .process(Transaction::Deposit(1, 1, 10000))
        .is_ok());
    assert_eq!(
        exchange.process(Transaction::Withdrawal(1, 2, 20000)),
        Err(ExchangeError::InsufficientFunds)
    );

    let client = exchange.client(1).unwrap();
    assert_eq!(client.funds_available, 10000);
    assert_eq!(client.funds_held, 0);
    assert_eq!(client.locked, false);
}

#[test]
fn scenario_chargeback_locks_but_a_later_deposit_still_lands() {
    let mut exchange = Exchange::new();

    assert!(exchange.process(Transaction::Deposit(1, 1, 10000)).is_ok());
    assert!(exchange.process(Transaction::Dispute(1, 1)).is_ok());
    assert!(exchange.process(Transaction::Chargeback(1, 1)).is_ok());

    let client = exchange.client(1).unwrap();
    assert_eq!(client.funds_available, 0);
    assert_eq!(client.funds_held, 0);
    assert_eq!(client.locked, true);

    assert!(exchange.process(Transaction::Deposit(1, 2, 50000)).is_ok());
    let client = exchange.client(1).unwrap();
    assert_eq!(client.funds_available, 50000);
    assert_eq!(client.locked, true);
}

#[test]
fn scenario_two_clients_final_rows() {
    let mut exchange = Exchange::new();

    assert!(exchange.process(Transaction::Deposit(1, 1, 10000)).is_ok());
    assert!(exchange.process(Transaction::Deposit(2, 2, 20000)).is_ok());
    assert!(exchange
        .process(Transaction::Withdrawal(2, 3, 10000))
        .is_ok());

    let rows = exchange.clients();
    assert_eq!(rows.len(), 2);
    for (id, client) in rows {
        assert_eq!(client.funds_available, 10000);
        assert_eq!(client.funds_held, 0);
        assert_eq!(client.funds_total(), 10000);
        assert_eq!(client.locked, false);
        assert!(id == 1 || id == 2);
    }
}

#[test]
fn conservation_holds_on_a_mixed_run() {
    let mut exchange = Exchange::new();

    // accepted: +700, -200; rejected: the overdraw; charged back: -100
    exchange.deposit(1, 7, 500).unwrap();
    exchange.deposit(2, 7, 200).unwrap();
    exchange.withdraw(3, 7, 200).unwrap();
    assert!(exchange.withdraw(4, 7, 900).is_err());
    exchange.dispute(2, 7).unwrap();
    exchange.chargeback(2, 7).unwrap();

    let client = exchange.client(7).unwrap();
    assert_eq!(client.funds_total(), 500 + 200 - 200 - 200);
}

#[test]
fn deposit_overflow_is_rejected_and_account_unchanged() {
    let mut exchange = Exchange::new();

    exchange.deposit(1, 1, i64::MAX).unwrap();
    assert_eq!(exchange.deposit(2, 1, 1), Err(ExchangeError::AmountOverflow));

    let client = exchange.client(1).unwrap();
    assert_eq!(client.funds_available, i64::MAX);
    assert_eq!(exchange.lookup_transaction(2), None);
}

#[test]
fn withdrawal_of_unnegatable_amount_is_rejected() {
    let mut exchange = Exchange::new();

    assert_eq!(
        exchange.withdraw(1, 1, i64::MIN),
        Err(ExchangeError::AmountOverflow)
    );
    assert_eq!(exchange.lookup_transaction(1), None);
    assert_eq!(exchange.client(1).unwrap(), Client::new());
}

#[test]
fn negative_deposit_is_accepted_as_is() {
    let mut exchange = Exchange::new();

    exchange.deposit(1, 1, -500).unwrap();
    assert_eq!(exchange.client(1).unwrap().funds_available, -500);
}

#[test]
fn dispute_moves_funds_on_the_account_the_dispute_names() {
    let mut exchange = Exchange::new();

    // The deposit belongs to client 1, but the dispute names client 2:
    // the rules move funds on client 2's account without a cross-check.
    exchange.deposit(1, 1, 500).unwrap();
    assert!(exchange.dispute(1, 2).is_ok());

    let owner = exchange.client(1).unwrap();
    assert_eq!(owner.funds_available, 500);
    assert_eq!(owner.funds_held, 0);

    let disputer = exchange.client(2).unwrap();
    assert_eq!(disputer.funds_available, -500);
    assert_eq!(disputer.funds_held, 500);
}

#[test]
fn resolve_restores_the_split_from_before_the_dispute() {
    let mut exchange = Exchange::new();

    exchange.deposit(1, 1, 300).unwrap();
    exchange.deposit(2, 1, 400).unwrap();
    exchange.withdraw(3, 1, 100).unwrap();
    let before = exchange.client(1).unwrap();

    exchange.dispute(2, 1).unwrap();
    exchange.resolve(2, 1).unwrap();

    let after = exchange.client(1).unwrap();
    assert_eq!(after.funds_available, before.funds_available);
    assert_eq!(after.funds_held, before.funds_held);
}

#[test]
fn disputing_a_withdrawal_returns_its_amount_to_held() {
    let mut exchange = Exchange::new();

    exchange.deposit(1, 1, 500).unwrap();
    exchange.withdraw(2, 1, 200).unwrap();
    exchange.dispute(2, 1).unwrap();

    // The withdrawal is recorded as -200, so the dispute moves -200 from
    // available to held.
    let client = exchange.client(1).unwrap();
    assert_eq!(client.funds_available, 500);
    assert_eq!(client.funds_held, -200);
}

#[test]
fn lookup_transaction_tracks_the_dispute_lifecycle() {
    let mut exchange = Exchange::new();

    assert_eq!(exchange.lookup_transaction(1), None);
    exchange.deposit(1, 1, 500).unwrap();
    assert_eq!(
        exchange.lookup_transaction(1),
        Some(TransactionState::Completed(500))
    );
    exchange.dispute(1, 1).unwrap();
    assert_eq!(
        exchange.lookup_transaction(1),
        Some(TransactionState::Disputed(500))
    );
    exchange.resolve(1, 1).unwrap();
    assert_eq!(
        exchange.lookup_transaction(1),
        Some(TransactionState::Resolved)
    );
}

#[test]
fn insert_transaction_if_absent_refuses_a_used_id() {
    let mut exchange = Exchange::new();

    assert_eq!(
        exchange.insert_transaction_if_absent(9, TransactionState::Completed(10)),
        Ok(())
    );
    assert_eq!(
        exchange.insert_transaction_if_absent(9, TransactionState::Completed(20)),
        Err(ExchangeError::TransactionAlreadyExists)
    );
    assert_eq!(
        exchange.lookup_transaction(9),
        Some(TransactionState::Completed(10))
    );
}

#[test]
fn get_or_create_account_creates_once_and_then_returns_it() {
    let mut exchange = Exchange::new();

    assert_eq!(exchange.client(3), None);
    assert_eq!(exchange.get_or_create_account(3), Client::new());
    exchange.deposit(1, 3, 700).unwrap();
    assert_eq!(exchange.get_or_create_account(3).funds_available, 700);
    assert_eq!(exchange.clients().len(), 1);
}

#[test]
fn new_client_is_zeroed_and_default_matches() {
    let client = Client::new();
    assert_eq!(client.funds_available, 0);
    assert_eq!(client.funds_held, 0);
    assert_eq!(client.locked, false);
    assert_eq!(Client::default(), client);
}

#[test]
fn funds_total_adds_available_and_held_without_wrapping() {
    let client = Client {
        funds_available: i64::MAX,
        funds_held: i64::MAX,
        locked: false,
    };
    assert_eq!(client.funds_total(), (i64::MAX as i128) * 2);

    let mut exchange = Exchange::new();
    exchange.deposit(1, 1, 300).unwrap();
    exchange.deposit(2, 1, 400).unwrap();
    exchange.dispute(1, 1).unwrap();
    assert_eq!(exchange.client(1).unwrap().funds_total(), 700);
}

#[test]
fn rows_translate_to_their_transactions() {
    let cases = [
        ("deposit", Some(25), Transaction::Deposit(1, 2, 25)),
        ("withdrawal", Some(25), Transaction::Withdrawal(1, 2, 25)),
        ("dispute", None, Transaction::Dispute(1, 2)),
        ("resolve", None, Transaction::Resolve(1, 2)),
        ("chargeback", None, Transaction::Chargeback(1, 2)),
    ];
    for (kind, amount, expected) in cases {
        let dto = TransactionDTO {
            kind: kind.to_owned(),
            client: 1,
            tx: 2,
            amount,
        };
        assert_eq!(dto.into_transaction(), Ok(expected));
    }
}

#[test]
fn rows_without_a_required_amount_are_refused() {
    for kind in ["deposit", "withdrawal"] {
        let dto = TransactionDTO {
            kind: kind.to_owned(),
            client: 1,
            tx: 2,
            amount: None,
        };
        assert_eq!(
            dto.into_transaction(),
            Err("missing 'amount' field".to_owned())
        );
    }
}

#[test]
fn rows_of_unknown_kind_are_refused() {
    let dto = TransactionDTO {
        kind: "transfer".to_owned(),
        client: 1,
        tx: 2,
        amount: Some(25),
    };
    assert_eq!(
        dto.into_transaction(),
        Err("unknown transaction type".to_owned())
    );
}
