use transactions::process_transactions;
use transactions::Client;
use transactions::Funds;
use transactions::RejectionReason;
use transactions::Transaction;
use transactions::TransactionType;

fn deposit(tx_id: u32, client_id: u16, amount: u64) -> Transaction {
    Transaction::new(TransactionType::Deposit, tx_id, client_id, Some(amount))
}

fn withdrawal(tx_id: u32, client_id: u16, amount: u64) -> Transaction {
    Transaction::new(TransactionType::Withdrawal, tx_id, client_id, Some(amount))
}

fn dispute(tx_id: u32, client_id: u16) -> Transaction {
    Transaction::new(TransactionType::Dispute, tx_id, client_id, None)
}

fn resolve(tx_id: u32, client_id: u16) -> Transaction {
    Transaction::new(TransactionType::Resolve, tx_id, client_id, None)
}

fn chargeback(tx_id: u32, client_id: u16) -> Transaction {
    Transaction::new(TransactionType::Chargeback, tx_id, client_id, None)
}

// Scenario: deposit 10.0000, withdraw 3.0000, dispute the deposit (which
// drives available to -3.0000), then charge it back (held drops to zero,
// available stays at -3.0000, the account locks).
#[test]
fn scenario_dispute_drives_available_negative() {
    let mut client = Client::new(1, deposit(1, 1, 100000));
    client.handle_transaction(withdrawal(2, 1, 30000)).unwrap();
    assert_eq!(
        *client.funds(),
        Funds {
            available: 70000,
            held: 0
        }
    );

    client.handle_transaction(dispute(1, 1)).unwrap();
    assert_eq!(
        *client.funds(),
        Funds {
            available: -30000,
            held: 100000
        }
    );
    assert_eq!(
        client.get_record(1),
        vec!["1", "-3.0000", "10.0000", "7.0000", "false"]
    );

    client.handle_transaction(chargeback(1, 1)).unwrap();
    assert_eq!(
        *client.funds(),
        Funds {
            available: -30000,
            held: 0
        }
    );
    assert!(client.is_locked());
    assert_eq!(
        client.get_record(1),
        vec!["1", "-3.0000", "0.0000", "-3.0000", "true"]
    );
}

// Scenario: a dispute referencing an id with no stored transaction is
// rejected with UnknownTransaction and the funds are unchanged.
#[test]
fn scenario_unknown_dispute_changes_nothing() {
    let mut client = Client::new(1, deposit(1, 1, 15000));
    let before = *client.funds();

    let r = client.handle_transaction(dispute(7, 1));
    assert_eq!(r, Err(RejectionReason::UnknownTransaction(7)));
    assert_eq!(*client.funds(), before);
    assert!(!client.is_locked());
}

// Atomicity: each kind of rejection leaves funds and lock flag unchanged.
#[test]
fn rejected_transactions_leave_state_unchanged() {
    let mut client = Client::new(1, deposit(1, 1, 15000));
    client.handle_transaction(dispute(1, 1)).unwrap();
    let before = *client.funds();

    let stale = client.handle_transaction(deposit(1, 1, 99999));
    assert_eq!(stale, Err(RejectionReason::NonMonotonicTx(1)));
    assert_eq!(*client.funds(), before);

    let broke = client.handle_transaction(withdrawal(2, 1, 10000));
    assert_eq!(broke, Err(RejectionReason::InsufficientFunds(2)));
    assert_eq!(*client.funds(), before);

    let again = client.handle_transaction(dispute(1, 1));
    assert_eq!(again, Err(RejectionReason::AlreadyDisputed(1)));
    assert_eq!(*client.funds(), before);

    let loose = client.handle_transaction(resolve(9, 1));
    assert_eq!(loose, Err(RejectionReason::NotDisputed(9)));
    assert_eq!(*client.funds(), before);

    assert!(!client.is_locked());
}

// Once locked, every kind of transaction is rejected with AccountLocked
// and the funds never change again.
#[test]
fn locked_account_rejects_everything() {
    let mut client = Client::new(1, deposit(1, 1, 15000));
    client.handle_transaction(dispute(1, 1)).unwrap();
    client.handle_transaction(chargeback(1, 1)).unwrap();
    assert!(client.is_locked());
    let frozen = *client.funds();

    assert_eq!(
        client.handle_transaction(deposit(2, 1, 10000)),
        Err(RejectionReason::AccountLocked(2))
    );
    assert_eq!(
        client.handle_transaction(withdrawal(3, 1, 1)),
        Err(RejectionReason::AccountLocked(3))
    );
    assert_eq!(
        client.handle_transaction(dispute(1, 1)),
        Err(RejectionReason::AccountLocked(1))
    );
    assert_eq!(
        client.handle_transaction(resolve(1, 1)),
        Err(RejectionReason::AccountLocked(1))
    );
    assert_eq!(
        client.handle_transaction(chargeback(1, 1)),
        Err(RejectionReason::AccountLocked(1))
    );
    assert_eq!(*client.funds(), frozen);
}

// Round trip: dispute then resolve restores available and held exactly,
// and the transaction can be disputed again afterwards.
#[test]
fn dispute_resolve_round_trip_restores_funds() {
    let mut client = Client::new(1, deposit(1, 1, 15000));
    client.handle_transaction(deposit(2, 1, 5000)).unwrap();
    let before = *client.funds();

    client.handle_transaction(dispute(2, 1)).unwrap();
    assert_eq!(
        *client.funds(),
        Funds {
            available: 15000,
            held: 5000
        }
    );
    client.handle_transaction(resolve(2, 1)).unwrap();
    assert_eq!(*client.funds(), before);

    client.handle_transaction(dispute(2, 1)).unwrap();
    assert_eq!(
        *client.funds(),
        Funds {
            available: 15000,
            held: 5000
        }
    );
}

// A withdrawal succeeds exactly when its amount is at most the available
// balance at the moment it is applied.
#[test]
fn withdrawal_boundary_is_exact() {
    let mut client = Client::new(1, deposit(1, 1, 15000));
    assert_eq!(
        client.handle_transaction(withdrawal(2, 1, 15001)),
        Err(RejectionReason::InsufficientFunds(2))
    );
    assert_eq!(client.handle_transaction(withdrawal(3, 1, 15000)), Ok(()));
    assert_eq!(*client.funds(), Funds { available: 0, held: 0 });
}

// Deposits and withdrawals whose id equals or undercuts the high
// watermark are rejected as non-monotonic, whatever their amount; the
// reference transactions are exempt from the check.
#[test]
fn monotonicity_applies_only_to_monetary_kinds() {
    let mut client = Client::new(5, deposit(5, 1, 15000));
    assert_eq!(
        client.handle_transaction(deposit(5, 1, 1)),
        Err(RejectionReason::NonMonotonicTx(5))
    );
    assert_eq!(
        client.handle_transaction(withdrawal(4, 1, 1)),
        Err(RejectionReason::NonMonotonicTx(4))
    );
    // a dispute of the stored id 5 is fine even though 5 is not "in the future"
    assert_eq!(client.handle_transaction(dispute(5, 1)), Ok(()));
    assert_eq!(client.handle_transaction(resolve(5, 1)), Ok(()));
}

// A client whose very first transaction is a withdrawal starts with zero
// funds: the amount is not subtracted, but the id is remembered, so the
// seed withdrawal can still be disputed later.
#[test]
fn withdrawal_seed_keeps_zero_funds_but_is_recorded() {
    let mut client = Client::new(3, withdrawal(3, 1, 15000));
    assert_eq!(*client.funds(), Funds { available: 0, held: 0 });

    assert_eq!(
        client.handle_transaction(deposit(3, 1, 10000)),
        Err(RejectionReason::NonMonotonicTx(3))
    );
    assert_eq!(client.handle_transaction(dispute(3, 1)), Ok(()));
    assert_eq!(
        *client.funds(),
        Funds {
            available: -15000,
            held: 15000
        }
    );
}

// The registry routes each transaction to its client's ledger, creates
// ledgers on first sight, and keeps going past rejections.
#[test]
fn registry_routes_per_client() {
    let stream = vec![
        deposit(1, 1, 100000),
        deposit(2, 2, 20000),
        withdrawal(3, 1, 30000),
        withdrawal(4, 2, 99999999), // rejected: insufficient funds
        dispute(1, 1),
        chargeback(1, 1),
        deposit(5, 1, 70000), // rejected: account locked
        deposit(6, 2, 5000),
    ];
    let clients = process_transactions(stream).unwrap();
    assert_eq!(clients.len(), 2);

    let one = clients.get(&1).unwrap();
    assert_eq!(
        *one.funds(),
        Funds {
            available: -30000,
            held: 0
        }
    );
    assert!(one.is_locked());

    let two = clients.get(&2).unwrap();
    assert_eq!(
        *two.funds(),
        Funds {
            available: 25000,
            held: 0
        }
    );
    assert!(!two.is_locked());
}

// An empty stream yields an empty registry.
#[test]
fn registry_of_empty_stream_is_empty() {
    let clients = process_transactions(Vec::new()).unwrap();
    assert!(clients.is_empty());
}
