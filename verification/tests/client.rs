use csv_transactions::{Client, Tx, TypeTx};

/// Amounts are written as decimals with four places and counted in
/// ten-thousandths.
fn units(decimal: f64) -> i64 {
    (decimal * 10_000.0).round() as i64
}

fn balance(decimal: f64) -> i128 {
    units(decimal) as i128
}

#[test]
fn deposit() {
    let mut client = Client::new(1);
    let tx_deposit = Tx { kind: TypeTx::Deposit, client: client.acc.client, tx: 1, amount: Some(units(0.1)) };
    client.process_transaction(&tx_deposit);
    assert_eq!(client.acc.total, balance(0.1));
    assert_eq!(client.acc.held, balance(0.0));
    assert_eq!(client.acc.available, balance(0.1));
}

#[test]
fn deposit_lessthan_zero() {
    let mut client = Client::new(1);
    let tx_deposit_negative = Tx { kind: TypeTx::Deposit, client: client.acc.client, tx: 1, amount: Some(units(-0.1)) };
    client.process_transaction(&tx_deposit_negative);
    assert_eq!(client.acc.total, balance(0.0));
    assert_eq!(client.acc.held, balance(0.0));
    assert_eq!(client.acc.available, balance(0.0));
}

#[test]
fn deposit_history() {
    let mut client = Client::new(1);
    let tx_deposit = Tx { kind: TypeTx::Deposit, client: client.acc.client, tx: 1, amount: Some(units(0.1)) };
    let tx_deposit_dupl_id = Tx { kind: TypeTx::Deposit, client: client.acc.client, tx: 1, amount: Some(units(1.0)) };
    let tx_deposit_negative = Tx { kind: TypeTx::Deposit, client: client.acc.client, tx: 1, amount: Some(units(-0.1)) };
    client.process_transaction(&tx_deposit);
    client.process_transaction(&tx_deposit_negative);
    client.process_transaction(&tx_deposit_dupl_id);
    assert_eq!(client.history.len(), 1);
    assert_eq!(client.history.contains_key(&tx_deposit.tx), true);
    assert_ne!(client.history.contains_key(&tx_deposit_negative.tx), false);
}

#[test]
fn withdrawal() {
    let mut client = Client::new(1);
    client.acc.total = balance(1.0);
    client.acc.available = balance(1.0);
    let tx_withdrawal = Tx { kind: TypeTx::Withdrawal, client: client.acc.client, tx: 1, amount: Some(units(0.5)) };
    client.process_transaction(&tx_withdrawal);
    assert_eq!(client.acc.total, balance(0.5));
    assert_eq!(client.acc.held, balance(0.0));
    assert_eq!(client.acc.available, balance(0.5));
}

#[test]
fn withdrawal_precision() {
    let mut client = Client::new(1);
    client.acc.total = balance(1.0);
    client.acc.available = balance(1.0);
    let tx_withdrawal = Tx { kind: TypeTx::Withdrawal, client: client.acc.client, tx: 1, amount: Some(units(0.0001)) };
    client.process_transaction(&tx_withdrawal);
    assert_eq!(client.acc.total, balance(0.9999));
    assert_eq!(client.acc.held, balance(0.0));
    assert_eq!(client.acc.available, balance(0.9999));
}

#[test]
fn withdrawal_lessthan_zero() {
    let mut client = Client::new(1);
    client.acc.total = balance(1.0);
    client.acc.available = balance(1.0);
    let tx_withdrawal = Tx { kind: TypeTx::Withdrawal, client: client.acc.client, tx: 1, amount: Some(units(-0.5)) };
    client.process_transaction(&tx_withdrawal);
    assert_eq!(client.acc.total, balance(1.0));
    assert_eq!(client.acc.held, balance(0.0));
    assert_eq!(client.acc.available, balance(1.0));
}

#[test]
fn withdrawal_whentotal_zero() {
    let mut client = Client::new(1);
    let tx_withdrawal = Tx { kind: TypeTx::Withdrawal, client: client.acc.client, tx: 1, amount: Some(units(0.5)) };
    client.process_transaction(&tx_withdrawal);
    assert_eq!(client.acc.total, balance(0.0));
    assert_eq!(client.acc.held, balance(0.0));
    assert_eq!(client.acc.available, balance(0.0));
}

#[test]
fn dispute_transactions() {
    let mut client = Client::new(1);
    let tx_deposit = Tx { kind: TypeTx::Deposit, client: client.acc.client, tx: 1, amount: Some(units(0.5)) };
    client.process_transaction(&tx_deposit);
    client.dispute_transaction(&tx_deposit.tx);
    let tx_withdrawal = Tx { kind: TypeTx::Withdrawal, client: client.acc.client, tx: 2, amount: Some(units(0.1)) };
    client.process_transaction(&tx_deposit);
    client.dispute_transaction(&tx_withdrawal.tx);
    assert_eq!(client.get_transaction(&tx_deposit.tx).unwrap().in_dispute, true);
    assert_eq!(client.get_transaction(&tx_withdrawal.tx).is_none(), true);
    assert_eq!(client.acc.held, balance(0.5));
    assert_eq!(client.acc.available, balance(0.0));
    assert_eq!(client.acc.total, balance(0.5));
}

#[test]
fn dispute_multiple_transactions() {
    let mut client = Client::new(1);
    let tx_deposit_a = Tx { kind: TypeTx::Deposit, client: client.acc.client, tx: 1, amount: Some(units(0.5)) };
    let tx_deposit_b = Tx { kind: TypeTx::Deposit, client: client.acc.client, tx: 2, amount: Some(units(0.5)) };
    let tx_deposit_c = Tx { kind: TypeTx::Deposit, client: client.acc.client, tx: 3, amount: Some(units(0.5)) };
    client.process_transaction(&tx_deposit_a);
    client.process_transaction(&tx_deposit_b);
    client.process_transaction(&tx_deposit_c);

    client.dispute_transaction(&tx_deposit_b.tx);
    client.dispute_transaction(&tx_deposit_c.tx);

    assert_eq!(client.get_transaction(&tx_deposit_a.tx).unwrap().in_dispute, false);
    assert_eq!(client.get_transaction(&tx_deposit_b.tx).unwrap().in_dispute, true);
    assert_eq!(client.get_transaction(&tx_deposit_c.tx).unwrap().in_dispute, true);
    assert_eq!(client.acc.held, balance(1.0));
    assert_eq!(client.acc.available, balance(0.5));
    assert_eq!(client.acc.total, balance(1.5));
}

#[test]
fn resolve_transactions() {
    let mut client = Client::new(1);
    let tx_deposit = Tx { kind: TypeTx::Deposit, client: client.acc.client, tx: 1, amount: Some(units(0.5)) };
    client.process_transaction(&tx_deposit);
    client.dispute_transaction(&tx_deposit.tx);
    client.resolve_transaction(&tx_deposit.tx);
    assert_eq!(client.get_transaction(&tx_deposit.tx).unwrap().in_dispute, false);
    assert_eq!(client.acc.held, balance(0.0));
    assert_eq!(client.acc.available, balance(0.5));
    assert_eq!(client.acc.total, balance(0.5));
}

#[test]
fn chargeback_transactions() {
    let mut client = Client::new(1);
    let tx_deposit = Tx { kind: TypeTx::Deposit, client: client.acc.client, tx: 1, amount: Some(units(0.5)) };
    client.process_transaction(&tx_deposit);
    client.dispute_transaction(&tx_deposit.tx);
    client.chargeback_transaction(&tx_deposit.tx);
    assert_eq!(client.get_transaction(&tx_deposit.tx).unwrap().in_dispute, true);
    assert_eq!(client.acc.held, balance(0.0));
    assert_eq!(client.acc.available, balance(0.0));
    assert_eq!(client.acc.total, balance(0.0));
}

#[test]
fn chargeback_transaction_twice() {
    let mut client = Client::new(1);
    let tx_deposit = Tx { kind: TypeTx::Deposit, client: client.acc.client, tx: 1, amount: Some(units(0.5)) };
    client.process_transaction(&tx_deposit);
    client.dispute_transaction(&tx_deposit.tx);
    client.chargeback_transaction(&tx_deposit.tx);
    client.dispute_transaction(&tx_deposit.tx);
    client.chargeback_transaction(&tx_deposit.tx);
    assert_eq!(client.acc.held, balance(0.0));
    assert_eq!(client.acc.available, balance(0.0));
    assert_eq!(client.acc.total, balance(0.0));
}

#[test]
fn chargeback_with_disputes() {
    let mut client = Client::new(1);
    let tx_deposit = Tx { kind: TypeTx::Deposit, client: client.acc.client, tx: 1, amount: Some(units(0.5)) };
    let tx_deposit_1 = Tx { kind: TypeTx::Deposit, client: client.acc.client, tx: 2, amount: Some(units(1.0)) };
    let tx_deposit_2 = Tx { kind: TypeTx::Deposit, client: client.acc.client, tx: 3, amount: Some(units(1.0)) };
    let tx_deposit_3 = Tx { kind: TypeTx::Deposit, client: client.acc.client, tx: 4, amount: Some(units(1.0)) };

    client.process_transaction(&tx_deposit);
    client.process_transaction(&tx_deposit_1);
    client.process_transaction(&tx_deposit_2);
    client.process_transaction(&tx_deposit_3);
    client.dispute_transaction(&tx_deposit.tx);
    client.chargeback_transaction(&tx_deposit.tx);
    client.dispute_transaction(&tx_deposit_1.tx);
    client.dispute_transaction(&tx_deposit_2.tx);
    client.dispute_transaction(&tx_deposit_3.tx);

    assert_eq!(client.get_transaction(&tx_deposit_1.tx).unwrap().in_dispute, true);
    assert_eq!(client.get_transaction(&tx_deposit_2.tx).unwrap().in_dispute, true);
    assert_eq!(client.get_transaction(&tx_deposit_3.tx).unwrap().in_dispute, true);
    assert_eq!(client.acc.held, balance(3.0));
    assert_eq!(client.acc.available, balance(0.0));
    assert_eq!(client.acc.total, balance(3.0));
}

#[test]
fn missing_transactions() {
    let mut client = Client::new(1);
    let tx_deposit = Tx { kind: TypeTx::Deposit, client: client.acc.client, tx: 1, amount: Some(units(0.5)) };
    client.dispute_transaction(&tx_deposit.tx);
    client.resolve_transaction(&tx_deposit.tx);
    client.chargeback_transaction(&tx_deposit.tx);
    assert_eq!(client.history.contains_key(&tx_deposit.tx), false);
    assert_eq!(client.acc.held, balance(0.0));
    assert_eq!(client.acc.available, balance(0.0));
    assert_eq!(client.acc.total, balance(0.0));
}

#[test]
fn locked_account() {
    let mut client = Client::new(1);
    let tx_deposit = Tx { kind: TypeTx::Deposit, client: client.acc.client, tx: 1, amount: Some(units(0.5)) };
    let tx_deposit_locked = Tx { kind: TypeTx::Deposit, client: client.acc.client, tx: 2, amount: Some(units(0.5)) };
    let tx_withdrawal_locked = Tx { kind: TypeTx::Withdrawal, client: client.acc.client, tx: 2, amount: Some(units(0.5)) };
    client.process_transaction(&tx_deposit);
    client.dispute_transaction(&tx_deposit.tx);
    client.chargeback_transaction(&tx_deposit.tx);
    client.process_transaction(&tx_deposit_locked);
    client.process_transaction(&tx_withdrawal_locked);
    assert_eq!(client.acc.held, balance(0.0));
    assert_eq!(client.acc.available, balance(0.0));
    assert_eq!(client.acc.total, balance(0.0));
}

#[test]
fn locked_account_chargeback() {
    let mut client = Client::new(1);
    let tx_deposit = Tx { kind: TypeTx::Deposit, client: client.acc.client, tx: 1, amount: Some(units(0.5)) };
    let tx_deposit_chargeback = Tx { kind: TypeTx::Deposit, client: client.acc.client, tx: 2, amount: Some(units(0.5)) };
    client.process_transaction(&tx_deposit);
    client.process_transaction(&tx_deposit_chargeback);

    client.dispute_transaction(&tx_deposit.tx);
    client.chargeback_transaction(&tx_deposit.tx);

    client.dispute_transaction(&tx_deposit_chargeback.tx);
    client.chargeback_transaction(&tx_deposit_chargeback.tx);

    assert_eq!(client.acc.held, balance(0.5));
    assert_eq!(client.acc.available, balance(0.0));
    assert_eq!(client.acc.total, balance(0.5));
}
