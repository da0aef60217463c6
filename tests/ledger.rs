use payments_engine::amount::Amount;
use payments_engine::ledger::{Account, Ledger, TransactionError};
use payments_engine::types::{
    Chargeback, ClientId, Deposit, Dispute, Resolve, Transaction, TransactionId, Withdrawal,
};

#[test]
fn ledger_deposit() {
    let mut ledger = Ledger::default();
    let client_id = ClientId(1);
    let transaction_id = TransactionId(1);
    let amount = Amount::from(7);

    let transaction = Transaction::Deposit(Deposit {
        client: client_id,
        tx: transaction_id,
        amount: amount.clone(),
    });

    ledger.update(transaction).unwrap();

    // Assert client account has been created and the deposit added.
    let Account {
        available,
        held,
        locked,
        ..
    } = ledger
        .account(client_id)
        .expect("client not found in ledger");

    assert_eq!((available, held, locked), (amount, Amount::from(0), false));

    // Assert that the transaction has been stored.
    assert!(ledger.has_deposit(client_id, transaction_id));

    // Assert that there are no disputes
    assert!(ledger.no_open_disputes());
}

#[test]
fn ledger_withdrawal() {
    let mut ledger = Ledger::default();
    let client_id = ClientId(1);
    let deposit_id = TransactionId(1);
    let withdrawal_id = TransactionId(2);

    let transactions = [
        Transaction::Deposit(Deposit {
            client: client_id,
            tx: deposit_id,
            amount: Amount::from(7),
        }),
        Transaction::Withdrawal(Withdrawal {
            client: client_id,
            tx: withdrawal_id,
            amount: Amount::from(3),
        }),
    ];

    transactions
        .into_iter()
        .for_each(|transaction| ledger.update(transaction).unwrap());

    let Account {
        available,
        held,
        locked,
        ..
    } = ledger
        .account(client_id)
        .expect("client not found in ledger");

    assert_eq!(
        (available, held, locked),
        (Amount::from(4), Amount::from(0), false)
    );

    assert!(ledger.has_deposit(client_id, deposit_id));
    assert!(ledger.no_open_disputes());
}

#[test]
fn withdrawal_insufficient_funds() {
    let mut ledger = Ledger::default();
    let client_id = ClientId(1);
    let deposit_id = TransactionId(1);
    let deposit_amount = Amount::from(5);
    let withdrawal_id = TransactionId(2);
    let withdrawal_amount = Amount::from(7);

    ledger
        .update(Transaction::Deposit(Deposit {
            client: client_id,
            tx: deposit_id,
            amount: deposit_amount.clone(),
        }))
        .unwrap();

    let withdrawal_result = ledger.update(Transaction::Withdrawal(Withdrawal {
        client: client_id,
        tx: withdrawal_id,
        amount: withdrawal_amount.clone(),
    }));

    assert_eq!(
        withdrawal_result,
        Err(TransactionError::WithdrawalInsufficientFunds {
            client_id,
            available: deposit_amount.clone(),
            requested: withdrawal_amount
        })
    );

    let Account {
        available,
        held,
        locked,
        ..
    } = ledger
        .account(client_id)
        .expect("client not found in ledger");

    assert_eq!(
        (available, held, locked),
        (deposit_amount, Amount::from(0), false)
    );

    assert!(ledger.has_deposit(client_id, deposit_id));
    assert!(ledger.no_open_disputes());
}

#[test]
fn ledger_dispute() {
    let mut ledger = Ledger::default();
    let client_id = ClientId(1);
    let deposit_id_1 = TransactionId(1);
    let deposit_id_2 = TransactionId(2);
    let amount_available = Amount::from(5);
    let amount_held = Amount::from(3);

    let transactions = [
        Transaction::Deposit(Deposit {
            client: client_id,
            tx: deposit_id_1,
            amount: amount_available.clone(),
        }),
        Transaction::Deposit(Deposit {
            client: client_id,
            tx: deposit_id_2,
            amount: amount_held.clone(),
        }),
        Transaction::Dispute(Dispute {
            client: client_id,
            tx: deposit_id_2,
        }),
    ];

    transactions
        .into_iter()
        .for_each(|transaction| ledger.update(transaction).unwrap());

    let Account {
        available,
        held,
        locked,
        ..
    } = ledger
        .account(client_id)
        .expect("client not found in ledger");

    assert_eq!(
        (available, held, locked),
        (amount_available, amount_held, false)
    );

    assert!(ledger.is_disputed(client_id, deposit_id_2));
}

#[test]
fn dispute_no_transaction() {
    // If the tx specified by the dispute doesn't exist this is an error on the partner's side.
    let mut ledger = Ledger::default();
    let client_id = ClientId(1);
    let deposit_id = TransactionId(1);
    let deposit_amount = Amount::from(7);
    let dispute_id = TransactionId(2);

    ledger
        .update(Transaction::Deposit(Deposit {
            client: client_id,
            tx: deposit_id,
            amount: deposit_amount.clone(),
        }))
        .unwrap();

    let dispute_result = ledger.update(Transaction::Dispute(Dispute {
        client: client_id,
        tx: dispute_id,
    }));

    assert_eq!(
        dispute_result,
        Err(TransactionError::DisputeFailed {
            client_id: client_id,
            transaction_id: dispute_id
        })
    );

    let Account {
        available,
        held,
        locked,
        ..
    } = ledger
        .account(client_id)
        .expect("client not found in ledger");

    assert_eq!(
        (available, held, locked),
        (deposit_amount, Amount::from(0), false)
    );

    assert!(ledger.no_open_disputes());
}

#[test]
fn ledger_resolve() {
    let mut ledger = Ledger::default();
    let client_id = ClientId(1);
    let deposit_id_1 = TransactionId(1);
    let deposit_id_2 = TransactionId(2);
    let amount_1 = Amount::from(5);
    let amount_2 = Amount::from(3);

    let transactions = [
        Transaction::Deposit(Deposit {
            client: client_id,
            tx: deposit_id_1,
            amount: amount_1.clone(),
        }),
        Transaction::Deposit(Deposit {
            client: client_id,
            tx: deposit_id_2,
            amount: amount_2.clone(),
        }),
        Transaction::Dispute(Dispute {
            client: client_id,
            tx: deposit_id_2,
        }),
        Transaction::Resolve(Resolve {
            client: client_id,
            tx: deposit_id_2,
        }),
    ];

    transactions
        .into_iter()
        .for_each(|transaction| ledger.update(transaction).unwrap());

    let Account {
        available,
        held,
        locked,
        ..
    } = ledger
        .account(client_id)
        .expect("client not found in ledger");

    assert_eq!(
        (available, held, locked),
        (
            amount_1.checked_add(amount_2).unwrap(),
            Amount::from(0),
            false
        )
    );

    assert!(ledger.no_open_disputes());
}

#[test]
fn resolve_transaction_not_disputed() {
    // If the tx specified by the resolve isn't under dispute this is an error on the partner's side.
    let mut ledger = Ledger::default();
    let client_id = ClientId(1);
    let deposit_id_1 = TransactionId(1);
    let deposit_id_2 = TransactionId(2);
    let amount_1 = Amount::from(5);

    ledger
        .update(Transaction::Deposit(Deposit {
            client: client_id,
            tx: deposit_id_1,
            amount: amount_1.clone(),
        }))
        .unwrap();

    let resolve_result = ledger.update(Transaction::Resolve(Resolve {
        client: client_id,
        tx: deposit_id_2,
    }));

    assert_eq!(
        resolve_result,
        Err(TransactionError::ResolveFailed {
            client_id: client_id,
            transaction_id: deposit_id_2
        })
    );
}

#[test]
fn ledger_chargeback() {
    let mut ledger = Ledger::default();
    let client_id = ClientId(1);
    let deposit_id_1 = TransactionId(1);
    let deposit_id_2 = TransactionId(2);
    let amount_1 = Amount::from(5);
    let amount_2 = Amount::from(3);

    let transactions = [
        Transaction::Deposit(Deposit {
            client: client_id,
            tx: deposit_id_1,
            amount: amount_1.clone(),
        }),
        Transaction::Deposit(Deposit {
            client: client_id,
            tx: deposit_id_2,
            amount: amount_2.clone(),
        }),
        Transaction::Dispute(Dispute {
            client: client_id,
            tx: deposit_id_2,
        }),
        Transaction::Chargeback(Chargeback {
            client: client_id,
            tx: deposit_id_2,
        }),
    ];

    transactions
        .into_iter()
        .for_each(|transaction| ledger.update(transaction).unwrap());

    let Account {
        available,
        held,
        locked,
        ..
    } = ledger
        .account(client_id)
        .expect("client not found in ledger");

    assert_eq!((available, held, locked), (amount_1, Amount::from(0), true));

    assert!(ledger.no_open_disputes());
}

#[test]
fn chargeback_transaction_not_disputed() {
    // If the tx specified by the chargeback isn't under dispute this is an error on the partner's side.
    let mut ledger = Ledger::default();
    let client_id = ClientId(1);
    let deposit_id_1 = TransactionId(1);
    let deposit_id_2 = TransactionId(2);
    let amount_1 = Amount::from(5);

    ledger
        .update(Transaction::Deposit(Deposit {
            client: client_id,
            tx: deposit_id_1,
            amount: amount_1.clone(),
        }))
        .unwrap();

    let resolve_result = ledger.update(Transaction::Chargeback(Chargeback {
        client: client_id,
        tx: deposit_id_2,
    }));

    assert_eq!(
        resolve_result,
        Err(TransactionError::ChargebackFailed {
            client_id: client_id,
            transaction_id: deposit_id_2
        })
    );
}

#[test]
fn client_account_locked() {
    // Validate that once a client account is locked, all further transactions fail.
    let mut ledger = Ledger::default();
    let client_id = ClientId(1);
    let deposit_id_1 = TransactionId(1);

    let transactions = [
        Transaction::Deposit(Deposit {
            client: client_id,
            tx: deposit_id_1,
            amount: Amount::from(5),
        }),
        Transaction::Dispute(Dispute {
            client: client_id,
            tx: deposit_id_1,
        }),
        Transaction::Chargeback(Chargeback {
            client: client_id,
            tx: deposit_id_1,
        }),
    ];

    transactions
        .into_iter()
        .for_each(|transaction| ledger.update(transaction).unwrap());

    assert_eq!(
        ledger.update(Transaction::Deposit(Deposit {
            client: client_id,
            tx: TransactionId(2),
            amount: Amount::from(3),
        })),
        Err(TransactionError::ClientAccountLocked { client_id })
    );

    assert_eq!(
        ledger.update(Transaction::Withdrawal(Withdrawal {
            client: client_id,
            tx: TransactionId(3),
            amount: Amount::from(3),
        })),
        Err(TransactionError::ClientAccountLocked { client_id })
    );

    assert_eq!(
        ledger.update(Transaction::Dispute(Dispute {
            client: client_id,
            tx: TransactionId(1),
        })),
        Err(TransactionError::ClientAccountLocked { client_id })
    );
    assert!(ledger.no_open_disputes());
}
