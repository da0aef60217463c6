use payments_engine::amount::Amount;
use payments_engine::types::{
    ClientId, ParseError, Transaction, TransactionEntry, TransactionId, TransactionType,
};

#[test]
fn parser_deposit() {
    assert!(Transaction::try_from(TransactionEntry {
        transaction_type: TransactionType::Deposit,
        client: ClientId(1),
        tx: TransactionId(1),
        amount: Some(Amount::from(1)),
    })
    .is_ok());
}

#[test]
fn deposit_missing_amount() {
    assert!(matches!(
        Transaction::try_from(TransactionEntry {
            transaction_type: TransactionType::Deposit,
            client: ClientId(1),
            tx: TransactionId(1),
            amount: None,
        }),
        Err(ParseError::DepositMissing)
    ));
}

#[test]
fn parser_withdrawal() {
    assert!(Transaction::try_from(TransactionEntry {
        transaction_type: TransactionType::Withdrawal,
        client: ClientId(1),
        tx: TransactionId(1),
        amount: Some(Amount::from(1)),
    })
    .is_ok());
}

#[test]
fn withdrawal_missing_amount() {
    assert!(matches!(
        Transaction::try_from(TransactionEntry {
            transaction_type: TransactionType::Withdrawal,
            client: ClientId(1),
            tx: TransactionId(1),
            amount: None,
        }),
        Err(ParseError::WithdrawalMissing)
    ));
}

#[test]
fn parser_dispute() {
    assert!(Transaction::try_from(TransactionEntry {
        transaction_type: TransactionType::Dispute,
        client: ClientId(1),
        tx: TransactionId(1),
        amount: None,
    })
    .is_ok());
}

#[test]
fn dispute_unexpected_amount() {
    assert!(matches!(
        Transaction::try_from(TransactionEntry {
            transaction_type: TransactionType::Dispute,
            client: ClientId(1),
            tx: TransactionId(1),
            amount: Some(Amount::from(1)),
        }),
        Err(ParseError::DisputeUnexpected)
    ));
}

#[test]
fn parser_resolve() {
    assert!(Transaction::try_from(TransactionEntry {
        transaction_type: TransactionType::Resolve,
        client: ClientId(1),
        tx: TransactionId(1),
        amount: None,
    })
    .is_ok());
}

#[test]
fn resolve_unexpected_amount() {
    assert!(matches!(
        Transaction::try_from(TransactionEntry {
            transaction_type: TransactionType::Resolve,
            client: ClientId(1),
            tx: TransactionId(1),
            amount: Some(Amount::from(1)),
        }),
        Err(ParseError::ResolveUnexpected)
    ));
}

#[test]
fn parser_chargeback() {
    assert!(Transaction::try_from(TransactionEntry {
        transaction_type: TransactionType::Chargeback,
        client: ClientId(1),
        tx: TransactionId(1),
        amount: None,
    })
    .is_ok());
}

#[test]
fn chargeback_unexpected_amount() {
    assert!(matches!(
        Transaction::try_from(TransactionEntry {
            transaction_type: TransactionType::Chargeback,
            client: ClientId(1),
            tx: TransactionId(1),
            amount: Some(Amount::from(1)),
        }),
        Err(ParseError::ChargebackUnexpected)
    ));
}

#[test]
fn decode_keeps_fields() {
    let got = Transaction::try_from(TransactionEntry {
        transaction_type: TransactionType::Withdrawal,
        client: ClientId(7),
        tx: TransactionId(9),
        amount: Some(Amount::new(11864, 4)),
    })
    .unwrap();
    match got {
        Transaction::Withdrawal(w) => {
            assert_eq!(w.client, ClientId(7));
            assert_eq!(w.tx, TransactionId(9));
            assert_eq!(w.amount, Amount::new(11864, 4));
        }
        _ => panic!("expected a withdrawal"),
    }
}

#[test]
fn type_tags_ignore_case() {
    assert_eq!(
        TransactionType::from_tag("deposit"),
        Some(TransactionType::Deposit)
    );
    assert_eq!(
        TransactionType::from_tag("Withdrawal"),
        Some(TransactionType::Withdrawal)
    );
    assert_eq!(
        TransactionType::from_tag("DISPUTE"),
        Some(TransactionType::Dispute)
    );
    assert_eq!(
        TransactionType::from_tag("resolve"),
        Some(TransactionType::Resolve)
    );
    assert_eq!(
        TransactionType::from_tag("ChargeBack"),
        Some(TransactionType::Chargeback)
    );
    assert_eq!(TransactionType::from_tag("refund"), None);
    assert_eq!(TransactionType::from_tag("deposits"), None);
    assert_eq!(TransactionType::from_tag(""), None);
}
