//! Identifiers, the five kinds of transaction, and the decoding of a raw
//! record into a transaction.

use crate::amount::Amount;
use vstd::prelude::*;
use vstd::string::StringSliceAdditionalSpecFns;

verus! {

/// A client, identified by a 16-bit number.
#[derive(Clone, Copy, Debug, PartialEq, Eq, Hash, Structural)]
pub struct ClientId(pub u16);

/// A transaction, identified by a 32-bit number.
#[derive(Clone, Copy, Debug, PartialEq, Eq, Hash, Structural)]
pub struct TransactionId(pub u32);

/// The kind of a raw record.
#[derive(Clone, Copy, Debug, PartialEq, Eq, Structural)]
pub enum TransactionType {
    Deposit,
    Withdrawal,
    Dispute,
    Resolve,
    Chargeback,
}

/// `b` with an ASCII capital letter turned into lower case.
pub open spec fn ascii_lower(b: u8) -> u8 {
    if 65 <= b <= 90 {
        (b + 32) as u8
    } else {
        b
    }
}

/// Whether `bytes` spell `name` (lower case), ignoring ASCII case.
pub open spec fn spells_ignoring_case(bytes: Seq<u8>, name: Seq<u8>) -> bool {
    &&& bytes.len() == name.len()
    &&& forall|i: int| 0 <= i < bytes.len() ==> ascii_lower(#[trigger] bytes[i]) == name[i]
}

/// The lower-case name of each kind of record.
pub open spec fn kind_name(t: TransactionType) -> Seq<u8> {
    match t {
        TransactionType::Deposit => seq![100u8, 101, 112, 111, 115, 105, 116],
        TransactionType::Withdrawal => seq![119u8, 105, 116, 104, 100, 114, 97, 119, 97, 108],
        TransactionType::Dispute => seq![100u8, 105, 115, 112, 117, 116, 101],
        TransactionType::Resolve => seq![114u8, 101, 115, 111, 108, 118, 101],
        TransactionType::Chargeback => seq![99u8, 104, 97, 114, 103, 101, 98, 97, 99, 107],
    }
}

fn spells_ignoring_case_exec(bytes: &[u8], name: &[u8]) -> (r: bool)
    ensures
        r == spells_ignoring_case(bytes@, name@),
{
    if bytes.len() != name.len() {
        return false;
    }
    let mut i: usize = 0;
    while i < bytes.len()
        invariant
            bytes@.len() == name@.len(),
            i <= bytes@.len(),
            forall|j: int| 0 <= j < i ==> ascii_lower(#[trigger] bytes@[j]) == name@[j],
        decreases bytes@.len() - i,
    {
        let b = bytes[i];
        let lower = if 65 <= b && b <= 90 {
            b + 32
        } else {
            b
        };
        if lower != name[i] {
            return false;
        }
        i = i + 1;
    }
    true
}

impl TransactionType {
    /// The kind whose name `tag` spells, ignoring ASCII case.
    pub fn from_tag(tag: &str) -> (r: Option<TransactionType>)
        ensures
            r matches Some(t) ==> spells_ignoring_case(tag.spec_bytes(), kind_name(t)),
            r is None ==> forall|t: TransactionType|
                !spells_ignoring_case(tag.spec_bytes(), #[trigger] kind_name(t)),
    {
        let bytes = tag.as_bytes();
        let deposit: [u8; 7] = [100, 101, 112, 111, 115, 105, 116];
        let withdrawal: [u8; 10] = [119, 105, 116, 104, 100, 114, 97, 119, 97, 108];
        let dispute: [u8; 7] = [100, 105, 115, 112, 117, 116, 101];
        let resolve: [u8; 7] = [114, 101, 115, 111, 108, 118, 101];
        let chargeback: [u8; 10] = [99, 104, 97, 114, 103, 101, 98, 97, 99, 107];
        assert(deposit@ == kind_name(TransactionType::Deposit));
        assert(withdrawal@ == kind_name(TransactionType::Withdrawal));
        assert(dispute@ == kind_name(TransactionType::Dispute));
        assert(resolve@ == kind_name(TransactionType::Resolve));
        assert(chargeback@ == kind_name(TransactionType::Chargeback));
        if spells_ignoring_case_exec(bytes, deposit.as_slice()) {
            Some(TransactionType::Deposit)
        } else if spells_ignoring_case_exec(bytes, withdrawal.as_slice()) {
            Some(TransactionType::Withdrawal)
        } else if spells_ignoring_case_exec(bytes, dispute.as_slice()) {
            Some(TransactionType::Dispute)
        } else if spells_ignoring_case_exec(bytes, resolve.as_slice()) {
            Some(TransactionType::Resolve)
        } else if spells_ignoring_case_exec(bytes, chargeback.as_slice()) {
            Some(TransactionType::Chargeback)
        } else {
            None
        }
    }
}

/// A credit of `amount` to the client's available funds.
#[derive(Clone, Copy, Debug, PartialEq)]
pub struct Deposit {
    pub client: ClientId,
    pub tx: TransactionId,
    pub amount: Amount,
}

/// A debit of `amount` from the client's available funds.
#[derive(Clone, Copy, Debug, PartialEq)]
pub struct Withdrawal {
    pub client: ClientId,
    pub tx: TransactionId,
    pub amount: Amount,
}

/// A claim that deposit `tx` of the client was erroneous.
#[derive(Clone, Copy, Debug, PartialEq, Eq, Structural)]
pub struct Dispute {
    pub client: ClientId,
    pub tx: TransactionId,
}

/// The settlement of the dispute on deposit `tx` in the client's favour.
#[derive(Clone, Copy, Debug, PartialEq, Eq, Structural)]
pub struct Resolve {
    pub client: ClientId,
    pub tx: TransactionId,
}

/// The reversal of the disputed deposit `tx`, which locks the account.
#[derive(Clone, Copy, Debug, PartialEq, Eq, Structural)]
pub struct Chargeback {
    pub client: ClientId,
    pub tx: TransactionId,
}

/// One operation on the ledger.
#[derive(Clone, Copy, Debug, PartialEq)]
pub enum Transaction {
    Deposit(Deposit),
    Withdrawal(Withdrawal),
    Dispute(Dispute),
    Resolve(Resolve),
    Chargeback(Chargeback),
}

impl Transaction {
    /// The client the transaction is about.
    pub open spec fn client(self) -> ClientId {
        match self {
            Transaction::Deposit(d) => d.client,
            Transaction::Withdrawal(w) => w.client,
            Transaction::Dispute(d) => d.client,
            Transaction::Resolve(r) => r.client,
            Transaction::Chargeback(c) => c.client,
        }
    }
}

/// A record as it is read: the amount is present for deposits and
/// withdrawals only.
#[derive(Clone, Copy, Debug)]
pub struct TransactionEntry {
    pub transaction_type: TransactionType,
    pub client: ClientId,
    pub tx: TransactionId,
    pub amount: Option<Amount>,
}

/// Why a record does not make a transaction.
#[derive(Clone, Copy, Debug, PartialEq, Eq, Structural)]
pub enum ParseError {
    DepositMissing,
    WithdrawalMissing,
    DisputeUnexpected,
    ResolveUnexpected,
    ChargebackUnexpected,
}

/// The transaction a record stands for: deposits and withdrawals need an
/// amount, and the other three kinds must not have one.
pub open spec fn decode(entry: TransactionEntry) -> Result<Transaction, ParseError> {
    let client = entry.client;
    let tx = entry.tx;
    match entry.transaction_type {
        TransactionType::Deposit => match entry.amount {
            Some(amount) => Ok(Transaction::Deposit(Deposit { client, tx, amount })),
            None => Err(ParseError::DepositMissing),
        },
        TransactionType::Withdrawal => match entry.amount {
            Some(amount) => Ok(Transaction::Withdrawal(Withdrawal { client, tx, amount })),
            None => Err(ParseError::WithdrawalMissing),
        },
        TransactionType::Dispute => if entry.amount is Some {
            Err(ParseError::DisputeUnexpected)
        } else {
            Ok(Transaction::Dispute(Dispute { client, tx }))
        },
        TransactionType::Resolve => if entry.amount is Some {
            Err(ParseError::ResolveUnexpected)
        } else {
            Ok(Transaction::Resolve(Resolve { client, tx }))
        },
        TransactionType::Chargeback => if entry.amount is Some {
            Err(ParseError::ChargebackUnexpected)
        } else {
            Ok(Transaction::Chargeback(Chargeback { client, tx }))
        },
    }
}

impl TryFrom<TransactionEntry> for Transaction {
    type Error = ParseError;

    fn try_from(entry: TransactionEntry) -> (r: Result<Transaction, ParseError>) {
        let client = entry.client;
        let tx = entry.tx;
        match entry.transaction_type {
            TransactionType::Deposit => match entry.amount {
                Some(amount) => Ok(Transaction::Deposit(Deposit { client, tx, amount })),
                None => Err(ParseError::DepositMissing),
            },
            TransactionType::Withdrawal => match entry.amount {
                Some(amount) => Ok(Transaction::Withdrawal(Withdrawal { client, tx, amount })),
                None => Err(ParseError::WithdrawalMissing),
            },
            TransactionType::Dispute => {
                if entry.amount.is_some() {
                    return Err(ParseError::DisputeUnexpected);
                }
                Ok(Transaction::Dispute(Dispute { client, tx }))
            },
            TransactionType::Resolve => {
                if entry.amount.is_some() {
                    return Err(ParseError::ResolveUnexpected);
                }
                Ok(Transaction::Resolve(Resolve { client, tx }))
            },
            TransactionType::Chargeback => {
                if entry.amount.is_some() {
                    return Err(ParseError::ChargebackUnexpected);
                }
                Ok(Transaction::Chargeback(Chargeback { client, tx }))
            },
        }
    }
}

impl vstd::std_specs::convert::TryFromSpecImpl<TransactionEntry> for Transaction {
    open spec fn obeys_try_from_spec() -> bool {
        true
    }

    open spec fn try_from_spec(entry: TransactionEntry) -> Result<Transaction, ParseError> {
        decode(entry)
    }
}

} // verus!
