//! Client accounts and the ledger that dispatches transactions to them.

use crate::amount::{
    abs, lemma_round_dp_close, lemma_sum_value, lemma_zero, pow10, spec_round_dp, spec_sum,
    sum_fits, whole, Amount, DISPLAY_SCALE, MAX_SCALE,
};
use crate::types::{
    Chargeback, ClientId, Deposit, Dispute, Resolve, Transaction, TransactionId, Withdrawal,
};
use std::collections::{HashMap, HashSet};
use vstd::std_specs::hash::spec_values_iter;
use vstd::std_specs::iter::IteratorSpec;
use vstd::prelude::*;

verus! {

broadcast use vstd::std_specs::hash::group_hash_axioms;

/// Why a transaction was refused. A refused transaction changes nothing.
#[derive(Clone, Copy, Debug, PartialEq)]
pub enum TransactionError {
    /// A withdrawal, dispute, resolve or chargeback named a client with no account.
    ClientDoesNotExist { client_id: ClientId },
    /// A withdrawal asked for more than the available funds.
    WithdrawalInsufficientFunds { client_id: ClientId, available: Amount, requested: Amount },
    /// A dispute named a transaction that is not a deposit of the client.
    DisputeFailed { client_id: ClientId, transaction_id: TransactionId },
    /// A resolve named a transaction that is not under dispute.
    ResolveFailed { client_id: ClientId, transaction_id: TransactionId },
    /// A chargeback named a transaction that is not under dispute.
    ChargebackFailed { client_id: ClientId, transaction_id: TransactionId },
    /// The account is locked and takes no further transaction.
    ClientAccountLocked { client_id: ClientId },
    /// A balance would leave the range that amounts can hold exactly.
    AmountOutOfRange { client_id: ClientId },
}

/// A client's account: funds available, funds held under dispute, and whether
/// a chargeback has locked it.
#[derive(Clone, Copy, Debug)]
pub struct Account {
    pub client_id: ClientId,
    pub available: Amount,
    pub held: Amount,
    pub locked: bool,
}

/// The account after a successful operation, or the error of a refused one.
pub type Outcome = Result<Account, TransactionError>;

/// The account a client's first deposit opens: empty and unlocked.
pub open spec fn fresh_account(client_id: ClientId) -> Account {
    Account { client_id, available: whole(0), held: whole(0), locked: false }
}

/// What an operation with this outcome returns.
pub open spec fn result_of(outcome: Outcome) -> Result<(), TransactionError> {
    match outcome {
        Ok(_) => Ok(()),
        Err(e) => Err(e),
    }
}

impl Account {
    /// Both balances are amounts in range.
    pub open spec fn wf(self) -> bool {
        self.available.wf() && self.held.wf()
    }

    /// The total funds, `available + held`, counted in units of `10^-28`.
    pub open spec fn total_value(self) -> int {
        self.available.value() + self.held.value()
    }

    /// What the lock check gives: the error, if the account is locked.
    pub open spec fn lock_error(self) -> TransactionError {
        TransactionError::ClientAccountLocked { client_id: self.client_id }
    }

    /// A deposit adds the amount to the available funds.
    pub open spec fn deposit_outcome(self, amount: Amount) -> Outcome {
        if self.locked {
            Err(self.lock_error())
        } else if !sum_fits(self.available, amount, false) {
            Err(TransactionError::AmountOutOfRange { client_id: self.client_id })
        } else {
            Ok(Account { available: spec_sum(self.available, amount, false), ..self })
        }
    }

    /// A withdrawal takes the amount from the available funds, if they suffice.
    pub open spec fn withdrawal_outcome(self, amount: Amount) -> Outcome {
        if self.locked {
            Err(self.lock_error())
        } else if self.available.value() < amount.value() {
            Err(
                TransactionError::WithdrawalInsufficientFunds {
                    client_id: self.client_id,
                    available: self.available,
                    requested: amount,
                },
            )
        } else if !sum_fits(self.available, amount, true) {
            Err(TransactionError::AmountOutOfRange { client_id: self.client_id })
        } else {
            Ok(Account { available: spec_sum(self.available, amount, true), ..self })
        }
    }

    /// A dispute moves the amount from the available funds to the held funds.
    pub open spec fn dispute_outcome(self, amount: Amount) -> Outcome {
        if self.locked {
            Err(self.lock_error())
        } else if !sum_fits(self.available, amount, true) || !sum_fits(self.held, amount, false) {
            Err(TransactionError::AmountOutOfRange { client_id: self.client_id })
        } else {
            Ok(
                Account {
                    available: spec_sum(self.available, amount, true),
                    held: spec_sum(self.held, amount, false),
                    ..self
                },
            )
        }
    }

    /// A resolve moves the amount from the held funds back to the available funds.
    pub open spec fn resolve_outcome(self, amount: Amount) -> Outcome {
        if self.locked {
            Err(self.lock_error())
        } else if !sum_fits(self.available, amount, false) || !sum_fits(self.held, amount, true) {
            Err(TransactionError::AmountOutOfRange { client_id: self.client_id })
        } else {
            Ok(
                Account {
                    available: spec_sum(self.available, amount, false),
                    held: spec_sum(self.held, amount, true),
                    ..self
                },
            )
        }
    }

    /// A chargeback removes the amount from the held funds and locks the account.
    pub open spec fn chargeback_outcome(self, amount: Amount) -> Outcome {
        if self.locked {
            Err(self.lock_error())
        } else if !sum_fits(self.held, amount, true) {
            Err(TransactionError::AmountOutOfRange { client_id: self.client_id })
        } else {
            Ok(Account { held: spec_sum(self.held, amount, true), locked: true, ..self })
        }
    }

    /// The account once `outcome` is applied: the new account on success,
    /// `self` unchanged on failure.
    pub open spec fn after(self, outcome: Outcome) -> Account {
        match outcome {
            Ok(a) => a,
            Err(_) => self,
        }
    }

    /// A new, empty, unlocked account.
    pub fn new(client_id: ClientId) -> (r: Account)
        ensures
            r == fresh_account(client_id),
    {
        Account { client_id, available: Amount::zero(), held: Amount::zero(), locked: false }
    }

    /// Credits `amount` to the available funds.
    pub fn deposit(&mut self, amount: Amount) -> (r: Result<(), TransactionError>)
        ensures
            *final(self) == old(self).after(old(self).deposit_outcome(amount)),
            r == result_of(old(self).deposit_outcome(amount)),
    {
        if self.locked {
            return Err(TransactionError::ClientAccountLocked { client_id: self.client_id });
        }
        match self.available.checked_add(amount) {
            Some(available) => {
                self.available = available;
                Ok(())
            },
            None => Err(TransactionError::AmountOutOfRange { client_id: self.client_id }),
        }
    }

    /// Debits `amount` from the available funds, if they suffice.
    pub fn withdrawal(&mut self, amount: Amount) -> (r: Result<(), TransactionError>)
        ensures
            *final(self) == old(self).after(old(self).withdrawal_outcome(amount)),
            r == result_of(old(self).withdrawal_outcome(amount)),
    {
        if self.locked {
            return Err(TransactionError::ClientAccountLocked { client_id: self.client_id });
        }
        if !self.available.at_least(amount) {
            return Err(
                TransactionError::WithdrawalInsufficientFunds {
                    client_id: self.client_id,
                    available: self.available,
                    requested: amount,
                },
            );
        }
        match self.available.checked_sub(amount) {
            Some(available) => {
                self.available = available;
                Ok(())
            },
            None => Err(TransactionError::AmountOutOfRange { client_id: self.client_id }),
        }
    }

    /// Moves `amount` from the available funds to the held funds. The
    /// available funds may go negative: disputes are trusted to name what was
    /// deposited.
    pub fn dispute(&mut self, amount: Amount) -> (r: Result<(), TransactionError>)
        ensures
            *final(self) == old(self).after(old(self).dispute_outcome(amount)),
            r == result_of(old(self).dispute_outcome(amount)),
    {
        if self.locked {
            return Err(TransactionError::ClientAccountLocked { client_id: self.client_id });
        }
        match (self.available.checked_sub(amount), self.held.checked_add(amount)) {
            (Some(available), Some(held)) => {
                self.available = available;
                self.held = held;
                Ok(())
            },
            _ => Err(TransactionError::AmountOutOfRange { client_id: self.client_id }),
        }
    }

    /// Moves `amount` from the held funds back to the available funds.
    pub fn resolve(&mut self, amount: Amount) -> (r: Result<(), TransactionError>)
        ensures
            *final(self) == old(self).after(old(self).resolve_outcome(amount)),
            r == result_of(old(self).resolve_outcome(amount)),
    {
        if self.locked {
            return Err(TransactionError::ClientAccountLocked { client_id: self.client_id });
        }
        match (self.available.checked_add(amount), self.held.checked_sub(amount)) {
            (Some(available), Some(held)) => {
                self.available = available;
                self.held = held;
                Ok(())
            },
            _ => Err(TransactionError::AmountOutOfRange { client_id: self.client_id }),
        }
    }

    /// Removes `amount` from the held funds and locks the account for good.
    pub fn chargeback(&mut self, amount: Amount) -> (r: Result<(), TransactionError>)
        ensures
            *final(self) == old(self).after(old(self).chargeback_outcome(amount)),
            r == result_of(old(self).chargeback_outcome(amount)),
    {
        if self.locked {
            return Err(TransactionError::ClientAccountLocked { client_id: self.client_id });
        }
        match self.held.checked_sub(amount) {
            Some(held) => {
                self.held = held;
                self.locked = true;
                Ok(())
            },
            None => Err(TransactionError::AmountOutOfRange { client_id: self.client_id }),
        }
    }
}

/// The key under which the ledger files transaction `tx` of `client`: the
/// client in the upper 32 bits, the transaction in the lower ones.
pub open spec fn record_key(client: ClientId, tx: TransactionId) -> u64 {
    (client.0 as int * 0x1_0000_0000 + tx.0 as int) as u64
}

/// `record_key`, computed.
fn record_key_exec(client: ClientId, tx: TransactionId) -> (r: u64)
    ensures
        r == record_key(client, tx),
{
    (client.0 as u64) * 0x1_0000_0000 + (tx.0 as u64)
}

/// The state of a ledger: the accounts by client, the amount of each deposit
/// by `record_key`, and the keys of the deposits under dispute.
pub struct LedgerView {
    pub accounts: Map<u16, Account>,
    pub deposits: Map<u64, Amount>,
    pub disputes: Set<u64>,
}

/// What a transaction returns, and the state it leaves.
pub type Step = (LedgerView, Result<(), TransactionError>);

impl LedgerView {
    /// Each account is filed under its own client and holds amounts in range,
    /// and so does each deposit record.
    pub open spec fn valid(self) -> bool {
        &&& forall|c: u16| #[trigger]
            self.accounts.contains_key(c) ==> self.accounts[c].wf()
                && self.accounts[c].client_id == ClientId(c)
        &&& forall|k: u64| #[trigger] self.deposits.contains_key(k) ==> self.deposits[k].wf()
    }

    /// This state with `account` filed under client `c`.
    pub open spec fn with_account(self, c: u16, account: Account) -> LedgerView {
        LedgerView { accounts: self.accounts.insert(c, account), ..self }
    }
}

/// A deposit opens the client's account if there is none, credits it, and
/// records the amount under the transaction for later disputes.
pub open spec fn step_deposit(v: LedgerView, d: Deposit) -> Step {
    let account = if v.accounts.contains_key(d.client.0) {
        v.accounts[d.client.0]
    } else {
        fresh_account(d.client)
    };
    match account.deposit_outcome(d.amount) {
        Ok(a) => (
            LedgerView {
                deposits: v.deposits.insert(record_key(d.client, d.tx), d.amount),
                ..v.with_account(d.client.0, a)
            },
            Ok(()),
        ),
        Err(e) => (v, Err(e)),
    }
}

/// A withdrawal needs an existing account.
pub open spec fn step_withdrawal(v: LedgerView, w: Withdrawal) -> Step {
    if !v.accounts.contains_key(w.client.0) {
        (v, Err(TransactionError::ClientDoesNotExist { client_id: w.client }))
    } else {
        match v.accounts[w.client.0].withdrawal_outcome(w.amount) {
            Ok(a) => (v.with_account(w.client.0, a), Ok(())),
            Err(e) => (v, Err(e)),
        }
    }
}

/// A dispute needs a recorded deposit; it holds the deposit's amount and
/// opens a dispute on it.
pub open spec fn step_dispute(v: LedgerView, d: Dispute) -> Step {
    let k = record_key(d.client, d.tx);
    if !v.deposits.contains_key(k) {
        (v, Err(TransactionError::DisputeFailed { client_id: d.client, transaction_id: d.tx }))
    } else if !v.accounts.contains_key(d.client.0) {
        (v, Err(TransactionError::ClientDoesNotExist { client_id: d.client }))
    } else {
        match v.accounts[d.client.0].dispute_outcome(v.deposits[k]) {
            Ok(a) => (
                LedgerView { disputes: v.disputes.insert(k), ..v.with_account(d.client.0, a) },
                Ok(()),
            ),
            Err(e) => (v, Err(e)),
        }
    }
}

/// A resolve needs an open dispute; it releases the held amount and closes
/// the dispute.
pub open spec fn step_resolve(v: LedgerView, r: Resolve) -> Step {
    let k = record_key(r.client, r.tx);
    if !v.disputes.contains(k) || !v.deposits.contains_key(k) {
        (v, Err(TransactionError::ResolveFailed { client_id: r.client, transaction_id: r.tx }))
    } else if !v.accounts.contains_key(r.client.0) {
        (v, Err(TransactionError::ClientDoesNotExist { client_id: r.client }))
    } else {
        match v.accounts[r.client.0].resolve_outcome(v.deposits[k]) {
            Ok(a) => (
                LedgerView { disputes: v.disputes.remove(k), ..v.with_account(r.client.0, a) },
                Ok(()),
            ),
            Err(e) => (v, Err(e)),
        }
    }
}

/// A chargeback needs an open dispute; it removes the held amount, locks the
/// account and closes the dispute.
pub open spec fn step_chargeback(v: LedgerView, c: Chargeback) -> Step {
    let k = record_key(c.client, c.tx);
    if !v.disputes.contains(k) || !v.deposits.contains_key(k) {
        (v, Err(TransactionError::ChargebackFailed { client_id: c.client, transaction_id: c.tx }))
    } else if !v.accounts.contains_key(c.client.0) {
        (v, Err(TransactionError::ClientDoesNotExist { client_id: c.client }))
    } else {
        match v.accounts[c.client.0].chargeback_outcome(v.deposits[k]) {
            Ok(a) => (
                LedgerView { disputes: v.disputes.remove(k), ..v.with_account(c.client.0, a) },
                Ok(()),
            ),
            Err(e) => (v, Err(e)),
        }
    }
}

/// The effect of one transaction on a ledger in state `v`.
pub open spec fn step(v: LedgerView, t: Transaction) -> Step {
    match t {
        Transaction::Deposit(d) => step_deposit(v, d),
        Transaction::Withdrawal(w) => step_withdrawal(v, w),
        Transaction::Dispute(d) => step_dispute(v, d),
        Transaction::Resolve(r) => step_resolve(v, r),
        Transaction::Chargeback(c) => step_chargeback(v, c),
    }
}

/// The accounts of all clients seen so far, the amount of every deposit, and
/// the deposits under dispute.
pub struct Ledger {
    clients: HashMap<u16, Account>,
    deposits: HashMap<u64, Amount>,
    disputes: HashSet<u64>,
}

impl View for Ledger {
    type V = LedgerView;

    closed spec fn view(&self) -> LedgerView {
        LedgerView { accounts: self.clients@, deposits: self.deposits@, disputes: self.disputes@ }
    }
}

impl Ledger {
    /// The ledger's state is valid (see `LedgerView::valid`).
    pub open spec fn wf(&self) -> bool {
        self@.valid()
    }

    /// An empty ledger.
    pub fn new() -> (r: Ledger)
        ensures
            r.wf(),
            r@.accounts.is_empty(),
            r@.deposits.is_empty(),
            r@.disputes.is_empty(),
    {
        Ledger { clients: HashMap::new(), deposits: HashMap::new(), disputes: HashSet::new() }
    }

    /// Applies one transaction. On an error nothing changes.
    pub fn update(&mut self, transaction: Transaction) -> (r: Result<(), TransactionError>)
        requires
            old(self).wf(),
        ensures
            final(self).wf(),
            (final(self)@, r) == step(old(self)@, transaction),
    {
        match transaction {
            Transaction::Deposit(d) => self.deposit(d),
            Transaction::Withdrawal(w) => self.withdrawal(w),
            Transaction::Dispute(d) => self.dispute(d),
            Transaction::Resolve(r) => self.resolve(r),
            Transaction::Chargeback(c) => self.chargeback(c),
        }
    }

    /// Credits the client's account, opening it if needed, and records the deposit.
    fn deposit(&mut self, d: Deposit) -> (r: Result<(), TransactionError>)
        requires
            old(self).wf(),
        ensures
            final(self).wf(),
            (final(self)@, r) == step_deposit(old(self)@, d),
    {
        let mut account = match self.clients.get(&d.client.0) {
            Some(a) => *a,
            None => Account::new(d.client),
        };
        proof {
            lemma_zero();
        }
        match account.deposit(d.amount) {
            Ok(()) => {
                proof {
                    use_type_invariant(&d.amount);
                    use_type_invariant(&account.available);
                    use_type_invariant(&account.held);
                }
                let ghost pre_accounts = self.clients@;
                assert(pre_accounts == old(self)@.accounts);
                self.clients.insert(d.client.0, account);
                assert forall|c: u16| #[trigger]
                    self@.accounts.contains_key(c) implies self@.accounts[c].wf() by {
                    if c != d.client.0 {
                        assert(pre_accounts.contains_key(c));
                    }
                }
                let key = record_key_exec(d.client, d.tx);
                let ghost pre_deposits = self.deposits@;
                assert(pre_deposits == old(self)@.deposits);
                self.deposits.insert(key, d.amount);
                assert forall|k: u64| #[trigger]
                    self@.deposits.contains_key(k) implies self@.deposits[k].wf() by {
                    if k != key {
                        assert(pre_deposits.contains_key(k));
                    }
                }
                Ok(())
            },
            Err(e) => Err(e),
        }
    }

    /// Debits an existing account.
    fn withdrawal(&mut self, w: Withdrawal) -> (r: Result<(), TransactionError>)
        requires
            old(self).wf(),
        ensures
            final(self).wf(),
            (final(self)@, r) == step_withdrawal(old(self)@, w),
    {
        let mut account = match self.clients.get(&w.client.0) {
            Some(a) => *a,
            None => return Err(TransactionError::ClientDoesNotExist { client_id: w.client }),
        };
        match account.withdrawal(w.amount) {
            Ok(()) => {
                proof {
                    use_type_invariant(&account.available);
                }
                self.clients.insert(w.client.0, account);
                Ok(())
            },
            Err(e) => Err(e),
        }
    }

    /// Holds the amount of a recorded deposit and opens a dispute on it.
    fn dispute(&mut self, d: Dispute) -> (r: Result<(), TransactionError>)
        requires
            old(self).wf(),
        ensures
            final(self).wf(),
            (final(self)@, r) == step_dispute(old(self)@, d),
    {
        let k = record_key_exec(d.client, d.tx);
        let amount = match self.deposits.get(&k) {
            Some(a) => *a,
            None => {
                return Err(
                    TransactionError::DisputeFailed { client_id: d.client, transaction_id: d.tx },
                )
            },
        };
        let mut account = match self.clients.get(&d.client.0) {
            Some(a) => *a,
            None => return Err(TransactionError::ClientDoesNotExist { client_id: d.client }),
        };
        match account.dispute(amount) {
            Ok(()) => {
                proof {
                    use_type_invariant(&account.available);
                    use_type_invariant(&account.held);
                }
                self.clients.insert(d.client.0, account);
                self.disputes.insert(k);
                Ok(())
            },
            Err(e) => Err(e),
        }
    }

    /// Releases the amount of a disputed deposit and closes the dispute.
    fn resolve(&mut self, r: Resolve) -> (res: Result<(), TransactionError>)
        requires
            old(self).wf(),
        ensures
            final(self).wf(),
            (final(self)@, res) == step_resolve(old(self)@, r),
    {
        let k = record_key_exec(r.client, r.tx);
        if !self.disputes.contains(&k) {
            return Err(TransactionError::ResolveFailed { client_id: r.client, transaction_id: r.tx });
        }
        let amount = match self.deposits.get(&k) {
            Some(a) => *a,
            None => {
                return Err(
                    TransactionError::ResolveFailed { client_id: r.client, transaction_id: r.tx },
                )
            },
        };
        let mut account = match self.clients.get(&r.client.0) {
            Some(a) => *a,
            None => return Err(TransactionError::ClientDoesNotExist { client_id: r.client }),
        };
        match account.resolve(amount) {
            Ok(()) => {
                proof {
                    use_type_invariant(&account.available);
                    use_type_invariant(&account.held);
                }
                self.clients.insert(r.client.0, account);
                self.disputes.remove(&k);
                Ok(())
            },
            Err(e) => Err(e),
        }
    }

    /// Reverses a disputed deposit, locks the account and closes the dispute.
    fn chargeback(&mut self, c: Chargeback) -> (r: Result<(), TransactionError>)
        requires
            old(self).wf(),
        ensures
            final(self).wf(),
            (final(self)@, r) == step_chargeback(old(self)@, c),
    {
        let k = record_key_exec(c.client, c.tx);
        if !self.disputes.contains(&k) {
            return Err(
                TransactionError::ChargebackFailed { client_id: c.client, transaction_id: c.tx },
            );
        }
        let amount = match self.deposits.get(&k) {
            Some(a) => *a,
            None => {
                return Err(
                    TransactionError::ChargebackFailed { client_id: c.client, transaction_id: c.tx },
                )
            },
        };
        let mut account = match self.clients.get(&c.client.0) {
            Some(a) => *a,
            None => return Err(TransactionError::ClientDoesNotExist { client_id: c.client }),
        };
        match account.chargeback(amount) {
            Ok(()) => {
                proof {
                    use_type_invariant(&account.held);
                }
                self.clients.insert(c.client.0, account);
                self.disputes.remove(&k);
                Ok(())
            },
            Err(e) => Err(e),
        }
    }
}

/// An account as it is reported: balances rounded to four decimal places,
/// ties to even, and the total rounded from the exact sum.
#[derive(Clone, Copy, Debug)]
pub struct LedgerEntry {
    pub client: ClientId,
    pub available: Amount,
    pub held: Amount,
    pub total: Amount,
    pub locked: bool,
}

/// The report of `account`, where its total `available + held` can be held exactly.
pub open spec fn entry_of(account: Account) -> Option<LedgerEntry> {
    if sum_fits(account.available, account.held, false) {
        Some(
            LedgerEntry {
                client: account.client_id,
                available: spec_round_dp(account.available, DISPLAY_SCALE as nat),
                held: spec_round_dp(account.held, DISPLAY_SCALE as nat),
                total: spec_round_dp(
                    spec_sum(account.available, account.held, false),
                    DISPLAY_SCALE as nat,
                ),
                locked: account.locked,
            },
        )
    } else {
        None
    }
}

impl Account {
    /// The total funds, `available + held`, exactly; `None` where that sum
    /// does not fit in an amount.
    pub fn total(&self) -> (r: Option<Amount>)
        ensures
            r is Some <==> sum_fits(self.available, self.held, false),
            r matches Some(t) ==> t == spec_sum(self.available, self.held, false) && t.value()
                == self.total_value(),
    {
        self.available.checked_add(self.held)
    }
}

/// `rounded` is within half a unit of the fourth decimal place of `exact`
/// (a value in units of `10^-28`).
pub open spec fn within_display_rounding(rounded: Amount, exact: int) -> bool {
    2 * abs(rounded.value() - exact) <= pow10((MAX_SCALE - DISPLAY_SCALE) as nat)
}

impl LedgerEntry {
    /// The report of `account`; `None` where its total does not fit in an
    /// amount. Each reported figure is within half a unit of the fourth
    /// decimal place of the exact one, and the total stands for exactly
    /// `available + held`.
    pub fn from_account(account: &Account) -> (r: Option<LedgerEntry>)
        ensures
            r == entry_of(*account),
            r matches Some(e) ==> within_display_rounding(e.available, account.available.value()),
            r matches Some(e) ==> within_display_rounding(e.held, account.held.value()),
            r matches Some(e) ==> within_display_rounding(e.total, account.total_value()),
    {
        proof {
            use_type_invariant(&account.available);
            use_type_invariant(&account.held);
            lemma_round_dp_close(account.available, DISPLAY_SCALE as nat);
            lemma_round_dp_close(account.held, DISPLAY_SCALE as nat);
            if sum_fits(account.available, account.held, false) {
                lemma_sum_value(account.available, account.held, false);
                lemma_round_dp_close(
                    spec_sum(account.available, account.held, false),
                    DISPLAY_SCALE as nat,
                );
            }
        }
        match account.total() {
            Some(total) => Some(
                LedgerEntry {
                    client: account.client_id,
                    available: account.available.round_dp(DISPLAY_SCALE),
                    held: account.held.round_dp(DISPLAY_SCALE),
                    total: total.round_dp(DISPLAY_SCALE),
                    locked: account.locked,
                },
            ),
            None => None,
        }
    }
}

impl Ledger {
    /// The account of `client`, if the client has made a deposit.
    pub fn account(&self, client: ClientId) -> (r: Option<Account>)
        ensures
            r == if self@.accounts.contains_key(client.0) {
                Some(self@.accounts[client.0])
            } else {
                None::<Account>
            },
    {
        match self.clients.get(&client.0) {
            Some(a) => Some(*a),
            None => None,
        }
    }

    /// Whether a deposit `tx` of `client` is on record.
    pub fn has_deposit(&self, client: ClientId, tx: TransactionId) -> (r: bool)
        ensures
            r == self@.deposits.contains_key(record_key(client, tx)),
    {
        self.deposits.contains_key(&record_key_exec(client, tx))
    }

    /// Whether deposit `tx` of `client` is under dispute.
    pub fn is_disputed(&self, client: ClientId, tx: TransactionId) -> (r: bool)
        ensures
            r == self@.disputes.contains(record_key(client, tx)),
    {
        self.disputes.contains(&record_key_exec(client, tx))
    }

    /// Whether no dispute is open.
    pub fn no_open_disputes(&self) -> (r: bool)
        ensures
            r == self@.disputes.is_empty(),
    {
        self.disputes.is_empty()
    }

    /// The report of every account, in no particular order; the error names
    /// an account whose total does not fit in an amount.
    pub fn entries(&self) -> (r: Result<Vec<LedgerEntry>, TransactionError>)
        requires
            self.wf(),
        ensures
            r is Ok <==> self@.all_totals_fit(),
            r matches Ok(es) ==> self@.reported_by(es@),
            r matches Err(e) ==> self@.total_overflows(e),
    {
        let mut out: Vec<LedgerEntry> = Vec::new();
        let ghost m = self@.accounts;
        let ghost vals = spec_values_iter(&self.clients).remaining();
        proof {
            assert(vals.unref().to_set() == m.values());
        }
        for a in it: self.clients.values()
            invariant
                self.wf(),
                m == self@.accounts,
                it.seq() == vals,
                vals.unref().to_set() == m.values(),
                vals.len() == m.dom().len(),
                out.len() == it.index(),
                reports_each(it.seq(), out@),
        {
            match LedgerEntry::from_account(a) {
                Some(e) => out.push(e),
                None => {
                    proof {
                        let i = it.index();
                        assert(vals.unref()[i] == *a);
                        assert(vals.unref().to_set().contains(*a));
                        let c = choose|c: u16| m.contains_key(c) && m[c] == *a;
                        assert(m.contains_key(c) && entry_of(m[c]) is None);
                        assert(m[c].client_id == ClientId(c));
                    }
                    return Err(TransactionError::AmountOutOfRange { client_id: a.client_id });
                },
            }
        }
        proof {
            assert forall|i: int| 0 <= i < out.len() implies #[trigger] self@.reports_an_account(
                out@[i],
            ) by {
                assert(vals.unref()[i] == *vals[i]);
                assert(vals.unref().to_set().contains(*vals[i]));
            }
            assert forall|c: u16| #[trigger] m.contains_key(c) implies exists|i: int|
                0 <= i < out.len() && entry_of(m[c]) == Some(#[trigger] out@[i]) by {
                assert(m.values().contains(m[c]));
                assert(vals.unref().to_set().contains(m[c]));
                let i = choose|i: int| 0 <= i < vals.unref().len() && vals.unref()[i] == m[c];
                assert(entry_of(*vals[i]) == Some(out@[i]));
            }
            assert(out@.len() == m.dom().len());
            assert(self@.reported_by(out@));
        }
        Ok(out)
    }
}

/// Entry `j` of `out` is the report of the `j`-th account of `accounts`.
pub open spec fn reports_each(accounts: Seq<&Account>, out: Seq<LedgerEntry>) -> bool {
    forall|j: int| 0 <= j < out.len() ==> entry_of(*accounts[j]) == Some(#[trigger] out[j])
}

impl LedgerView {
    /// Every account's total fits in an amount.
    pub open spec fn all_totals_fit(self) -> bool {
        forall|c: u16| #[trigger]
            self.accounts.contains_key(c) ==> entry_of(self.accounts[c]) is Some
    }

    /// `es` holds one report per account: each entry reports some account, and
    /// each account is reported.
    pub open spec fn reported_by(self, es: Seq<LedgerEntry>) -> bool {
        &&& es.len() == self.accounts.dom().len()
        &&& forall|i: int| 0 <= i < es.len() ==> #[trigger] self.reports_an_account(es[i])
        &&& forall|c: u16| #[trigger]
            self.accounts.contains_key(c) ==> exists|i: int|
                0 <= i < es.len() && entry_of(self.accounts[c]) == Some(#[trigger] es[i])
    }

    /// `e` is the report of some account.
    pub open spec fn reports_an_account(self, e: LedgerEntry) -> bool {
        exists|c: u16| #[trigger]
            self.accounts.contains_key(c) && entry_of(self.accounts[c]) == Some(e)
    }

    /// `e` names an account of this ledger whose total does not fit.
    pub open spec fn total_overflows(self, e: TransactionError) -> bool {
        exists|c: u16| #[trigger]
            self.accounts.contains_key(c) && entry_of(self.accounts[c]) is None && e
                == TransactionError::AmountOutOfRange { client_id: ClientId(c) }
    }
}

impl Default for Ledger {
    /// An empty ledger.
    fn default() -> (r: Ledger)
        ensures
            r.wf(),
            r@.accounts.is_empty(),
            r@.deposits.is_empty(),
            r@.disputes.is_empty(),
    {
        Ledger::new()
    }
}

} // verus!
