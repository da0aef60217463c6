//! What holds of every run of the ledger, stated over `step` and proved.

use crate::amount::{
    lemma_add_then_sub, lemma_round_dp_close, lemma_sub_then_add, lemma_sum_value, lemma_zero,
    spec_sum, sum_fits, whole, Amount, DISPLAY_SCALE,
};
use crate::ledger::{
    entry_of, record_key, step, within_display_rounding, LedgerView, TransactionError,
};
use crate::types::{
    Chargeback, ClientId, Deposit, Dispute, Resolve, Transaction, TransactionId, Withdrawal,
};
use vstd::prelude::*;

verus! {

/// Every amount a transaction carries is in range.
pub open spec fn transaction_wf(t: Transaction) -> bool {
    match t {
        Transaction::Deposit(d) => d.amount.wf(),
        Transaction::Withdrawal(w) => w.amount.wf(),
        _ => true,
    }
}

/// The record a transaction names exists: always for a deposit or a
/// withdrawal, the deposit for a dispute, an open dispute for a resolve or a
/// chargeback.
pub open spec fn record_found(v: LedgerView, t: Transaction) -> bool {
    match t {
        Transaction::Dispute(d) => v.deposits.contains_key(record_key(d.client, d.tx)),
        Transaction::Resolve(r) => {
            let k = record_key(r.client, r.tx);
            v.disputes.contains(k) && v.deposits.contains_key(k)
        },
        Transaction::Chargeback(c) => {
            let k = record_key(c.client, c.tx);
            v.disputes.contains(k) && v.deposits.contains_key(k)
        },
        _ => true,
    }
}

/// Every transaction keeps the ledger's state valid.
pub proof fn step_keeps_valid(v: LedgerView, t: Transaction)
    requires
        v.valid(),
        transaction_wf(t),
    ensures
        step(v, t).0.valid(),
{
    let c = t.client().0;
    let v1 = step(v, t).0;
    if v.accounts.contains_key(c) {
        let a = v.accounts[c];
        match t {
            Transaction::Deposit(d) => {
                if !a.locked && sum_fits(a.available, d.amount, false) {
                    lemma_sum_value(a.available, d.amount, false);
                }
            },
            Transaction::Withdrawal(w) => {
                if !a.locked && sum_fits(a.available, w.amount, true) {
                    lemma_sum_value(a.available, w.amount, true);
                }
            },
            Transaction::Dispute(d) => {
                let k = record_key(d.client, d.tx);
                if v.deposits.contains_key(k) {
                    let x = v.deposits[k];
                    if sum_fits(a.available, x, true) && sum_fits(
                        a.held,
                        x,
                        false,
                    ) {
                        lemma_sum_value(a.available, x, true);
                        lemma_sum_value(a.held, x, false);
                    }
                }
            },
            Transaction::Resolve(r) => {
                let k = record_key(r.client, r.tx);
                if v.deposits.contains_key(k) {
                    let x = v.deposits[k];
                    if sum_fits(a.available, x, false) && sum_fits(
                        a.held,
                        x,
                        true,
                    ) {
                        lemma_sum_value(a.available, x, false);
                        lemma_sum_value(a.held, x, true);
                    }
                }
            },
            Transaction::Chargeback(cb) => {
                let k = record_key(cb.client, cb.tx);
                if v.deposits.contains_key(k) {
                    let x = v.deposits[k];
                    if sum_fits(a.held, x, true) {
                        lemma_sum_value(a.held, x, true);
                    }
                }
            },
        }
    } else {
        lemma_zero();
        if let Transaction::Deposit(d) = t {
            if sum_fits(whole(0), d.amount, false) {
                lemma_sum_value(whole(0), d.amount, false);
            }
        }
    }
    assert forall|c2: u16| #[trigger] v1.accounts.contains_key(c2) implies v1.accounts[c2].wf()
        && v1.accounts[c2].client_id == ClientId(c2) by {
        if c2 != c {
            assert(v.accounts.contains_key(c2));
        }
    }
}

/// The state after applying `ts` in order, starting from `v`.
pub open spec fn run(v: LedgerView, ts: Seq<Transaction>) -> LedgerView
    decreases ts.len(),
{
    if ts.len() == 0 {
        v
    } else {
        run(step(v, ts[0]).0, ts.drop_first())
    }
}

/// A sequence of transactions whose amounts are in range keeps a valid state
/// valid at every point.
pub proof fn run_keeps_valid(v: LedgerView, ts: Seq<Transaction>)
    requires
        v.valid(),
        forall|i: int| 0 <= i < ts.len() ==> transaction_wf(#[trigger] ts[i]),
    ensures
        run(v, ts).valid(),
    decreases ts.len(),
{
    if ts.len() > 0 {
        step_keeps_valid(v, ts[0]);
        let rest = ts.drop_first();
        assert forall|i: int| 0 <= i < rest.len() implies transaction_wf(#[trigger] rest[i]) by {
            assert(rest[i] == ts[i + 1]);
        }
        run_keeps_valid(step(v, ts[0]).0, rest);
    }
}

/// No transaction unlocks an account or removes one.
pub proof fn lock_is_permanent(v: LedgerView, t: Transaction, c: u16)
    requires
        v.accounts.contains_key(c),
        v.accounts[c].locked,
    ensures
        step(v, t).0.accounts.contains_key(c),
        step(v, t).0.accounts[c].locked,
{
}

/// A locked account stays locked, whatever transactions follow.
pub proof fn lock_is_permanent_in_runs(v: LedgerView, ts: Seq<Transaction>, c: u16)
    requires
        v.accounts.contains_key(c),
        v.accounts[c].locked,
    ensures
        run(v, ts).accounts.contains_key(c),
        run(v, ts).accounts[c].locked,
    decreases ts.len(),
{
    if ts.len() > 0 {
        lock_is_permanent(v, ts[0], c);
        lock_is_permanent_in_runs(step(v, ts[0]).0, ts.drop_first(), c);
    }
}

/// In every valid state, and so after every transaction (`step_keeps_valid`,
/// `run_keeps_valid`),
/// each account's total is its available plus its held funds: exactly, before
/// rounding, and within half a unit of the fourth decimal place in its report.
pub proof fn balance_invariant(v: LedgerView, c: u16)
    requires
        v.valid(),
        v.accounts.contains_key(c),
        entry_of(v.accounts[c]) is Some,
    ensures
        ({
            let a = v.accounts[c];
            &&& spec_sum(a.available, a.held, false).value() == a.available.value()
                + a.held.value()
            &&& within_display_rounding(entry_of(a)->0.total, a.total_value())
            &&& within_display_rounding(entry_of(a)->0.available, a.available.value())
            &&& within_display_rounding(entry_of(a)->0.held, a.held.value())
        }),
{
    let a = v.accounts[c];
    lemma_sum_value(a.available, a.held, false);
    lemma_round_dp_close(spec_sum(a.available, a.held, false), DISPLAY_SCALE as nat);
    lemma_round_dp_close(a.available, DISPLAY_SCALE as nat);
    lemma_round_dp_close(a.held, DISPLAY_SCALE as nat);
}

/// A refused transaction leaves the whole ledger as it was: every account's
/// available and held funds and lock, every deposit record, every open dispute.
pub proof fn refused_step_changes_nothing(v: LedgerView, t: Transaction)
    requires
        step(v, t).1 is Err,
    ensures
        step(v, t).0 == v,
{
}

/// Once an account is locked, every transaction on its client is refused and
/// changes nothing; the refusal is `ClientAccountLocked` whenever the record
/// the transaction names exists, a dispute on a deposit made before the lock
/// included.
pub proof fn locked_account_is_terminal(v: LedgerView, t: Transaction)
    requires
        v.valid(),
        v.accounts.contains_key(t.client().0),
        v.accounts[t.client().0].locked,
    ensures
        step(v, t).1 is Err,
        step(v, t).0 == v,
        record_found(v, t) ==> step(v, t).1 == Err::<(), TransactionError>(
            TransactionError::ClientAccountLocked { client_id: t.client() },
        ),
{
    assert(v.accounts[t.client().0].client_id == ClientId(t.client().0));
}

/// A deposit, a dispute on it and a resolve of that dispute leave the
/// account's available and held funds worth exactly what they were worth
/// before the dispute.
pub proof fn dispute_then_resolve_restores(
    v: LedgerView,
    client: ClientId,
    tx: TransactionId,
    amount: Amount,
)
    requires
        v.valid(),
        amount.wf(),
        step(v, Transaction::Deposit(Deposit { client, tx, amount })).1 is Ok,
        step(
            step(v, Transaction::Deposit(Deposit { client, tx, amount })).0,
            Transaction::Dispute(Dispute { client, tx }),
        ).1 is Ok,
    ensures
        ({
            let v1 = step(v, Transaction::Deposit(Deposit { client, tx, amount })).0;
            let v2 = step(v1, Transaction::Dispute(Dispute { client, tx })).0;
            let (v3, r) = step(v2, Transaction::Resolve(Resolve { client, tx }));
            &&& r is Ok
            &&& v3.accounts[client.0].available.value() == v1.accounts[client.0].available.value()
            &&& v3.accounts[client.0].held.value() == v1.accounts[client.0].held.value()
            &&& v3.accounts[client.0].locked == v1.accounts[client.0].locked
        }),
{
    let t = Transaction::Deposit(Deposit { client, tx, amount });
    step_keeps_valid(v, t);
    let v1 = step(v, t).0;
    let a1 = v1.accounts[client.0];
    assert(v1.accounts.contains_key(client.0));
    assert(a1.wf());
    lemma_sub_then_add(a1.available, amount);
    lemma_add_then_sub(a1.held, amount);
}

/// A withdrawal records no deposit, so disputing its transaction id, when no
/// deposit carried that id, is refused with `DisputeFailed`.
pub proof fn withdrawal_cannot_be_disputed(v: LedgerView, w: Withdrawal)
    requires
        !v.deposits.contains_key(record_key(w.client, w.tx)),
    ensures
        !step(v, Transaction::Withdrawal(w)).0.deposits.contains_key(record_key(w.client, w.tx)),
        step(
            step(v, Transaction::Withdrawal(w)).0,
            Transaction::Dispute(Dispute { client: w.client, tx: w.tx }),
        ).1 == Err::<(), TransactionError>(
            TransactionError::DisputeFailed { client_id: w.client, transaction_id: w.tx },
        ),
{
}

/// After a successful chargeback, every later transaction on the client is
/// refused and changes nothing, with `ClientAccountLocked` whenever the record
/// it names exists. Issuing the same chargeback again finds its dispute
/// closed, and is refused with `ChargebackFailed`.
pub proof fn chargeback_is_final(v: LedgerView, cb: Chargeback, t: Transaction)
    requires
        v.valid(),
        step(v, Transaction::Chargeback(cb)).1 is Ok,
        t.client() == cb.client,
    ensures
        ({
            let v1 = step(v, Transaction::Chargeback(cb)).0;
            &&& step(v1, t).1 is Err
            &&& step(v1, t).0 == v1
            &&& record_found(v1, t) ==> step(v1, t).1 == Err::<(), TransactionError>(
                TransactionError::ClientAccountLocked { client_id: cb.client },
            )
            &&& step(v1, Transaction::Chargeback(cb)).1 == Err::<(), TransactionError>(
                TransactionError::ChargebackFailed { client_id: cb.client, transaction_id: cb.tx },
            )
        }),
{
    let c = Transaction::Chargeback(cb);
    step_keeps_valid(v, c);
    let v1 = step(v, c).0;
    assert(v1.accounts.contains_key(cb.client.0));
    locked_account_is_terminal(v1, t);
}

} // verus!
