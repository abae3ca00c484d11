use vstd::prelude::*;

use crate::model::LedgerModel;
use crate::model::RejectionReason;
use crate::model::spec_apply;
use crate::model::spec_apply_seq;
use crate::model::spec_new;
use crate::transaction::Transaction;

verus! {

/// The total is a derived quantity, never stored: at every observable
/// point — after construction and after every accepted or rejected
/// transaction — it is exactly available plus held. (The report renders
/// all three from the same two balances, see `Client::get_record`.)
pub proof fn lemma_total_is_derived(m: LedgerModel, tx: Transaction)
    ensures
        spec_new(tx).total() == spec_new(tx).available + spec_new(tx).held,
        spec_apply(m, tx).0.total() == spec_apply(m, tx).0.available + spec_apply(m, tx).0.held,
{
}

/// Atomicity: a rejected transaction leaves the ledger exactly as it was —
/// balances, dispute set, high watermark and lock flag included.
pub proof fn lemma_rejection_leaves_state(m: LedgerModel, tx: Transaction)
    requires
        spec_apply(m, tx).1 is Err,
    ensures
        spec_apply(m, tx).0 == m,
{
}

/// A locked ledger rejects every transaction with `AccountLocked` and
/// does not change at all.
pub proof fn lemma_locked_rejects(m: LedgerModel, tx: Transaction)
    requires
        m.locked,
    ensures
        spec_apply(m, tx).0 == m,
        spec_apply(m, tx).1 == Result::<(), RejectionReason>::Err(
            RejectionReason::AccountLocked(tx.tx_id),
        ),
{
}

/// Once locked, a ledger is frozen for good: a whole stream of further
/// transactions, of any kinds, leaves it unchanged.
pub proof fn lemma_locked_forever(m: LedgerModel, txs: Seq<Transaction>)
    requires
        m.locked,
    ensures
        spec_apply_seq(m, txs) == m,
    decreases txs.len(),
{
    if txs.len() > 0 {
        lemma_locked_forever(m, txs.drop_last());
    }
}

/// A withdrawal is accepted exactly when the account is unlocked, its id
/// is strictly above the high watermark, and its amount is at most the
/// available balance of the moment; acceptance subtracts exactly that
/// amount from `available`, and a rejected withdrawal alters nothing.
pub proof fn lemma_withdrawal_iff(m: LedgerModel, tx: Transaction)
    requires
        tx.tx_type is Withdrawal,
    ensures
        spec_apply(m, tx).1 is Ok <==> (!m.locked && tx.tx_id > m.past_tx && tx.amount_int()
            <= m.available),
        spec_apply(m, tx).1 is Ok ==> spec_apply(m, tx).0 == (LedgerModel {
            available: m.available - tx.amount_int(),
            txs: m.txs.insert(tx.tx_id, tx),
            past_tx: tx.tx_id,
            ..m
        }),
        spec_apply(m, tx).1 is Err ==> spec_apply(m, tx).0 == m,
{
}

/// A deposit or withdrawal whose id is not strictly above the client's
/// high watermark is rejected as non-monotonic, whatever its amount.
pub proof fn lemma_non_monotonic_rejected(m: LedgerModel, tx: Transaction)
    requires
        !m.locked,
        tx.tx_type is Deposit || tx.tx_type is Withdrawal,
        tx.tx_id <= m.past_tx,
    ensures
        spec_apply(m, tx).0 == m,
        spec_apply(m, tx).1 == Result::<(), RejectionReason>::Err(
            RejectionReason::NonMonotonicTx(tx.tx_id),
        ),
{
}

/// Round trip: disputing a stored transaction that is not yet under
/// dispute and then resolving it both succeed and restore the ledger
/// exactly — available and held come back to their pre-dispute values,
/// and the dispute set, history, watermark and lock flag are untouched.
pub proof fn lemma_dispute_resolve_round_trip(m: LedgerModel, d: Transaction, s: Transaction)
    requires
        m.wf(),
        !m.locked,
        d.tx_type is Dispute,
        s.tx_type is Resolve,
        s.tx_id == d.tx_id,
        m.txs.dom().contains(d.tx_id),
        !m.disputed.contains(d.tx_id),
    ensures
        spec_apply(m, d).1 is Ok,
        spec_apply(spec_apply(m, d).0, s).1 is Ok,
        spec_apply(spec_apply(m, d).0, s).0 == m,
{
    let m1 = spec_apply(m, d).0;
    let m2 = spec_apply(m1, s).0;
    assert(m.disputed.insert(d.tx_id).remove(d.tx_id) =~= m.disputed);
    assert(m2 =~= m);
}

/// Disputing then charging back removes the held amount permanently and
/// locks the account: held returns to its pre-dispute value while
/// available stays reduced by the disputed amount, the id leaves the
/// dispute set, and every later transaction — a second chargeback or a
/// resolve of the same id included — bounces off the locked account
/// unchanged with `AccountLocked`.
pub proof fn lemma_dispute_chargeback(m: LedgerModel, d: Transaction, c: Transaction)
    requires
        m.wf(),
        !m.locked,
        d.tx_type is Dispute,
        c.tx_type is Chargeback,
        c.tx_id == d.tx_id,
        m.txs.dom().contains(d.tx_id),
        !m.disputed.contains(d.tx_id),
    ensures
        spec_apply(m, d).1 is Ok,
        spec_apply(spec_apply(m, d).0, c).1 is Ok,
        ({
            let m2 = spec_apply(spec_apply(m, d).0, c).0;
            &&& m2.held == m.held
            &&& m2.available == m.available - m.txs[d.tx_id].amount_int()
            &&& m2.locked
            &&& !m2.disputed.contains(d.tx_id)
            &&& m2.txs == m.txs
            &&& m2.past_tx == m.past_tx
            &&& forall|t: Transaction| #[trigger]
                spec_apply(m2, t) == (
                    m2,
                    Result::<(), RejectionReason>::Err(RejectionReason::AccountLocked(t.tx_id)),
                )
        }),
{
    let m1 = spec_apply(m, d).0;
    let m2 = spec_apply(m1, c).0;
    assert(m.disputed.insert(d.tx_id).remove(d.tx_id) =~= m.disputed);
    assert forall|t: Transaction| #[trigger] spec_apply(m2, t) == (
        m2,
        Result::<(), RejectionReason>::Err(RejectionReason::AccountLocked(t.tx_id)),
    ) by {
        lemma_locked_rejects(m2, t);
    }
}

/// On an unlocked ledger, a resolve or chargeback that references an id
/// not currently under dispute is rejected with `NotDisputed` and changes
/// nothing. (After a chargeback the account is locked, so a repeat on the
/// same id is instead rejected with `AccountLocked` — see
/// `lemma_dispute_chargeback`.)
pub proof fn lemma_not_disputed_rejected(m: LedgerModel, tx: Transaction)
    requires
        !m.locked,
        tx.tx_type is Resolve || tx.tx_type is Chargeback,
        !m.disputed.contains(tx.tx_id),
    ensures
        spec_apply(m, tx).0 == m,
        spec_apply(m, tx).1 == Result::<(), RejectionReason>::Err(
            RejectionReason::NotDisputed(tx.tx_id),
        ),
{
}

/// A dispute that references an id with no stored transaction is rejected
/// with `UnknownTransaction` and changes nothing.
pub proof fn lemma_unknown_dispute_rejected(m: LedgerModel, tx: Transaction)
    requires
        !m.locked,
        tx.tx_type is Dispute,
        !m.disputed.contains(tx.tx_id),
        !m.txs.dom().contains(tx.tx_id),
    ensures
        spec_apply(m, tx).0 == m,
        spec_apply(m, tx).1 == Result::<(), RejectionReason>::Err(
            RejectionReason::UnknownTransaction(tx.tx_id),
        ),
{
}

} // verus!
