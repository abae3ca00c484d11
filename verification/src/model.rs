use vstd::prelude::*;

use crate::transaction::Transaction;
use crate::transaction::TransactionType;

verus! {

/// Why an `apply` call rejected its transaction. Each variant carries the
/// id of the offending transaction so a caller can branch on the kind and
/// still report which record was refused.
#[derive(Clone, Copy, Debug, PartialEq, Eq, Structural)]
pub enum RejectionReason {
    /// The account is locked after a chargeback; nothing is accepted any more.
    AccountLocked(u32),
    /// A deposit or withdrawal id was not strictly above the client's high watermark.
    NonMonotonicTx(u32),
    /// A withdrawal asked for more than the available balance.
    InsufficientFunds(u32),
    /// A dispute referenced a transaction that is already under dispute.
    AlreadyDisputed(u32),
    /// A resolve or chargeback referenced a transaction that is not under dispute.
    NotDisputed(u32),
    /// A dispute, resolve or chargeback referenced an id with no stored transaction.
    UnknownTransaction(u32),
}

/// The mathematical state of one client's ledger: balances as unbounded
/// integers, the stored monetary transactions, the set of ids under
/// dispute, the high watermark of accepted monetary ids, and the lock flag.
#[verifier::ext_equal]
pub ghost struct LedgerModel {
    pub available: int,
    pub held: int,
    pub txs: Map<u32, Transaction>,
    pub disputed: Set<u32>,
    pub past_tx: u32,
    pub locked: bool,
}

/// Sum of the stored amounts of the transactions in `s`, read from `m`.
pub open spec fn sum_amts(s: Set<u32>, m: Map<u32, Transaction>) -> int
    decreases s.len(),
        when s.finite()
{
    if s.finite() && s.len() > 0 {
        let k = s.choose();
        m[k].amount_int() + sum_amts(s.remove(k), m)
    } else {
        0
    }
}

/// Removing any member `k` of `s` splits the sum into `k`'s amount and the rest.
pub proof fn lemma_sum_remove(s: Set<u32>, m: Map<u32, Transaction>, k: u32)
    requires
        s.finite(),
        s.contains(k),
    ensures
        sum_amts(s, m) == m[k].amount_int() + sum_amts(s.remove(k), m),
    decreases s.len(),
{
    let c = s.choose();
    if c == k {
    } else {
        lemma_sum_remove(s.remove(c), m, k);
        lemma_sum_remove(s.remove(k), m, c);
        assert(s.remove(c).remove(k) =~= s.remove(k).remove(c));
    }
}

/// Inserting a fresh id `k` adds exactly its amount to the sum.
pub proof fn lemma_sum_insert(s: Set<u32>, m: Map<u32, Transaction>, k: u32)
    requires
        s.finite(),
        !s.contains(k),
    ensures
        sum_amts(s.insert(k), m) == sum_amts(s, m) + m[k].amount_int(),
{
    lemma_sum_remove(s.insert(k), m, k);
    assert(s.insert(k).remove(k) =~= s);
}

/// Stored amounts are non-negative, so every sum is.
pub proof fn lemma_sum_nonneg(s: Set<u32>, m: Map<u32, Transaction>)
    requires
        s.finite(),
    ensures
        sum_amts(s, m) >= 0,
    decreases s.len(),
{
    if s.len() > 0 {
        lemma_sum_nonneg(s.remove(s.choose()), m);
    }
}

/// A subset's sum never exceeds the whole set's sum.
pub proof fn lemma_sum_subset(s1: Set<u32>, s2: Set<u32>, m: Map<u32, Transaction>)
    requires
        s1.finite(),
        s2.finite(),
        s1.subset_of(s2),
    ensures
        sum_amts(s1, m) <= sum_amts(s2, m),
    decreases s2.len(),
{
    if s2.len() > 0 {
        let c = s2.choose();
        if s1.contains(c) {
            lemma_sum_remove(s1, m, c);
            lemma_sum_subset(s1.remove(c), s2.remove(c), m);
        } else {
            lemma_sum_subset(s1, s2.remove(c), m);
        }
    } else {
        assert(s2 =~= Set::empty());
        if s1.len() > 0 {
            assert(s2.contains(s1.choose()));
        }
    }
}

/// The sum only reads the amounts of the ids in `s`, so two maps that agree
/// there give the same sum.
pub proof fn lemma_sum_agree(s: Set<u32>, m1: Map<u32, Transaction>, m2: Map<u32, Transaction>)
    requires
        s.finite(),
        forall|k: u32| s.contains(k) ==> m1[k] == m2[k],
    ensures
        sum_amts(s, m1) == sum_amts(s, m2),
    decreases s.len(),
{
    if s.len() > 0 {
        lemma_sum_agree(s.remove(s.choose()), m1, m2);
    }
}

impl LedgerModel {
    /// The reported total is derived, never stored: available plus held.
    pub open spec fn total(self) -> int {
        self.available + self.held
    }

    /// The internal invariant of a ledger. Every constructor establishes it
    /// and every transition preserves it:
    /// - only well-formed monetary transactions are stored, keyed by their
    ///   own id, and no stored id is above the high watermark;
    /// - the disputed ids are a subset of the stored ids;
    /// - the held balance is exactly the sum of the disputed amounts;
    /// - the stored amounts sum to at most one maximal amount per accepted
    ///   id, which bounds every balance far below the machine limits;
    /// - while the account is not locked the total is non-negative, and the
    ///   single chargeback that locks it can drive the total at most one
    ///   amount below zero.
    pub open spec fn wf(self) -> bool {
        &&& self.txs.dom().finite()
        &&& self.disputed.finite()
        &&& self.disputed.subset_of(self.txs.dom())
        &&& forall|k: u32| #[trigger] self.txs.dom().contains(k) ==> {
            &&& k <= self.past_tx
            &&& self.txs[k].tx_id == k
            &&& (self.txs[k].tx_type is Deposit || self.txs[k].tx_type is Withdrawal)
            &&& self.txs[k].amount is Some
        }
        &&& self.held == sum_amts(self.disputed, self.txs)
        &&& sum_amts(self.txs.dom(), self.txs) <= (self.past_tx + 1) * (u64::MAX as int)
        &&& self.total() <= sum_amts(self.txs.dom(), self.txs)
        &&& !self.locked ==> self.total() >= 0
        &&& self.total() >= -(u64::MAX as int)
    }

    /// Bounds on the balances that follow from the invariant; enough to rule
    /// out machine overflow everywhere the ledger computes.
    pub proof fn lemma_wf_bounds(self)
        requires
            self.wf(),
        ensures
            0 <= self.held <= (self.past_tx + 1) * (u64::MAX as int),
            -(2 * (u64::MAX as int)) - self.held <= self.available,
            self.available <= (self.past_tx + 1) * (u64::MAX as int),
    {
        lemma_sum_nonneg(self.disputed, self.txs);
        lemma_sum_subset(self.disputed, self.txs.dom(), self.txs);
    }
}

/// The ledger created by the first transaction ever seen for a client.
/// A deposit seeds the available balance with its amount; any other kind
/// seeds zero funds (a seeding withdrawal's amount is deliberately not
/// subtracted). A monetary seed is recorded in the history; the high
/// watermark starts at the seed's id either way.
pub open spec fn spec_new(tx: Transaction) -> LedgerModel {
    LedgerModel {
        available: if tx.tx_type is Deposit {
            tx.amount_int()
        } else {
            0
        },
        held: 0,
        txs: if tx.tx_type is Deposit || tx.tx_type is Withdrawal {
            Map::empty().insert(tx.tx_id, tx)
        } else {
            Map::empty()
        },
        disputed: Set::empty(),
        past_tx: tx.tx_id,
        locked: false,
    }
}

/// One step of the state machine: the ledger after applying `tx` to `m`,
/// together with the outcome. A rejection returns `m` itself, so every
/// rejected transaction leaves the ledger exactly as it was.
pub open spec fn spec_apply(m: LedgerModel, tx: Transaction) -> (LedgerModel, Result<
    (),
    RejectionReason,
>) {
    if m.locked {
        (m, Result::Err(RejectionReason::AccountLocked(tx.tx_id)))
    } else {
        match tx.tx_type {
            TransactionType::Deposit => if tx.tx_id <= m.past_tx {
                (m, Result::Err(RejectionReason::NonMonotonicTx(tx.tx_id)))
            } else {
                (
                    LedgerModel {
                        available: m.available + tx.amount_int(),
                        txs: m.txs.insert(tx.tx_id, tx),
                        past_tx: tx.tx_id,
                        ..m
                    },
                    Result::Ok(()),
                )
            },
            TransactionType::Withdrawal => if tx.tx_id <= m.past_tx {
                (m, Result::Err(RejectionReason::NonMonotonicTx(tx.tx_id)))
            } else if tx.amount_int() > m.available {
                (m, Result::Err(RejectionReason::InsufficientFunds(tx.tx_id)))
            } else {
                (
                    LedgerModel {
                        available: m.available - tx.amount_int(),
                        txs: m.txs.insert(tx.tx_id, tx),
                        past_tx: tx.tx_id,
                        ..m
                    },
                    Result::Ok(()),
                )
            },
            TransactionType::Dispute => if m.disputed.contains(tx.tx_id) {
                (m, Result::Err(RejectionReason::AlreadyDisputed(tx.tx_id)))
            } else if !m.txs.dom().contains(tx.tx_id) {
                (m, Result::Err(RejectionReason::UnknownTransaction(tx.tx_id)))
            } else {
                (
                    LedgerModel {
                        available: m.available - m.txs[tx.tx_id].amount_int(),
                        held: m.held + m.txs[tx.tx_id].amount_int(),
                        disputed: m.disputed.insert(tx.tx_id),
                        ..m
                    },
                    Result::Ok(()),
                )
            },
            TransactionType::Resolve => if !m.disputed.contains(tx.tx_id) {
                (m, Result::Err(RejectionReason::NotDisputed(tx.tx_id)))
            } else if !m.txs.dom().contains(tx.tx_id) {
                (m, Result::Err(RejectionReason::UnknownTransaction(tx.tx_id)))
            } else {
                (
                    LedgerModel {
                        available: m.available + m.txs[tx.tx_id].amount_int(),
                        held: m.held - m.txs[tx.tx_id].amount_int(),
                        disputed: m.disputed.remove(tx.tx_id),
                        ..m
                    },
                    Result::Ok(()),
                )
            },
            TransactionType::Chargeback => if !m.disputed.contains(tx.tx_id) {
                (m, Result::Err(RejectionReason::NotDisputed(tx.tx_id)))
            } else if !m.txs.dom().contains(tx.tx_id) {
                (m, Result::Err(RejectionReason::UnknownTransaction(tx.tx_id)))
            } else {
                (
                    LedgerModel {
                        held: m.held - m.txs[tx.tx_id].amount_int(),
                        disputed: m.disputed.remove(tx.tx_id),
                        locked: true,
                        ..m
                    },
                    Result::Ok(()),
                )
            },
        }
    }
}

/// The ledger after a whole sequence of transactions, applied in order.
pub open spec fn spec_apply_seq(m: LedgerModel, txs: Seq<Transaction>) -> LedgerModel
    decreases txs.len(),
{
    if txs.len() == 0 {
        m
    } else {
        spec_apply(spec_apply_seq(m, txs.drop_last()), txs.last()).0
    }
}

/// One routing step of the registry: the first transaction seen for a
/// client builds its ledger, every later one is applied to it (a rejection
/// leaves the ledger as it was and never stops the stream).
pub open spec fn spec_route_one(m: Map<u16, LedgerModel>, tx: Transaction) -> Map<u16, LedgerModel> {
    if m.dom().contains(tx.client_id) {
        m.insert(tx.client_id, spec_apply(m[tx.client_id], tx).0)
    } else {
        m.insert(tx.client_id, spec_new(tx))
    }
}

/// The registry's final state after folding a whole stream, in order,
/// starting from no clients.
pub open spec fn spec_route_all(txs: Seq<Transaction>) -> Map<u16, LedgerModel>
    decreases txs.len(),
{
    if txs.len() == 0 {
        Map::empty()
    } else {
        spec_route_one(spec_route_all(txs.drop_last()), txs.last())
    }
}

/// The seed ledger satisfies the invariant.
pub proof fn lemma_spec_new_wf(tx: Transaction)
    requires
        tx.wf(),
    ensures
        spec_new(tx).wf(),
{
    let m = spec_new(tx);
    if tx.tx_type is Deposit || tx.tx_type is Withdrawal {
        lemma_sum_insert(Set::empty(), m.txs, tx.tx_id);
        assert(m.txs.dom() =~= Set::empty().insert(tx.tx_id));
    } else {
        assert(m.txs.dom() =~= Set::<u32>::empty());
    }
}

/// Every step of the state machine preserves the invariant.
pub proof fn lemma_spec_apply_wf(m: LedgerModel, tx: Transaction)
    requires
        m.wf(),
        tx.wf(),
    ensures
        spec_apply(m, tx).0.wf(),
{
    let m1 = spec_apply(m, tx).0;
    m.lemma_wf_bounds();
    if m.locked {
        return ;
    }
    match tx.tx_type {
        TransactionType::Deposit | TransactionType::Withdrawal => {
            if tx.tx_id > m.past_tx && (tx.tx_type is Deposit || tx.amount_int() <= m.available) {
                assert(!m.txs.dom().contains(tx.tx_id));
                lemma_sum_insert(m.txs.dom(), m1.txs, tx.tx_id);
                lemma_sum_agree(m.txs.dom(), m.txs, m1.txs);
                lemma_sum_agree(m.disputed, m.txs, m1.txs);
                assert(m1.txs.dom() =~= m.txs.dom().insert(tx.tx_id));
                lemma_sum_nonneg(m.txs.dom(), m.txs);
            }
        },
        TransactionType::Dispute => {
            if !m.disputed.contains(tx.tx_id) && m.txs.dom().contains(tx.tx_id) {
                lemma_sum_insert(m.disputed, m.txs, tx.tx_id);
            }
        },
        TransactionType::Resolve | TransactionType::Chargeback => {
            if m.disputed.contains(tx.tx_id) {
                lemma_sum_remove(m.disputed, m.txs, tx.tx_id);
                lemma_sum_nonneg(m.disputed.remove(tx.tx_id), m.txs);
            }
        },
    }
}

} // verus!
