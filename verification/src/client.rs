use std::collections::HashMap;
use std::collections::HashSet;
use vstd::prelude::*;

use crate::model::LedgerModel;
use crate::model::RejectionReason;
use crate::model::lemma_spec_apply_wf;
use crate::model::lemma_spec_new_wf;
use crate::model::spec_apply;
use crate::model::spec_new;
use crate::report::bool_string;
use crate::report::dec_rep;
use crate::report::decimal_string;
use crate::report::fixed_rep;
use crate::report::format_fixed;
use crate::transaction::Transaction;
use crate::transaction::TransactionType;

verus! {

/// One client's balances, held in units of 1/10000 of the currency.
/// `available` can be driven below zero by a dispute whose amount exceeds
/// the balance of the moment; that is deliberate (see `LedgerModel::wf`).
/// The total is derived, never stored.
#[derive(Clone, Copy, Debug, PartialEq, Eq, Structural)]
pub struct Funds {
    pub available: i128,
    pub held: i128,
}

impl Funds {
    /// Seed balances from the first transaction seen for a client: a
    /// deposit opens the account with its amount, anything else with zero.
    pub fn new(tx: &Transaction) -> (f: Funds)
        requires
            tx.wf(),
        ensures
            f.available == if tx.tx_type is Deposit {
                tx.amount_int()
            } else {
                0
            },
            f.held == 0,
    {
        match tx.tx_type {
            TransactionType::Deposit => Funds { available: tx.amount.unwrap() as i128, held: 0 },
            _ => Funds { available: 0, held: 0 },
        }
    }

    fn calculate_total(&self) -> (t: i128)
        requires
            i128::MIN <= self.available + self.held <= i128::MAX,
        ensures
            t == self.available + self.held,
    {
        self.available + self.held
    }
}

/// The stored monetary transactions of one client, keyed by their ids.
pub type Transactions = HashMap<u32, Transaction>;

/// The ids currently under dispute for one client.
pub type DisputedTransactions = HashSet<u32>;

/// One client's ledger: balances, the stored deposits and withdrawals,
/// the ids under dispute, the high watermark of accepted monetary ids
/// (`past_tx`), and the lock flag set by a chargeback.
#[derive(Debug)]
pub struct Client {
    funds: Funds,
    transactions: Transactions,
    disputed_transactions: DisputedTransactions,
    past_tx: u32,
    locked: bool,
}

impl View for Client {
    type V = LedgerModel;

    closed spec fn view(&self) -> LedgerModel {
        LedgerModel {
            available: self.funds.available as int,
            held: self.funds.held as int,
            txs: self.transactions@,
            disputed: self.disputed_transactions@,
            past_tx: self.past_tx,
            locked: self.locked,
        }
    }
}

impl Client {
    /// The ledger's invariant: its mathematical state is well formed.
    pub open spec fn wf(self) -> bool {
        self@.wf()
    }

    /// Build the ledger for a client's first transaction. Only a deposit
    /// or withdrawal is recorded in the history (they alone carry a
    /// disputable amount); the high watermark starts at the seed's id
    /// whatever its kind, and a seeding withdrawal's amount is
    /// deliberately not subtracted from the zero opening balance.
    pub fn new(tx_id: u32, tx: Transaction) -> (c: Client)
        requires
            tx.wf(),
            tx_id == tx.tx_id,
        ensures
            c@ == spec_new(tx),
            c.wf(),
    {
        let funds = Funds::new(&tx);
        let mut transactions: Transactions = HashMap::new();
        match tx.tx_type {
            TransactionType::Deposit | TransactionType::Withdrawal => {
                transactions.insert(tx_id, tx);
            },
            _ => {},
        }
        let disputed_transactions: DisputedTransactions = HashSet::new();
        let c = Client { funds, transactions, disputed_transactions, past_tx: tx_id, locked: false };
        proof {
            lemma_spec_new_wf(tx);
            assert(c@ =~= spec_new(tx));
        }
        c
    }

    pub fn funds(&self) -> (f: &Funds)
        ensures
            f.available == self@.available,
            f.held == self@.held,
    {
        &self.funds
    }

    pub fn is_locked(&self) -> (b: bool)
        ensures
            b == self@.locked,
    {
        self.locked
    }

    /// The state-machine transition: apply one transaction, mutating the
    /// ledger exactly as the transition function `spec_apply` says, or
    /// reject it with the reason `spec_apply` says and leave the ledger
    /// untouched.
    pub fn handle_transaction(&mut self, tx: Transaction) -> (r: Result<(), RejectionReason>)
        requires
            old(self).wf(),
            tx.wf(),
        ensures
            final(self)@ == spec_apply(old(self)@, tx).0,
            r == spec_apply(old(self)@, tx).1,
            final(self).wf(),
    {
        proof {
            lemma_spec_apply_wf(old(self)@, tx);
        }
        if self.is_locked() {
            return Result::Err(RejectionReason::AccountLocked(tx.tx_id));
        }
        match *tx.tx_type() {
            TransactionType::Deposit => self.deposit_amount(tx.tx_id(), tx),
            TransactionType::Withdrawal => self.withdraw_amount(tx.tx_id(), tx),
            TransactionType::Dispute => self.dispute_transaction(tx.tx_id()),
            TransactionType::Resolve => self.resolve_transaction(tx.tx_id()),
            TransactionType::Chargeback => self.chargeback_transaction(tx.tx_id()),
        }
    }

    /// The five reporting fields for one client, each as text: id,
    /// available, held, total and locked, the monetary ones with exactly
    /// four decimal places and the total pinned to available plus held.
    pub fn get_record(&self, client_id: u16) -> (r: Vec<String>)
        requires
            self.wf(),
        ensures
            r@.len() == 5,
            r@[0]@ == dec_rep(client_id as nat),
            r@[1]@ == fixed_rep(self@.available),
            r@[2]@ == fixed_rep(self@.held),
            r@[3]@ == fixed_rep(self@.total()),
            r@[4]@ == if self@.locked {
                "true"@
            } else {
                "false"@
            },
    {
        proof {
            self@.lemma_wf_bounds();
        }
        let mut r: Vec<String> = Vec::new();
        r.push(decimal_string(client_id as u128));
        r.push(format_fixed(self.funds.available));
        r.push(format_fixed(self.funds.held));
        r.push(format_fixed(self.funds.calculate_total()));
        r.push(bool_string(self.locked));
        r
    }

    fn add_tx(&mut self, tx_id: u32, tx: Transaction)
        ensures
            final(self)@ == (LedgerModel {
                txs: old(self)@.txs.insert(tx_id, tx),
                past_tx: tx_id,
                ..old(self)@
            }),
    {
        self.transactions.insert(tx_id, tx);
        self.past_tx = tx_id;
    }

    /// Transaction ids are globally unique but not ordered on the wire;
    /// a monetary transaction must arrive with an id strictly above the
    /// highest this client has accepted.
    fn ensure_future_tx(&self, tx_id: u32) -> (r: Result<(), RejectionReason>)
        ensures
            r == if self.past_tx < tx_id {
                Result::<(), RejectionReason>::Ok(())
            } else {
                Result::<(), RejectionReason>::Err(RejectionReason::NonMonotonicTx(tx_id))
            },
    {
        if self.past_tx < tx_id {
            Result::Ok(())
        } else {
            Result::Err(RejectionReason::NonMonotonicTx(tx_id))
        }
    }

    fn should_tx_be_disputed(&self, tx_id: u32, should_be_disputed: bool) -> (b: bool)
        ensures
            b == (self@.disputed.contains(tx_id) == should_be_disputed),
    {
        self.disputed_transactions.contains(&tx_id) == should_be_disputed
    }

    fn get_tx(&self, tx_id: u32) -> (r: Result<&Transaction, RejectionReason>)
        ensures
            self@.txs.dom().contains(tx_id) ==> (r matches Result::Ok(t) && *t
                == self@.txs[tx_id]),
            !self@.txs.dom().contains(tx_id) ==> (r matches Result::Err(e) && e
                == RejectionReason::UnknownTransaction(tx_id)),
    {
        match self.transactions.get(&tx_id) {
            Option::Some(tx) => Result::Ok(tx),
            Option::None => Result::Err(RejectionReason::UnknownTransaction(tx_id)),
        }
    }

    fn tx_is_not_disputed(&self, tx_id: u32) -> (r: Result<(), RejectionReason>)
        ensures
            r == if !self@.disputed.contains(tx_id) {
                Result::<(), RejectionReason>::Ok(())
            } else {
                Result::<(), RejectionReason>::Err(RejectionReason::AlreadyDisputed(tx_id))
            },
    {
        if self.should_tx_be_disputed(tx_id, false) {
            Result::Ok(())
        } else {
            Result::Err(RejectionReason::AlreadyDisputed(tx_id))
        }
    }

    fn tx_is_disputed(&self, tx_id: u32) -> (r: Result<(), RejectionReason>)
        ensures
            r == if self@.disputed.contains(tx_id) {
                Result::<(), RejectionReason>::Ok(())
            } else {
                Result::<(), RejectionReason>::Err(RejectionReason::NotDisputed(tx_id))
            },
    {
        if self.should_tx_be_disputed(tx_id, true) {
            Result::Ok(())
        } else {
            Result::Err(RejectionReason::NotDisputed(tx_id))
        }
    }

    fn can_withdraw(&self, withdrawal_amount: u64) -> (b: bool)
        ensures
            b == (self@.available >= withdrawal_amount),
    {
        self.funds.available >= withdrawal_amount as i128
    }

    fn deposit_amount(&mut self, tx_id: u32, tx: Transaction) -> (r: Result<(), RejectionReason>)
        requires
            old(self).wf(),
            tx.wf(),
            tx.tx_type is Deposit,
            tx.tx_id == tx_id,
            !old(self)@.locked,
        ensures
            final(self)@ == spec_apply(old(self)@, tx).0,
            r == spec_apply(old(self)@, tx).1,
    {
        proof {
            old(self)@.lemma_wf_bounds();
        }
        match self.ensure_future_tx(tx_id) {
            Result::Err(e) => Result::Err(e),
            Result::Ok(()) => {
                self.funds.available = self.funds.available + tx.amount().unwrap() as i128;
                self.add_tx(tx_id, tx);
                proof {
                    assert(self@ =~= spec_apply(old(self)@, tx).0);
                }
                Result::Ok(())
            },
        }
    }

    fn withdraw_amount(&mut self, tx_id: u32, tx: Transaction) -> (r: Result<(), RejectionReason>)
        requires
            old(self).wf(),
            tx.wf(),
            tx.tx_type is Withdrawal,
            tx.tx_id == tx_id,
            !old(self)@.locked,
        ensures
            final(self)@ == spec_apply(old(self)@, tx).0,
            r == spec_apply(old(self)@, tx).1,
    {
        proof {
            old(self)@.lemma_wf_bounds();
        }
        match self.ensure_future_tx(tx_id) {
            Result::Err(e) => Result::Err(e),
            Result::Ok(()) => {
                let withdrawal_amount = tx.amount().unwrap();
                if self.can_withdraw(withdrawal_amount) {
                    self.funds.available = self.funds.available - withdrawal_amount as i128;
                    self.add_tx(tx_id, tx);
                    proof {
                        assert(self@ =~= spec_apply(old(self)@, tx).0);
                    }
                    Result::Ok(())
                } else {
                    Result::Err(RejectionReason::InsufficientFunds(tx_id))
                }
            },
        }
    }

    fn resolve_amount(&mut self, resolve_amount: u64)
        requires
            old(self).wf(),
        ensures
            final(self)@ == (LedgerModel {
                available: old(self)@.available + resolve_amount,
                held: old(self)@.held - resolve_amount,
                ..old(self)@
            }),
    {
        proof {
            old(self)@.lemma_wf_bounds();
        }
        self.funds.held = self.funds.held - resolve_amount as i128;
        self.funds.available = self.funds.available + resolve_amount as i128;
    }

    fn withhold_amount(&mut self, disputed_amount: u64)
        requires
            old(self).wf(),
        ensures
            final(self)@ == (LedgerModel {
                available: old(self)@.available - disputed_amount,
                held: old(self)@.held + disputed_amount,
                ..old(self)@
            }),
    {
        proof {
            old(self)@.lemma_wf_bounds();
        }
        self.funds.available = self.funds.available - disputed_amount as i128;
        self.funds.held = self.funds.held + disputed_amount as i128;
    }

    fn chargeback_amount(&mut self, chargeback_amount: u64)
        requires
            old(self).wf(),
        ensures
            final(self)@ == (LedgerModel { held: old(self)@.held - chargeback_amount, ..old(self)@ }),
    {
        proof {
            old(self)@.lemma_wf_bounds();
        }
        self.funds.held = self.funds.held - chargeback_amount as i128;
    }

    fn dispute_transaction(&mut self, tx_id: u32) -> (r: Result<(), RejectionReason>)
        requires
            old(self).wf(),
            !old(self)@.locked,
        ensures
            ({
                let m = old(self)@;
                if m.disputed.contains(tx_id) {
                    final(self)@ == m && r == Result::<(), RejectionReason>::Err(
                        RejectionReason::AlreadyDisputed(tx_id),
                    )
                } else if !m.txs.dom().contains(tx_id) {
                    final(self)@ == m && r == Result::<(), RejectionReason>::Err(
                        RejectionReason::UnknownTransaction(tx_id),
                    )
                } else {
                    final(self)@ == (LedgerModel {
                        available: m.available - m.txs[tx_id].amount_int(),
                        held: m.held + m.txs[tx_id].amount_int(),
                        disputed: m.disputed.insert(tx_id),
                        ..m
                    }) && r == Result::<(), RejectionReason>::Ok(())
                }
            }),
    {
        match self.tx_is_not_disputed(tx_id) {
            Result::Err(e) => Result::Err(e),
            Result::Ok(()) => {
                let amt: u64 = match self.get_tx(tx_id) {
                    Result::Err(e) => {
                        return Result::Err(e);
                    },
                    Result::Ok(tx) => tx.amount().unwrap(),
                };
                self.withhold_amount(amt);
                self.disputed_transactions.insert(tx_id);
                proof {
                    assert(self@ =~= (LedgerModel {
                        available: old(self)@.available - old(self)@.txs[tx_id].amount_int(),
                        held: old(self)@.held + old(self)@.txs[tx_id].amount_int(),
                        disputed: old(self)@.disputed.insert(tx_id),
                        ..old(self)@
                    }));
                }
                Result::Ok(())
            },
        }
    }

    fn resolve_transaction(&mut self, tx_id: u32) -> (r: Result<(), RejectionReason>)
        requires
            old(self).wf(),
            !old(self)@.locked,
        ensures
            ({
                let m = old(self)@;
                if !m.disputed.contains(tx_id) {
                    final(self)@ == m && r == Result::<(), RejectionReason>::Err(
                        RejectionReason::NotDisputed(tx_id),
                    )
                } else if !m.txs.dom().contains(tx_id) {
                    final(self)@ == m && r == Result::<(), RejectionReason>::Err(
                        RejectionReason::UnknownTransaction(tx_id),
                    )
                } else {
                    final(self)@ == (LedgerModel {
                        available: m.available + m.txs[tx_id].amount_int(),
                        held: m.held - m.txs[tx_id].amount_int(),
                        disputed: m.disputed.remove(tx_id),
                        ..m
                    }) && r == Result::<(), RejectionReason>::Ok(())
                }
            }),
    {
        match self.tx_is_disputed(tx_id) {
            Result::Err(e) => Result::Err(e),
            Result::Ok(()) => {
                let amt: u64 = match self.get_tx(tx_id) {
                    Result::Err(e) => {
                        return Result::Err(e);
                    },
                    Result::Ok(tx) => tx.amount().unwrap(),
                };
                self.resolve_amount(amt);
                self.disputed_transactions.remove(&tx_id);
                proof {
                    assert(self@ =~= (LedgerModel {
                        available: old(self)@.available + old(self)@.txs[tx_id].amount_int(),
                        held: old(self)@.held - old(self)@.txs[tx_id].amount_int(),
                        disputed: old(self)@.disputed.remove(tx_id),
                        ..old(self)@
                    }));
                }
                Result::Ok(())
            },
        }
    }

    fn chargeback_transaction(&mut self, tx_id: u32) -> (r: Result<(), RejectionReason>)
        requires
            old(self).wf(),
            !old(self)@.locked,
        ensures
            ({
                let m = old(self)@;
                if !m.disputed.contains(tx_id) {
                    final(self)@ == m && r == Result::<(), RejectionReason>::Err(
                        RejectionReason::NotDisputed(tx_id),
                    )
                } else if !m.txs.dom().contains(tx_id) {
                    final(self)@ == m && r == Result::<(), RejectionReason>::Err(
                        RejectionReason::UnknownTransaction(tx_id),
                    )
                } else {
                    final(self)@ == (LedgerModel {
                        held: m.held - m.txs[tx_id].amount_int(),
                        disputed: m.disputed.remove(tx_id),
                        locked: true,
                        ..m
                    }) && r == Result::<(), RejectionReason>::Ok(())
                }
            }),
    {
        match self.tx_is_disputed(tx_id) {
            Result::Err(e) => Result::Err(e),
            Result::Ok(()) => {
                let amt: u64 = match self.get_tx(tx_id) {
                    Result::Err(e) => {
                        return Result::Err(e);
                    },
                    Result::Ok(tx) => tx.amount().unwrap(),
                };
                self.chargeback_amount(amt);
                self.locked = true;
                self.disputed_transactions.remove(&tx_id);
                proof {
                    assert(self@ =~= (LedgerModel {
                        held: old(self)@.held - old(self)@.txs[tx_id].amount_int(),
                        disputed: old(self)@.disputed.remove(tx_id),
                        locked: true,
                        ..old(self)@
                    }));
                }
                Result::Ok(())
            },
        }
    }
}

} // verus!
