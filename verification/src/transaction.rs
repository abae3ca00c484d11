use vstd::prelude::*;

verus! {

/// The five kinds of transaction the ledger understands.
#[derive(Clone, Copy, Debug, PartialEq, Eq, Structural)]
pub enum TransactionType {
    Deposit,
    Withdrawal,
    Dispute,
    Resolve,
    Chargeback,
}

/// One immutable transaction record.
///
/// Monetary amounts are fixed-point decimals: a `u64` counts units of
/// 1/10000 of the currency, so `15000` stands for `1.5000`. An amount is
/// present exactly for the kinds that move money (deposit, withdrawal);
/// dispute, resolve and chargeback only reference an earlier transaction
/// by its id and carry no amount of their own.
#[derive(Clone, Copy, Debug)]
pub struct Transaction {
    pub tx_type: TransactionType,
    pub client_id: u16,
    pub tx_id: u32,
    pub amount: Option<u64>,
}

impl Transaction {
    /// A record is well formed when it carries an amount exactly when its
    /// kind moves money.
    pub open spec fn wf(self) -> bool {
        (self.tx_type is Deposit || self.tx_type is Withdrawal) <==> self.amount is Some
    }

    /// The amount carried by the record, as a mathematical integer
    /// (zero for the kinds that carry none).
    pub open spec fn amount_int(self) -> int {
        match self.amount {
            Option::Some(a) => a as int,
            Option::None => 0,
        }
    }

    pub fn new(tx_type: TransactionType, tx_id: u32, client_id: u16, amount: Option<u64>) -> (t:
        Transaction)
        ensures
            t == (Transaction { tx_type, client_id, tx_id, amount }),
    {
        Transaction { tx_type, client_id, tx_id, amount }
    }

    pub fn tx_type(&self) -> (t: &TransactionType)
        ensures
            *t == self.tx_type,
    {
        &self.tx_type
    }

    pub fn client_id(&self) -> (c: u16)
        ensures
            c == self.client_id,
    {
        self.client_id
    }

    pub fn tx_id(&self) -> (i: u32)
        ensures
            i == self.tx_id,
    {
        self.tx_id
    }

    pub fn amount(&self) -> (a: &Option<u64>)
        ensures
            *a == self.amount,
    {
        &self.amount
    }
}

} // verus!
