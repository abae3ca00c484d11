use std::collections::HashMap;
use vstd::prelude::*;

pub mod client;
pub mod laws;
pub mod model;
pub mod report;
pub mod transaction;

pub use client::Client;
pub use client::DisputedTransactions;
pub use client::Funds;
pub use client::Transactions;
pub use model::LedgerModel;
pub use model::RejectionReason;
pub use transaction::Transaction;
pub use transaction::TransactionType;

use model::spec_route_all;

verus! {

/// The registry's final state: one ledger per client id.
pub type Clients = HashMap<u16, Client>;

/// Fold a finite, already-ordered stream of transactions into the final
/// per-client ledgers. The first transaction seen for a client id builds
/// its ledger; every later one addressed to it is applied in stream order.
/// A rejected transaction changes nothing and never aborts the stream, so
/// the run as a whole always succeeds.
pub fn process_transactions(transactions: Vec<Transaction>) -> (r: Result<Clients, String>)
    requires
        forall|j: int| 0 <= j < transactions@.len() ==> (#[trigger] transactions@[j]).wf(),
    ensures
        r is Ok,
        ({
            let g = spec_route_all(transactions@);
            let cs = r->Ok_0;
            &&& cs@.dom() == g.dom()
            &&& forall|c: u16| #[trigger] g.dom().contains(c) ==> cs@[c]@ == g[c] && cs@[c].wf()
        }),
{
    let mut clients: Clients = HashMap::new();
    let n = transactions.len();
    let mut i: usize = 0;
    proof {
        assert(transactions@.take(0) =~= Seq::<Transaction>::empty());
        assert(clients@.dom() =~= spec_route_all(transactions@.take(0)).dom());
    }
    while i < n
        invariant
            n == transactions@.len(),
            i <= n,
            forall|j: int| 0 <= j < transactions@.len() ==> (#[trigger] transactions@[j]).wf(),
            clients@.dom() == spec_route_all(transactions@.take(i as int)).dom(),
            forall|c: u16|
                #[trigger] spec_route_all(transactions@.take(i as int)).dom().contains(c)
                    ==> clients@[c]@ == spec_route_all(transactions@.take(i as int))[c]
                    && clients@[c].wf(),
        decreases n - i,
    {
        let ghost pre = clients@;
        let tx = transactions[i];
        let cid = tx.client_id();
        if clients.contains_key(&cid) {
            let mut one = clients.remove(&cid).unwrap();
            let _ = one.handle_transaction(tx);
            clients.insert(cid, one);
            proof {
                assert(clients@ =~= pre.insert(cid, one));
            }
        } else {
            let one = Client::new(tx.tx_id(), tx);
            clients.insert(cid, one);
        }
        proof {
            assert(transactions@.take(i + 1).drop_last() =~= transactions@.take(i as int));
            assert(transactions@.take(i + 1).last() == transactions@[i as int]);
            assert(clients@.dom() =~= spec_route_all(transactions@.take(i + 1)).dom());
        }
        i = i + 1;
    }
    proof {
        assert(transactions@.take(n as int) =~= transactions@);
    }
    Result::Ok(clients)
}

} // verus!
