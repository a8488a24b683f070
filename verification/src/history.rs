//! The prior-transaction resolver: a snapshot of recorded transactions,
//! searched by identifier.

use vstd::prelude::*;
use crate::transaction::{Transaction, TransactionView};

verus! {

/// The first transaction of `recorded` whose identifier is `id`.
pub open spec fn find_by_id(recorded: Seq<TransactionView>, id: Seq<char>) -> Option<
    TransactionView,
>
    decreases recorded.len(),
{
    if recorded.len() == 0 {
        None
    } else if recorded.first().id == id {
        Some(recorded.first())
    } else {
        find_by_id(recorded.drop_first(), id)
    }
}

/// The views of a list of transactions.
pub open spec fn transaction_views(txs: Seq<Transaction>) -> Seq<TransactionView> {
    Seq::new(txs.len(), |i: int| txs[i]@)
}

/// The transactions recorded so far, oldest first.
#[derive(Debug, Clone)]
pub struct TxHistory {
    pub(crate) txs: Vec<Transaction>,
}

impl View for TxHistory {
    type V = Seq<TransactionView>;

    open(crate) spec fn view(&self) -> Seq<TransactionView> {
        transaction_views(self.txs@)
    }
}

impl TxHistory {
    /// A history without transactions.
    pub fn new() -> (history: TxHistory)
        ensures
            history@ == Seq::<TransactionView>::empty(),
    {
        let history = TxHistory { txs: Vec::new() };
        proof {
            assert(history@ =~= Seq::<TransactionView>::empty());
        }
        history
    }

    /// Records `tx` after those already held.
    pub fn record(&mut self, tx: Transaction)
        ensures
            final(self)@ == old(self)@.push(tx@),
    {
        self.txs.push(tx);
        proof {
            assert(self@ =~= old(self)@.push(tx@));
        }
    }

    /// The recorded transaction whose identifier is `id`: the first one, if
    /// several carry it.
    pub fn find_transaction(&self, id: &str) -> (found: Option<&Transaction>)
        ensures
            found.is_some() == find_by_id(self@, id@).is_some(),
            found.is_some() ==> found.unwrap()@ == find_by_id(self@, id@).unwrap(),
    {
        let wanted = id.to_owned();
        let mut i: usize = 0;
        proof {
            assert(self@.skip(0) =~= self@);
        }
        while i < self.txs.len()
            invariant
                i <= self.txs.len(),
                wanted@ == id@,
                find_by_id(self@, id@) == find_by_id(self@.skip(i as int), id@),
            decreases self.txs.len() - i,
        {
            proof {
                let rest = self@.skip(i as int);
                assert(rest.first() == self.txs@[i as int]@);
                assert(rest.drop_first() =~= self@.skip(i + 1));
            }
            if self.txs[i].id == wanted {
                return Some(&self.txs[i]);
            }
            i = i + 1;
        }
        proof {
            assert(self@.skip(self.txs@.len() as int).len() == 0);
        }
        None
    }
}

} // verus!
