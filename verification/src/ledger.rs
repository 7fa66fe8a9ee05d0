//! The transaction ledger: an append-only list of entries numbered 1, 2, 3, …
//! in the order in which they were appended.

use vstd::prelude::*;
use crate::types::Transaction;
use crate::types::TransactionModel;
use crate::types::TransactionType;
use crate::types::text_option_view;

verus! {

/// The models of a sequence of entries.
pub open spec fn entry_models(entries: Seq<Transaction>) -> Seq<TransactionModel> {
    entries.map_values(|t: Transaction| t@)
}

/// The entries of a ledger are numbered 1, 2, 3, … without a gap.
pub open spec fn numbered(history: Seq<TransactionModel>) -> bool {
    forall|i: int| 0 <= i < history.len() ==> (#[trigger] history[i]).id == i + 1
}

/// Whether an entry is of the given kind.
pub open spec fn of_kind(kind: TransactionType) -> spec_fn(TransactionModel) -> bool {
    |t: TransactionModel| t.transaction_type == kind
}

/// The entry with the given id in a history, if there is one.
pub open spec fn entry_with_id(history: Seq<TransactionModel>, id: nat) -> Option<
    TransactionModel,
> {
    if 1 <= id <= history.len() {
        Some(history[id - 1])
    } else {
        None
    }
}

/// The ledger of one wallet.
#[derive(Clone, Debug, PartialEq, Eq)]
pub struct Ledger {
    pub entries: Vec<Transaction>,
    pub counter: u64,
}

impl View for Ledger {
    type V = Seq<TransactionModel>;

    open spec fn view(&self) -> Seq<TransactionModel> {
        entry_models(self.entries@)
    }
}

impl Ledger {
    /// The counter equals the number of entries, and the entries are numbered
    /// from 1 in the order in which they stand.
    pub open spec fn wf(&self) -> bool {
        &&& self.counter == self.entries@.len()
        &&& numbered(self@)
    }

    /// An empty ledger.
    pub fn new() -> (r: Ledger)
        ensures
            r.wf(),
            r@ == Seq::<TransactionModel>::empty(),
    {
        let r = Ledger { entries: Vec::new(), counter: 0 };
        assert(r@ =~= Seq::<TransactionModel>::empty());
        r
    }

    /// The ledger that holds the given entries at the given counter. There
    /// is none unless the counter is the number of entries and the entries
    /// are numbered 1, 2, 3, ….
    pub fn restore(entries: Vec<Transaction>, counter: u64) -> (r: Option<Ledger>)
        ensures
            match r {
                Some(ledger) => ledger.wf() && ledger.entries == entries && ledger.counter
                    == counter,
                None => !(counter == entries@.len() && numbered(entry_models(entries@))),
            },
    {
        let n: usize = entries.len();
        if n as u64 != counter {
            return None;
        }
        let mut i: usize = 0;
        while i < n
            invariant
                i <= n,
                n == entries@.len(),
                forall|k: int| 0 <= k < i ==> (#[trigger] entry_models(entries@)[k]).id == k + 1,
            decreases n - i,
        {
            if entries[i].id != i as u64 + 1 {
                proof {
                    assert(entry_models(entries@)[i as int].id != i + 1);
                }
                return None;
            }
            i = i + 1;
        }
        Some(Ledger { entries, counter })
    }

    /// Appends one entry under the next id. Nothing that the ledger held
    /// before is changed.
    pub fn add_transaction(
        &mut self,
        transaction_type: TransactionType,
        amount: i128,
        destination: Option<String>,
        fund_id: Option<String>,
        timestamp: u64,
        description: String,
    )
        requires
            old(self).wf(),
        ensures
            final(self).wf(),
            final(self)@ == old(self)@.push(
                (TransactionModel {
                    id: old(self)@.len() + 1,
                    transaction_type,
                    amount: amount as int,
                    destination: text_option_view(destination),
                    fund_id: text_option_view(fund_id),
                    timestamp: timestamp as nat,
                    description: description@,
                }),
            ),
    {
        // The list never holds more entries than a `usize` counts, so the
        // counter cannot wrap: the length after the push shows it.
        let id: u64 = self.counter.wrapping_add(1);
        let entry = Transaction {
            id,
            transaction_type,
            amount,
            destination,
            fund_id,
            timestamp,
            description,
        };
        self.entries.push(entry);
        self.counter = id;
        let n: usize = self.entries.len();
        proof {
            assert(n == old(self).entries@.len() + 1);
            assert(id == old(self).counter + 1);
            assert(final(self)@ =~= old(self)@.push(entry@));
        }
    }

    /// The number of entries, which is also the id of the last one.
    pub fn get_transaction_count(&self) -> (n: u64)
        requires
            self.wf(),
        ensures
            n == self@.len(),
    {
        self.counter
    }

    /// All entries, oldest first.
    pub fn get_history(&self) -> (r: Vec<Transaction>)
        ensures
            r@ == self.entries@,
            entry_models(r@) == self@,
    {
        let mut out: Vec<Transaction> = Vec::new();
        let mut i: usize = 0;
        while i < self.entries.len()
            invariant
                i <= self.entries@.len(),
                out@ == self.entries@.take(i as int),
            decreases self.entries@.len() - i,
        {
            out.push(self.entries[i].clone());
            proof {
                assert(out@ =~= self.entries@.take(i + 1));
            }
            i = i + 1;
        }
        proof {
            assert(self.entries@.take(i as int) =~= self.entries@);
        }
        out
    }

    /// The entry with the given id; `None` where the ledger has no such
    /// entry.
    pub fn get_transaction(&self, transaction_id: u64) -> (r: Option<Transaction>)
        requires
            self.wf(),
        ensures
            entry_option_is(r, entry_with_id(self@, transaction_id as nat)),
    {
        let n: usize = self.entries.len();
        if transaction_id >= 1 && transaction_id <= self.counter {
            assert(transaction_id - 1 < n);
            let i: usize = (transaction_id - 1) as usize;
            Some(self.entries[i].clone())
        } else {
            None
        }
    }

    /// The entries of one kind, oldest first.
    pub fn get_transactions_by_type(&self, transaction_type: TransactionType) -> (r: Vec<
        Transaction,
    >)
        ensures
            entry_models(r@) == self@.filter(of_kind(transaction_type)),
    {
        let ghost pred = of_kind(transaction_type);
        let mut out: Vec<Transaction> = Vec::new();
        let mut i: usize = 0;
        proof {
            reveal(Seq::filter);
            assert(self@.take(0) =~= Seq::<TransactionModel>::empty());
            assert(entry_models(out@) =~= self@.take(0).filter(pred));
        }
        while i < self.entries.len()
            invariant
                i <= self.entries@.len(),
                pred == of_kind(transaction_type),
                entry_models(out@) == self@.take(i as int).filter(pred),
            decreases self.entries@.len() - i,
        {
            let ghost before = out@;
            let matches_kind = self.entries[i].transaction_type == transaction_type;
            if matches_kind {
                out.push(self.entries[i].clone());
            }
            proof {
                reveal(Seq::filter);
                let next = self@.take(i + 1);
                assert(next.drop_last() =~= self@.take(i as int));
                assert(next.last() == self.entries@[i as int]@);
                if matches_kind {
                    assert(entry_models(out@) =~= entry_models(before).push(
                        self.entries@[i as int]@,
                    ));
                }
            }
            i = i + 1;
        }
        proof {
            assert(self@.take(i as int) =~= self@);
        }
        out
    }
}

/// An optional entry has the given optional model.
pub open spec fn entry_option_is(r: Option<Transaction>, m: Option<TransactionModel>) -> bool {
    match r {
        Some(t) => m == Some(t@),
        None => m.is_none(),
    }
}

} // verus!
