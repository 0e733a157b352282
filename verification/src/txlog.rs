//! Per-account, append-only transaction logs with duplicate-id rejection.

use vstd::prelude::*;
use crate::errors::TransactionError;
use crate::keyed::{
    Keyed, lemma_lookup_absent, lemma_lookup_present, lemma_lookup_push_all,
    lemma_lookup_update_all, lemma_unique_push, lemma_unique_update, lookup, unique_keys,
};
use crate::storage_types::{Address, AssetType, Transaction, TransactionType};

verus! {

/// Whether `log` already holds a record with the transaction id `id`.
pub open spec fn contains_tx(log: Seq<Transaction>, id: Seq<char>) -> bool {
    lookup(log, id) is Some
}

/// The first record of `log` with the transaction id `id`, if any.
pub open spec fn find_tx(log: Seq<Transaction>, id: Seq<char>) -> Option<Transaction> {
    lookup(log, id)
}

/// `post` is `pre` with exactly one record appended, whose fields are the
/// given ones.
pub open spec fn appended_record(
    pre: Seq<Transaction>,
    post: Seq<Transaction>,
    amount: u32,
    date: Seq<char>,
    id: Seq<char>,
    to: Address,
    from: Address,
    ty: TransactionType,
    asset: AssetType,
) -> bool {
    &&& post.len() == pre.len() + 1
    &&& forall|i: int| 0 <= i < pre.len() ==> post[i] == pre[i]
    &&& post.last().amount == amount
    &&& post.last().date@ == date
    &&& post.last().tx_id@ == id
    &&& post.last().to == to
    &&& post.last().from == from
    &&& post.last().transaction_type == ty
    &&& post.last().asset_type == asset
}

/// One account's log.
struct LogEntry {
    /// The account the log belongs to.
    account: Address,
    /// The records, oldest first.
    txs: Vec<Transaction>,
}

impl Keyed for LogEntry {
    type Key = Address;

    /// A log is filed under its account.
    closed spec fn key(&self) -> Address {
        self.account
    }
}

/// The index of the first record of `txs` whose id is `tx_id`, if any.
fn find_tx_index(txs: &Vec<Transaction>, tx_id: &String) -> (r: Option<usize>)
    ensures
        match r {
            Some(i) => 0 <= i < txs@.len() && txs@[i as int].tx_id@ == tx_id@ && lookup(
                txs@,
                tx_id@,
            ) == Some(txs@[i as int]),
            None => lookup(txs@, tx_id@) is None,
        },
{
    let n = txs.len();
    let mut i: usize = 0;
    while i < n
        invariant
            n == txs@.len(),
            0 <= i <= n,
            forall|j: int| 0 <= j < i ==> txs@[j].tx_id@ != tx_id@,
        decreases n - i,
    {
        if txs[i].tx_id.eq(tx_id) {
            proof {
                lemma_lookup_present(txs@, tx_id@, i as int);
            }
            return Some(i);
        }
        i = i + 1;
    }
    proof {
        lemma_lookup_absent(txs@, tx_id@);
    }
    None
}

/// The records of `txs`, copied in order.
fn clone_txs(txs: &Vec<Transaction>) -> (v: Vec<Transaction>)
    ensures
        v@ == txs@,
{
    let n = txs.len();
    let mut v: Vec<Transaction> = Vec::new();
    let mut i: usize = 0;
    while i < n
        invariant
            n == txs@.len(),
            0 <= i <= n,
            v@ =~= txs@.subrange(0, i as int),
        decreases n - i,
    {
        v.push(txs[i].clone());
        i = i + 1;
    }
    proof {
        assert(txs@.subrange(0, n as int) =~= txs@);
    }
    v
}

/// The table of per-account transaction logs.
pub struct TransactionLog {
    entries: Vec<LogEntry>,
}

impl TransactionLog {
    /// Each account holds at most one log.
    pub closed spec fn wf(self) -> bool {
        unique_keys(self.entries@)
    }

    /// Whether the account holds a log at all.
    pub closed spec fn has_log(self, account: Address) -> bool {
        lookup(self.entries@, account) is Some
    }

    /// The account's records in insertion order; empty if the account holds
    /// no log.
    pub closed spec fn log_of(self, account: Address) -> Seq<Transaction> {
        match lookup(self.entries@, account) {
            Some(e) => e.txs@,
            None => Seq::empty(),
        }
    }

    /// An empty table: no account holds a log.
    pub fn new() -> (s: Self)
        ensures
            s.wf(),
            forall|a: Address| !s.has_log(a),
            forall|a: Address| s.log_of(a) == Seq::<Transaction>::empty(),
    {
        TransactionLog { entries: Vec::new() }
    }

    /// The index of the account's log, if any.
    fn find_index(&self, account: Address) -> (r: Option<usize>)
        ensures
            match r {
                Some(i) => 0 <= i < self.entries@.len() && self.entries@[i as int].key() == account
                    && lookup(self.entries@, account) == Some(self.entries@[i as int]) && forall|
                    j: int,
                |
                    0 <= j < i ==> self.entries@[j].key() != account,
                None => lookup(self.entries@, account) is None,
            },
    {
        let n = self.entries.len();
        let mut i: usize = 0;
        while i < n
            invariant
                n == self.entries@.len(),
                0 <= i <= n,
                forall|j: int| 0 <= j < i ==> self.entries@[j].key() != account,
            decreases n - i,
        {
            if self.entries[i].account == account {
                proof {
                    lemma_lookup_present(self.entries@, account, i as int);
                }
                return Some(i);
            }
            i = i + 1;
        }
        proof {
            lemma_lookup_absent(self.entries@, account);
        }
        None
    }

    /// Appends `tx` to the account's log, creating the log if absent. A
    /// record whose id is already present in that same account's log is
    /// refused with `DuplicateTx`, and nothing changes.
    pub fn append(&mut self, account: Address, tx: Transaction) -> (r: Result<
        (),
        TransactionError,
    >)
        requires
            old(self).wf(),
        ensures
            final(self).wf(),
            r is Ok <==> !contains_tx(old(self).log_of(account), tx.tx_id@),
            r is Err ==> r == Err::<(), TransactionError>(TransactionError::DuplicateTx)
                && *final(self) == *old(self),
            r is Ok ==> final(self).log_of(account) == old(self).log_of(account).push(tx),
            r is Ok ==> final(self).has_log(account),
            r is Ok ==> forall|a: Address|
                a != account ==> final(self).log_of(a) == old(self).log_of(a),
            r is Ok ==> forall|a: Address|
                a != account ==> final(self).has_log(a) == old(self).has_log(a),
    {
        match self.find_index(account) {
            Some(i) => {
                if find_tx_index(&self.entries[i].txs, &tx.tx_id).is_some() {
                    return Err(TransactionError::DuplicateTx);
                }
                let ghost s0 = self.entries@;
                let mut entry = self.entries.remove(i);
                let ghost txs0 = entry.txs@;
                entry.txs.push(tx);
                self.entries.insert(i, entry);
                proof {
                    let e1 = self.entries@[i as int];
                    assert(self.entries@ =~= s0.update(i as int, e1));
                    lemma_lookup_update_all(s0, i as int, e1);
                    lemma_unique_update(s0, i as int, e1);
                }
                Ok(())
            },
            None => {
                let ghost s0 = self.entries@;
                let mut txs: Vec<Transaction> = Vec::new();
                txs.push(tx);
                let e = LogEntry { account, txs };
                proof {
                    lemma_lookup_push_all(s0, e);
                    lemma_unique_push(s0, e);
                }
                self.entries.push(e);
                proof {
                    assert(old(self).log_of(account).push(tx) =~= final(self).log_of(account));
                }
                Ok(())
            },
        }
    }

    /// The first record with id `tx_id` in the account's log. An account with
    /// no log fails with `TransactionIsEmpty`; a log with no matching record
    /// fails with `TransactionNotFound`.
    pub fn find(&self, account: Address, tx_id: &String) -> (r: Result<
        Transaction,
        TransactionError,
    >)
        ensures
            !self.has_log(account) ==> r == Err::<Transaction, TransactionError>(
                TransactionError::TransactionIsEmpty,
            ),
            self.has_log(account) && find_tx(self.log_of(account), tx_id@) is None ==> r == Err::<
                Transaction,
                TransactionError,
            >(TransactionError::TransactionNotFound),
            self.has_log(account) && find_tx(self.log_of(account), tx_id@) is Some ==> r == Ok::<
                Transaction,
                TransactionError,
            >(find_tx(self.log_of(account), tx_id@).unwrap()),
    {
        match self.find_index(account) {
            Some(i) => match find_tx_index(&self.entries[i].txs, tx_id) {
                Some(j) => Ok(self.entries[i].txs[j].clone()),
                None => Err(TransactionError::TransactionNotFound),
            },
            None => Err(TransactionError::TransactionIsEmpty),
        }
    }

    /// The account's records in insertion order; an account with no log
    /// yields an empty sequence, never an error.
    pub fn list(&self, account: Address) -> (v: Vec<Transaction>)
        ensures
            v@ == self.log_of(account),
    {
        match self.find_index(account) {
            Some(i) => clone_txs(&self.entries[i].txs),
            None => {
                let v: Vec<Transaction> = Vec::new();
                proof {
                    assert(v@ =~= self.log_of(account));
                }
                v
            },
        }
    }

    /// Whether the account's log holds a record with id `tx_id`.
    pub fn contains(&self, account: Address, tx_id: &String) -> (b: bool)
        ensures
            b == contains_tx(self.log_of(account), tx_id@),
    {
        match self.find_index(account) {
            Some(i) => find_tx_index(&self.entries[i].txs, tx_id).is_some(),
            None => false,
        }
    }
}

} // verus!
