//! A snapshot of the external value-transfer service's allowance answers:
//! how much each administrator has delegated to the ledger's own identity.
//!
//! The ledger only reads these values; recording an approval with the
//! service, and the expiry that comes with it, are the service's business.
//! The host queries the service and hands the answers over in this table.

use vstd::prelude::*;
use crate::keyed::{
    Keyed, lemma_lookup_absent, lemma_lookup_present, lemma_lookup_push_all,
    lemma_lookup_update_all, lemma_unique_push, lemma_unique_update, lookup, unique_keys,
};
use crate::storage_types::Address;

verus! {

/// One delegator's answered allowance.
struct AllowanceEntry {
    /// The delegating principal.
    owner: Address,
    /// How much it has delegated to the ledger.
    amount: u64,
}

impl Keyed for AllowanceEntry {
    type Key = Address;

    /// An answer is filed under its delegator.
    closed spec fn key(&self) -> Address {
        self.owner
    }
}

/// The allowance snapshot. A principal with no entry has delegated nothing.
pub struct AllowanceTable {
    entries: Vec<AllowanceEntry>,
}

impl AllowanceTable {
    /// Each delegator holds at most one entry.
    pub closed spec fn wf(self) -> bool {
        unique_keys(self.entries@)
    }

    /// The allowance `owner` has delegated to the ledger; zero if none was
    /// recorded.
    pub closed spec fn allowance_of(self, owner: Address) -> u64 {
        match lookup(self.entries@, owner) {
            Some(e) => e.amount,
            None => 0,
        }
    }

    /// An empty snapshot: every allowance is zero.
    pub fn new() -> (s: Self)
        ensures
            s.wf(),
            forall|a: Address| s.allowance_of(a) == 0,
    {
        AllowanceTable { entries: Vec::new() }
    }

    /// Records `owner`'s answered allowance, replacing any earlier answer.
    pub fn set_allowance(&mut self, owner: Address, amount: u64)
        requires
            old(self).wf(),
        ensures
            final(self).wf(),
            final(self).allowance_of(owner) == amount,
            forall|a: Address|
                a != owner ==> final(self).allowance_of(a) == old(self).allowance_of(a),
    {
        let e = AllowanceEntry { owner, amount };
        match self.find_index(owner) {
            Some(i) => {
                let ghost s0 = self.entries@;
                proof {
                    lemma_lookup_update_all(s0, i as int, e);
                    lemma_unique_update(s0, i as int, e);
                }
                self.entries[i] = e;
            },
            None => {
                let ghost s0 = self.entries@;
                proof {
                    lemma_lookup_push_all(s0, e);
                    lemma_unique_push(s0, e);
                }
                self.entries.push(e);
            },
        }
    }

    /// The allowance `owner` has delegated to the ledger.
    pub fn allowance(&self, owner: Address) -> (r: u64)
        ensures
            r == self.allowance_of(owner),
    {
        match self.find_index(owner) {
            Some(i) => self.entries[i].amount,
            None => 0,
        }
    }

    /// The index of `owner`'s entry, if any.
    fn find_index(&self, owner: Address) -> (r: Option<usize>)
        ensures
            match r {
                Some(i) => 0 <= i < self.entries@.len() && self.entries@[i as int].key() == owner
                    && lookup(self.entries@, owner) == Some(self.entries@[i as int]) && forall|
                    j: int,
                |
                    0 <= j < i ==> self.entries@[j].key() != owner,
                None => lookup(self.entries@, owner) is None,
            },
    {
        let n = self.entries.len();
        let mut i: usize = 0;
        while i < n
            invariant
                n == self.entries@.len(),
                0 <= i <= n,
                forall|j: int| 0 <= j < i ==> self.entries@[j].key() != owner,
            decreases n - i,
        {
            if self.entries[i].owner == owner {
                proof {
                    lemma_lookup_present(self.entries@, owner, i as int);
                }
                return Some(i);
            }
            i = i + 1;
        }
        proof {
            lemma_lookup_absent(self.entries@, owner);
        }
        None
    }
}

} // verus!
