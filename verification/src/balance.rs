//! The balance table: a persistent mapping from (account, asset) to a
//! non-negative amount.

use vstd::prelude::*;
use crate::errors::{TransactionError, UserError};
use crate::keyed::{
    Keyed, lemma_lookup_absent, lemma_lookup_present, lemma_lookup_push_all,
    lemma_lookup_update_all, lemma_unique_push, lemma_unique_update, lookup, unique_keys,
};
use crate::storage_types::{Address, AssetType};

verus! {

/// One row of the balance table.
#[derive(Clone, Copy, Debug, PartialEq, Eq, Structural)]
pub struct BalanceEntry {
    /// The account the balance belongs to.
    pub account: Address,
    /// The asset the balance is denominated in.
    pub asset: AssetType,
    /// The stored amount.
    pub amount: u32,
}

impl Keyed for BalanceEntry {
    type Key = (Address, AssetType);

    /// A row is filed under its (account, asset) pair.
    open spec fn key(&self) -> (Address, AssetType) {
        (self.account, self.asset)
    }
}

/// The balance table. Each registered (account, asset) pair holds exactly one
/// row; a pair with no row was never registered.
pub struct BalanceStore {
    entries: Vec<BalanceEntry>,
}

impl BalanceStore {
    /// Each (account, asset) pair holds at most one row.
    pub closed spec fn wf(self) -> bool {
        unique_keys(self.entries@)
    }

    /// The stored amount for (account, asset), or `None` if the pair was
    /// never registered.
    pub closed spec fn balance_of(self, account: Address, asset: AssetType) -> Option<u32> {
        match lookup(self.entries@, (account, asset)) {
            Some(e) => Some(e.amount),
            None => None,
        }
    }

    /// An empty table: nothing is registered.
    pub fn new() -> (s: Self)
        ensures
            s.wf(),
            forall|a: Address, t: AssetType| s.balance_of(a, t) is None,
    {
        BalanceStore { entries: Vec::new() }
    }

    /// The index of the row for (account, asset), if any.
    fn find_index(&self, account: Address, asset: AssetType) -> (r: Option<usize>)
        ensures
            match r {
                Some(i) => 0 <= i < self.entries@.len() && self.entries@[i as int].key() == (
                account,
                asset,
                ) && lookup(self.entries@, (account, asset)) == Some(self.entries@[i as int])
                    && forall|j: int| 0 <= j < i ==> self.entries@[j].key() != (account, asset),
                None => lookup(self.entries@, (account, asset)) is None,
            },
    {
        let n = self.entries.len();
        let mut i: usize = 0;
        while i < n
            invariant
                n == self.entries@.len(),
                0 <= i <= n,
                forall|j: int| 0 <= j < i ==> self.entries@[j].key() != (account, asset),
            decreases n - i,
        {
            let e = self.entries[i];
            if e.account == account && e.asset == asset {
                proof {
                    lemma_lookup_present(self.entries@, (account, asset), i as int);
                }
                return Some(i);
            }
            i = i + 1;
        }
        proof {
            lemma_lookup_absent(self.entries@, (account, asset));
        }
        None
    }

    /// Creates the row for (account, asset) at zero; an already-registered
    /// pair is refused unchanged.
    pub fn register(&mut self, account: Address, asset: AssetType) -> (r: Result<(), UserError>)
        requires
            old(self).wf(),
        ensures
            final(self).wf(),
            r is Ok <==> old(self).balance_of(account, asset) is None,
            r is Err ==> r == Err::<(), UserError>(UserError::AlreadyRegistered) && *final(self)
                == *old(self),
            r is Ok ==> final(self).balance_of(account, asset) == Some(0u32),
            r is Ok ==> forall|a: Address, t: AssetType|
                !(a == account && t == asset) ==> final(self).balance_of(a, t) == old(
                    self,
                ).balance_of(a, t),
    {
        match self.find_index(account, asset) {
            Some(_) => Err(UserError::AlreadyRegistered),
            None => {
                let ghost s0 = self.entries@;
                let e = BalanceEntry { account, asset, amount: 0 };
                proof {
                    lemma_lookup_push_all(s0, e);
                    lemma_unique_push(s0, e);
                }
                self.entries.push(e);
                Ok(())
            },
        }
    }

    /// The stored amount for (account, asset); an unregistered pair fails
    /// with `BalanceDoesNotExist`.
    pub fn get_balance(&self, account: Address, asset: AssetType) -> (r: Result<
        u32,
        TransactionError,
    >)
        ensures
            match self.balance_of(account, asset) {
                Some(b) => r == Ok::<u32, TransactionError>(b),
                None => r == Err::<u32, TransactionError>(TransactionError::BalanceDoesNotExist),
            },
    {
        match self.find_index(account, asset) {
            Some(i) => Ok(self.entries[i].amount),
            None => Err(TransactionError::BalanceDoesNotExist),
        }
    }

    /// Stores `amount` for (account, asset), creating the row if absent.
    pub fn set_balance(&mut self, account: Address, asset: AssetType, amount: u32)
        requires
            old(self).wf(),
        ensures
            final(self).wf(),
            final(self).balance_of(account, asset) == Some(amount),
            forall|a: Address, t: AssetType|
                !(a == account && t == asset) ==> final(self).balance_of(a, t) == old(
                    self,
                ).balance_of(a, t),
    {
        let e = BalanceEntry { account, asset, amount };
        match self.find_index(account, asset) {
            Some(i) => {
                let ghost s0 = self.entries@;
                proof {
                    lemma_lookup_update_all(s0, i as int, e);
                    lemma_unique_update(s0, i as int, e);
                }
                self.entries[i] = e;
            },
            None => {
                let ghost s0 = self.entries@;
                proof {
                    lemma_lookup_push_all(s0, e);
                    lemma_unique_push(s0, e);
                }
                self.entries.push(e);
            },
        }
    }

    /// Adds `amount` to the stored balance. A zero amount is refused as a
    /// no-op request, surfaced as `InsufficientBalance`; an unregistered pair
    /// fails with `BalanceDoesNotExist`.
    pub fn credit(&mut self, account: Address, asset: AssetType, amount: u32) -> (r: Result<
        (),
        TransactionError,
    >)
        requires
            old(self).wf(),
            old(self).balance_of(account, asset) matches Some(b) ==> b + amount <= u32::MAX,
        ensures
            final(self).wf(),
            r == (match old(self).balance_of(account, asset) {
                None => Err::<(), TransactionError>(TransactionError::BalanceDoesNotExist),
                Some(b) => if amount == 0 {
                    Err::<(), TransactionError>(TransactionError::InsufficientBalance)
                } else {
                    Ok::<(), TransactionError>(())
                },
            }),
            r is Err ==> *final(self) == *old(self),
            r is Ok ==> final(self).balance_of(account, asset) == Some(
                (old(self).balance_of(account, asset).unwrap() + amount) as u32,
            ),
            r is Ok ==> forall|a: Address, t: AssetType|
                !(a == account && t == asset) ==> final(self).balance_of(a, t) == old(
                    self,
                ).balance_of(a, t),
    {
        let b = match self.get_balance(account, asset) {
            Ok(b) => b,
            Err(e) => {
                return Err(e);
            },
        };
        if amount == 0 {
            return Err(TransactionError::InsufficientBalance);
        }
        self.set_balance(account, asset, b + amount);
        Ok(())
    }

    /// Subtracts `amount` from the stored balance. A zero amount or one
    /// exceeding the balance is refused with `InsufficientBalance`; an
    /// unregistered pair fails with `BalanceDoesNotExist`.
    pub fn debit(&mut self, account: Address, asset: AssetType, amount: u32) -> (r: Result<
        (),
        TransactionError,
    >)
        requires
            old(self).wf(),
        ensures
            final(self).wf(),
            r == (match old(self).balance_of(account, asset) {
                None => Err::<(), TransactionError>(TransactionError::BalanceDoesNotExist),
                Some(b) => if amount == 0 || amount > b {
                    Err::<(), TransactionError>(TransactionError::InsufficientBalance)
                } else {
                    Ok::<(), TransactionError>(())
                },
            }),
            r is Err ==> *final(self) == *old(self),
            r is Ok ==> final(self).balance_of(account, asset) == Some(
                (old(self).balance_of(account, asset).unwrap() - amount) as u32,
            ),
            r is Ok ==> forall|a: Address, t: AssetType|
                !(a == account && t == asset) ==> final(self).balance_of(a, t) == old(
                    self,
                ).balance_of(a, t),
    {
        let b = match self.get_balance(account, asset) {
            Ok(b) => b,
            Err(e) => {
                return Err(e);
            },
        };
        if amount == 0 || amount > b {
            return Err(TransactionError::InsufficientBalance);
        }
        self.set_balance(account, asset, b - amount);
        Ok(())
    }
}

} // verus!
