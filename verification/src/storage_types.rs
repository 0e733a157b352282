//! The ledger's data vocabulary: accounts, asset kinds, and transaction
//! records.

use vstd::prelude::*;
use crate::keyed::Keyed;

verus! {

/// An externally-authenticated principal, named by the identifier the hosting
/// platform assigned to it.
#[derive(Clone, Copy, Debug, PartialEq, Eq, Structural)]
pub struct Address(pub u64);

/// The closed set of asset kinds the ledger tracks balances for.
///
/// Only [`AssetType::USDC`] has a wired value-transfer path; [`AssetType::Bs`]
/// is a recognized placeholder awaiting an explicit future extension.
#[derive(Clone, Copy, Debug, PartialEq, Eq, Structural)]
pub enum AssetType {
    /// Placeholder asset kind with no external value-transfer path.
    Bs,
    /// The primary stable asset.
    USDC,
}

/// The kind of a transaction record.
#[derive(Clone, Copy, Debug, PartialEq, Eq, Structural)]
pub enum TransactionType {
    /// Value arriving at the account the record is filed under.
    Deposit,
    /// Value leaving towards the counterparty.
    Transfer,
}

/// One immutable record of a per-account transaction log.
///
/// The id is supplied by the caller and is meant to identify one logical
/// transfer; within one account's log it appears at most once.
#[derive(Debug)]
pub struct Transaction {
    /// The amount moved; always positive.
    pub amount: u32,
    /// An opaque date label; stored, never validated.
    pub date: String,
    /// The caller-supplied transaction id.
    pub tx_id: String,
    /// The receiving counterparty.
    pub to: Address,
    /// The sending counterparty.
    pub from: Address,
    /// The kind of the record.
    pub transaction_type: TransactionType,
    /// The asset the amount is denominated in.
    pub asset_type: AssetType,
}

impl Keyed for Transaction {
    type Key = Seq<char>;

    /// Within a log, a record is filed under its transaction id.
    open spec fn key(&self) -> Seq<char> {
        self.tx_id@
    }
}

impl Clone for Transaction {
    fn clone(&self) -> (r: Self)
        ensures
            r == *self,
    {
        Transaction {
            amount: self.amount,
            date: self.date.clone(),
            tx_id: self.tx_id.clone(),
            to: self.to,
            from: self.from,
            transaction_type: self.transaction_type,
            asset_type: self.asset_type,
        }
    }
}

} // verus!
