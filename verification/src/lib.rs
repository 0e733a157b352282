//! A multi-asset balance ledger with duplicate-transaction detection and an
//! admin-mediated liquidity-sourcing mechanism for withdrawals.
//!
//! Registered participants hold per-asset balances, transfer value between
//! each other, and withdraw value out of the ledger by drawing against
//! allowances that designated administrators have delegated to the ledger.
//! The ledger itself owns the balance table and the per-account transaction
//! logs; the role registry is a component of its own ([`registry::User`]),
//! and the external value-transfer service enters only through a snapshot of
//! its answers ([`allowance::AllowanceTable`]).
//!
//! Authorization (proving that a caller controls an account) is the hosting
//! platform's concern: every operation here assumes its caller has already
//! been authenticated.

pub mod allowance;
pub mod balance;
pub mod errors;
pub mod gyro;
pub mod keyed;
pub mod laws;
pub mod registry;
pub mod storage_types;
pub mod txlog;
