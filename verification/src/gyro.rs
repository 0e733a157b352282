//! The ledger engine: registration, transfer, withdraw, and admin approval,
//! orchestrating the balance table, the transaction logs, the role registry,
//! and the allowance snapshot.
//!
//! Every operation runs to completion as one atomic unit: it either performs
//! all of its effects or fails with a typed error and changes nothing. In
//! particular the duplicate-id check happens before any balance is mutated,
//! so a rejected transaction never leaves the balances and the logs out of
//! step.

use vstd::prelude::*;
use crate::allowance::AllowanceTable;
use crate::balance::BalanceStore;
use crate::errors::{TransactionError, UserError};
use crate::registry::User;
use crate::storage_types::{Address, AssetType, Transaction, TransactionType};
use crate::txlog::{TransactionLog, appended_record, contains_tx, find_tx};

verus! {

/// The balance the ledger's own pool account and its owner each start with.
pub const INITIAL_POOL: u32 = 1000000;

/// The first administrator of `admins`, in order, whose allowance covers
/// `amount`; the scan priority is the registry's ordering.
pub open spec fn first_funded(admins: Seq<Address>, allowances: AllowanceTable, amount: u32) -> Option<Address>
    decreases admins.len(),
{
    if admins.len() <= 0 {
        None
    } else if allowances.allowance_of(admins[0]) >= amount {
        Some(admins[0])
    } else {
        first_funded(admins.drop_first(), allowances, amount)
    }
}

/// The scan returns the first administrator at which it can stop.
pub proof fn lemma_first_funded_present(
    admins: Seq<Address>,
    allowances: AllowanceTable,
    amount: u32,
    i: int,
)
    requires
        0 <= i < admins.len(),
        allowances.allowance_of(admins[i]) >= amount,
        forall|j: int| 0 <= j < i ==> allowances.allowance_of(admins[j]) < amount,
    ensures
        first_funded(admins, allowances, amount) == Some(admins[i]),
    decreases i,
{
    if i > 0 {
        assert forall|j: int| 0 <= j < i - 1 implies allowances.allowance_of(
            #[trigger] admins.drop_first()[j],
        ) < amount by {
            assert(admins.drop_first()[j] == admins[j + 1]);
        }
        assert(admins.drop_first()[i - 1] == admins[i]);
        lemma_first_funded_present(admins.drop_first(), allowances, amount, i - 1);
    }
}

/// A scan over administrators none of whom can cover the amount finds nobody.
pub proof fn lemma_first_funded_absent(admins: Seq<Address>, allowances: AllowanceTable, amount: u32)
    requires
        forall|j: int| 0 <= j < admins.len() ==> allowances.allowance_of(admins[j]) < amount,
    ensures
        first_funded(admins, allowances, amount) is None,
    decreases admins.len(),
{
    if admins.len() > 0 {
        assert forall|j: int| 0 <= j < admins.drop_first().len() implies allowances.allowance_of(
            #[trigger] admins.drop_first()[j],
        ) < amount by {
            assert(admins.drop_first()[j] == admins[j + 1]);
        }
        lemma_first_funded_absent(admins.drop_first(), allowances, amount);
    }
}

/// The liquidity scan comes up empty exactly when no administrator's
/// allowance covers the amount.
pub proof fn lemma_no_funded_admin_iff(
    admins: Seq<Address>,
    allowances: AllowanceTable,
    amount: u32,
)
    ensures
        first_funded(admins, allowances, amount) is None <==> (forall|i: int|
            0 <= i < admins.len() ==> allowances.allowance_of(#[trigger] admins[i]) < amount),
    decreases admins.len(),
{
    if admins.len() > 0 && allowances.allowance_of(admins[0]) < amount {
        lemma_no_funded_admin_iff(admins.drop_first(), allowances, amount);
        let d = admins.drop_first();
        if forall|i: int| 0 <= i < d.len() ==> allowances.allowance_of(#[trigger] d[i]) < amount {
            assert forall|i: int| 0 <= i < admins.len() implies allowances.allowance_of(
                #[trigger] admins[i],
            ) < amount by {
                if i > 0 {
                    assert(d[i - 1] == admins[i]);
                }
            }
        } else if forall|i: int|
            0 <= i < admins.len() ==> allowances.allowance_of(#[trigger] admins[i]) < amount {
            assert forall|j: int| 0 <= j < d.len() implies allowances.allowance_of(
                #[trigger] d[j],
            ) < amount by {
                assert(d[j] == admins[j + 1]);
            }
        }
    }
}

/// The ledger engine. It owns the balance table and the transaction logs;
/// the registry and the allowance snapshot are handed in by the caller.
pub struct Gyro {
    contract: Address,
    owner: Address,
    balances: BalanceStore,
    logs: TransactionLog,
}

/// The outcome `transfer` owes for the given pre-state and arguments.
pub open spec fn transfer_result(
    pre: Gyro,
    from: Address,
    to: Address,
    asset: AssetType,
    amount: u32,
    id: Seq<char>,
) -> Result<(), TransactionError> {
    if pre.balance_of(from, asset) is None {
        Err(TransactionError::BalanceDoesNotExist)
    } else if amount == 0 || amount > pre.balance_of(from, asset).unwrap() {
        Err(TransactionError::InsufficientBalance)
    } else if pre.balance_of(to, asset) is None {
        Err(TransactionError::BalanceDoesNotExist)
    } else if from == to || contains_tx(pre.log_of(to), id) || contains_tx(pre.log_of(from), id) {
        Err(TransactionError::DuplicateTx)
    } else {
        Ok(())
    }
}

/// `post` is `pre` after a successful transfer: the amount moved from one
/// balance to the other, a Transfer-kind record joined the recipient's log, a
/// Deposit-kind record with the roles swapped joined the sender's log, and
/// nothing else changed.
pub open spec fn transfer_post(
    pre: Gyro,
    post: Gyro,
    from: Address,
    to: Address,
    asset: AssetType,
    amount: u32,
    date: Seq<char>,
    id: Seq<char>,
) -> bool {
    &&& pre.balance_of(from, asset) is Some
    &&& pre.balance_of(to, asset) is Some
    &&& amount <= pre.balance_of(from, asset).unwrap()
    &&& pre.balance_of(to, asset).unwrap() + amount <= u32::MAX
    &&& post.balance_of(from, asset) == Some(
        (pre.balance_of(from, asset).unwrap() - amount) as u32,
    )
    &&& post.balance_of(to, asset) == Some((pre.balance_of(to, asset).unwrap() + amount) as u32)
    &&& forall|a: Address, t: AssetType|
        !(a == from && t == asset) && !(a == to && t == asset) ==> post.balance_of(a, t)
            == pre.balance_of(a, t)
    &&& appended_record(
        pre.log_of(to),
        post.log_of(to),
        amount,
        date,
        id,
        to,
        from,
        TransactionType::Transfer,
        asset,
    )
    &&& appended_record(
        pre.log_of(from),
        post.log_of(from),
        amount,
        date,
        id,
        from,
        to,
        TransactionType::Deposit,
        asset,
    )
    &&& post.has_log(from)
    &&& post.has_log(to)
    &&& forall|a: Address| a != from && a != to ==> post.log_of(a) == pre.log_of(a)
    &&& forall|a: Address| a != from && a != to ==> post.has_log(a) == pre.has_log(a)
}

/// The outcome `withdraw` owes for the given pre-state and arguments.
pub open spec fn withdraw_result(
    pre: Gyro,
    registry: User,
    allowances: AllowanceTable,
    account: Address,
    asset: AssetType,
    amount: u32,
    id: Seq<char>,
) -> Result<(), TransactionError> {
    if pre.balance_of(account, asset) is None {
        Err(TransactionError::BalanceDoesNotExist)
    } else if amount == 0 || amount > pre.balance_of(account, asset).unwrap() {
        Err(TransactionError::InsufficientBalance)
    } else if asset == AssetType::USDC && first_funded(
        registry.admins_seq(),
        allowances,
        amount,
    ) is None {
        Err(TransactionError::InsufficientLiquidityFund)
    } else if contains_tx(pre.log_of(account), id) {
        Err(TransactionError::DuplicateTx)
    } else {
        Ok(())
    }
}

/// `post` is `pre` after a successful withdrawal: the amount left the
/// account's balance, a Deposit-kind record from the ledger's own identity
/// joined the account's log, and nothing else changed.
pub open spec fn withdraw_post(
    pre: Gyro,
    post: Gyro,
    account: Address,
    asset: AssetType,
    amount: u32,
    date: Seq<char>,
    id: Seq<char>,
) -> bool {
    &&& pre.balance_of(account, asset) is Some
    &&& amount <= pre.balance_of(account, asset).unwrap()
    &&& post.balance_of(account, asset) == Some(
        (pre.balance_of(account, asset).unwrap() - amount) as u32,
    )
    &&& forall|a: Address, t: AssetType|
        !(a == account && t == asset) ==> post.balance_of(a, t) == pre.balance_of(a, t)
    &&& appended_record(
        pre.log_of(account),
        post.log_of(account),
        amount,
        date,
        id,
        account,
        pre.spec_contract(),
        TransactionType::Deposit,
        asset,
    )
    &&& post.has_log(account)
    &&& forall|a: Address| a != account ==> post.log_of(a) == pre.log_of(a)
    &&& forall|a: Address| a != account ==> post.has_log(a) == pre.has_log(a)
}

/// The outcome `admin_approve_usdc` owes for the given pre-state and
/// arguments.
pub open spec fn admin_approve_result(pre: Gyro, registry: User, admin: Address) -> Result<
    (),
    UserError,
> {
    if !registry.is_admin_spec(admin) {
        Err(UserError::NotAuthorized)
    } else if pre.balance_of(admin, AssetType::USDC) is None {
        Err(UserError::NotRegistered)
    } else {
        Ok(())
    }
}

impl Gyro {
    /// The balance table and the transaction logs each keep at most one row
    /// per key.
    pub closed spec fn wf(self) -> bool {
        &&& self.balances.wf()
        &&& self.logs.wf()
    }

    /// The ledger's own identity: the pool account transfers draw on, and
    /// the recorded sender of withdrawals.
    pub closed spec fn spec_contract(self) -> Address {
        self.contract
    }

    /// The owner fixed at construction.
    pub closed spec fn spec_owner(self) -> Address {
        self.owner
    }

    /// The stored amount for (account, asset), or `None` if the pair was
    /// never registered.
    pub closed spec fn balance_of(self, account: Address, asset: AssetType) -> Option<u32> {
        self.balances.balance_of(account, asset)
    }

    /// Whether the account holds a transaction log at all.
    pub closed spec fn has_log(self, account: Address) -> bool {
        self.logs.has_log(account)
    }

    /// The account's transaction records in insertion order.
    pub closed spec fn log_of(self, account: Address) -> Seq<Transaction> {
        self.logs.log_of(account)
    }

    /// A fresh ledger: the ledger's own pool account and the owner each
    /// start with [`INITIAL_POOL`] of the primary stable asset; nobody else
    /// is registered and no log exists.
    pub fn new(contract: Address, owner: Address) -> (g: Gyro)
        ensures
            g.wf(),
            g.spec_contract() == contract,
            g.spec_owner() == owner,
            g.balance_of(contract, AssetType::USDC) == Some(INITIAL_POOL),
            g.balance_of(owner, AssetType::USDC) == Some(INITIAL_POOL),
            forall|a: Address, t: AssetType|
                !(a == contract && t == AssetType::USDC) && !(a == owner && t == AssetType::USDC)
                    ==> g.balance_of(a, t) is None,
            forall|a: Address| !g.has_log(a),
            forall|a: Address| g.log_of(a) == Seq::<Transaction>::empty(),
    {
        let mut balances = BalanceStore::new();
        balances.set_balance(contract, AssetType::USDC, INITIAL_POOL);
        balances.set_balance(owner, AssetType::USDC, INITIAL_POOL);
        Gyro { contract, owner, balances, logs: TransactionLog::new() }
    }

    /// Creates a zero balance for (user, USDC); an already-registered user is
    /// refused with `AlreadyRegistered`, unchanged.
    pub fn register_balance(&mut self, user: Address) -> (r: Result<(), UserError>)
        requires
            old(self).wf(),
        ensures
            final(self).wf(),
            r is Ok <==> old(self).balance_of(user, AssetType::USDC) is None,
            r is Err ==> r == Err::<(), UserError>(UserError::AlreadyRegistered)
                && *final(self) == *old(self),
            r is Ok ==> final(self).balance_of(user, AssetType::USDC) == Some(0u32),
            r is Ok ==> forall|a: Address, t: AssetType|
                !(a == user && t == AssetType::USDC) ==> final(self).balance_of(a, t) == old(
                    self,
                ).balance_of(a, t),
            final(self).spec_contract() == old(self).spec_contract(),
            final(self).spec_owner() == old(self).spec_owner(),
            forall|a: Address| final(self).log_of(a) == old(self).log_of(a),
            forall|a: Address| final(self).has_log(a) == old(self).has_log(a),
    {
        self.balances.register(user, AssetType::USDC)
    }

    /// Marks `admin`'s supply-side approval in the ledger's books: a
    /// non-administrator is refused with `NotAuthorized`, an administrator
    /// with no balance entry with `NotRegistered`; otherwise the amount is
    /// credited to the administrator's own balance as a bookkeeping mirror.
    ///
    /// On `Ok` the host must record a 30-day allowance of `amount` from
    /// `admin` to the ledger's own identity with the value-transfer service;
    /// that recorded allowance is what a later withdrawal draws on.
    pub fn admin_approve_usdc(&mut self, registry: &User, admin: Address, amount: u32) -> (r:
        Result<(), UserError>)
        requires
            old(self).wf(),
            old(self).balance_of(admin, AssetType::USDC) matches Some(b) ==> b + amount
                <= u32::MAX,
        ensures
            final(self).wf(),
            r == admin_approve_result(*old(self), *registry, admin),
            r is Err ==> *final(self) == *old(self),
            r is Ok ==> final(self).balance_of(admin, AssetType::USDC) == Some(
                (old(self).balance_of(admin, AssetType::USDC).unwrap() + amount) as u32,
            ),
            r is Ok ==> forall|a: Address, t: AssetType|
                !(a == admin && t == AssetType::USDC) ==> final(self).balance_of(a, t) == old(
                    self,
                ).balance_of(a, t),
            final(self).spec_contract() == old(self).spec_contract(),
            final(self).spec_owner() == old(self).spec_owner(),
            forall|a: Address| final(self).log_of(a) == old(self).log_of(a),
            forall|a: Address| final(self).has_log(a) == old(self).has_log(a),
    {
        if !registry.is_admin(admin) {
            return Err(UserError::NotAuthorized);
        }
        let b = match self.balances.get_balance(admin, AssetType::USDC) {
            Ok(b) => b,
            Err(_) => {
                return Err(UserError::NotRegistered);
            },
        };
        self.balances.set_balance(admin, AssetType::USDC, b + amount);
        Ok(())
    }

    /// Moves `amount` of `asset_type` from `from` to `to` and records one
    /// Transfer-kind record in `to`'s log and one Deposit-kind record in
    /// `from`'s log, both under `tx_id`. The caller is assumed to have
    /// authorized `from`. Unregistered parties, a zero or uncovered amount,
    /// and an id already present in either log are refused, and a refusal
    /// changes nothing: the duplicate-id check happens before any balance
    /// moves.
    pub fn transfer(
        &mut self,
        from: Address,
        to: Address,
        asset_type: AssetType,
        amount: u32,
        date: String,
        tx_id: String,
    ) -> (r: Result<(), TransactionError>)
        requires
            old(self).wf(),
            old(self).balance_of(to, asset_type) matches Some(b) ==> (from == to || b + amount
                <= u32::MAX),
        ensures
            final(self).wf(),
            final(self).spec_contract() == old(self).spec_contract(),
            final(self).spec_owner() == old(self).spec_owner(),
            r == transfer_result(*old(self), from, to, asset_type, amount, tx_id@),
            r is Err ==> *final(self) == *old(self),
            r is Ok ==> transfer_post(
                *old(self),
                *final(self),
                from,
                to,
                asset_type,
                amount,
                date@,
                tx_id@,
            ),
    {
        let from_balance = match self.balances.get_balance(from, asset_type) {
            Ok(b) => b,
            Err(e) => {
                return Err(e);
            },
        };
        if amount == 0 || amount > from_balance {
            return Err(TransactionError::InsufficientBalance);
        }
        let to_balance = match self.balances.get_balance(to, asset_type) {
            Ok(b) => b,
            Err(e) => {
                return Err(e);
            },
        };
        if from == to {
            return Err(TransactionError::DuplicateTx);
        }
        if self.logs.contains(to, &tx_id) || self.logs.contains(from, &tx_id) {
            return Err(TransactionError::DuplicateTx);
        }
        self.balances.set_balance(to, asset_type, to_balance + amount);
        self.balances.set_balance(from, asset_type, from_balance - amount);
        let record = Transaction {
            amount,
            date: date.clone(),
            tx_id: tx_id.clone(),
            to,
            from,
            transaction_type: TransactionType::Transfer,
            asset_type,
        };
        let appended_to = self.logs.append(to, record);
        proof {
            assert(appended_to is Ok);
        }
        let mirror = Transaction {
            amount,
            date,
            tx_id,
            to: from,
            from: to,
            transaction_type: TransactionType::Deposit,
            asset_type,
        };
        let appended_from = self.logs.append(from, mirror);
        proof {
            assert(appended_from is Ok);
        }
        Ok(())
    }

    /// Draws `amount` of `asset_type` out of the ledger for `user`: the
    /// amount leaves the user's balance, backed — for the primary stable
    /// asset — by the first administrator whose delegated allowance covers
    /// it. The caller is assumed to have authorized `user`, and the host
    /// performs the actual value movement from that administrator (found
    /// with [`Gyro::find_available_admin`]) to the user. A Deposit-kind
    /// record from the ledger's own identity is appended to the user's log.
    /// Refusals change nothing: the duplicate-id check happens before the
    /// balance moves.
    pub fn withdraw(
        &mut self,
        registry: &User,
        allowances: &AllowanceTable,
        user: Address,
        asset_type: AssetType,
        amount: u32,
        date: String,
        tx_id: String,
    ) -> (r: Result<(), TransactionError>)
        requires
            old(self).wf(),
        ensures
            final(self).wf(),
            final(self).spec_contract() == old(self).spec_contract(),
            final(self).spec_owner() == old(self).spec_owner(),
            r == withdraw_result(
                *old(self),
                *registry,
                *allowances,
                user,
                asset_type,
                amount,
                tx_id@,
            ),
            r is Err ==> *final(self) == *old(self),
            r is Ok ==> withdraw_post(
                *old(self),
                *final(self),
                user,
                asset_type,
                amount,
                date@,
                tx_id@,
            ),
    {
        let user_balance = match self.balances.get_balance(user, asset_type) {
            Ok(b) => b,
            Err(e) => {
                return Err(e);
            },
        };
        if amount == 0 || amount > user_balance {
            return Err(TransactionError::InsufficientBalance);
        }
        match asset_type {
            AssetType::USDC => {
                match Self::find_available_admin(registry, allowances, amount) {
                    Some(_admin) => {
                        // the host moves `amount` from this administrator to
                        // `user` with the value-transfer service
                    },
                    None => {
                        return Err(TransactionError::InsufficientLiquidityFund);
                    },
                }
            },
            AssetType::Bs => {},
        }
        if self.logs.contains(user, &tx_id) {
            return Err(TransactionError::DuplicateTx);
        }
        self.balances.set_balance(user, asset_type, user_balance - amount);
        let record = Transaction {
            amount,
            date,
            tx_id,
            to: user,
            from: self.contract,
            transaction_type: TransactionType::Deposit,
            asset_type,
        };
        let appended = self.logs.append(user, record);
        proof {
            assert(appended is Ok);
        }
        Ok(())
    }

    /// The first administrator, in registry order, whose delegated allowance
    /// covers `amount`; `None` when no administrator's allowance does.
    pub fn find_available_admin(registry: &User, allowances: &AllowanceTable, amount: u32) -> (r:
        Option<Address>)
        ensures
            r == first_funded(registry.admins_seq(), *allowances, amount),
    {
        let admins = registry.get_admins();
        let n = admins.len();
        let mut i: usize = 0;
        while i < n
            invariant
                n == admins@.len(),
                admins@ == registry.admins_seq(),
                0 <= i <= n,
                forall|j: int| 0 <= j < i ==> allowances.allowance_of(#[trigger] admins@[j]) < amount,
            decreases n - i,
        {
            let a = allowances.allowance(admins[i]);
            if a >= amount as u64 {
                proof {
                    lemma_first_funded_present(admins@, *allowances, amount, i as int);
                }
                return Some(admins[i]);
            }
            i = i + 1;
        }
        proof {
            lemma_first_funded_absent(admins@, *allowances, amount);
        }
        None
    }

    /// The stored amount for (user, asset); an unregistered pair fails with
    /// `BalanceDoesNotExist`.
    pub fn get_user_balance(&self, user: Address, asset_type: AssetType) -> (r: Result<
        u32,
        TransactionError,
    >)
        ensures
            match self.balance_of(user, asset_type) {
                Some(b) => r == Ok::<u32, TransactionError>(b),
                None => r == Err::<u32, TransactionError>(TransactionError::BalanceDoesNotExist),
            },
    {
        self.balances.get_balance(user, asset_type)
    }

    /// The first record with id `tx_id` in the user's log. A user with no
    /// log fails with `TransactionIsEmpty`; a log with no matching record
    /// fails with `TransactionNotFound`.
    pub fn get_tx_id(&self, user: Address, tx_id: &String) -> (r: Result<
        Transaction,
        TransactionError,
    >)
        ensures
            !self.has_log(user) ==> r == Err::<Transaction, TransactionError>(
                TransactionError::TransactionIsEmpty,
            ),
            self.has_log(user) && find_tx(self.log_of(user), tx_id@) is None ==> r == Err::<
                Transaction,
                TransactionError,
            >(TransactionError::TransactionNotFound),
            self.has_log(user) && find_tx(self.log_of(user), tx_id@) is Some ==> r == Ok::<
                Transaction,
                TransactionError,
            >(find_tx(self.log_of(user), tx_id@).unwrap()),
    {
        self.logs.find(user, tx_id)
    }

    /// The user's transaction records in insertion order; a user with no log
    /// yields an empty list, never an error.
    pub fn get_transactions(&self, user: Address) -> (v: Vec<Transaction>)
        ensures
            v@ == self.log_of(user),
    {
        self.logs.list(user)
    }
}

} // verus!
