use gyro::allowance::AllowanceTable;
use gyro::balance::BalanceStore;
use gyro::errors::{TransactionError, UserError};
use gyro::gyro::Gyro;
use gyro::registry::User;
use gyro::storage_types::{Address, AssetType, Transaction, TransactionType};
use gyro::txlog::TransactionLog;

fn record(amount: u32, tx_id: &str) -> Transaction {
    Transaction {
        amount,
        date: "2025-07-15".to_string(),
        tx_id: tx_id.to_string(),
        to: Address(10),
        from: Address(1),
        transaction_type: TransactionType::Deposit,
        asset_type: AssetType::USDC,
    }
}

#[test]
fn append_duplicate_id_rejected_and_log_unchanged() {
    let mut log = TransactionLog::new();
    let account = Address(10);
    log.append(account, record(5, "x1")).unwrap();
    let before = log.list(account);

    let clash = record(7, "x1");
    assert_eq!(log.append(account, clash), Err(TransactionError::DuplicateTx));

    let after = log.list(account);
    assert_eq!(after.len(), before.len());
    assert_eq!(after.len(), 1);
    assert_eq!(after[0].amount, 5);
    assert_eq!(after[0].tx_id, "x1");
}

#[test]
fn same_id_may_appear_in_two_accounts_logs() {
    let mut log = TransactionLog::new();
    log.append(Address(10), record(5, "x1")).unwrap();
    log.append(Address(11), record(5, "x1")).unwrap();
    assert_eq!(log.list(Address(10)).len(), 1);
    assert_eq!(log.list(Address(11)).len(), 1);
}

#[test]
fn find_distinguishes_empty_log_from_missing_id() {
    let mut g = Gyro::new(Address(1), Address(2));
    let user = Address(10);
    g.register_balance(user).unwrap();

    let wanted = "tx9".to_string();
    assert_eq!(
        g.get_tx_id(user, &wanted).unwrap_err(),
        TransactionError::TransactionIsEmpty
    );

    g.transfer(
        Address(1),
        user,
        AssetType::USDC,
        500,
        "2025-07-15".to_string(),
        "tx1".to_string(),
    )
    .unwrap();

    assert_eq!(
        g.get_tx_id(user, &wanted).unwrap_err(),
        TransactionError::TransactionNotFound
    );
    assert_eq!(g.get_tx_id(user, &"tx1".to_string()).unwrap().amount, 500);
}

#[test]
fn transfer_duplicate_id_rejected_and_balances_unchanged() {
    let mut g = Gyro::new(Address(1), Address(2));
    let user = Address(10);
    g.register_balance(user).unwrap();
    g.transfer(
        Address(1),
        user,
        AssetType::USDC,
        500,
        "2025-07-15".to_string(),
        "tx1".to_string(),
    )
    .unwrap();

    let r = g.transfer(
        Address(1),
        user,
        AssetType::USDC,
        200,
        "2025-07-16".to_string(),
        "tx1".to_string(),
    );
    assert_eq!(r, Err(TransactionError::DuplicateTx));
    assert_eq!(g.get_user_balance(user, AssetType::USDC), Ok(500));
    assert_eq!(g.get_user_balance(Address(1), AssetType::USDC), Ok(999500));
    assert_eq!(g.get_transactions(user).len(), 1);
}

#[test]
fn transfer_to_self_rejected() {
    let mut g = Gyro::new(Address(1), Address(2));
    let user = Address(10);
    g.register_balance(user).unwrap();
    g.transfer(
        Address(1),
        user,
        AssetType::USDC,
        500,
        "2025-07-15".to_string(),
        "tx1".to_string(),
    )
    .unwrap();
    let r = g.transfer(
        user,
        user,
        AssetType::USDC,
        100,
        "2025-07-15".to_string(),
        "tx2".to_string(),
    );
    assert_eq!(r, Err(TransactionError::DuplicateTx));
    assert_eq!(g.get_user_balance(user, AssetType::USDC), Ok(500));
}

#[test]
fn transfer_zero_or_uncovered_amount_rejected() {
    let mut g = Gyro::new(Address(1), Address(2));
    let user = Address(10);
    g.register_balance(user).unwrap();
    let r0 = g.transfer(
        Address(1),
        user,
        AssetType::USDC,
        0,
        "2025-07-15".to_string(),
        "tx1".to_string(),
    );
    assert_eq!(r0, Err(TransactionError::InsufficientBalance));
    let r1 = g.transfer(
        user,
        Address(1),
        AssetType::USDC,
        1,
        "2025-07-15".to_string(),
        "tx1".to_string(),
    );
    assert_eq!(r1, Err(TransactionError::InsufficientBalance));
}

#[test]
fn transfer_unregistered_party_rejected() {
    let mut g = Gyro::new(Address(1), Address(2));
    let stranger = Address(33);
    let r = g.transfer(
        stranger,
        Address(1),
        AssetType::USDC,
        5,
        "2025-07-15".to_string(),
        "tx1".to_string(),
    );
    assert_eq!(r, Err(TransactionError::BalanceDoesNotExist));
    let r2 = g.transfer(
        Address(1),
        stranger,
        AssetType::USDC,
        5,
        "2025-07-15".to_string(),
        "tx1".to_string(),
    );
    assert_eq!(r2, Err(TransactionError::BalanceDoesNotExist));
}

#[test]
fn register_balance_twice_already_registered() {
    let mut g = Gyro::new(Address(1), Address(2));
    let user = Address(10);
    g.register_balance(user).unwrap();
    assert_eq!(g.register_balance(user), Err(UserError::AlreadyRegistered));
    assert_eq!(g.get_user_balance(user, AssetType::USDC), Ok(0));
}

#[test]
fn withdraw_liquidity_found_iff_an_allowance_covers() {
    let owner = Address(2);
    let registry = User::new(owner);

    let mut short = AllowanceTable::new();
    short.set_allowance(owner, 499);

    let mut g = Gyro::new(Address(1), owner);
    let user = Address(10);
    g.register_balance(user).unwrap();
    g.transfer(
        Address(1),
        user,
        AssetType::USDC,
        1500,
        "2025-07-15".to_string(),
        "tx1".to_string(),
    )
    .unwrap();

    let r = g.withdraw(
        &registry,
        &short,
        user,
        AssetType::USDC,
        500,
        "2025-07-15".to_string(),
        "tx2".to_string(),
    );
    assert_eq!(r, Err(TransactionError::InsufficientLiquidityFund));
    assert_eq!(g.get_user_balance(user, AssetType::USDC), Ok(1500));

    let mut enough = AllowanceTable::new();
    enough.set_allowance(owner, 500);
    g.withdraw(
        &registry,
        &enough,
        user,
        AssetType::USDC,
        500,
        "2025-07-15".to_string(),
        "tx2".to_string(),
    )
    .unwrap();
    assert_eq!(g.get_user_balance(user, AssetType::USDC), Ok(1000));
}

#[test]
fn withdraw_scans_admins_in_registry_order() {
    let owner = Address(2);
    let mut registry = User::new(owner);
    let second = Address(3);
    registry.register_user(second).unwrap();
    registry.add_admin(second).unwrap();

    let mut allowances = AllowanceTable::new();
    allowances.set_allowance(owner, 100);
    allowances.set_allowance(second, 1000);

    assert_eq!(
        Gyro::find_available_admin(&registry, &allowances, 50),
        Some(owner)
    );
    assert_eq!(
        Gyro::find_available_admin(&registry, &allowances, 500),
        Some(second)
    );
    assert_eq!(Gyro::find_available_admin(&registry, &allowances, 5000), None);
}

#[test]
fn withdraw_duplicate_id_rejected_unchanged() {
    let owner = Address(2);
    let registry = User::new(owner);
    let mut allowances = AllowanceTable::new();
    allowances.set_allowance(owner, 10000);

    let mut g = Gyro::new(Address(1), owner);
    let user = Address(10);
    g.register_balance(user).unwrap();
    g.transfer(
        Address(1),
        user,
        AssetType::USDC,
        1500,
        "2025-07-15".to_string(),
        "tx1".to_string(),
    )
    .unwrap();

    let r = g.withdraw(
        &registry,
        &allowances,
        user,
        AssetType::USDC,
        500,
        "2025-07-15".to_string(),
        "tx1".to_string(),
    );
    assert_eq!(r, Err(TransactionError::DuplicateTx));
    assert_eq!(g.get_user_balance(user, AssetType::USDC), Ok(1500));
    assert_eq!(g.get_transactions(user).len(), 1);
}

#[test]
fn withdraw_records_deposit_from_ledger_identity() {
    let owner = Address(2);
    let registry = User::new(owner);
    let mut allowances = AllowanceTable::new();
    allowances.set_allowance(owner, 10000);

    let mut g = Gyro::new(Address(1), owner);
    let user = Address(10);
    g.register_balance(user).unwrap();
    g.transfer(
        Address(1),
        user,
        AssetType::USDC,
        1500,
        "2025-07-15".to_string(),
        "tx1".to_string(),
    )
    .unwrap();
    g.withdraw(
        &registry,
        &allowances,
        user,
        AssetType::USDC,
        500,
        "2025-07-16".to_string(),
        "tx2".to_string(),
    )
    .unwrap();

    let tx = g.get_tx_id(user, &"tx2".to_string()).unwrap();
    assert_eq!(tx.amount, 500);
    assert_eq!(tx.from, Address(1));
    assert_eq!(tx.to, user);
    assert_eq!(tx.transaction_type, TransactionType::Deposit);
}

#[test]
fn admin_approve_usdc_checks_role_and_registration() {
    let owner = Address(2);
    let mut registry = User::new(owner);

    let mut g = Gyro::new(Address(1), owner);

    let stranger = Address(20);
    assert_eq!(
        g.admin_approve_usdc(&registry, stranger, 500),
        Err(UserError::NotAuthorized)
    );

    let unbanked = Address(21);
    registry.register_user(unbanked).unwrap();
    registry.add_admin(unbanked).unwrap();
    assert_eq!(
        g.admin_approve_usdc(&registry, unbanked, 500),
        Err(UserError::NotRegistered)
    );

    g.admin_approve_usdc(&registry, owner, 500).unwrap();
    assert_eq!(g.get_user_balance(owner, AssetType::USDC), Ok(1000500));
}

#[test]
fn inert_asset_has_no_balance_path() {
    let mut g = Gyro::new(Address(1), Address(2));
    let user = Address(10);
    g.register_balance(user).unwrap();
    assert_eq!(
        g.get_user_balance(user, AssetType::Bs),
        Err(TransactionError::BalanceDoesNotExist)
    );
    let r = g.transfer(
        Address(1),
        user,
        AssetType::Bs,
        5,
        "2025-07-15".to_string(),
        "tx1".to_string(),
    );
    assert_eq!(r, Err(TransactionError::BalanceDoesNotExist));
}

#[test]
fn credit_and_debit_adjust_and_guard() {
    let mut store = BalanceStore::new();
    let user = Address(10);
    assert_eq!(
        store.credit(user, AssetType::USDC, 5),
        Err(TransactionError::BalanceDoesNotExist)
    );
    store.register(user, AssetType::USDC).unwrap();
    assert_eq!(
        store.credit(user, AssetType::USDC, 0),
        Err(TransactionError::InsufficientBalance)
    );
    store.credit(user, AssetType::USDC, 5).unwrap();
    assert_eq!(store.get_balance(user, AssetType::USDC), Ok(5));
    assert_eq!(
        store.debit(user, AssetType::USDC, 10),
        Err(TransactionError::InsufficientBalance)
    );
    assert_eq!(
        store.debit(user, AssetType::USDC, 0),
        Err(TransactionError::InsufficientBalance)
    );
    store.debit(user, AssetType::USDC, 3).unwrap();
    assert_eq!(store.get_balance(user, AssetType::USDC), Ok(2));
}

#[test]
fn allowance_table_overwrites_and_defaults_to_zero() {
    let mut t = AllowanceTable::new();
    assert_eq!(t.allowance(Address(5)), 0);
    t.set_allowance(Address(5), 100);
    assert_eq!(t.allowance(Address(5)), 100);
    t.set_allowance(Address(5), 40);
    assert_eq!(t.allowance(Address(5)), 40);
    assert_eq!(t.allowance(Address(6)), 0);
}

#[test]
fn transfer_round_trip_restores_balances() {
    let mut g = Gyro::new(Address(1), Address(2));
    let a = Address(10);
    let b = Address(11);
    g.register_balance(a).unwrap();
    g.register_balance(b).unwrap();
    g.transfer(
        Address(1),
        a,
        AssetType::USDC,
        700,
        "2025-07-15".to_string(),
        "seed".to_string(),
    )
    .unwrap();

    g.transfer(
        a,
        b,
        AssetType::USDC,
        300,
        "2025-07-15".to_string(),
        "leg1".to_string(),
    )
    .unwrap();
    g.transfer(
        b,
        a,
        AssetType::USDC,
        300,
        "2025-07-15".to_string(),
        "leg2".to_string(),
    )
    .unwrap();

    assert_eq!(g.get_user_balance(a, AssetType::USDC), Ok(700));
    assert_eq!(g.get_user_balance(b, AssetType::USDC), Ok(0));
}
