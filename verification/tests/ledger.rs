use gyro::allowance::AllowanceTable;
use gyro::gyro::Gyro;
use gyro::registry::User;
use gyro::storage_types::{Address, AssetType};

fn pool() -> Address {
    Address(1)
}

fn owner() -> Address {
    Address(2)
}

fn setup() -> Gyro {
    Gyro::new(pool(), owner())
}

#[test]
fn test_register_balance() {
    let mut g = setup();
    let user = Address(10);
    g.register_balance(user).unwrap();
    assert_eq!(g.get_user_balance(user, AssetType::USDC), Ok(0));
}

#[test]
fn test_transfer() {
    let mut g = setup();
    let user1 = Address(10);
    let user2 = Address(11);

    g.register_balance(user1).unwrap();
    g.register_balance(user2).unwrap();

    g.transfer(
        pool(),
        user1,
        AssetType::USDC,
        500,
        "2025-07-15".to_string(),
        "tx1".to_string(),
    )
    .unwrap();

    g.transfer(
        user1,
        user2,
        AssetType::USDC,
        500,
        "2025-07-15".to_string(),
        "tx2".to_string(),
    )
    .unwrap();

    assert_eq!(g.get_user_balance(user1, AssetType::USDC), Ok(0));
    assert_eq!(g.get_user_balance(user2, AssetType::USDC), Ok(500));
}

#[test]
fn test_withdraw() {
    let mut g = setup();
    let user = Address(10);

    g.register_balance(user).unwrap();

    g.transfer(
        pool(),
        user,
        AssetType::USDC,
        1500,
        "2025-07-15".to_string(),
        "tx1".to_string(),
    )
    .unwrap();

    let registry = User::new(owner());
    let mut allowances = AllowanceTable::new();
    allowances.set_allowance(owner(), 1000);

    g.withdraw(
        &registry,
        &allowances,
        user,
        AssetType::USDC,
        500,
        "2025-07-15".to_string(),
        "tx456".to_string(),
    )
    .unwrap();

    assert_eq!(g.get_user_balance(user, AssetType::USDC), Ok(1000));
}

#[test]
fn test_get_user_balance() {
    let mut g = setup();
    let user = Address(10);
    g.register_balance(user).unwrap();
    assert_eq!(g.get_user_balance(user, AssetType::USDC), Ok(0));
}

#[test]
fn test_get_tx_id() {
    let mut g = setup();
    let user = Address(10);
    g.register_balance(user).unwrap();

    let date = "2025-07-15".to_string();
    let tx_id = "tx123".to_string();

    g.transfer(pool(), user, AssetType::USDC, 500, date, tx_id.clone())
        .unwrap();

    let tx = g.get_tx_id(user, &tx_id).unwrap();
    assert_eq!(tx.amount, 500);
    assert_eq!(tx.to, user);
}

#[test]
fn test_get_transactions() {
    let mut g = setup();
    let user1 = Address(10);
    let user2 = Address(11);
    g.register_balance(user1).unwrap();
    g.register_balance(user2).unwrap();

    g.transfer(
        pool(),
        user1,
        AssetType::USDC,
        1000,
        "2025-07-15".to_string(),
        "tx1".to_string(),
    )
    .unwrap();

    g.transfer(
        user1,
        user2,
        AssetType::USDC,
        500,
        "2025-07-15".to_string(),
        "tx2".to_string(),
    )
    .unwrap();

    let txs = g.get_transactions(user1);
    assert_eq!(txs.len(), 2);
    assert_eq!(txs[0].amount, 1000);
    assert_eq!(txs[1].amount, 500);
}
