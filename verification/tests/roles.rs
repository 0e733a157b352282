use gyro::errors::UserError;
use gyro::registry::User;
use gyro::storage_types::Address;

#[test]
fn test_register_user() {
    let owner = Address(1);
    let mut client = User::new(owner);
    let user = Address(2);
    client.register_user(user).unwrap();
    assert!(client.is_user(user));
}

#[test]
fn test_add_admin() {
    let owner = Address(1);
    let mut client = User::new(owner);
    let user = Address(2);
    client.register_user(user).unwrap();
    client.add_admin(user).unwrap();
    assert!(client.is_admin(user));
}

#[test]
fn test_get_admins() {
    let owner = Address(1);
    let mut client = User::new(owner);
    let user = Address(2);
    client.register_user(user).unwrap();
    client.add_admin(user).unwrap();
    let admins = client.get_admins();
    assert_eq!(admins.len(), 2);
    assert_eq!(admins[0], owner);
    assert_eq!(admins[1], user);
}

#[test]
fn test_is_admin() {
    let owner = Address(1);
    let client = User::new(owner);
    let user = Address(2);
    assert!(client.is_admin(owner));
    assert!(!client.is_admin(user));
}

#[test]
fn test_is_user() {
    let owner = Address(1);
    let mut client = User::new(owner);
    let user = Address(2);
    client.register_user(user).unwrap();
    assert!(client.is_user(user));
    assert!(!client.is_user(owner));
}

#[test]
fn register_user_twice_already_registered() {
    let mut client = User::new(Address(1));
    let user = Address(2);
    client.register_user(user).unwrap();
    assert_eq!(client.register_user(user), Err(UserError::AlreadyRegistered));
    assert!(client.is_user(user));
}

#[test]
fn add_admin_twice_already_admin() {
    let mut client = User::new(Address(1));
    let user = Address(2);
    client.register_user(user).unwrap();
    client.add_admin(user).unwrap();
    assert_eq!(client.add_admin(user), Err(UserError::AlreadyAdmin));
    assert_eq!(client.get_admins().len(), 2);
}

#[test]
fn add_admin_unregistered_not_authorized() {
    let mut client = User::new(Address(1));
    assert_eq!(client.add_admin(Address(2)), Err(UserError::NotAuthorized));
    assert_eq!(client.get_admins().len(), 1);
}
