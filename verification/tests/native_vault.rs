use private_swap_vault::native_vault::{create_vault, deposit, withdraw, VaultAccount, VaultError};

#[test]
fn native_vault_starts_empty() {
    assert_eq!(create_vault(), VaultAccount { balance: 0 });
}

#[test]
fn native_deposit_adds_to_the_balance() {
    let mut vault = create_vault();
    deposit(&mut vault, 0);
    assert_eq!(vault.balance, 0);
    deposit(&mut vault, 5);
    deposit(&mut vault, u64::MAX - 5);
    assert_eq!(vault.balance, u64::MAX);
}

#[test]
fn native_withdraw_takes_from_the_balance() {
    let mut vault = VaultAccount { balance: 10 };
    assert_eq!(withdraw(&mut vault, 4), Ok(()));
    assert_eq!(vault.balance, 6);
    assert_eq!(withdraw(&mut vault, 6), Ok(()));
    assert_eq!(vault.balance, 0);
    assert_eq!(withdraw(&mut vault, 0), Ok(()));
}

#[test]
fn native_withdraw_of_too_much_is_refused() {
    let mut vault = VaultAccount { balance: 10 };
    assert_eq!(withdraw(&mut vault, 11), Err(VaultError::InsufficientFunds));
    assert_eq!(vault.balance, 10);
    assert_eq!(VaultError::InsufficientFunds.message(), "Not enough funds to withdraw");
}
