//! A plain vault for the ledger's native balance: one account per user that
//! counts what was put in and what was taken out. It knows nothing of swaps
//! or commitments.

use vstd::prelude::*;

verus! {

/// The account of one user's vault.
#[derive(Clone, Copy, Debug, PartialEq, Eq)]
pub struct VaultAccount {
    pub balance: u64,
}

/// Why a withdrawal from a native vault is refused.
#[derive(Clone, Copy, Debug, PartialEq, Eq, Structural)]
pub enum VaultError {
    /// The vault holds less than was asked for.
    InsufficientFunds,
}

impl VaultError {
    /// The text that describes the error.
    pub fn message(&self) -> (text: &'static str)
        ensures
            text@ == "Not enough funds to withdraw"@,
    {
        "Not enough funds to withdraw"
    }
}

/// A new vault. It holds nothing.
pub fn create_vault() -> (vault: VaultAccount)
    ensures
        vault.balance == 0,
{
    VaultAccount { balance: 0 }
}

/// Counts `amount` into the vault.
pub fn deposit(vault: &mut VaultAccount, amount: u64)
    requires
        old(vault).balance + amount <= u64::MAX,
    ensures
        final(vault).balance == old(vault).balance + amount,
{
    vault.balance = vault.balance + amount;
}

/// Takes `amount` out of the vault. Fails with `InsufficientFunds`, and
/// changes nothing, where the vault holds less.
pub fn withdraw(vault: &mut VaultAccount, amount: u64) -> (outcome: Result<(), VaultError>)
    ensures
        outcome is Ok <==> old(vault).balance >= amount,
        outcome is Ok ==> final(vault).balance == old(vault).balance - amount,
        outcome is Err ==> outcome == Err::<(), VaultError>(VaultError::InsufficientFunds)
            && *final(vault) == *old(vault),
{
    if vault.balance < amount {
        return Err(VaultError::InsufficientFunds);
    }
    vault.balance = vault.balance - amount;
    Ok(())
}

} // verus!
