//! The ways in which a ledger operation fails.

use vstd::prelude::*;

verus! {

/// Why a ledger operation was refused. A refused operation changes nothing.
#[derive(Clone, Copy, Debug, PartialEq, Eq, Structural)]
pub enum SwapError {
    /// The vault exists already.
    AlreadyInitialized,
    /// The swap was paid out before, or a record stands under its identity.
    AlreadyExecuted,
    /// The caller is not the recipient that the record names.
    InvalidRecipient,
    /// The vault holds less of the asset than is to be released.
    InsufficientBalance,
    /// Reserved: no operation recomputes or checks a digest.
    InvalidProofHash,
    /// Reserved: no operation checks an asset identity.
    InvalidTokenMint,
    /// The vault has not been created yet.
    VaultNotInitialized,
    /// No record stands under the swap's identity.
    RecordNotFound,
    /// The vault's balance of the asset would pass `u64::MAX`.
    BalanceOverflow,
}

impl SwapError {
    /// The text that describes the error.
    pub open spec fn spec_message(self) -> Seq<char> {
        match self {
            SwapError::AlreadyInitialized => "Vault has already been initialized"@,
            SwapError::AlreadyExecuted => "Swap has already been executed"@,
            SwapError::InvalidRecipient => "Invalid recipient for this swap"@,
            SwapError::InsufficientBalance => "Insufficient vault balance"@,
            SwapError::InvalidProofHash => "Invalid proof hash"@,
            SwapError::InvalidTokenMint => "Invalid token mint"@,
            SwapError::VaultNotInitialized => "Vault has not been initialized"@,
            SwapError::RecordNotFound => "No swap is registered under this identity"@,
            SwapError::BalanceOverflow => "Vault balance would overflow"@,
        }
    }

    /// The text that describes the error.
    pub fn message(&self) -> (text: &'static str)
        ensures
            text@ == self.spec_message(),
    {
        match self {
            SwapError::AlreadyInitialized => "Vault has already been initialized",
            SwapError::AlreadyExecuted => "Swap has already been executed",
            SwapError::InvalidRecipient => "Invalid recipient for this swap",
            SwapError::InsufficientBalance => "Insufficient vault balance",
            SwapError::InvalidProofHash => "Invalid proof hash",
            SwapError::InvalidTokenMint => "Invalid token mint",
            SwapError::VaultNotInitialized => "Vault has not been initialized",
            SwapError::RecordNotFound => "No swap is registered under this identity",
            SwapError::BalanceOverflow => "Vault balance would overflow",
        }
    }
}

} // verus!
