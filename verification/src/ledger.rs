//! The ledger: vault custody and the swap controller.
//!
//! Every operation is one atomic step. It either applies in full or is
//! refused with an error and leaves the ledger as it was. An operation takes
//! the ledger by exclusive borrow, so no two of them overlap: of any number
//! of withdrawals that race for one record, one at most finds it.

use crate::commitment::same_identity;
use crate::error::SwapError;
use crate::identity_map::IdentityMap;
use crate::state::SwapResult;
use crate::state::Vault;
use vstd::prelude::*;

verus! {

/// An outbound transfer that the vault has authorized: `amount` of `asset`
/// leaves the vault for `to`, signed by the authority derived from `bump`.
#[derive(Clone, Copy, Debug, PartialEq, Eq)]
pub struct Release {
    pub asset: [u8; 32],
    pub amount: u64,
    pub to: [u8; 32],
    pub bump: u8,
}

/// What one party holds of one asset, outside the vault.
#[derive(Clone, Copy, Debug, PartialEq, Eq)]
pub struct Holding {
    pub asset: [u8; 32],
    pub amount: u64,
}

/// The vault, what it holds of each asset, and the pending swaps.
pub struct Ledger {
    vault: Option<Vault>,
    holdings: IdentityMap<u64>,
    swaps: IdentityMap<SwapResult>,
}

/// A ledger as a mathematical value: the vault if it exists, the vault's
/// balance of each asset it was ever credited with, and the record of each
/// pending swap under the swap's identity.
pub struct LedgerView {
    pub vault: Option<Vault>,
    pub balances: Map<Seq<u8>, u64>,
    pub swaps: Map<Seq<u8>, SwapResult>,
}

impl LedgerView {
    /// What the vault holds of `asset`; nothing, where it was never credited.
    pub open spec fn balance(self, asset: Seq<u8>) -> nat {
        if self.balances.contains_key(asset) {
            self.balances[asset] as nat
        } else {
            0
        }
    }

    /// Creating the vault: refused where it exists.
    pub open spec fn initialize_vault(self, bump: u8) -> Result<LedgerView, SwapError> {
        if self.vault is Some {
            Err(SwapError::AlreadyInitialized)
        } else {
            Ok(LedgerView { vault: Some(Vault { bump }), ..self })
        }
    }

    /// Moving `amount` out of the holding `from` into the vault's holding of
    /// the same asset: refused before the vault exists, where `from` holds
    /// less than `amount`, and where the vault's balance would pass
    /// `u64::MAX`. The second part of a success is what is left in `from`.
    pub open spec fn deposit(self, from: Holding, amount: u64) -> Result<
        (LedgerView, Holding),
        SwapError,
    > {
        if self.vault is None {
            Err(SwapError::VaultNotInitialized)
        } else if from.amount < amount {
            Err(SwapError::InsufficientBalance)
        } else if self.balance(from.asset@) + amount > u64::MAX {
            Err(SwapError::BalanceOverflow)
        } else {
            Ok(
                (
                    LedgerView {
                        balances: self.balances.insert(
                            from.asset@,
                            (self.balance(from.asset@) + amount) as u64,
                        ),
                        ..self
                    },
                    Holding { asset: from.asset, amount: (from.amount - amount) as u64 },
                ),
            )
        }
    }

    /// Registering `record` under `swap`: refused where a record stands there.
    pub open spec fn submit_proof(self, swap: Seq<u8>, record: SwapResult) -> Result<
        LedgerView,
        SwapError,
    > {
        if self.swaps.contains_key(swap) {
            Err(SwapError::AlreadyExecuted)
        } else {
            Ok(LedgerView { swaps: self.swaps.insert(swap, record), ..self })
        }
    }

    /// Releasing `amount` of `asset` to `to`: refused before the vault exists,
    /// and where the vault holds less than `amount`.
    pub open spec fn release(self, asset: [u8; 32], amount: u64, to: [u8; 32]) -> Result<
        (LedgerView, Release),
        SwapError,
    > {
        if self.vault is None {
            Err(SwapError::VaultNotInitialized)
        } else if self.balance(asset@) < amount {
            Err(SwapError::InsufficientBalance)
        } else {
            Ok(
                (
                    LedgerView {
                        balances: self.balances.insert(
                            asset@,
                            (self.balance(asset@) - amount) as u64,
                        ),
                        ..self
                    },
                    Release { asset, amount, to, bump: self.vault->0.bump },
                ),
            )
        }
    }

    /// A withdrawal by `caller` from the swap under `swap`. The checks come in
    /// this order: the record exists, the caller is its recipient, it was not
    /// executed, the vault can release. Success destroys the record.
    pub open spec fn withdraw(self, swap: Seq<u8>, caller: [u8; 32]) -> Result<
        (LedgerView, Release),
        SwapError,
    > {
        if !self.swaps.contains_key(swap) {
            Err(SwapError::RecordNotFound)
        } else {
            let record = self.swaps[swap];
            match authorization(record, caller) {
                Err(e) => Err(e),
                Ok(()) => match self.release(record.output_token, record.amount, caller) {
                    Err(e) => Err(e),
                    Ok((paid, release)) => Ok(
                        (LedgerView { swaps: paid.swaps.remove(swap), ..paid }, release),
                    ),
                },
            }
        }
    }
}

/// Whether `caller` may withdraw against `record`: only the recipient may,
/// and only while the record is not executed.
pub open spec fn authorization(record: SwapResult, caller: [u8; 32]) -> Result<(), SwapError> {
    if record.recipient@ != caller@ {
        Err(SwapError::InvalidRecipient)
    } else if record.is_executed {
        Err(SwapError::AlreadyExecuted)
    } else {
        Ok(())
    }
}

/// Decides whether `caller` may withdraw against `record`.
pub fn authorize_withdraw(record: &SwapResult, caller: &[u8; 32]) -> (verdict: Result<
    (),
    SwapError,
>)
    ensures
        verdict == authorization(*record, *caller),
{
    if !same_identity(&record.recipient, caller) {
        Err(SwapError::InvalidRecipient)
    } else if record.is_executed {
        Err(SwapError::AlreadyExecuted)
    } else {
        Ok(())
    }
}

impl View for Ledger {
    type V = LedgerView;

    closed spec fn view(&self) -> LedgerView {
        LedgerView { vault: self.vault, balances: self.holdings@, swaps: self.swaps@ }
    }
}

impl Ledger {
    /// A ledger with no vault, no holdings and no swaps.
    pub fn new() -> (ledger: Ledger)
        ensures
            ledger@ == (LedgerView { vault: None, balances: Map::empty(), swaps: Map::empty() }),
    {
        Ledger { vault: None, holdings: IdentityMap::new(), swaps: IdentityMap::new() }
    }

    /// The vault, if it was created.
    pub fn vault(&self) -> (vault: Option<Vault>)
        ensures
            vault == self@.vault,
    {
        self.vault
    }

    /// What the vault holds of `asset`.
    pub fn balance_of(&self, asset: &[u8; 32]) -> (amount: u64)
        ensures
            amount == self@.balance(asset@),
    {
        match self.holdings.get(asset) {
            Some(amount) => *amount,
            None => 0,
        }
    }

    /// The pending record under `swap`, if there is one.
    pub fn swap_record(&self, swap: &[u8; 32]) -> (record: Option<SwapResult>)
        ensures
            record == if self@.swaps.contains_key(swap@) {
                Some(self@.swaps[swap@])
            } else {
                None
            },
    {
        match self.swaps.get(swap) {
            Some(record) => Some(*record),
            None => None,
        }
    }

    /// Vault custody's outbound transfer. Only `withdraw` reaches it.
    fn release(&mut self, asset: &[u8; 32], amount: u64, to: &[u8; 32]) -> (outcome: Result<
        Release,
        SwapError,
    >)
        ensures
            match outcome {
                Ok(release) => old(self)@.release(*asset, amount, *to) == Ok::<
                    (LedgerView, Release),
                    SwapError,
                >((final(self)@, release)),
                Err(e) => old(self)@.release(*asset, amount, *to) == Err::<
                    (LedgerView, Release),
                    SwapError,
                >(e) && final(self)@ == old(self)@,
            },
    {
        let vault = match self.vault {
            Some(vault) => vault,
            None => {
                return Err(SwapError::VaultNotInitialized);
            },
        };
        let held = self.balance_of(asset);
        if held < amount {
            return Err(SwapError::InsufficientBalance);
        }
        self.holdings.insert(*asset, held - amount);
        Ok(Release { asset: *asset, amount, to: *to, bump: vault.bump })
    }
}

/// Creates the vault. Fails with `AlreadyInitialized` where it exists.
pub fn initialize_vault(ledger: &mut Ledger, bump: u8) -> (outcome: Result<(), SwapError>)
    ensures
        match outcome {
            Ok(()) => old(ledger)@.initialize_vault(bump) == Ok::<LedgerView, SwapError>(
                final(ledger)@,
            ),
            Err(e) => old(ledger)@.initialize_vault(bump) == Err::<LedgerView, SwapError>(e)
                && final(ledger)@ == old(ledger)@,
        },
{
    if ledger.vault.is_some() {
        return Err(SwapError::AlreadyInitialized);
    }
    ledger.vault = Some(Vault { bump });
    Ok(())
}

/// Moves `amount` out of the caller's holding `from` into the vault's holding
/// of the same asset. A deposit of zero is accepted.
///
/// Fails with `VaultNotInitialized` before the vault exists, with
/// `InsufficientBalance` where `from` holds less than `amount`, and with
/// `BalanceOverflow` where the vault's holding would pass `u64::MAX`.
pub fn deposit(ledger: &mut Ledger, from: &mut Holding, amount: u64) -> (outcome: Result<
    (),
    SwapError,
>)
    ensures
        match outcome {
            Ok(()) => old(ledger)@.deposit(*old(from), amount) == Ok::<
                (LedgerView, Holding),
                SwapError,
            >((final(ledger)@, *final(from))),
            Err(e) => old(ledger)@.deposit(*old(from), amount) == Err::<
                (LedgerView, Holding),
                SwapError,
            >(e) && final(ledger)@ == old(ledger)@ && *final(from) == *old(from),
        },
        outcome is Ok ==> final(ledger)@.balance(old(from).asset@) == old(ledger)@.balance(
            old(from).asset@,
        ) + amount && final(from).amount == old(from).amount - amount,
{
    if ledger.vault.is_none() {
        return Err(SwapError::VaultNotInitialized);
    }
    if from.amount < amount {
        return Err(SwapError::InsufficientBalance);
    }
    let held = ledger.balance_of(&from.asset);
    match held.checked_add(amount) {
        Some(total) => {
            ledger.holdings.insert(from.asset, total);
            from.amount = from.amount - amount;
            Ok(())
        },
        None => Err(SwapError::BalanceOverflow),
    }
}

/// Registers a pending swap under the identity `swap`. Anyone may register.
/// Fails with `AlreadyExecuted` where a record stands under `swap`.
pub fn submit_proof(
    ledger: &mut Ledger,
    swap: &[u8; 32],
    proof_hash: [u8; 32],
    output_mint: [u8; 32],
    output_amount: u64,
    recipient: [u8; 32],
) -> (outcome: Result<(), SwapError>)
    ensures
        match outcome {
            Ok(()) => old(ledger)@.submit_proof(
                swap@,
                SwapResult {
                    proof_hash,
                    output_token: output_mint,
                    amount: output_amount,
                    recipient,
                    is_executed: false,
                },
            ) == Ok::<LedgerView, SwapError>(final(ledger)@),
            Err(e) => e == SwapError::AlreadyExecuted && old(ledger)@.swaps.contains_key(swap@)
                && final(ledger)@ == old(ledger)@,
        },
{
    if ledger.swaps.get(swap).is_some() {
        return Err(SwapError::AlreadyExecuted);
    }
    let record = SwapResult {
        proof_hash,
        output_token: output_mint,
        amount: output_amount,
        recipient,
        is_executed: false,
    };
    ledger.swaps.insert(*swap, record);
    Ok(())
}

/// Pays out the swap under `swap` to `caller` and destroys its record.
///
/// Fails with `RecordNotFound` where no record stands under `swap`, with
/// `InvalidRecipient` where `caller` is not the record's recipient, with
/// `AlreadyExecuted` where the record is marked executed, with
/// `VaultNotInitialized` before the vault exists, and with
/// `InsufficientBalance` where the vault holds less than the record's amount.
/// The stored digest is carried along and never checked.
pub fn withdraw(ledger: &mut Ledger, swap: &[u8; 32], caller: &[u8; 32]) -> (outcome: Result<
    Release,
    SwapError,
>)
    ensures
        match outcome {
            Ok(release) => old(ledger)@.withdraw(swap@, *caller) == Ok::<
                (LedgerView, Release),
                SwapError,
            >((final(ledger)@, release)),
            Err(e) => old(ledger)@.withdraw(swap@, *caller) == Err::<
                (LedgerView, Release),
                SwapError,
            >(e) && final(ledger)@ == old(ledger)@,
        },
        old(ledger)@.swaps.contains_key(swap@) && old(ledger)@.swaps[swap@].recipient@ != caller@
            ==> outcome == Err::<Release, SwapError>(SwapError::InvalidRecipient) && final(ledger)@
            == old(ledger)@,
        outcome is Ok ==> !final(ledger)@.swaps.contains_key(swap@),
{
    let record = match ledger.swap_record(swap) {
        Some(record) => record,
        None => {
            return Err(SwapError::RecordNotFound);
        },
    };
    match authorize_withdraw(&record, caller) {
        Err(e) => {
            return Err(e);
        },
        Ok(()) => {},
    }
    let release = match ledger.release(&record.output_token, record.amount, caller) {
        Ok(release) => release,
        Err(e) => {
            return Err(e);
        },
    };
    ledger.swaps.remove(swap);
    Ok(release)
}

} // verus!
