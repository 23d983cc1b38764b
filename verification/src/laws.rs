//! What holds of the library as a whole, proved from the contracts of its
//! functions.

use crate::commitment::commitment;
use crate::commitment::SwapParams;
use crate::error::SwapError;
use crate::guest::attested_digest;
use crate::guest::rejection;
use crate::host::attempt_of;
use crate::host::generated_digest;
use crate::host::ProverError;
use crate::host::Receipt;
use crate::journal::journal_layout;
use crate::journal::lemma_journal_round_trip;
use crate::ledger::Holding;
use crate::ledger::LedgerView;
use crate::ledger::Release;
use crate::state::SwapResult;
use vstd::prelude::*;

verus! {

/// On parameters that the guest program accepts, the attested backend and
/// the direct backend give the same digest.
pub proof fn lemma_backends_agree(params: SwapParams)
    requires
        rejection(params) is None,
    ensures
        attested_digest(params) == Some(commitment(params)),
{
}

/// On parameters that the guest program refuses, the attested backend gives
/// no digest, while the direct backend still gives the commitment.
pub proof fn lemma_backends_diverge(params: SwapParams)
    requires
        params.input_amount == 0 || params.output_amount == 0 || params.input_mint@
            == params.output_mint@,
    ensures
        attested_digest(params) is None,
        rejection(params) is Some,
{
}

/// Whichever path the proof generator takes, it settles on the commitment of
/// the parameters, as long as the journal of a run that ended well is the one
/// that commits what the guest program gives for these parameters.
pub proof fn lemma_generated_digest_is_commitment(
    params: SwapParams,
    run: Result<Receipt, ProverError>,
)
    requires
        run matches Ok(receipt) ==> exists|proof_hash: [u8; 32]|
            attested_digest(params) == Some(proof_hash@) && receipt.journal@ == journal_layout(
                proof_hash@,
            ),
    ensures
        generated_digest(params, run) == commitment(params),
{
    if let Ok(receipt) = run {
        let proof_hash = choose|proof_hash: [u8; 32]|
            attested_digest(params) == Some(proof_hash@) && receipt.journal@ == journal_layout(
                proof_hash@,
            );
        lemma_journal_round_trip(proof_hash@);
    }
}

/// The ledger after the callers in `callers` have tried, one after another,
/// to withdraw from the swap under `swap`, and how many of them were paid.
pub open spec fn after_withdrawals(ledger: LedgerView, swap: Seq<u8>, callers: Seq<[u8; 32]>) -> (
    LedgerView,
    nat,
)
    decreases callers.len(),
{
    if callers.len() == 0 {
        (ledger, 0)
    } else {
        let (before, paid) = after_withdrawals(ledger, swap, callers.drop_last());
        match before.withdraw(swap, callers.last()) {
            Ok((after, _)) => (after, paid + 1),
            Err(_) => (before, paid),
        }
    }
}

/// A successful withdrawal destroys the record, so that whoever tries next
/// against the same swap is told that there is none.
pub proof fn lemma_withdraw_settles(
    ledger: LedgerView,
    swap: Seq<u8>,
    caller: [u8; 32],
    next: [u8; 32],
)
    requires
        ledger.withdraw(swap, caller) is Ok,
    ensures
        !ledger.withdraw(swap, caller)->Ok_0.0.swaps.contains_key(swap),
        ledger.withdraw(swap, caller)->Ok_0.0.withdraw(swap, next) == Err::<
            (LedgerView, Release),
            SwapError,
        >(SwapError::RecordNotFound),
{
}

/// A record that is marked executed pays nobody: every withdrawal against it
/// fails, with `InvalidRecipient` or with `AlreadyExecuted`.
pub proof fn lemma_executed_record_pays_nobody(ledger: LedgerView, swap: Seq<u8>, caller: [u8; 32])
    requires
        ledger.swaps.contains_key(swap),
        ledger.swaps[swap].is_executed,
    ensures
        ledger.withdraw(swap, caller) is Err,
        ledger.withdraw(swap, caller)->Err_0 == SwapError::InvalidRecipient || ledger.withdraw(
            swap,
            caller,
        )->Err_0 == SwapError::AlreadyExecuted,
{
}

/// In whatever order callers try to withdraw from one swap, at most one of
/// them is paid, and once one was paid the record is gone.
pub proof fn lemma_withdraw_at_most_once(
    ledger: LedgerView,
    swap: Seq<u8>,
    callers: Seq<[u8; 32]>,
)
    ensures
        after_withdrawals(ledger, swap, callers).1 <= 1,
        after_withdrawals(ledger, swap, callers).1 == 1 ==> !after_withdrawals(
            ledger,
            swap,
            callers,
        ).0.swaps.contains_key(swap),
    decreases callers.len(),
{
    if callers.len() > 0 {
        lemma_withdraw_at_most_once(ledger, swap, callers.drop_last());
    }
}

/// Once one caller in a row of attempts was paid, every further attempt
/// against the same swap fails with `RecordNotFound`.
pub proof fn lemma_later_withdrawals_fail(
    ledger: LedgerView,
    swap: Seq<u8>,
    callers: Seq<[u8; 32]>,
    next: [u8; 32],
)
    requires
        after_withdrawals(ledger, swap, callers).1 >= 1,
    ensures
        after_withdrawals(ledger, swap, callers).0.withdraw(swap, next) == Err::<
            (LedgerView, Release),
            SwapError,
        >(SwapError::RecordNotFound),
{
    lemma_withdraw_at_most_once(ledger, swap, callers);
}

/// One call against the ledger.
pub enum Operation {
    /// Creating the vault.
    InitializeVault { bump: u8 },
    /// Depositing `amount` out of the holding `from`.
    Deposit { from: Holding, amount: u64 },
    /// Registering `record` under the identity `swap`.
    SubmitProof { swap: [u8; 32], record: SwapResult },
    /// Withdrawing from the swap under `swap` as `caller`.
    Withdraw { swap: [u8; 32], caller: [u8; 32] },
}

/// The ledger after one call: changed where the call is accepted, as it was
/// where the call is refused.
pub open spec fn after_operation(ledger: LedgerView, operation: Operation) -> LedgerView {
    match operation {
        Operation::InitializeVault { bump } => match ledger.initialize_vault(bump) {
            Ok(after) => after,
            Err(_) => ledger,
        },
        Operation::Deposit { from, amount } => match ledger.deposit(from, amount) {
            Ok((after, _)) => after,
            Err(_) => ledger,
        },
        Operation::SubmitProof { swap, record } => match ledger.submit_proof(swap@, record) {
            Ok(after) => after,
            Err(_) => ledger,
        },
        Operation::Withdraw { swap, caller } => match ledger.withdraw(swap@, caller) {
            Ok((after, _)) => after,
            Err(_) => ledger,
        },
    }
}

/// Whether the call is a withdrawal from the swap under `swap` that is paid.
pub open spec fn pays_out(ledger: LedgerView, operation: Operation, swap: Seq<u8>) -> bool {
    operation matches Operation::Withdraw { swap: target, caller } && target@ == swap
        && ledger.withdraw(swap, caller) is Ok
}

/// Whether the call registers a record under `swap` and is accepted.
pub open spec fn registers(ledger: LedgerView, operation: Operation, swap: Seq<u8>) -> bool {
    operation matches Operation::SubmitProof { swap: target, record } && target@ == swap
        && ledger.submit_proof(swap, record) is Ok
}

/// The ledger after the calls in `operations`, made one after another.
pub open spec fn after_operations(ledger: LedgerView, operations: Seq<Operation>) -> LedgerView
    decreases operations.len(),
{
    if operations.len() == 0 {
        ledger
    } else {
        after_operation(after_operations(ledger, operations.drop_last()), operations.last())
    }
}

/// How many of the calls in `operations` are paid withdrawals from the swap
/// under `swap`.
pub open spec fn payouts(ledger: LedgerView, operations: Seq<Operation>, swap: Seq<u8>) -> nat
    decreases operations.len(),
{
    if operations.len() == 0 {
        0
    } else {
        let before = after_operations(ledger, operations.drop_last());
        payouts(ledger, operations.drop_last(), swap) + if pays_out(
            before,
            operations.last(),
            swap,
        ) {
            1nat
        } else {
            0nat
        }
    }
}

/// How many of the calls in `operations` register a record under `swap`.
pub open spec fn registrations(
    ledger: LedgerView,
    operations: Seq<Operation>,
    swap: Seq<u8>,
) -> nat
    decreases operations.len(),
{
    if operations.len() == 0 {
        0
    } else {
        let before = after_operations(ledger, operations.drop_last());
        registrations(ledger, operations.drop_last(), swap) + if registers(
            before,
            operations.last(),
            swap,
        ) {
            1nat
        } else {
            0nat
        }
    }
}

/// One if a record stands under `swap`, zero if none does.
pub open spec fn records_under(ledger: LedgerView, swap: Seq<u8>) -> nat {
    if ledger.swaps.contains_key(swap) {
        1
    } else {
        0
    }
}

/// Whatever calls are made, by whomever and in whatever order, every record
/// pays out at most once: the withdrawals that were paid and the record that
/// is left add up to the registrations and the record that was there before.
pub proof fn lemma_every_record_pays_once(
    ledger: LedgerView,
    operations: Seq<Operation>,
    swap: Seq<u8>,
)
    ensures
        payouts(ledger, operations, swap) + records_under(
            after_operations(ledger, operations),
            swap,
        ) == registrations(ledger, operations, swap) + records_under(ledger, swap),
    decreases operations.len(),
{
    if operations.len() > 0 {
        lemma_every_record_pays_once(ledger, operations.drop_last(), swap);
    }
}

/// The vault is created once: whatever calls follow its creation, by
/// whomever and in whatever order, it stays the vault that was created.
pub proof fn lemma_vault_is_created_once(ledger: LedgerView, operations: Seq<Operation>)
    requires
        ledger.vault is Some,
    ensures
        after_operations(ledger, operations).vault == ledger.vault,
    decreases operations.len(),
{
    if operations.len() > 0 {
        lemma_vault_is_created_once(ledger, operations.drop_last());
    }
}

/// As long as nobody registers a new record under `swap`, at most one
/// withdrawal from it is paid, however the calls are interleaved.
pub proof fn lemma_one_payout_without_new_registration(
    ledger: LedgerView,
    operations: Seq<Operation>,
    swap: Seq<u8>,
)
    requires
        registrations(ledger, operations, swap) == 0,
    ensures
        payouts(ledger, operations, swap) <= 1,
        payouts(ledger, operations, swap) == 1 ==> !after_operations(
            ledger,
            operations,
        ).swaps.contains_key(swap),
{
    lemma_every_record_pays_once(ledger, operations, swap);
}

/// A withdrawal by anyone but the record's recipient fails with
/// `InvalidRecipient`, whatever else holds of the ledger.
pub proof fn lemma_only_recipient_withdraws(ledger: LedgerView, swap: Seq<u8>, caller: [u8; 32])
    requires
        ledger.swaps.contains_key(swap),
        ledger.swaps[swap].recipient@ != caller@,
    ensures
        ledger.withdraw(swap, caller) == Err::<(LedgerView, Release), SwapError>(
            SwapError::InvalidRecipient,
        ),
{
}

/// A deposit that is accepted raises the vault's balance of the asset by
/// exactly the amount and lowers the caller's holding by as much, leaves
/// every other balance and every swap as it was, and the new balance fits in
/// 64 bits: nothing wraps around.
pub proof fn lemma_deposit_is_exact(ledger: LedgerView, from: Holding, amount: u64, other: Seq<u8>)
    requires
        ledger.deposit(from, amount) is Ok,
        other != from.asset@,
    ensures
        ({
            let (after, left) = ledger.deposit(from, amount)->Ok_0;
            &&& after.balance(from.asset@) == ledger.balance(from.asset@) + amount
            &&& after.balance(from.asset@) <= u64::MAX
            &&& left.asset == from.asset
            &&& left.amount + amount == from.amount
            &&& after.balance(other) == ledger.balance(other)
            &&& after.swaps == ledger.swaps
            &&& after.vault == ledger.vault
        }),
{
}

/// Once the vault holds `u64::MAX` of an asset, it accepts no further
/// deposit of that asset but the empty one.
pub proof fn lemma_full_vault_accepts_nothing(ledger: LedgerView, from: Holding, amount: u64)
    requires
        ledger.vault is Some,
        ledger.balance(from.asset@) == u64::MAX,
        0 < amount <= from.amount,
    ensures
        ledger.deposit(from, amount) == Err::<(LedgerView, Holding), SwapError>(
            SwapError::BalanceOverflow,
        ),
{
}

/// A successful withdrawal lowers the vault's balance of the record's asset
/// by exactly the record's amount and authorizes the transfer of that amount
/// to the caller.
pub proof fn lemma_withdraw_pays_exactly(ledger: LedgerView, swap: Seq<u8>, caller: [u8; 32])
    requires
        ledger.withdraw(swap, caller) is Ok,
    ensures
        ({
            let record = ledger.swaps[swap];
            let (after, release) = ledger.withdraw(swap, caller)->Ok_0;
            &&& record.recipient@ == caller@
            &&& !record.is_executed
            &&& release.asset == record.output_token
            &&& release.amount == record.amount
            &&& release.to == caller
            &&& after.balance(record.output_token@) + record.amount == ledger.balance(
                record.output_token@,
            )
        }),
{
}

} // verus!
