use private_swap_vault::commitment::{compute_commitment, SwapParams};
use private_swap_vault::error::SwapError;
use private_swap_vault::ledger::{
    authorize_withdraw, deposit, initialize_vault, submit_proof, withdraw, Holding, Ledger,
    Release,
};
use private_swap_vault::state::{SwapResult, Vault};

const ASSET: [u8; 32] = [0x22; 32];
const OTHER_ASSET: [u8; 32] = [0x44; 32];
const RECIPIENT: [u8; 32] = [0x33; 32];
const STRANGER: [u8; 32] = [0x55; 32];
const SWAP: [u8; 32] = [0x01; 32];
const OTHER_SWAP: [u8; 32] = [0x02; 32];
const DIGEST: [u8; 32] = [0xd1; 32];

fn ready_ledger() -> Ledger {
    let mut ledger = Ledger::new();
    assert_eq!(initialize_vault(&mut ledger, 254), Ok(()));
    ledger
}

/// Deposits `amount` of `asset` out of a holding that holds just that much.
fn pay_in(ledger: &mut Ledger, asset: [u8; 32], amount: u64) -> Result<(), SwapError> {
    let mut wallet = Holding { asset, amount };
    let outcome = deposit(ledger, &mut wallet, amount);
    match outcome {
        Ok(()) => assert_eq!(wallet, Holding { asset, amount: 0 }),
        Err(_) => assert_eq!(wallet, Holding { asset, amount }),
    }
    outcome
}

fn pending_record() -> SwapResult {
    SwapResult {
        proof_hash: DIGEST,
        output_token: ASSET,
        amount: 950_000,
        recipient: RECIPIENT,
        is_executed: false,
    }
}

#[test]
fn new_ledger_is_empty() {
    let ledger = Ledger::new();
    assert_eq!(ledger.vault(), None);
    assert_eq!(ledger.balance_of(&ASSET), 0);
    assert_eq!(ledger.swap_record(&SWAP), None);
}

#[test]
fn initialize_creates_the_vault_once() {
    let mut ledger = Ledger::new();
    assert_eq!(initialize_vault(&mut ledger, 254), Ok(()));
    assert_eq!(ledger.vault(), Some(Vault { bump: 254 }));
    assert_eq!(initialize_vault(&mut ledger, 7), Err(SwapError::AlreadyInitialized));
    assert_eq!(ledger.vault(), Some(Vault { bump: 254 }));
    assert_eq!(initialize_vault(&mut ledger, 254), Err(SwapError::AlreadyInitialized));
}

#[test]
fn deposit_needs_the_vault() {
    let mut ledger = Ledger::new();
    assert_eq!(pay_in(&mut ledger, ASSET, 5), Err(SwapError::VaultNotInitialized));
    assert_eq!(ledger.balance_of(&ASSET), 0);
    let mut wallet = Holding { asset: ASSET, amount: 1 };
    assert_eq!(deposit(&mut ledger, &mut wallet, 2), Err(SwapError::VaultNotInitialized));
}

#[test]
fn deposit_of_zero_changes_no_balance() {
    let mut ledger = ready_ledger();
    assert_eq!(pay_in(&mut ledger, ASSET, 0), Ok(()));
    assert_eq!(ledger.balance_of(&ASSET), 0);
    assert_eq!(pay_in(&mut ledger, ASSET, 7), Ok(()));
    assert_eq!(pay_in(&mut ledger, ASSET, 0), Ok(()));
    assert_eq!(ledger.balance_of(&ASSET), 7);
}

#[test]
fn deposit_of_one() {
    let mut ledger = ready_ledger();
    assert_eq!(pay_in(&mut ledger, ASSET, 1), Ok(()));
    assert_eq!(ledger.balance_of(&ASSET), 1);
    assert_eq!(pay_in(&mut ledger, ASSET, 1), Ok(()));
    assert_eq!(ledger.balance_of(&ASSET), 2);
}

#[test]
fn deposit_of_the_largest_amount() {
    let mut ledger = ready_ledger();
    assert_eq!(pay_in(&mut ledger, ASSET, u64::MAX), Ok(()));
    assert_eq!(ledger.balance_of(&ASSET), u64::MAX);
}

#[test]
fn second_deposit_of_the_largest_amount_is_refused() {
    let mut ledger = ready_ledger();
    assert_eq!(pay_in(&mut ledger, ASSET, u64::MAX), Ok(()));
    assert_eq!(pay_in(&mut ledger, ASSET, u64::MAX), Err(SwapError::BalanceOverflow));
    assert_eq!(ledger.balance_of(&ASSET), u64::MAX);
    assert_eq!(pay_in(&mut ledger, ASSET, 1), Err(SwapError::BalanceOverflow));
    assert_eq!(ledger.balance_of(&ASSET), u64::MAX);
    assert_eq!(pay_in(&mut ledger, ASSET, 0), Ok(()));
    assert_eq!(ledger.balance_of(&ASSET), u64::MAX);
}

#[test]
fn deposit_fills_the_balance_up_to_the_limit() {
    let mut ledger = ready_ledger();
    assert_eq!(pay_in(&mut ledger, ASSET, u64::MAX - 1), Ok(()));
    assert_eq!(pay_in(&mut ledger, ASSET, 2), Err(SwapError::BalanceOverflow));
    assert_eq!(pay_in(&mut ledger, ASSET, 1), Ok(()));
    assert_eq!(ledger.balance_of(&ASSET), u64::MAX);
}

#[test]
fn deposit_takes_the_amount_out_of_the_holding() {
    let mut ledger = ready_ledger();
    let mut wallet = Holding { asset: ASSET, amount: 100 };
    assert_eq!(deposit(&mut ledger, &mut wallet, 30), Ok(()));
    assert_eq!(wallet, Holding { asset: ASSET, amount: 70 });
    assert_eq!(ledger.balance_of(&ASSET), 30);
    assert_eq!(deposit(&mut ledger, &mut wallet, 70), Ok(()));
    assert_eq!(wallet, Holding { asset: ASSET, amount: 0 });
    assert_eq!(ledger.balance_of(&ASSET), 100);
}

#[test]
fn deposit_of_more_than_the_holding_is_refused() {
    let mut ledger = ready_ledger();
    let mut wallet = Holding { asset: ASSET, amount: 10 };
    assert_eq!(deposit(&mut ledger, &mut wallet, 11), Err(SwapError::InsufficientBalance));
    assert_eq!(wallet, Holding { asset: ASSET, amount: 10 });
    assert_eq!(ledger.balance_of(&ASSET), 0);
    let mut empty = Holding { asset: ASSET, amount: 0 };
    assert_eq!(deposit(&mut ledger, &mut empty, 1), Err(SwapError::InsufficientBalance));
    assert_eq!(deposit(&mut ledger, &mut empty, 0), Ok(()));
}

#[test]
fn deposit_checks_the_holding_before_the_limit() {
    let mut ledger = ready_ledger();
    assert_eq!(pay_in(&mut ledger, ASSET, u64::MAX), Ok(()));
    let mut wallet = Holding { asset: ASSET, amount: 1 };
    assert_eq!(deposit(&mut ledger, &mut wallet, 2), Err(SwapError::InsufficientBalance));
    assert_eq!(deposit(&mut ledger, &mut wallet, 1), Err(SwapError::BalanceOverflow));
    assert_eq!(wallet, Holding { asset: ASSET, amount: 1 });
}

#[test]
fn deposits_keep_assets_apart() {
    let mut ledger = ready_ledger();
    assert_eq!(pay_in(&mut ledger, ASSET, 10), Ok(()));
    assert_eq!(pay_in(&mut ledger, OTHER_ASSET, 3), Ok(()));
    assert_eq!(pay_in(&mut ledger, ASSET, 5), Ok(()));
    assert_eq!(ledger.balance_of(&ASSET), 15);
    assert_eq!(ledger.balance_of(&OTHER_ASSET), 3);
    assert_eq!(ledger.balance_of(&RECIPIENT), 0);
}

#[test]
fn submit_creates_a_pending_record() {
    let mut ledger = Ledger::new();
    assert_eq!(submit_proof(&mut ledger, &SWAP, DIGEST, ASSET, 950_000, RECIPIENT), Ok(()));
    assert_eq!(ledger.swap_record(&SWAP), Some(pending_record()));
    assert_eq!(ledger.swap_record(&OTHER_SWAP), None);
}

#[test]
fn submit_refuses_an_identity_that_is_taken() {
    let mut ledger = Ledger::new();
    assert_eq!(submit_proof(&mut ledger, &SWAP, DIGEST, ASSET, 950_000, RECIPIENT), Ok(()));
    assert_eq!(
        submit_proof(&mut ledger, &SWAP, [0; 32], OTHER_ASSET, 1, STRANGER),
        Err(SwapError::AlreadyExecuted)
    );
    assert_eq!(ledger.swap_record(&SWAP), Some(pending_record()));
}

#[test]
fn submit_accepts_zero_amounts_and_any_registrant() {
    let mut ledger = Ledger::new();
    assert_eq!(submit_proof(&mut ledger, &SWAP, DIGEST, ASSET, 0, RECIPIENT), Ok(()));
    assert_eq!(ledger.swap_record(&SWAP).unwrap().amount, 0);
    assert_eq!(submit_proof(&mut ledger, &OTHER_SWAP, DIGEST, ASSET, 9, RECIPIENT), Ok(()));
    assert_eq!(ledger.swap_record(&OTHER_SWAP).unwrap().amount, 9);
}

#[test]
fn withdraw_without_a_record() {
    let mut ledger = ready_ledger();
    assert_eq!(withdraw(&mut ledger, &SWAP, &RECIPIENT), Err(SwapError::RecordNotFound));
}

#[test]
fn withdraw_by_a_stranger_changes_nothing() {
    let mut ledger = ready_ledger();
    assert_eq!(pay_in(&mut ledger, ASSET, 1_000_000), Ok(()));
    assert_eq!(submit_proof(&mut ledger, &SWAP, DIGEST, ASSET, 950_000, RECIPIENT), Ok(()));
    assert_eq!(withdraw(&mut ledger, &SWAP, &STRANGER), Err(SwapError::InvalidRecipient));
    assert_eq!(ledger.balance_of(&ASSET), 1_000_000);
    assert_eq!(ledger.swap_record(&SWAP), Some(pending_record()));
    assert_eq!(ledger.vault(), Some(Vault { bump: 254 }));
}

#[test]
fn withdraw_by_a_stranger_fails_before_the_balance_is_looked_at() {
    let mut ledger = Ledger::new();
    assert_eq!(submit_proof(&mut ledger, &SWAP, DIGEST, ASSET, 950_000, RECIPIENT), Ok(()));
    assert_eq!(withdraw(&mut ledger, &SWAP, &STRANGER), Err(SwapError::InvalidRecipient));
    assert_eq!(withdraw(&mut ledger, &SWAP, &RECIPIENT), Err(SwapError::VaultNotInitialized));
    assert_eq!(ledger.swap_record(&SWAP), Some(pending_record()));
}

#[test]
fn withdraw_needs_enough_in_the_vault() {
    let mut ledger = ready_ledger();
    assert_eq!(pay_in(&mut ledger, ASSET, 949_999), Ok(()));
    assert_eq!(pay_in(&mut ledger, OTHER_ASSET, 5_000_000), Ok(()));
    assert_eq!(submit_proof(&mut ledger, &SWAP, DIGEST, ASSET, 950_000, RECIPIENT), Ok(()));
    assert_eq!(withdraw(&mut ledger, &SWAP, &RECIPIENT), Err(SwapError::InsufficientBalance));
    assert_eq!(ledger.balance_of(&ASSET), 949_999);
    assert_eq!(ledger.swap_record(&SWAP), Some(pending_record()));
    assert_eq!(pay_in(&mut ledger, ASSET, 1), Ok(()));
    assert!(withdraw(&mut ledger, &SWAP, &RECIPIENT).is_ok());
    assert_eq!(ledger.balance_of(&ASSET), 0);
    assert_eq!(ledger.balance_of(&OTHER_ASSET), 5_000_000);
}

#[test]
fn withdraw_pays_the_recipient_once() {
    let mut ledger = ready_ledger();
    assert_eq!(pay_in(&mut ledger, ASSET, 1_000_000), Ok(()));
    assert_eq!(submit_proof(&mut ledger, &SWAP, DIGEST, ASSET, 950_000, RECIPIENT), Ok(()));
    assert_eq!(
        withdraw(&mut ledger, &SWAP, &RECIPIENT),
        Ok(Release { asset: ASSET, amount: 950_000, to: RECIPIENT, bump: 254 })
    );
    assert_eq!(ledger.balance_of(&ASSET), 50_000);
    assert_eq!(ledger.swap_record(&SWAP), None);
    assert_eq!(withdraw(&mut ledger, &SWAP, &RECIPIENT), Err(SwapError::RecordNotFound));
    assert_eq!(withdraw(&mut ledger, &SWAP, &STRANGER), Err(SwapError::RecordNotFound));
    assert_eq!(ledger.balance_of(&ASSET), 50_000);
}

#[test]
fn withdraw_of_a_zero_amount() {
    let mut ledger = ready_ledger();
    assert_eq!(submit_proof(&mut ledger, &SWAP, DIGEST, ASSET, 0, RECIPIENT), Ok(()));
    assert_eq!(
        withdraw(&mut ledger, &SWAP, &RECIPIENT),
        Ok(Release { asset: ASSET, amount: 0, to: RECIPIENT, bump: 254 })
    );
    assert_eq!(ledger.balance_of(&ASSET), 0);
    assert_eq!(withdraw(&mut ledger, &SWAP, &RECIPIENT), Err(SwapError::RecordNotFound));
}

#[test]
fn withdraw_leaves_other_swaps_pending() {
    let mut ledger = ready_ledger();
    assert_eq!(pay_in(&mut ledger, ASSET, 100), Ok(()));
    assert_eq!(submit_proof(&mut ledger, &SWAP, DIGEST, ASSET, 60, RECIPIENT), Ok(()));
    assert_eq!(submit_proof(&mut ledger, &OTHER_SWAP, DIGEST, ASSET, 60, STRANGER), Ok(()));
    assert!(withdraw(&mut ledger, &SWAP, &RECIPIENT).is_ok());
    assert!(ledger.swap_record(&OTHER_SWAP).is_some());
    assert_eq!(withdraw(&mut ledger, &OTHER_SWAP, &STRANGER), Err(SwapError::InsufficientBalance));
    assert_eq!(pay_in(&mut ledger, ASSET, 20), Ok(()));
    assert!(withdraw(&mut ledger, &OTHER_SWAP, &STRANGER).is_ok());
    assert_eq!(ledger.balance_of(&ASSET), 0);
}

#[test]
fn many_attempts_pay_out_once() {
    let mut ledger = ready_ledger();
    assert_eq!(pay_in(&mut ledger, ASSET, 5_000_000), Ok(()));
    assert_eq!(submit_proof(&mut ledger, &SWAP, DIGEST, ASSET, 950_000, RECIPIENT), Ok(()));
    let callers = [STRANGER, RECIPIENT, RECIPIENT, STRANGER, RECIPIENT];
    let mut paid = 0;
    let mut seen = Vec::new();
    for caller in callers.iter() {
        match withdraw(&mut ledger, &SWAP, caller) {
            Ok(_) => paid += 1,
            Err(e) => seen.push(e),
        }
    }
    assert_eq!(paid, 1);
    assert_eq!(
        seen,
        vec![
            SwapError::InvalidRecipient,
            SwapError::RecordNotFound,
            SwapError::RecordNotFound,
            SwapError::RecordNotFound
        ]
    );
    assert_eq!(ledger.balance_of(&ASSET), 4_050_000);
}

#[test]
fn identity_can_be_registered_again_after_settlement() {
    let mut ledger = ready_ledger();
    assert_eq!(pay_in(&mut ledger, ASSET, 10), Ok(()));
    assert_eq!(submit_proof(&mut ledger, &SWAP, DIGEST, ASSET, 4, RECIPIENT), Ok(()));
    assert!(withdraw(&mut ledger, &SWAP, &RECIPIENT).is_ok());
    assert_eq!(submit_proof(&mut ledger, &SWAP, DIGEST, ASSET, 4, RECIPIENT), Ok(()));
    assert!(withdraw(&mut ledger, &SWAP, &RECIPIENT).is_ok());
    assert_eq!(ledger.balance_of(&ASSET), 2);
}

#[test]
fn authorization_checks_recipient_then_flag() {
    let pending = pending_record();
    assert_eq!(authorize_withdraw(&pending, &RECIPIENT), Ok(()));
    assert_eq!(authorize_withdraw(&pending, &STRANGER), Err(SwapError::InvalidRecipient));
    let mut executed = pending_record();
    executed.is_executed = true;
    assert_eq!(authorize_withdraw(&executed, &RECIPIENT), Err(SwapError::AlreadyExecuted));
    assert_eq!(authorize_withdraw(&executed, &STRANGER), Err(SwapError::InvalidRecipient));
}

#[test]
fn stored_digest_is_not_checked_at_withdrawal() {
    let mut ledger = ready_ledger();
    assert_eq!(pay_in(&mut ledger, ASSET, 10), Ok(()));
    assert_eq!(submit_proof(&mut ledger, &SWAP, [0; 32], ASSET, 10, RECIPIENT), Ok(()));
    assert!(withdraw(&mut ledger, &SWAP, &RECIPIENT).is_ok());
}

#[test]
fn end_to_end_swap() {
    let input_asset = [0x11; 32];
    let params = SwapParams {
        input_amount: 1_000_000,
        output_amount: 950_000,
        input_mint: input_asset,
        output_mint: ASSET,
        recipient: RECIPIENT,
    };
    let digest = compute_commitment(&params);
    assert_eq!(
        hex::encode(digest),
        "cd5ce5faffa4d3ea536d132ba0f1fcb56369a816ad8f0a2522cad1050f070b13"
    );
    assert_eq!(digest, compute_commitment(&params));

    let mut ledger = ready_ledger();
    assert_eq!(pay_in(&mut ledger, ASSET, 2_000_000), Ok(()));
    assert_eq!(
        submit_proof(&mut ledger, &SWAP, digest, params.output_mint, 950_000, params.recipient),
        Ok(())
    );
    let record = ledger.swap_record(&SWAP).unwrap();
    assert_eq!(record.proof_hash, digest);
    assert!(!record.is_executed);

    let before = ledger.balance_of(&ASSET);
    let release = withdraw(&mut ledger, &SWAP, &RECIPIENT).unwrap();
    assert_eq!(release.amount, 950_000);
    assert_eq!(release.asset, ASSET);
    assert_eq!(release.to, RECIPIENT);
    assert_eq!(before - ledger.balance_of(&ASSET), 950_000);
    assert_eq!(ledger.swap_record(&SWAP), None);
    assert!(withdraw(&mut ledger, &SWAP, &RECIPIENT).is_err());
    assert_eq!(ledger.balance_of(&ASSET), 1_050_000);
}

#[test]
fn swap_error_messages() {
    assert_eq!(SwapError::AlreadyInitialized.message(), "Vault has already been initialized");
    assert_eq!(SwapError::AlreadyExecuted.message(), "Swap has already been executed");
    assert_eq!(SwapError::InvalidRecipient.message(), "Invalid recipient for this swap");
    assert_eq!(SwapError::InsufficientBalance.message(), "Insufficient vault balance");
    assert_eq!(SwapError::InvalidProofHash.message(), "Invalid proof hash");
    assert_eq!(SwapError::InvalidTokenMint.message(), "Invalid token mint");
    assert_eq!(SwapError::VaultNotInitialized.message(), "Vault has not been initialized");
    assert_eq!(
        SwapError::RecordNotFound.message(),
        "No swap is registered under this identity"
    );
    assert_eq!(SwapError::BalanceOverflow.message(), "Vault balance would overflow");
}
