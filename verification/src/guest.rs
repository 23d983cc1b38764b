//! The program that the attested execution environment runs: it checks the
//! swap parameters and, only if they pass, commits to them.

use crate::commitment::commitment;
use crate::commitment::commitment_preimage;
use crate::commitment::same_identity;
use crate::commitment::sha256_digest;
use crate::commitment::SwapParams;
use risc0_zkvm::sha::Impl;
use risc0_zkvm::sha::Sha256;
use vstd::prelude::*;

verus! {

/// Why the guest program refuses a set of swap parameters.
#[derive(Clone, Copy, Debug, PartialEq, Eq, Structural)]
pub enum GuestError {
    /// The input amount is zero.
    ZeroInputAmount,
    /// The output amount is zero.
    ZeroOutputAmount,
    /// The input asset and the output asset are the same.
    SameMint,
}

impl GuestError {
    /// The text that describes the refusal.
    pub open spec fn spec_message(self) -> Seq<char> {
        match self {
            GuestError::ZeroInputAmount => "Input amount must be positive"@,
            GuestError::ZeroOutputAmount => "Output amount must be positive"@,
            GuestError::SameMint => "Input and output mints must be different"@,
        }
    }

    /// The text that describes the refusal.
    pub fn message(&self) -> (text: &'static str)
        ensures
            text@ == self.spec_message(),
    {
        match self {
            GuestError::ZeroInputAmount => "Input amount must be positive",
            GuestError::ZeroOutputAmount => "Output amount must be positive",
            GuestError::SameMint => "Input and output mints must be different",
        }
    }
}

/// The first check that `params` fails, in the order in which the guest
/// makes them; `None` where they pass all three.
pub open spec fn rejection(params: SwapParams) -> Option<GuestError> {
    if params.input_amount == 0 {
        Some(GuestError::ZeroInputAmount)
    } else if params.output_amount == 0 {
        Some(GuestError::ZeroOutputAmount)
    } else if params.input_mint@ == params.output_mint@ {
        Some(GuestError::SameMint)
    } else {
        None
    }
}

/// What the guest commits to its journal: the commitment digest of `params`
/// where they pass the checks, nothing where they do not.
pub open spec fn attested_digest(params: SwapParams) -> Option<Seq<u8>> {
    if rejection(params) is None {
        Some(commitment(params))
    } else {
        None
    }
}

/// Checks that both amounts are positive and that the two assets differ.
pub fn validate(params: &SwapParams) -> (outcome: Result<(), GuestError>)
    ensures
        match outcome {
            Ok(()) => rejection(*params) is None,
            Err(e) => rejection(*params) == Some(e),
        },
        outcome is Err <==> params.input_amount == 0 || params.output_amount == 0
            || params.input_mint@ == params.output_mint@,
{
    if params.input_amount == 0 {
        Err(GuestError::ZeroInputAmount)
    } else if params.output_amount == 0 {
        Err(GuestError::ZeroOutputAmount)
    } else if same_identity(&params.input_mint, &params.output_mint) {
        Err(GuestError::SameMint)
    } else {
        Ok(())
    }
}

/// `risc0_zkvm::sha::Impl::hash_bytes`, the SHA-256 that the zkVM offers its
/// guests: the digest of `data`, as 32 bytes. Run outside the zkVM it is a
/// call of `sha2::Sha256::digest` on the same bytes, so its result goes by the
/// same name.
#[verifier::external_body]
fn zkvm_sha256(data: &[u8]) -> (digest: [u8; 32])
    ensures
        digest@ == sha256_digest(data@),
{
    (*Impl::hash_bytes(data)).into()
}

/// Runs the guest program on `params`: the checks first, then the commitment.
/// A refusal comes before any digest is computed.
pub fn execute(params: &SwapParams) -> (journal: Result<[u8; 32], GuestError>)
    ensures
        match journal {
            Ok(digest) => attested_digest(*params) == Some(digest@),
            Err(e) => rejection(*params) == Some(e),
        },
{
    match validate(params) {
        Ok(()) => {
            let hash_input = commitment_preimage(params);
            Ok(zkvm_sha256(hash_input.as_slice()))
        },
        Err(e) => Err(e),
    }
}

} // verus!
