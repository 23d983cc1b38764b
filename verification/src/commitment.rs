//! The commitment function: swap parameters to a 32-byte digest.

use sha2::Digest;
use sha2::Sha256;
use vstd::bytes::spec_u64_to_le_bytes;
use vstd::bytes::u64_to_le_bytes;
use vstd::prelude::*;

verus! {

/// The terms of one swap. They exist only while a commitment is computed.
#[derive(Clone, Copy, Debug, PartialEq, Eq)]
pub struct SwapParams {
    pub input_amount: u64,
    pub output_amount: u64,
    pub input_mint: [u8; 32],
    pub output_mint: [u8; 32],
    pub recipient: [u8; 32],
}

/// Length in bytes of the hashed encoding of a `SwapParams`.
pub const PREIMAGE_LEN: usize = 112;

/// The SHA-256 digest of a byte string, as the `sha2` crate computes it.
pub uninterp spec fn sha256_digest(data: Seq<u8>) -> Seq<u8>;

/// The bytes that are hashed: both amounts in little-endian order, eight
/// bytes each, then the three identities as they are.
pub open spec fn preimage(params: SwapParams) -> Seq<u8> {
    spec_u64_to_le_bytes(params.input_amount) + spec_u64_to_le_bytes(params.output_amount)
        + params.input_mint@ + params.output_mint@ + params.recipient@
}

/// The commitment digest of a set of swap parameters.
pub open spec fn commitment(params: SwapParams) -> Seq<u8> {
    sha256_digest(preimage(params))
}

/// Whether two identities are the same 32 bytes.
pub fn same_identity(a: &[u8; 32], b: &[u8; 32]) -> (same: bool)
    ensures
        same == (a@ == b@),
{
    let mut i: usize = 0;
    while i < 32
        invariant
            i <= 32,
            forall|k: int| 0 <= k < i ==> a@[k] == b@[k],
        decreases 32 - i,
    {
        if a[i] != b[i] {
            return false;
        }
        i += 1;
    }
    assert(a@ =~= b@);
    true
}

/// Lays out the bytes that the commitment hashes.
pub fn commitment_preimage(params: &SwapParams) -> (bytes: Vec<u8>)
    ensures
        bytes@ == preimage(*params),
        bytes@.len() == PREIMAGE_LEN,
{
    let mut bytes = u64_to_le_bytes(params.input_amount);
    let mut output_amount = u64_to_le_bytes(params.output_amount);
    bytes.append(&mut output_amount);
    bytes.extend_from_slice(params.input_mint.as_slice());
    bytes.extend_from_slice(params.output_mint.as_slice());
    bytes.extend_from_slice(params.recipient.as_slice());
    bytes
}

/// `sha2::Sha256::digest`: the SHA-256 digest of `data`. The contract gives
/// the result its name, `sha256_digest`; nothing else is claimed of it.
#[verifier::external_body]
fn sha256(data: &[u8]) -> (digest: [u8; 32])
    ensures
        digest@ == sha256_digest(data@),
{
    Sha256::digest(data).into()
}

/// Computes the commitment digest of `params`.
pub fn compute_commitment(params: &SwapParams) -> (digest: [u8; 32])
    ensures
        digest@ == commitment(*params),
{
    let bytes = commitment_preimage(params);
    sha256(bytes.as_slice())
}

} // verus!
