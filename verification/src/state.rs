//! The records that the ledger keeps, and how they are laid out in storage.
//!
//! A stored record is a run of fixed-size fields without padding. The host's
//! storage puts its own type discriminator of `DISCRIMINATOR_LEN` bytes in
//! front of it.

use vstd::bytes::lemma_auto_spec_u64_to_from_le_bytes;
use vstd::bytes::spec_u64_to_le_bytes;
use vstd::bytes::u64_from_le_bytes;
use vstd::bytes::u64_to_le_bytes;
use vstd::prelude::*;
use vstd::slice::slice_subrange;

verus! {

/// Length of the type discriminator that the host's storage puts in front of
/// every record.
pub const DISCRIMINATOR_LEN: usize = 8;

/// Length of a stored `Vault`.
pub const VAULT_LEN: usize = 1;

/// Length of a stored `SwapResult`.
pub const SWAP_RESULT_LEN: usize = 32 + 32 + 8 + 32 + 1;

/// Storage that a vault takes up, discriminator included.
pub const VAULT_SPACE: usize = DISCRIMINATOR_LEN + VAULT_LEN;

/// Storage that a swap record takes up, discriminator included.
pub const SWAP_RESULT_SPACE: usize = DISCRIMINATOR_LEN + SWAP_RESULT_LEN;

/// The custodial vault. Its one field is the byte from which the vault's
/// signing authority is derived; no secret is stored.
#[derive(Clone, Copy, Debug, PartialEq, Eq)]
pub struct Vault {
    pub bump: u8,
}

/// One registered swap: a commitment digest bound to the terms of a single
/// release.
#[derive(Clone, Copy, Debug, PartialEq, Eq)]
pub struct SwapResult {
    pub proof_hash: [u8; 32],
    pub output_token: [u8; 32],
    pub amount: u64,
    pub recipient: [u8; 32],
    pub is_executed: bool,
}

/// The stored form of a vault: its one byte.
pub open spec fn vault_layout(vault: Vault) -> Seq<u8> {
    seq![vault.bump]
}

/// The stored form of a swap record: digest, output asset, amount in
/// little-endian order, recipient, and one byte that is 1 if the record is
/// executed and 0 if not.
pub open spec fn swap_result_layout(record: SwapResult) -> Seq<u8> {
    record.proof_hash@ + record.output_token@ + spec_u64_to_le_bytes(record.amount)
        + record.recipient@ + seq![
        if record.is_executed {
            1u8
        } else {
            0u8
        },
    ]
}

/// A stored swap record is 105 bytes long and ends in 0 or 1.
pub proof fn lemma_swap_result_layout_shape(record: SwapResult)
    ensures
        swap_result_layout(record).len() == SWAP_RESULT_LEN,
        swap_result_layout(record)[104] == (if record.is_executed {
            1u8
        } else {
            0u8
        }),
        swap_result_layout(record).subrange(0, 32) == record.proof_hash@,
        swap_result_layout(record).subrange(32, 64) == record.output_token@,
        swap_result_layout(record).subrange(64, 72) == spec_u64_to_le_bytes(record.amount),
        swap_result_layout(record).subrange(72, 104) == record.recipient@,
{
    lemma_auto_spec_u64_to_from_le_bytes();
}

/// Two swap records with the same stored form are the same record.
pub proof fn lemma_swap_result_layout_is_injective(a: SwapResult, b: SwapResult)
    requires
        swap_result_layout(a) == swap_result_layout(b),
    ensures
        a == b,
{
    lemma_swap_result_layout_shape(a);
    lemma_swap_result_layout_shape(b);
    lemma_auto_spec_u64_to_from_le_bytes();
    assert(a.proof_hash =~= b.proof_hash);
    assert(a.output_token =~= b.output_token);
    assert(a.recipient =~= b.recipient);
}

/// Copies 32 bytes out of `bytes`, starting at `start`.
fn read_identity(bytes: &[u8], start: usize) -> (identity: [u8; 32])
    requires
        start + 32 <= bytes@.len(),
    ensures
        identity@ == bytes@.subrange(start as int, start + 32),
{
    let len: usize = bytes.len();
    let mut identity = [0u8; 32];
    let mut i: usize = 0;
    while i < 32
        invariant
            i <= 32,
            start + 32 <= len,
            len == bytes@.len(),
            forall|k: int| 0 <= k < i ==> identity@[k] == bytes@[start + k],
        decreases 32 - i,
    {
        identity[i] = bytes[start + i];
        i += 1;
    }
    identity
}

impl Vault {
    /// The stored form of the vault.
    pub fn to_bytes(&self) -> (bytes: Vec<u8>)
        ensures
            bytes@ == vault_layout(*self),
    {
        let mut bytes = Vec::new();
        bytes.push(self.bump);
        bytes
    }

    /// Reads a vault from its stored form: `None` unless `bytes` is one byte.
    pub fn from_bytes(bytes: &[u8]) -> (vault: Option<Vault>)
        ensures
            vault is Some <==> bytes@.len() == VAULT_LEN,
            vault matches Some(v) ==> vault_layout(v) == bytes@,
    {
        if bytes.len() != 1 {
            return None;
        }
        let vault = Vault { bump: bytes[0] };
        Some(vault)
    }
}

impl SwapResult {
    /// The stored form of the record.
    pub fn to_bytes(&self) -> (bytes: Vec<u8>)
        ensures
            bytes@ == swap_result_layout(*self),
            bytes@.len() == SWAP_RESULT_LEN,
    {
        let mut bytes = Vec::new();
        bytes.extend_from_slice(self.proof_hash.as_slice());
        bytes.extend_from_slice(self.output_token.as_slice());
        let mut amount = u64_to_le_bytes(self.amount);
        bytes.append(&mut amount);
        bytes.extend_from_slice(self.recipient.as_slice());
        bytes.push(if self.is_executed { 1 } else { 0 });
        proof {
            lemma_swap_result_layout_shape(*self);
        }
        bytes
    }

    /// Reads a record from its stored form: `None` unless `bytes` is 105
    /// bytes long and its last byte is 0 or 1; else the one record whose
    /// stored form `bytes` is.
    pub fn from_bytes(bytes: &[u8]) -> (record: Option<SwapResult>)
        ensures
            record is Some <==> bytes@.len() == SWAP_RESULT_LEN && bytes@[104] <= 1,
            match record {
                Some(r) => swap_result_layout(r) == bytes@,
                None => forall|r: SwapResult| swap_result_layout(r) != bytes@,
            },
    {
        if bytes.len() != 105 || bytes[104] > 1 {
            proof {
                assert forall|r: SwapResult| swap_result_layout(r) != bytes@ by {
                    lemma_swap_result_layout_shape(r);
                }
            }
            return None;
        }
        let record = SwapResult {
            proof_hash: read_identity(bytes, 0),
            output_token: read_identity(bytes, 32),
            amount: u64_from_le_bytes(slice_subrange(bytes, 64, 72)),
            recipient: read_identity(bytes, 72),
            is_executed: bytes[104] == 1,
        };
        proof {
            lemma_auto_spec_u64_to_from_le_bytes();
            lemma_swap_result_layout_shape(record);
        }
        Some(record)
    }
}

} // verus!
