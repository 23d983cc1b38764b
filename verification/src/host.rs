//! The proof generator: it tries the attested backend first and falls back
//! to the plain computation, so that a digest always comes out.

use crate::commitment::compute_commitment;
use crate::commitment::commitment;
use crate::commitment::SwapParams;
use crate::journal::journal_digest;
use crate::journal::read_journal;
use std::collections::hash_map::DefaultHasher;
use std::hash::Hasher;
use vstd::bytes::spec_u64_to_le_bytes;
use vstd::bytes::u64_to_le_bytes;
use vstd::prelude::*;
use vstd::std_specs::hash::DefaultHasherAdditionalSpecFns;
use vstd::string::StringExecFns;
use vstd::string::StringSliceAdditionalSpecFns;

verus! {

/// Why an attempt at the attested backend gave no digest.
#[derive(Clone, Copy, Debug, PartialEq, Eq, Structural)]
pub enum ProverError {
    /// No attested execution environment is at hand.
    Unavailable,
    /// The environment did not accept the input it was given.
    InputRejected,
    /// The guest program did not run to its end.
    ExecutionFailed,
    /// The run took longer than it was allowed.
    TimedOut,
    /// The journal does not hold a 32-byte digest.
    JournalUnreadable,
    /// The attestation does not verify.
    ReceiptInvalid,
}

impl ProverError {
    /// The text that describes the failure.
    pub open spec fn spec_message(self) -> Seq<char> {
        match self {
            ProverError::Unavailable => "Risc0 not available"@,
            ProverError::InputRejected => "executor environment rejected the input"@,
            ProverError::ExecutionFailed => "guest execution failed"@,
            ProverError::TimedOut => "guest execution timed out"@,
            ProverError::JournalUnreadable => "journal does not decode to a digest"@,
            ProverError::ReceiptInvalid => "receipt verification failed"@,
        }
    }

    /// The text that describes the failure.
    pub fn message(&self) -> (text: &'static str)
        ensures
            text@ == self.spec_message(),
    {
        match self {
            ProverError::Unavailable => "Risc0 not available",
            ProverError::InputRejected => "executor environment rejected the input",
            ProverError::ExecutionFailed => "guest execution failed",
            ProverError::TimedOut => "guest execution timed out",
            ProverError::JournalUnreadable => "journal does not decode to a digest",
            ProverError::ReceiptInvalid => "receipt verification failed",
        }
    }
}

/// A digest together with the path that produced it.
#[derive(Clone, Copy, Debug, PartialEq, Eq)]
pub struct GeneratedProof {
    pub proof_hash: [u8; 32],
    /// Whether the digest came out of the attested backend.
    pub verified: bool,
}

/// What one run of the guest program in the attested execution environment
/// left behind, as plain values.
#[derive(Clone, Debug, PartialEq, Eq)]
pub struct Receipt {
    /// The bytes of the journal.
    pub journal: Vec<u8>,
    /// Whether the attestation verifies.
    pub verified: bool,
}

/// What an attempt at the attested backend comes to, given how the run
/// ended: the failure of the run where it failed, `JournalUnreadable` where
/// the journal commits no digest, `ReceiptInvalid` where the attestation does
/// not verify, and the digest that the journal commits otherwise.
pub open spec fn attempt_of(run: Result<Receipt, ProverError>) -> Result<Seq<u8>, ProverError> {
    match run {
        Err(e) => Err(e),
        Ok(receipt) => match journal_digest(receipt.journal@) {
            None => Err(ProverError::JournalUnreadable),
            Some(digest) => if receipt.verified {
                Ok(digest)
            } else {
                Err(ProverError::ReceiptInvalid)
            },
        },
    }
}

/// Concludes an attempt at the attested backend from how the run ended. The
/// journal is read before the attestation is looked at.
pub fn try_risc0_proof(run: &Result<Receipt, ProverError>) -> (attempt: Result<
    [u8; 32],
    ProverError,
>)
    ensures
        match attempt {
            Ok(proof_hash) => attempt_of(*run) == Ok::<Seq<u8>, ProverError>(proof_hash@),
            Err(e) => attempt_of(*run) == Err::<Seq<u8>, ProverError>(e),
        },
{
    match run {
        Err(e) => Err(*e),
        Ok(receipt) => match read_journal(receipt.journal.as_slice()) {
            None => Err(ProverError::JournalUnreadable),
            Some(proof_hash) => if receipt.verified {
                Ok(proof_hash)
            } else {
                Err(ProverError::ReceiptInvalid)
            },
        },
    }
}

/// The direct backend: the commitment digest of `swap_params`, computed in
/// process. It checks nothing: zero amounts and equal assets are hashed like
/// any other input.
pub fn generate_fallback_proof(swap_params: &SwapParams) -> (proof_hash: [u8; 32])
    ensures
        proof_hash@ == commitment(*swap_params),
{
    compute_commitment(swap_params)
}

/// Settles on a digest once the attested backend has answered: its digest
/// where it gave one, the direct backend's where it failed in any way.
pub fn select_proof(swap_params: &SwapParams, attempt: &Result<[u8; 32], ProverError>) -> (proof:
    GeneratedProof)
    ensures
        match *attempt {
            Ok(proof_hash) => proof.verified && proof.proof_hash == proof_hash,
            Err(_) => !proof.verified && proof.proof_hash@ == commitment(*swap_params),
        },
{
    match attempt {
        Ok(proof_hash) => GeneratedProof { proof_hash: *proof_hash, verified: true },
        Err(_) => GeneratedProof {
            proof_hash: generate_fallback_proof(swap_params),
            verified: false,
        },
    }
}

/// The digest that the proof generator settles on: the journal's where the
/// attempt at the attested backend succeeds, the commitment computed in
/// process where it fails.
pub open spec fn generated_digest(params: SwapParams, run: Result<Receipt, ProverError>) -> Seq<u8> {
    match attempt_of(run) {
        Ok(digest) => digest,
        Err(_) => commitment(params),
    }
}

/// Generates the digest of `swap_params` once the attested backend has been
/// tried: its digest where the run gave one that verifies, the direct
/// backend's otherwise. This never fails.
pub fn generate_proof(swap_params: &SwapParams, run: &Result<Receipt, ProverError>) -> (proof:
    GeneratedProof)
    ensures
        proof.proof_hash@ == generated_digest(*swap_params, *run),
        proof.verified == (attempt_of(*run) is Ok),
{
    let attempt = try_risc0_proof(run);
    select_proof(swap_params, &attempt)
}

/// The diagnostic that tells which path an attempt led to.
pub open spec fn spec_diagnostic(attempt: Result<[u8; 32], ProverError>) -> Seq<char> {
    match attempt {
        Ok(_) => "✅ Generated proof using Risc0 zkVM"@,
        Err(e) => "⚠️ Risc0 zkVM failed ("@ + e.spec_message()
            + "), using fallback proof generation"@,
    }
}

/// Words the diagnostic that tells which path an attempt led to.
pub fn diagnostic(attempt: &Result<[u8; 32], ProverError>) -> (text: String)
    ensures
        text@ == spec_diagnostic(*attempt),
{
    match attempt {
        Ok(_) => String::from_str("✅ Generated proof using Risc0 zkVM"),
        Err(e) => {
            let mut text = String::from_str("⚠️ Risc0 zkVM failed (");
            text.append(e.message());
            text.append("), using fallback proof generation");
            text
        },
    }
}

/// The sixteen lower-case hexadecimal digits.
pub open spec fn hex_digits() -> Seq<char> {
    seq!['0', '1', '2', '3', '4', '5', '6', '7', '8', '9', 'a', 'b', 'c', 'd', 'e', 'f']
}

/// The lower-case hexadecimal text of a byte string: two digits for each
/// byte, the high half first.
pub open spec fn hex_lower(bytes: Seq<u8>) -> Seq<char> {
    Seq::new(
        2 * bytes.len(),
        |i: int|
            if i % 2 == 0 {
                hex_digits()[(bytes[i / 2] >> 4) as int]
            } else {
                hex_digits()[(bytes[i / 2] & 0x0f) as int]
            },
    )
}

/// `hex::encode`: the text holds two lower-case hexadecimal digits for each
/// byte of `data`, in order, the high half of a byte before its low half.
#[verifier::external_body]
fn hex_encode(data: &[u8]) -> (text: String)
    ensures
        text@ == hex_lower(data@),
{
    hex::encode(data)
}

/// The line that reports a digest: `PROOF_HASH:` and the digest in lower-case
/// hexadecimal.
pub fn proof_hash_line(proof_hash: &[u8; 32]) -> (line: String)
    ensures
        line@ == "PROOF_HASH:"@ + hex_lower(proof_hash@),
{
    let digits = hex_encode(proof_hash.as_slice());
    let mut line = String::from_str("PROOF_HASH:");
    line.append(digits.as_str());
    line
}

/// The 32 bytes that stand for a 64-bit hash: its eight bytes in
/// little-endian order, then the same eight in big-endian order, then
/// sixteen bytes of which the one at place `i` is the hash's low byte plus
/// `i`, wrapped to a byte, with every second bit flipped.
pub open spec fn identity_of_hash(hash: u64) -> Seq<u8> {
    let le = spec_u64_to_le_bytes(hash);
    Seq::new(
        32,
        |i: int|
            if i < 8 {
                le[i]
            } else if i < 16 {
                le[15 - i]
            } else {
                (((hash % 256 + i) % 256) as u8) ^ 0xAA
            },
    )
}

/// Spreads a 64-bit hash over 32 bytes.
pub fn identity_from_hash(hash: u64) -> (bytes: [u8; 32])
    ensures
        bytes@ == identity_of_hash(hash),
{
    let le = u64_to_le_bytes(hash);
    let low: u8 = (hash & 0xff) as u8;
    assert(low == hash % 256) by (bit_vector)
        requires
            low == (hash & 0xff) as u8,
    ;
    let mut bytes = [0u8; 32];
    let mut i: usize = 0;
    while i < 8
        invariant
            i <= 8,
            le@ == spec_u64_to_le_bytes(hash),
            le@.len() == 8,
            forall|k: int| 0 <= k < i ==> bytes@[k] == le@[k],
            forall|k: int| 8 <= k < 8 + i ==> bytes@[k] == le@[15 - k],
        decreases 8 - i,
    {
        bytes[i] = le[i];
        bytes[8 + i] = le[7 - i];
        i += 1;
    }
    let mut i: usize = 16;
    while i < 32
        invariant
            16 <= i <= 32,
            low == hash % 256,
            le@ == spec_u64_to_le_bytes(hash),
            forall|k: int| 0 <= k < 8 ==> bytes@[k] == le@[k],
            forall|k: int| 8 <= k < 16 ==> bytes@[k] == le@[15 - k],
            forall|k: int| 16 <= k < i ==> bytes@[k] == (((hash % 256 + k) % 256) as u8) ^ 0xAA,
        decreases 32 - i,
    {
        let step: u8 = i as u8;
        bytes[i] = low.wrapping_add(step) ^ 0xAA;
        i += 1;
    }
    bytes
}

/// The writes by which the standard hasher takes in a string: its bytes,
/// then one byte `0xff`.
pub open spec fn hashed_writes(text: Seq<u8>) -> Seq<Seq<u8>> {
    seq![text, seq![0xffu8]]
}

/// Derives a 32-byte identity from the text of a public key: the text is
/// hashed with the standard library's default hasher, and the 64-bit hash is
/// spread over 32 bytes.
pub fn pubkey_to_bytes(pubkey_str: &str) -> (bytes: [u8; 32])
    ensures
        bytes@ == identity_of_hash(
            DefaultHasher::spec_finish(hashed_writes(pubkey_str.spec_bytes())),
        ),
{
    let mut hasher = DefaultHasher::new();
    hasher.write(pubkey_str.as_bytes());
    let end: [u8; 1] = [0xff];
    assert(end@ =~= seq![0xffu8]);
    hasher.write(end.as_slice());
    assert(hasher@ =~= hashed_writes(pubkey_str.spec_bytes()));
    identity_from_hash(hasher.finish())
}

} // verus!
