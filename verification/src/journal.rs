//! The journal: the public output of a guest run, as bytes.
//!
//! The guest commits its digest as 32 words of 32 bits, one for each byte of
//! the digest, each word in little-endian order. A reader takes the first 32
//! words and passes over whatever follows them.

use vstd::prelude::*;

verus! {

/// Length in bytes of the journal that commits one digest.
pub const JOURNAL_LEN: usize = 128;

/// The journal that commits `digest`: four bytes for each byte of the digest,
/// the byte itself and three zeros.
pub open spec fn journal_layout(digest: Seq<u8>) -> Seq<u8> {
    Seq::new(
        4 * digest.len(),
        |i: int|
            if i % 4 == 0 {
                digest[i / 4]
            } else {
                0u8
            },
    )
}

/// Whether `journal` starts with 32 whole words that each hold one byte.
pub open spec fn journal_is_readable(journal: Seq<u8>) -> bool {
    &&& journal.len() % 4 == 0
    &&& journal.len() >= JOURNAL_LEN
    &&& forall|i: int| 0 <= i < JOURNAL_LEN && i % 4 != 0 ==> journal[i] == 0
}

/// The digest that `journal` commits, where it is readable.
pub open spec fn journal_digest(journal: Seq<u8>) -> Option<Seq<u8>> {
    if journal_is_readable(journal) {
        Some(Seq::new(32, |k: int| journal[4 * k]))
    } else {
        None
    }
}

/// What was written as a journal reads back as the digest that was written.
pub proof fn lemma_journal_round_trip(digest: Seq<u8>)
    requires
        digest.len() == 32,
    ensures
        journal_layout(digest).len() == JOURNAL_LEN,
        journal_digest(journal_layout(digest)) == Some(digest),
{
}

/// Writes the journal that commits `proof_hash`.
pub fn write_journal(proof_hash: &[u8; 32]) -> (journal: Vec<u8>)
    ensures
        journal@ == journal_layout(proof_hash@),
        journal@.len() == JOURNAL_LEN,
{
    let mut journal: Vec<u8> = Vec::new();
    let mut k: usize = 0;
    while k < 32
        invariant
            k <= 32,
            journal@.len() == 4 * k,
            forall|i: int|
                0 <= i < 4 * k ==> journal@[i] == (if i % 4 == 0 {
                    proof_hash@[i / 4]
                } else {
                    0u8
                }),
        decreases 32 - k,
    {
        journal.push(proof_hash[k]);
        journal.push(0);
        journal.push(0);
        journal.push(0);
        k += 1;
    }
    journal
}

/// Reads the digest that `journal` commits: `None` unless the journal is a
/// whole number of words, at least 32 of them, and each of the first 32 holds
/// one byte.
pub fn read_journal(journal: &[u8]) -> (proof_hash: Option<[u8; 32]>)
    ensures
        match proof_hash {
            Some(digest) => journal_digest(journal@) == Some(digest@),
            None => journal_digest(journal@) is None,
        },
{
    let len: usize = journal.len();
    if len % 4 != 0 || len < 128 {
        return None;
    }
    let mut digest = [0u8; 32];
    let mut k: usize = 0;
    while k < 32
        invariant
            k <= 32,
            len == journal@.len(),
            len >= 128,
            forall|i: int| 0 <= i < 4 * k && i % 4 != 0 ==> journal@[i] == 0,
            forall|j: int| 0 <= j < k ==> digest@[j] == journal@[4 * j],
        decreases 32 - k,
    {
        if journal[4 * k + 1] != 0 || journal[4 * k + 2] != 0 || journal[4 * k + 3] != 0 {
            return None;
        }
        digest[k] = journal[4 * k];
        k += 1;
    }
    Some(digest)
}

} // verus!
