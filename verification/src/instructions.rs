use vstd::prelude::*;

use crate::copy_bytes;
use crate::derivation::{canonical_derivation, derive_record_address};
use crate::errors::{ChapterError, InitializeError};
use crate::ledger::Ledger;
use crate::states::{Chapter, ChapterV};

verus! {

/// What one `initialize_pda` call does to the host's account space: the
/// state after the call, and the outcome handed to the caller.  The chapter
/// count is validated first; then the canonical address is derived; the
/// allocation is refused where a record already lives at that address or
/// where the funding party cannot cover the cost; otherwise the record is
/// written at the derived address, exactly once.
pub open spec fn initialize_spec(
    pre: Map<Seq<u8>, ChapterV>,
    label: Seq<u8>,
    program: Seq<u8>,
    user: Seq<u8>,
    chapter_count: u8,
    funder_balance: u64,
    allocation_cost: u64,
) -> (Map<Seq<u8>, ChapterV>, Result<ChapterV, InitializeError>) {
    if chapter_count > 200 {
        (pre, Err(InitializeError::Chapter(ChapterError::TooManyChapters)))
    } else {
        match canonical_derivation(label, user, program) {
            None => (pre, Err(InitializeError::BumpNotFound)),
            Some(p) => {
                if pre.dom().contains(p.0) {
                    (pre, Err(InitializeError::AddressAlreadyInitialized))
                } else if funder_balance < allocation_cost {
                    (pre, Err(InitializeError::InsufficientFunding))
                } else {
                    let record = ChapterV { user, bump: p.1, chapter: chapter_count };
                    (pre.insert(p.0, record), Ok(record))
                }
            },
        }
    }
}

/// Validates the caller-supplied chapter count — at most 200 chapters may
/// be recorded.  This is the whole domain validation of the initializer,
/// performed before any mutation.
pub fn validate_chapter_count(chapter_count: u8) -> (r: Result<(), ChapterError>)
    ensures
        r is Ok <==> chapter_count <= 200,
        r is Err ==> r == Err::<(), ChapterError>(ChapterError::TooManyChapters),
{
    if chapter_count <= 200 {
        Ok(())
    } else {
        Err(ChapterError::TooManyChapters)
    }
}

/// Creates the one record of an identity key under a domain label: derives
/// the canonical address, asks the modeled host for the allocation, writes
/// the record and returns it.  Any failure leaves the account space exactly
/// as it was.
pub fn initialize_pda(
    ledger: &mut Ledger,
    label: &Vec<u8>,
    program: &Vec<u8>,
    user: &Vec<u8>,
    chapter_count: u8,
    funder_balance: u64,
    allocation_cost: u64,
) -> (r: Result<Chapter, InitializeError>)
    requires
        old(ledger).wf(),
        label@.len() <= 32,
        user@.len() == 32,
        program@.len() == 32,
    ensures
        final(ledger).wf(),
        ({
            let outcome = initialize_spec(
                old(ledger)@, label@, program@, user@, chapter_count, funder_balance, allocation_cost,
            );
            &&& final(ledger)@ == outcome.0
            &&& match (r, outcome.1) {
                (Ok(c), Ok(cv)) => c@ == cv && c.wf(),
                (Err(e), Err(ev)) => e == ev,
                _ => false,
            }
        }),
{
    if let Err(domain_error) = validate_chapter_count(chapter_count) {
        return Err(InitializeError::Chapter(domain_error));
    }
    match derive_record_address(label, user, program) {
        None => Err(InitializeError::BumpNotFound),
        Some(found) => {
            let (address, bump) = found;
            if ledger.contains_address(&address) {
                Err(InitializeError::AddressAlreadyInitialized)
            } else if funder_balance < allocation_cost {
                Err(InitializeError::InsufficientFunding)
            } else {
                let record = Chapter { user: copy_bytes(user), bump, chapter: chapter_count };
                let stored = Chapter { user: copy_bytes(user), bump, chapter: chapter_count };
                proof {
                    assert(canonical_derivation(label@, stored.user@, program@)
                        == Some((address@, stored.bump)));
                }
                ledger.allocate(address, stored);
                Ok(record)
            }
        },
    }
}

/// Law: for every chapter count at most 200, where some bump in [0, 255]
/// derives off-curve, no record lives at the canonical address yet and the
/// funding covers the allocation cost, initialization succeeds and the
/// created record carries exactly the identity key, the canonical bump and
/// the given chapter count.
pub proof fn lemma_initialize_in_range(
    pre: Map<Seq<u8>, ChapterV>,
    label: Seq<u8>,
    program: Seq<u8>,
    user: Seq<u8>,
    chapter_count: u8,
    funder_balance: u64,
    allocation_cost: u64,
    address: Seq<u8>,
    bump: u8,
)
    requires
        chapter_count <= 200,
        canonical_derivation(label, user, program) == Some((address, bump)),
        !pre.dom().contains(address),
        funder_balance >= allocation_cost,
    ensures
        ({
            let outcome = initialize_spec(pre, label, program, user, chapter_count, funder_balance, allocation_cost);
            &&& outcome.1 == Ok::<ChapterV, InitializeError>(ChapterV { user, bump, chapter: chapter_count })
            &&& outcome.0 == pre.insert(address, ChapterV { user, bump, chapter: chapter_count })
            &&& outcome.0[address].chapter == chapter_count
        }),
{
}

/// Law: for every chapter count in [201, 255] initialization fails with
/// `TooManyChapters`, whatever the rest of the inputs, and the account
/// space is left untouched — no record is created anywhere.
pub proof fn lemma_initialize_too_many_chapters(
    pre: Map<Seq<u8>, ChapterV>,
    label: Seq<u8>,
    program: Seq<u8>,
    user: Seq<u8>,
    chapter_count: u8,
    funder_balance: u64,
    allocation_cost: u64,
)
    requires
        chapter_count > 200,
    ensures
        initialize_spec(pre, label, program, user, chapter_count, funder_balance, allocation_cost)
            == (pre, Err::<ChapterV, InitializeError>(InitializeError::Chapter(ChapterError::TooManyChapters))),
{
}

/// Law: where a record already lives at the canonical address of an
/// identity key, a second initialization with any chapter count fails and
/// the account space — the stored record included — is left untouched;
/// where the chapter count also passes validation, the failure is exactly
/// the duplicate-account rejection.
pub proof fn lemma_initialize_no_overwrite(
    pre: Map<Seq<u8>, ChapterV>,
    label: Seq<u8>,
    program: Seq<u8>,
    user: Seq<u8>,
    chapter_count: u8,
    funder_balance: u64,
    allocation_cost: u64,
    address: Seq<u8>,
    bump: u8,
)
    requires
        canonical_derivation(label, user, program) == Some((address, bump)),
        pre.dom().contains(address),
    ensures
        ({
            let outcome = initialize_spec(pre, label, program, user, chapter_count, funder_balance, allocation_cost);
            &&& outcome.0 == pre
            &&& outcome.0[address] == pre[address]
            &&& outcome.1 is Err
            &&& chapter_count <= 200 ==> outcome.1 == Err::<ChapterV, InitializeError>(InitializeError::AddressAlreadyInitialized)
        }),
{
}

} // verus!
