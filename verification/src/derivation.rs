use vstd::prelude::*;

verus! {

/// The outcome of the host's one-way address derivation on a domain label,
/// a 32-byte identity key, a 32-byte program id and one bump byte: `Some`
/// of the 32-byte address when the derived point lands off the curve and
/// so is usable as a program-derived address, `None` when it lands on the
/// curve.  The derivation — a SHA-256 digest of the seeds followed by a
/// curve-point test — is a pure function of its four arguments; it is left
/// abstract here, and the wrapper below is the one way to evaluate it.
pub uninterp spec fn pda_of(label: Seq<u8>, user: Seq<u8>, program: Seq<u8>, bump: u8) -> Option<Seq<u8>>;

/// Relies on `Pubkey::create_program_address`: it hashes the seed list
/// `[label, user, [bump]]` together with the program id and the fixed
/// marker string, returns the digest as an address when it is off-curve,
/// and reports invalid seeds when it is on-curve.  With three seeds, each
/// at most 32 bytes long, no other error can occur and the call cannot
/// panic.  The result depends on the arguments alone.
#[verifier::external_body]
fn try_derive(label: &Vec<u8>, user: &Vec<u8>, program: &Vec<u8>, bump: u8) -> (r: Option<Vec<u8>>)
    requires
        label@.len() <= 32,
        user@.len() == 32,
        program@.len() == 32,
    ensures
        match r {
            Some(a) => pda_of(label@, user@, program@, bump) == Some(a@) && a@.len() == 32,
            None => pda_of(label@, user@, program@, bump) is None,
        },
{
    let mut pid = [0u8; 32];
    pid.copy_from_slice(program.as_slice());
    let program_id = anchor_lang::prelude::Pubkey::new_from_array(pid);
    let bump_seed = [bump];
    let seeds: [&[u8]; 3] = [label.as_slice(), user.as_slice(), &bump_seed];
    match anchor_lang::prelude::Pubkey::create_program_address(&seeds, &program_id) {
        Ok(address) => Some(address.to_bytes().to_vec()),
        Err(_) => None,
    }
}

/// The canonical outcome of the downward bump search started at `bump`:
/// the first off-curve derivation at or below `bump`, paired with the bump
/// byte that produced it.
pub open spec fn canonical_from(label: Seq<u8>, user: Seq<u8>, program: Seq<u8>, bump: u8) -> Option<(Seq<u8>, u8)>
    decreases bump,
{
    match pda_of(label, user, program, bump) {
        Some(a) => Some((a, bump)),
        None => if bump == 0 {
            None
        } else {
            canonical_from(label, user, program, (bump - 1) as u8)
        },
    }
}

/// The canonical `(address, bump)` pair for a domain label, an identity
/// key and a program id: the bump is searched downward from 255 until the
/// derivation lands off-curve.
pub open spec fn canonical_derivation(label: Seq<u8>, user: Seq<u8>, program: Seq<u8>) -> Option<(Seq<u8>, u8)> {
    canonical_from(label, user, program, 255)
}

/// Computes the canonical record address and bump for an identity key
/// under a domain label, searching the bump downward from 255.  `None`
/// only where no bump in [0, 255] lands off-curve.
pub fn derive_record_address(label: &Vec<u8>, user: &Vec<u8>, program: &Vec<u8>) -> (r: Option<(Vec<u8>, u8)>)
    requires
        label@.len() <= 32,
        user@.len() == 32,
        program@.len() == 32,
    ensures
        match r {
            Some(p) => canonical_derivation(label@, user@, program@) == Some((p.0@, p.1)) && p.0@.len() == 32,
            None => canonical_derivation(label@, user@, program@) is None,
        },
{
    let mut bump: u8 = 255;
    loop
        invariant
            label@.len() <= 32,
            user@.len() == 32,
            program@.len() == 32,
            canonical_derivation(label@, user@, program@) == canonical_from(label@, user@, program@, bump),
        decreases bump,
    {
        match try_derive(label, user, program, bump) {
            Some(address) => {
                return Some((address, bump));
            },
            None => {
                if bump == 0 {
                    return None;
                }
                bump = bump - 1;
            },
        }
    }
}

/// Law: derivation is deterministic — the same domain label, identity key
/// and program id always yield the same canonical `(address, bump)` pair.
pub proof fn lemma_derivation_deterministic(
    label1: Seq<u8>,
    user1: Seq<u8>,
    program1: Seq<u8>,
    label2: Seq<u8>,
    user2: Seq<u8>,
    program2: Seq<u8>,
)
    requires
        label1 == label2,
        user1 == user2,
        program1 == program2,
    ensures
        canonical_derivation(label1, user1, program1) == canonical_derivation(label2, user2, program2),
{
}

/// Law: the canonical bump is the unique maximal value in [0, 255] whose
/// derivation lands off-curve, and the canonical address is exactly the
/// derivation at that bump.
pub proof fn lemma_canonical_bump_maximal(label: Seq<u8>, user: Seq<u8>, program: Seq<u8>, address: Seq<u8>, bump: u8)
    requires
        canonical_derivation(label, user, program) == Some((address, bump)),
    ensures
        pda_of(label, user, program, bump) == Some(address),
        forall|b: u8| b > bump ==> pda_of(label, user, program, b) is None,
{
    lemma_canonical_from_maximal(label, user, program, 255);
}

proof fn lemma_canonical_from_maximal(label: Seq<u8>, user: Seq<u8>, program: Seq<u8>, hi: u8)
    ensures
        match canonical_from(label, user, program, hi) {
            Some(p) => p.1 <= hi && pda_of(label, user, program, p.1) == Some(p.0)
                && forall|b: u8| p.1 < b <= hi ==> pda_of(label, user, program, b) is None,
            None => forall|b: u8| b <= hi ==> pda_of(label, user, program, b) is None,
        },
    decreases hi,
{
    if pda_of(label, user, program, hi) is Some {
    } else if hi > 0 {
        lemma_canonical_from_maximal(label, user, program, (hi - 1) as u8);
    }
}

} // verus!
