use vstd::prelude::*;

use solana_program::pubkey::Pubkey;

use crate::error::ReviewError;

verus! {

/// A 32-byte public identifier: an author, a program, or a storage address.
pub type Address = [u8; 32];

/// The address derived from the seeds `author` and `title` for `program_id`, and the
/// nonce that made it fall off the curve; `None` where no nonce from 255 down works.
pub uninterp spec fn program_address(author: Seq<u8>, title: Seq<u8>, program_id: Seq<u8>) -> Option<
    (Seq<u8>, u8),
>;

/// Relies on solana_program's `Pubkey::try_find_program_address`, seeded with the
/// author's key then the title: its outcome depends on the seeds and the program id
/// alone, and it returns `None` rather than panicking when no nonce works.
#[verifier::external_body]
fn find_program_address(author: &Address, title: &[u8], program_id: &Address) -> (r: Option<
    (Address, u8),
>)
    ensures
        program_address(author@, title@, program_id@) == match r {
            Some((a, bump)) => Some((a@, bump)),
            None => None::<(Seq<u8>, u8)>,
        },
{
    let program = Pubkey::new_from_array(*program_id);
    Pubkey::try_find_program_address(&[author.as_ref(), title], &program).map(
        |(a, bump)| (a.to_bytes(), bump),
    )
}

/// The address and nonce bound to `(author, title)` under `program_id`. The title is
/// used byte for byte. Failing to find a nonce is reported as `InvalidAddress`, since
/// no storage can then be the record's address.
pub fn derive_address(author: &Address, title: &[u8], program_id: &Address) -> (r: Result<
    (Address, u8),
    ReviewError,
>)
    ensures
        match program_address(author@, title@, program_id@) {
            Some((a, bump)) => r matches Ok((k, b)) && k@ == a && b == bump,
            None => r == Err::<(Address, u8), ReviewError>(ReviewError::InvalidAddress),
        },
{
    match find_program_address(author, title, program_id) {
        Some(found) => Ok(found),
        None => Err(ReviewError::InvalidAddress),
    }
}

/// Derivation is a function of its inputs: equal inputs give equal addresses and nonces.
pub proof fn lemma_derive_deterministic(
    author: Seq<u8>,
    title: Seq<u8>,
    program_id: Seq<u8>,
    author2: Seq<u8>,
    title2: Seq<u8>,
    program_id2: Seq<u8>,
)
    requires
        author == author2,
        title == title2,
        program_id == program_id2,
    ensures
        program_address(author, title, program_id) == program_address(author2, title2, program_id2),
{
}

/// Whether two addresses are the same bytes.
pub fn same_address(a: &Address, b: &Address) -> (r: bool)
    ensures
        r == (a@ == b@),
{
    let mut i: usize = 0;
    while i < 32
        invariant
            i <= 32,
            a@.len() == 32,
            b@.len() == 32,
            forall|j: int| 0 <= j < i ==> a@[j] == b@[j],
        decreases 32 - i,
    {
        if a[i] != b[i] {
            return false;
        }
        i = i + 1;
    }
    assert(a@ =~= b@);
    true
}

/// Whether `target` is the address derived from `(author, title)` under `program_id`.
pub open spec fn is_derived(author: Seq<u8>, title: Seq<u8>, program_id: Seq<u8>, target: Seq<
    u8,
>) -> bool {
    match program_address(author, title, program_id) {
        Some((a, _)) => a == target,
        None => false,
    }
}

/// Checks that `target` is the address derived from `(author, title)`, and returns the
/// nonce that derived it.
pub fn check_address(author: &Address, title: &[u8], program_id: &Address, target: &Address) -> (r:
    Result<u8, ReviewError>)
    ensures
        is_derived(author@, title@, program_id@, target@) ==> (r matches Ok(b)
            && program_address(author@, title@, program_id@) == Some((target@, b))),
        !is_derived(author@, title@, program_id@, target@) ==> r == Err::<u8, ReviewError>(
            ReviewError::InvalidAddress,
        ),
{
    let (derived, bump) = derive_address(author, title, program_id)?;
    if same_address(&derived, target) {
        Ok(bump)
    } else {
        Err(ReviewError::InvalidAddress)
    }
}

} // verus!
