//! The two services of the host platform that the ledger relies on: byte
//! comparison and address derivation. Their contracts are taken on trust.

use vstd::prelude::*;
use solana_program::pubkey::Pubkey;

verus! {

/// The address and bump value that the host derives from two seeds and a
/// program identity, or `None` where no bump value yields an address.
pub uninterp spec fn program_address(
    seed_a: Seq<u8>,
    seed_b: Seq<u8>,
    program_id: Seq<u8>,
) -> Option<(Seq<u8>, u8)>;

/// Calls `solana_program::program_memory::sol_memcmp`.
///
/// Trusted: the result is zero exactly when the first `n` bytes of the two
/// slices agree. The host reads `n` bytes of each slice without looking at
/// their lengths, hence the precondition.
#[verifier::external_body]
pub(crate) fn compare_bytes(s1: &[u8], s2: &[u8], n: usize) -> (r: i32)
    requires
        n <= s1@.len(),
        n <= s2@.len(),
    ensures
        r == 0 <==> (forall|i: int| 0 <= i < n ==> s1@[i] == s2@[i]),
{
    solana_program::program_memory::sol_memcmp(s1, s2, n)
}

/// Calls `solana_program::pubkey::Pubkey::try_find_program_address` with the
/// two seeds, in this order.
///
/// Trusted: the outcome depends on the seeds and the program identity alone,
/// so it is `program_address` of them. Nothing is claimed about which address
/// that is.
#[verifier::external_body]
pub(crate) fn find_program_address(
    seed_a: &[u8],
    seed_b: &[u8],
    program_id: &[u8; 32],
) -> (r: Option<([u8; 32], u8)>)
    ensures
        match r {
            Some((address, bump)) => program_address(seed_a@, seed_b@, program_id@) == Some(
                (address@, bump),
            ),
            None => program_address(seed_a@, seed_b@, program_id@) is None,
        },
{
    let program = Pubkey::new_from_array(*program_id);
    match Pubkey::try_find_program_address(&[seed_a, seed_b], &program) {
        Some((address, bump)) => Some((address.to_bytes(), bump)),
        None => None,
    }
}

} // verus!
