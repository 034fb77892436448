//! Fixed identities and limits of the token program.

use vstd::prelude::*;

verus! {

/// Identity of the token program itself: every record of the ledger lives in
/// storage that this identity controls.
pub const ID: [u8; 32] = [
    38, 115, 202, 204, 225, 30, 2, 94, 243, 61, 249, 155, 50, 249, 255, 107,
    109, 137, 160, 178, 34, 50, 109, 236, 126, 21, 130, 196, 56, 47, 123, 135,
];

/// Well-known address of the singleton configuration record.
pub const CONFIG_ACCOUNT: [u8; 32] = [
    43, 85, 201, 147, 193, 63, 137, 188, 218, 254, 18, 105, 203, 180, 102, 174,
    233, 99, 186, 32, 18, 13, 32, 30, 6, 70, 191, 119, 246, 119, 23, 225,
];

/// Identity of the host's native allocator, which controls every account
/// that no program has claimed yet.
pub const SYSTEM_PROGRAM: [u8; 32] = [
    0, 0, 0, 0, 0, 0, 0, 0, 0, 0, 0, 0, 0, 0, 0, 0,
    0, 0, 0, 0, 0, 0, 0, 0, 0, 0, 0, 0, 0, 0, 0, 0,
];

/// The authority of a mint that nobody may issue any more.
pub const NO_AUTHORITY: [u8; 32] = [
    0, 0, 0, 0, 0, 0, 0, 0, 0, 0, 0, 0, 0, 0, 0, 0,
    0, 0, 0, 0, 0, 0, 0, 0, 0, 0, 0, 0, 0, 0, 0, 0,
];

/// Most bytes a single allocation step may claim for a new record.
pub const MAX_PDA_INIT_ALLOC: u64 = 10240;

/// Largest number of decimals a mint may be created with.
pub const MAX_DECIMALS: u64 = 9;

} // verus!
