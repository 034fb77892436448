//! `InitializeMint`: claims storage for a new mint and gives it the next
//! index.

use vstd::prelude::*;
use crate::account::{
    check_handle_at_end, check_handles, handle_at_end, handles_in_reach, views, Account,
    AccountView,
};
use crate::codec::spec_zeros;
use crate::consts::MAX_DECIMALS;
use crate::error::NanoTokenError;
use crate::ix::InitializeMintArgs;
use crate::ledger::{ledger_inv, lemma_initialize_mint_keeps_ledger};
use crate::state::{AccountDiscriminator, Mint, MintView, ProgramConfig};

verus! {

/// What `InitializeMint` does to the storage `s` when the cursor stands at
/// `ai` of the handles `h`: the handle at `ai` names the account that
/// becomes the mint, and the third handle from the end, behind it, names the
/// configuration. The checks are made in the order written here, and the
/// first that fails decides the error. Last, directly before anything is
/// claimed or written, the program must control the configuration's
/// storage, and the allocator must find the new account unclaimed.
pub open spec fn spec_initialize_mint(
    s: Seq<AccountView>,
    h: Seq<usize>,
    ai: int,
    authority: Seq<u8>,
    decimals: u64,
) -> Result<Seq<AccountView>, NanoTokenError> {
    if h.len() < ai + 4 || !handles_in_reach(h, ai, 1, s.len()) || !handle_at_end(
        h,
        3,
        s.len(),
    ) {
        Err(NanoTokenError::NotEnoughAccountKeys)
    } else {
        let at = h[h.len() - 3] as int;
        let p = h[ai] as int;
        let config = s[at];
        let mint = s[p];
        if decimals > MAX_DECIMALS {
            Err(NanoTokenError::InvalidDecimals)
        } else if !ProgramConfig::spec_valid(config.data) {
            Err(NanoTokenError::InvalidAccountData)
        } else if config.config().mint_index == u64::MAX {
            Err(NanoTokenError::ArithmeticOverflow)
        } else if !config.program_owned() {
            Err(NanoTokenError::InvalidAccountOwner)
        } else if !mint.unallocated() {
            Err(NanoTokenError::AccountAlreadyInUse)
        } else {
            Ok(
                s.update(
                    at,
                    config.with_config(
                        ProgramConfig { mint_index: (config.config().mint_index + 1) as u64 },
                    ),
                ).update(
                    p,
                    mint.allocated(Mint::spec_space()).with_tag(
                        AccountDiscriminator::Mint,
                    ).with_mint(
                        MintView {
                            mint_index: config.config().mint_index,
                            authority,
                            supply: 0,
                            decimals: decimals as u8,
                            padding: spec_zeros(7),
                        },
                    ),
                ),
            )
        }
    }
}

/// Creates a mint in the account that the handle at `ai` names: claims its
/// storage, gives it the index that the configuration holds, the authority
/// and decimals of `args` and a supply of zero, and moves the
/// configuration's counter on by one. Takes one handle. On an error no
/// account is changed.
pub fn initialize_mint(
    accounts: &mut Vec<Account>,
    handles: &[usize],
    ai: usize,
    args: &InitializeMintArgs,
) -> (r: Result<usize, NanoTokenError>)
    ensures
        match spec_initialize_mint(
            views(old(accounts)@),
            handles@,
            ai as int,
            args.authority@,
            args.decimals,
        ) {
            Ok(post) => r == Ok::<usize, NanoTokenError>(1) && views(final(accounts)@) == post,
            Err(e) => r == Err::<usize, NanoTokenError>(e) && final(accounts)@ == old(accounts)@,
        },
        ledger_inv(views(old(accounts)@)) ==> ledger_inv(views(final(accounts)@)),
{
    let len: usize = handles.len();
    if len < 4 || ai > len - 4 || !check_handles(handles, ai, 1, accounts.len())
        || !check_handle_at_end(handles, 3, accounts.len()) {
        return Err(NanoTokenError::NotEnoughAccountKeys);
    }
    let at: usize = handles[len - 3];
    let p: usize = handles[ai];
    if args.decimals > MAX_DECIMALS {
        return Err(NanoTokenError::InvalidDecimals);
    }
    let mut config = ProgramConfig::unchecked_load_mut(&accounts[at])?;
    let next: u64 = match config.mint_index.checked_add(1) {
        Some(next) => next,
        None => {
            return Err(NanoTokenError::ArithmeticOverflow);
        },
    };
    Mint::owner_check(&accounts[at])?;
    match accounts[p].allocate(64) {
        Ok(_) => {},
        Err(e) => {
            assert(accounts@ =~= old(accounts)@);
            return Err(e);
        },
    }
    let mint = Mint {
        mint_index: config.mint_index,
        authority: args.authority,
        supply: 0,
        decimals: args.decimals as u8,
        _padding: [0u8; 7],
    };
    accounts[p].data[0] = AccountDiscriminator::Mint.tag();
    mint.store(&mut accounts[p].data);
    config.mint_index = next;
    config.store(&mut accounts[at].data);
    proof {
        let post = spec_initialize_mint(
            views(old(accounts)@),
            handles@,
            ai as int,
            args.authority@,
            args.decimals,
        ).unwrap();
        assert(mint._padding@ =~= spec_zeros(7));
        assert(views(accounts@) =~= post);
        if ledger_inv(views(old(accounts)@)) {
            lemma_initialize_mint_keeps_ledger(
                views(old(accounts)@),
                handles@,
                ai as int,
                args.authority@,
                args.decimals,
            );
        }
    }
    Ok(1)
}

} // verus!
