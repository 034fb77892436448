//! `InitializeAccount`: claims storage for the token account of one owner in
//! one mint, at the address derived from the two.

use vstd::prelude::*;
use crate::account::{check_handles, handles_in_reach, views, Account, AccountView};
use crate::codec::same_address;
use crate::error::NanoTokenError;
use crate::ix::InitializeAccountArgs;
use crate::ledger::{ledger_inv, lemma_initialize_account_keeps_ledger};
use crate::state::{AccountDiscriminator, TokenAccount, TokenAccountView};

verus! {

/// A derived address and bump value as sequences.
pub open spec fn spec_derived(derived: Option<([u8; 32], u8)>) -> Option<(Seq<u8>, u8)> {
    match derived {
        Some((address, bump)) => Some((address@, bump)),
        None => None,
    }
}

/// What `InitializeAccount` for the mint with index `mint` does to the
/// storage `s` when the cursor stands at `ai` of the handles `h` and the
/// host has derived `derived` for the owner and the mint: the handles at
/// `ai` and `ai + 1` name the new token account and its owner, and the three
/// shared handles must remain behind them. The checks are made in the order
/// written here, and the first that fails decides the error.
pub open spec fn spec_initialize_account_at(
    s: Seq<AccountView>,
    h: Seq<usize>,
    ai: int,
    mint: u64,
    derived: Option<(Seq<u8>, u8)>,
) -> Result<Seq<AccountView>, NanoTokenError> {
    if h.len() < ai + 5 || !handles_in_reach(h, ai, 2, s.len()) {
        Err(NanoTokenError::NotEnoughAccountKeys)
    } else {
        let p = h[ai] as int;
        let token = s[p];
        let owner = s[h[ai + 1] as int];
        match derived {
            None => Err(NanoTokenError::InvalidSeeds),
            Some((address, _)) => if address != token.key {
                Err(NanoTokenError::InvalidSeeds)
            } else if !token.unallocated() {
                Err(NanoTokenError::AccountAlreadyInUse)
            } else {
                Ok(
                    s.update(
                        p,
                        token.allocated(TokenAccount::spec_space()).with_tag(
                            AccountDiscriminator::Token,
                        ).with_token(TokenAccountView { owner: owner.key, mint, balance: 0 }),
                    ),
                )
            },
        }
    }
}

/// What `InitializeAccount` does, with the address that the host derives
/// for the owner named at `ai + 1` and the mint.
pub open spec fn spec_initialize_account(
    s: Seq<AccountView>,
    h: Seq<usize>,
    ai: int,
    mint: u64,
) -> Result<Seq<AccountView>, NanoTokenError> {
    spec_initialize_account_at(
        s,
        h,
        ai,
        mint,
        TokenAccount::spec_address(mint, s[h[ai + 1] as int].key),
    )
}

/// Creates the token account in the account that the handle at `ai` names,
/// for the owner at `ai + 1`, given the address `derived` that belongs to
/// the owner and the mint: the account must stand at that address and be
/// unclaimed. It then holds the owner, the mint index and a balance of zero.
/// Takes two handles. On an error no account is changed.
pub fn initialize_account_at(
    accounts: &mut Vec<Account>,
    handles: &[usize],
    ai: usize,
    args: &InitializeAccountArgs,
    derived: Option<([u8; 32], u8)>,
) -> (r: Result<usize, NanoTokenError>)
    ensures
        match spec_initialize_account_at(
            views(old(accounts)@),
            handles@,
            ai as int,
            args.mint,
            spec_derived(derived),
        ) {
            Ok(post) => r == Ok::<usize, NanoTokenError>(2) && views(final(accounts)@) == post,
            Err(e) => r == Err::<usize, NanoTokenError>(e) && final(accounts)@ == old(accounts)@,
        },
        ledger_inv(views(old(accounts)@)) ==> ledger_inv(views(final(accounts)@)),
{
    let len: usize = handles.len();
    if len < 5 || ai > len - 5 || !check_handles(handles, ai, 2, accounts.len()) {
        return Err(NanoTokenError::NotEnoughAccountKeys);
    }
    let p: usize = handles[ai];
    let o: usize = handles[ai + 1];
    let address: [u8; 32] = match derived {
        Some((address, _)) => address,
        None => {
            return Err(NanoTokenError::InvalidSeeds);
        },
    };
    if !same_address(&address, &accounts[p].key) {
        return Err(NanoTokenError::InvalidSeeds);
    }
    let owner: [u8; 32] = accounts[o].key;
    match accounts[p].allocate(56) {
        Ok(_) => {},
        Err(e) => {
            assert(accounts@ =~= old(accounts)@);
            return Err(e);
        },
    }
    let token = TokenAccount { owner, mint: args.mint, balance: 0 };
    accounts[p].data[0] = AccountDiscriminator::Token.tag();
    token.store(&mut accounts[p].data);
    proof {
        let post = spec_initialize_account_at(
            views(old(accounts)@),
            handles@,
            ai as int,
            args.mint,
            spec_derived(derived),
        ).unwrap();
        assert(views(accounts@) =~= post);
        if ledger_inv(views(old(accounts)@)) {
            lemma_initialize_account_keeps_ledger(
                views(old(accounts)@),
                handles@,
                ai as int,
                args.mint,
                spec_derived(derived),
            );
        }
    }
    Ok(2)
}

/// Creates the token account in the account that the handle at `ai` names,
/// for the owner at `ai + 1` in the mint with index `args.mint`, at the
/// address that the host derives from the two. Takes two handles. On an
/// error no account is changed.
pub fn initialize_account(
    accounts: &mut Vec<Account>,
    handles: &[usize],
    ai: usize,
    args: &InitializeAccountArgs,
) -> (r: Result<usize, NanoTokenError>)
    ensures
        match spec_initialize_account(views(old(accounts)@), handles@, ai as int, args.mint) {
            Ok(post) => r == Ok::<usize, NanoTokenError>(2) && views(final(accounts)@) == post,
            Err(e) => r == Err::<usize, NanoTokenError>(e) && final(accounts)@ == old(accounts)@,
        },
        ledger_inv(views(old(accounts)@)) ==> ledger_inv(views(final(accounts)@)),
{
    let len: usize = handles.len();
    if len < 5 || ai > len - 5 || !check_handles(handles, ai, 2, accounts.len()) {
        return Err(NanoTokenError::NotEnoughAccountKeys);
    }
    let derived = TokenAccount::address(args.mint, &accounts[handles[ai + 1]].key);
    initialize_account_at(accounts, handles, ai, args, derived)
}

} // verus!
