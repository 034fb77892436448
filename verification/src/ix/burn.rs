//! `Burn`: takes an amount out of a token account and out of its mint's
//! supply.

use vstd::prelude::*;
use crate::account::{check_handles, handles_in_reach, views, Account, AccountView};
use crate::codec::same_address;
use crate::error::NanoTokenError;
use crate::ix::BurnArgs;
use crate::ledger::{
    ledger_inv, lemma_burn_keeps_ledger, lemma_burn_keeps_supply_backed, supply_backed_at,
};
use crate::state::{Mint, MintView, TokenAccount, TokenAccountView};

verus! {

/// What `Burn` of `amount` does to the storage `s` when the cursor stands
/// at `ai` of the handles `h`: the handles at `ai`, `ai + 1` and `ai + 2`
/// name the mint, the token account and its owner. The checks are made in
/// the order written here, and the first that fails decides the error: the
/// discriminators of both records are looked at before anything is read from
/// them. Last, directly before the writes, the program must control both
/// storages, as the host lets a program write only to storage of its own.
pub open spec fn spec_burn(s: Seq<AccountView>, h: Seq<usize>, ai: int, amount: u64) -> Result<
    Seq<AccountView>,
    NanoTokenError,
> {
    if !handles_in_reach(h, ai, 3, s.len()) {
        Err(NanoTokenError::NotEnoughAccountKeys)
    } else {
        let p = h[ai] as int;
        let q = h[ai + 1] as int;
        let mint = s[p];
        let token = s[q];
        let owner = s[h[ai + 2] as int];
        if !owner.is_signer {
            Err(NanoTokenError::MissingRequiredSignature)
        } else if !Mint::spec_valid(mint.data) {
            Err(NanoTokenError::InvalidAccountData)
        } else if !TokenAccount::spec_valid(token.data) {
            Err(NanoTokenError::InvalidAccountData)
        } else if token.token().owner != owner.key {
            Err(NanoTokenError::IllegalOwner)
        } else if token.token().mint != mint.mint().mint_index {
            Err(NanoTokenError::IncorrectMint)
        } else if token.token().balance < amount {
            Err(NanoTokenError::InsufficientBalance)
        } else if mint.mint().supply < amount {
            Err(NanoTokenError::InsufficientBalance)
        } else if !mint.program_owned() || !token.program_owned() {
            Err(NanoTokenError::InvalidAccountOwner)
        } else {
            Ok(
                s.update(
                    p,
                    mint.with_mint(
                        MintView { supply: (mint.mint().supply - amount) as u64, ..mint.mint() },
                    ),
                ).update(
                    q,
                    token.with_token(
                        TokenAccountView {
                            balance: (token.token().balance - amount) as u64,
                            ..token.token()
                        },
                    ),
                ),
            )
        }
    }
}

/// Takes `args.amount` out of the token account that the handle at
/// `ai + 1` names and out of the supply of the mint at `ai`, on behalf of
/// the token account's owner, the signer at `ai + 2`. Takes three handles.
/// On an error no account is changed.
pub fn burn(
    accounts: &mut Vec<Account>,
    handles: &[usize],
    ai: usize,
    args: &BurnArgs,
) -> (r: Result<usize, NanoTokenError>)
    ensures
        match spec_burn(views(old(accounts)@), handles@, ai as int, args.amount) {
            Ok(post) => r == Ok::<usize, NanoTokenError>(3) && views(final(accounts)@) == post,
            Err(e) => r == Err::<usize, NanoTokenError>(e) && final(accounts)@ == old(accounts)@,
        },
        r is Ok && supply_backed_at(views(old(accounts)@), handles@[ai as int] as int)
            ==> supply_backed_at(views(final(accounts)@), handles@[ai as int] as int),
        ledger_inv(views(old(accounts)@)) ==> ledger_inv(views(final(accounts)@)),
{
    if !check_handles(handles, ai, 3, accounts.len()) {
        return Err(NanoTokenError::NotEnoughAccountKeys);
    }
    let p: usize = handles[ai];
    let q: usize = handles[ai + 1];
    let o: usize = handles[ai + 2];
    if !accounts[o].is_signer {
        return Err(NanoTokenError::MissingRequiredSignature);
    }
    let mut mint = Mint::unchecked_load_mut::<false>(&accounts[p])?;
    let mut token = TokenAccount::unchecked_load_mut(&accounts[q])?;
    if !same_address(&token.owner, &accounts[o].key) {
        return Err(NanoTokenError::IllegalOwner);
    }
    if token.mint != mint.mint_index {
        return Err(NanoTokenError::IncorrectMint);
    }
    let balance: u64 = match token.balance.checked_sub(args.amount) {
        Some(left) => left,
        None => {
            return Err(NanoTokenError::InsufficientBalance);
        },
    };
    let supply: u64 = match mint.supply.checked_sub(args.amount) {
        Some(left) => left,
        None => {
            return Err(NanoTokenError::InsufficientBalance);
        },
    };
    if !accounts[p].is_program_owned() || !accounts[q].is_program_owned() {
        return Err(NanoTokenError::InvalidAccountOwner);
    }
    mint.supply = supply;
    token.balance = balance;
    mint.store(&mut accounts[p].data);
    token.store(&mut accounts[q].data);
    proof {
        let post = spec_burn(views(old(accounts)@), handles@, ai as int, args.amount).unwrap();
        assert(views(accounts@) =~= post);
        if supply_backed_at(views(old(accounts)@), p as int) {
            lemma_burn_keeps_supply_backed(views(old(accounts)@), handles@, ai as int, args.amount);
        }
        if ledger_inv(views(old(accounts)@)) {
            lemma_burn_keeps_ledger(views(old(accounts)@), handles@, ai as int, args.amount);
        }
    }
    Ok(3)
}

} // verus!
