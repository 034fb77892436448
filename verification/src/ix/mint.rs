//! `Mint`: issues an amount into a token account and adds it to the supply.

use vstd::prelude::*;
use crate::account::{check_handles, handles_in_reach, views, Account, AccountView};
use crate::codec::same_address;
use crate::consts::NO_AUTHORITY;
use crate::error::NanoTokenError;
use crate::ix::MintArgs;
use crate::ledger::{
    ledger_inv, lemma_mint_keeps_ledger, lemma_mint_keeps_supply_backed, supply_backed_at,
};
use crate::state::{Mint, MintView, TokenAccount, TokenAccountView};

verus! {

/// What `Mint` of `amount` does to the storage `s` when the cursor stands
/// at `ai` of the handles `h`: the handles at `ai`, `ai + 1` and `ai + 2`
/// name the mint, the token account and the mint's authority. The checks are
/// made in the order written here, and the first that fails decides the
/// error: the discriminators of both records are looked at before anything
/// is read from them. Last, directly before the writes, the program must
/// control both storages, as the host lets a program write only to storage
/// of its own.
pub open spec fn spec_mint(s: Seq<AccountView>, h: Seq<usize>, ai: int, amount: u64) -> Result<
    Seq<AccountView>,
    NanoTokenError,
> {
    if !handles_in_reach(h, ai, 3, s.len()) {
        Err(NanoTokenError::NotEnoughAccountKeys)
    } else {
        let p = h[ai] as int;
        let q = h[ai + 1] as int;
        let mint = s[p];
        let token = s[q];
        let authority = s[h[ai + 2] as int];
        if !authority.is_signer {
            Err(NanoTokenError::MissingRequiredSignature)
        } else if !Mint::spec_valid(mint.data) {
            Err(NanoTokenError::InvalidAccountData)
        } else if !TokenAccount::spec_valid(token.data) {
            Err(NanoTokenError::InvalidAccountData)
        } else if mint.mint().authority == NO_AUTHORITY@ {
            Err(NanoTokenError::MintAuthorityDisabled)
        } else if mint.mint().authority != authority.key {
            Err(NanoTokenError::IncorrectAuthority)
        } else if token.token().mint != mint.mint().mint_index {
            Err(NanoTokenError::IncorrectMint)
        } else if mint.mint().supply + amount > u64::MAX {
            Err(NanoTokenError::ArithmeticOverflow)
        } else if token.token().balance + amount > u64::MAX {
            Err(NanoTokenError::ArithmeticOverflow)
        } else if !mint.program_owned() || !token.program_owned() {
            Err(NanoTokenError::InvalidAccountOwner)
        } else {
            Ok(
                s.update(
                    p,
                    mint.with_mint(
                        MintView { supply: (mint.mint().supply + amount) as u64, ..mint.mint() },
                    ),
                ).update(
                    q,
                    token.with_token(
                        TokenAccountView {
                            balance: (token.token().balance + amount) as u64,
                            ..token.token()
                        },
                    ),
                ),
            )
        }
    }
}

/// Issues `args.amount` into the token account that the handle at `ai + 1`
/// names and adds it to the supply of the mint at `ai`, on behalf of the
/// mint's authority, the signer at `ai + 2`. Neither sum wraps: an amount
/// that does not fit is refused. Takes three handles. On an error no account
/// is changed.
pub fn mint(
    accounts: &mut Vec<Account>,
    handles: &[usize],
    ai: usize,
    args: &MintArgs,
) -> (r: Result<usize, NanoTokenError>)
    ensures
        match spec_mint(views(old(accounts)@), handles@, ai as int, args.amount) {
            Ok(post) => r == Ok::<usize, NanoTokenError>(3) && views(final(accounts)@) == post,
            Err(e) => r == Err::<usize, NanoTokenError>(e) && final(accounts)@ == old(accounts)@,
        },
        r is Ok && supply_backed_at(views(old(accounts)@), handles@[ai as int] as int)
            ==> supply_backed_at(views(final(accounts)@), handles@[ai as int] as int),
        ledger_inv(views(old(accounts)@)) ==> ledger_inv(views(final(accounts)@)),
{
    if !check_handles(handles, ai, 3, accounts.len()) {
        return Err(NanoTokenError::NotEnoughAccountKeys);
    }
    let p: usize = handles[ai];
    let q: usize = handles[ai + 1];
    let o: usize = handles[ai + 2];
    if !accounts[o].is_signer {
        return Err(NanoTokenError::MissingRequiredSignature);
    }
    let mut mint = Mint::unchecked_load_mut::<false>(&accounts[p])?;
    let mut token = TokenAccount::unchecked_load_mut(&accounts[q])?;
    if same_address(&mint.authority, &NO_AUTHORITY) {
        return Err(NanoTokenError::MintAuthorityDisabled);
    }
    if !same_address(&mint.authority, &accounts[o].key) {
        return Err(NanoTokenError::IncorrectAuthority);
    }
    if token.mint != mint.mint_index {
        return Err(NanoTokenError::IncorrectMint);
    }
    let supply: u64 = match mint.supply.checked_add(args.amount) {
        Some(sum) => sum,
        None => {
            return Err(NanoTokenError::ArithmeticOverflow);
        },
    };
    let balance: u64 = match token.balance.checked_add(args.amount) {
        Some(sum) => sum,
        None => {
            return Err(NanoTokenError::ArithmeticOverflow);
        },
    };
    if !accounts[p].is_program_owned() || !accounts[q].is_program_owned() {
        return Err(NanoTokenError::InvalidAccountOwner);
    }
    mint.supply = supply;
    token.balance = balance;
    mint.store(&mut accounts[p].data);
    token.store(&mut accounts[q].data);
    proof {
        let post = spec_mint(views(old(accounts)@), handles@, ai as int, args.amount).unwrap();
        assert(views(accounts@) =~= post);
        if supply_backed_at(views(old(accounts)@), p as int) {
            lemma_mint_keeps_supply_backed(views(old(accounts)@), handles@, ai as int, args.amount);
        }
        if ledger_inv(views(old(accounts)@)) {
            lemma_mint_keeps_ledger(views(old(accounts)@), handles@, ai as int, args.amount);
        }
    }
    Ok(3)
}

} // verus!
