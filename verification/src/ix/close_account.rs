//! `CloseAccount`: empties a token account into another one of the same mint.

use vstd::prelude::*;
use crate::account::{check_handles, handles_in_reach, views, Account, AccountView};
use crate::codec::same_address;
use crate::error::NanoTokenError;
use crate::ix::CloseAccountArgs;
use crate::ledger::{
    ledger_inv, lemma_close_account_conserves, lemma_close_account_keeps_ledger,
};
use crate::state::{TokenAccount, TokenAccountView};

verus! {

/// What `CloseAccount` does to the storage `s` when the cursor stands at
/// `ai` of the handles `h`: the handles at `ai`, `ai + 1` and `ai + 2` name
/// the target, the destination and the owner. The checks are made in the
/// order written here, and the first that fails decides the error: the
/// discriminators of both records are looked at before anything is read from
/// them. An account cannot be closed into itself: what it holds would be
/// lost. Last, directly before the writes, the program must control both
/// storages, as the host lets a program write only to storage of its own.
pub open spec fn spec_close_account(s: Seq<AccountView>, h: Seq<usize>, ai: int) -> Result<
    Seq<AccountView>,
    NanoTokenError,
> {
    if !handles_in_reach(h, ai, 3, s.len()) {
        Err(NanoTokenError::NotEnoughAccountKeys)
    } else {
        let p = h[ai] as int;
        let q = h[ai + 1] as int;
        let target = s[p];
        let dest = s[q];
        let owner = s[h[ai + 2] as int];
        if !owner.is_signer {
            Err(NanoTokenError::MissingRequiredSignature)
        } else if !TokenAccount::spec_valid(target.data) {
            Err(NanoTokenError::InvalidAccountData)
        } else if !TokenAccount::spec_valid(dest.data) {
            Err(NanoTokenError::InvalidAccountData)
        } else if target.token().owner != owner.key {
            Err(NanoTokenError::IllegalOwner)
        } else if target.token().mint != dest.token().mint {
            Err(NanoTokenError::IncorrectMint)
        } else if p == q {
            Err(NanoTokenError::AccountAliased)
        } else if dest.token().balance + target.token().balance > u64::MAX {
            Err(NanoTokenError::ArithmeticOverflow)
        } else if dest.lamports + target.lamports > u64::MAX {
            Err(NanoTokenError::ArithmeticOverflow)
        } else if !target.program_owned() || !dest.program_owned() {
            Err(NanoTokenError::InvalidAccountOwner)
        } else {
            Ok(
                s.update(
                    p,
                    target.with_token(
                        TokenAccountView { balance: 0, ..target.token() },
                    ).with_lamports(0),
                ).update(
                    q,
                    dest.with_token(
                        TokenAccountView {
                            balance: (dest.token().balance + target.token().balance) as u64,
                            ..dest.token()
                        },
                    ).with_lamports((dest.lamports + target.lamports) as u64),
                ),
            )
        }
    }
}

/// Closes the token account that the handle at `ai` names into the one at
/// `ai + 1`, on behalf of the signer at `ai + 2`: the whole balance and the
/// whole value resource of the target move to the destination, and the
/// target keeps none of either. Takes three handles. On an error no account
/// is changed.
pub fn close_account(
    accounts: &mut Vec<Account>,
    handles: &[usize],
    ai: usize,
    args: &CloseAccountArgs,
) -> (r: Result<usize, NanoTokenError>)
    ensures
        match spec_close_account(views(old(accounts)@), handles@, ai as int) {
            Ok(post) => r == Ok::<usize, NanoTokenError>(3) && views(final(accounts)@) == post,
            Err(e) => r == Err::<usize, NanoTokenError>(e) && final(accounts)@ == old(accounts)@,
        },
        r is Ok ==> {
            let target = handles@[ai as int] as int;
            let dest = handles@[ai + 1] as int;
            &&& views(final(accounts)@)[dest].token().balance == views(
                old(accounts)@,
            )[dest].token().balance + views(old(accounts)@)[target].token().balance
            &&& views(final(accounts)@)[dest].lamports == views(old(accounts)@)[dest].lamports
                + views(old(accounts)@)[target].lamports
            &&& views(final(accounts)@)[target].token().balance == 0
            &&& views(final(accounts)@)[target].lamports == 0
        },
        ledger_inv(views(old(accounts)@)) ==> ledger_inv(views(final(accounts)@)),
{
    if !check_handles(handles, ai, 3, accounts.len()) {
        return Err(NanoTokenError::NotEnoughAccountKeys);
    }
    let p: usize = handles[ai];
    let q: usize = handles[ai + 1];
    let o: usize = handles[ai + 2];
    if !accounts[o].is_signer {
        return Err(NanoTokenError::MissingRequiredSignature);
    }
    let (target_owner, target_mint, target_balance) = TokenAccount::check_disc(&accounts[p])?;
    let (dest_owner, dest_mint, dest_balance) = TokenAccount::check_disc(&accounts[q])?;
    if !same_address(&target_owner, &accounts[o].key) {
        return Err(NanoTokenError::IllegalOwner);
    }
    if target_mint != dest_mint {
        return Err(NanoTokenError::IncorrectMint);
    }
    if p == q {
        return Err(NanoTokenError::AccountAliased);
    }
    let balance: u64 = match dest_balance.checked_add(target_balance) {
        Some(sum) => sum,
        None => {
            return Err(NanoTokenError::ArithmeticOverflow);
        },
    };
    let lamports: u64 = match accounts[q].lamports.checked_add(accounts[p].lamports) {
        Some(sum) => sum,
        None => {
            return Err(NanoTokenError::ArithmeticOverflow);
        },
    };
    if !accounts[p].is_program_owned() || !accounts[q].is_program_owned() {
        return Err(NanoTokenError::InvalidAccountOwner);
    }
    let target = TokenAccount { owner: target_owner, mint: target_mint, balance: 0 };
    let dest = TokenAccount { owner: dest_owner, mint: dest_mint, balance };
    target.store(&mut accounts[p].data);
    accounts[p].lamports = 0;
    dest.store(&mut accounts[q].data);
    accounts[q].lamports = lamports;
    proof {
        let post = spec_close_account(views(old(accounts)@), handles@, ai as int).unwrap();
        assert(views(accounts@) =~= post);
        lemma_close_account_conserves(views(old(accounts)@), handles@, ai as int);
        if ledger_inv(views(old(accounts)@)) {
            lemma_close_account_keeps_ledger(views(old(accounts)@), handles@, ai as int);
        }
    }
    Ok(3)
}

} // verus!
