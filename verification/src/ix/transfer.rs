//! `Transfer`: moves an amount between two token accounts of one mint.

use vstd::prelude::*;
use crate::account::{check_handles, handles_in_reach, views, Account, AccountView};
use crate::codec::same_address;
use crate::error::NanoTokenError;
use crate::ix::TransferArgs;
use crate::ledger::{ledger_inv, lemma_transfer_conserves, lemma_transfer_keeps_ledger};
use crate::state::{TokenAccount, TokenAccountView};

verus! {

/// What `Transfer` of `amount` does to the storage `s` when the cursor
/// stands at `ai` of the handles `h`: the handles at `ai`, `ai + 1` and
/// `ai + 2` name the source, the destination and the owner. The checks are
/// made in the order written here, and the first that fails decides the
/// error: the discriminators of both records are looked at before anything
/// is read from them. Where the source and the destination are one account,
/// what leaves it arrives in it: nothing is written and it is left as it
/// was. Last, directly before the writes, the program must control both
/// storages, as the host lets a program write only to storage of its own.
pub open spec fn spec_transfer(s: Seq<AccountView>, h: Seq<usize>, ai: int, amount: u64) -> Result<
    Seq<AccountView>,
    NanoTokenError,
> {
    if !handles_in_reach(h, ai, 3, s.len()) {
        Err(NanoTokenError::NotEnoughAccountKeys)
    } else {
        let p = h[ai] as int;
        let q = h[ai + 1] as int;
        let src = s[p];
        let dest = s[q];
        let owner = s[h[ai + 2] as int];
        if !owner.is_signer {
            Err(NanoTokenError::MissingRequiredSignature)
        } else if !TokenAccount::spec_valid(src.data) {
            Err(NanoTokenError::InvalidAccountData)
        } else if !TokenAccount::spec_valid(dest.data) {
            Err(NanoTokenError::InvalidAccountData)
        } else if src.token().owner != owner.key {
            Err(NanoTokenError::IllegalOwner)
        } else if src.token().mint != dest.token().mint {
            Err(NanoTokenError::IncorrectMint)
        } else if src.token().balance < amount {
            Err(NanoTokenError::InsufficientBalance)
        } else if p == q {
            Ok(s)
        } else if dest.token().balance + amount > u64::MAX {
            Err(NanoTokenError::ArithmeticOverflow)
        } else if !src.program_owned() || !dest.program_owned() {
            Err(NanoTokenError::InvalidAccountOwner)
        } else {
            Ok(
                s.update(
                    p,
                    src.with_token(
                        TokenAccountView {
                            balance: (src.token().balance - amount) as u64,
                            ..src.token()
                        },
                    ),
                ).update(
                    q,
                    dest.with_token(
                        TokenAccountView {
                            balance: (dest.token().balance + amount) as u64,
                            ..dest.token()
                        },
                    ),
                ),
            )
        }
    }
}

/// Moves `args.amount` from the token account that the handle at `ai` names
/// to the one at `ai + 1`, on behalf of the signer at `ai + 2`. Both
/// balances are read before either is written, and the sum of the two
/// balances stays what it was. Takes three handles. On an error no account
/// is changed.
pub fn transfer(
    accounts: &mut Vec<Account>,
    handles: &[usize],
    ai: usize,
    args: &TransferArgs,
) -> (r: Result<usize, NanoTokenError>)
    ensures
        match spec_transfer(views(old(accounts)@), handles@, ai as int, args.amount) {
            Ok(post) => r == Ok::<usize, NanoTokenError>(3) && views(final(accounts)@) == post,
            Err(e) => r == Err::<usize, NanoTokenError>(e) && final(accounts)@ == old(accounts)@,
        },
        r is Ok ==> views(final(accounts)@)[handles@[ai as int] as int].token().balance + views(
            final(accounts)@,
        )[handles@[ai + 1] as int].token().balance == views(
            old(accounts)@,
        )[handles@[ai as int] as int].token().balance + views(
            old(accounts)@,
        )[handles@[ai + 1] as int].token().balance,
        ledger_inv(views(old(accounts)@)) ==> ledger_inv(views(final(accounts)@)),
{
    if !check_handles(handles, ai, 3, accounts.len()) {
        return Err(NanoTokenError::NotEnoughAccountKeys);
    }
    let p: usize = handles[ai];
    let q: usize = handles[ai + 1];
    let o: usize = handles[ai + 2];
    if !accounts[o].is_signer {
        return Err(NanoTokenError::MissingRequiredSignature);
    }
    let mut src = TokenAccount::unchecked_load_mut(&accounts[p])?;
    let mut dest = TokenAccount::unchecked_load_mut(&accounts[q])?;
    if !same_address(&src.owner, &accounts[o].key) {
        return Err(NanoTokenError::IllegalOwner);
    }
    if src.mint != dest.mint {
        return Err(NanoTokenError::IncorrectMint);
    }
    let debited: u64 = match src.balance.checked_sub(args.amount) {
        Some(left) => left,
        None => {
            return Err(NanoTokenError::InsufficientBalance);
        },
    };
    if p == q {
        proof {
            lemma_transfer_conserves(views(old(accounts)@), handles@, ai as int, args.amount);
        }
        return Ok(3);
    }
    let credited: u64 = match dest.balance.checked_add(args.amount) {
        Some(sum) => sum,
        None => {
            return Err(NanoTokenError::ArithmeticOverflow);
        },
    };
    if !accounts[p].is_program_owned() || !accounts[q].is_program_owned() {
        return Err(NanoTokenError::InvalidAccountOwner);
    }
    src.balance = debited;
    dest.balance = credited;
    src.store(&mut accounts[p].data);
    dest.store(&mut accounts[q].data);
    proof {
        let post = spec_transfer(views(old(accounts)@), handles@, ai as int, args.amount).unwrap();
        assert(views(accounts@) =~= post);
        lemma_transfer_conserves(views(old(accounts)@), handles@, ai as int, args.amount);
        if ledger_inv(views(old(accounts)@)) {
            lemma_transfer_keeps_ledger(views(old(accounts)@), handles@, ai as int, args.amount);
        }
    }
    Ok(3)
}

} // verus!
