//! `InitializeConfig`: turns the blank configuration storage into the
//! configuration record.

use vstd::prelude::*;
use crate::account::{check_handle_at_end, handle_at_end, views, Account, AccountView};
use crate::error::NanoTokenError;
use crate::ix::InitializeConfigArgs;
use crate::ledger::{ledger_inv, lemma_initialize_config_keeps_ledger};
use crate::processor::spec_config_at_end;
use crate::state::{check_record, holds_record, AccountDiscriminator, Mint, ProgramConfig};

verus! {

/// What `InitializeConfig` does to the storage `s` when the cursor stands
/// at `ai` of the handles `h`: the configuration is named by the third
/// handle from the end, and at least the three shared handles must remain
/// behind the cursor. Its storage must be blank and long enough, which is
/// looked at first, and controlled by the program, which is asked directly
/// before the write.
pub open spec fn spec_initialize_config(s: Seq<AccountView>, h: Seq<usize>, ai: int) -> Result<
    Seq<AccountView>,
    NanoTokenError,
> {
    if h.len() < ai + 3 || !handle_at_end(h, 3, s.len()) {
        Err(NanoTokenError::NotEnoughAccountKeys)
    } else {
        let at = h[h.len() - 3] as int;
        let config = s[at];
        if !holds_record(
            config.data,
            AccountDiscriminator::Unintialized,
            ProgramConfig::spec_space(),
        ) {
            Err(NanoTokenError::InvalidAccountData)
        } else if !config.program_owned() {
            Err(NanoTokenError::InvalidAccountOwner)
        } else {
            Ok(
                s.update(
                    at,
                    config.with_tag(AccountDiscriminator::Config).with_config(
                        ProgramConfig { mint_index: 0 },
                    ),
                ),
            )
        }
    }
}

/// Writes the configuration record, with the mint counter at zero, into the
/// account that the third handle from the end names. Takes no handle off the
/// list: the configuration is one of the shared trailing accounts. That this
/// account has the configuration's address is for the caller to check. On an
/// error no account is changed.
pub fn initialize_config(
    accounts: &mut Vec<Account>,
    handles: &[usize],
    ai: usize,
    args: &InitializeConfigArgs,
) -> (r: Result<usize, NanoTokenError>)
    ensures
        match spec_initialize_config(views(old(accounts)@), handles@, ai as int) {
            Ok(post) => r == Ok::<usize, NanoTokenError>(0) && views(final(accounts)@) == post,
            Err(e) => r == Err::<usize, NanoTokenError>(e) && final(accounts)@ == old(accounts)@,
        },
        ledger_inv(views(old(accounts)@)) && spec_config_at_end(views(old(accounts)@), handles@)
            ==> ledger_inv(views(final(accounts)@)),
{
    let len: usize = handles.len();
    if len < 3 || ai > len - 3 || !check_handle_at_end(handles, 3, accounts.len()) {
        return Err(NanoTokenError::NotEnoughAccountKeys);
    }
    let at: usize = handles[len - 3];
    if !check_record(accounts[at].data.as_slice(), AccountDiscriminator::Unintialized, 16) {
        return Err(NanoTokenError::InvalidAccountData);
    }
    Mint::owner_check(&accounts[at])?;
    accounts[at].data[0] = AccountDiscriminator::Config.tag();
    let config = ProgramConfig { mint_index: 0 };
    config.store(&mut accounts[at].data);
    proof {
        let post = spec_initialize_config(views(old(accounts)@), handles@, ai as int).unwrap();
        assert(views(accounts@) =~= post);
        if ledger_inv(views(old(accounts)@)) && spec_config_at_end(
            views(old(accounts)@),
            handles@,
        ) {
            lemma_initialize_config_keeps_ledger(views(old(accounts)@), handles@, ai as int);
        }
    }
    Ok(0)
}

} // verus!
