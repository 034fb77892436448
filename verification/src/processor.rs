//! The dispatcher: decodes a batch of instructions and applies them, one
//! after the other, to one storage of accounts. A cursor walks the list of
//! handles; the last three handles are shared by the whole batch.

use vstd::prelude::*;
use crate::account::{check_handle_at_end, handle_at_end, views, Account, AccountView};
use crate::codec::same_address;
use crate::consts::{CONFIG_ACCOUNT, ID, SYSTEM_PROGRAM};
use crate::error::NanoTokenError;
use crate::ix::burn::{burn, spec_burn};
use crate::ix::close_account::{close_account, spec_close_account};
use crate::ix::initialize_account::{initialize_account, spec_initialize_account};
use crate::ix::initialize_config::{initialize_config, spec_initialize_config};
use crate::ix::initialize_mint::{initialize_mint, spec_initialize_mint};
use crate::ix::mint::{mint, spec_mint};
use crate::ix::transfer::{spec_transfer, transfer};
use crate::ix::{spec_decode, InstructionIter, InstructionView, ProgramInstructionRef};
use crate::ledger::{
    balances_within_supply, ledger_inv, lemma_ledger_within_supply, lemma_process_keeps_ledger,
};

verus! {

/// The third handle from the end names an account at the configuration's
/// address.
pub open spec fn spec_config_at_end(s: Seq<AccountView>, h: Seq<usize>) -> bool {
    handle_at_end(h, 3, s.len()) && s[h[h.len() - 3] as int].key == CONFIG_ACCOUNT@
}

/// The second handle from the end names an account at the native
/// allocator's address.
pub open spec fn spec_system_at_end(s: Seq<AccountView>, h: Seq<usize>) -> bool {
    handle_at_end(h, 2, s.len()) && s[h[h.len() - 2] as int].key == SYSTEM_PROGRAM@
}

/// A handler's outcome, with the cursor moved past the `taken` handles that
/// the handler took.
pub open spec fn spec_advance(
    outcome: Result<Seq<AccountView>, NanoTokenError>,
    ai: int,
    taken: int,
) -> Result<(Seq<AccountView>, int), NanoTokenError> {
    match outcome {
        Ok(post) => Ok((post, ai + taken)),
        Err(e) => Err(e),
    }
}

/// What one instruction does to the storage `s` when the cursor stands at
/// `ai` of the handles `h`: the storage afterwards and the new cursor, or
/// the error. An instruction that needs the shared configuration or
/// allocator account is refused with `InvalidArgument` when that account is
/// not the expected one, the configuration being looked at first.
pub open spec fn spec_execute(
    s: Seq<AccountView>,
    h: Seq<usize>,
    ai: int,
    instruction: InstructionView,
) -> Result<(Seq<AccountView>, int), NanoTokenError> {
    match instruction {
        InstructionView::InitializeConfig => if !spec_config_at_end(s, h) {
            Err(NanoTokenError::InvalidArgument)
        } else {
            spec_advance(spec_initialize_config(s, h, ai), ai, 0)
        },
        InstructionView::InitializeMint { authority, decimals } => if !spec_system_at_end(
            s,
            h,
        ) {
            Err(NanoTokenError::InvalidArgument)
        } else {
            spec_advance(spec_initialize_mint(s, h, ai, authority, decimals), ai, 1)
        },
        InstructionView::InitializeAccount { mint } => if !spec_config_at_end(s, h)
            || !spec_system_at_end(s, h) {
            Err(NanoTokenError::InvalidArgument)
        } else {
            spec_advance(spec_initialize_account(s, h, ai, mint), ai, 2)
        },
        InstructionView::Mint { amount } => spec_advance(spec_mint(s, h, ai, amount), ai, 3),
        InstructionView::Burn { amount } => spec_advance(spec_burn(s, h, ai, amount), ai, 3),
        InstructionView::Transfer { amount } => spec_advance(
            spec_transfer(s, h, ai, amount),
            ai,
            3,
        ),
        InstructionView::CloseAccount => spec_advance(spec_close_account(s, h, ai), ai, 3),
    }
}

/// What the instruction stream `data` does to the storage `s` from the
/// cursor `ai` of the handles `h` on: the instructions are applied in order
/// until the stream is exhausted or one fails. The result holds the storage
/// as the last instruction that succeeded left it.
pub open spec fn spec_run(s: Seq<AccountView>, h: Seq<usize>, ai: int, data: Seq<u8>) -> (
    Result<(), NanoTokenError>,
    Seq<AccountView>,
)
    decreases data.len(),
{
    match spec_decode(data) {
        None => (Ok(()), s),
        Some(Err(e)) => (Err(e), s),
        Some(Ok((instruction, rest))) => match spec_execute(s, h, ai, instruction) {
            Err(e) => (Err(e), s),
            Ok((post, next)) => spec_run(post, h, next, rest),
        },
    }
}

/// What a call does: it is refused unless it is addressed to the token
/// program and brings at least the three shared handles; then the
/// instruction stream runs from the first handle on.
pub open spec fn spec_process(
    program_id: Seq<u8>,
    s: Seq<AccountView>,
    h: Seq<usize>,
    data: Seq<u8>,
) -> (Result<(), NanoTokenError>, Seq<AccountView>) {
    if program_id != ID@ {
        (Err(NanoTokenError::IncorrectProgramId), s)
    } else if h.len() < 3 {
        (Err(NanoTokenError::NotEnoughAccountKeys), s)
    } else {
        spec_run(s, h, 0, data)
    }
}

/// An instruction that succeeds keeps the number of accounts and every
/// account's address, and leaves the cursor within the list of handles.
pub proof fn lemma_execute_frame(
    s: Seq<AccountView>,
    h: Seq<usize>,
    ai: int,
    instruction: InstructionView,
)
    requires
        0 <= ai,
        spec_execute(s, h, ai, instruction) is Ok,
    ensures
        ({
            let (post, next) = spec_execute(s, h, ai, instruction).unwrap();
            &&& post.len() == s.len()
            &&& ai <= next <= h.len()
            &&& forall|i: int| 0 <= i < s.len() ==> (#[trigger] post[i]).key == s[i].key
        }),
{
}

/// Every instruction of a stream takes at least its opcode off the stream.
pub proof fn lemma_decode_shortens(data: Seq<u8>)
    ensures
        spec_decode(data) matches Some(Ok((_, rest))) ==> rest.len() < data.len(),
{
}

/// Remembers which of the two shared trailing accounts have been checked, so
/// that a batch checks each at most once.
pub struct SharedAccounts {
    validated_config: bool,
    validated_system: bool,
}

impl SharedAccounts {
    /// What has been checked so far holds of the storage `s` and the
    /// handles `h`.
    pub closed spec fn inv(&self, s: Seq<AccountView>, h: Seq<usize>) -> bool {
        &&& self.validated_config ==> spec_config_at_end(s, h)
        &&& self.validated_system ==> spec_system_at_end(s, h)
    }

    /// The configuration account has been checked and found in place.
    pub closed spec fn config_checked(&self) -> bool {
        self.validated_config
    }

    /// The allocator account has been checked and found in place.
    pub closed spec fn system_checked(&self) -> bool {
        self.validated_system
    }

    /// Nothing checked yet.
    pub fn new() -> (r: SharedAccounts)
        ensures
            !r.config_checked(),
            !r.system_checked(),
            forall|s: Seq<AccountView>, h: Seq<usize>| r.inv(s, h),
    {
        SharedAccounts { validated_config: false, validated_system: false }
    }

    /// What was checked of `s` holds of every list with the same addresses.
    pub proof fn lemma_inv_frame(&self, s: Seq<AccountView>, t: Seq<AccountView>, h: Seq<usize>)
        requires
            self.inv(s, h),
            s.len() == t.len(),
            forall|i: int| 0 <= i < s.len() ==> (#[trigger] t[i]).key == s[i].key,
        ensures
            self.inv(t, h),
    {
    }

    /// Checks, unless it was checked before, that the third handle from the
    /// end names an account at the configuration's address.
    pub fn validate_config(&mut self, accounts: &Vec<Account>, handles: &[usize]) -> (r: Result<
        bool,
        NanoTokenError,
    >)
        requires
            old(self).inv(views(accounts@), handles@),
        ensures
            final(self).inv(views(accounts@), handles@),
            final(self).config_checked() == (old(self).config_checked() || r is Ok),
            old(self).config_checked() ==> r is Ok,
            final(self).system_checked() == old(self).system_checked(),
            match r {
                Ok(valid) => valid && spec_config_at_end(views(accounts@), handles@),
                Err(e) => e == NanoTokenError::InvalidArgument && !spec_config_at_end(
                    views(accounts@),
                    handles@,
                ),
            },
    {
        if !self.validated_config {
            if !check_handle_at_end(handles, 3, accounts.len()) {
                return Err(NanoTokenError::InvalidArgument);
            }
            let at: usize = handles[handles.len() - 3];
            if !same_address(&accounts[at].key, &CONFIG_ACCOUNT) {
                return Err(NanoTokenError::InvalidArgument);
            }
            self.validated_config = true;
        }
        Ok(true)
    }

    /// Checks, unless it was checked before, that the second handle from the
    /// end names an account at the native allocator's address.
    pub fn validate_system(&mut self, accounts: &Vec<Account>, handles: &[usize]) -> (r: Result<
        bool,
        NanoTokenError,
    >)
        requires
            old(self).inv(views(accounts@), handles@),
        ensures
            final(self).inv(views(accounts@), handles@),
            final(self).system_checked() == (old(self).system_checked() || r is Ok),
            old(self).system_checked() ==> r is Ok,
            final(self).config_checked() == old(self).config_checked(),
            match r {
                Ok(valid) => valid && spec_system_at_end(views(accounts@), handles@),
                Err(e) => e == NanoTokenError::InvalidArgument && !spec_system_at_end(
                    views(accounts@),
                    handles@,
                ),
            },
    {
        if !self.validated_system {
            if !check_handle_at_end(handles, 2, accounts.len()) {
                return Err(NanoTokenError::InvalidArgument);
            }
            let at: usize = handles[handles.len() - 2];
            if !same_address(&accounts[at].key, &SYSTEM_PROGRAM) {
                return Err(NanoTokenError::InvalidArgument);
            }
            self.validated_system = true;
        }
        Ok(true)
    }
}

/// Applies one decoded instruction at the cursor `ai` and hands back the new
/// cursor. On an error no account is changed.
pub fn execute(
    accounts: &mut Vec<Account>,
    handles: &[usize],
    ai: usize,
    instruction: &ProgramInstructionRef,
    shared: &mut SharedAccounts,
) -> (r: Result<usize, NanoTokenError>)
    requires
        old(shared).inv(views(old(accounts)@), handles@),
    ensures
        final(shared).inv(views(final(accounts)@), handles@),
        final(accounts)@.len() == old(accounts)@.len(),
        ledger_inv(views(old(accounts)@)) ==> ledger_inv(views(final(accounts)@))
            && balances_within_supply(views(final(accounts)@)),
        match spec_execute(views(old(accounts)@), handles@, ai as int, instruction@) {
            Ok((post, next)) => {
                &&& r matches Ok(cursor)
                &&& cursor == next
                &&& ai <= next <= handles@.len()
                &&& views(final(accounts)@) == post
            },
            Err(e) => r == Err::<usize, NanoTokenError>(e) && final(accounts)@ == old(accounts)@,
        },
{
    let len: usize = handles.len();
    let taken = match instruction {
        ProgramInstructionRef::InitializeConfig(args) => {
            match shared.validate_config(accounts, handles) {
                Ok(_) => initialize_config(accounts, handles, ai, args),
                Err(e) => Err(e),
            }
        },
        ProgramInstructionRef::InitializeMint(args) => {
            match shared.validate_system(accounts, handles) {
                Ok(_) => initialize_mint(accounts, handles, ai, args),
                Err(e) => Err(e),
            }
        },
        ProgramInstructionRef::InitializeAccount(args) => {
            match shared.validate_config(accounts, handles) {
                Ok(_) => match shared.validate_system(accounts, handles) {
                    Ok(_) => initialize_account(accounts, handles, ai, args),
                    Err(e) => Err(e),
                },
                Err(e) => Err(e),
            }
        },
        ProgramInstructionRef::Mint(args) => mint(accounts, handles, ai, args),
        ProgramInstructionRef::Burn(args) => burn(accounts, handles, ai, args),
        ProgramInstructionRef::Transfer(args) => transfer(accounts, handles, ai, args),
        ProgramInstructionRef::CloseAccount(args) => close_account(accounts, handles, ai, args),
    };
    proof {
        let s = views(old(accounts)@);
        if ledger_inv(s) {
            lemma_ledger_within_supply(views(accounts@));
        }
        if spec_execute(s, handles@, ai as int, instruction@) is Ok {
            lemma_execute_frame(s, handles@, ai as int, instruction@);
            shared.lemma_inv_frame(s, views(accounts@), handles@);
        }
    }
    match taken {
        Ok(n) => Ok(ai + n),
        Err(e) => Err(e),
    }
}

/// Runs one call: applies the instructions encoded in `data`, in order, to
/// the storage `accounts`, whose accounts the instructions reach through
/// `handles`. The first error ends the batch and is returned; the storage
/// then stands as the instructions before it left it, for the host to
/// discard.
pub fn process_instruction_nostd(
    program_id: &[u8; 32],
    accounts: &mut Vec<Account>,
    handles: &[usize],
    data: &[u8],
) -> (r: Result<(), NanoTokenError>)
    ensures
        (r, views(final(accounts)@)) == spec_process(
            program_id@,
            views(old(accounts)@),
            handles@,
            data@,
        ),
        ledger_inv(views(old(accounts)@)) ==> ledger_inv(views(final(accounts)@))
            && balances_within_supply(views(final(accounts)@)),
{
    proof {
        if ledger_inv(views(old(accounts)@)) {
            lemma_process_keeps_ledger(program_id@, views(old(accounts)@), handles@, data@);
            lemma_ledger_within_supply(
                spec_process(program_id@, views(old(accounts)@), handles@, data@).1,
            );
        }
    }
    if !same_address(program_id, &ID) {
        return Err(NanoTokenError::IncorrectProgramId);
    }
    if handles.len() < 3 {
        return Err(NanoTokenError::NotEnoughAccountKeys);
    }
    let mut shared = SharedAccounts::new();
    let mut instruction_iter = InstructionIter::new(data);
    let mut ai: usize = 0;
    loop
        invariant
            ai <= handles@.len(),
            shared.inv(views(accounts@), handles@),
            ledger_inv(views(old(accounts)@)) ==> ledger_inv(
                spec_process(program_id@, views(old(accounts)@), handles@, data@).1,
            ) && balances_within_supply(
                spec_process(program_id@, views(old(accounts)@), handles@, data@).1,
            ),
            spec_run(views(accounts@), handles@, ai as int, instruction_iter.remaining())
                == spec_process(program_id@, views(old(accounts)@), handles@, data@),
        decreases instruction_iter.remaining().len(),
    {
        let ghost before = instruction_iter.remaining();
        let ghost s = views(accounts@);
        proof {
            lemma_decode_shortens(before);
        }
        match instruction_iter.next() {
            None => {
                return Ok(());
            },
            Some(Err(e)) => {
                return Err(e);
            },
            Some(Ok(instruction)) => {
                match execute(accounts, handles, ai, &instruction, &mut shared) {
                    Ok(next) => {
                        assert(spec_run(s, handles@, ai as int, before) == spec_run(
                            views(accounts@),
                            handles@,
                            next as int,
                            instruction_iter.remaining(),
                        ));
                        ai = next;
                    },
                    Err(e) => {
                        return Err(e);
                    },
                }
            },
        }
    }
}

} // verus!
