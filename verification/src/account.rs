//! Accounts as the ledger sees them: a storage of byte-addressable accounts
//! and the handles through which a call reaches them.

use vstd::prelude::*;
use crate::codec::{same_address, spec_zeros, zeros};
use crate::consts::{ID, MAX_PDA_INIT_ALLOC, SYSTEM_PROGRAM};
use crate::error::NanoTokenError;

verus! {

/// One account: a fixed identity, the identity that controls its storage,
/// whether it authorized the call, its value resource and its bytes.
///
/// A call works on a storage of accounts and on a list of handles. A handle
/// is the position of an account in the storage; the list may name one
/// account several times, and all of these handles share its bytes.
#[derive(Debug, PartialEq, Eq)]
pub struct Account {
    pub key: [u8; 32],
    pub owner: [u8; 32],
    pub is_signer: bool,
    pub lamports: u64,
    pub data: Vec<u8>,
}

/// The mathematical content of an [`Account`].
#[verifier::ext_equal]
pub struct AccountView {
    pub key: Seq<u8>,
    pub owner: Seq<u8>,
    pub is_signer: bool,
    pub lamports: u64,
    pub data: Seq<u8>,
}

impl View for Account {
    type V = AccountView;

    open spec fn view(&self) -> AccountView {
        AccountView {
            key: self.key@,
            owner: self.owner@,
            is_signer: self.is_signer,
            lamports: self.lamports,
            data: self.data@,
        }
    }
}

impl Clone for Account {
    /// A copy with the same contents.
    fn clone(&self) -> (r: Account)
        ensures
            r@ == self@,
    {
        Account {
            key: self.key,
            owner: self.owner,
            is_signer: self.is_signer,
            lamports: self.lamports,
            data: self.data.clone(),
        }
    }
}

/// The contents of a storage of accounts, position by position.
pub open spec fn views(accounts: Seq<Account>) -> Seq<AccountView> {
    Seq::new(accounts.len(), |i: int| accounts[i]@)
}

impl AccountView {
    /// The storage is controlled by the token program.
    pub open spec fn program_owned(self) -> bool {
        self.owner == ID@
    }

    /// The account has never been claimed: the native allocator controls it
    /// and it has no bytes.
    pub open spec fn unallocated(self) -> bool {
        self.owner == SYSTEM_PROGRAM@ && self.data.len() == 0
    }

    /// The account after the token program has claimed `space` zeroed bytes.
    pub open spec fn allocated(self, space: nat) -> AccountView {
        AccountView { owner: ID@, data: spec_zeros(space), ..self }
    }
}

impl Account {
    /// Whether the token program controls this account's storage.
    pub fn is_program_owned(&self) -> (r: bool)
        ensures
            r == self@.program_owned(),
    {
        same_address(&self.owner, &ID)
    }

    /// Claims `space` zeroed bytes for the token program, in one allocation
    /// step. The allocator only hands out storage that nobody has claimed
    /// before: on an error the account is left as it was.
    pub fn allocate(&mut self, space: usize) -> (r: Result<(), NanoTokenError>)
        requires
            space <= MAX_PDA_INIT_ALLOC,
        ensures
            match r {
                Ok(_) => old(self)@.unallocated() && final(self)@ == old(self)@.allocated(
                    space as nat,
                ),
                Err(e) => e == NanoTokenError::AccountAlreadyInUse && !old(self)@.unallocated()
                    && *final(self) == *old(self),
            },
    {
        if !same_address(&self.owner, &SYSTEM_PROGRAM) || self.data.len() != 0 {
            return Err(NanoTokenError::AccountAlreadyInUse);
        }
        self.data = zeros(space);
        self.owner = ID;
        Ok(())
    }
}

/// The `n` handles from the cursor `ai` on exist, and each of them names an
/// account of a storage of `len` accounts.
pub open spec fn handles_in_reach(handles: Seq<usize>, ai: int, n: int, len: nat) -> bool {
    &&& handles.len() >= ai + n
    &&& forall|k: int| ai <= k < ai + n ==> (#[trigger] handles[k]) < len
}

/// The handle that stands `back` places before the end of the list exists
/// and names an account of a storage of `len` accounts.
pub open spec fn handle_at_end(handles: Seq<usize>, back: int, len: nat) -> bool {
    0 < back <= handles.len() && handles[handles.len() - back] < len
}

/// Tells whether the `n` handles from the cursor `ai` on exist and name
/// accounts of a storage of `len` accounts.
pub fn check_handles(handles: &[usize], ai: usize, n: usize, len: usize) -> (r: bool)
    ensures
        r == handles_in_reach(handles@, ai as int, n as int, len as nat),
{
    let count: usize = handles.len();
    if count < n || ai > count - n {
        return false;
    }
    let mut k: usize = ai;
    while k < ai + n
        invariant
            ai <= k <= ai + n,
            ai + n <= count,
            count == handles@.len(),
            forall|j: int| ai <= j < k ==> (#[trigger] handles@[j]) < len,
        decreases ai + n - k,
    {
        if handles[k] >= len {
            return false;
        }
        k += 1;
    }
    true
}

/// Tells whether the handle `back` places before the end of the list exists
/// and names an account of a storage of `len` accounts.
pub fn check_handle_at_end(handles: &[usize], back: usize, len: usize) -> (r: bool)
    ensures
        r == handle_at_end(handles@, back as int, len as nat),
{
    let count: usize = handles.len();
    0 < back && back <= count && handles[count - back] < len
}

} // verus!
