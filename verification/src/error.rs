//! The ways in which an instruction can be refused.

use vstd::prelude::*;

verus! {

/// Why an instruction, and with it the whole batch, was refused.
#[derive(Clone, Copy, Debug, PartialEq, Eq, Structural)]
pub enum NanoTokenError {
    /// The call was addressed to another program.
    IncorrectProgramId,
    /// The list of handles is shorter than the instruction needs, or a
    /// handle names no account.
    NotEnoughAccountKeys,
    /// The instruction stream holds an unknown opcode or ends inside an
    /// argument structure.
    InvalidInstructionData,
    /// The record's discriminator is not the expected one, or the storage is
    /// too short to hold the record.
    InvalidAccountData,
    /// The record's storage is not controlled by this program.
    InvalidAccountOwner,
    /// The signer is not the owner recorded in the token account.
    IllegalOwner,
    /// A required authorizer did not sign the call.
    MissingRequiredSignature,
    /// One of the shared trailing accounts is not the expected one.
    InvalidArgument,
    /// Two records that must refer to the same mint do not.
    IncorrectMint,
    /// A balance, a supply, a value resource or the mint counter would
    /// exceed its range.
    ArithmeticOverflow,
    /// A debit is larger than the balance or supply it is taken from.
    InsufficientBalance,
    /// A mint was requested with more decimals than allowed.
    InvalidDecimals,
    /// The mint has no authority any more: its supply is fixed for good.
    MintAuthorityDisabled,
    /// The signer is not the authority recorded in the mint.
    IncorrectAuthority,
    /// Storage that should be claimed for a new record is already in use.
    AccountAlreadyInUse,
    /// Two roles of an instruction that must be different accounts are one
    /// and the same.
    AccountAliased,
    /// The token account's address is not the one derived from its owner and
    /// mint index.
    InvalidSeeds,
}

impl NanoTokenError {
    /// The number under which an error of the ledger's own is reported to a
    /// host that knows the common errors by name; `None` for the common
    /// ones.
    pub open spec fn spec_custom_code(self) -> Option<u32> {
        match self {
            NanoTokenError::IncorrectMint => Some(0u32),
            NanoTokenError::InvalidDecimals => Some(1u32),
            NanoTokenError::MintAuthorityDisabled => Some(2u32),
            NanoTokenError::IncorrectAuthority => Some(3u32),
            NanoTokenError::AccountAliased => Some(4u32),
            _ => None,
        }
    }

    /// The number under which an error of the ledger's own is reported;
    /// `None` for an error that every host knows by name.
    #[verifier::when_used_as_spec(spec_custom_code)]
    pub fn custom_code(self) -> (r: Option<u32>)
        ensures
            r == self.spec_custom_code(),
    {
        match self {
            NanoTokenError::IncorrectMint => Some(0),
            NanoTokenError::InvalidDecimals => Some(1),
            NanoTokenError::MintAuthorityDisabled => Some(2),
            NanoTokenError::IncorrectAuthority => Some(3),
            NanoTokenError::AccountAliased => Some(4),
            _ => None,
        }
    }
}

} // verus!
