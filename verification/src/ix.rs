//! The instruction stream: opcodes with fixed-size arguments, back to back,
//! and the seven handlers that apply them.

pub mod burn;
pub mod close_account;
pub mod initialize_account;
pub mod initialize_config;
pub mod initialize_mint;
pub mod mint;
pub mod transfer;

use vstd::prelude::*;
use vstd::slice::slice_subrange;
use crate::codec::{read_array, read_u64, spec_read_u64};
use crate::error::NanoTokenError;

verus! {

/// Arguments of `InitializeConfig`: none.
#[derive(Debug, Clone, Copy, PartialEq, Eq)]
pub struct InitializeConfigArgs {}

/// Arguments of `InitializeMint`.
#[derive(Debug, Clone, Copy, PartialEq, Eq)]
pub struct InitializeMintArgs {
    /// Who may issue the new asset; all zeros for nobody.
    pub authority: [u8; 32],
    pub decimals: u64,
}

/// Arguments of `InitializeAccount`.
#[derive(Debug, Clone, Copy, PartialEq, Eq)]
pub struct InitializeAccountArgs {
    /// Index of the mint that the new token account refers to.
    pub mint: u64,
}

/// Arguments of `Mint`.
#[derive(Debug, Clone, Copy, PartialEq, Eq)]
pub struct MintArgs {
    pub amount: u64,
}

/// Arguments of `Burn`.
#[derive(Debug, Clone, Copy, PartialEq, Eq)]
pub struct BurnArgs {
    pub amount: u64,
}

/// Arguments of `Transfer`.
#[derive(Debug, Clone, Copy, PartialEq, Eq)]
pub struct TransferArgs {
    pub amount: u64,
}

/// Arguments of `CloseAccount`: none.
#[derive(Debug, Clone, Copy, PartialEq, Eq)]
pub struct CloseAccountArgs {}

/// One decoded instruction.
#[derive(Debug, Clone, Copy, PartialEq, Eq)]
pub enum ProgramInstructionRef {
    InitializeConfig(InitializeConfigArgs),
    InitializeMint(InitializeMintArgs),
    InitializeAccount(InitializeAccountArgs),
    Mint(MintArgs),
    Burn(BurnArgs),
    Transfer(TransferArgs),
    CloseAccount(CloseAccountArgs),
}

/// The mathematical content of a [`ProgramInstructionRef`].
#[verifier::ext_equal]
pub enum InstructionView {
    InitializeConfig,
    InitializeMint { authority: Seq<u8>, decimals: u64 },
    InitializeAccount { mint: u64 },
    Mint { amount: u64 },
    Burn { amount: u64 },
    Transfer { amount: u64 },
    CloseAccount,
}

impl View for ProgramInstructionRef {
    type V = InstructionView;

    open spec fn view(&self) -> InstructionView {
        match *self {
            ProgramInstructionRef::InitializeConfig(_) => InstructionView::InitializeConfig,
            ProgramInstructionRef::InitializeMint(args) => InstructionView::InitializeMint {
                authority: args.authority@,
                decimals: args.decimals,
            },
            ProgramInstructionRef::InitializeAccount(args) => InstructionView::InitializeAccount {
                mint: args.mint,
            },
            ProgramInstructionRef::Mint(args) => InstructionView::Mint { amount: args.amount },
            ProgramInstructionRef::Burn(args) => InstructionView::Burn { amount: args.amount },
            ProgramInstructionRef::Transfer(args) => InstructionView::Transfer {
                amount: args.amount,
            },
            ProgramInstructionRef::CloseAccount(_) => InstructionView::CloseAccount,
        }
    }
}

/// Opcode of `InitializeConfig`.
pub const OP_INITIALIZE_CONFIG: u8 = 0;

/// Opcode of `InitializeMint`.
pub const OP_INITIALIZE_MINT: u8 = 1;

/// Opcode of `InitializeAccount`.
pub const OP_INITIALIZE_ACCOUNT: u8 = 2;

/// Opcode of `Mint`.
pub const OP_MINT: u8 = 3;

/// Opcode of `Burn`.
pub const OP_BURN: u8 = 4;

/// Opcode of `Transfer`.
pub const OP_TRANSFER: u8 = 5;

/// Opcode of `CloseAccount`.
pub const OP_CLOSE_ACCOUNT: u8 = 6;

/// Splits `n` bytes off the front of `data`, or fails with
/// `InvalidInstructionData` when fewer remain.
pub fn split_args<'a>(data: &'a [u8], n: usize) -> (r: Result<
    (&'a [u8], &'a [u8]),
    NanoTokenError,
>)
    ensures
        match r {
            Ok((head, rest)) => data@.len() >= n && head@ == data@.subrange(0, n as int) && rest@
                == data@.subrange(n as int, data@.len() as int),
            Err(e) => e == NanoTokenError::InvalidInstructionData && data@.len() < n,
        },
{
    let len: usize = data.len();
    if len < n {
        return Err(NanoTokenError::InvalidInstructionData);
    }
    Ok((slice_subrange(data, 0, n), slice_subrange(data, n, len)))
}

impl InitializeConfigArgs {
    /// Bytes that the arguments take in the stream.
    pub fn size() -> (r: usize)
        ensures
            r == 0,
    {
        0
    }

    /// Always succeeds: there is nothing to read, and `data` is handed back
    /// whole.
    pub fn from_data<'a>(data: &'a [u8]) -> (r: Result<
        (InitializeConfigArgs, &'a [u8]),
        NanoTokenError,
    >)
        ensures
            r matches Ok((_, rest)) && rest@ == data@,
    {
        Ok((InitializeConfigArgs {  }, data))
    }
}

impl CloseAccountArgs {
    /// Bytes that the arguments take in the stream.
    pub fn size() -> (r: usize)
        ensures
            r == 0,
    {
        0
    }

    /// Always succeeds: there is nothing to read, and `data` is handed back
    /// whole.
    pub fn from_data<'a>(data: &'a [u8]) -> (r: Result<
        (CloseAccountArgs, &'a [u8]),
        NanoTokenError,
    >)
        ensures
            r matches Ok((_, rest)) && rest@ == data@,
    {
        Ok((CloseAccountArgs {  }, data))
    }
}

impl InitializeMintArgs {
    /// Bytes that the arguments take in the stream.
    pub fn size() -> (r: usize)
        ensures
            r == 40,
    {
        40
    }

    /// Reads the arguments off the front of `data` and hands back what
    /// follows them. Fails with `InvalidInstructionData` exactly when fewer
    /// than 40 bytes remain.
    pub fn from_data<'a>(data: &'a [u8]) -> (r: Result<
        (InitializeMintArgs, &'a [u8]),
        NanoTokenError,
    >)
        ensures
            match r {
                Ok((args, rest)) => {
                    &&& data@.len() >= 40
                    &&& args.authority@ == data@.subrange(0, 32)
                    &&& args.decimals == spec_read_u64(data@, 32)
                    &&& rest@ == data@.subrange(40, data@.len() as int)
                },
                Err(e) => e == NanoTokenError::InvalidInstructionData && data@.len() < 40,
            },
    {
        let (head, rest) = split_args(data, 40)?;
        let args = InitializeMintArgs {
            authority: read_array::<32>(head, 0),
            decimals: read_u64(head, 32),
        };
        proof {
            assert(head@.subrange(0, 32) =~= data@.subrange(0, 32));
            assert(head@.subrange(32, 40) =~= data@.subrange(32, 40));
        }
        Ok((args, rest))
    }
}

impl InitializeAccountArgs {
    /// Bytes that the arguments take in the stream.
    pub fn size() -> (r: usize)
        ensures
            r == 8,
    {
        8
    }

    /// Reads the arguments off the front of `data` and hands back what
    /// follows them. Fails with `InvalidInstructionData` exactly when fewer
    /// than 8 bytes remain.
    pub fn from_data<'a>(data: &'a [u8]) -> (r: Result<
        (InitializeAccountArgs, &'a [u8]),
        NanoTokenError,
    >)
        ensures
            match r {
                Ok((args, rest)) => {
                    &&& data@.len() >= 8
                    &&& args.mint == spec_read_u64(data@, 0)
                    &&& rest@ == data@.subrange(8, data@.len() as int)
                },
                Err(e) => e == NanoTokenError::InvalidInstructionData && data@.len() < 8,
            },
    {
        let (head, rest) = split_args(data, 8)?;
        let args = InitializeAccountArgs { mint: read_u64(head, 0) };
        proof {
            assert(head@.subrange(0, 8) =~= data@.subrange(0, 8));
        }
        Ok((args, rest))
    }
}

impl MintArgs {
    /// Bytes that the arguments take in the stream.
    pub fn size() -> (r: usize)
        ensures
            r == 8,
    {
        8
    }

    /// Reads the arguments off the front of `data` and hands back what
    /// follows them. Fails with `InvalidInstructionData` exactly when fewer
    /// than 8 bytes remain.
    pub fn from_data<'a>(data: &'a [u8]) -> (r: Result<(MintArgs, &'a [u8]), NanoTokenError>)
        ensures
            match r {
                Ok((args, rest)) => {
                    &&& data@.len() >= 8
                    &&& args.amount == spec_read_u64(data@, 0)
                    &&& rest@ == data@.subrange(8, data@.len() as int)
                },
                Err(e) => e == NanoTokenError::InvalidInstructionData && data@.len() < 8,
            },
    {
        let (head, rest) = split_args(data, 8)?;
        let args = MintArgs { amount: read_u64(head, 0) };
        proof {
            assert(head@.subrange(0, 8) =~= data@.subrange(0, 8));
        }
        Ok((args, rest))
    }
}

impl BurnArgs {
    /// Bytes that the arguments take in the stream.
    pub fn size() -> (r: usize)
        ensures
            r == 8,
    {
        8
    }

    /// Reads the arguments off the front of `data` and hands back what
    /// follows them. Fails with `InvalidInstructionData` exactly when fewer
    /// than 8 bytes remain.
    pub fn from_data<'a>(data: &'a [u8]) -> (r: Result<(BurnArgs, &'a [u8]), NanoTokenError>)
        ensures
            match r {
                Ok((args, rest)) => {
                    &&& data@.len() >= 8
                    &&& args.amount == spec_read_u64(data@, 0)
                    &&& rest@ == data@.subrange(8, data@.len() as int)
                },
                Err(e) => e == NanoTokenError::InvalidInstructionData && data@.len() < 8,
            },
    {
        let (head, rest) = split_args(data, 8)?;
        let args = BurnArgs { amount: read_u64(head, 0) };
        proof {
            assert(head@.subrange(0, 8) =~= data@.subrange(0, 8));
        }
        Ok((args, rest))
    }
}

impl TransferArgs {
    /// Bytes that the arguments take in the stream.
    pub fn size() -> (r: usize)
        ensures
            r == 8,
    {
        8
    }

    /// Reads the arguments off the front of `data` and hands back what
    /// follows them. Fails with `InvalidInstructionData` exactly when fewer
    /// than 8 bytes remain.
    pub fn from_data<'a>(data: &'a [u8]) -> (r: Result<(TransferArgs, &'a [u8]), NanoTokenError>)
        ensures
            match r {
                Ok((args, rest)) => {
                    &&& data@.len() >= 8
                    &&& args.amount == spec_read_u64(data@, 0)
                    &&& rest@ == data@.subrange(8, data@.len() as int)
                },
                Err(e) => e == NanoTokenError::InvalidInstructionData && data@.len() < 8,
            },
    {
        let (head, rest) = split_args(data, 8)?;
        let args = TransferArgs { amount: read_u64(head, 0) };
        proof {
            assert(head@.subrange(0, 8) =~= data@.subrange(0, 8));
        }
        Ok((args, rest))
    }
}

/// Bytes of the argument structure that follows `opcode`; `None` for a byte
/// that is no opcode.
pub open spec fn spec_args_len(opcode: u8) -> Option<int> {
    if opcode == OP_INITIALIZE_CONFIG || opcode == OP_CLOSE_ACCOUNT {
        Some(0)
    } else if opcode == OP_INITIALIZE_MINT {
        Some(40)
    } else if opcode == OP_INITIALIZE_ACCOUNT || opcode == OP_MINT || opcode == OP_BURN || opcode
        == OP_TRANSFER {
        Some(8)
    } else {
        None
    }
}

/// The instruction that `opcode` and the argument bytes `args` stand for.
pub open spec fn spec_instruction(opcode: u8, args: Seq<u8>) -> InstructionView {
    if opcode == OP_INITIALIZE_CONFIG {
        InstructionView::InitializeConfig
    } else if opcode == OP_INITIALIZE_MINT {
        InstructionView::InitializeMint {
            authority: args.subrange(0, 32),
            decimals: spec_read_u64(args, 32),
        }
    } else if opcode == OP_INITIALIZE_ACCOUNT {
        InstructionView::InitializeAccount { mint: spec_read_u64(args, 0) }
    } else if opcode == OP_MINT {
        InstructionView::Mint { amount: spec_read_u64(args, 0) }
    } else if opcode == OP_BURN {
        InstructionView::Burn { amount: spec_read_u64(args, 0) }
    } else if opcode == OP_TRANSFER {
        InstructionView::Transfer { amount: spec_read_u64(args, 0) }
    } else {
        InstructionView::CloseAccount
    }
}

/// What the front of the stream `data` decodes to: nothing when the stream is
/// exhausted; an error when its first byte is no opcode or fewer bytes follow
/// than the opcode's arguments take; else the instruction and the rest of the
/// stream.
pub open spec fn spec_decode(data: Seq<u8>) -> Option<
    Result<(InstructionView, Seq<u8>), NanoTokenError>,
> {
    if data.len() == 0 {
        None
    } else {
        match spec_args_len(data[0]) {
            None => Some(Err(NanoTokenError::InvalidInstructionData)),
            Some(n) => if data.len() - 1 < n {
                Some(Err(NanoTokenError::InvalidInstructionData))
            } else {
                Some(
                    Ok(
                        (
                            spec_instruction(data[0], data.subrange(1, 1 + n)),
                            data.subrange(1 + n, data.len() as int),
                        ),
                    ),
                )
            },
        }
    }
}

/// A cursor over an instruction stream. It hands out one instruction at a
/// time and keeps no copy of the stream.
pub struct InstructionIter<'a> {
    data: &'a [u8],
}

impl<'a> InstructionIter<'a> {
    /// The bytes not decoded yet.
    pub closed spec fn remaining(&self) -> Seq<u8> {
        self.data@
    }

    /// A cursor at the start of `data`.
    pub fn new(data: &'a [u8]) -> (r: Self)
        ensures
            r.remaining() == data@,
    {
        InstructionIter { data }
    }

    /// Decodes the instruction at the cursor and moves past it. `None` at
    /// the end of the stream. On an error the cursor stays where it is.
    pub fn next(&mut self) -> (r: Option<Result<ProgramInstructionRef, NanoTokenError>>)
        ensures
            match spec_decode(old(self).remaining()) {
                None => r is None && final(self).remaining() == old(self).remaining(),
                Some(Err(e)) => r == Some(Err::<ProgramInstructionRef, NanoTokenError>(e))
                    && final(self).remaining() == old(self).remaining(),
                Some(Ok((instruction, rest))) => {
                    &&& r matches Some(Ok(decoded))
                    &&& decoded@ == instruction
                    &&& final(self).remaining() == rest
                },
            },
    {
        let data = self.data;
        let len: usize = data.len();
        if len == 0 {
            return None;
        }
        let opcode: u8 = data[0];
        let body = slice_subrange(data, 1, len);
        let decoded = if opcode == OP_INITIALIZE_CONFIG {
            match InitializeConfigArgs::from_data(body) {
                Ok((args, rest)) => Ok((ProgramInstructionRef::InitializeConfig(args), rest)),
                Err(e) => Err(e),
            }
        } else if opcode == OP_INITIALIZE_MINT {
            match InitializeMintArgs::from_data(body) {
                Ok((args, rest)) => Ok((ProgramInstructionRef::InitializeMint(args), rest)),
                Err(e) => Err(e),
            }
        } else if opcode == OP_INITIALIZE_ACCOUNT {
            match InitializeAccountArgs::from_data(body) {
                Ok((args, rest)) => Ok((ProgramInstructionRef::InitializeAccount(args), rest)),
                Err(e) => Err(e),
            }
        } else if opcode == OP_MINT {
            match MintArgs::from_data(body) {
                Ok((args, rest)) => Ok((ProgramInstructionRef::Mint(args), rest)),
                Err(e) => Err(e),
            }
        } else if opcode == OP_BURN {
            match BurnArgs::from_data(body) {
                Ok((args, rest)) => Ok((ProgramInstructionRef::Burn(args), rest)),
                Err(e) => Err(e),
            }
        } else if opcode == OP_TRANSFER {
            match TransferArgs::from_data(body) {
                Ok((args, rest)) => Ok((ProgramInstructionRef::Transfer(args), rest)),
                Err(e) => Err(e),
            }
        } else if opcode == OP_CLOSE_ACCOUNT {
            match CloseAccountArgs::from_data(body) {
                Ok((args, rest)) => Ok((ProgramInstructionRef::CloseAccount(args), rest)),
                Err(e) => Err(e),
            }
        } else {
            Err(NanoTokenError::InvalidInstructionData)
        };
        match decoded {
            Ok((instruction, rest)) => {
                proof {
                    let n = spec_args_len(opcode).unwrap();
                    let args = data@.subrange(1, 1 + n);
                    assert(rest@ =~= data@.subrange(1 + n, len as int));
                    assert(body@.subrange(0, n as int) =~= args);
                    if n == 40 {
                        assert(body@.subrange(0, 32) =~= args.subrange(0, 32));
                        assert(body@.subrange(32, 40) =~= args.subrange(32, 40));
                    }
                    if n == 8 {
                        assert(body@.subrange(0, 8) =~= args.subrange(0, 8));
                    }
                    assert(instruction@ =~= spec_instruction(opcode, args));
                }
                self.data = rest;
                Some(Ok(instruction))
            },
            Err(e) => Some(Err(e)),
        }
    }
}

} // verus!
