use nanotoken::error::NanoTokenError;
use nanotoken::ix::{
    split_args, BurnArgs, CloseAccountArgs, InitializeAccountArgs, InitializeConfigArgs,
    InitializeMintArgs, InstructionIter, MintArgs, ProgramInstructionRef, TransferArgs,
    OP_BURN, OP_CLOSE_ACCOUNT, OP_INITIALIZE_ACCOUNT, OP_INITIALIZE_CONFIG, OP_INITIALIZE_MINT,
    OP_MINT, OP_TRANSFER,
};

#[test]
fn argument_sizes_are_fixed() {
    assert_eq!(InitializeConfigArgs::size(), 0);
    assert_eq!(InitializeMintArgs::size(), 40);
    assert_eq!(InitializeAccountArgs::size(), 8);
    assert_eq!(MintArgs::size(), 8);
    assert_eq!(BurnArgs::size(), 8);
    assert_eq!(TransferArgs::size(), 8);
    assert_eq!(CloseAccountArgs::size(), 0);
}

#[test]
fn opcodes_are_dense() {
    assert_eq!(
        [
            OP_INITIALIZE_CONFIG,
            OP_INITIALIZE_MINT,
            OP_INITIALIZE_ACCOUNT,
            OP_MINT,
            OP_BURN,
            OP_TRANSFER,
            OP_CLOSE_ACCOUNT
        ],
        [0, 1, 2, 3, 4, 5, 6]
    );
}

#[test]
fn split_args_checks_the_length() {
    let data = [1u8, 2, 3, 4];
    assert_eq!(split_args(&data, 3), Ok((&data[..3], &data[3..])));
    assert_eq!(split_args(&data, 4), Ok((&data[..], &data[4..])));
    assert_eq!(split_args(&data, 0), Ok((&data[..0], &data[..])));
    assert_eq!(split_args(&data, 5), Err(NanoTokenError::InvalidInstructionData));
}

#[test]
fn burn_args_from_data_reads_and_advances() {
    let mut data = 500u64.to_le_bytes().to_vec();
    data.extend_from_slice(&[0xaa, 0xbb]);
    let (args, rest) = BurnArgs::from_data(&data).unwrap();
    assert_eq!(args, BurnArgs { amount: 500 });
    assert_eq!(rest, &[0xaa, 0xbb]);
}

#[test]
fn burn_args_from_data_refuses_seven_bytes() {
    assert_eq!(BurnArgs::from_data(&[0u8; 7]), Err(NanoTokenError::InvalidInstructionData));
    assert_eq!(BurnArgs::from_data(&[]), Err(NanoTokenError::InvalidInstructionData));
    assert!(BurnArgs::from_data(&[0u8; 8]).is_ok());
}

#[test]
fn mint_and_transfer_args_from_data() {
    let data = u64::MAX.to_le_bytes();
    assert_eq!(MintArgs::from_data(&data), Ok((MintArgs { amount: u64::MAX }, &data[8..])));
    assert_eq!(
        TransferArgs::from_data(&data),
        Ok((TransferArgs { amount: u64::MAX }, &data[8..]))
    );
    assert_eq!(MintArgs::from_data(&data[1..]), Err(NanoTokenError::InvalidInstructionData));
    assert_eq!(TransferArgs::from_data(&data[1..]), Err(NanoTokenError::InvalidInstructionData));
}

#[test]
fn initialize_mint_args_from_data() {
    let mut data = vec![0x44u8; 32];
    data.extend_from_slice(&6u64.to_le_bytes());
    data.push(0xcc);
    let (args, rest) = InitializeMintArgs::from_data(&data).unwrap();
    assert_eq!(args, InitializeMintArgs { authority: [0x44u8; 32], decimals: 6 });
    assert_eq!(rest, &[0xcc]);
    assert_eq!(
        InitializeMintArgs::from_data(&data[..39]),
        Err(NanoTokenError::InvalidInstructionData)
    );
}

#[test]
fn initialize_account_args_from_data() {
    let data = 3u64.to_le_bytes();
    assert_eq!(
        InitializeAccountArgs::from_data(&data),
        Ok((InitializeAccountArgs { mint: 3 }, &data[8..]))
    );
    assert_eq!(
        InitializeAccountArgs::from_data(&data[..7]),
        Err(NanoTokenError::InvalidInstructionData)
    );
}

#[test]
fn empty_args_take_nothing() {
    let data = [1u8, 2, 3];
    assert_eq!(InitializeConfigArgs::from_data(&data), Ok((InitializeConfigArgs {}, &data[..])));
    assert_eq!(CloseAccountArgs::from_data(&data), Ok((CloseAccountArgs {}, &data[..])));
    assert_eq!(CloseAccountArgs::from_data(&[]), Ok((CloseAccountArgs {}, &data[..0])));
}

#[test]
fn iterator_ends_on_an_empty_stream() {
    let mut iter = InstructionIter::new(&[]);
    assert_eq!(iter.next(), None);
    assert_eq!(iter.next(), None);
}

#[test]
fn iterator_decodes_every_opcode_in_order() {
    let mut data = vec![OP_INITIALIZE_CONFIG, OP_INITIALIZE_MINT];
    data.extend_from_slice(&[0x55u8; 32]);
    data.extend_from_slice(&2u64.to_le_bytes());
    data.push(OP_INITIALIZE_ACCOUNT);
    data.extend_from_slice(&0u64.to_le_bytes());
    data.push(OP_MINT);
    data.extend_from_slice(&1000u64.to_le_bytes());
    data.push(OP_BURN);
    data.extend_from_slice(&1u64.to_le_bytes());
    data.push(OP_TRANSFER);
    data.extend_from_slice(&400u64.to_le_bytes());
    data.push(OP_CLOSE_ACCOUNT);
    let mut iter = InstructionIter::new(&data);
    assert_eq!(
        iter.next(),
        Some(Ok(ProgramInstructionRef::InitializeConfig(InitializeConfigArgs {})))
    );
    assert_eq!(
        iter.next(),
        Some(Ok(ProgramInstructionRef::InitializeMint(InitializeMintArgs {
            authority: [0x55u8; 32],
            decimals: 2
        })))
    );
    assert_eq!(
        iter.next(),
        Some(Ok(ProgramInstructionRef::InitializeAccount(InitializeAccountArgs { mint: 0 })))
    );
    assert_eq!(iter.next(), Some(Ok(ProgramInstructionRef::Mint(MintArgs { amount: 1000 }))));
    assert_eq!(iter.next(), Some(Ok(ProgramInstructionRef::Burn(BurnArgs { amount: 1 }))));
    assert_eq!(
        iter.next(),
        Some(Ok(ProgramInstructionRef::Transfer(TransferArgs { amount: 400 })))
    );
    assert_eq!(
        iter.next(),
        Some(Ok(ProgramInstructionRef::CloseAccount(CloseAccountArgs {})))
    );
    assert_eq!(iter.next(), None);
}

#[test]
fn iterator_refuses_an_unknown_opcode() {
    let mut iter = InstructionIter::new(&[7u8, 0, 0, 0, 0, 0, 0, 0, 0]);
    assert_eq!(iter.next(), Some(Err(NanoTokenError::InvalidInstructionData)));
    let mut other = InstructionIter::new(&[255u8]);
    assert_eq!(other.next(), Some(Err(NanoTokenError::InvalidInstructionData)));
}

#[test]
fn iterator_refuses_truncated_arguments() {
    let mut data = vec![OP_TRANSFER];
    data.extend_from_slice(&[0u8; 7]);
    let mut iter = InstructionIter::new(&data);
    assert_eq!(iter.next(), Some(Err(NanoTokenError::InvalidInstructionData)));
    assert_eq!(iter.next(), Some(Err(NanoTokenError::InvalidInstructionData)));
}

#[test]
fn iterator_refuses_trailing_bytes_after_the_last_instruction() {
    let mut data = vec![OP_MINT];
    data.extend_from_slice(&5u64.to_le_bytes());
    data.extend_from_slice(&[OP_BURN, 1, 2]);
    let mut iter = InstructionIter::new(&data);
    assert_eq!(iter.next(), Some(Ok(ProgramInstructionRef::Mint(MintArgs { amount: 5 }))));
    assert_eq!(iter.next(), Some(Err(NanoTokenError::InvalidInstructionData)));
}
