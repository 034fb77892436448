use nanotoken::error::NanoTokenError;

#[test]
fn own_errors_have_their_numbers() {
    assert_eq!(NanoTokenError::IncorrectMint.custom_code(), Some(0));
    assert_eq!(NanoTokenError::InvalidDecimals.custom_code(), Some(1));
    assert_eq!(NanoTokenError::MintAuthorityDisabled.custom_code(), Some(2));
    assert_eq!(NanoTokenError::IncorrectAuthority.custom_code(), Some(3));
    assert_eq!(NanoTokenError::AccountAliased.custom_code(), Some(4));
}

#[test]
fn common_errors_have_no_number() {
    let common = [
        NanoTokenError::IncorrectProgramId,
        NanoTokenError::NotEnoughAccountKeys,
        NanoTokenError::InvalidInstructionData,
        NanoTokenError::InvalidAccountData,
        NanoTokenError::InvalidAccountOwner,
        NanoTokenError::IllegalOwner,
        NanoTokenError::MissingRequiredSignature,
        NanoTokenError::InvalidArgument,
        NanoTokenError::ArithmeticOverflow,
        NanoTokenError::InsufficientBalance,
        NanoTokenError::AccountAlreadyInUse,
        NanoTokenError::InvalidSeeds,
    ];
    for error in common {
        assert_eq!(error.custom_code(), None);
    }
}
