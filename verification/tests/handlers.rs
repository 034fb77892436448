use nanotoken::account::{check_handle_at_end, check_handles, Account};
use nanotoken::consts::{CONFIG_ACCOUNT, ID, NO_AUTHORITY, SYSTEM_PROGRAM};
use nanotoken::error::NanoTokenError;
use nanotoken::ix::burn::burn;
use nanotoken::ix::close_account::close_account;
use nanotoken::ix::initialize_account::{initialize_account, initialize_account_at};
use nanotoken::ix::initialize_config::initialize_config;
use nanotoken::ix::initialize_mint::initialize_mint;
use nanotoken::ix::mint::mint;
use nanotoken::ix::transfer::transfer;
use nanotoken::ix::{
    BurnArgs, CloseAccountArgs, InitializeAccountArgs, InitializeConfigArgs, InitializeMintArgs,
    MintArgs, TransferArgs,
};
use nanotoken::state::{Mint, ProgramConfig, TokenAccount};

const ALICE: [u8; 32] = [0xa1; 32];
const BOB: [u8; 32] = [0xb0; 32];

fn plain(key: [u8; 32], is_signer: bool) -> Account {
    Account { key, owner: SYSTEM_PROGRAM, is_signer, lamports: 0, data: vec![] }
}

fn token_account(key: [u8; 32], owner: [u8; 32], mint: u64, balance: u64, lamports: u64) -> Account {
    let mut data = vec![3u8, 0, 0, 0, 0, 0, 0, 0];
    data.extend_from_slice(&owner);
    data.extend_from_slice(&mint.to_le_bytes());
    data.extend_from_slice(&balance.to_le_bytes());
    Account { key, owner: ID, is_signer: false, lamports, data }
}

fn mint_account(key: [u8; 32], index: u64, authority: [u8; 32], supply: u64) -> Account {
    let mut data = vec![2u8, 0, 0, 0, 0, 0, 0, 0];
    data.extend_from_slice(&index.to_le_bytes());
    data.extend_from_slice(&authority);
    data.extend_from_slice(&supply.to_le_bytes());
    data.push(2);
    data.extend_from_slice(&[0u8; 7]);
    Account { key, owner: ID, is_signer: false, lamports: 0, data }
}

fn config_account(next: Option<u64>) -> Account {
    let mut data = vec![0u8; 16];
    if let Some(index) = next {
        data[0] = 1;
        data[8..].copy_from_slice(&index.to_le_bytes());
    }
    Account { key: CONFIG_ACCOUNT, owner: ID, is_signer: false, lamports: 0, data }
}

fn balance(account: &Account) -> u64 {
    TokenAccount::checked_load_mut(&account.data).unwrap().balance
}

fn supply(account: &Account) -> u64 {
    Mint::checked_load_mut(&account.data).unwrap().supply
}

/// Storage for the balance instructions: a mint, two token accounts of it
/// and the owner of the first, who is also the mint's authority.
fn ledger(supply: u64, a: u64, b: u64) -> Vec<Account> {
    vec![
        mint_account([1u8; 32], 0, ALICE, supply),
        token_account([2u8; 32], ALICE, 0, a, 10),
        token_account([3u8; 32], BOB, 0, b, 20),
        plain(ALICE, true),
    ]
}

#[test]
fn check_handles_finds_a_dangling_handle() {
    assert!(check_handles(&[], 0, 0, 0));
    assert!(check_handles(&[0, 1, 1, 0], 0, 4, 2));
    assert!(check_handles(&[9, 1, 1, 9], 1, 2, 2));
    assert!(!check_handles(&[0, 2], 0, 2, 2));
    assert!(check_handles(&[0, 2], 0, 1, 2));
    assert!(!check_handles(&[0], 0, 1, 0));
}

#[test]
fn check_handles_finds_a_short_list() {
    assert!(!check_handles(&[0, 0], 0, 3, 1));
    assert!(!check_handles(&[0, 0, 0], 1, 3, 1));
    assert!(check_handles(&[0, 0, 0], 3, 0, 1));
    assert!(!check_handles(&[0, 0, 0], 4, 0, 1));
    assert!(!check_handles(&[0, 0, 0], usize::MAX, 1, 1));
}

#[test]
fn check_handle_at_end_counts_from_the_back() {
    assert!(check_handle_at_end(&[7, 0, 7], 2, 1));
    assert!(!check_handle_at_end(&[0, 7, 0], 2, 1));
    assert!(check_handle_at_end(&[0, 7, 0], 3, 1));
    assert!(!check_handle_at_end(&[0, 0], 3, 1));
    assert!(!check_handle_at_end(&[], 1, 1));
}

#[test]
fn a_handle_that_names_no_account_is_refused() {
    let mut accounts = ledger(1000, 600, 400);
    let before = accounts.clone();
    let missing = Err(NanoTokenError::NotEnoughAccountKeys);
    assert_eq!(transfer(&mut accounts, &[1, 2, 4], 0, &TransferArgs { amount: 1 }), missing);
    assert_eq!(transfer(&mut accounts, &[4, 2, 3], 0, &TransferArgs { amount: 1 }), missing);
    assert_eq!(mint(&mut accounts, &[0, 9, 3], 0, &MintArgs { amount: 1 }), missing);
    assert_eq!(burn(&mut accounts, &[0, 1, usize::MAX], 0, &BurnArgs { amount: 1 }), missing);
    assert_eq!(close_account(&mut accounts, &[1, 4, 3], 0, &CloseAccountArgs {}), missing);
    assert_eq!(initialize_config(&mut accounts, &[4, 1, 2], 0, &InitializeConfigArgs {}), missing);
    assert_eq!(
        initialize_mint(
            &mut accounts,
            &[4, 1, 2, 3],
            0,
            &InitializeMintArgs { authority: ALICE, decimals: 0 }
        ),
        missing
    );
    assert_eq!(
        initialize_mint(
            &mut accounts,
            &[3, 4, 2, 3],
            0,
            &InitializeMintArgs { authority: ALICE, decimals: 0 }
        ),
        missing
    );
    assert_eq!(
        initialize_account(&mut accounts, &[3, 4, 0, 1, 2], 0, &InitializeAccountArgs { mint: 0 }),
        missing
    );
    assert_eq!(
        initialize_account_at(
            &mut accounts,
            &[4, 3, 0, 1, 2],
            0,
            &InitializeAccountArgs { mint: 0 },
            None
        ),
        missing
    );
    assert_eq!(accounts, before);
    assert_eq!(transfer(&mut accounts, &[1, 2, 3, 9, 9], 0, &TransferArgs { amount: 1 }), Ok(3));
}

#[test]
fn transfer_moves_the_amount() {
    let mut accounts = ledger(1000, 1000, 0);
    assert_eq!(transfer(&mut accounts, &[1, 2, 3], 0, &TransferArgs { amount: 400 }), Ok(3));
    assert_eq!(balance(&accounts[1]), 600);
    assert_eq!(balance(&accounts[2]), 400);
    assert_eq!(supply(&accounts[0]), 1000);
    assert_eq!(accounts[1].lamports, 10);
    assert_eq!(accounts[2].lamports, 20);
}

#[test]
fn transfer_conserves_the_sum_of_the_two_balances() {
    for amount in [0u64, 1, 399, 400] {
        let mut accounts = ledger(1000, 400, 600);
        assert_eq!(transfer(&mut accounts, &[1, 2, 3], 0, &TransferArgs { amount }), Ok(3));
        assert_eq!(balance(&accounts[1]) + balance(&accounts[2]), 1000);
        assert_eq!(balance(&accounts[1]), 400 - amount);
    }
}

#[test]
fn transfer_reads_the_handles_from_the_cursor() {
    let mut accounts = ledger(1000, 1000, 0);
    assert_eq!(
        transfer(&mut accounts, &[0, 0, 1, 2, 3], 2, &TransferArgs { amount: 1 }),
        Ok(3)
    );
    assert_eq!(balance(&accounts[1]), 999);
    assert_eq!(balance(&accounts[2]), 1);
}

#[test]
fn transfer_to_the_same_account_changes_nothing() {
    let mut accounts = ledger(1000, 1000, 0);
    let before = accounts.clone();
    assert_eq!(transfer(&mut accounts, &[1, 1, 3], 0, &TransferArgs { amount: 400 }), Ok(3));
    assert_eq!(accounts, before);
    assert_eq!(
        transfer(&mut accounts, &[1, 1, 3], 0, &TransferArgs { amount: 1001 }),
        Err(NanoTokenError::InsufficientBalance)
    );
    assert_eq!(accounts, before);
}

#[test]
fn transfer_needs_three_handles() {
    let mut accounts = ledger(1000, 1000, 0);
    let before = accounts.clone();
    let args = TransferArgs { amount: 1 };
    assert_eq!(transfer(&mut accounts, &[1, 2], 0, &args), Err(NanoTokenError::NotEnoughAccountKeys));
    assert_eq!(
        transfer(&mut accounts, &[1, 2, 3], 1, &args),
        Err(NanoTokenError::NotEnoughAccountKeys)
    );
    assert_eq!(
        transfer(&mut accounts, &[1, 2, 3], 7, &args),
        Err(NanoTokenError::NotEnoughAccountKeys)
    );
    assert_eq!(accounts, before);
}

#[test]
fn transfer_needs_the_owners_signature() {
    let mut accounts = ledger(1000, 1000, 0);
    accounts[3].is_signer = false;
    let before = accounts.clone();
    assert_eq!(
        transfer(&mut accounts, &[1, 2, 3], 0, &TransferArgs { amount: 1 }),
        Err(NanoTokenError::MissingRequiredSignature)
    );
    assert_eq!(accounts, before);
}

#[test]
fn transfer_refuses_a_signer_who_is_not_the_owner() {
    let mut accounts = ledger(1000, 1000, 0);
    accounts.push(plain(BOB, true));
    let before = accounts.clone();
    assert_eq!(
        transfer(&mut accounts, &[1, 2, 4], 0, &TransferArgs { amount: 1 }),
        Err(NanoTokenError::IllegalOwner)
    );
    assert_eq!(accounts, before);
}

#[test]
fn transfer_compares_the_whole_owner_address() {
    let mut accounts = ledger(1000, 1000, 0);
    let mut almost = ALICE;
    almost[31] ^= 1;
    accounts.push(plain(almost, true));
    assert_eq!(
        transfer(&mut accounts, &[1, 2, 4], 0, &TransferArgs { amount: 1 }),
        Err(NanoTokenError::IllegalOwner)
    );
}

#[test]
fn transfer_refuses_records_of_another_kind() {
    let mut accounts = ledger(1000, 1000, 0);
    let before = accounts.clone();
    let args = TransferArgs { amount: 1 };
    assert_eq!(transfer(&mut accounts, &[0, 2, 3], 0, &args), Err(NanoTokenError::InvalidAccountData));
    assert_eq!(transfer(&mut accounts, &[1, 0, 3], 0, &args), Err(NanoTokenError::InvalidAccountData));
    assert_eq!(transfer(&mut accounts, &[1, 3, 3], 0, &args), Err(NanoTokenError::InvalidAccountData));
    assert_eq!(accounts, before);
}

#[test]
fn transfer_refuses_storage_of_another_program() {
    let mut accounts = ledger(1000, 1000, 0);
    accounts[2].owner = [0x99u8; 32];
    let before = accounts.clone();
    assert_eq!(
        transfer(&mut accounts, &[1, 2, 3], 0, &TransferArgs { amount: 1 }),
        Err(NanoTokenError::InvalidAccountOwner)
    );
    assert_eq!(accounts, before);
}

#[test]
fn transfer_refuses_accounts_of_different_mints() {
    let mut accounts = ledger(1000, 1000, 0);
    accounts[2] = token_account([3u8; 32], BOB, 1, 0, 0);
    let before = accounts.clone();
    assert_eq!(
        transfer(&mut accounts, &[1, 2, 3], 0, &TransferArgs { amount: 1 }),
        Err(NanoTokenError::IncorrectMint)
    );
    assert_eq!(accounts, before);
}

#[test]
fn transfer_refuses_more_than_the_balance() {
    let mut accounts = ledger(1000, 400, 600);
    let before = accounts.clone();
    assert_eq!(
        transfer(&mut accounts, &[1, 2, 3], 0, &TransferArgs { amount: 401 }),
        Err(NanoTokenError::InsufficientBalance)
    );
    assert_eq!(accounts, before);
}

#[test]
fn transfer_refuses_a_credit_that_overflows() {
    let mut accounts = ledger(0, 5, u64::MAX - 4);
    let before = accounts.clone();
    assert_eq!(
        transfer(&mut accounts, &[1, 2, 3], 0, &TransferArgs { amount: 5 }),
        Err(NanoTokenError::ArithmeticOverflow)
    );
    assert_eq!(accounts, before);
    assert_eq!(transfer(&mut accounts, &[1, 2, 3], 0, &TransferArgs { amount: 4 }), Ok(3));
    assert_eq!(balance(&accounts[2]), u64::MAX);
}

#[test]
fn mint_adds_to_supply_and_balance() {
    let mut accounts = ledger(0, 0, 0);
    assert_eq!(mint(&mut accounts, &[0, 1, 3], 0, &MintArgs { amount: 1000 }), Ok(3));
    assert_eq!(supply(&accounts[0]), 1000);
    assert_eq!(balance(&accounts[1]), 1000);
    assert_eq!(balance(&accounts[2]), 0);
}

#[test]
fn mint_of_the_largest_amount_twice_fails_the_second_time() {
    let mut accounts = ledger(0, 0, 0);
    assert_eq!(mint(&mut accounts, &[0, 1, 3], 0, &MintArgs { amount: u64::MAX }), Ok(3));
    let before = accounts.clone();
    assert_eq!(
        mint(&mut accounts, &[0, 1, 3], 0, &MintArgs { amount: u64::MAX }),
        Err(NanoTokenError::ArithmeticOverflow)
    );
    assert_eq!(
        mint(&mut accounts, &[0, 2, 3], 0, &MintArgs { amount: 1 }),
        Err(NanoTokenError::ArithmeticOverflow)
    );
    assert_eq!(accounts, before);
    assert_eq!(supply(&accounts[0]), u64::MAX);
    assert_eq!(balance(&accounts[1]), u64::MAX);
}

#[test]
fn mint_refuses_a_balance_that_overflows() {
    let mut accounts = ledger(10, u64::MAX - 1, 0);
    let before = accounts.clone();
    assert_eq!(
        mint(&mut accounts, &[0, 1, 3], 0, &MintArgs { amount: 2 }),
        Err(NanoTokenError::ArithmeticOverflow)
    );
    assert_eq!(accounts, before);
}

#[test]
fn mint_needs_the_authority() {
    let mut accounts = ledger(0, 0, 0);
    accounts.push(plain(BOB, true));
    let before = accounts.clone();
    assert_eq!(
        mint(&mut accounts, &[0, 1, 4], 0, &MintArgs { amount: 1 }),
        Err(NanoTokenError::IncorrectAuthority)
    );
    accounts[3].is_signer = false;
    assert_eq!(
        mint(&mut accounts, &[0, 1, 3], 0, &MintArgs { amount: 1 }),
        Err(NanoTokenError::MissingRequiredSignature)
    );
    accounts[3].is_signer = true;
    assert_eq!(accounts, before);
}

#[test]
fn mint_without_authority_is_disabled_for_good() {
    let mut accounts = ledger(0, 0, 0);
    accounts[0] = mint_account([1u8; 32], 0, NO_AUTHORITY, 0);
    accounts.push(plain(NO_AUTHORITY, true));
    let before = accounts.clone();
    assert_eq!(
        mint(&mut accounts, &[0, 1, 4], 0, &MintArgs { amount: 1 }),
        Err(NanoTokenError::MintAuthorityDisabled)
    );
    assert_eq!(accounts, before);
}

#[test]
fn mint_refuses_a_token_account_of_another_mint() {
    let mut accounts = ledger(0, 0, 0);
    accounts[1] = token_account([2u8; 32], ALICE, 1, 0, 0);
    assert_eq!(
        mint(&mut accounts, &[0, 1, 3], 0, &MintArgs { amount: 1 }),
        Err(NanoTokenError::IncorrectMint)
    );
}

#[test]
fn mint_refuses_wrong_records_and_short_lists() {
    let mut accounts = ledger(0, 0, 0);
    let args = MintArgs { amount: 1 };
    assert_eq!(mint(&mut accounts, &[1, 1, 3], 0, &args), Err(NanoTokenError::InvalidAccountData));
    assert_eq!(mint(&mut accounts, &[0, 0, 3], 0, &args), Err(NanoTokenError::InvalidAccountData));
    assert_eq!(mint(&mut accounts, &[0, 1], 0, &args), Err(NanoTokenError::NotEnoughAccountKeys));
    accounts[0].owner = SYSTEM_PROGRAM;
    assert_eq!(mint(&mut accounts, &[0, 1, 3], 0, &args), Err(NanoTokenError::InvalidAccountOwner));
}

#[test]
fn burn_takes_from_supply_and_balance() {
    let mut accounts = ledger(1000, 400, 600);
    assert_eq!(burn(&mut accounts, &[0, 1, 3], 0, &BurnArgs { amount: 150 }), Ok(3));
    assert_eq!(supply(&accounts[0]), 850);
    assert_eq!(balance(&accounts[1]), 250);
    assert_eq!(balance(&accounts[2]), 600);
}

#[test]
fn burn_of_more_than_the_balance_fails_and_changes_nothing() {
    let mut accounts = ledger(1000, 400, 600);
    let before = accounts.clone();
    assert_eq!(
        burn(&mut accounts, &[0, 1, 3], 0, &BurnArgs { amount: 500 }),
        Err(NanoTokenError::InsufficientBalance)
    );
    assert_eq!(accounts, before);
}

#[test]
fn burn_of_more_than_the_supply_fails() {
    let mut accounts = ledger(100, 400, 0);
    let before = accounts.clone();
    assert_eq!(
        burn(&mut accounts, &[0, 1, 3], 0, &BurnArgs { amount: 101 }),
        Err(NanoTokenError::InsufficientBalance)
    );
    assert_eq!(accounts, before);
}

#[test]
fn burn_needs_the_owner() {
    let mut accounts = ledger(1000, 400, 600);
    let before = accounts.clone();
    assert_eq!(
        burn(&mut accounts, &[0, 2, 3], 0, &BurnArgs { amount: 1 }),
        Err(NanoTokenError::IllegalOwner)
    );
    accounts[3].is_signer = false;
    assert_eq!(
        burn(&mut accounts, &[0, 1, 3], 0, &BurnArgs { amount: 1 }),
        Err(NanoTokenError::MissingRequiredSignature)
    );
    accounts[3].is_signer = true;
    assert_eq!(accounts, before);
    accounts[1] = token_account([2u8; 32], ALICE, 4, 400, 0);
    assert_eq!(
        burn(&mut accounts, &[0, 1, 3], 0, &BurnArgs { amount: 1 }),
        Err(NanoTokenError::IncorrectMint)
    );
}

#[test]
fn mint_then_burn_keeps_supply_equal_to_the_balances() {
    let mut accounts = ledger(0, 0, 0);
    accounts.push(plain(BOB, true));
    let steps: [(bool, usize, u64); 6] =
        [(true, 1, 700), (true, 2, 300), (false, 1, 200), (true, 2, 5), (false, 2, 305), (false, 1, 500)];
    for (is_mint, token, amount) in steps {
        let signer = if is_mint || token == 1 { 3 } else { 4 };
        let handles = [0, token, signer];
        let done = if is_mint {
            mint(&mut accounts, &handles, 0, &MintArgs { amount })
        } else {
            burn(&mut accounts, &handles, 0, &BurnArgs { amount })
        };
        assert_eq!(done, Ok(3));
        assert_eq!(supply(&accounts[0]), balance(&accounts[1]) + balance(&accounts[2]));
        assert!(balance(&accounts[1]) <= supply(&accounts[0]));
        assert!(balance(&accounts[2]) <= supply(&accounts[0]));
    }
    assert_eq!(supply(&accounts[0]), 0);
}

#[test]
fn close_account_moves_balance_and_value() {
    let mut accounts = ledger(1000, 600, 400);
    assert_eq!(close_account(&mut accounts, &[1, 2, 3], 0, &CloseAccountArgs {}), Ok(3));
    assert_eq!(balance(&accounts[1]), 0);
    assert_eq!(accounts[1].lamports, 0);
    assert_eq!(balance(&accounts[2]), 1000);
    assert_eq!(accounts[2].lamports, 30);
    assert_eq!(supply(&accounts[0]), 1000);
}

#[test]
fn close_account_twice_moves_nothing_more() {
    let mut accounts = ledger(1000, 600, 400);
    assert_eq!(close_account(&mut accounts, &[1, 2, 3], 0, &CloseAccountArgs {}), Ok(3));
    let after_first = accounts.clone();
    assert_eq!(close_account(&mut accounts, &[1, 2, 3], 0, &CloseAccountArgs {}), Ok(3));
    assert_eq!(accounts, after_first);
}

#[test]
fn close_account_of_an_empty_account() {
    let mut accounts = ledger(400, 0, 400);
    assert_eq!(close_account(&mut accounts, &[1, 2, 3], 0, &CloseAccountArgs {}), Ok(3));
    assert_eq!(balance(&accounts[2]), 400);
    assert_eq!(accounts[2].lamports, 30);
    assert_eq!(accounts[1].lamports, 0);
}

#[test]
fn close_account_into_itself_is_refused() {
    let mut accounts = ledger(1000, 600, 400);
    let before = accounts.clone();
    assert_eq!(
        close_account(&mut accounts, &[1, 1, 3], 0, &CloseAccountArgs {}),
        Err(NanoTokenError::AccountAliased)
    );
    assert_eq!(accounts, before);
}

#[test]
fn close_account_checks_in_order() {
    let mut accounts = ledger(1000, 600, 400);
    accounts.push(plain(BOB, true));
    accounts.push(token_account([7u8; 32], BOB, 1, 0, 0));
    let before = accounts.clone();
    let args = CloseAccountArgs {};
    assert_eq!(
        close_account(&mut accounts, &[1, 2], 0, &args),
        Err(NanoTokenError::NotEnoughAccountKeys)
    );
    assert_eq!(
        close_account(&mut accounts, &[0, 2, 1], 0, &args),
        Err(NanoTokenError::MissingRequiredSignature)
    );
    assert_eq!(
        close_account(&mut accounts, &[0, 2, 3], 0, &args),
        Err(NanoTokenError::InvalidAccountData)
    );
    assert_eq!(
        close_account(&mut accounts, &[1, 0, 3], 0, &args),
        Err(NanoTokenError::InvalidAccountData)
    );
    assert_eq!(
        close_account(&mut accounts, &[1, 2, 4], 0, &args),
        Err(NanoTokenError::IllegalOwner)
    );
    assert_eq!(
        close_account(&mut accounts, &[1, 5, 3], 0, &args),
        Err(NanoTokenError::IncorrectMint)
    );
    assert_eq!(accounts, before);
}

#[test]
fn close_account_refuses_sums_that_overflow() {
    let mut accounts = ledger(0, 2, u64::MAX - 1);
    let before = accounts.clone();
    assert_eq!(
        close_account(&mut accounts, &[1, 2, 3], 0, &CloseAccountArgs {}),
        Err(NanoTokenError::ArithmeticOverflow)
    );
    assert_eq!(accounts, before);
    let mut rich = ledger(0, 1, 1);
    rich[1].lamports = u64::MAX;
    rich[2].lamports = 1;
    let before = rich.clone();
    assert_eq!(
        close_account(&mut rich, &[1, 2, 3], 0, &CloseAccountArgs {}),
        Err(NanoTokenError::ArithmeticOverflow)
    );
    assert_eq!(rich, before);
}

#[test]
fn initialize_config_writes_the_record() {
    let mut accounts = vec![config_account(None), plain(SYSTEM_PROGRAM, false), plain(BOB, true)];
    assert_eq!(initialize_config(&mut accounts, &[0, 1, 2], 0, &InitializeConfigArgs {}), Ok(0));
    assert_eq!(
        ProgramConfig::checked_load_mut(&accounts[0].data),
        Ok(ProgramConfig { mint_index: 0 })
    );
    assert_eq!(accounts[0].data, vec![1, 0, 0, 0, 0, 0, 0, 0, 0, 0, 0, 0, 0, 0, 0, 0]);
}

#[test]
fn initialize_config_only_once() {
    let mut accounts =
        vec![config_account(Some(4)), plain(SYSTEM_PROGRAM, false), plain(BOB, true)];
    let before = accounts.clone();
    assert_eq!(
        initialize_config(&mut accounts, &[0, 1, 2], 0, &InitializeConfigArgs {}),
        Err(NanoTokenError::InvalidAccountData)
    );
    assert_eq!(accounts, before);
}

#[test]
fn initialize_config_needs_storage_of_the_program() {
    let mut accounts = vec![config_account(None), plain(SYSTEM_PROGRAM, false), plain(BOB, true)];
    accounts[0].owner = SYSTEM_PROGRAM;
    assert_eq!(
        initialize_config(&mut accounts, &[0, 1, 2], 0, &InitializeConfigArgs {}),
        Err(NanoTokenError::InvalidAccountOwner)
    );
    accounts[0].owner = ID;
    accounts[0].data.truncate(15);
    assert_eq!(
        initialize_config(&mut accounts, &[0, 1, 2], 0, &InitializeConfigArgs {}),
        Err(NanoTokenError::InvalidAccountData)
    );
    assert_eq!(
        initialize_config(&mut accounts, &[0, 1, 2], 1, &InitializeConfigArgs {}),
        Err(NanoTokenError::NotEnoughAccountKeys)
    );
}

#[test]
fn initialize_mint_takes_the_next_index() {
    let mut accounts = vec![
        plain([1u8; 32], true),
        config_account(Some(0)),
        plain(SYSTEM_PROGRAM, false),
        plain(BOB, true),
        plain([4u8; 32], true),
    ];
    let args = InitializeMintArgs { authority: ALICE, decimals: 2 };
    assert_eq!(initialize_mint(&mut accounts, &[0, 1, 2, 3], 0, &args), Ok(1));
    assert_eq!(accounts[0].owner, ID);
    assert_eq!(
        Mint::checked_load_mut(&accounts[0].data),
        Ok(Mint { mint_index: 0, authority: ALICE, supply: 0, decimals: 2, _padding: [0u8; 7] })
    );
    assert_eq!(accounts[0].data.len(), 64);
    assert_eq!(
        ProgramConfig::checked_load_mut(&accounts[1].data),
        Ok(ProgramConfig { mint_index: 1 })
    );
    assert_eq!(initialize_mint(&mut accounts, &[4, 1, 2, 3], 0, &args), Ok(1));
    assert_eq!(Mint::checked_load_mut(&accounts[4].data).unwrap().mint_index, 1);
    assert_eq!(
        ProgramConfig::checked_load_mut(&accounts[1].data),
        Ok(ProgramConfig { mint_index: 2 })
    );
}

#[test]
fn initialize_mint_refuses_ten_decimals() {
    let mut accounts = vec![
        plain([1u8; 32], true),
        config_account(Some(0)),
        plain(SYSTEM_PROGRAM, false),
        plain(BOB, true),
    ];
    let before = accounts.clone();
    assert_eq!(
        initialize_mint(
            &mut accounts,
            &[0, 1, 2, 3],
            0,
            &InitializeMintArgs { authority: ALICE, decimals: 10 }
        ),
        Err(NanoTokenError::InvalidDecimals)
    );
    assert_eq!(accounts, before);
    assert_eq!(
        initialize_mint(
            &mut accounts,
            &[0, 1, 2, 3],
            0,
            &InitializeMintArgs { authority: ALICE, decimals: 9 }
        ),
        Ok(1)
    );
    assert_eq!(Mint::checked_load_mut(&accounts[0].data).unwrap().decimals, 9);
}

#[test]
fn initialize_mint_checks_in_order() {
    let args = InitializeMintArgs { authority: ALICE, decimals: 2 };
    let mut accounts = vec![
        plain([1u8; 32], true),
        config_account(None),
        plain(SYSTEM_PROGRAM, false),
        plain(BOB, true),
    ];
    assert_eq!(
        initialize_mint(&mut accounts, &[1, 2, 3], 0, &args),
        Err(NanoTokenError::NotEnoughAccountKeys)
    );
    assert_eq!(
        initialize_mint(&mut accounts, &[0, 1, 2, 3], 0, &args),
        Err(NanoTokenError::InvalidAccountData)
    );
    accounts[1] = config_account(Some(u64::MAX));
    let before = accounts.clone();
    assert_eq!(
        initialize_mint(&mut accounts, &[0, 1, 2, 3], 0, &args),
        Err(NanoTokenError::ArithmeticOverflow)
    );
    assert_eq!(accounts, before);
    accounts[1] = config_account(Some(3));
    accounts[1].owner = [0x99u8; 32];
    assert_eq!(
        initialize_mint(&mut accounts, &[0, 1, 2, 3], 0, &args),
        Err(NanoTokenError::InvalidAccountOwner)
    );
    accounts[1].owner = ID;
    accounts[0].data = vec![0u8; 64];
    let before = accounts.clone();
    assert_eq!(
        initialize_mint(&mut accounts, &[0, 1, 2, 3], 0, &args),
        Err(NanoTokenError::AccountAlreadyInUse)
    );
    assert_eq!(
        initialize_mint(&mut accounts, &[1, 1, 2, 3], 0, &args),
        Err(NanoTokenError::AccountAlreadyInUse)
    );
    assert_eq!(accounts, before);
}

#[test]
fn initialize_account_at_the_derived_address() {
    let (address, bump) = TokenAccount::address(0, &ALICE).unwrap();
    let mut accounts = vec![
        plain(address, false),
        plain(ALICE, false),
        config_account(Some(1)),
        plain(SYSTEM_PROGRAM, false),
        plain(BOB, true),
    ];
    accounts[0].lamports = 5;
    assert_eq!(
        initialize_account(&mut accounts, &[0, 1, 2, 3, 4], 0, &InitializeAccountArgs { mint: 0 }),
        Ok(2)
    );
    assert_eq!(accounts[0].owner, ID);
    assert_eq!(accounts[0].data.len(), 56);
    assert_eq!(accounts[0].data[0], 3);
    assert_eq!(accounts[0].lamports, 5);
    assert_eq!(
        TokenAccount::checked_load_mut(&accounts[0].data),
        Ok(TokenAccount { owner: ALICE, mint: 0, balance: 0 })
    );
    let mut again = vec![
        plain(address, false),
        plain(ALICE, false),
        config_account(Some(1)),
        plain(SYSTEM_PROGRAM, false),
        plain(BOB, true),
    ];
    assert_eq!(
        initialize_account_at(
            &mut again,
            &[0, 1, 2, 3, 4],
            0,
            &InitializeAccountArgs { mint: 0 },
            Some((address, bump))
        ),
        Ok(2)
    );
    assert_eq!(again[0].data, accounts[0].data);
}

#[test]
fn initialize_account_refuses_another_address() {
    let (address, _) = TokenAccount::address(0, &ALICE).unwrap();
    let mut accounts = vec![
        plain(address, false),
        plain(ALICE, false),
        config_account(Some(2)),
        plain(SYSTEM_PROGRAM, false),
        plain(BOB, true),
    ];
    let before = accounts.clone();
    assert_eq!(
        initialize_account(&mut accounts, &[0, 1, 2, 3, 4], 0, &InitializeAccountArgs { mint: 1 }),
        Err(NanoTokenError::InvalidSeeds)
    );
    assert_eq!(
        initialize_account(&mut accounts, &[0, 4, 2, 3, 4], 0, &InitializeAccountArgs { mint: 0 }),
        Err(NanoTokenError::InvalidSeeds)
    );
    assert_eq!(
        initialize_account(&mut accounts, &[1, 1, 2, 3, 4], 0, &InitializeAccountArgs { mint: 0 }),
        Err(NanoTokenError::InvalidSeeds)
    );
    assert_eq!(accounts, before);
}

#[test]
fn initialize_account_at_follows_the_address_given() {
    let mut accounts = vec![
        plain([0x10u8; 32], false),
        plain(ALICE, false),
        config_account(Some(1)),
        plain(SYSTEM_PROGRAM, false),
        plain(BOB, true),
    ];
    let before = accounts.clone();
    let args = InitializeAccountArgs { mint: 0 };
    let handles = [0usize, 1, 2, 3, 4];
    assert_eq!(
        initialize_account_at(&mut accounts, &handles, 0, &args, None),
        Err(NanoTokenError::InvalidSeeds)
    );
    assert_eq!(
        initialize_account_at(&mut accounts, &handles, 0, &args, Some(([0x11u8; 32], 255))),
        Err(NanoTokenError::InvalidSeeds)
    );
    assert_eq!(
        initialize_account_at(&mut accounts, &handles[1..], 0, &args, Some(([0x10u8; 32], 255))),
        Err(NanoTokenError::NotEnoughAccountKeys)
    );
    assert_eq!(accounts, before);
    assert_eq!(
        initialize_account_at(&mut accounts, &handles, 0, &args, Some(([0x10u8; 32], 254))),
        Ok(2)
    );
    assert_eq!(
        TokenAccount::checked_load_mut(&accounts[0].data),
        Ok(TokenAccount { owner: ALICE, mint: 0, balance: 0 })
    );
    let before = accounts.clone();
    assert_eq!(
        initialize_account_at(&mut accounts, &handles, 0, &args, Some(([0x10u8; 32], 254))),
        Err(NanoTokenError::AccountAlreadyInUse)
    );
    assert_eq!(accounts, before);
}

#[test]
fn close_account_looks_at_both_tags_before_it_asks_who_controls_the_storage() {
    let mut accounts = ledger(1000, 600, 400);
    accounts[1].owner = [0x99u8; 32];
    accounts[2].data[0] = 2;
    let before = accounts.clone();
    assert_eq!(
        close_account(&mut accounts, &[1, 2, 3], 0, &CloseAccountArgs {}),
        Err(NanoTokenError::InvalidAccountData)
    );
    accounts[2].data[0] = 0;
    let before_blank = accounts.clone();
    assert_eq!(
        close_account(&mut accounts, &[1, 2, 3], 0, &CloseAccountArgs {}),
        Err(NanoTokenError::InvalidAccountData)
    );
    assert_eq!(accounts, before_blank);
    accounts[2].data[0] = 2;
    assert_eq!(accounts, before);
}

#[test]
fn close_account_refuses_a_wrong_tag_whoever_controls_the_storage() {
    for owner in [ID, SYSTEM_PROGRAM, [0x99u8; 32]] {
        for (target_tag, dest_tag) in [(0u8, 3u8), (3, 0), (2, 3), (3, 2), (1, 1), (3, 4)] {
            let mut accounts = ledger(1000, 600, 400);
            accounts[1].owner = owner;
            accounts[2].owner = owner;
            accounts[1].data[0] = target_tag;
            accounts[2].data[0] = dest_tag;
            let before = accounts.clone();
            assert_eq!(
                close_account(&mut accounts, &[1, 2, 3], 0, &CloseAccountArgs {}),
                Err(NanoTokenError::InvalidAccountData)
            );
            assert_eq!(accounts, before);
        }
    }
}

#[test]
fn close_account_asks_who_controls_the_storage_last() {
    let mut accounts = ledger(1000, 600, 400);
    accounts[1].owner = [0x99u8; 32];
    accounts.push(plain(BOB, true));
    accounts.push(token_account([7u8; 32], BOB, 1, 0, 0));
    let before = accounts.clone();
    let args = CloseAccountArgs {};
    assert_eq!(
        close_account(&mut accounts, &[1, 2, 4], 0, &args),
        Err(NanoTokenError::IllegalOwner)
    );
    assert_eq!(
        close_account(&mut accounts, &[1, 5, 3], 0, &args),
        Err(NanoTokenError::IncorrectMint)
    );
    assert_eq!(
        close_account(&mut accounts, &[1, 1, 3], 0, &args),
        Err(NanoTokenError::AccountAliased)
    );
    assert_eq!(
        close_account(&mut accounts, &[1, 2, 3], 0, &args),
        Err(NanoTokenError::InvalidAccountOwner)
    );
    assert_eq!(accounts, before);
    let mut full = ledger(0, 2, u64::MAX - 1);
    full[2].owner = [0x99u8; 32];
    assert_eq!(
        close_account(&mut full, &[1, 2, 3], 0, &args),
        Err(NanoTokenError::ArithmeticOverflow)
    );
    let mut foreign_dest = ledger(1000, 600, 400);
    foreign_dest[2].owner = SYSTEM_PROGRAM;
    let before = foreign_dest.clone();
    assert_eq!(
        close_account(&mut foreign_dest, &[1, 2, 3], 0, &args),
        Err(NanoTokenError::InvalidAccountOwner)
    );
    assert_eq!(foreign_dest, before);
}

#[test]
fn transfer_asks_who_controls_the_storage_last() {
    let mut accounts = ledger(1000, 600, 400);
    accounts[1].owner = [0x99u8; 32];
    accounts.push(plain(BOB, true));
    accounts.push(token_account([7u8; 32], BOB, 1, 0, 0));
    let before = accounts.clone();
    let one = TransferArgs { amount: 1 };
    accounts[2].data[0] = 2;
    assert_eq!(transfer(&mut accounts, &[1, 2, 3], 0, &one), Err(NanoTokenError::InvalidAccountData));
    accounts[2].data[0] = 3;
    assert_eq!(transfer(&mut accounts, &[1, 2, 4], 0, &one), Err(NanoTokenError::IllegalOwner));
    assert_eq!(transfer(&mut accounts, &[1, 5, 3], 0, &one), Err(NanoTokenError::IncorrectMint));
    assert_eq!(
        transfer(&mut accounts, &[1, 2, 3], 0, &TransferArgs { amount: 601 }),
        Err(NanoTokenError::InsufficientBalance)
    );
    assert_eq!(transfer(&mut accounts, &[1, 2, 3], 0, &one), Err(NanoTokenError::InvalidAccountOwner));
    assert_eq!(accounts, before);
    assert_eq!(transfer(&mut accounts, &[1, 1, 3], 0, &one), Ok(3));
    assert_eq!(accounts, before);
    let mut full = ledger(0, 5, u64::MAX);
    full[1].owner = [0x99u8; 32];
    assert_eq!(transfer(&mut full, &[1, 2, 3], 0, &one), Err(NanoTokenError::ArithmeticOverflow));
}

#[test]
fn mint_asks_who_controls_the_storage_last() {
    let mut accounts = ledger(10, 10, 0);
    accounts[0].owner = [0x99u8; 32];
    accounts.push(plain(BOB, true));
    accounts.push(token_account([7u8; 32], ALICE, 1, 0, 0));
    let before = accounts.clone();
    let one = MintArgs { amount: 1 };
    accounts[1].data[0] = 0;
    assert_eq!(mint(&mut accounts, &[0, 1, 3], 0, &one), Err(NanoTokenError::InvalidAccountData));
    accounts[1].data[0] = 3;
    assert_eq!(mint(&mut accounts, &[0, 1, 4], 0, &one), Err(NanoTokenError::IncorrectAuthority));
    assert_eq!(mint(&mut accounts, &[0, 5, 3], 0, &one), Err(NanoTokenError::IncorrectMint));
    assert_eq!(
        mint(&mut accounts, &[0, 1, 3], 0, &MintArgs { amount: u64::MAX }),
        Err(NanoTokenError::ArithmeticOverflow)
    );
    assert_eq!(mint(&mut accounts, &[0, 1, 3], 0, &one), Err(NanoTokenError::InvalidAccountOwner));
    accounts[0].owner = ID;
    accounts[1].owner = SYSTEM_PROGRAM;
    assert_eq!(mint(&mut accounts, &[0, 1, 3], 0, &one), Err(NanoTokenError::InvalidAccountOwner));
    accounts[0].owner = [0x99u8; 32];
    accounts[1].owner = ID;
    assert_eq!(accounts, before);
}

#[test]
fn burn_asks_who_controls_the_storage_last() {
    let mut accounts = ledger(10, 10, 0);
    accounts[1].owner = [0x99u8; 32];
    accounts.push(plain(BOB, true));
    accounts.push(token_account([7u8; 32], ALICE, 1, 5, 0));
    let before = accounts.clone();
    let one = BurnArgs { amount: 1 };
    accounts[0].data[0] = 3;
    assert_eq!(burn(&mut accounts, &[0, 1, 3], 0, &one), Err(NanoTokenError::InvalidAccountData));
    accounts[0].data[0] = 2;
    assert_eq!(burn(&mut accounts, &[0, 1, 4], 0, &one), Err(NanoTokenError::IllegalOwner));
    assert_eq!(burn(&mut accounts, &[0, 5, 3], 0, &one), Err(NanoTokenError::IncorrectMint));
    assert_eq!(
        burn(&mut accounts, &[0, 1, 3], 0, &BurnArgs { amount: 11 }),
        Err(NanoTokenError::InsufficientBalance)
    );
    assert_eq!(burn(&mut accounts, &[0, 1, 3], 0, &one), Err(NanoTokenError::InvalidAccountOwner));
    assert_eq!(accounts, before);
}

#[test]
fn initialize_mint_asks_who_controls_the_configuration_last() {
    let args = InitializeMintArgs { authority: ALICE, decimals: 2 };
    let mut accounts = vec![
        plain([1u8; 32], true),
        config_account(Some(u64::MAX)),
        plain(SYSTEM_PROGRAM, false),
        plain(BOB, true),
    ];
    accounts[1].owner = [0x99u8; 32];
    let before = accounts.clone();
    assert_eq!(
        initialize_mint(&mut accounts, &[0, 1, 2, 3], 0, &args),
        Err(NanoTokenError::ArithmeticOverflow)
    );
    accounts[1].data[0] = 0;
    assert_eq!(
        initialize_mint(&mut accounts, &[0, 1, 2, 3], 0, &args),
        Err(NanoTokenError::InvalidAccountData)
    );
    accounts[1].data[0] = 1;
    assert_eq!(accounts, before);
    accounts[1] = config_account(Some(0));
    accounts[1].owner = [0x99u8; 32];
    accounts[0].data = vec![0u8; 64];
    assert_eq!(
        initialize_mint(&mut accounts, &[0, 1, 2, 3], 0, &args),
        Err(NanoTokenError::InvalidAccountOwner)
    );
}
