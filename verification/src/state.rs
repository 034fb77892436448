//! The three kinds of record and their byte-exact layout. Every record is an
//! eight-byte discriminator followed by its fields at fixed offsets; only the
//! first byte of the discriminator tells the kind.

use vstd::prelude::*;
use vstd::bytes::{lemma_auto_spec_u64_to_from_le_bytes, spec_u64_to_le_bytes, u64_to_le_bytes};
use crate::account::{Account, AccountView};
use crate::consts::ID;
use crate::host::{find_program_address, program_address};
use crate::codec::{
    lemma_splice, read_array, read_u64, spec_read_u64, spec_splice, write_bytes, write_u64,
};
use crate::error::NanoTokenError;

verus! {

/// Placeholder kind of event; the default is `Join`.
#[derive(Debug, Copy, Clone, PartialEq, Eq)]
pub enum EventType {
    Join,
    Leave,
}

impl Default for EventType {
    fn default() -> (r: EventType)
        ensures
            r == EventType::Join,
    {
        EventType::Join
    }
}

/// The kind of record that a piece of storage holds.
#[derive(Debug, Copy, Clone, PartialEq, Eq)]
pub enum AccountDiscriminator {
    Unintialized,
    Config,
    Mint,
    Token,
}

impl AccountDiscriminator {
    /// The byte that stands for this kind at the start of a record.
    pub open spec fn spec_tag(self) -> u8 {
        match self {
            AccountDiscriminator::Unintialized => 0,
            AccountDiscriminator::Config => 1,
            AccountDiscriminator::Mint => 2,
            AccountDiscriminator::Token => 3,
        }
    }

    /// The byte that stands for this kind at the start of a record.
    #[verifier::when_used_as_spec(spec_tag)]
    pub fn tag(self) -> (r: u8)
        ensures
            r == self.spec_tag(),
    {
        match self {
            AccountDiscriminator::Unintialized => 0,
            AccountDiscriminator::Config => 1,
            AccountDiscriminator::Mint => 2,
            AccountDiscriminator::Token => 3,
        }
    }
}

/// `data` is long enough for a record of `space` bytes and starts with the
/// byte of `kind`.
pub open spec fn holds_record(data: Seq<u8>, kind: AccountDiscriminator, space: nat) -> bool {
    data.len() >= space && space > 0 && data[0] == kind.spec_tag()
}

/// Tells whether `data` holds a record of the given kind and size.
pub fn check_record(data: &[u8], kind: AccountDiscriminator, space: usize) -> (r: bool)
    ensures
        r == holds_record(data@, kind, space as nat),
{
    space > 0 && data.len() >= space && data[0] == kind.tag()
}

/// The singleton configuration: the index that the next mint will get.
#[derive(Debug, Clone, Copy, PartialEq, Eq)]
pub struct ProgramConfig {
    pub mint_index: u64,
}

impl ProgramConfig {
    /// Bytes of the fields.
    pub open spec fn spec_size() -> nat {
        8
    }

    /// Bytes of the whole record, discriminator included.
    pub open spec fn spec_space() -> nat {
        16
    }

    /// Bytes of the whole record, discriminator included.
    pub fn space() -> (r: usize)
        ensures
            r == Self::spec_space(),
    {
        16
    }

    /// Bytes of the fields.
    pub fn size() -> (r: usize)
        ensures
            r == Self::spec_size(),
    {
        8
    }

    /// `data` holds a configuration record.
    pub open spec fn spec_valid(data: Seq<u8>) -> bool {
        holds_record(data, AccountDiscriminator::Config, Self::spec_space())
    }

    /// The configuration held in `data`.
    pub open spec fn spec_load(data: Seq<u8>) -> ProgramConfig {
        ProgramConfig { mint_index: spec_read_u64(data, 8) }
    }

    /// `data` with the fields of `config` written over its record.
    pub open spec fn spec_store(data: Seq<u8>, config: ProgramConfig) -> Seq<u8> {
        spec_splice(data, 8, spec_u64_to_le_bytes(config.mint_index))
    }

    /// Reads the configuration out of a record's bytes. Fails with
    /// `InvalidAccountData` unless the bytes hold a configuration record.
    pub fn checked_load_mut(data: &[u8]) -> (r: Result<ProgramConfig, NanoTokenError>)
        ensures
            match r {
                Ok(config) => Self::spec_valid(data@) && config == Self::spec_load(data@),
                Err(e) => e == NanoTokenError::InvalidAccountData && !Self::spec_valid(data@),
            },
    {
        if !check_record(data, AccountDiscriminator::Config, 16) {
            return Err(NanoTokenError::InvalidAccountData);
        }
        Ok(ProgramConfig { mint_index: read_u64(data, 8) })
    }

    /// Reads the configuration out of an account. The discriminator is
    /// checked; who controls the storage is not.
    pub fn unchecked_load_mut(config: &Account) -> (r: Result<ProgramConfig, NanoTokenError>)
        ensures
            match r {
                Ok(c) => Self::spec_valid(config@.data) && c == Self::spec_load(config@.data),
                Err(e) => e == NanoTokenError::InvalidAccountData && !Self::spec_valid(
                    config@.data,
                ),
            },
    {
        Self::checked_load_mut(config.data.as_slice())
    }

    /// Writes the fields over the record in `data`; the discriminator and
    /// whatever follows the record stay.
    pub fn store(&self, data: &mut Vec<u8>)
        requires
            old(data)@.len() >= Self::spec_space(),
        ensures
            final(data)@ == Self::spec_store(old(data)@, *self),
    {
        write_u64(data, 8, self.mint_index);
    }

    /// Storing keeps the length, the discriminator and the bytes behind the
    /// record, and what was stored is what is loaded.
    pub proof fn lemma_store(data: Seq<u8>, config: ProgramConfig)
        requires
            data.len() >= Self::spec_space(),
        ensures
            Self::spec_store(data, config).len() == data.len(),
            Self::spec_load(Self::spec_store(data, config)) == config,
            forall|i: int| 0 <= i < 8 ==> Self::spec_store(data, config)[i] == data[i],
            forall|i: int| 16 <= i < data.len() ==> Self::spec_store(data, config)[i] == data[i],
    {
        lemma_auto_spec_u64_to_from_le_bytes();
        lemma_splice(data, 8, spec_u64_to_le_bytes(config.mint_index));
    }
}

/// One asset: its dense index, who may issue it, how much of it exists.
#[derive(Debug, Clone, Copy, PartialEq, Eq)]
pub struct Mint {
    pub mint_index: u64,
    /// All zeros stands for "no authority".
    pub authority: [u8; 32],
    pub supply: u64,
    pub decimals: u8,
    pub _padding: [u8; 7],
}

/// The mathematical content of a [`Mint`].
#[verifier::ext_equal]
pub struct MintView {
    pub mint_index: u64,
    pub authority: Seq<u8>,
    pub supply: u64,
    pub decimals: u8,
    pub padding: Seq<u8>,
}

impl View for Mint {
    type V = MintView;

    open spec fn view(&self) -> MintView {
        MintView {
            mint_index: self.mint_index,
            authority: self.authority@,
            supply: self.supply,
            decimals: self.decimals,
            padding: self._padding@,
        }
    }
}

impl MintView {
    /// The fields as they lie in storage, in order.
    pub open spec fn body(self) -> Seq<u8> {
        spec_u64_to_le_bytes(self.mint_index) + self.authority + spec_u64_to_le_bytes(self.supply)
            + seq![self.decimals] + self.padding
    }

    /// The address and padding have their fixed widths.
    pub open spec fn wf(self) -> bool {
        self.authority.len() == 32 && self.padding.len() == 7
    }
}

impl Mint {
    /// Bytes of the fields.
    pub open spec fn spec_size() -> nat {
        56
    }

    /// Bytes of the whole record, discriminator included.
    pub open spec fn spec_space() -> nat {
        64
    }

    /// Bytes of the fields.
    pub fn size() -> (r: usize)
        ensures
            r == Self::spec_size(),
    {
        56
    }

    /// Bytes of the whole record, discriminator included.
    pub fn space() -> (r: usize)
        ensures
            r == Self::spec_space(),
    {
        64
    }

    /// `data` holds a mint record.
    pub open spec fn spec_valid(data: Seq<u8>) -> bool {
        holds_record(data, AccountDiscriminator::Mint, Self::spec_space())
    }

    /// The mint held in `data`.
    pub open spec fn spec_load(data: Seq<u8>) -> MintView {
        MintView {
            mint_index: spec_read_u64(data, 8),
            authority: data.subrange(16, 48),
            supply: spec_read_u64(data, 48),
            decimals: data[56],
            padding: data.subrange(57, 64),
        }
    }

    /// `data` with the fields of `mint` written over its record.
    pub open spec fn spec_store(data: Seq<u8>, mint: MintView) -> Seq<u8> {
        spec_splice(data, 8, mint.body())
    }

    /// Reads the mint out of a record's bytes. Fails with
    /// `InvalidAccountData` unless the bytes hold a mint record.
    pub fn checked_load_mut(mint_data: &[u8]) -> (r: Result<Mint, NanoTokenError>)
        ensures
            match r {
                Ok(mint) => Self::spec_valid(mint_data@) && mint@ == Self::spec_load(mint_data@),
                Err(e) => e == NanoTokenError::InvalidAccountData && !Self::spec_valid(
                    mint_data@,
                ),
            },
    {
        if !check_record(mint_data, AccountDiscriminator::Mint, 64) {
            return Err(NanoTokenError::InvalidAccountData);
        }
        Ok(
            Mint {
                mint_index: read_u64(mint_data, 8),
                authority: read_array::<32>(mint_data, 16),
                supply: read_u64(mint_data, 48),
                decimals: mint_data[56],
                _padding: read_array::<7>(mint_data, 57),
            },
        )
    }

    /// Fails with `InvalidAccountOwner` unless the token program controls the
    /// account's storage.
    pub fn owner_check(mint: &Account) -> (r: Result<(), NanoTokenError>)
        ensures
            match r {
                Ok(_) => mint@.program_owned(),
                Err(e) => e == NanoTokenError::InvalidAccountOwner && !mint@.program_owned(),
            },
    {
        if !mint.is_program_owned() {
            return Err(NanoTokenError::InvalidAccountOwner);
        }
        Ok(())
    }

    /// Reads the mint out of an account. The discriminator is always
    /// checked, first; with `OWNER_CHECK` the control of the storage is
    /// checked too, as a reader that will not write back must ask.
    pub fn unchecked_load_mut<const OWNER_CHECK: bool>(mint: &Account) -> (r: Result<
        Mint,
        NanoTokenError,
    >)
        ensures
            match r {
                Ok(m) => Self::spec_valid(mint@.data) && m@ == Self::spec_load(mint@.data) && (
                OWNER_CHECK ==> mint@.program_owned()),
                Err(e) => if !Self::spec_valid(mint@.data) {
                    e == NanoTokenError::InvalidAccountData
                } else {
                    e == NanoTokenError::InvalidAccountOwner && OWNER_CHECK
                        && !mint@.program_owned()
                },
            },
    {
        let loaded = Self::checked_load_mut(mint.data.as_slice())?;
        if OWNER_CHECK {
            Self::owner_check(mint)?;
        }
        Ok(loaded)
    }

    /// Writes the fields over the record in `data`; the discriminator and
    /// whatever follows the record stay.
    pub fn store(&self, data: &mut Vec<u8>)
        requires
            old(data)@.len() >= Self::spec_space(),
        ensures
            final(data)@ == Self::spec_store(old(data)@, self@),
    {
        proof {
            lemma_auto_spec_u64_to_from_le_bytes();
        }
        write_u64(data, 8, self.mint_index);
        write_bytes(data, 16, self.authority.as_slice());
        write_u64(data, 48, self.supply);
        data[56] = self.decimals;
        write_bytes(data, 57, self._padding.as_slice());
        assert(data@ =~= Self::spec_store(old(data)@, self@));
    }

    /// Storing keeps the length, the discriminator and the bytes behind the
    /// record, and what was stored is what is loaded.
    pub proof fn lemma_store(data: Seq<u8>, mint: MintView)
        requires
            data.len() >= Self::spec_space(),
            mint.wf(),
        ensures
            Self::spec_store(data, mint).len() == data.len(),
            Self::spec_load(Self::spec_store(data, mint)) == mint,
            forall|i: int| 0 <= i < 8 ==> Self::spec_store(data, mint)[i] == data[i],
            forall|i: int| 64 <= i < data.len() ==> Self::spec_store(data, mint)[i] == data[i],
    {
        lemma_auto_spec_u64_to_from_le_bytes();
        let body = mint.body();
        lemma_splice(data, 8, body);
        let out = Self::spec_store(data, mint);
        assert(out.subrange(8, 16) =~= spec_u64_to_le_bytes(mint.mint_index));
        assert(out.subrange(16, 48) =~= mint.authority);
        assert(out.subrange(48, 56) =~= spec_u64_to_le_bytes(mint.supply));
        assert(out.subrange(57, 64) =~= mint.padding);
        assert(Self::spec_load(out) =~= mint);
    }
}

/// The holding of one owner in one mint.
#[derive(Debug, Clone, Copy, PartialEq, Eq)]
pub struct TokenAccount {
    pub owner: [u8; 32],
    pub mint: u64,
    pub balance: u64,
}

/// The mathematical content of a [`TokenAccount`].
#[verifier::ext_equal]
pub struct TokenAccountView {
    pub owner: Seq<u8>,
    pub mint: u64,
    pub balance: u64,
}

impl View for TokenAccount {
    type V = TokenAccountView;

    open spec fn view(&self) -> TokenAccountView {
        TokenAccountView { owner: self.owner@, mint: self.mint, balance: self.balance }
    }
}

impl TokenAccountView {
    /// The fields as they lie in storage, in order.
    pub open spec fn body(self) -> Seq<u8> {
        self.owner + spec_u64_to_le_bytes(self.mint) + spec_u64_to_le_bytes(self.balance)
    }

    /// The address has its fixed width.
    pub open spec fn wf(self) -> bool {
        self.owner.len() == 32
    }
}

impl TokenAccount {
    /// Bytes of the fields.
    pub open spec fn spec_size() -> nat {
        48
    }

    /// Bytes of the whole record, discriminator included.
    pub open spec fn spec_space() -> nat {
        56
    }

    /// Bytes of the fields.
    pub fn size() -> (r: usize)
        ensures
            r == Self::spec_size(),
    {
        48
    }

    /// Bytes of the whole record, discriminator included.
    pub fn space() -> (r: usize)
        ensures
            r == Self::spec_space(),
    {
        56
    }

    /// `data` holds a token-account record.
    pub open spec fn spec_valid(data: Seq<u8>) -> bool {
        holds_record(data, AccountDiscriminator::Token, Self::spec_space())
    }

    /// The token account held in `data`.
    pub open spec fn spec_load(data: Seq<u8>) -> TokenAccountView {
        TokenAccountView {
            owner: data.subrange(8, 40),
            mint: spec_read_u64(data, 40),
            balance: spec_read_u64(data, 48),
        }
    }

    /// `data` with the fields of `token` written over its record.
    pub open spec fn spec_store(data: Seq<u8>, token: TokenAccountView) -> Seq<u8> {
        spec_splice(data, 8, token.body())
    }

    /// The address at which the token account of `owner` in the mint with
    /// index `mint` lives, with its bump value: the host derives it from the
    /// owner's address and the index written as eight little-endian bytes.
    pub open spec fn spec_address(mint: u64, owner: Seq<u8>) -> Option<(Seq<u8>, u8)> {
        program_address(owner, spec_u64_to_le_bytes(mint), ID@)
    }

    /// Derives the address of the token account of `owner` in the mint with
    /// index `mint`. `None` where the host finds no address for the pair.
    pub fn address(mint: u64, owner: &[u8; 32]) -> (r: Option<([u8; 32], u8)>)
        ensures
            match r {
                Some((address, bump)) => Self::spec_address(mint, owner@) == Some(
                    (address@, bump),
                ),
                None => Self::spec_address(mint, owner@) is None,
            },
    {
        let seed = u64_to_le_bytes(mint);
        find_program_address(owner.as_slice(), seed.as_slice(), &ID)
    }

    /// Reads the token account out of a record's bytes. Fails with
    /// `InvalidAccountData` unless the bytes hold a token-account record.
    pub fn checked_load_mut(token_account_data: &[u8]) -> (r: Result<
        TokenAccount,
        NanoTokenError,
    >)
        ensures
            match r {
                Ok(token) => Self::spec_valid(token_account_data@) && token@ == Self::spec_load(
                    token_account_data@,
                ),
                Err(e) => e == NanoTokenError::InvalidAccountData && !Self::spec_valid(
                    token_account_data@,
                ),
            },
    {
        if !check_record(token_account_data, AccountDiscriminator::Token, 56) {
            return Err(NanoTokenError::InvalidAccountData);
        }
        Ok(
            TokenAccount {
                owner: read_array::<32>(token_account_data, 8),
                mint: read_u64(token_account_data, 40),
                balance: read_u64(token_account_data, 48),
            },
        )
    }

    /// Reads the token account out of an account. The discriminator is
    /// checked; who controls the storage is not.
    pub fn unchecked_load_mut(token_account: &Account) -> (r: Result<
        TokenAccount,
        NanoTokenError,
    >)
        ensures
            match r {
                Ok(token) => Self::spec_valid(token_account@.data) && token@ == Self::spec_load(
                    token_account@.data,
                ),
                Err(e) => e == NanoTokenError::InvalidAccountData && !Self::spec_valid(
                    token_account@.data,
                ),
            },
    {
        Self::checked_load_mut(token_account.data.as_slice())
    }

    /// Checks the discriminator and hands out the owner, the mint index and
    /// the balance recorded in the account.
    pub fn check_disc(token_account: &Account) -> (r: Result<([u8; 32], u64, u64), NanoTokenError>)
        ensures
            match r {
                Ok((owner, mint, balance)) => {
                    &&& Self::spec_valid(token_account@.data)
                    &&& owner@ == Self::spec_load(token_account@.data).owner
                    &&& mint == Self::spec_load(token_account@.data).mint
                    &&& balance == Self::spec_load(token_account@.data).balance
                },
                Err(e) => e == NanoTokenError::InvalidAccountData && !Self::spec_valid(
                    token_account@.data,
                ),
            },
    {
        let token = Self::unchecked_load_mut(token_account)?;
        Ok((token.owner, token.mint, token.balance))
    }

    /// Writes the fields over the record in `data`; the discriminator and
    /// whatever follows the record stay.
    pub fn store(&self, data: &mut Vec<u8>)
        requires
            old(data)@.len() >= Self::spec_space(),
        ensures
            final(data)@ == Self::spec_store(old(data)@, self@),
    {
        proof {
            lemma_auto_spec_u64_to_from_le_bytes();
        }
        write_bytes(data, 8, self.owner.as_slice());
        write_u64(data, 40, self.mint);
        write_u64(data, 48, self.balance);
        assert(data@ =~= Self::spec_store(old(data)@, self@));
    }

    /// Storing what was loaded changes nothing.
    pub proof fn lemma_store_loaded(data: Seq<u8>)
        requires
            data.len() >= Self::spec_space(),
        ensures
            Self::spec_store(data, Self::spec_load(data)) == data,
    {
        lemma_auto_spec_u64_to_from_le_bytes();
        let token = Self::spec_load(data);
        assert(spec_u64_to_le_bytes(token.mint) == data.subrange(40, 48));
        assert(spec_u64_to_le_bytes(token.balance) == data.subrange(48, 56));
        assert(Self::spec_store(data, token) =~= data);
    }

    /// Storing keeps the length, the discriminator and the bytes behind the
    /// record, and what was stored is what is loaded.
    pub proof fn lemma_store(data: Seq<u8>, token: TokenAccountView)
        requires
            data.len() >= Self::spec_space(),
            token.wf(),
        ensures
            Self::spec_store(data, token).len() == data.len(),
            Self::spec_load(Self::spec_store(data, token)) == token,
            forall|i: int| 0 <= i < 8 ==> Self::spec_store(data, token)[i] == data[i],
            forall|i: int| 56 <= i < data.len() ==> Self::spec_store(data, token)[i] == data[i],
    {
        lemma_auto_spec_u64_to_from_le_bytes();
        let body = token.body();
        lemma_splice(data, 8, body);
        let out = Self::spec_store(data, token);
        assert(out.subrange(8, 40) =~= token.owner);
        assert(out.subrange(40, 48) =~= spec_u64_to_le_bytes(token.mint));
        assert(out.subrange(48, 56) =~= spec_u64_to_le_bytes(token.balance));
        assert(Self::spec_load(out) =~= token);
    }
}

impl AccountView {
    /// The account with other bytes.
    pub open spec fn with_data(self, data: Seq<u8>) -> AccountView {
        AccountView { data, ..self }
    }

    /// The account with another value resource.
    pub open spec fn with_lamports(self, lamports: u64) -> AccountView {
        AccountView { lamports, ..self }
    }

    /// The account with the byte of `kind` at the start of its storage.
    pub open spec fn with_tag(self, kind: AccountDiscriminator) -> AccountView {
        self.with_data(self.data.update(0, kind.spec_tag()))
    }

    /// The storage holds a configuration record that the program controls.
    pub open spec fn is_config(self) -> bool {
        ProgramConfig::spec_valid(self.data) && self.program_owned()
    }

    /// The storage holds a mint record that the program controls.
    pub open spec fn is_mint(self) -> bool {
        Mint::spec_valid(self.data) && self.program_owned()
    }

    /// The storage holds a token-account record that the program controls.
    pub open spec fn is_token(self) -> bool {
        TokenAccount::spec_valid(self.data) && self.program_owned()
    }

    /// The configuration read from the storage.
    pub open spec fn config(self) -> ProgramConfig {
        ProgramConfig::spec_load(self.data)
    }

    /// The mint read from the storage.
    pub open spec fn mint(self) -> MintView {
        Mint::spec_load(self.data)
    }

    /// The token account read from the storage.
    pub open spec fn token(self) -> TokenAccountView {
        TokenAccount::spec_load(self.data)
    }

    /// The account after `config` was written to its record.
    pub open spec fn with_config(self, config: ProgramConfig) -> AccountView {
        self.with_data(ProgramConfig::spec_store(self.data, config))
    }

    /// The account after `mint` was written to its record.
    pub open spec fn with_mint(self, mint: MintView) -> AccountView {
        self.with_data(Mint::spec_store(self.data, mint))
    }

    /// The account after `token` was written to its record.
    pub open spec fn with_token(self, token: TokenAccountView) -> AccountView {
        self.with_data(TokenAccount::spec_store(self.data, token))
    }
}

} // verus!
