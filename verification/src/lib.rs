//! A minimal fungible-token ledger: a state-transition function over a list
//! of byte-addressable accounts, driven by a stream of encoded instructions.

pub mod account;
pub mod codec;
pub mod consts;
pub mod error;
pub mod host;
pub mod ix;
pub mod ledger;
pub mod processor;
pub mod state;

pub use account::{Account, AccountView};
pub use consts::ID;
pub use processor::process_instruction_nostd;
pub use state::{AccountDiscriminator, EventType, Mint, ProgramConfig, TokenAccount};
