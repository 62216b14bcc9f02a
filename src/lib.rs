//! A fractionalization vault: it escrows one non-fungible asset at a time and
//! issues a fixed quantity of fungible claim-tokens for it, which redeem it.

pub mod contract;
pub mod encode;
pub mod error;
pub mod msg;
pub mod storage;

pub use contract::{ContractView, Frac721Contract, FIXED_UNIT};
pub use encode::encode;
pub use error::{ContractError, LedgerFault};
pub use msg::{Attribute, Command, ConfigResponse, Cw20Config, InitialBalance, ReceiveMsg, Response};
pub use storage::{IndexEntry, Vault, VaultIndexes, VaultItem};
