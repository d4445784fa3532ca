//! An on-ledger airdrop contract: a whitelist of account identifiers and a
//! distribution engine that plans one asynchronous fungible-token transfer per
//! whitelisted account.

pub mod account;
pub mod contract;
pub mod payload;
pub mod whitelist;

pub use account::AccountId;
pub use contract::Contract;
pub use contract::TransferCall;
