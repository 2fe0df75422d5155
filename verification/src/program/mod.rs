//! The on-chain program's own logic: instruction decoding, account checks
//! and account-data layouts, over plain account snapshots.
pub mod account;
pub mod error;
pub mod instructions;
pub mod pda;
pub mod processor;
pub mod state;
