//! The local engine of a cryptocurrency wallet: key derivation and sealed
//! storage of the wallet state, the balance and nonce ledger, the transaction
//! builder that spends from it, and the state machine that keeps it in step
//! with a remote node.

pub mod builder;
pub mod cipher;
pub mod codec;
pub mod commands;
pub mod config;
pub mod hash;
pub mod hex;
pub mod kdf;
pub mod ledger;
mod random;
pub mod replace;
pub mod signing;
pub mod state;
pub mod store;
pub mod sync;
pub mod transaction;
pub mod wallet;
