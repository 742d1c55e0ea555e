//! The ledger's system program, the store that accounts are appended to, and the requests that a
//! node answers about them.
pub mod account;
pub mod airdrop;
pub mod appendvec;
pub mod base58;
pub mod laws;
pub mod le;
pub mod mapped;
pub mod numeral;
pub mod pubkey;
pub mod rpc;
pub mod rpc_error;
pub mod services;
pub mod storable;
pub mod system;
pub mod system_instruction;
pub mod system_program;
mod wire;
