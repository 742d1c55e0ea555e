//! What the library's functions do, stated of each function by what goes in and what comes out.
//!
//! A law speaks of a function through `call_ensures`: it holds of whatever that function can give
//! for the arguments. Numbers in bytes are spelled out byte by byte, and errors by their code and
//! message.
pub mod bytes;
pub mod system;
pub mod store;
pub mod requests;
pub mod airdrops;
