//! The words of an instruction's wire form, as bincode reads and writes them.
//!
//! bincode's `serialize` and `deserialize` use fixed-width little-endian integers, write an array
//! as its elements without a length, and let further bytes follow what they read.
use crate::le::{le_bytes, le_value};
use vstd::prelude::*;

verus! {

/// `bincode::deserialize::<u32>`: the little-endian number in the first four bytes. It fails only
/// where there are fewer than four.
#[verifier::external_body]
pub(crate) fn read_u32(bytes: &[u8]) -> (r: Option<u32>)
    ensures
        match r {
            Some(v) => bytes@.len() >= 4 && v == le_value(bytes@.subrange(0, 4)),
            None => bytes@.len() < 4,
        },
{
    bincode::deserialize::<u32>(bytes).ok()
}

/// `bincode::deserialize::<u64>`: the little-endian number in the first eight bytes. It fails only
/// where there are fewer than eight.
#[verifier::external_body]
pub(crate) fn read_u64(bytes: &[u8]) -> (r: Option<u64>)
    ensures
        match r {
            Some(v) => bytes@.len() >= 8 && v == le_value(bytes@.subrange(0, 8)),
            None => bytes@.len() < 8,
        },
{
    bincode::deserialize::<u64>(bytes).ok()
}

/// `bincode::deserialize::<[u8; 32]>`: the first 32 bytes. It fails only where there are fewer.
#[verifier::external_body]
pub(crate) fn read_key(bytes: &[u8]) -> (r: Option<[u8; 32]>)
    ensures
        match r {
            Some(k) => bytes@.len() >= 32 && k@ == bytes@.subrange(0, 32),
            None => bytes@.len() < 32,
        },
{
    bincode::deserialize::<[u8; 32]>(bytes).ok()
}

/// `bincode::serialize` of a `u32`: its four bytes, least significant first. Without a size limit
/// it does not fail.
#[verifier::external_body]
pub(crate) fn write_u32(v: u32) -> (r: Vec<u8>)
    ensures
        r@ == le_bytes(v as nat, 4),
{
    bincode::serialize(&v).unwrap()
}

/// `bincode::serialize` of a `u64`: its eight bytes, least significant first. Without a size limit
/// it does not fail.
#[verifier::external_body]
pub(crate) fn write_u64(v: u64) -> (r: Vec<u8>)
    ensures
        r@ == le_bytes(v as nat, 8),
{
    bincode::serialize(&v).unwrap()
}

/// `bincode::serialize` of a `[u8; 32]`: the bytes themselves. Without a size limit it does not
/// fail.
#[verifier::external_body]
pub(crate) fn write_key(k: &[u8; 32]) -> (r: Vec<u8>)
    ensures
        r@ == k@,
{
    bincode::serialize(k).unwrap()
}

} // verus!
