//! The address of the system program.
use crate::pubkey::Pubkey;
use vstd::prelude::*;

verus! {

/// The system program's address: all zeros.
pub open spec fn system_id() -> Seq<u8> {
    Seq::new(32, |i: int| 0u8)
}

/// The system program's address.
pub fn id() -> (r: Pubkey)
    ensures
        r@ == system_id(),
{
    Pubkey::default()
}

/// Whether `program_id` is the system program's address.
pub fn check_id(program_id: &Pubkey) -> (r: bool)
    ensures
        r == (program_id@ == system_id()),
{
    program_id.same(&id())
}

} // verus!
