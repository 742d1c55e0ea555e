//! The instructions of the system program, their wire form, and instructions as a transaction
//! is built from them.
use crate::le::{
    le_bytes, le_value, lemma_le_bytes_len, lemma_le_value_bound, lemma_radix_words,
    lemma_value_of_bytes,
};
use crate::pubkey::Pubkey;
use crate::system_program;
use crate::system_program::system_id;
use crate::wire::{read_key, read_u32, read_u64, write_key, write_u32, write_u64};
use vstd::prelude::*;
use vstd::slice::slice_subrange;

verus! {

#[derive(Clone, Debug, PartialEq, Eq)]
pub enum SystemInstruction {
    /// Create a new account
    /// * Transaction::keys[0] - source
    /// * Transaction::keys[1] - new account key
    /// * tokens - number of tokens to transfer to the new account
    /// * space - memory to allocate if greater then zero
    /// * program_id - the program id of the new account
    CreateAccount { tokens: u64, space: u64, program_id: Pubkey },
    /// Assign account to a program
    /// * Transaction::keys[0] - account to assign
    Assign { program_id: Pubkey },
    /// Move tokens
    /// * Transaction::keys[0] - source
    /// * Transaction::keys[1] - destination
    Move { tokens: u64 },
}

/// What a `SystemInstruction` is.
#[verifier::ext_equal]
pub enum InstructionView {
    CreateAccount { tokens: u64, space: u64, program_id: Seq<u8> },
    Assign { program_id: Seq<u8> },
    Move { tokens: u64 },
}

impl View for SystemInstruction {
    type V = InstructionView;

    open spec fn view(&self) -> InstructionView {
        match *self {
            SystemInstruction::CreateAccount { tokens, space, program_id } => {
                InstructionView::CreateAccount { tokens, space, program_id: program_id@ }
            },
            SystemInstruction::Assign { program_id } => {
                InstructionView::Assign { program_id: program_id@ }
            },
            SystemInstruction::Move { tokens } => InstructionView::Move { tokens },
        }
    }
}

/// The bytes that stand for an instruction: a four-byte tag, then the fields in order.
pub open spec fn wire_form(i: InstructionView) -> Seq<u8> {
    match i {
        InstructionView::CreateAccount { tokens, space, program_id } => {
            le_bytes(0, 4) + le_bytes(tokens as nat, 8) + le_bytes(space as nat, 8) + program_id
        },
        InstructionView::Assign { program_id } => le_bytes(1, 4) + program_id,
        InstructionView::Move { tokens } => le_bytes(2, 4) + le_bytes(tokens as nat, 8),
    }
}

/// The `u64` whose eight bytes start at `at`.
pub open spec fn word_at(data: Seq<u8>, at: int) -> u64 {
    le_value(data.subrange(at, at + 8)) as u64
}

/// The instruction that `data` starts with, if it starts with one.
pub open spec fn decoded_instruction(data: Seq<u8>) -> Option<InstructionView> {
    if data.len() < 4 {
        None
    } else {
        let tag = le_value(data.subrange(0, 4));
        if tag == 0 && data.len() >= 52 {
            Some(
                InstructionView::CreateAccount {
                    tokens: word_at(data, 4),
                    space: word_at(data, 12),
                    program_id: data.subrange(20, 52),
                },
            )
        } else if tag == 1 && data.len() >= 36 {
            Some(InstructionView::Assign { program_id: data.subrange(4, 36) })
        } else if tag == 2 && data.len() >= 12 {
            Some(InstructionView::Move { tokens: word_at(data, 4) })
        } else {
            None
        }
    }
}

/// What `r` is, if it is there.
pub open spec fn instruction_view(r: Option<SystemInstruction>) -> Option<InstructionView> {
    match r {
        Some(i) => Some(i@),
        None => None,
    }
}

/// The `u64` at `at`, if `data` reaches that far.
fn read_word(data: &[u8], at: usize) -> (r: Option<u64>)
    requires
        at + 8 <= usize::MAX,
    ensures
        match r {
            Some(v) => at + 8 <= data@.len() && v == word_at(data@, at as int),
            None => data@.len() < at + 8,
        },
{
    let n: usize = data.len();
    if n < at {
        return None;
    }
    let rest = slice_subrange(data, at, n);
    proof {
        if at + 8 <= n {
            assert(rest@.subrange(0, 8) =~= data@.subrange(at as int, at + 8));
            lemma_radix_words();
            lemma_le_value_bound(data@.subrange(at as int, at + 8));
        }
    }
    read_u64(rest)
}

/// The address at `at`, if `data` reaches that far.
fn read_address(data: &[u8], at: usize) -> (r: Option<Pubkey>)
    requires
        at + 32 <= usize::MAX,
    ensures
        match r {
            Some(k) => at + 32 <= data@.len() && k@ == data@.subrange(at as int, at + 32),
            None => data@.len() < at + 32,
        },
{
    let n: usize = data.len();
    if n < at {
        return None;
    }
    let rest = slice_subrange(data, at, n);
    proof {
        if at + 32 <= n {
            assert(rest@.subrange(0, 32) =~= data@.subrange(at as int, at + 32));
        }
    }
    match read_key(rest) {
        Some(bytes) => Some(Pubkey { bytes }),
        None => None,
    }
}

impl SystemInstruction {
    /// The instruction that `data` starts with, if it starts with one.
    pub fn decode(data: &[u8]) -> (r: Option<SystemInstruction>)
        ensures
            instruction_view(r) == decoded_instruction(data@),
    {
        let tag: u32 = match read_u32(data) {
            Some(tag) => tag,
            None => return None,
        };
        match tag {
            0 => match (read_word(data, 4), read_word(data, 12), read_address(data, 20)) {
                (Some(tokens), Some(space), Some(program_id)) => Some(
                    SystemInstruction::CreateAccount { tokens, space, program_id },
                ),
                _ => None,
            },
            1 => match read_address(data, 4) {
                Some(program_id) => Some(SystemInstruction::Assign { program_id }),
                None => None,
            },
            2 => match read_word(data, 4) {
                Some(tokens) => Some(SystemInstruction::Move { tokens }),
                None => None,
            },
            _ => None,
        }
    }

    /// The bytes that stand for the instruction.
    pub fn encode(&self) -> (r: Vec<u8>)
        ensures
            r@ == wire_form(self@),
            decoded_instruction(r@) == Some(self@),
    {
        proof {
            law_instruction_round_trip(*self, Seq::empty());
            assert(wire_form(self@) + Seq::<u8>::empty() =~= wire_form(self@));
        }
        match self {
            SystemInstruction::CreateAccount { tokens, space, program_id } => {
                let mut r = write_u32(0);
                r.append(&mut write_u64(*tokens));
                r.append(&mut write_u64(*space));
                r.append(&mut write_key(&program_id.bytes));
                r
            },
            SystemInstruction::Assign { program_id } => {
                let mut r = write_u32(1);
                r.append(&mut write_key(&program_id.bytes));
                r
            },
            SystemInstruction::Move { tokens } => {
                let mut r = write_u32(2);
                r.append(&mut write_u64(*tokens));
                r
            },
        }
    }

    /// The instruction that moves `tokens` from `from_id`, which has to sign, to `to_id`.
    pub fn new_move(from_id: Pubkey, to_id: Pubkey, tokens: u64) -> (r: BuilderInstruction)
        ensures
            r.program_id@ == system_id(),
            r.accounts@ == seq![(from_id, true), (to_id, false)],
            r.userdata@ == wire_form(InstructionView::Move { tokens }),
            decoded_instruction(r.userdata@) == Some(InstructionView::Move { tokens }),
    {
        BuilderInstruction::new(
            system_program::id(),
            &SystemInstruction::Move { tokens },
            vec![(from_id, true), (to_id, false)],
        )
    }
}

/// An instruction on its way into a transaction: the program that is to run it, the accounts that
/// it names, each with whether it has to sign, and the program's input.
#[derive(Clone, Debug, PartialEq, Eq)]
pub struct BuilderInstruction {
    pub program_id: Pubkey,
    pub accounts: Vec<(Pubkey, bool)>,
    pub userdata: Vec<u8>,
}

impl BuilderInstruction {
    /// The instruction of `program_id` whose input is the wire form of `instruction`.
    pub fn new(
        program_id: Pubkey,
        instruction: &SystemInstruction,
        accounts: Vec<(Pubkey, bool)>,
    ) -> (r: Self)
        ensures
            r.program_id == program_id,
            r.accounts == accounts,
            r.userdata@ == wire_form(instruction@),
            decoded_instruction(r.userdata@) == Some(instruction@),
    {
        BuilderInstruction { program_id, accounts, userdata: instruction.encode() }
    }
}

/// An instruction is read back from its wire form, whatever follows it.
pub proof fn law_instruction_round_trip(i: SystemInstruction, tail: Seq<u8>)
    ensures
        decoded_instruction(wire_form(i@) + tail) == Some(i@),
{
    let data = wire_form(i@) + tail;
    lemma_radix_words();
    lemma_le_bytes_len(0, 4);
    lemma_le_bytes_len(1, 4);
    lemma_le_bytes_len(2, 4);
    lemma_value_of_bytes(0, 4);
    lemma_value_of_bytes(1, 4);
    lemma_value_of_bytes(2, 4);
    match i {
        SystemInstruction::CreateAccount { tokens, space, program_id } => {
            lemma_le_bytes_len(tokens as nat, 8);
            lemma_le_bytes_len(space as nat, 8);
            lemma_value_of_bytes(tokens as nat, 8);
            lemma_value_of_bytes(space as nat, 8);
            assert(data.subrange(0, 4) =~= le_bytes(0, 4));
            assert(data.subrange(4, 12) =~= le_bytes(tokens as nat, 8));
            assert(data.subrange(12, 20) =~= le_bytes(space as nat, 8));
            assert(data.subrange(20, 52) =~= program_id@);
        },
        SystemInstruction::Assign { program_id } => {
            assert(data.subrange(0, 4) =~= le_bytes(1, 4));
            assert(data.subrange(4, 36) =~= program_id@);
        },
        SystemInstruction::Move { tokens } => {
            lemma_le_bytes_len(tokens as nat, 8);
            lemma_value_of_bytes(tokens as nat, 8);
            assert(data.subrange(0, 4) =~= le_bytes(2, 4));
            assert(data.subrange(4, 12) =~= le_bytes(tokens as nat, 8));
        },
    }
}

/// Two instructions with the same wire form are the same instruction.
pub proof fn law_wire_form_is_injective(i: SystemInstruction, j: SystemInstruction)
    requires
        wire_form(i@) == wire_form(j@),
    ensures
        i@ == j@,
{
    law_instruction_round_trip(i, Seq::empty());
    law_instruction_round_trip(j, Seq::empty());
    assert(wire_form(i@) + Seq::<u8>::empty() =~= wire_form(i@));
}

} // verus!
