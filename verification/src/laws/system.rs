//! Laws of the system program and of its instructions' wire form.
use crate::account::{account_views, KeyedAccount};
use crate::laws::bytes::{
    lemma_bytes_are_word4, lemma_bytes_are_word8, lemma_value_is_word4, lemma_value_is_word8,
    word4, word8,
};
use crate::pubkey::Pubkey;
use crate::system::{can_run, entrypoint, is_outcome, process_instruction, ProgramError};
use crate::system_instruction::{
    decoded_instruction, BuilderInstruction, InstructionView, SystemInstruction,
};
use crate::system_program::system_id;
use vstd::prelude::*;

verus! {

/// Whether the system program owns an account: its owner is all zeros.
pub open spec fn of_the_system(k: KeyedAccount) -> bool {
    forall|i: int| 0 <= i < 32 ==> #[trigger] k.account.owner.bytes@[i] == 0
}

/// Whether two accounts agree in everything.
pub open spec fn as_before(after: KeyedAccount, before: KeyedAccount) -> bool {
    &&& as_before_but_for_tokens(after, before)
    &&& after.account.tokens == before.account.tokens
}

/// Whether two accounts agree in everything but their tokens.
pub open spec fn as_before_but_for_tokens(after: KeyedAccount, before: KeyedAccount) -> bool {
    &&& after.is_signer == before.is_signer
    &&& after.key.bytes@ == before.key.bytes@
    &&& after.account.userdata@ == before.account.userdata@
    &&& after.account.owner.bytes@ == before.account.owner.bytes@
    &&& after.account.executable == before.account.executable
}

/// Whether all accounts from the `n`th on are as before.
pub open spec fn rest_as_before(
    before: Seq<KeyedAccount>,
    after: Seq<KeyedAccount>,
    n: int,
) -> bool {
    &&& after.len() == before.len()
    &&& forall|i: int| n <= i < before.len() ==> as_before(#[trigger] after[i], before[i])
}

/// What creating an account does: the source, which has to sign, to be the system program's and to
/// hold the tokens, gives them to the second account, which becomes an account of `program_id` with
/// `space` zero bytes. Where `space` is asked for, the second account must be the system program's
/// and empty.
pub open spec fn is_creation(
    before: Seq<KeyedAccount>,
    tokens: u64,
    space: u64,
    program_id: Seq<u8>,
    after: Seq<KeyedAccount>,
    r: Result<(), ProgramError>,
) -> bool {
    let allowed = before[0].is_signer && of_the_system(before[0]) && (space > 0 ==> {
        &&& of_the_system(before[1])
        &&& before[1].account.userdata@.len() == 0
    });
    let paid = tokens <= before[0].account.tokens;
    &&& r is Ok <==> allowed && paid
    &&& r == Err::<(), ProgramError>(ProgramError::InvalidArgument) <==> !allowed
    &&& r == Err::<(), ProgramError>(ProgramError::ResultWithNegativeTokens) <==> allowed && !paid
    &&& r is Err ==> rest_as_before(before, after, 0)
    &&& r is Ok ==> {
        &&& rest_as_before(before, after, 2)
        &&& as_before_but_for_tokens(after[0], before[0])
        &&& after[0].account.tokens == before[0].account.tokens - tokens
        &&& after[1].is_signer == before[1].is_signer
        &&& after[1].key.bytes@ == before[1].key.bytes@
        &&& after[1].account.tokens == before[1].account.tokens + tokens
        &&& after[1].account.owner.bytes@ == program_id
        &&& after[1].account.executable == false
        &&& space <= usize::MAX ==> after[1].account.userdata@.len() == space
        &&& after[1].account.userdata@.len() == space as int % (usize::MAX + 1)
        &&& forall|i: int|
            0 <= i < after[1].account.userdata@.len() ==> #[trigger] after[1].account.userdata@[i]
                == 0
    }
}

/// What assigning an account does: the first account, which has to sign and to be the system
/// program's, gets the owner `program_id`, and nothing else changes.
pub open spec fn is_assignment(
    before: Seq<KeyedAccount>,
    program_id: Seq<u8>,
    after: Seq<KeyedAccount>,
    r: Result<(), ProgramError>,
) -> bool {
    &&& r is Ok <==> before[0].is_signer && of_the_system(before[0])
    &&& r == Err::<(), ProgramError>(ProgramError::InvalidArgument) <==> !before[0].is_signer
    &&& r == Err::<(), ProgramError>(ProgramError::AssignOfUnownedAccount) <==> {
        &&& before[0].is_signer
        &&& !of_the_system(before[0])
    }
    &&& r is Err ==> rest_as_before(before, after, 0)
    &&& r is Ok ==> {
        &&& rest_as_before(before, after, 1)
        &&& after[0].is_signer == before[0].is_signer
        &&& after[0].key.bytes@ == before[0].key.bytes@
        &&& after[0].account.tokens == before[0].account.tokens
        &&& after[0].account.userdata@ == before[0].account.userdata@
        &&& after[0].account.owner.bytes@ == program_id
        &&& after[0].account.executable == before[0].account.executable
    }
}

/// What moving tokens does: the first account, which has to sign and to hold them, gives them to
/// the second, whoever owns the two, and nothing else changes.
pub open spec fn is_move(
    before: Seq<KeyedAccount>,
    tokens: u64,
    after: Seq<KeyedAccount>,
    r: Result<(), ProgramError>,
) -> bool {
    let paid = tokens <= before[0].account.tokens;
    &&& r is Ok <==> before[0].is_signer && paid
    &&& r == Err::<(), ProgramError>(ProgramError::InvalidArgument) <==> !before[0].is_signer
    &&& r == Err::<(), ProgramError>(ProgramError::ResultWithNegativeTokens) <==> {
        &&& before[0].is_signer
        &&& !paid
    }
    &&& r is Err ==> rest_as_before(before, after, 0)
    &&& r is Ok ==> {
        &&& rest_as_before(before, after, 2)
        &&& as_before_but_for_tokens(after[0], before[0])
        &&& as_before_but_for_tokens(after[1], before[1])
        &&& after[0].account.tokens == before[0].account.tokens - tokens
        &&& after[1].account.tokens == before[1].account.tokens + tokens
    }
}

/// Whether the accounts that creating an account comes to use are there, and can hold what it
/// comes to give them.
pub open spec fn creation_can_run(
    before: Seq<KeyedAccount>,
    tokens: u64,
    space: u64,
) -> bool {
    &&& before.len() >= 1
    &&& before[0].is_signer && of_the_system(before[0]) ==> {
        &&& space > 0 ==> before.len() >= 2
        &&& tokens <= before[0].account.tokens && (space > 0 ==> {
            &&& of_the_system(before[1])
            &&& before[1].account.userdata@.len() == 0
        }) ==> {
            &&& before.len() >= 2
            &&& before[1].account.tokens + tokens <= u64::MAX
            &&& space as int % (usize::MAX + 1) <= isize::MAX
        }
    }
}

/// Whether the accounts that moving tokens comes to use are there, and can hold them.
pub open spec fn move_can_run(before: Seq<KeyedAccount>, tokens: u64) -> bool {
    &&& before.len() >= 1
    &&& before[0].is_signer && tokens <= before[0].account.tokens ==> {
        &&& before.len() >= 2
        &&& before[1].account.tokens + tokens <= u64::MAX
    }
}

proof fn lemma_space(space: u64)
    ensures
        space as usize as int == space as int % (usize::MAX + 1),
{
    vstd::layout::unsigned_int_max_values();
    vstd::arithmetic::power2::lemma2_to64();
    vstd::arithmetic::power2::lemma2_to64_rest();
    assert(usize::BITS == 32 || usize::BITS == 64);
    if usize::BITS == 32 {
        assert(usize::MAX == 0xffff_ffff);
        assert(usize::BITS == 32 ==> space as usize as u64 == space % 0x1_0000_0000) by (bit_vector);
    } else {
        assert(usize::MAX == 0xffff_ffff_ffff_ffff);
    }
}

proof fn lemma_of_the_system(k: KeyedAccount)
    ensures
        of_the_system(k) <==> k@.account.owner == system_id(),
{
    if of_the_system(k) {
        assert(k@.account.owner =~= system_id());
    }
    if k@.account.owner == system_id() {
        assert forall|i: int| 0 <= i < 32 implies #[trigger] k.account.owner.bytes@[i] == 0 by {
            assert(k@.account.owner[i] == 0);
        }
    }
}

/// What the views of accounts say is what their fields say.
proof fn lemma_fields(before: Seq<KeyedAccount>, after: Seq<KeyedAccount>)
    ensures
        account_views(before).len() == before.len(),
        account_views(after).len() == after.len(),
        forall|i: int|
            0 <= i < before.len() ==> #[trigger] account_views(before)[i] == before[i]@,
        forall|i: int| 0 <= i < after.len() ==> #[trigger] account_views(after)[i] == after[i]@,
        forall|i: int|
            #![trigger after[i]]
            0 <= i < before.len() && i < after.len() && account_views(after)[i] == account_views(
                before,
            )[i] ==> as_before(after[i], before[i]),
{
    assert forall|i: int|
        #![trigger after[i]]
        0 <= i < before.len() && i < after.len() && account_views(after)[i] == account_views(
            before,
        )[i] implies as_before(after[i], before[i]) by {
        let a = after[i]@;
        let b = before[i]@;
        assert(a == b);
        assert(a.key == after[i].key.bytes@ && b.key == before[i].key.bytes@);
        assert(a.account.userdata == after[i].account.userdata@);
        assert(a.account.owner == after[i].account.owner.bytes@);
    }
}

proof fn lemma_creation(
    before: Seq<KeyedAccount>,
    tokens: u64,
    space: u64,
    program_id: Seq<u8>,
    after: Seq<KeyedAccount>,
    r: Result<(), ProgramError>,
)
    requires
        creation_can_run(before, tokens, space),
        is_outcome(
            account_views(before),
            Some(InstructionView::CreateAccount { tokens, space, program_id }),
            account_views(after),
            r,
        ),
    ensures
        is_creation(before, tokens, space, program_id, after, r),
{
    lemma_fields(before, after);
    lemma_space(space);
    lemma_of_the_system(before[0]);
    if before.len() >= 2 {
        lemma_of_the_system(before[1]);
    }
    let views = account_views(before);
    assert(views[0] == before[0]@);
    if r is Ok {
        assert(views[1] == before[1]@);
        assert(account_views(after)[0] == after[0]@);
        assert(account_views(after)[1] == after[1]@);
    }
}

proof fn lemma_assignment(
    before: Seq<KeyedAccount>,
    program_id: Seq<u8>,
    after: Seq<KeyedAccount>,
    r: Result<(), ProgramError>,
)
    requires
        before.len() >= 1,
        is_outcome(
            account_views(before),
            Some(InstructionView::Assign { program_id }),
            account_views(after),
            r,
        ),
    ensures
        is_assignment(before, program_id, after, r),
{
    lemma_fields(before, after);
    lemma_of_the_system(before[0]);
    assert(account_views(before)[0] == before[0]@);
    if r is Ok {
        assert(account_views(after)[0] == after[0]@);
    }
}

proof fn lemma_move(
    before: Seq<KeyedAccount>,
    tokens: u64,
    after: Seq<KeyedAccount>,
    r: Result<(), ProgramError>,
)
    requires
        move_can_run(before, tokens),
        is_outcome(
            account_views(before),
            Some(InstructionView::Move { tokens }),
            account_views(after),
            r,
        ),
    ensures
        is_move(before, tokens, after, r),
{
    lemma_fields(before, after);
    let views = account_views(before);
    assert(views[0] == before[0]@);
    if r is Ok {
        assert(views[1] == before[1]@);
        assert(account_views(after)[0] == after[0]@);
        assert(account_views(after)[1] == after[1]@);
    }
}

/// `process_instruction` creates an account as asked.
pub proof fn law_creation_gives_what_is_asked(
    accounts: &mut [KeyedAccount],
    tokens: u64,
    space: u64,
    program_id: Pubkey,
    r: Result<(), ProgramError>,
)
    requires
        creation_can_run(old(accounts)@, tokens, space),
        call_ensures(
            process_instruction,
            (accounts, Some(SystemInstruction::CreateAccount { tokens, space, program_id })),
            r,
        ),
    ensures
        is_creation(old(accounts)@, tokens, space, program_id.bytes@, final(accounts)@, r),
{
    lemma_creation(old(accounts)@, tokens, space, program_id.bytes@, final(accounts)@, r);
}

/// `process_instruction` assigns an account as asked.
pub proof fn law_assignment_changes_the_owner(
    accounts: &mut [KeyedAccount],
    program_id: Pubkey,
    r: Result<(), ProgramError>,
)
    requires
        old(accounts)@.len() >= 1,
        call_ensures(
            process_instruction,
            (accounts, Some(SystemInstruction::Assign { program_id })),
            r,
        ),
    ensures
        is_assignment(old(accounts)@, program_id.bytes@, final(accounts)@, r),
{
    lemma_assignment(old(accounts)@, program_id.bytes@, final(accounts)@, r);
}

/// `process_instruction` moves tokens as asked, whoever owns the accounts.
pub proof fn law_move_takes_and_gives(
    accounts: &mut [KeyedAccount],
    tokens: u64,
    r: Result<(), ProgramError>,
)
    requires
        move_can_run(old(accounts)@, tokens),
        call_ensures(process_instruction, (accounts, Some(SystemInstruction::Move { tokens })), r),
    ensures
        is_move(old(accounts)@, tokens, final(accounts)@, r),
{
    lemma_move(old(accounts)@, tokens, final(accounts)@, r);
}

/// Without an instruction nothing changes, and the argument is invalid.
pub proof fn law_nothing_runs_without_an_instruction(
    accounts: &mut [KeyedAccount],
    r: Result<(), ProgramError>,
)
    requires
        call_ensures(process_instruction, (accounts, None::<SystemInstruction>), r),
    ensures
        r == Err::<(), ProgramError>(ProgramError::InvalidArgument),
        rest_as_before(old(accounts)@, final(accounts)@, 0),
{
    lemma_fields(old(accounts)@, final(accounts)@);
}

/// Whether bytes start with the instruction to create an account.
pub open spec fn asks_for_creation(
    data: Seq<u8>,
    tokens: u64,
    space: u64,
    program_id: Seq<u8>,
) -> bool {
    &&& data.len() >= 52
    &&& word4(data, 0) == 0
    &&& word8(data, 4) == tokens
    &&& word8(data, 12) == space
    &&& program_id.len() == 32
    &&& forall|i: int| 0 <= i < 32 ==> #[trigger] program_id[i] == data[20 + i]
}

/// Whether bytes start with the instruction to assign an account.
pub open spec fn asks_for_assignment(data: Seq<u8>, program_id: Seq<u8>) -> bool {
    &&& data.len() >= 36
    &&& word4(data, 0) == 1
    &&& program_id.len() == 32
    &&& forall|i: int| 0 <= i < 32 ==> #[trigger] program_id[i] == data[4 + i]
}

/// Whether bytes start with the instruction to move tokens.
pub open spec fn asks_for_move(data: Seq<u8>, tokens: u64) -> bool {
    &&& data.len() >= 12
    &&& word4(data, 0) == 2
    &&& word8(data, 4) == tokens
}

/// Whether bytes start with no instruction: they are too short for a tag, the tag is none of the
/// three, or they are too short for the fields.
pub open spec fn asks_for_nothing(data: Seq<u8>) -> bool {
    ||| data.len() < 4
    ||| word4(data, 0) > 2
    ||| word4(data, 0) == 0 && data.len() < 52
    ||| word4(data, 0) == 1 && data.len() < 36
    ||| word4(data, 0) == 2 && data.len() < 12
}

proof fn lemma_decoded(data: Seq<u8>)
    ensures
        decoded_instruction(data) is None <==> asks_for_nothing(data),
        match decoded_instruction(data) {
            Some(InstructionView::CreateAccount { tokens, space, program_id }) => {
                asks_for_creation(data, tokens, space, program_id)
            },
            Some(InstructionView::Assign { program_id }) => asks_for_assignment(data, program_id),
            Some(InstructionView::Move { tokens }) => asks_for_move(data, tokens),
            None => true,
        },
{
    if data.len() >= 4 {
        lemma_value_is_word4(data, 0);
    }
    if data.len() >= 12 {
        lemma_value_is_word8(data, 4);
    }
    if data.len() >= 20 {
        lemma_value_is_word8(data, 12);
    }
}

/// `decode` finds an instruction exactly where the bytes start with one: a four-byte tag, then the
/// fields in order, with little-endian numbers.
pub proof fn law_instructions_are_read_from_their_bytes(data: &[u8], r: Option<SystemInstruction>)
    requires
        call_ensures(SystemInstruction::decode, (data,), r),
    ensures
        r is None <==> asks_for_nothing(data@),
        r matches Some(SystemInstruction::CreateAccount { tokens, space, program_id })
            ==> asks_for_creation(data@, tokens, space, program_id.bytes@),
        r matches Some(SystemInstruction::Assign { program_id }) ==> asks_for_assignment(
            data@,
            program_id.bytes@,
        ),
        r matches Some(SystemInstruction::Move { tokens }) ==> asks_for_move(data@, tokens),
{
    lemma_decoded(data@);
}

/// `encode` gives bytes that ask for the instruction and for nothing more.
pub proof fn law_instructions_are_written_to_their_bytes(i: SystemInstruction, r: Vec<u8>)
    requires
        call_ensures(SystemInstruction::encode, (&i,), r),
    ensures
        match i {
            SystemInstruction::CreateAccount { tokens, space, program_id } => {
                asks_for_creation(r@, tokens, space, program_id.bytes@) && r@.len() == 52
            },
            SystemInstruction::Assign { program_id } => {
                asks_for_assignment(r@, program_id.bytes@) && r@.len() == 36
            },
            SystemInstruction::Move { tokens } => asks_for_move(r@, tokens) && r@.len() == 12,
        },
{
    lemma_decoded(r@);
    lemma_bytes_are_word4(0);
    lemma_bytes_are_word4(1);
    lemma_bytes_are_word4(2);
    match i {
        SystemInstruction::CreateAccount { tokens, space, program_id } => {
            lemma_bytes_are_word8(tokens);
            lemma_bytes_are_word8(space);
        },
        SystemInstruction::Assign { program_id } => {},
        SystemInstruction::Move { tokens } => {
            lemma_bytes_are_word8(tokens);
        },
    }
}

/// A built move is the system program's, names the source as a signer and the destination as none,
/// and asks for the move.
pub proof fn law_built_move_asks_for_the_move(
    from_id: Pubkey,
    to_id: Pubkey,
    tokens: u64,
    r: BuilderInstruction,
)
    requires
        call_ensures(SystemInstruction::new_move, (from_id, to_id, tokens), r),
    ensures
        forall|i: int| 0 <= i < 32 ==> #[trigger] r.program_id.bytes@[i] == 0,
        r.accounts@.len() == 2,
        r.accounts@[0] == (from_id, true),
        r.accounts@[1] == (to_id, false),
        asks_for_move(r.userdata@, tokens),
        r.userdata@.len() == 12,
{
    lemma_decoded(r.userdata@);
    lemma_bytes_are_word4(2);
    lemma_bytes_are_word8(tokens);
    assert forall|i: int| 0 <= i < 32 implies #[trigger] r.program_id.bytes@[i] == 0 by {
        assert(r.program_id@[i] == system_id()[i]);
    }
}

/// An instruction that is built holds what it was built from, and its input asks for it.
pub proof fn law_built_instruction_holds_its_parts(
    program_id: Pubkey,
    instruction: SystemInstruction,
    accounts: Vec<(Pubkey, bool)>,
    r: BuilderInstruction,
)
    requires
        call_ensures(BuilderInstruction::new, (program_id, &instruction, accounts), r),
    ensures
        r.program_id == program_id,
        r.accounts@ == accounts@,
        match instruction {
            SystemInstruction::CreateAccount { tokens, space, program_id } => asks_for_creation(
                r.userdata@,
                tokens,
                space,
                program_id.bytes@,
            ),
            SystemInstruction::Assign { program_id } => asks_for_assignment(
                r.userdata@,
                program_id.bytes@,
            ),
            SystemInstruction::Move { tokens } => asks_for_move(r.userdata@, tokens),
        },
{
    lemma_decoded(r.userdata@);
}

/// `entrypoint` does what its input asks for: it creates, assigns or moves, and refuses what asks
/// for nothing.
pub proof fn law_entrypoint_does_what_is_asked(
    id: Pubkey,
    accounts: &mut [KeyedAccount],
    data: &[u8],
    tick_height: u64,
    r: Result<(), ProgramError>,
)
    requires
        call_ensures(entrypoint, (&id, accounts, data, tick_height), r),
    ensures
        asks_for_nothing(data@) ==> {
            &&& r == Err::<(), ProgramError>(ProgramError::InvalidArgument)
            &&& rest_as_before(old(accounts)@, final(accounts)@, 0)
        },
        forall|tokens: u64, space: u64, program_id: Seq<u8>| #[trigger]
            asks_for_creation(data@, tokens, space, program_id) && creation_can_run(
                old(accounts)@,
                tokens,
                space,
            ) ==> is_creation(old(accounts)@, tokens, space, program_id, final(accounts)@, r),
        forall|program_id: Seq<u8>| #[trigger]
            asks_for_assignment(data@, program_id) && old(accounts)@.len() >= 1 ==> is_assignment(
                old(accounts)@,
                program_id,
                final(accounts)@,
                r,
            ),
        forall|tokens: u64| #[trigger]
            asks_for_move(data@, tokens) && move_can_run(old(accounts)@, tokens) ==> is_move(
                old(accounts)@,
                tokens,
                final(accounts)@,
                r,
            ),
{
    lemma_decoded(data@);
    lemma_fields(old(accounts)@, final(accounts)@);
    assert forall|tokens: u64, space: u64, program_id: Seq<u8>| #[trigger]
        asks_for_creation(data@, tokens, space, program_id) && creation_can_run(
            old(accounts)@,
            tokens,
            space,
        ) implies is_creation(
        old(accounts)@,
        tokens,
        space,
        program_id,
        final(accounts)@,
        r,
    ) by {
        let i = decoded_instruction(data@);
        assert(i->0->CreateAccount_program_id =~= program_id);
        lemma_creation(old(accounts)@, tokens, space, program_id, final(accounts)@, r);
    }
    assert forall|program_id: Seq<u8>| #[trigger]
        asks_for_assignment(data@, program_id) && old(accounts)@.len() >= 1 implies is_assignment(
        old(accounts)@,
        program_id,
        final(accounts)@,
        r,
    ) by {
        let i = decoded_instruction(data@);
        assert(i->0->Assign_program_id =~= program_id);
        lemma_assignment(old(accounts)@, program_id, final(accounts)@, r);
    }
    assert forall|tokens: u64| #[trigger]
        asks_for_move(data@, tokens) && move_can_run(old(accounts)@, tokens) implies is_move(
        old(accounts)@,
        tokens,
        final(accounts)@,
        r,
    ) by {
        lemma_move(old(accounts)@, tokens, final(accounts)@, r);
    }
}

/// `can_run` says whether the accounts that the instruction comes to use are there and can hold
/// what it comes to give them.
pub proof fn law_what_can_run(accounts: &[KeyedAccount], data: &[u8], r: bool)
    requires
        call_ensures(can_run, (accounts, data), r),
    ensures
        asks_for_nothing(data@) ==> r,
        forall|tokens: u64, space: u64, program_id: Seq<u8>| #[trigger]
            asks_for_creation(data@, tokens, space, program_id) ==> (r <==> creation_can_run(
                accounts@,
                tokens,
                space,
            )),
        forall|program_id: Seq<u8>| #[trigger]
            asks_for_assignment(data@, program_id) ==> (r <==> accounts@.len() >= 1),
        forall|tokens: u64| #[trigger]
            asks_for_move(data@, tokens) ==> (r <==> move_can_run(accounts@, tokens)),
{
    lemma_decoded(data@);
    lemma_fields(accounts@, accounts@);
    if accounts@.len() >= 1 {
        lemma_of_the_system(accounts@[0]);
        assert(account_views(accounts@)[0] == accounts@[0]@);
    }
    if accounts@.len() >= 2 {
        lemma_of_the_system(accounts@[1]);
        assert(account_views(accounts@)[1] == accounts@[1]@);
    }
    assert forall|tokens: u64, space: u64, program_id: Seq<u8>| #[trigger]
        asks_for_creation(data@, tokens, space, program_id) implies (r <==> creation_can_run(
        accounts@,
        tokens,
        space,
    )) by {
        lemma_space(space);
    }
}

/// `entrypoint` and `process_instruction` take everything whose accounts are there and can hold
/// what they are given.
pub proof fn law_what_can_run_is_taken(
    id: Pubkey,
    accounts: &mut [KeyedAccount],
    data: &[u8],
    tick_height: u64,
    tokens: u64,
    space: u64,
    program_id: Pubkey,
)
    ensures
        creation_can_run(old(accounts)@, tokens, space) ==> call_requires(
            process_instruction,
            (accounts, Some(SystemInstruction::CreateAccount { tokens, space, program_id })),
        ),
        old(accounts)@.len() >= 1 ==> call_requires(
            process_instruction,
            (accounts, Some(SystemInstruction::Assign { program_id })),
        ),
        move_can_run(old(accounts)@, tokens) ==> call_requires(
            process_instruction,
            (accounts, Some(SystemInstruction::Move { tokens })),
        ),
        call_requires(process_instruction, (accounts, None::<SystemInstruction>)),
        asks_for_nothing(data@) ==> call_requires(entrypoint, (&id, accounts, data, tick_height)),
        asks_for_creation(data@, tokens, space, program_id.bytes@) && creation_can_run(
            old(accounts)@,
            tokens,
            space,
        ) ==> call_requires(entrypoint, (&id, accounts, data, tick_height)),
        asks_for_assignment(data@, program_id.bytes@) && old(accounts)@.len() >= 1
            ==> call_requires(entrypoint, (&id, accounts, data, tick_height)),
        asks_for_move(data@, tokens) && move_can_run(old(accounts)@, tokens) ==> call_requires(
            entrypoint,
            (&id, accounts, data, tick_height),
        ),
{
    let before = old(accounts)@;
    lemma_decoded(data@);
    lemma_fields(before, before);
    lemma_space(space);
    if before.len() >= 1 {
        lemma_of_the_system(before[0]);
        assert(account_views(before)[0] == before[0]@);
    }
    if before.len() >= 2 {
        lemma_of_the_system(before[1]);
        assert(account_views(before)[1] == before[1]@);
    }
}

/// An account that signed has a signer key, its own, and no other has one.
pub proof fn law_only_signers_have_a_signer_key(k: KeyedAccount, r: Option<&Pubkey>)
    requires
        call_ensures(KeyedAccount::signer_key, (&k,), r),
    ensures
        r is Some <==> k.is_signer,
        r matches Some(key) ==> *key == k.key,
{
}

} // verus!
