//! The system program: it creates accounts, hands them to programs and moves tokens.
use crate::account::{account_views, AccountView, KeyedAccount, KeyedAccountView};
use crate::pubkey::Pubkey;
use crate::system_instruction::{
    decoded_instruction, instruction_view, law_instruction_round_trip, wire_form, InstructionView,
    SystemInstruction,
};
use crate::system_program;
use crate::system_program::system_id;
use vstd::prelude::*;

verus! {

/// Why a program refuses an instruction.
#[derive(Clone, Copy, Debug, PartialEq, Eq)]
pub enum ProgramError {
    /// The instruction, or an account that it names, is not what it has to be.
    InvalidArgument,
    /// The source holds fewer tokens than are to leave it.
    ResultWithNegativeTokens,
    /// The account is not the system program's to hand over.
    AssignOfUnownedAccount,
}

/// `k` with the tokens `tokens`.
pub open spec fn with_tokens(k: KeyedAccountView, tokens: u64) -> KeyedAccountView {
    KeyedAccountView { account: AccountView { tokens, ..k.account }, ..k }
}

/// `k` with the owner `owner`.
pub open spec fn with_owner(k: KeyedAccountView, owner: Seq<u8>) -> KeyedAccountView {
    KeyedAccountView { account: AccountView { owner, ..k.account }, ..k }
}

/// The accounts after `tokens` have gone from the first to the second.
pub open spec fn moved(accounts: Seq<KeyedAccountView>, tokens: u64) -> Seq<KeyedAccountView> {
    accounts.update(
        0,
        with_tokens(accounts[0], (accounts[0].account.tokens - tokens) as u64),
    ).update(1, with_tokens(accounts[1], (accounts[1].account.tokens + tokens) as u64))
}

/// The account that `k` becomes when it is created for `program_id`, holding `tokens` more than
/// before.
pub open spec fn created(
    k: KeyedAccountView,
    tokens: u64,
    space: u64,
    program_id: Seq<u8>,
) -> KeyedAccountView {
    KeyedAccountView {
        account: AccountView {
            tokens: (k.account.tokens + tokens) as u64,
            userdata: Seq::new(space as usize as nat, |i: int| 0u8),
            owner: program_id,
            executable: false,
        },
        ..k
    }
}

/// Whether `k` is already in use, so that no space can be given to it.
pub open spec fn in_use(k: KeyedAccountView) -> bool {
    k.account.userdata.len() != 0 || k.account.owner != system_id()
}

/// What the system program makes of `instruction` on `accounts`: the accounts afterwards, or the
/// reason why it changes nothing. Without an instruction there is nothing to run.
pub open spec fn outcome(
    accounts: Seq<KeyedAccountView>,
    instruction: Option<InstructionView>,
) -> Result<Seq<KeyedAccountView>, ProgramError> {
    match instruction {
        None => Err(ProgramError::InvalidArgument),
        Some(i) => if !accounts[0].is_signer {
            Err(ProgramError::InvalidArgument)
        } else {
            signed_outcome(accounts, i)
        },
    }
}

/// What the system program makes of `instruction` once the source has signed.
pub open spec fn signed_outcome(
    accounts: Seq<KeyedAccountView>,
    instruction: InstructionView,
) -> Result<Seq<KeyedAccountView>, ProgramError> {
    let from = accounts[0];
    match instruction {
        InstructionView::CreateAccount { tokens, space, program_id } => {
            if from.account.owner != system_id() {
                Err(ProgramError::InvalidArgument)
            } else if space > 0 && in_use(accounts[1]) {
                Err(ProgramError::InvalidArgument)
            } else if tokens > from.account.tokens {
                Err(ProgramError::ResultWithNegativeTokens)
            } else {
                Ok(
                    accounts.update(
                        0,
                        with_tokens(from, (from.account.tokens - tokens) as u64),
                    ).update(1, created(accounts[1], tokens, space, program_id)),
                )
            }
        },
        InstructionView::Assign { program_id } => {
            if from.account.owner != system_id() {
                Err(ProgramError::AssignOfUnownedAccount)
            } else {
                Ok(accounts.update(0, with_owner(from, program_id)))
            }
        },
        InstructionView::Move { tokens } => {
            if tokens > from.account.tokens {
                Err(ProgramError::ResultWithNegativeTokens)
            } else {
                Ok(moved(accounts, tokens))
            }
        },
    }
}

/// Whether the accounts that the instruction comes to use are there, and what it comes to write
/// can be held: the destination's tokens by a `u64`, the new userdata by a `Vec`.
pub open spec fn runnable(
    accounts: Seq<KeyedAccountView>,
    instruction: Option<InstructionView>,
) -> bool {
    match instruction {
        None => true,
        Some(i) => {
            &&& accounts.len() >= 1
            &&& accounts[0].is_signer ==> match i {
                InstructionView::CreateAccount { tokens, space, program_id } => {
                    accounts[0].account.owner == system_id() ==> {
                        &&& space > 0 ==> accounts.len() >= 2
                        &&& signed_outcome(accounts, i) is Ok ==> {
                            &&& accounts.len() >= 2
                            &&& accounts[1].account.tokens + tokens <= u64::MAX
                            &&& space as usize <= isize::MAX
                        }
                    }
                },
                InstructionView::Assign { program_id } => true,
                InstructionView::Move { tokens } => {
                    tokens <= accounts[0].account.tokens ==> {
                        &&& accounts.len() >= 2
                        &&& accounts[1].account.tokens + tokens <= u64::MAX
                    }
                },
            }
        },
    }
}

/// Whether `entrypoint` can run what `data` holds on these accounts.
pub fn can_run(keyed_accounts: &[KeyedAccount], data: &[u8]) -> (r: bool)
    ensures
        r == runnable(account_views(keyed_accounts@), decoded_instruction(data@)),
{
    let syscall = match SystemInstruction::decode(data) {
        Some(syscall) => syscall,
        None => return true,
    };
    let from: usize = 0;
    let to: usize = 1;
    let n: usize = keyed_accounts.len();
    if n < 1 {
        return false;
    }
    let source = &keyed_accounts[from];
    proof {
        assert(account_views(keyed_accounts@)[0] == source@);
        if n > 1 {
            assert(account_views(keyed_accounts@)[1] == keyed_accounts@[1]@);
        }
    }
    if source.signer_key().is_none() {
        return true;
    }
    match syscall {
        SystemInstruction::CreateAccount { tokens, space, program_id: _ } => {
            if !system_program::check_id(&source.account.owner) {
                return true;
            }
            if space > 0 {
                if n < 2 {
                    return false;
                }
                if !keyed_accounts[to].account.userdata.is_empty() || !system_program::check_id(
                    &keyed_accounts[to].account.owner,
                ) {
                    return true;
                }
            }
            tokens > source.account.tokens || (n >= 2 && tokens <= u64::MAX
                - keyed_accounts[to].account.tokens && space as usize <= isize::MAX as usize)
        },
        SystemInstruction::Assign { program_id: _ } => true,
        SystemInstruction::Move { tokens } => tokens > source.account.tokens || (n >= 2 && tokens
            <= u64::MAX - keyed_accounts[to].account.tokens),
    }
}

/// Whether `r` and the accounts `after` are what `outcome` says of `before`.
pub open spec fn is_outcome(
    before: Seq<KeyedAccountView>,
    instruction: Option<InstructionView>,
    after: Seq<KeyedAccountView>,
    r: Result<(), ProgramError>,
) -> bool {
    match outcome(before, instruction) {
        Ok(accounts) => r == Ok::<(), ProgramError>(()) && after == accounts,
        Err(e) => r == Err::<(), ProgramError>(e) && after == before,
    }
}

/// Runs the instruction that `data` holds on the accounts that it names.
pub fn entrypoint(
    _program_id: &Pubkey,
    keyed_accounts: &mut [KeyedAccount],
    data: &[u8],
    _tick_height: u64,
) -> (r: Result<(), ProgramError>)
    requires
        runnable(account_views(old(keyed_accounts)@), decoded_instruction(data@)),
    ensures
        is_outcome(
            account_views(old(keyed_accounts)@),
            decoded_instruction(data@),
            account_views(final(keyed_accounts)@),
            r,
        ),
{
    process_instruction(keyed_accounts, SystemInstruction::decode(data))
}

/// Runs an instruction, if there is one, on the accounts that it names.
pub fn process_instruction(
    keyed_accounts: &mut [KeyedAccount],
    syscall: Option<SystemInstruction>,
) -> (r: Result<(), ProgramError>)
    requires
        runnable(account_views(old(keyed_accounts)@), instruction_view(syscall)),
    ensures
        is_outcome(
            account_views(old(keyed_accounts)@),
            instruction_view(syscall),
            account_views(final(keyed_accounts)@),
            r,
        ),
{
    let ghost instruction = instruction_view(syscall);
    let syscall = match syscall {
        Some(syscall) => syscall,
        None => return Err(ProgramError::InvalidArgument),
    };
    let from: usize = 0;

    // all system instructions require that accounts_keys[0] be a signer
    if keyed_accounts[from].signer_key().is_none() {
        return Err(ProgramError::InvalidArgument);
    }
    match syscall {
        SystemInstruction::CreateAccount { tokens, space, program_id } => {
            let to: usize = 1;
            if !system_program::check_id(&keyed_accounts[from].account.owner) {
                return Err(ProgramError::InvalidArgument);
            }
            if space > 0 && (!keyed_accounts[to].account.userdata.is_empty()
                || !system_program::check_id(&keyed_accounts[to].account.owner)) {
                return Err(ProgramError::InvalidArgument);
            }
            if tokens > keyed_accounts[from].account.tokens {
                return Err(ProgramError::ResultWithNegativeTokens);
            }
            keyed_accounts[from].account.tokens -= tokens;
            keyed_accounts[to].account.tokens += tokens;
            keyed_accounts[to].account.owner = program_id;
            keyed_accounts[to].account.userdata = vec![0; space as usize];
            keyed_accounts[to].account.executable = false;
            proof {
                assert(keyed_accounts@[1].account.userdata@ =~= Seq::new(
                    space as usize as nat,
                    |i: int| 0u8,
                ));
            }
        },
        SystemInstruction::Assign { program_id } => {
            if !system_program::check_id(&keyed_accounts[from].account.owner) {
                return Err(ProgramError::AssignOfUnownedAccount);
            }
            keyed_accounts[from].account.owner = program_id;
        },
        SystemInstruction::Move { tokens } => {
            let to: usize = 1;

            // bank should be verifying correctness
            if tokens > keyed_accounts[from].account.tokens {
                return Err(ProgramError::ResultWithNegativeTokens);
            }
            keyed_accounts[from].account.tokens -= tokens;
            keyed_accounts[to].account.tokens += tokens;
        },
    }
    proof {
        let after = outcome(account_views(old(keyed_accounts)@), instruction)->Ok_0;
        assert(account_views(keyed_accounts@) =~= after);
    }
    Ok(())
}

/// The tokens that the accounts hold between them.
pub open spec fn total_tokens(accounts: Seq<KeyedAccountView>) -> int
    decreases accounts.len(),
{
    if accounts.len() == 0 {
        0
    } else {
        total_tokens(accounts.drop_last()) + accounts.last().account.tokens
    }
}

proof fn lemma_total_after_update(accounts: Seq<KeyedAccountView>, i: int, k: KeyedAccountView)
    requires
        0 <= i < accounts.len(),
    ensures
        total_tokens(accounts.update(i, k)) == total_tokens(accounts) - accounts[i].account.tokens
            + k.account.tokens,
    decreases accounts.len(),
{
    let last = accounts.len() - 1;
    if i == last {
        assert(accounts.update(i, k).drop_last() =~= accounts.drop_last());
    } else {
        assert(accounts.update(i, k).drop_last() =~= accounts.drop_last().update(i, k));
        lemma_total_after_update(accounts.drop_last(), i, k);
    }
}

/// No instruction makes or destroys tokens.
pub proof fn law_tokens_are_conserved(
    before: Seq<KeyedAccountView>,
    instruction: Option<InstructionView>,
    after: Seq<KeyedAccountView>,
    r: Result<(), ProgramError>,
)
    requires
        runnable(before, instruction),
        is_outcome(before, instruction, after, r),
    ensures
        total_tokens(after) == total_tokens(before),
{
    if r is Ok {
        match instruction->0 {
            InstructionView::Assign { program_id } => {
                lemma_total_after_update(before, 0, after[0]);
                assert(after =~= before.update(0, after[0]));
            },
            _ => {
                let halfway = before.update(0, after[0]);
                lemma_total_after_update(before, 0, after[0]);
                lemma_total_after_update(halfway, 1, after[1]);
                assert(after =~= halfway.update(1, after[1]));
            },
        }
    }
}

/// An instruction changes at most the first two accounts that it is handed, and neither an
/// address nor whether it signed.
pub proof fn law_only_source_and_destination_change(
    before: Seq<KeyedAccountView>,
    instruction: Option<InstructionView>,
    after: Seq<KeyedAccountView>,
    r: Result<(), ProgramError>,
)
    requires
        runnable(before, instruction),
        is_outcome(before, instruction, after, r),
    ensures
        after.len() == before.len(),
        forall|i: int| 2 <= i < before.len() ==> after[i] == before[i],
        forall|i: int|
            #![trigger after[i]]
            0 <= i < before.len() ==> after[i].key == before[i].key && after[i].is_signer
                == before[i].is_signer,
{
}

/// Unless the first account signed, nothing runs.
pub proof fn law_unsigned_source_is_refused(
    before: Seq<KeyedAccountView>,
    instruction: Option<InstructionView>,
    after: Seq<KeyedAccountView>,
    r: Result<(), ProgramError>,
)
    requires
        !before[0].is_signer,
        is_outcome(before, instruction, after, r),
    ensures
        r == Err::<(), ProgramError>(ProgramError::InvalidArgument),
        after == before,
{
}

/// Tokens leave only the first account, and only where it signed; and only then is it handed to
/// another program, which the system program does with its own accounts alone.
pub proof fn law_only_a_signer_gives(
    before: Seq<KeyedAccountView>,
    instruction: Option<InstructionView>,
    after: Seq<KeyedAccountView>,
    r: Result<(), ProgramError>,
)
    requires
        runnable(before, instruction),
        is_outcome(before, instruction, after, r),
    ensures
        forall|i: int|
            #![trigger after[i]]
            0 <= i < before.len() && after[i].account.tokens < before[i].account.tokens ==> i == 0
                && before[0].is_signer,
        before.len() > 0 && after[0].account.owner != before[0].account.owner ==> {
            &&& before[0].is_signer
            &&& before[0].account.owner == system_id()
        },
{
}

/// An account that was handed to another program is no longer the system program's: it can be
/// neither handed over again nor made the source of a new account.
pub proof fn law_assigned_account_is_out_of_hand(
    before: Seq<KeyedAccountView>,
    program_id: Seq<u8>,
    after: Seq<KeyedAccountView>,
    next: Seq<u8>,
    tokens: u64,
    space: u64,
)
    requires
        before.len() >= 1,
        program_id != system_id(),
        outcome(before, Some(InstructionView::Assign { program_id })) == Ok::<_, ProgramError>(
            after,
        ),
    ensures
        after[0].account.owner == program_id,
        outcome(after, Some(InstructionView::Assign { program_id: next })) == Err::<
            Seq<KeyedAccountView>,
            ProgramError,
        >(ProgramError::AssignOfUnownedAccount),
        outcome(after, Some(InstructionView::CreateAccount { tokens, space, program_id: next }))
            == Err::<Seq<KeyedAccountView>, ProgramError>(ProgramError::InvalidArgument),
{
}

/// An account that was created for a program cannot be given space again, whatever program the
/// second attempt names.
pub proof fn law_created_account_is_in_use(
    before: Seq<KeyedAccountView>,
    tokens: u64,
    space: u64,
    program_id: Seq<u8>,
    after: Seq<KeyedAccountView>,
    next_tokens: u64,
    next_space: u64,
    next: Seq<u8>,
)
    requires
        before.len() >= 2,
        program_id != system_id(),
        next_space > 0,
        outcome(before, Some(InstructionView::CreateAccount { tokens, space, program_id })) == Ok::<
            _,
            ProgramError,
        >(after),
    ensures
        after[1].account.owner == program_id,
        outcome(
            after,
            Some(
                InstructionView::CreateAccount {
                    tokens: next_tokens,
                    space: next_space,
                    program_id: next,
                },
            ),
        ) == Err::<Seq<KeyedAccountView>, ProgramError>(ProgramError::InvalidArgument),
{
}

/// The accounts with the first two exchanged.
pub open spec fn exchanged(accounts: Seq<KeyedAccountView>) -> Seq<KeyedAccountView> {
    accounts.update(0, accounts[1]).update(1, accounts[0])
}

/// Moving tokens back undoes the move.
pub proof fn law_move_back_undoes_move(accounts: Seq<KeyedAccountView>, tokens: u64)
    requires
        accounts.len() >= 2,
        tokens <= accounts[0].account.tokens,
        accounts[1].account.tokens + tokens <= u64::MAX,
    ensures
        moved(exchanged(moved(accounts, tokens)), tokens) == exchanged(accounts),
{
    assert(moved(exchanged(moved(accounts, tokens)), tokens) =~= exchanged(accounts));
}

/// The input that `SystemInstruction::new_move` builds moves the tokens.
pub proof fn law_built_move_moves(accounts: Seq<KeyedAccountView>, tokens: u64)
    requires
        accounts.len() >= 2,
        accounts[0].is_signer,
        tokens <= accounts[0].account.tokens,
    ensures
        outcome(accounts, decoded_instruction(wire_form(InstructionView::Move { tokens })))
            == Ok::<_, ProgramError>(moved(accounts, tokens)),
{
    let wire = wire_form(InstructionView::Move { tokens });
    law_instruction_round_trip(SystemInstruction::Move { tokens }, Seq::empty());
    assert(wire + Seq::<u8>::empty() =~= wire);
}

} // verus!
