use solana::account::{Account, KeyedAccount};
use solana::pubkey::Pubkey;
use solana::system::{can_run, entrypoint, process_instruction, ProgramError};
use solana::system_instruction::{BuilderInstruction, SystemInstruction};
use solana::system_program;

fn key(n: u8) -> Pubkey {
    Pubkey { bytes: [n; 32] }
}

fn keyed(n: u8, is_signer: bool, tokens: u64, owner: Pubkey) -> KeyedAccount {
    KeyedAccount {
        is_signer,
        key: key(n),
        account: Account {
            tokens,
            userdata: vec![],
            owner,
            executable: false,
        },
    }
}

fn pair(from_tokens: u64, to_tokens: u64) -> Vec<KeyedAccount> {
    vec![
        keyed(1, true, from_tokens, system_program::id()),
        keyed(2, false, to_tokens, system_program::id()),
    ]
}

fn run(accounts: &mut Vec<KeyedAccount>, i: &SystemInstruction) -> Result<(), ProgramError> {
    entrypoint(&system_program::id(), accounts, &i.encode(), 0)
}

/// Runs the instruction, which has to be refused and to change nothing.
fn refused(mut accounts: Vec<KeyedAccount>, i: &SystemInstruction) -> ProgramError {
    let before = accounts.clone();
    let e = run(&mut accounts, i).unwrap_err();
    assert_eq!(accounts, before);
    e
}

#[test]
fn tokens_move_from_the_first_account_to_the_second() {
    let mut accounts = pair(100, 7);
    assert_eq!(
        run(&mut accounts, &SystemInstruction::Move { tokens: 30 }),
        Ok(())
    );
    assert_eq!(accounts, pair(70, 37));
}

#[test]
fn all_tokens_can_move() {
    let mut accounts = pair(100, 0);
    assert_eq!(
        run(&mut accounts, &SystemInstruction::Move { tokens: 100 }),
        Ok(())
    );
    assert_eq!(accounts, pair(0, 100));
}

#[test]
fn more_tokens_than_there_are_do_not_move() {
    assert_eq!(
        refused(pair(100, 0), &SystemInstruction::Move { tokens: 101 }),
        ProgramError::ResultWithNegativeTokens
    );
}

#[test]
fn a_move_leaves_further_accounts_alone() {
    let mut accounts = pair(10, 20);
    accounts.push(keyed(3, true, 30, key(9)));
    assert_eq!(
        run(&mut accounts, &SystemInstruction::Move { tokens: 4 }),
        Ok(())
    );
    assert_eq!(accounts[..2], pair(6, 24)[..]);
    assert_eq!(accounts[2], keyed(3, true, 30, key(9)));
}

#[test]
fn a_move_back_undoes_a_move() {
    let mut accounts = pair(100, 7);
    assert_eq!(
        run(&mut accounts, &SystemInstruction::Move { tokens: 30 }),
        Ok(())
    );
    accounts.swap(0, 1);
    accounts[0].is_signer = true;
    assert_eq!(
        run(&mut accounts, &SystemInstruction::Move { tokens: 30 }),
        Ok(())
    );
    assert_eq!(accounts[0].account.tokens, 7);
    assert_eq!(accounts[1].account.tokens, 100);
}

#[test]
fn an_unsigned_source_is_refused() {
    let all = vec![
        SystemInstruction::Move { tokens: 0 },
        SystemInstruction::Assign { program_id: key(5) },
        SystemInstruction::CreateAccount {
            tokens: 0,
            space: 0,
            program_id: key(5),
        },
    ];
    for i in all.iter() {
        let mut accounts = pair(100, 0);
        accounts[0].is_signer = false;
        accounts[1].is_signer = true;
        assert_eq!(refused(accounts, i), ProgramError::InvalidArgument);
    }
}

#[test]
fn an_account_is_created() {
    let mut accounts = pair(100, 3);
    accounts[1].account.executable = true;
    let i = SystemInstruction::CreateAccount {
        tokens: 40,
        space: 2,
        program_id: key(5),
    };
    assert_eq!(run(&mut accounts, &i), Ok(()));
    assert_eq!(accounts[0], pair(60, 0)[0]);
    assert_eq!(
        accounts[1].account,
        Account {
            tokens: 43,
            userdata: vec![0, 0],
            owner: key(5),
            executable: false,
        }
    );
}

#[test]
fn space_is_not_given_to_an_account_in_use() {
    let i = SystemInstruction::CreateAccount {
        tokens: 1,
        space: 1,
        program_id: key(5),
    };
    let mut with_userdata = pair(100, 0);
    with_userdata[1].account.userdata = vec![1];
    assert_eq!(refused(with_userdata, &i), ProgramError::InvalidArgument);

    let mut of_another = pair(100, 0);
    of_another[1].account.owner = key(6);
    assert_eq!(refused(of_another, &i), ProgramError::InvalidArgument);
}

#[test]
fn without_space_an_account_in_use_is_created_anew() {
    let mut accounts = pair(100, 0);
    accounts[1].account.userdata = vec![1, 2, 3];
    accounts[1].account.owner = key(6);
    let i = SystemInstruction::CreateAccount {
        tokens: 1,
        space: 0,
        program_id: key(5),
    };
    assert_eq!(run(&mut accounts, &i), Ok(()));
    assert_eq!(accounts[1].account.userdata, Vec::<u8>::new());
    assert_eq!(accounts[1].account.owner, key(5));
}

#[test]
fn only_the_system_programs_accounts_create() {
    let mut accounts = pair(100, 0);
    accounts[0].account.owner = key(6);
    let i = SystemInstruction::CreateAccount {
        tokens: 1,
        space: 0,
        program_id: key(5),
    };
    assert_eq!(refused(accounts, &i), ProgramError::InvalidArgument);
}

#[test]
fn creating_takes_no_more_than_there_is() {
    let i = SystemInstruction::CreateAccount {
        tokens: 101,
        space: 4,
        program_id: key(5),
    };
    assert_eq!(
        refused(pair(100, 0), &i),
        ProgramError::ResultWithNegativeTokens
    );
}

#[test]
fn a_created_account_is_not_created_twice() {
    let mut accounts = pair(100, 0);
    let i = SystemInstruction::CreateAccount {
        tokens: 10,
        space: 4,
        program_id: key(5),
    };
    assert_eq!(run(&mut accounts, &i), Ok(()));
    assert_eq!(refused(accounts, &i), ProgramError::InvalidArgument);
}

#[test]
fn an_account_is_assigned_once() {
    let mut accounts = vec![keyed(1, true, 5, system_program::id())];
    let i = SystemInstruction::Assign { program_id: key(5) };
    assert_eq!(run(&mut accounts, &i), Ok(()));
    assert_eq!(accounts, vec![keyed(1, true, 5, key(5))]);
    assert_eq!(refused(accounts, &i), ProgramError::AssignOfUnownedAccount);
}

#[test]
fn what_is_no_instruction_is_refused() {
    let tails: Vec<Vec<u8>> = vec![vec![], vec![2, 0, 0], vec![2, 0, 0, 0, 1], vec![3, 0, 0, 0]];
    for data in tails.iter() {
        let mut accounts = pair(100, 0);
        assert_eq!(
            entrypoint(&system_program::id(), &mut accounts, data, 0),
            Err(ProgramError::InvalidArgument)
        );
        assert_eq!(accounts, pair(100, 0));
    }
    let mut none: Vec<KeyedAccount> = vec![];
    assert_eq!(
        entrypoint(&system_program::id(), &mut none, &[], 0),
        Err(ProgramError::InvalidArgument)
    );
    assert_eq!(
        process_instruction(&mut none, None),
        Err(ProgramError::InvalidArgument)
    );
}

#[test]
fn tokens_are_conserved() {
    let total = |accounts: &[KeyedAccount]| accounts.iter().map(|k| k.account.tokens).sum::<u64>();
    let all = vec![
        SystemInstruction::Move { tokens: 33 },
        SystemInstruction::CreateAccount {
            tokens: 12,
            space: 3,
            program_id: key(5),
        },
        SystemInstruction::Assign { program_id: key(5) },
        SystemInstruction::Move { tokens: 1000 },
    ];
    for i in all.iter() {
        let mut accounts = pair(100, 11);
        let _ = run(&mut accounts, i);
        assert_eq!(total(&accounts), 111);
    }
}

#[test]
fn wire_forms_are_a_tag_and_the_fields() {
    assert_eq!(
        SystemInstruction::Move { tokens: 0x0203 }.encode(),
        vec![2, 0, 0, 0, 3, 2, 0, 0, 0, 0, 0, 0]
    );
    let mut assign = vec![1, 0, 0, 0];
    assign.extend_from_slice(&[8u8; 32]);
    assert_eq!(
        SystemInstruction::Assign { program_id: key(8) }.encode(),
        assign
    );
    let mut create = vec![0, 0, 0, 0, 5, 0, 0, 0, 0, 0, 0, 0, 6, 0, 0, 0, 0, 0, 0, 0];
    create.extend_from_slice(&[9u8; 32]);
    assert_eq!(
        SystemInstruction::CreateAccount {
            tokens: 5,
            space: 6,
            program_id: key(9),
        }
        .encode(),
        create
    );
}

#[test]
fn instructions_are_read_back_whatever_follows() {
    let all = vec![
        SystemInstruction::Move {
            tokens: u64::max_value(),
        },
        SystemInstruction::Assign { program_id: key(8) },
        SystemInstruction::CreateAccount {
            tokens: 1 << 40,
            space: 77,
            program_id: key(9),
        },
    ];
    for i in all.iter() {
        let mut data = i.encode();
        assert_eq!(SystemInstruction::decode(&data), Some(i.clone()));
        data.extend_from_slice(&[1, 2, 3]);
        assert_eq!(SystemInstruction::decode(&data), Some(i.clone()));
        let cut = i.encode().len() - 1;
        assert_eq!(SystemInstruction::decode(&data[..cut]), None);
    }
}

#[test]
fn a_built_move_names_both_accounts_and_moves() {
    let built = SystemInstruction::new_move(key(1), key(2), 30);
    assert_eq!(
        built,
        BuilderInstruction {
            program_id: system_program::id(),
            accounts: vec![(key(1), true), (key(2), false)],
            userdata: vec![2, 0, 0, 0, 30, 0, 0, 0, 0, 0, 0, 0],
        }
    );
    let mut accounts = pair(100, 7);
    assert_eq!(
        entrypoint(&built.program_id, &mut accounts, &built.userdata, 0),
        Ok(())
    );
    assert_eq!(accounts, pair(70, 37));
}

#[test]
fn the_system_program_is_at_all_zeros() {
    assert_eq!(system_program::id().bytes, [0u8; 32]);
    assert!(system_program::check_id(&Pubkey::default()));
    let mut other = Pubkey::default();
    other.bytes[31] = 1;
    assert!(!system_program::check_id(&other));
}

#[test]
fn only_a_signer_has_a_signer_key() {
    let owner = system_program::id();
    assert_eq!(keyed(4, true, 0, owner).signer_key(), Some(&key(4)));
    assert_eq!(keyed(4, false, 0, owner).signer_key(), None);
}

#[test]
fn only_a_signer_gives() {
    // The second account signed, but it is the first that the tokens would leave.
    let mut accounts = pair(100, 50);
    accounts.swap(0, 1);
    assert_eq!(
        refused(accounts, &SystemInstruction::Move { tokens: 1 }),
        ProgramError::InvalidArgument
    );
}

#[test]
fn what_cannot_run_is_known_beforehand() {
    let can = |accounts: &[KeyedAccount], i: &SystemInstruction| can_run(accounts, &i.encode());
    let go = SystemInstruction::Move { tokens: 1 };
    assert!(can(&pair(1, 0), &go));
    assert!(!can(&[], &go));
    assert!(can_run(&[], &[]));
    // Without a destination only what is refused before it is needed can run.
    assert!(!can(&pair(1, 0)[..1], &go));
    assert!(can(&pair(0, 0)[..1], &go));
    assert!(can(&pair(1, 0)[1..], &go));
    assert!(can(
        &pair(1, 0)[..1],
        &SystemInstruction::Assign { program_id: key(5) }
    ));
    assert!(!can(&pair(1, u64::max_value()), &go));

    let create = |tokens, space| SystemInstruction::CreateAccount {
        tokens,
        space,
        program_id: key(5),
    };
    assert!(can(&pair(1, 0), &create(1, 8)));
    assert!(!can(&pair(1, 0)[..1], &create(1, 8)));
    assert!(!can(&pair(1, 0)[..1], &create(1, 0)));
    assert!(can(&pair(1, 0)[..1], &create(2, 0)));
    assert!(!can(&pair(1, u64::max_value()), &create(1, 0)));
    assert!(!can(&pair(1, 0), &create(1, u64::max_value())));
    let mut in_use = pair(1, 0);
    in_use[1].account.owner = key(6);
    assert!(can(&in_use, &create(1, u64::max_value())));
}
