use solana_program::program_pack::Pack;
use tokenitis::address::Address;
use tokenitis::error::{LookupPhase, TokenitisError};
use tokenitis::instruction::{
    token_program_address, AccountMeta, Instruction, InstructionType, MINT_LEN, TOKEN_ACCOUNT_LEN,
};
use tokenitis::state::{
    authority_seed, lookup_account, lookup_supply, program_state_len, AccountEntry, ExecuteArgs,
    InitializeArgs, SupplyEntry, Tokenitis,
};

fn addr(b: u8) -> Address {
    Address::new([b; 32])
}

fn entry(asset: u8, account: u8) -> AccountEntry {
    AccountEntry { asset: addr(asset), account: addr(account) }
}

fn meta(pubkey: Address, is_signer: bool, is_writable: bool) -> AccountMeta {
    AccountMeta { pubkey, is_signer, is_writable }
}

#[test]
fn token_constants_match_primitive() {
    assert_eq!(TOKEN_ACCOUNT_LEN, spl_token::state::Account::LEN as u64);
    assert_eq!(MINT_LEN, spl_token::state::Mint::LEN as u64);
    assert_eq!(token_program_address().bytes, spl_token::ID.to_bytes());
}

#[test]
fn state_len_is_fixed_width() {
    let args = InitializeArgs {
        inputs: vec![entry(1, 2), entry(3, 4)],
        outputs: vec![entry(5, 6), entry(7, 8), entry(9, 10)],
    };
    assert_eq!(program_state_len(&args), 8 + 64 * 5);
}

#[test]
fn input_creation_emits_pairs_in_order() {
    let initializer = addr(9);
    let args = InitializeArgs {
        inputs: vec![entry(1, 2), entry(3, 4)],
        outputs: vec![],
    };
    let v = InstructionType::create_transform_input_accounts(&initializer, 77, args).unwrap();
    assert_eq!(v.len(), 4);
    assert_eq!(
        v[0],
        Instruction::CreateAccount {
            payer: initializer,
            new_account: addr(2),
            rent: 77,
            space: 165,
            owner: token_program_address(),
        }
    );
    assert_eq!(
        v[1],
        Instruction::InitializeAccount { account: addr(2), mint: addr(1), authority: initializer }
    );
    assert_eq!(
        v[2],
        Instruction::CreateAccount {
            payer: initializer,
            new_account: addr(4),
            rent: 77,
            space: 165,
            owner: token_program_address(),
        }
    );
    assert_eq!(
        v[3],
        Instruction::InitializeAccount { account: addr(4), mint: addr(3), authority: initializer }
    );
}

#[test]
fn output_creation_fixes_supply_per_output() {
    let initializer = addr(9);
    let args = InitializeArgs {
        inputs: vec![],
        outputs: vec![entry(5, 6), entry(7, 8)],
    };
    let supply = vec![
        SupplyEntry { asset: addr(5), amount: 1000 },
        SupplyEntry { asset: addr(7), amount: 250 },
    ];
    let v = InstructionType::create_trarnsform_output_accounts(&initializer, 11, 22, args, supply)
        .unwrap();
    assert_eq!(v.len(), 12);
    // First output: mint creation, account creation, full-supply mint, revocation.
    assert_eq!(
        v[0],
        Instruction::CreateAccount {
            payer: initializer,
            new_account: addr(5),
            rent: 22,
            space: 82,
            owner: token_program_address(),
        }
    );
    assert_eq!(
        v[1],
        Instruction::InitializeMint {
            mint: addr(5),
            authority: initializer,
            freeze_authority: None,
            decimals: 0,
        }
    );
    assert_eq!(
        v[2],
        Instruction::CreateAccount {
            payer: initializer,
            new_account: addr(6),
            rent: 11,
            space: 165,
            owner: token_program_address(),
        }
    );
    assert_eq!(
        v[3],
        Instruction::InitializeAccount { account: addr(6), mint: addr(5), authority: initializer }
    );
    assert_eq!(
        v[4],
        Instruction::MintTo {
            mint: addr(5),
            destination: addr(6),
            authority: initializer,
            amount: 1000,
            decimals: 0,
        }
    );
    assert_eq!(
        v[5],
        Instruction::RevokeMintAuthority { mint: addr(5), authority: initializer }
    );
    // Second output's mint-to stands at 6*1+4 and its revocation right after.
    assert_eq!(
        v[10],
        Instruction::MintTo {
            mint: addr(7),
            destination: addr(8),
            authority: initializer,
            amount: 250,
            decimals: 0,
        }
    );
    assert_eq!(
        v[11],
        Instruction::RevokeMintAuthority { mint: addr(7), authority: initializer }
    );
}

#[test]
fn missing_supply_fails_without_instructions() {
    let initializer = addr(9);
    let args = InitializeArgs {
        inputs: vec![],
        outputs: vec![entry(5, 6), entry(7, 8)],
    };
    let supply = vec![SupplyEntry { asset: addr(5), amount: 1000 }];
    let r = InstructionType::create_trarnsform_output_accounts(&initializer, 11, 22, args, supply);
    assert_eq!(
        r,
        Err(TokenitisError::LookupFailure { asset: addr(7), phase: LookupPhase::OutputSupply })
    );
}

#[test]
fn extra_supply_keys_are_ignored() {
    let initializer = addr(9);
    let args = InitializeArgs { inputs: vec![], outputs: vec![entry(5, 6)] };
    let supply = vec![
        SupplyEntry { asset: addr(200), amount: 1 },
        SupplyEntry { asset: addr(5), amount: 42 },
    ];
    let v = InstructionType::create_trarnsform_output_accounts(&initializer, 11, 22, args, supply)
        .unwrap();
    assert_eq!(v.len(), 6);
    assert_eq!(
        v[4],
        Instruction::MintTo {
            mint: addr(5),
            destination: addr(6),
            authority: initializer,
            amount: 42,
            decimals: 0,
        }
    );
}

#[test]
fn creation_end_to_end() {
    // Definition with inputs {A: acctA}, outputs {B: acctB}, supply {B: 1000}.
    let initializer = addr(9);
    let transform = addr(40);
    let program_id = addr(50);
    let a = 1u8;
    let acct_a = 2u8;
    let b = 5u8;
    let acct_b = 6u8;
    let def = InitializeArgs { inputs: vec![entry(a, acct_a)], outputs: vec![entry(b, acct_b)] };
    let supply = vec![SupplyEntry { asset: addr(b), amount: 1000 }];

    let inputs =
        InstructionType::create_transform_input_accounts(&initializer, 77, def.clone()).unwrap();
    assert_eq!(inputs.len(), 2);
    let outputs = InstructionType::create_trarnsform_output_accounts(
        &initializer,
        77,
        88,
        def.clone(),
        supply,
    )
    .unwrap();
    assert_eq!(outputs.len(), 6);
    let creation = InstructionType::initialize_tokenitis(
        &initializer,
        &transform,
        &program_id,
        99,
        def.clone(),
    )
    .unwrap();
    assert_eq!(creation.len(), 2);
    assert_eq!(inputs.len() + outputs.len() + creation.len(), 10);

    assert_eq!(
        creation[0],
        Instruction::CreateAccount {
            payer: initializer,
            new_account: transform,
            rent: 99,
            space: 8 + 64 * 2,
            owner: program_id,
        }
    );
    match &creation[1] {
        Instruction::Transform { program_id: pid, accounts, payload } => {
            assert_eq!(*pid, program_id);
            assert_eq!(
                *accounts,
                vec![
                    meta(token_program_address(), false, false),
                    meta(transform, false, true),
                    meta(initializer, true, false),
                    meta(addr(acct_a), false, true),
                    meta(addr(acct_b), false, true),
                ]
            );
            assert_eq!(*payload, InstructionType::CreateTransform(def));
        }
        other => panic!("expected the transform-creation instruction, got {:?}", other),
    }
}

#[test]
fn execution_end_to_end() {
    // Same transform; caller supplies user_inputs {A: callerA} and
    // user_outputs {B: callerB}.
    let caller = addr(30);
    let transform = addr(40);
    let program_id = addr(50);
    let state = Tokenitis { inputs: vec![entry(1, 2)], outputs: vec![entry(5, 6)] };
    let args = ExecuteArgs {
        user_inputs: vec![entry(1, 21)],
        user_outputs: vec![entry(5, 22)],
    };
    let v = InstructionType::execute_tokenitis(&caller, &transform, &program_id, &state, args.clone())
        .unwrap();
    assert_eq!(v.len(), 1);
    match &v[0] {
        Instruction::Transform { program_id: pid, accounts, payload } => {
            assert_eq!(*pid, program_id);
            assert_eq!(accounts.len(), 4 + 2 * (1 + 1));
            let pda = solana_program::pubkey::Pubkey::find_program_address(
                &[authority_seed().as_slice()],
                &solana_program::pubkey::Pubkey::new_from_array(program_id.bytes),
            )
            .0;
            let authority = Address::new(pda.to_bytes());
            assert_ne!(authority.bytes, program_id.bytes);
            assert_eq!(
                *accounts,
                vec![
                    meta(token_program_address(), false, false),
                    meta(transform, false, false),
                    meta(authority, false, false),
                    meta(caller, true, false),
                    meta(addr(21), false, true),
                    meta(addr(2), false, true),
                    meta(addr(22), false, true),
                    meta(addr(6), false, true),
                ]
            );
            assert_eq!(*payload, InstructionType::ExecuteTransform(args));
        }
        other => panic!("expected the transform-execution instruction, got {:?}", other),
    }
}

#[test]
fn missing_caller_input_fails() {
    let state = Tokenitis { inputs: vec![entry(1, 2), entry(3, 4)], outputs: vec![entry(5, 6)] };
    let args = ExecuteArgs {
        user_inputs: vec![entry(1, 21)],
        user_outputs: vec![entry(5, 22)],
    };
    let r = InstructionType::execute_tokenitis(&addr(30), &addr(40), &addr(50), &state, args);
    assert_eq!(
        r,
        Err(TokenitisError::LookupFailure { asset: addr(3), phase: LookupPhase::CallerInput })
    );
}

#[test]
fn missing_caller_output_fails() {
    let state = Tokenitis { inputs: vec![entry(1, 2)], outputs: vec![entry(5, 6)] };
    let args = ExecuteArgs { user_inputs: vec![entry(1, 21)], user_outputs: vec![] };
    let r = InstructionType::execute_tokenitis(&addr(30), &addr(40), &addr(50), &state, args);
    assert_eq!(
        r,
        Err(TokenitisError::LookupFailure { asset: addr(5), phase: LookupPhase::CallerOutput })
    );
}

#[test]
fn first_missing_input_is_reported() {
    let state = Tokenitis { inputs: vec![entry(1, 2), entry(3, 4)], outputs: vec![] };
    let args = ExecuteArgs { user_inputs: vec![], user_outputs: vec![] };
    let r = InstructionType::execute_tokenitis(&addr(30), &addr(40), &addr(50), &state, args);
    assert_eq!(
        r,
        Err(TokenitisError::LookupFailure { asset: addr(1), phase: LookupPhase::CallerInput })
    );
}

#[test]
fn execution_order_follows_state_not_argument_order() {
    let state = Tokenitis { inputs: vec![entry(1, 2), entry(3, 4)], outputs: vec![entry(5, 6)] };
    let args_fwd = ExecuteArgs {
        user_inputs: vec![entry(1, 21), entry(3, 23)],
        user_outputs: vec![entry(5, 25)],
    };
    let args_rev = ExecuteArgs {
        user_inputs: vec![entry(3, 23), entry(1, 21)],
        user_outputs: vec![entry(5, 25)],
    };
    let v1 = InstructionType::execute_tokenitis(&addr(30), &addr(40), &addr(50), &state, args_fwd)
        .unwrap();
    let v2 = InstructionType::execute_tokenitis(&addr(30), &addr(40), &addr(50), &state, args_rev)
        .unwrap();
    match (&v1[0], &v2[0]) {
        (
            Instruction::Transform { accounts: a1, .. },
            Instruction::Transform { accounts: a2, .. },
        ) => {
            assert_eq!(a1, a2);
            assert_eq!(a1[4], meta(addr(21), false, true));
            assert_eq!(a1[5], meta(addr(23), false, true));
        }
        _ => panic!("expected transform-execution instructions"),
    }
}

#[test]
fn execution_builder_is_idempotent() {
    let state = Tokenitis { inputs: vec![entry(1, 2)], outputs: vec![entry(5, 6)] };
    let args = ExecuteArgs { user_inputs: vec![entry(1, 21)], user_outputs: vec![entry(5, 22)] };
    let v1 = InstructionType::execute_tokenitis(
        &addr(30),
        &addr(40),
        &addr(50),
        &state,
        args.clone(),
    );
    let v2 = InstructionType::execute_tokenitis(&addr(30), &addr(40), &addr(50), &state, args);
    assert_eq!(v1, v2);
}

#[test]
fn lookups_take_the_first_match() {
    let entries = vec![entry(1, 2), entry(1, 3)];
    assert_eq!(lookup_account(&entries, &addr(1)), Some(addr(2)));
    assert_eq!(lookup_account(&entries, &addr(4)), None);
    let supply = vec![
        SupplyEntry { asset: addr(1), amount: 10 },
        SupplyEntry { asset: addr(1), amount: 20 },
    ];
    assert_eq!(lookup_supply(&supply, &addr(1)), Some(10));
    assert_eq!(lookup_supply(&supply, &addr(2)), None);
}

#[test]
fn well_formedness_checks() {
    let good = InitializeArgs {
        inputs: vec![entry(1, 2), entry(3, 4)],
        outputs: vec![entry(5, 6)],
    };
    assert!(good.check_well_formed());
    let dup_key = InitializeArgs {
        inputs: vec![entry(1, 2), entry(1, 4)],
        outputs: vec![entry(5, 6)],
    };
    assert!(!dup_key.check_well_formed());
    let both_sides = InitializeArgs {
        inputs: vec![entry(1, 2)],
        outputs: vec![entry(1, 6)],
    };
    assert!(!both_sides.check_well_formed());
    let state = Tokenitis { inputs: vec![entry(1, 2)], outputs: vec![entry(5, 6)] };
    assert!(state.check_well_formed());
}

#[test]
fn mint_and_account_builders_emit_their_pairs() {
    let v = InstructionType::create_spl_token_mint(&addr(5), &addr(9), None, 0, 22).unwrap();
    assert_eq!(v.len(), 2);
    assert_eq!(
        v[0],
        Instruction::CreateAccount {
            payer: addr(9),
            new_account: addr(5),
            rent: 22,
            space: 82,
            owner: token_program_address(),
        }
    );
    let v = InstructionType::create_spl_token_account(&addr(5), &addr(6), &addr(9), 11).unwrap();
    assert_eq!(v.len(), 2);
    assert_eq!(
        v[1],
        Instruction::InitializeAccount { account: addr(6), mint: addr(5), authority: addr(9) }
    );
}
