use ai_nft_solana::error::{AiNftError, ProcessError};
use ai_nft_solana::instruction::AiNftInstruction;
use ai_nft_solana::ledger::{AccountMeta, AccountRef, Address, RawInstruction};
use ai_nft_solana::metaplex_token_mock;
use ai_nft_solana::processor::{process_instruction, Execution, Invocation};
use solana_program::program_error::ProgramError;
use solana_program::pubkey::Pubkey;
use std::collections::HashMap;

fn key(n: u8) -> Address {
    Address::new([n; 32])
}

fn address_of(pubkey: &Pubkey) -> Address {
    Address::new(pubkey.to_bytes())
}

fn pubkey_of(address: &Address) -> Pubkey {
    Pubkey::new_from_array(address.bytes)
}

fn account(key: Address, is_signer: bool, is_writable: bool) -> AccountRef {
    AccountRef { key, is_signer, is_writable }
}

fn program() -> Address {
    key(200)
}

/// Accounts of a valid `Initialize` or `Mint`, signed by `key(1)`.
fn asset_accounts() -> Vec<AccountRef> {
    vec![
        account(key(1), true, false),
        account(key(2), false, true),
        account(key(3), false, true),
        account(address_of(&solana_program::sysvar::rent::id()), false, false),
        account(address_of(&spl_token::id()), false, false),
        account(key(6), false, true),
        account(metaplex_token_mock::id(), false, false),
        account(address_of(&solana_program::system_program::id()), false, false),
    ]
}

/// Accounts of a valid `Transfer` from `source` to `destination`.
fn transfer_accounts(source: Address, destination: Address) -> Vec<AccountRef> {
    vec![
        account(key(1), true, false),
        account(source, false, true),
        account(destination, false, true),
        account(address_of(&spl_token::id()), false, false),
    ]
}

fn initialize_payload() -> Vec<u8> {
    AiNftInstruction::Initialize {
        name: "AI Art #1".to_string(),
        symbol: "AIA".to_string(),
        uri: "https://x/1.json".to_string(),
    }
    .encode()
    .unwrap()
}

fn mint_payload(token_id: &str, image_url: &str, metadata: &str) -> Vec<u8> {
    AiNftInstruction::Mint {
        token_id: token_id.to_string(),
        image_url: image_url.to_string(),
        metadata: metadata.to_string(),
    }
    .encode()
    .unwrap()
}

fn transfer_payload(amount: u64) -> Vec<u8> {
    AiNftInstruction::Transfer { amount }.encode().unwrap()
}

fn from_outside(ix: solana_program::instruction::Instruction) -> RawInstruction {
    RawInstruction {
        program_id: address_of(&ix.program_id),
        accounts: ix
            .accounts
            .iter()
            .map(|m| AccountMeta {
                pubkey: address_of(&m.pubkey),
                is_signer: m.is_signer,
                is_writable: m.is_writable,
            })
            .collect(),
        data: ix.data,
    }
}

/// All the calls of an execution, each answered with a success.
fn calls_of(mut execution: Execution) -> Vec<Invocation> {
    let mut calls = Vec::new();
    loop {
        let call = match execution.next_call() {
            Some(call) => call.clone(),
            None => break,
        };
        calls.push(call);
        execution.record(Ok(()));
    }
    assert!(execution.is_finished());
    calls
}

fn refusal(accounts: &[AccountRef], payload: &[u8]) -> ProcessError {
    match process_instruction(&program(), accounts, payload) {
        Ok(_) => panic!("the call was accepted"),
        Err(e) => e,
    }
}

/// What the sub-programs keep: the mints, holding accounts and metadata
/// records that exist, and the balances.
#[derive(Clone, Debug, Default, PartialEq)]
struct State {
    mints: Vec<[u8; 32]>,
    holdings: Vec<[u8; 32]>,
    records: Vec<[u8; 32]>,
    balances: HashMap<[u8; 32], u64>,
}

/// A ledger that carries out what the program asks of its sub-programs,
/// and undoes a call of the program that failed.
struct Ledger {
    state: State,
    calls: Vec<Invocation>,
    fail_at: Option<(usize, ProgramError)>,
}

impl Ledger {
    fn new() -> Ledger {
        Ledger { state: State::default(), calls: Vec::new(), fail_at: None }
    }

    fn balance(&self, account: &Address) -> u64 {
        *self.state.balances.get(&account.bytes).unwrap_or(&0)
    }

    fn token_call(&mut self, ix: &RawInstruction) -> Result<(), ProgramError> {
        let mut amount_bytes = [0u8; 8];
        match ix.data[0] {
            0 => {
                self.state.mints.push(ix.accounts[0].pubkey.bytes);
                Ok(())
            }
            7 => {
                amount_bytes.copy_from_slice(&ix.data[1..9]);
                let amount = u64::from_le_bytes(amount_bytes);
                *self.state.balances.entry(ix.accounts[1].pubkey.bytes).or_insert(0) += amount;
                Ok(())
            }
            3 => {
                amount_bytes.copy_from_slice(&ix.data[1..9]);
                let amount = u64::from_le_bytes(amount_bytes);
                let source = self.state.balances.entry(ix.accounts[0].pubkey.bytes).or_insert(0);
                if *source < amount {
                    return Err(ProgramError::InsufficientFunds);
                }
                *source -= amount;
                *self.state.balances.entry(ix.accounts[1].pubkey.bytes).or_insert(0) += amount;
                Ok(())
            }
            _ => Err(ProgramError::InvalidInstructionData),
        }
    }

    fn invoke(&mut self, call: &Invocation) -> Result<(), ProgramError> {
        let nth = self.calls.len();
        self.calls.push(call.clone());
        if let Some((at, error)) = &self.fail_at {
            if *at == nth {
                return Err(error.clone());
            }
        }
        let ix = &call.instruction;
        let target = pubkey_of(&ix.program_id);
        if target == spl_token::id() {
            self.token_call(ix)
        } else if target == spl_associated_token_account::id() {
            self.state.holdings.push(ix.accounts[1].pubkey.bytes);
            Ok(())
        } else if ix.program_id == metaplex_token_mock::id() {
            self.state.records.push(ix.accounts[0].pubkey.bytes);
            Ok(())
        } else {
            Err(ProgramError::IncorrectProgramId)
        }
    }

    /// Runs one call of the program to its end. What a failed call has
    /// changed is put back, as the ledger does.
    fn run(&mut self, accounts: &[AccountRef], payload: &[u8]) -> Result<Vec<String>, ProcessError> {
        let before = self.state.clone();
        let mut execution = process_instruction(&program(), accounts, payload)?;
        loop {
            let call = match execution.next_call() {
                Some(call) => call.clone(),
                None => break,
            };
            let result = self.invoke(&call);
            execution.record(result);
        }
        let outcome = execution.finish().unwrap();
        if outcome.is_err() {
            self.state = before;
        }
        outcome
    }
}

#[test]
fn payload_that_is_no_instruction_is_refused() {
    let expected = ProcessError::Custom(AiNftError::InvalidInstruction.code());
    assert_eq!(refusal(&asset_accounts(), &[]), expected);
    assert_eq!(refusal(&asset_accounts(), &[9]), expected);
    assert_eq!(refusal(&asset_accounts(), &[0, 5, 0, 0, 0, b'a']), expected);
    assert_eq!(refusal(&[], &[2, 1]), expected);
    assert_eq!(expected, ProcessError::Custom(0));
    assert_eq!(ProcessError::from(AiNftError::InvalidInstruction), expected);
}

#[test]
fn program_errors_become_custom_codes() {
    assert_eq!(ProcessError::from(AiNftError::InvalidInstruction), ProcessError::Custom(0));
    assert_eq!(ProcessError::from(AiNftError::NotOwner), ProcessError::Custom(1));
    assert_eq!(ProcessError::from(AiNftError::TokenIdExists), ProcessError::Custom(2));
}

#[test]
fn initialize_without_signature_is_refused() {
    let mut accounts = asset_accounts();
    assert!(process_instruction(&program(), &accounts, &initialize_payload()).is_ok());
    accounts[0].is_signer = false;
    assert_eq!(
        refusal(&accounts, &initialize_payload()),
        ProcessError::MissingRequiredSignature
    );
}

#[test]
fn mint_without_signature_is_refused() {
    let mut accounts = asset_accounts();
    let payload = mint_payload("1", "https://x/1.png", "{seed:42}");
    assert!(process_instruction(&program(), &accounts, &payload).is_ok());
    accounts[0].is_signer = false;
    assert_eq!(refusal(&accounts, &payload), ProcessError::MissingRequiredSignature);
}

#[test]
fn transfer_without_signature_is_refused() {
    let mut accounts = transfer_accounts(key(3), key(4));
    assert!(process_instruction(&program(), &accounts, &transfer_payload(1)).is_ok());
    accounts[0].is_signer = false;
    assert_eq!(
        refusal(&accounts, &transfer_payload(1)),
        ProcessError::MissingRequiredSignature
    );
}

#[test]
fn refused_call_reaches_no_sub_program() {
    let mut ledger = Ledger::new();
    let mut accounts = asset_accounts();
    accounts[0].is_signer = false;
    assert_eq!(
        ledger.run(&accounts, &initialize_payload()),
        Err(ProcessError::MissingRequiredSignature)
    );
    assert_eq!(
        ledger.run(&accounts, &mint_payload("1", "u", "m")),
        Err(ProcessError::MissingRequiredSignature)
    );
    let mut accounts = transfer_accounts(key(3), key(4));
    accounts[0].is_signer = false;
    assert_eq!(
        ledger.run(&accounts, &transfer_payload(1)),
        Err(ProcessError::MissingRequiredSignature)
    );
    assert!(ledger.calls.is_empty());
}

#[test]
fn list_of_another_length_is_malformed() {
    let accounts = asset_accounts();
    assert_eq!(refusal(&accounts[..7], &initialize_payload()), ProcessError::MalformedAccountList);
    assert_eq!(refusal(&[], &initialize_payload()), ProcessError::MalformedAccountList);
    assert_eq!(
        refusal(&accounts[..4], &mint_payload("1", "u", "m")),
        ProcessError::MalformedAccountList
    );
    let mut longer = accounts.clone();
    longer.push(account(key(9), false, false));
    assert_eq!(refusal(&longer, &initialize_payload()), ProcessError::MalformedAccountList);
    let accounts = transfer_accounts(key(3), key(4));
    assert_eq!(refusal(&accounts[..3], &transfer_payload(1)), ProcessError::MalformedAccountList);
    assert_eq!(refusal(&asset_accounts(), &transfer_payload(1)), ProcessError::MalformedAccountList);
}

#[test]
fn length_is_looked_at_before_the_signature() {
    let mut accounts = transfer_accounts(key(3), key(4));
    accounts[0].is_signer = false;
    assert_eq!(refusal(&accounts[..3], &transfer_payload(1)), ProcessError::MalformedAccountList);
}

#[test]
fn account_that_cannot_be_written_is_malformed() {
    for slot in [1usize, 2, 5] {
        let mut accounts = asset_accounts();
        accounts[slot].is_writable = false;
        assert_eq!(refusal(&accounts, &initialize_payload()), ProcessError::MalformedAccountList);
        assert_eq!(
            refusal(&accounts, &mint_payload("1", "u", "m")),
            ProcessError::MalformedAccountList
        );
    }
    for slot in [1usize, 2] {
        let mut accounts = transfer_accounts(key(3), key(4));
        accounts[slot].is_writable = false;
        assert_eq!(refusal(&accounts, &transfer_payload(1)), ProcessError::MalformedAccountList);
    }
}

#[test]
fn signature_is_looked_at_before_the_right_to_write() {
    let mut accounts = transfer_accounts(key(3), key(4));
    accounts[0].is_signer = false;
    accounts[1].is_writable = false;
    assert_eq!(
        refusal(&accounts, &transfer_payload(1)),
        ProcessError::MissingRequiredSignature
    );
}

#[test]
fn another_token_program_is_refused() {
    let mut accounts = asset_accounts();
    accounts[4].key = key(44);
    assert_eq!(refusal(&accounts, &initialize_payload()), ProcessError::IncorrectProgramId);
    assert_eq!(refusal(&accounts, &mint_payload("1", "u", "m")), ProcessError::IncorrectProgramId);
    let mut accounts = transfer_accounts(key(3), key(4));
    accounts[3].key = key(44);
    assert_eq!(refusal(&accounts, &transfer_payload(1)), ProcessError::IncorrectProgramId);
}

#[test]
fn initialize_creates_mint_then_holding_account_then_metadata() {
    let accounts = asset_accounts();
    let execution = process_instruction(&program(), &accounts, &initialize_payload()).unwrap();
    let calls = calls_of(execution);
    assert_eq!(calls.len(), 3);

    let initializer = pubkey_of(&key(1));
    let mint = pubkey_of(&key(2));
    let create_mint = spl_token::instruction::initialize_mint(
        &spl_token::id(),
        &mint,
        &initializer,
        Some(&initializer),
        0,
    )
    .unwrap();
    assert_eq!(calls[0].instruction, from_outside(create_mint));
    assert_eq!(calls[0].accounts, vec![1, 0, 3, 4]);

    let create_holding = spl_associated_token_account::instruction::create_associated_token_account(
        &initializer,
        &initializer,
        &mint,
        &spl_token::id(),
    );
    assert_eq!(calls[1].instruction, from_outside(create_holding));
    assert_eq!(calls[1].accounts, vec![0, 2, 0, 1, 7, 4, 3]);

    let create_metadata = metaplex_token_mock::create_metadata_accounts(
        &metaplex_token_mock::id(),
        &key(6),
        &key(2),
        &key(1),
        &key(1),
        &key(1),
        "AI Art #1".to_string(),
        "AIA".to_string(),
        "https://x/1.json".to_string(),
    );
    assert_eq!(calls[2].instruction, create_metadata);
    assert_eq!(calls[2].accounts, vec![5, 1, 0, 0, 0, 7, 3, 6]);
}

#[test]
fn initialize_mint_call_has_the_bytes_of_the_token_program() {
    let accounts = asset_accounts();
    let execution = process_instruction(&program(), &accounts, &initialize_payload()).unwrap();
    let calls = calls_of(execution);
    let ix = &calls[0].instruction;
    assert_eq!(ix.program_id, address_of(&spl_token::id()));
    let mut data = vec![0u8, 0];
    data.extend([1u8; 32]);
    data.push(1);
    data.extend([1u8; 32]);
    assert_eq!(ix.data, data);
    assert_eq!(
        ix.accounts,
        vec![
            AccountMeta::new(key(2), false),
            AccountMeta::new_readonly(address_of(&solana_program::sysvar::rent::id()), false),
        ]
    );
}

#[test]
fn holding_account_call_names_the_derived_address() {
    let accounts = asset_accounts();
    let execution = process_instruction(&program(), &accounts, &initialize_payload()).unwrap();
    let calls = calls_of(execution);
    let ix = &calls[1].instruction;
    let derived = spl_associated_token_account::get_associated_token_address(
        &pubkey_of(&key(1)),
        &pubkey_of(&key(2)),
    );
    assert_eq!(ix.program_id, address_of(&spl_associated_token_account::id()));
    assert_eq!(
        ix.accounts,
        vec![
            AccountMeta::new(key(1), true),
            AccountMeta::new(address_of(&derived), false),
            AccountMeta::new_readonly(key(1), false),
            AccountMeta::new_readonly(key(2), false),
            AccountMeta::new_readonly(address_of(&solana_program::system_program::id()), false),
            AccountMeta::new_readonly(address_of(&spl_token::id()), false),
        ]
    );
    assert_eq!(ix.data, vec![0]);
    assert_ne!(address_of(&derived), key(1));
}

#[test]
fn mint_asks_for_exactly_one_unit() {
    let texts = [
        ("1", "https://x/1.png", "{seed:42}"),
        ("", "", ""),
        ("1000000", "u", "amount=5"),
        ("\u{e9}", "\u{1f600}", "\u{4e2d}"),
    ];
    for (token_id, image_url, metadata) in texts {
        let payload = mint_payload(token_id, image_url, metadata);
        let execution = process_instruction(&program(), &asset_accounts(), &payload).unwrap();
        let calls = calls_of(execution);
        assert_eq!(calls.len(), 1);
        let ix = &calls[0].instruction;
        assert_eq!(ix.program_id, address_of(&spl_token::id()));
        assert_eq!(ix.data, vec![7, 1, 0, 0, 0, 0, 0, 0, 0]);
        assert_eq!(
            ix.accounts,
            vec![
                AccountMeta::new(key(2), false),
                AccountMeta::new(key(3), false),
                AccountMeta::new_readonly(key(1), false),
                AccountMeta::new_readonly(key(1), true),
            ]
        );
        assert_eq!(calls[0].accounts, vec![1, 2, 0, 4]);
        let minter = pubkey_of(&key(1));
        let expected = spl_token::instruction::mint_to(
            &spl_token::id(),
            &pubkey_of(&key(2)),
            &pubkey_of(&key(3)),
            &minter,
            &[&minter],
            1,
        )
        .unwrap();
        assert_eq!(*ix, from_outside(expected));
    }
}

#[test]
fn mint_reports_its_texts_as_they_came() {
    let mut ledger = Ledger::new();
    let payload = mint_payload("1", "https://x/1.png", "{seed:42}");
    let lines = ledger.run(&asset_accounts(), &payload).unwrap();
    assert_eq!(
        lines,
        vec![
            "NFT minted successfully: 1".to_string(),
            "Image URL: https://x/1.png".to_string(),
            "Metadata: {seed:42}".to_string(),
        ]
    );
}

#[test]
fn initialize_and_transfer_report_one_line() {
    let mut ledger = Ledger::new();
    let lines = ledger.run(&asset_accounts(), &initialize_payload()).unwrap();
    assert_eq!(lines, vec!["NFT initialized successfully".to_string()]);
    let lines = ledger.run(&transfer_accounts(key(3), key(4)), &transfer_payload(0)).unwrap();
    assert_eq!(lines, vec!["NFT transferred successfully".to_string()]);
}

#[test]
fn transfer_passes_the_amount_on() {
    for amount in [0u64, 1, 2, 0x0102_0304_0506_0708, u64::MAX] {
        let accounts = transfer_accounts(key(3), key(4));
        let execution =
            process_instruction(&program(), &accounts, &transfer_payload(amount)).unwrap();
        let calls = calls_of(execution);
        assert_eq!(calls.len(), 1);
        let ix = &calls[0].instruction;
        let mut data = vec![3u8];
        data.extend(amount.to_le_bytes());
        assert_eq!(ix.data, data);
        assert_eq!(
            ix.accounts,
            vec![
                AccountMeta::new(key(3), false),
                AccountMeta::new(key(4), false),
                AccountMeta::new_readonly(key(1), false),
                AccountMeta::new_readonly(key(1), true),
            ]
        );
        assert_eq!(calls[0].accounts, vec![1, 2, 0, 3]);
        let owner = pubkey_of(&key(1));
        let expected = spl_token::instruction::transfer(
            &spl_token::id(),
            &pubkey_of(&key(3)),
            &pubkey_of(&key(4)),
            &owner,
            &[&owner],
            amount,
        )
        .unwrap();
        assert_eq!(*ix, from_outside(expected));
    }
}

#[test]
fn failure_of_the_second_call_ends_initialize() {
    let mut ledger = Ledger::new();
    ledger.fail_at = Some((1, ProgramError::InsufficientFunds));
    let outcome = ledger.run(&asset_accounts(), &initialize_payload());
    assert_eq!(outcome, Err(ProcessError::Invocation(ProgramError::InsufficientFunds)));
    assert_eq!(ledger.calls.len(), 2);
    assert_eq!(ledger.calls[0].instruction.program_id, address_of(&spl_token::id()));
    assert_eq!(
        ledger.calls[1].instruction.program_id,
        address_of(&spl_associated_token_account::id())
    );
    assert_eq!(ledger.state, State::default());
}

#[test]
fn initialize_that_succeeds_leaves_its_three_effects() {
    let mut ledger = Ledger::new();
    assert!(ledger.run(&asset_accounts(), &initialize_payload()).is_ok());
    let holding = spl_associated_token_account::get_associated_token_address(
        &pubkey_of(&key(1)),
        &pubkey_of(&key(2)),
    );
    assert_eq!(ledger.state.mints, vec![[2u8; 32]]);
    assert_eq!(ledger.state.holdings, vec![holding.to_bytes()]);
    assert_eq!(ledger.state.records, vec![[6u8; 32]]);
}

#[test]
fn failure_of_any_call_of_initialize_leaves_nothing() {
    for at in 0..3 {
        let mut ledger = Ledger::new();
        ledger.fail_at = Some((at, ProgramError::Custom(9)));
        let outcome = ledger.run(&asset_accounts(), &initialize_payload());
        assert_eq!(outcome, Err(ProcessError::Invocation(ProgramError::Custom(9))));
        assert_eq!(ledger.calls.len(), at + 1);
        assert_eq!(ledger.state, State::default());
    }
}

#[test]
fn failure_is_passed_on_as_it_came() {
    for error in [
        ProgramError::Custom(0),
        ProgramError::Custom(77),
        ProgramError::InvalidAccountData,
        ProgramError::BorshIoError("short".to_string()),
    ] {
        let mut ledger = Ledger::new();
        ledger.fail_at = Some((0, error.clone()));
        let outcome = ledger.run(&transfer_accounts(key(3), key(4)), &transfer_payload(1));
        assert_eq!(outcome, Err(ProcessError::Invocation(error)));
        assert_eq!(ledger.calls.len(), 1);
    }
}

#[test]
fn ended_execution_takes_no_more_results() {
    let mut execution =
        process_instruction(&program(), &asset_accounts(), &initialize_payload()).unwrap();
    assert!(!execution.is_finished());
    execution.record(Ok(()));
    execution.record(Err(ProgramError::InvalidArgument));
    assert!(execution.is_finished());
    assert!(execution.next_call().is_none());
    execution.record(Ok(()));
    execution.record(Err(ProgramError::InsufficientFunds));
    assert!(execution.next_call().is_none());
    assert_eq!(
        execution.finish(),
        Some(Err(ProcessError::Invocation(ProgramError::InvalidArgument)))
    );
}

#[test]
fn execution_has_no_outcome_while_a_call_is_pending() {
    let mut execution =
        process_instruction(&program(), &asset_accounts(), &initialize_payload()).unwrap();
    execution.record(Ok(()));
    execution.record(Ok(()));
    assert!(execution.next_call().is_some());
    assert_eq!(execution.finish(), None);
}

#[test]
fn execution_commits_after_its_last_call() {
    let mut execution =
        process_instruction(&program(), &asset_accounts(), &initialize_payload()).unwrap();
    for _ in 0..3 {
        assert!(execution.next_call().is_some());
        execution.record(Ok(()));
    }
    assert!(execution.is_finished());
    execution.record(Err(ProgramError::InvalidArgument));
    assert_eq!(execution.finish(), Some(Ok(vec!["NFT initialized successfully".to_string()])));
}

#[test]
fn initialize_then_mint_then_transfer() {
    let mut ledger = Ledger::new();
    let initializer = key(1);
    let mint = key(2);
    let holding = address_of(&spl_associated_token_account::get_associated_token_address(
        &pubkey_of(&initializer),
        &pubkey_of(&mint),
    ));
    let fresh = key(50);
    let mut accounts = asset_accounts();
    accounts[2].key = holding;

    let payload = AiNftInstruction::Initialize {
        name: "AI Art #1".to_string(),
        symbol: "AIA".to_string(),
        uri: "https://x/1.json".to_string(),
    }
    .encode()
    .unwrap();
    assert!(ledger.run(&accounts, &payload).is_ok());
    assert_eq!(ledger.calls.len(), 3);
    assert_eq!(ledger.calls[1].instruction.accounts[1].pubkey, holding);

    let payload = mint_payload("1", "https://x/1.png", "{seed:42}");
    assert!(ledger.run(&accounts, &payload).is_ok());
    assert_eq!(ledger.balance(&holding), 1);

    assert!(ledger.run(&transfer_accounts(holding, fresh), &transfer_payload(1)).is_ok());
    assert_eq!(ledger.calls.len(), 5);
    assert_eq!(ledger.balance(&fresh), 1);
    assert_eq!(ledger.balance(&holding), 0);
}

#[test]
fn failed_transfer_leaves_the_balances() {
    let mut ledger = Ledger::new();
    let payload = mint_payload("1", "u", "m");
    assert!(ledger.run(&asset_accounts(), &payload).is_ok());
    let outcome = ledger.run(&transfer_accounts(key(3), key(4)), &transfer_payload(2));
    assert_eq!(outcome, Err(ProcessError::Invocation(ProgramError::InsufficientFunds)));
    assert_eq!(ledger.balance(&key(3)), 1);
    assert_eq!(ledger.balance(&key(4)), 0);
}

#[test]
fn entry_of_the_crate_is_the_processor() {
    let accounts = transfer_accounts(key(3), key(4));
    let execution =
        ai_nft_solana::process_instruction(&program(), &accounts, &transfer_payload(5)).unwrap();
    let calls = calls_of(execution);
    assert_eq!(calls.len(), 1);
    assert_eq!(calls[0].instruction.data, vec![3, 5, 0, 0, 0, 0, 0, 0, 0]);
    let mut unsigned = accounts.clone();
    unsigned[0].is_signer = false;
    assert_eq!(
        ai_nft_solana::process_instruction(&program(), &unsigned, &transfer_payload(5)).err(),
        Some(ProcessError::MissingRequiredSignature)
    );
}
