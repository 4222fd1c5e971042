//! Processing of one instruction: the payload is decoded, the accounts are
//! bound to their roles and checked, and the calls into the sub-programs are
//! laid out in their order. The program cannot make those calls from here;
//! an [`Execution`] hands them out one at a time, takes each result back,
//! and stops for good at the first failure.

use crate::endian::spec_u64_le;
use crate::error::{AiNftError, ProcessError};
use crate::instruction::{
    lemma_decode_encode, spec_asset_accounts, spec_transfer_accounts, AiNftInstruction, Operation,
};
use crate::ledger::{
    AccountMetaView, AccountRef, Address, RawInstruction, RawInstructionView,
};
use crate::metaplex_token_mock::{create_metadata_accounts, spec_create_metadata_accounts};
use crate::token::{
    associated_token_address, create_associated_token_account, find_associated_token_address,
    initialize_mint, mint_to, spec_create_associated_token_account, spec_initialize_mint,
    spec_mint_to, spec_transfer, token_program_id, token_program_key, transfer,
};
use crate::validator::{
    bind, lemma_first_violation_skips, slot_violation, spec_bind, Role, RoleName,
};
use solana_program::program_error::ProgramError;
use vstd::prelude::*;
use vstd::string::StringExecFns;

verus! {

/// One call into a sub-program: the instruction, and the slots of the
/// caller's account list whose accounts go with it, in order.
#[derive(Clone, Debug, PartialEq, Eq)]
pub struct Invocation {
    pub instruction: RawInstruction,
    pub accounts: Vec<usize>,
}

/// Mathematical value of an [`Invocation`].
pub struct InvocationView {
    pub instruction: RawInstructionView,
    pub accounts: Seq<usize>,
}

impl View for Invocation {
    type V = InvocationView;

    open spec fn view(&self) -> InvocationView {
        InvocationView { instruction: self.instruction@, accounts: self.accounts@ }
    }
}

/// What an operation comes to once its accounts are in order: the calls to
/// make, in their order, and the lines to report when all of them succeeded.
pub struct PlanView {
    pub calls: Seq<InvocationView>,
    pub trace: Seq<Seq<char>>,
}

/// The views of a list of calls.
pub open spec fn call_views(calls: Seq<Invocation>) -> Seq<InvocationView> {
    Seq::new(calls.len(), |i: int| calls[i]@)
}

/// The views of a list of texts.
pub open spec fn text_views(texts: Seq<String>) -> Seq<Seq<char>> {
    Seq::new(texts.len(), |i: int| texts[i]@)
}

/// The roles of the accounts of `Initialize`, in the order of the list.
pub open spec fn spec_initialize_roles() -> Seq<Role> {
    seq![
        Role { name: RoleName::Initializer, signer: true, writable: false, identity: None },
        Role { name: RoleName::Mint, signer: false, writable: true, identity: None },
        Role { name: RoleName::HoldingAccount, signer: false, writable: true, identity: None },
        Role { name: RoleName::RentParameters, signer: false, writable: false, identity: None },
        Role { name: RoleName::TokenProgram, signer: false, writable: false, identity: None },
        Role { name: RoleName::MetadataAccount, signer: false, writable: true, identity: None },
        Role { name: RoleName::MetadataProgram, signer: false, writable: false, identity: None },
        Role { name: RoleName::SystemProgram, signer: false, writable: false, identity: None },
    ]
}

/// The roles of the accounts of `Mint`, in the order of the list.
pub open spec fn spec_mint_roles() -> Seq<Role> {
    seq![
        Role { name: RoleName::Minter, signer: true, writable: false, identity: None },
        Role { name: RoleName::Mint, signer: false, writable: true, identity: None },
        Role { name: RoleName::HoldingAccount, signer: false, writable: true, identity: None },
        Role { name: RoleName::RentParameters, signer: false, writable: false, identity: None },
        Role { name: RoleName::TokenProgram, signer: false, writable: false, identity: None },
        Role { name: RoleName::MetadataAccount, signer: false, writable: true, identity: None },
        Role { name: RoleName::MetadataProgram, signer: false, writable: false, identity: None },
        Role { name: RoleName::SystemProgram, signer: false, writable: false, identity: None },
    ]
}

/// The roles of the accounts of `Transfer`, in the order of the list.
pub open spec fn spec_transfer_roles() -> Seq<Role> {
    seq![
        Role { name: RoleName::Owner, signer: true, writable: false, identity: None },
        Role { name: RoleName::SourceAccount, signer: false, writable: true, identity: None },
        Role { name: RoleName::DestinationAccount, signer: false, writable: true, identity: None },
        Role { name: RoleName::TokenProgram, signer: false, writable: false, identity: None },
    ]
}

/// The roles of the accounts of `Initialize`.
pub fn initialize_roles() -> (roles: Vec<Role>)
    ensures
        roles@ == spec_initialize_roles(),
{
    let roles = vec![
        Role::signer(RoleName::Initializer),
        Role::writable(RoleName::Mint),
        Role::writable(RoleName::HoldingAccount),
        Role::readonly(RoleName::RentParameters),
        Role::readonly(RoleName::TokenProgram),
        Role::writable(RoleName::MetadataAccount),
        Role::readonly(RoleName::MetadataProgram),
        Role::readonly(RoleName::SystemProgram),
    ];
    assert(roles@ =~= spec_initialize_roles());
    roles
}

/// The roles of the accounts of `Mint`.
pub fn mint_roles() -> (roles: Vec<Role>)
    ensures
        roles@ == spec_mint_roles(),
{
    let roles = vec![
        Role::signer(RoleName::Minter),
        Role::writable(RoleName::Mint),
        Role::writable(RoleName::HoldingAccount),
        Role::readonly(RoleName::RentParameters),
        Role::readonly(RoleName::TokenProgram),
        Role::writable(RoleName::MetadataAccount),
        Role::readonly(RoleName::MetadataProgram),
        Role::readonly(RoleName::SystemProgram),
    ];
    assert(roles@ =~= spec_mint_roles());
    roles
}

/// The roles of the accounts of `Transfer`.
pub fn transfer_roles() -> (roles: Vec<Role>)
    ensures
        roles@ == spec_transfer_roles(),
{
    let roles = vec![
        Role::signer(RoleName::Owner),
        Role::writable(RoleName::SourceAccount),
        Role::writable(RoleName::DestinationAccount),
        Role::readonly(RoleName::TokenProgram),
    ];
    assert(roles@ =~= spec_transfer_roles());
    roles
}

/// What `Initialize` comes to. The accounts are bound first. Then the mint
/// is created without decimals, with the initializer as its authority and
/// as the one who may freeze it; the initializer's holding account for the
/// mint is created; and the metadata record of the mint is created, paid
/// for and governed by the initializer.
pub open spec fn spec_process_initialize(accounts: Seq<AccountRef>) -> Result<
    PlanView,
    ProcessError,
> {
    match spec_bind(accounts, spec_initialize_roles()) {
        Err(e) => Err(e),
        Ok(_) => {
            let initializer = accounts[0].key@;
            let mint = accounts[1].key@;
            match spec_initialize_mint(accounts[4].key@, mint, initializer, Some(initializer), 0) {
                None => Err(ProcessError::IncorrectProgramId),
                Some(create_mint) => if associated_token_address(
                    initializer,
                    token_program_key(),
                    mint,
                ) is None {
                    Err(ProcessError::NoHoldingAddress)
                } else {
                    Ok(
                        PlanView {
                            calls: seq![
                                InvocationView {
                                    instruction: create_mint,
                                    accounts: seq![1usize, 0usize, 3usize, 4usize],
                                },
                                InvocationView {
                                    instruction: spec_create_associated_token_account(
                                        initializer,
                                        initializer,
                                        mint,
                                        token_program_key(),
                                    ),
                                    accounts: seq![
                                        0usize,
                                        2usize,
                                        0usize,
                                        1usize,
                                        7usize,
                                        4usize,
                                        3usize,
                                    ],
                                },
                                InvocationView {
                                    instruction: spec_create_metadata_accounts(
                                        accounts[6].key@,
                                        accounts[5].key@,
                                        mint,
                                        initializer,
                                        initializer,
                                        initializer,
                                    ),
                                    accounts: seq![
                                        5usize,
                                        1usize,
                                        0usize,
                                        0usize,
                                        0usize,
                                        7usize,
                                        3usize,
                                        6usize,
                                    ],
                                },
                            ],
                            trace: seq!["NFT initialized successfully"@],
                        },
                    )
                },
            }
        },
    }
}

/// What `Mint` comes to. The accounts are bound first. Then one unit of the
/// mint, never more, is issued to the holding account on the minter's
/// authority, and the three texts are reported as they came.
pub open spec fn spec_process_mint(
    accounts: Seq<AccountRef>,
    token_id: Seq<char>,
    image_url: Seq<char>,
    metadata: Seq<char>,
) -> Result<PlanView, ProcessError> {
    match spec_bind(accounts, spec_mint_roles()) {
        Err(e) => Err(e),
        Ok(_) => {
            let minter = accounts[0].key@;
            match spec_mint_to(accounts[4].key@, accounts[1].key@, accounts[2].key@, minter, minter, 1)
            {
                None => Err(ProcessError::IncorrectProgramId),
                Some(issue) => Ok(
                    PlanView {
                        calls: seq![
                            InvocationView {
                                instruction: issue,
                                accounts: seq![1usize, 2usize, 0usize, 4usize],
                            },
                        ],
                        trace: seq![
                            "NFT minted successfully: "@ + token_id,
                            "Image URL: "@ + image_url,
                            "Metadata: "@ + metadata,
                        ],
                    },
                ),
            }
        },
    }
}

/// What `Transfer` comes to. The accounts are bound first. Then `amount`
/// units are moved from the source to the destination on the owner's
/// authority; the amount is passed on as it came.
pub open spec fn spec_process_transfer(accounts: Seq<AccountRef>, amount: u64) -> Result<
    PlanView,
    ProcessError,
> {
    match spec_bind(accounts, spec_transfer_roles()) {
        Err(e) => Err(e),
        Ok(_) => {
            let owner = accounts[0].key@;
            match spec_transfer(
                accounts[3].key@,
                accounts[1].key@,
                accounts[2].key@,
                owner,
                owner,
                amount,
            ) {
                None => Err(ProcessError::IncorrectProgramId),
                Some(movement) => Ok(
                    PlanView {
                        calls: seq![
                            InvocationView {
                                instruction: movement,
                                accounts: seq![1usize, 2usize, 0usize, 3usize],
                            },
                        ],
                        trace: seq!["NFT transferred successfully"@],
                    },
                ),
            }
        },
    }
}

/// What a call of the program comes to: a payload that is no instruction is
/// an `InvalidInstruction`, whatever the accounts; else the operation that
/// the payload names decides.
pub open spec fn spec_process(accounts: Seq<AccountRef>, data: Seq<u8>) -> Result<
    PlanView,
    ProcessError,
> {
    match Operation::decode(data) {
        None => Err(ProcessError::Custom(AiNftError::InvalidInstruction.spec_code())),
        Some(Operation::Initialize { name, symbol, uri }) => spec_process_initialize(accounts),
        Some(Operation::Mint { token_id, image_url, metadata }) => spec_process_mint(
            accounts,
            token_id,
            image_url,
            metadata,
        ),
        Some(Operation::Transfer { amount }) => spec_process_transfer(accounts, amount),
    }
}

/// Mathematical value of an [`Execution`]: the plan, how many of its calls
/// have succeeded, and the failure that ended it, if one has.
pub struct ExecutionView {
    pub calls: Seq<InvocationView>,
    pub trace: Seq<Seq<char>>,
    pub done: nat,
    pub failure: Option<ProcessError>,
}

impl ExecutionView {
    /// The state before the first call of `plan`.
    pub open spec fn fresh(plan: PlanView) -> ExecutionView {
        ExecutionView { calls: plan.calls, trace: plan.trace, done: 0, failure: None }
    }

    /// The call to make next; none once a call has failed or all have
    /// succeeded.
    pub open spec fn pending(self) -> Option<InvocationView> {
        if self.failure is None && self.done < self.calls.len() {
            Some(self.calls[self.done as int])
        } else {
            None
        }
    }

    /// How the operation ended: with the failure of a call, or, after the
    /// last call, with the lines to report. `None` while a call is pending.
    pub open spec fn outcome(self) -> Option<Result<Seq<Seq<char>>, ProcessError>> {
        if self.failure is Some {
            Some(Err(self.failure->0))
        } else if self.done >= self.calls.len() {
            Some(Ok(self.trace))
        } else {
            None
        }
    }

    /// The state after the pending call has ended with `result`. A success
    /// moves on to the next call; a failure ends the operation and is kept
    /// as it came. Where no call is pending, nothing changes.
    pub open spec fn after(self, result: Result<(), ProgramError>) -> ExecutionView {
        if self.pending() is None {
            self
        } else {
            match result {
                Ok(_) => ExecutionView { done: self.done + 1, ..self },
                Err(e) => ExecutionView { failure: Some(ProcessError::Invocation(e)), ..self },
            }
        }
    }

    /// The state after a row of results, each for the call pending when it
    /// came.
    pub open spec fn after_all(self, results: Seq<Result<(), ProgramError>>) -> ExecutionView
        decreases results.len(),
    {
        if results.len() == 0 {
            self
        } else {
            self.after(results[0]).after_all(results.drop_first())
        }
    }
}

/// An operation under way. It is made by [`process_instruction`] and driven
/// by whoever can call the sub-programs: ask for the next call, make it,
/// hand back its result, until no call is pending.
#[derive(Debug)]
pub struct Execution {
    calls: Vec<Invocation>,
    trace: Vec<String>,
    done: usize,
    failure: Option<ProcessError>,
}

impl View for Execution {
    type V = ExecutionView;

    closed spec fn view(&self) -> ExecutionView {
        ExecutionView {
            calls: call_views(self.calls@),
            trace: text_views(self.trace@),
            done: self.done as nat,
            failure: self.failure,
        }
    }
}

impl Execution {
    /// The operation before its first call.
    fn new(calls: Vec<Invocation>, trace: Vec<String>) -> (e: Execution)
        ensures
            e@ == ExecutionView::fresh(
                PlanView { calls: call_views(calls@), trace: text_views(trace@) },
            ),
    {
        Execution { calls, trace, done: 0, failure: None }
    }

    /// The call to make next, if one is pending.
    pub fn next_call(&self) -> (r: Option<&Invocation>)
        ensures
            match r {
                Some(call) => self@.pending() == Some(call@),
                None => self@.pending() is None,
            },
    {
        if self.failure.is_none() && self.done < self.calls.len() {
            Some(&self.calls[self.done])
        } else {
            None
        }
    }

    /// Takes the result of the call that was pending.
    pub fn record(&mut self, result: Result<(), ProgramError>)
        ensures
            final(self)@ == old(self)@.after(result),
    {
        if self.failure.is_none() && self.done < self.calls.len() {
            match result {
                Ok(_) => {
                    self.done = self.done + 1;
                },
                Err(e) => {
                    self.failure = Some(ProcessError::Invocation(e));
                },
            }
        }
    }

    /// Whether the operation has ended.
    pub fn is_finished(&self) -> (r: bool)
        ensures
            r == self@.pending() is None,
    {
        !(self.failure.is_none() && self.done < self.calls.len())
    }

    /// How the operation ended: the lines to report after the last call, or
    /// the failure that ended it. `None` while a call is pending.
    pub fn finish(self) -> (r: Option<Result<Vec<String>, ProcessError>>)
        ensures
            match r {
                Some(Ok(lines)) => self@.outcome() == Some(
                    Ok::<Seq<Seq<char>>, ProcessError>(text_views(lines@)),
                ),
                Some(Err(e)) => self@.outcome() == Some(Err::<Seq<Seq<char>>, ProcessError>(e)),
                None => self@.outcome() is None,
            },
    {
        let Execution { calls, trace, done, failure } = self;
        match failure {
            Some(e) => Some(Err(e)),
            None => {
                if done >= calls.len() {
                    Some(Ok(trace))
                } else {
                    None
                }
            },
        }
    }
}

/// Lays out `Initialize` for the accounts of a call.
fn process_initialize(
    _program_id: &Address,
    accounts: &[AccountRef],
    name: String,
    symbol: String,
    uri: String,
) -> (r: Result<Execution, ProcessError>)
    ensures
        match r {
            Ok(execution) => spec_process_initialize(accounts@) matches Ok(plan) && execution@
                == ExecutionView::fresh(plan),
            Err(e) => spec_process_initialize(accounts@) matches Err(x) && x == e,
        },
{
    let roles = initialize_roles();
    let binding = match bind(accounts, roles.as_slice()) {
        Ok(binding) => binding,
        Err(e) => { return Err(e); },
    };
    assert(binding@[0].0 == RoleName::Initializer && binding@[1].0 == RoleName::Mint && binding@[2].0
        == RoleName::HoldingAccount && binding@[3].0 == RoleName::RentParameters && binding@[4].0
        == RoleName::TokenProgram && binding@[5].0 == RoleName::MetadataAccount && binding@[6].0
        == RoleName::MetadataProgram && binding@[7].0 == RoleName::SystemProgram);
    let (initializer_slot, initializer) = binding.get(RoleName::Initializer);
    let (mint_slot, mint_account) = binding.get(RoleName::Mint);
    let (holding_slot, _) = binding.get(RoleName::HoldingAccount);
    let (rent_slot, _) = binding.get(RoleName::RentParameters);
    let (token_program_slot, token_program) = binding.get(RoleName::TokenProgram);
    let (metadata_slot, metadata_account) = binding.get(RoleName::MetadataAccount);
    let (metadata_program_slot, metadata_program) = binding.get(RoleName::MetadataProgram);
    let (system_program_slot, _) = binding.get(RoleName::SystemProgram);

    let create_mint = match initialize_mint(
        &token_program.key,
        &mint_account.key,
        &initializer.key,
        Some(&initializer.key),
        0,
    ) {
        Ok(instruction) => instruction,
        Err(_) => { return Err(ProcessError::IncorrectProgramId); },
    };
    let token_ledger = token_program_id();
    if find_associated_token_address(&initializer.key, &token_ledger, &mint_account.key).is_none() {
        return Err(ProcessError::NoHoldingAddress);
    }
    let create_holding = create_associated_token_account(
        &initializer.key,
        &initializer.key,
        &mint_account.key,
        &token_ledger,
    );
    let create_metadata = create_metadata_accounts(
        &metadata_program.key,
        &metadata_account.key,
        &mint_account.key,
        &initializer.key,
        &initializer.key,
        &initializer.key,
        name,
        symbol,
        uri,
    );
    let calls = vec![
        Invocation {
            instruction: create_mint,
            accounts: vec![mint_slot, initializer_slot, rent_slot, token_program_slot],
        },
        Invocation {
            instruction: create_holding,
            accounts: vec![
                initializer_slot,
                holding_slot,
                initializer_slot,
                mint_slot,
                system_program_slot,
                token_program_slot,
                rent_slot,
            ],
        },
        Invocation {
            instruction: create_metadata,
            accounts: vec![
                metadata_slot,
                mint_slot,
                initializer_slot,
                initializer_slot,
                initializer_slot,
                system_program_slot,
                rent_slot,
                metadata_program_slot,
            ],
        },
    ];
    let trace = vec![String::from_str("NFT initialized successfully")];
    proof {
        let plan = spec_process_initialize(accounts@)->Ok_0;
        assert(call_views(calls@)[0].accounts =~= plan.calls[0].accounts);
        assert(call_views(calls@)[1].accounts =~= plan.calls[1].accounts);
        assert(call_views(calls@)[2].accounts =~= plan.calls[2].accounts);
        assert(call_views(calls@) =~= plan.calls);
        assert(text_views(trace@) =~= plan.trace);
    }
    Ok(Execution::new(calls, trace))
}

/// Lays out `Mint` for the accounts of a call.
fn process_mint(
    _program_id: &Address,
    accounts: &[AccountRef],
    token_id: String,
    image_url: String,
    metadata: String,
) -> (r: Result<Execution, ProcessError>)
    ensures
        match r {
            Ok(execution) => spec_process_mint(accounts@, token_id@, image_url@, metadata@) matches Ok(
                plan,
            ) && execution@ == ExecutionView::fresh(plan),
            Err(e) => spec_process_mint(accounts@, token_id@, image_url@, metadata@) matches Err(x)
                && x == e,
        },
{
    let roles = mint_roles();
    let binding = match bind(accounts, roles.as_slice()) {
        Ok(binding) => binding,
        Err(e) => { return Err(e); },
    };
    assert(binding@[0].0 == RoleName::Minter && binding@[1].0 == RoleName::Mint && binding@[2].0
        == RoleName::HoldingAccount && binding@[3].0 == RoleName::RentParameters && binding@[4].0
        == RoleName::TokenProgram);
    let (minter_slot, minter) = binding.get(RoleName::Minter);
    let (mint_slot, mint_account) = binding.get(RoleName::Mint);
    let (holding_slot, holding_account) = binding.get(RoleName::HoldingAccount);
    let (token_program_slot, token_program) = binding.get(RoleName::TokenProgram);

    let issue = match mint_to(
        &token_program.key,
        &mint_account.key,
        &holding_account.key,
        &minter.key,
        &minter.key,
        1,
    ) {
        Ok(instruction) => instruction,
        Err(_) => { return Err(ProcessError::IncorrectProgramId); },
    };
    let calls = vec![
        Invocation {
            instruction: issue,
            accounts: vec![mint_slot, holding_slot, minter_slot, token_program_slot],
        },
    ];
    let trace = vec![
        String::from_str("NFT minted successfully: ").concat(token_id.as_str()),
        String::from_str("Image URL: ").concat(image_url.as_str()),
        String::from_str("Metadata: ").concat(metadata.as_str()),
    ];
    proof {
        let plan = spec_process_mint(accounts@, token_id@, image_url@, metadata@)->Ok_0;
        assert(call_views(calls@)[0].accounts =~= plan.calls[0].accounts);
        assert(call_views(calls@) =~= plan.calls);
        assert(text_views(trace@) =~= plan.trace);
    }
    Ok(Execution::new(calls, trace))
}

/// Lays out `Transfer` for the accounts of a call.
fn process_transfer(_program_id: &Address, accounts: &[AccountRef], amount: u64) -> (r: Result<
    Execution,
    ProcessError,
>)
    ensures
        match r {
            Ok(execution) => spec_process_transfer(accounts@, amount) matches Ok(plan) && execution@
                == ExecutionView::fresh(plan),
            Err(e) => spec_process_transfer(accounts@, amount) matches Err(x) && x == e,
        },
{
    let roles = transfer_roles();
    let binding = match bind(accounts, roles.as_slice()) {
        Ok(binding) => binding,
        Err(e) => { return Err(e); },
    };
    assert(binding@[0].0 == RoleName::Owner && binding@[1].0 == RoleName::SourceAccount
        && binding@[2].0 == RoleName::DestinationAccount && binding@[3].0
        == RoleName::TokenProgram);
    let (owner_slot, owner) = binding.get(RoleName::Owner);
    let (source_slot, source) = binding.get(RoleName::SourceAccount);
    let (destination_slot, destination) = binding.get(RoleName::DestinationAccount);
    let (token_program_slot, token_program) = binding.get(RoleName::TokenProgram);

    let movement = match transfer(
        &token_program.key,
        &source.key,
        &destination.key,
        &owner.key,
        &owner.key,
        amount,
    ) {
        Ok(instruction) => instruction,
        Err(_) => { return Err(ProcessError::IncorrectProgramId); },
    };
    let calls = vec![
        Invocation {
            instruction: movement,
            accounts: vec![source_slot, destination_slot, owner_slot, token_program_slot],
        },
    ];
    let trace = vec![String::from_str("NFT transferred successfully")];
    proof {
        let plan = spec_process_transfer(accounts@, amount)->Ok_0;
        assert(call_views(calls@)[0].accounts =~= plan.calls[0].accounts);
        assert(call_views(calls@) =~= plan.calls);
        assert(text_views(trace@) =~= plan.trace);
    }
    Ok(Execution::new(calls, trace))
}

/// Takes one call of the program: decodes the payload, hands the accounts
/// to the operation it names, and gives the operation ready for its first
/// sub-call. A failure here ends the call before any sub-call is made.
pub fn process_instruction(
    program_id: &Address,
    accounts: &[AccountRef],
    instruction_data: &[u8],
) -> (r: Result<Execution, ProcessError>)
    ensures
        match r {
            Ok(execution) => spec_process(accounts@, instruction_data@) matches Ok(plan)
                && execution@ == ExecutionView::fresh(plan),
            Err(e) => spec_process(accounts@, instruction_data@) matches Err(x) && x == e,
        },
{
    let instruction = match AiNftInstruction::decode(instruction_data) {
        Ok(instruction) => instruction,
        Err(e) => { return Err(ProcessError::from(e)); },
    };
    match instruction {
        AiNftInstruction::Initialize { name, symbol, uri } => process_initialize(
            program_id,
            accounts,
            name,
            symbol,
            uri,
        ),
        AiNftInstruction::Mint { token_id, image_url, metadata } => process_mint(
            program_id,
            accounts,
            token_id,
            image_url,
            metadata,
        ),
        AiNftInstruction::Transfer { amount } => process_transfer(program_id, accounts, amount),
    }
}

/// The accounts of a call with the signature of the first one taken away.
pub open spec fn without_signature(accounts: Seq<AccountRef>) -> Seq<AccountRef> {
    accounts.update(0, AccountRef { is_signer: false, ..accounts[0] })
}

/// Signer enforcement: a call that would be accepted is refused for its
/// missing signature once the first account, which every operation asks to
/// sign, has not signed. A refused call has no execution, so no sub-program
/// is called for it.
pub proof fn lemma_unsigned_call_is_refused(accounts: Seq<AccountRef>, data: Seq<u8>)
    requires
        spec_process(accounts, data) is Ok,
    ensures
        spec_process(without_signature(accounts), data) == Err::<PlanView, ProcessError>(
            ProcessError::MissingRequiredSignature,
        ),
{
    let unsigned = without_signature(accounts);
    match Operation::decode(data)->0 {
        Operation::Initialize { name, symbol, uri } => {
            assert(unsigned.len() == spec_initialize_roles().len());
            assert(spec_initialize_roles()[0].signer);
        },
        Operation::Mint { token_id, image_url, metadata } => {
            assert(unsigned.len() == spec_mint_roles().len());
            assert(spec_mint_roles()[0].signer);
        },
        Operation::Transfer { amount } => {
            assert(unsigned.len() == spec_transfer_roles().len());
            assert(spec_transfer_roles()[0].signer);
        },
    }
}

/// Whatever the accounts, a call whose first account has not signed is
/// never accepted.
pub proof fn lemma_accepted_call_is_signed(accounts: Seq<AccountRef>, data: Seq<u8>)
    requires
        spec_process(accounts, data) is Ok,
    ensures
        accounts.len() > 0,
        accounts[0].is_signer,
{
    match Operation::decode(data)->0 {
        Operation::Initialize { name, symbol, uri } => {
            assert(spec_initialize_roles()[0].signer);
        },
        Operation::Mint { token_id, image_url, metadata } => {
            assert(spec_mint_roles()[0].signer);
        },
        Operation::Transfer { amount } => {
            assert(spec_transfer_roles()[0].signer);
        },
    }
}

/// Fixed issuance: whatever the accounts and the texts, an accepted `Mint`
/// makes one call, to the token-ledger program, and that call asks for the
/// issue of exactly one unit.
pub proof fn lemma_mint_issues_one_unit(
    accounts: Seq<AccountRef>,
    token_id: Seq<char>,
    image_url: Seq<char>,
    metadata: Seq<char>,
)
    requires
        spec_process_mint(accounts, token_id, image_url, metadata) is Ok,
    ensures
        ({
            let plan = spec_process_mint(accounts, token_id, image_url, metadata)->Ok_0;
            &&& plan.calls.len() == 1
            &&& plan.calls[0].instruction.program_id == token_program_key()
            &&& plan.calls[0].instruction.data == seq![7u8] + spec_u64_le(1)
            &&& plan.calls[0].instruction.data == seq![7u8, 1u8, 0u8, 0u8, 0u8, 0u8, 0u8, 0u8, 0u8]
        }),
{
    reveal(spec_u64_le);
    assert(seq![7u8] + spec_u64_le(1) =~= seq![7u8, 1u8, 0u8, 0u8, 0u8, 0u8, 0u8, 0u8, 0u8]);
}

/// The texts of an accepted `Mint` are reported as they came, each after
/// its label.
pub proof fn lemma_mint_echoes_texts(
    accounts: Seq<AccountRef>,
    token_id: Seq<char>,
    image_url: Seq<char>,
    metadata: Seq<char>,
)
    requires
        spec_process_mint(accounts, token_id, image_url, metadata) is Ok,
    ensures
        ({
            let plan = spec_process_mint(accounts, token_id, image_url, metadata)->Ok_0;
            &&& plan.trace.len() == 3
            &&& plan.trace[0] == "NFT minted successfully: "@ + token_id
            &&& plan.trace[1] == "Image URL: "@ + image_url
            &&& plan.trace[2] == "Metadata: "@ + metadata
        }),
{
}

/// An accepted `Initialize` makes three calls: to the token-ledger program,
/// to the holding-account factory, and to the metadata program named in the
/// call.
pub proof fn lemma_initialize_makes_three_calls(accounts: Seq<AccountRef>)
    requires
        spec_process_initialize(accounts) is Ok,
    ensures
        ({
            let plan = spec_process_initialize(accounts)->Ok_0;
            &&& plan.calls.len() == 3
            &&& plan.calls[0].instruction.program_id == token_program_key()
            &&& plan.calls[1].instruction.program_id == crate::token::associated_token_program_key()
            &&& plan.calls[2].instruction.program_id == accounts[6].key@
        }),
{
}

/// An operation that has ended takes no more results: its state stays as it
/// is.
pub proof fn lemma_ended_stays_ended(
    state: ExecutionView,
    results: Seq<Result<(), ProgramError>>,
)
    requires
        state.pending() is None,
    ensures
        state.after_all(results) == state,
    decreases results.len(),
{
    if results.len() > 0 {
        lemma_ended_stays_ended(state, results.drop_first());
    }
}

/// Where the first `k` results are successes and the next is a failure, at
/// a point where more than `k` calls are still to be made, the operation
/// ends with that failure as it came, after `k` more successful calls, and
/// whatever follows changes nothing.
pub proof fn lemma_first_failure_ends(
    state: ExecutionView,
    results: Seq<Result<(), ProgramError>>,
    k: int,
)
    requires
        state.failure is None,
        0 <= k < results.len(),
        state.done + k < state.calls.len(),
        forall|i: int| 0 <= i < k ==> (#[trigger] results[i]) is Ok,
        results[k] is Err,
    ensures
        state.after_all(results) == (ExecutionView {
            done: (state.done + k) as nat,
            failure: Some(ProcessError::Invocation(results[k]->Err_0)),
            ..state
        }),
        state.after_all(results).pending() is None,
        state.after_all(results).outcome() == Some(
            Err::<Seq<Seq<char>>, ProcessError>(ProcessError::Invocation(results[k]->Err_0)),
        ),
    decreases results.len(),
{
    let rest = results.drop_first();
    if k == 0 {
        lemma_ended_stays_ended(state.after(results[0]), rest);
    } else {
        assert(results[0] is Ok);
        assert forall|i: int| 0 <= i < k - 1 implies (#[trigger] rest[i]) is Ok by {
            assert(results[i + 1] is Ok);
        }
        lemma_first_failure_ends(state.after(results[0]), rest, k - 1);
    }
}

/// Where every call of the operation gets a success, the operation ends
/// with its lines to report, and whatever follows changes nothing.
pub proof fn lemma_all_successes_commit(
    state: ExecutionView,
    results: Seq<Result<(), ProgramError>>,
)
    requires
        state.failure is None,
        state.done <= state.calls.len(),
        results.len() >= state.calls.len() - state.done,
        forall|i: int| 0 <= i < state.calls.len() - state.done ==> (#[trigger] results[i]) is Ok,
    ensures
        state.after_all(results) == (ExecutionView { done: state.calls.len(), ..state }),
        state.after_all(results).outcome() == Some(
            Ok::<Seq<Seq<char>>, ProcessError>(state.trace),
        ),
    decreases results.len(),
{
    if state.done == state.calls.len() {
        lemma_ended_stays_ended(state, results);
    } else {
        let rest = results.drop_first();
        assert(results[0] is Ok);
        assert forall|i: int| 0 <= i < state.calls.len() - state.done - 1 implies (
        #[trigger] rest[i]) is Ok by {
            assert(results[i + 1] is Ok);
        }
        lemma_all_successes_commit(state.after(results[0]), rest);
    }
}

/// All or nothing: an operation ends in success only after every one of its
/// calls has succeeded, and in failure only by the failure of a call.
pub proof fn lemma_outcome_is_all_or_nothing(
    plan: PlanView,
    results: Seq<Result<(), ProgramError>>,
)
    ensures
        ({
            let end = ExecutionView::fresh(plan).after_all(results);
            &&& end.calls == plan.calls
            &&& end.trace == plan.trace
            &&& end.done <= plan.calls.len()
            &&& end.done <= results.len()
            &&& forall|i: int| 0 <= i < end.done ==> (#[trigger] results[i]) is Ok
            &&& end.outcome() matches Some(Ok(lines)) ==> end.done == plan.calls.len() && lines
                == plan.trace
            &&& end.outcome() matches Some(Err(e)) ==> end.done < plan.calls.len() && end.done
                < results.len() && results[end.done as int] is Err && e
                == ProcessError::Invocation(results[end.done as int]->Err_0)
        }),
{
    lemma_run_is_all_or_nothing(ExecutionView::fresh(plan), results);
}

proof fn lemma_run_is_all_or_nothing(
    state: ExecutionView,
    results: Seq<Result<(), ProgramError>>,
)
    requires
        state.failure is None,
        state.done <= state.calls.len(),
    ensures
        ({
            let end = state.after_all(results);
            &&& end.calls == state.calls
            &&& end.trace == state.trace
            &&& state.done <= end.done <= state.calls.len()
            &&& end.done - state.done <= results.len()
            &&& forall|i: int| 0 <= i < end.done - state.done ==> (#[trigger] results[i]) is Ok
            &&& end.failure is None ==> end.done == state.calls.len() || end.done - state.done
                == results.len()
            &&& end.failure matches Some(e) ==> end.done < state.calls.len() && end.done
                - state.done < results.len() && results[end.done - state.done] is Err && e
                == ProcessError::Invocation(results[end.done - state.done]->Err_0)
        }),
    decreases results.len(),
{
    if results.len() > 0 {
        let rest = results.drop_first();
        let next = state.after(results[0]);
        if state.pending() is None {
            lemma_ended_stays_ended(state, results);
        } else if results[0] is Err {
            lemma_ended_stays_ended(next, rest);
        } else {
            lemma_run_is_all_or_nothing(next, rest);
            let end = next.after_all(rest);
            assert forall|i: int| 0 <= i < end.done - state.done implies (
            #[trigger] results[i]) is Ok by {
                if i > 0 {
                    assert(rest[i - 1] is Ok);
                }
            }
            if end.failure is Some {
                assert(rest[end.done - next.done] == results[end.done - state.done]);
            }
        }
    }
}

/// The accounts of a call are those that an instruction names, each with
/// the signature and the right to write that its entry asks for.
pub open spec fn supplied_as_named(accounts: Seq<AccountRef>, entries: Seq<AccountMetaView>) -> bool {
    &&& accounts.len() == entries.len()
    &&& forall|i: int|
        0 <= i < entries.len() ==> (#[trigger] accounts[i]).key@ == entries[i].pubkey
            && accounts[i].is_signer == entries[i].is_signer && accounts[i].is_writable
            == entries[i].is_writable
}

/// Accounts supplied as an `Initialize` or a `Mint` instruction names them
/// are in order for either operation.
proof fn lemma_asset_accounts_bind(
    accounts: Seq<AccountRef>,
    entries: Seq<AccountMetaView>,
    roles: Seq<Role>,
)
    requires
        supplied_as_named(accounts, entries),
        entries.len() == 8,
        entries[0].is_signer,
        entries[1].is_writable,
        entries[2].is_writable,
        entries[5].is_writable,
        roles == spec_initialize_roles() || roles == spec_mint_roles(),
    ensures
        spec_bind(accounts, roles) is Ok,
{
    assert forall|j: int| 0 <= j < 8 implies slot_violation(accounts[j], roles[j]) is None by {
        assert(accounts[j].is_signer == entries[j].is_signer);
    }
    lemma_first_violation_skips(accounts, roles, 8);
}

/// What the program's own `Initialize` instruction names is what the
/// operation takes: with the accounts supplied as named, the call is
/// accepted exactly where the token-ledger program is the one named and a
/// holding address can be derived for the initializer and the mint.
pub proof fn lemma_built_initialize_is_accepted(
    accounts: Seq<AccountRef>,
    initializer: Seq<u8>,
    mint: Seq<u8>,
    token_account: Seq<u8>,
    metadata_account: Seq<u8>,
    token_program: Seq<u8>,
    metadata_program: Seq<u8>,
    op: Operation,
)
    requires
        op is Initialize,
        op.encodable(),
        supplied_as_named(
            accounts,
            spec_asset_accounts(
                initializer,
                mint,
                token_account,
                metadata_account,
                token_program,
                metadata_program,
            ),
        ),
    ensures
        spec_process(accounts, op.encode()) is Ok <==> token_program == token_program_key()
            && associated_token_address(initializer, token_program_key(), mint) is Some,
{
    let entries = spec_asset_accounts(
        initializer,
        mint,
        token_account,
        metadata_account,
        token_program,
        metadata_program,
    );
    lemma_decode_encode(op);
    lemma_asset_accounts_bind(accounts, entries, spec_initialize_roles());
    assert(accounts[0].key@ == entries[0].pubkey);
    assert(accounts[1].key@ == entries[1].pubkey);
    assert(accounts[4].key@ == entries[4].pubkey);
}

/// What the program's own `Mint` instruction names is what the operation
/// takes: with the accounts supplied as named, the call is accepted exactly
/// where the token-ledger program is the one named.
pub proof fn lemma_built_mint_is_accepted(
    accounts: Seq<AccountRef>,
    minter: Seq<u8>,
    mint: Seq<u8>,
    token_account: Seq<u8>,
    metadata_account: Seq<u8>,
    token_program: Seq<u8>,
    metadata_program: Seq<u8>,
    op: Operation,
)
    requires
        op is Mint,
        op.encodable(),
        supplied_as_named(
            accounts,
            spec_asset_accounts(
                minter,
                mint,
                token_account,
                metadata_account,
                token_program,
                metadata_program,
            ),
        ),
    ensures
        spec_process(accounts, op.encode()) is Ok <==> token_program == token_program_key(),
{
    let entries = spec_asset_accounts(
        minter,
        mint,
        token_account,
        metadata_account,
        token_program,
        metadata_program,
    );
    lemma_decode_encode(op);
    lemma_asset_accounts_bind(accounts, entries, spec_mint_roles());
    assert(accounts[4].key@ == entries[4].pubkey);
}

/// What the program's own `Transfer` instruction names is what the
/// operation takes: with the accounts supplied as named, the call is
/// accepted exactly where the token-ledger program is the one named.
pub proof fn lemma_built_transfer_is_accepted(
    accounts: Seq<AccountRef>,
    owner: Seq<u8>,
    source: Seq<u8>,
    destination: Seq<u8>,
    token_program: Seq<u8>,
    amount: u64,
)
    requires
        supplied_as_named(
            accounts,
            spec_transfer_accounts(owner, source, destination, token_program),
        ),
    ensures
        spec_process(accounts, (Operation::Transfer { amount }).encode()) is Ok <==> token_program
            == token_program_key(),
{
    let entries = spec_transfer_accounts(owner, source, destination, token_program);
    let roles = spec_transfer_roles();
    lemma_decode_encode(Operation::Transfer { amount });
    assert forall|j: int| 0 <= j < 4 implies slot_violation(accounts[j], roles[j]) is None by {
        assert(accounts[j].is_signer == entries[j].is_signer);
    }
    lemma_first_violation_skips(accounts, roles, 4);
    assert(accounts[3].key@ == entries[3].pubkey);
}

} // verus!
