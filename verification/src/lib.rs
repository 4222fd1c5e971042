//! Instruction dispatch core of a ledger program that mints, tracks and
//! transfers unique digital-asset tokens.

pub mod endian;
pub mod error;
pub mod instruction;
pub mod ledger;
pub mod metaplex_token_mock;
pub mod processor;
pub mod state;
pub mod token;
pub mod validator;

use crate::error::ProcessError;
use crate::ledger::{AccountRef, Address};
use crate::processor::{spec_process, Execution, ExecutionView};
use vstd::prelude::*;

verus! {

/// Entry of the program: takes one call with its accounts and payload, as
/// [`processor::process_instruction`] does.
pub fn process_instruction(
    program_id: &Address,
    accounts: &[AccountRef],
    instruction_data: &[u8],
) -> (r: Result<Execution, ProcessError>)
    ensures
        match r {
            Ok(execution) => spec_process(accounts@, instruction_data@) matches Ok(plan)
                && execution@ == ExecutionView::fresh(plan),
            Err(e) => spec_process(accounts@, instruction_data@) matches Err(x) && x == e,
        },
{
    processor::process_instruction(program_id, accounts, instruction_data)
}

} // verus!
