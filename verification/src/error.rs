//! Failures of the program: the codes of its own, and everything that can
//! end the processing of one instruction.

use solana_program::program_error::ProgramError;
use vstd::prelude::*;
use vstd::string::StringExecFns;

verus! {

#[verifier::external_type_specification]
#[verifier::external_body]
pub struct ExProgramError(ProgramError);

/// Failures that the program reports under a code of its own.
#[derive(Clone, Copy, Debug, PartialEq, Eq, Structural)]
pub enum AiNftError {
    /// The instruction payload could not be understood.
    InvalidInstruction,
    /// The caller does not own the token.
    NotOwner,
    /// A token with this identifier was already issued.
    TokenIdExists,
}

impl AiNftError {
    /// Position of the variant in the declaration, which is the number the
    /// ledger shows to the caller.
    pub open spec fn spec_code(self) -> u32 {
        match self {
            AiNftError::InvalidInstruction => 0u32,
            AiNftError::NotOwner => 1u32,
            AiNftError::TokenIdExists => 2u32,
        }
    }

    /// The number under which the ledger reports this failure.
    pub fn code(&self) -> (c: u32)
        ensures
            c == self.spec_code(),
    {
        match self {
            AiNftError::InvalidInstruction => 0,
            AiNftError::NotOwner => 1,
            AiNftError::TokenIdExists => 2,
        }
    }

    /// The failure in words.
    pub open spec fn spec_message(self) -> Seq<char> {
        match self {
            AiNftError::InvalidInstruction => "Invalid instruction"@,
            AiNftError::NotOwner => "Not the NFT owner"@,
            AiNftError::TokenIdExists => "Token ID already exists"@,
        }
    }

    /// The failure in words, for a reader.
    pub fn message(&self) -> (text: String)
        ensures
            text@ == self.spec_message(),
    {
        match self {
            AiNftError::InvalidInstruction => String::from_str("Invalid instruction"),
            AiNftError::NotOwner => String::from_str("Not the NFT owner"),
            AiNftError::TokenIdExists => String::from_str("Token ID already exists"),
        }
    }
}

/// Why the processing of an instruction ended without effect.
#[derive(Debug, PartialEq, Eq)]
pub enum ProcessError {
    /// A failure of the program's own, by its code.
    Custom(u32),
    /// The account list has the wrong length, or an account that must be
    /// writable is not.
    MalformedAccountList,
    /// An account that must have signed has not.
    MissingRequiredSignature,
    /// The account given as the token-ledger program is another one.
    IncorrectProgramId,
    /// No holding-account address can be derived for the wallet and mint.
    NoHoldingAddress,
    /// A sub-program refused its call; its failure is passed on as it came.
    Invocation(ProgramError),
}

impl From<AiNftError> for ProcessError {
    fn from(e: AiNftError) -> (r: ProcessError) {
        ProcessError::Custom(e.code())
    }
}

impl vstd::std_specs::convert::FromSpecImpl<AiNftError> for ProcessError {
    open spec fn obeys_from_spec() -> bool {
        true
    }

    open spec fn from_spec(e: AiNftError) -> ProcessError {
        ProcessError::Custom(e.spec_code())
    }
}

} // verus!
