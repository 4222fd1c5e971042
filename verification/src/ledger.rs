//! Plain-value model of what the ledger hands to a program and takes from it:
//! addresses, account references and instructions in their wire form.

use vstd::prelude::*;

verus! {

/// A 32-byte identity on the ledger: an account, a program or a system
/// variable. Its view is the sequence of its bytes.
#[derive(Clone, Copy, Debug, Eq)]
pub struct Address {
    pub bytes: [u8; 32],
}

impl View for Address {
    type V = Seq<u8>;

    open spec fn view(&self) -> Seq<u8> {
        self.bytes@
    }
}

impl PartialEq for Address {
    fn eq(&self, other: &Self) -> (r: bool) {
        let mut i: usize = 0;
        while i < 32
            invariant
                i <= 32,
                forall|j: int| 0 <= j < i ==> self.bytes@[j] == other.bytes@[j],
            decreases 32 - i,
        {
            if self.bytes[i] != other.bytes[i] {
                return false;
            }
            i = i + 1;
        }
        assert(self.bytes@ =~= other.bytes@);
        true
    }
}

impl vstd::std_specs::cmp::PartialEqSpecImpl for Address {
    open spec fn obeys_eq_spec() -> bool {
        true
    }

    open spec fn eq_spec(&self, other: &Self) -> bool {
        self@ == other@
    }
}

impl Address {
    /// The address with the given bytes.
    pub fn new(bytes: [u8; 32]) -> (a: Address)
        ensures
            a@ == bytes@,
    {
        Address { bytes }
    }
}

/// An account as an instruction names it: the address, whether the
/// instruction needs its signature, and whether it may be written.
#[derive(Clone, Copy, Debug, PartialEq, Eq)]
pub struct AccountMeta {
    pub pubkey: Address,
    pub is_signer: bool,
    pub is_writable: bool,
}

/// Mathematical value of an [`AccountMeta`].
pub struct AccountMetaView {
    pub pubkey: Seq<u8>,
    pub is_signer: bool,
    pub is_writable: bool,
}

impl View for AccountMeta {
    type V = AccountMetaView;

    open spec fn view(&self) -> AccountMetaView {
        AccountMetaView {
            pubkey: self.pubkey@,
            is_signer: self.is_signer,
            is_writable: self.is_writable,
        }
    }
}

/// A writable account entry.
pub open spec fn writable(pubkey: Seq<u8>, is_signer: bool) -> AccountMetaView {
    AccountMetaView { pubkey, is_signer, is_writable: true }
}

/// A read-only account entry.
pub open spec fn readonly(pubkey: Seq<u8>, is_signer: bool) -> AccountMetaView {
    AccountMetaView { pubkey, is_signer, is_writable: false }
}

impl AccountMeta {
    /// The entry with the given address bytes and flags.
    pub fn from_parts(bytes: [u8; 32], is_signer: bool, is_writable: bool) -> (m: AccountMeta)
        ensures
            m@ == (AccountMetaView { pubkey: bytes@, is_signer, is_writable }),
    {
        AccountMeta { pubkey: Address::new(bytes), is_signer, is_writable }
    }

    /// Entry for an account that the instruction may write.
    pub fn new(pubkey: Address, is_signer: bool) -> (m: AccountMeta)
        ensures
            m@ == writable(pubkey@, is_signer),
    {
        AccountMeta { pubkey, is_signer, is_writable: true }
    }

    /// Entry for an account that the instruction only reads.
    pub fn new_readonly(pubkey: Address, is_signer: bool) -> (m: AccountMeta)
        ensures
            m@ == readonly(pubkey@, is_signer),
    {
        AccountMeta { pubkey, is_signer, is_writable: false }
    }
}

/// An instruction in the form the ledger carries: the program it is
/// addressed to, the accounts it names, and a payload that only the target
/// program interprets.
#[derive(Clone, Debug, PartialEq, Eq)]
pub struct RawInstruction {
    pub program_id: Address,
    pub accounts: Vec<AccountMeta>,
    pub data: Vec<u8>,
}

/// Mathematical value of a [`RawInstruction`].
pub struct RawInstructionView {
    pub program_id: Seq<u8>,
    pub accounts: Seq<AccountMetaView>,
    pub data: Seq<u8>,
}

impl View for RawInstruction {
    type V = RawInstructionView;

    open spec fn view(&self) -> RawInstructionView {
        RawInstructionView {
            program_id: self.program_id@,
            accounts: Seq::new(self.accounts@.len(), |i: int| self.accounts@[i]@),
            data: self.data@,
        }
    }
}

/// An account reference as the ledger supplies it with a call: the
/// account's address, whether its owner authorised this execution, and
/// whether this execution may write to it.
#[derive(Clone, Copy, Debug, PartialEq, Eq)]
pub struct AccountRef {
    pub key: Address,
    pub is_signer: bool,
    pub is_writable: bool,
}

/// Bytes of `SysvarRent111111111111111111111111111111111`, the address of the
/// rent parameters.
pub open spec fn rent_sysvar_key() -> Seq<u8> {
    seq![
        6u8, 167u8, 213u8, 23u8, 25u8, 44u8, 92u8, 81u8, 33u8, 140u8, 201u8, 76u8, 61u8, 74u8,
        241u8, 127u8, 88u8, 218u8, 238u8, 8u8, 155u8, 161u8, 253u8, 68u8, 227u8, 219u8, 217u8,
        138u8, 0u8, 0u8, 0u8, 0u8,
    ]
}

/// Bytes of `11111111111111111111111111111111`, the address of the system
/// program: thirty-two zeros.
pub open spec fn system_program_key() -> Seq<u8> {
    Seq::new(32, |i: int| 0u8)
}

/// `solana_program::sysvar::rent::id()`: the address under which the ledger
/// publishes its rent parameters.
#[verifier::external_body]
pub(crate) fn rent_sysvar_id() -> (a: Address)
    ensures
        a@ == rent_sysvar_key(),
{
    Address { bytes: solana_program::sysvar::rent::id().to_bytes() }
}

/// `solana_program::system_program::id()`: the address of the system
/// program.
#[verifier::external_body]
pub(crate) fn system_program_id() -> (a: Address)
    ensures
        a@ == system_program_key(),
{
    Address { bytes: solana_program::system_program::id().to_bytes() }
}

} // verus!
