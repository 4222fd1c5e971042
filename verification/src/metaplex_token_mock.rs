//! Stand-in for the metadata program: it builds the instructions that the
//! real one would take, with a one-byte payload.

use crate::ledger::{
    readonly, system_program_id, system_program_key, writable, AccountMeta, Address,
    RawInstruction, RawInstructionView,
};
use vstd::prelude::*;

verus! {

/// Bytes of `metaqbxxUerdq28cj1RbAWkYQm3ybzjb6a8bt518x1s`, the address of the
/// metadata program.
pub open spec fn metadata_program_key() -> Seq<u8> {
    seq![
        11u8, 112u8, 101u8, 177u8, 227u8, 209u8, 124u8, 69u8, 56u8, 157u8, 82u8, 127u8, 107u8, 4u8,
        195u8, 205u8, 88u8, 184u8, 108u8, 115u8, 26u8, 160u8, 253u8, 181u8, 73u8, 182u8, 209u8,
        188u8, 3u8, 248u8, 41u8, 70u8,
    ]
}

/// The address of the metadata program.
pub fn id() -> (a: Address)
    ensures
        a@ == metadata_program_key(),
{
    let bytes: [u8; 32] = [
        11, 112, 101, 177, 227, 209, 124, 69, 56, 157, 82, 127, 107, 4, 195, 205, 88, 184, 108,
        115, 26, 160, 253, 181, 73, 182, 209, 188, 3, 248, 41, 70,
    ];
    assert(bytes@ =~= metadata_program_key());
    Address::new(bytes)
}

/// Whether `address` is the metadata program's.
pub fn check_id(address: &Address) -> (r: bool)
    ensures
        r == (address@ == metadata_program_key()),
{
    *address == id()
}

/// What the metadata program can be asked to do.
#[derive(Clone, Debug, PartialEq, Eq)]
pub enum Instruction {
    CreateMetadataAccount { name: String, symbol: String, uri: String },
    UpdateMetadataAccount { name: String, symbol: String, uri: String },
}

/// The instruction that asks for a new metadata record.
pub open spec fn spec_create_metadata_accounts(
    program_id: Seq<u8>,
    metadata_account: Seq<u8>,
    mint: Seq<u8>,
    mint_authority: Seq<u8>,
    payer: Seq<u8>,
    update_authority: Seq<u8>,
) -> RawInstructionView {
    RawInstructionView {
        program_id,
        accounts: seq![
            writable(metadata_account, false),
            readonly(mint, false),
            readonly(mint_authority, true),
            writable(payer, true),
            readonly(update_authority, false),
            readonly(system_program_key(), false),
        ],
        data: seq![0u8],
    }
}

/// The instruction that asks for a change to a metadata record.
pub open spec fn spec_update_metadata_accounts(
    program_id: Seq<u8>,
    metadata_account: Seq<u8>,
    update_authority: Seq<u8>,
) -> RawInstructionView {
    RawInstructionView {
        program_id,
        accounts: seq![writable(metadata_account, false), readonly(update_authority, true)],
        data: seq![1u8],
    }
}

/// Builds the instruction that creates the metadata record of `mint`. The
/// texts are taken for the record and do not show in the stand-in's payload.
pub fn create_metadata_accounts(
    program_id: &Address,
    metadata_account: &Address,
    mint: &Address,
    mint_authority: &Address,
    payer: &Address,
    update_authority: &Address,
    _name: String,
    _symbol: String,
    _uri: String,
) -> (ix: RawInstruction)
    ensures
        ix@ == spec_create_metadata_accounts(
            program_id@,
            metadata_account@,
            mint@,
            mint_authority@,
            payer@,
            update_authority@,
        ),
{
    let mut accounts: Vec<AccountMeta> = Vec::new();
    accounts.push(AccountMeta::new(*metadata_account, false));
    accounts.push(AccountMeta::new_readonly(*mint, false));
    accounts.push(AccountMeta::new_readonly(*mint_authority, true));
    accounts.push(AccountMeta::new(*payer, true));
    accounts.push(AccountMeta::new_readonly(*update_authority, false));
    accounts.push(AccountMeta::new_readonly(system_program_id(), false));
    let mut data: Vec<u8> = Vec::new();
    data.push(0u8);
    let ix = RawInstruction { program_id: *program_id, accounts, data };
    assert(ix@.accounts =~= spec_create_metadata_accounts(
        program_id@,
        metadata_account@,
        mint@,
        mint_authority@,
        payer@,
        update_authority@,
    ).accounts);
    assert(ix@.data =~= seq![0u8]);
    ix
}

/// Builds the instruction that changes a metadata record. The texts are
/// taken for the record and do not show in the stand-in's payload.
pub fn update_metadata_accounts(
    program_id: &Address,
    metadata_account: &Address,
    update_authority: &Address,
    _name: String,
    _symbol: String,
    _uri: String,
) -> (ix: RawInstruction)
    ensures
        ix@ == spec_update_metadata_accounts(program_id@, metadata_account@, update_authority@),
{
    let mut accounts: Vec<AccountMeta> = Vec::new();
    accounts.push(AccountMeta::new(*metadata_account, false));
    accounts.push(AccountMeta::new_readonly(*update_authority, true));
    let mut data: Vec<u8> = Vec::new();
    data.push(1u8);
    let ix = RawInstruction { program_id: *program_id, accounts, data };
    assert(ix@.accounts =~= spec_update_metadata_accounts(
        program_id@,
        metadata_account@,
        update_authority@,
    ).accounts);
    assert(ix@.data =~= seq![1u8]);
    ix
}

} // verus!
