//! Instructions for the token-ledger program and the holding-account
//! factory, built by the `spl_token` and `spl_associated_token_account`
//! crates and handed on as plain values.

use crate::endian::spec_u64_le;
use crate::ledger::{
    readonly, rent_sysvar_key, system_program_key, writable, AccountMeta, Address, RawInstruction,
    RawInstructionView,
};
use solana_program::program_error::ProgramError;
use solana_program::pubkey::Pubkey;
use vstd::prelude::*;

verus! {

/// Bytes of `TokenkegQfeZyiNwAJbNbGKPFXCWuBvf9Ss623VQ5DA`, the address of the
/// token-ledger program.
pub open spec fn token_program_key() -> Seq<u8> {
    seq![
        6u8, 221u8, 246u8, 225u8, 215u8, 101u8, 161u8, 147u8, 217u8, 203u8, 225u8, 70u8, 206u8,
        235u8, 121u8, 172u8, 28u8, 180u8, 133u8, 237u8, 95u8, 91u8, 55u8, 145u8, 58u8, 140u8,
        245u8, 133u8, 126u8, 255u8, 0u8, 169u8,
    ]
}

/// Bytes of `ATokenGPvbdGVxr1b2hvZbsiqW5xWH25efTNsLJA8knL`, the address of the
/// holding-account factory.
pub open spec fn associated_token_program_key() -> Seq<u8> {
    seq![
        140u8, 151u8, 37u8, 143u8, 78u8, 36u8, 137u8, 241u8, 187u8, 61u8, 16u8, 41u8, 20u8, 142u8,
        13u8, 131u8, 11u8, 90u8, 19u8, 153u8, 218u8, 255u8, 16u8, 132u8, 4u8, 142u8, 123u8, 216u8,
        219u8, 233u8, 248u8, 89u8,
    ]
}

/// `spl_token::id()`: the address that the token-ledger program is deployed
/// at.
#[verifier::external_body]
pub(crate) fn token_program_id() -> (a: Address)
    ensures
        a@ == token_program_key(),
{
    Address { bytes: spl_token::id().to_bytes() }
}

/// How the token-ledger program writes an optional address: a zero byte for
/// none, a one and the 32 bytes otherwise.
pub open spec fn spec_pack_optional_key(key: Option<Seq<u8>>) -> Seq<u8> {
    match key {
        Some(k) => seq![1u8] + k,
        None => seq![0u8],
    }
}

/// What `spl_token::instruction::initialize_mint` returns: nothing unless
/// the program addressed is the token-ledger program; else the instruction
/// with tag 0 that names the mint and the rent parameters.
pub open spec fn spec_initialize_mint(
    token_program: Seq<u8>,
    mint: Seq<u8>,
    mint_authority: Seq<u8>,
    freeze_authority: Option<Seq<u8>>,
    decimals: u8,
) -> Option<RawInstructionView> {
    if token_program != token_program_key() {
        None
    } else {
        Some(
            RawInstructionView {
                program_id: token_program,
                accounts: seq![writable(mint, false), readonly(rent_sysvar_key(), false)],
                data: seq![0u8, decimals] + mint_authority + spec_pack_optional_key(
                    freeze_authority,
                ),
            },
        )
    }
}

/// What `spl_token::instruction::mint_to` returns when one signer is named
/// beside the mint's authority: nothing unless the program addressed is the
/// token-ledger program; else the instruction with tag 7 and the amount in
/// eight little-endian bytes.
pub open spec fn spec_mint_to(
    token_program: Seq<u8>,
    mint: Seq<u8>,
    account: Seq<u8>,
    owner: Seq<u8>,
    signer: Seq<u8>,
    amount: u64,
) -> Option<RawInstructionView> {
    if token_program != token_program_key() {
        None
    } else {
        Some(
            RawInstructionView {
                program_id: token_program,
                accounts: seq![
                    writable(mint, false),
                    writable(account, false),
                    readonly(owner, false),
                    readonly(signer, true),
                ],
                data: seq![7u8] + spec_u64_le(amount),
            },
        )
    }
}

/// What `spl_token::instruction::transfer` returns when one signer is named
/// beside the authority: nothing unless the program addressed is the
/// token-ledger program; else the instruction with tag 3 and the amount in
/// eight little-endian bytes.
pub open spec fn spec_transfer(
    token_program: Seq<u8>,
    source: Seq<u8>,
    destination: Seq<u8>,
    authority: Seq<u8>,
    signer: Seq<u8>,
    amount: u64,
) -> Option<RawInstructionView> {
    if token_program != token_program_key() {
        None
    } else {
        Some(
            RawInstructionView {
                program_id: token_program,
                accounts: seq![
                    writable(source, false),
                    writable(destination, false),
                    readonly(authority, false),
                    readonly(signer, true),
                ],
                data: seq![3u8] + spec_u64_le(amount),
            },
        )
    }
}

/// `spl_token::instruction::initialize_mint`. It fails exactly when
/// `token_program` is not the token-ledger program's address; the
/// instruction it builds otherwise is [`spec_initialize_mint`].
#[verifier::external_body]
pub(crate) fn initialize_mint(
    token_program: &Address,
    mint: &Address,
    mint_authority: &Address,
    freeze_authority: Option<&Address>,
    decimals: u8,
) -> (r: Result<RawInstruction, ProgramError>)
    ensures
        r is Ok <==> token_program@ == token_program_key(),
        r matches Ok(ix) ==> Some(ix@) == spec_initialize_mint(
            token_program@,
            mint@,
            mint_authority@,
            match freeze_authority {
                Some(k) => Some(k@),
                None => None,
            },
            decimals,
        ),
{
    let key = |a: &Address| Pubkey::new_from_array(a.bytes);
    let freeze = freeze_authority.map(key);
    let ix = spl_token::instruction::initialize_mint(
        &key(token_program),
        &key(mint),
        &key(mint_authority),
        freeze.as_ref(),
        decimals,
    )?;
    let accounts = ix.accounts.iter().map(|m| {
        AccountMeta::from_parts(m.pubkey.to_bytes(), m.is_signer, m.is_writable)
    }).collect();
    Ok(RawInstruction { program_id: Address::new(ix.program_id.to_bytes()), accounts, data: ix.data })
}

/// `spl_token::instruction::mint_to` with `signer` as its one signer. It
/// fails exactly when `token_program` is not the token-ledger program's
/// address; the instruction it builds otherwise is [`spec_mint_to`].
#[verifier::external_body]
pub(crate) fn mint_to(
    token_program: &Address,
    mint: &Address,
    account: &Address,
    owner: &Address,
    signer: &Address,
    amount: u64,
) -> (r: Result<RawInstruction, ProgramError>)
    ensures
        r is Ok <==> token_program@ == token_program_key(),
        r matches Ok(ix) ==> Some(ix@) == spec_mint_to(
            token_program@,
            mint@,
            account@,
            owner@,
            signer@,
            amount,
        ),
{
    let key = |a: &Address| Pubkey::new_from_array(a.bytes);
    let ix = spl_token::instruction::mint_to(
        &key(token_program),
        &key(mint),
        &key(account),
        &key(owner),
        &[&key(signer)],
        amount,
    )?;
    let accounts = ix.accounts.iter().map(|m| {
        AccountMeta::from_parts(m.pubkey.to_bytes(), m.is_signer, m.is_writable)
    }).collect();
    Ok(RawInstruction { program_id: Address::new(ix.program_id.to_bytes()), accounts, data: ix.data })
}

/// `spl_token::instruction::transfer` with `signer` as its one signer. It
/// fails exactly when `token_program` is not the token-ledger program's
/// address; the instruction it builds otherwise is [`spec_transfer`].
#[verifier::external_body]
pub(crate) fn transfer(
    token_program: &Address,
    source: &Address,
    destination: &Address,
    authority: &Address,
    signer: &Address,
    amount: u64,
) -> (r: Result<RawInstruction, ProgramError>)
    ensures
        r is Ok <==> token_program@ == token_program_key(),
        r matches Ok(ix) ==> Some(ix@) == spec_transfer(
            token_program@,
            source@,
            destination@,
            authority@,
            signer@,
            amount,
        ),
{
    let key = |a: &Address| Pubkey::new_from_array(a.bytes);
    let ix = spl_token::instruction::transfer(
        &key(token_program),
        &key(source),
        &key(destination),
        &key(authority),
        &[&key(signer)],
        amount,
    )?;
    let accounts = ix.accounts.iter().map(|m| {
        AccountMeta::from_parts(m.pubkey.to_bytes(), m.is_signer, m.is_writable)
    }).collect();
    Ok(RawInstruction { program_id: Address::new(ix.program_id.to_bytes()), accounts, data: ix.data })
}

/// The address that the holding-account factory derives for a wallet, a
/// token program and a mint; `None` where the derivation finds none.
pub uninterp spec fn associated_token_address(
    wallet: Seq<u8>,
    token_program: Seq<u8>,
    mint: Seq<u8>,
) -> Option<Seq<u8>>;

/// `Pubkey::try_find_program_address` on the seeds that the holding-account
/// factory uses (wallet, token program, mint) and the factory's own address.
/// The result is a function of the three addresses alone, named
/// [`associated_token_address`].
#[verifier::external_body]
pub(crate) fn find_associated_token_address(
    wallet: &Address,
    token_program: &Address,
    mint: &Address,
) -> (r: Option<Address>)
    ensures
        match r {
            Some(a) => associated_token_address(wallet@, token_program@, mint@) == Some(a@),
            None => associated_token_address(wallet@, token_program@, mint@) is None,
        },
{
    Pubkey::try_find_program_address(
        &[&wallet.bytes, &token_program.bytes, &mint.bytes],
        &spl_associated_token_account::id(),
    ).map(|found| Address::new(found.0.to_bytes()))
}

/// What `create_associated_token_account` returns: the factory's creation
/// instruction, whose second account is the derived holding address.
pub open spec fn spec_create_associated_token_account(
    funder: Seq<u8>,
    wallet: Seq<u8>,
    mint: Seq<u8>,
    token_program: Seq<u8>,
) -> RawInstructionView {
    RawInstructionView {
        program_id: associated_token_program_key(),
        accounts: seq![
            writable(funder, true),
            writable(associated_token_address(wallet, token_program, mint)->0, false),
            readonly(wallet, false),
            readonly(mint, false),
            readonly(system_program_key(), false),
            readonly(token_program, false),
        ],
        data: seq![0u8],
    }
}

/// `spl_associated_token_account::instruction::create_associated_token_account`.
/// It derives the holding address as [`find_associated_token_address`] does
/// and stops the program where there is none, which the precondition
/// excludes; the instruction it builds is
/// [`spec_create_associated_token_account`].
#[verifier::external_body]
pub(crate) fn create_associated_token_account(
    funder: &Address,
    wallet: &Address,
    mint: &Address,
    token_program: &Address,
) -> (ix: RawInstruction)
    requires
        associated_token_address(wallet@, token_program@, mint@) is Some,
    ensures
        ix@ == spec_create_associated_token_account(funder@, wallet@, mint@, token_program@),
{
    let key = |a: &Address| Pubkey::new_from_array(a.bytes);
    let ix = spl_associated_token_account::instruction::create_associated_token_account(
        &key(funder),
        &key(wallet),
        &key(mint),
        &key(token_program),
    );
    let accounts = ix.accounts.iter().map(|m| {
        AccountMeta::from_parts(m.pubkey.to_bytes(), m.is_signer, m.is_writable)
    }).collect();
    RawInstruction { program_id: Address::new(ix.program_id.to_bytes()), accounts, data: ix.data }
}

} // verus!
