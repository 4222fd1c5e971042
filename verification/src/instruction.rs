//! The program's instructions and their wire format.
//!
//! An instruction travels as a tag byte followed by its fields in declaration
//! order. A text field is its UTF-8 length as four little-endian bytes and
//! then the UTF-8 bytes; an amount is eight little-endian bytes. A payload is
//! accepted only if it is exactly the encoding of one instruction.

use crate::endian::{
    lemma_u32_le_canonical, lemma_u32_le_round_trip, lemma_u64_le_canonical,
    lemma_u64_le_round_trip, spec_u32_from_le, spec_u32_le, spec_u64_from_le, spec_u64_le,
    u32_from_le, u32_to_le, u64_from_le, u64_to_le,
};
use crate::error::AiNftError;
use crate::ledger::{
    readonly, rent_sysvar_id, rent_sysvar_key, system_program_id, system_program_key, writable,
    AccountMeta, AccountMetaView, Address, RawInstruction, RawInstructionView,
};
use vstd::prelude::*;
use vstd::slice::slice_subrange;
use vstd::utf8::{
    decode_utf8, decode_utf8_encode_utf8, encode_utf8, encode_utf8_decode_utf8,
    encode_utf8_valid_utf8, valid_utf8,
};

verus! {

/// Instructions that the program accepts.
#[derive(Clone, Debug, PartialEq, Eq)]
pub enum AiNftInstruction {
    /// Declare a new asset class.
    ///
    /// Accounts expected:
    /// 0. `[signer]` the initializer
    /// 1. `[writable]` the mint
    /// 2. `[writable]` the holding account
    /// 3. `[]` the rent parameters
    /// 4. `[]` the token-ledger program
    /// 5. `[writable]` the metadata account
    /// 6. `[]` the metadata program
    /// 7. `[]` the system program
    Initialize {
        /// Name of the asset.
        name: String,
        /// Symbol of the asset.
        symbol: String,
        /// Where the asset's off-ledger description lies.
        uri: String,
    },
    /// Issue the single unit of the asset class.
    ///
    /// Accounts expected: as for `Initialize`, with the minter in place of
    /// the initializer.
    Mint {
        /// Identifier of the token.
        token_id: String,
        /// Where the generated image lies.
        image_url: String,
        /// Notes on how the image was generated.
        metadata: String,
    },
    /// Move the asset from one holding account to another.
    ///
    /// Accounts expected:
    /// 0. `[signer]` the owner
    /// 1. `[writable]` the source holding account
    /// 2. `[writable]` the destination holding account
    /// 3. `[]` the token-ledger program
    Transfer {
        /// Number of units to move.
        amount: u64,
    },
}

/// Mathematical value of an [`AiNftInstruction`].
pub enum Operation {
    Initialize { name: Seq<char>, symbol: Seq<char>, uri: Seq<char> },
    Mint { token_id: Seq<char>, image_url: Seq<char>, metadata: Seq<char> },
    Transfer { amount: u64 },
}

impl View for AiNftInstruction {
    type V = Operation;

    open spec fn view(&self) -> Operation {
        match self {
            AiNftInstruction::Initialize { name, symbol, uri } => Operation::Initialize {
                name: name@,
                symbol: symbol@,
                uri: uri@,
            },
            AiNftInstruction::Mint { token_id, image_url, metadata } => Operation::Mint {
                token_id: token_id@,
                image_url: image_url@,
                metadata: metadata@,
            },
            AiNftInstruction::Transfer { amount } => Operation::Transfer { amount: *amount },
        }
    }
}

/// A text can be written if the length of its UTF-8 form fits the four-byte
/// prefix.
pub open spec fn text_encodable(text: Seq<char>) -> bool {
    encode_utf8(text).len() <= u32::MAX
}

/// Wire form of a text: length prefix, then the UTF-8 bytes.
pub open spec fn spec_encode_text(text: Seq<char>) -> Seq<u8> {
    spec_u32_le(encode_utf8(text).len() as u32) + encode_utf8(text)
}

/// Reads one text from the front of `bytes`: the text and what follows it, or
/// `None` where the prefix is cut short, announces more bytes than are left,
/// or the bytes are not UTF-8.
pub open spec fn spec_decode_text(bytes: Seq<u8>) -> Option<(Seq<char>, Seq<u8>)> {
    if bytes.len() < 4 {
        None
    } else {
        let n = spec_u32_from_le(bytes.subrange(0, 4)) as int;
        if bytes.len() - 4 < n {
            None
        } else if !valid_utf8(bytes.subrange(4, 4 + n)) {
            None
        } else {
            Some((decode_utf8(bytes.subrange(4, 4 + n)), bytes.subrange(4 + n, bytes.len() as int)))
        }
    }
}

/// Reads three texts that fill `bytes` exactly.
pub open spec fn spec_decode_texts(bytes: Seq<u8>) -> Option<(Seq<char>, Seq<char>, Seq<char>)> {
    match spec_decode_text(bytes) {
        Some((first, rest1)) => match spec_decode_text(rest1) {
            Some((second, rest2)) => match spec_decode_text(rest2) {
                Some((third, rest3)) => if rest3.len() == 0 {
                    Some((first, second, third))
                } else {
                    None
                },
                None => None,
            },
            None => None,
        },
        None => None,
    }
}

impl Operation {
    /// Every text field can be written.
    pub open spec fn encodable(self) -> bool {
        match self {
            Operation::Initialize { name, symbol, uri } => text_encodable(name) && text_encodable(
                symbol,
            ) && text_encodable(uri),
            Operation::Mint { token_id, image_url, metadata } => text_encodable(token_id)
                && text_encodable(image_url) && text_encodable(metadata),
            Operation::Transfer { amount } => true,
        }
    }

    /// The payload that carries this instruction.
    pub open spec fn encode(self) -> Seq<u8> {
        match self {
            Operation::Initialize { name, symbol, uri } => seq![0u8] + spec_encode_text(name)
                + spec_encode_text(symbol) + spec_encode_text(uri),
            Operation::Mint { token_id, image_url, metadata } => seq![1u8] + spec_encode_text(
                token_id,
            ) + spec_encode_text(image_url) + spec_encode_text(metadata),
            Operation::Transfer { amount } => seq![2u8] + spec_u64_le(amount),
        }
    }

    /// The instruction that a payload carries, if it carries one.
    pub open spec fn decode(bytes: Seq<u8>) -> Option<Operation> {
        if bytes.len() == 0 {
            None
        } else if bytes[0] == 0 {
            match spec_decode_texts(bytes.subrange(1, bytes.len() as int)) {
                Some((name, symbol, uri)) => Some(Operation::Initialize { name, symbol, uri }),
                None => None,
            }
        } else if bytes[0] == 1 {
            match spec_decode_texts(bytes.subrange(1, bytes.len() as int)) {
                Some((token_id, image_url, metadata)) => Some(
                    Operation::Mint { token_id, image_url, metadata },
                ),
                None => None,
            }
        } else if bytes[0] == 2 {
            if bytes.len() == 9 {
                Some(Operation::Transfer { amount: spec_u64_from_le(bytes.subrange(1, 9)) })
            } else {
                None
            }
        } else {
            None
        }
    }
}

/// The accounts that `Initialize` and `Mint` name: the signer, then the
/// mint, the holding account, the rent parameters, the token-ledger program,
/// the metadata account, the metadata program and the system program.
pub open spec fn spec_asset_accounts(
    signer: Seq<u8>,
    mint: Seq<u8>,
    token_account: Seq<u8>,
    metadata_account: Seq<u8>,
    token_program: Seq<u8>,
    metadata_program: Seq<u8>,
) -> Seq<AccountMetaView> {
    seq![
        readonly(signer, true),
        writable(mint, false),
        writable(token_account, false),
        readonly(rent_sysvar_key(), false),
        readonly(token_program, false),
        writable(metadata_account, false),
        readonly(metadata_program, false),
        readonly(system_program_key(), false),
    ]
}

/// The accounts that `Transfer` names: the owner, who signs, then the
/// source, the destination and the token-ledger program.
pub open spec fn spec_transfer_accounts(
    owner: Seq<u8>,
    source: Seq<u8>,
    destination: Seq<u8>,
    token_program: Seq<u8>,
) -> Seq<AccountMetaView> {
    seq![
        readonly(owner, true),
        writable(source, false),
        writable(destination, false),
        readonly(token_program, false),
    ]
}

/// `String::from_utf8`: the text that `bytes` spell in UTF-8, and `None`
/// exactly where they are not UTF-8.
#[verifier::external_body]
fn string_from_utf8(bytes: Vec<u8>) -> (r: Option<String>)
    ensures
        r is Some <==> valid_utf8(bytes@),
        r matches Some(s) ==> s@ == decode_utf8(bytes@),
{
    String::from_utf8(bytes).ok()
}

/// Appends `src` to `out`.
fn append_bytes(out: &mut Vec<u8>, src: &[u8])
    ensures
        final(out)@ == old(out)@ + src@,
{
    let mut i: usize = 0;
    while i < src.len()
        invariant
            i <= src@.len(),
            out@ == old(out)@ + src@.subrange(0, i as int),
        decreases src@.len() - i,
    {
        out.push(src[i]);
        i = i + 1;
        assert(out@ =~= old(out)@ + src@.subrange(0, i as int));
    }
    assert(src@.subrange(0, i as int) =~= src@);
}

/// Copies `src[from..to]` into a vector of its own.
fn copy_range(src: &[u8], from: usize, to: usize) -> (out: Vec<u8>)
    requires
        from <= to <= src@.len(),
    ensures
        out@ == src@.subrange(from as int, to as int),
{
    let mut out: Vec<u8> = Vec::new();
    append_bytes(&mut out, slice_subrange(src, from, to));
    assert(out@ =~= src@.subrange(from as int, to as int));
    out
}

/// Whether `text` is short enough to be written.
fn text_fits(text: &String) -> (r: bool)
    ensures
        r == text_encodable(text@),
{
    text.as_str().as_bytes().len() <= 0xffff_ffff
}

/// Appends the wire form of `text` to `out`.
fn put_text(out: &mut Vec<u8>, text: &String)
    requires
        text_encodable(text@),
    ensures
        final(out)@ == old(out)@ + spec_encode_text(text@),
{
    let bytes = text.as_str().as_bytes();
    let prefix = u32_to_le(bytes.len() as u32);
    append_bytes(out, prefix.as_slice());
    append_bytes(out, bytes);
    assert(out@ =~= old(out)@ + spec_encode_text(text@));
}

/// Reads one text that starts at `pos`; gives the text and the position
/// after it.
fn take_text(data: &[u8], pos: usize) -> (r: Option<(String, usize)>)
    requires
        pos <= data@.len(),
    ensures
        match r {
            Some((text, next)) => pos <= next <= data@.len() && spec_decode_text(
                data@.subrange(pos as int, data@.len() as int),
            ) == Some((text@, data@.subrange(next as int, data@.len() as int))),
            None => spec_decode_text(data@.subrange(pos as int, data@.len() as int)) is None,
        },
{
    let ghost tail = data@.subrange(pos as int, data@.len() as int);
    let left = data.len() - pos;
    if left < 4 {
        return None;
    }
    let n = u32_from_le(slice_subrange(data, pos, pos + 4)) as usize;
    assert(data@.subrange(pos as int, pos + 4) =~= tail.subrange(0, 4));
    if left - 4 < n {
        return None;
    }
    let start = pos + 4;
    let end = start + n;
    let raw = copy_range(data, start, end);
    assert(raw@ =~= tail.subrange(4, 4 + n));
    assert(data@.subrange(end as int, data@.len() as int) =~= tail.subrange(
        4 + n,
        tail.len() as int,
    ));
    match string_from_utf8(raw) {
        Some(text) => Some((text, end)),
        None => None,
    }
}

/// Reads three texts that fill `data` from `pos` to its end.
fn take_texts(data: &[u8], pos: usize) -> (r: Option<(String, String, String)>)
    requires
        pos <= data@.len(),
    ensures
        match r {
            Some((a, b, c)) => spec_decode_texts(data@.subrange(pos as int, data@.len() as int))
                == Some((a@, b@, c@)),
            None => spec_decode_texts(data@.subrange(pos as int, data@.len() as int)) is None,
        },
{
    let (first, pos1) = match take_text(data, pos) {
        Some(found) => found,
        None => { return None; },
    };
    let (second, pos2) = match take_text(data, pos1) {
        Some(found) => found,
        None => { return None; },
    };
    let (third, pos3) = match take_text(data, pos2) {
        Some(found) => found,
        None => { return None; },
    };
    if pos3 != data.len() {
        return None;
    }
    Some((first, second, third))
}

impl AiNftInstruction {
    /// The accounts of `Initialize` and of `Mint`, in the order of the list.
    fn asset_accounts(
        signer: &Address,
        mint: &Address,
        token_account: &Address,
        metadata_account: &Address,
        token_program: &Address,
        metadata_program: &Address,
    ) -> (accounts: Vec<AccountMeta>)
        ensures
            Seq::new(accounts@.len(), |i: int| accounts@[i]@) == spec_asset_accounts(
                signer@,
                mint@,
                token_account@,
                metadata_account@,
                token_program@,
                metadata_program@,
            ),
    {
        let accounts = vec![
            AccountMeta::new_readonly(*signer, true),
            AccountMeta::new(*mint, false),
            AccountMeta::new(*token_account, false),
            AccountMeta::new_readonly(rent_sysvar_id(), false),
            AccountMeta::new_readonly(*token_program, false),
            AccountMeta::new(*metadata_account, false),
            AccountMeta::new_readonly(*metadata_program, false),
            AccountMeta::new_readonly(system_program_id(), false),
        ];
        assert(Seq::new(accounts@.len(), |i: int| accounts@[i]@) =~= spec_asset_accounts(
            signer@,
            mint@,
            token_account@,
            metadata_account@,
            token_program@,
            metadata_program@,
        ));
        accounts
    }

    /// Builds the `Initialize` instruction for the program at `program_id`.
    pub fn initialize(
        program_id: &Address,
        initializer: &Address,
        mint: &Address,
        token_account: &Address,
        metadata_account: &Address,
        token_program: &Address,
        metadata_program: &Address,
        name: String,
        symbol: String,
        uri: String,
    ) -> (ix: RawInstruction)
        requires
            text_encodable(name@),
            text_encodable(symbol@),
            text_encodable(uri@),
        ensures
            ix@ == (RawInstructionView {
                program_id: program_id@,
                accounts: spec_asset_accounts(
                    initializer@,
                    mint@,
                    token_account@,
                    metadata_account@,
                    token_program@,
                    metadata_program@,
                ),
                data: (Operation::Initialize { name: name@, symbol: symbol@, uri: uri@ }).encode(),
            }),
    {
        let data = (AiNftInstruction::Initialize { name, symbol, uri }).write();
        let accounts = Self::asset_accounts(
            initializer,
            mint,
            token_account,
            metadata_account,
            token_program,
            metadata_program,
        );
        RawInstruction { program_id: *program_id, accounts, data }
    }

    /// Builds the `Mint` instruction for the program at `program_id`.
    pub fn mint(
        program_id: &Address,
        minter: &Address,
        mint: &Address,
        token_account: &Address,
        metadata_account: &Address,
        token_program: &Address,
        metadata_program: &Address,
        token_id: String,
        image_url: String,
        metadata: String,
    ) -> (ix: RawInstruction)
        requires
            text_encodable(token_id@),
            text_encodable(image_url@),
            text_encodable(metadata@),
        ensures
            ix@ == (RawInstructionView {
                program_id: program_id@,
                accounts: spec_asset_accounts(
                    minter@,
                    mint@,
                    token_account@,
                    metadata_account@,
                    token_program@,
                    metadata_program@,
                ),
                data: (Operation::Mint {
                    token_id: token_id@,
                    image_url: image_url@,
                    metadata: metadata@,
                }).encode(),
            }),
    {
        let data = (AiNftInstruction::Mint { token_id, image_url, metadata }).write();
        let accounts = Self::asset_accounts(
            minter,
            mint,
            token_account,
            metadata_account,
            token_program,
            metadata_program,
        );
        RawInstruction { program_id: *program_id, accounts, data }
    }

    /// Builds the `Transfer` instruction for the program at `program_id`.
    pub fn transfer(
        program_id: &Address,
        owner: &Address,
        source: &Address,
        destination: &Address,
        token_program: &Address,
        amount: u64,
    ) -> (ix: RawInstruction)
        ensures
            ix@ == (RawInstructionView {
                program_id: program_id@,
                accounts: spec_transfer_accounts(
                    owner@,
                    source@,
                    destination@,
                    token_program@,
                ),
                data: (Operation::Transfer { amount }).encode(),
            }),
    {
        let data = (AiNftInstruction::Transfer { amount }).write();
        let accounts = vec![
            AccountMeta::new_readonly(*owner, true),
            AccountMeta::new(*source, false),
            AccountMeta::new(*destination, false),
            AccountMeta::new_readonly(*token_program, false),
        ];
        assert(Seq::new(accounts@.len(), |i: int| accounts@[i]@) =~= spec_transfer_accounts(
            owner@,
            source@,
            destination@,
            token_program@,
        ));
        RawInstruction { program_id: *program_id, accounts, data }
    }

    /// Whether every text field is short enough to be written.
    pub fn is_encodable(&self) -> (r: bool)
        ensures
            r == self@.encodable(),
    {
        match self {
            AiNftInstruction::Initialize { name, symbol, uri } => text_fits(name) && text_fits(
                symbol,
            ) && text_fits(uri),
            AiNftInstruction::Mint { token_id, image_url, metadata } => text_fits(token_id)
                && text_fits(image_url) && text_fits(metadata),
            AiNftInstruction::Transfer { amount: _ } => true,
        }
    }

    /// Writes an instruction whose texts are short enough.
    fn write(&self) -> (bytes: Vec<u8>)
        requires
            self@.encodable(),
        ensures
            bytes@ == self@.encode(),
    {
        let mut out: Vec<u8> = Vec::new();
        match self {
            AiNftInstruction::Initialize { name, symbol, uri } => {
                out.push(0u8);
                put_text(&mut out, name);
                put_text(&mut out, symbol);
                put_text(&mut out, uri);
            },
            AiNftInstruction::Mint { token_id, image_url, metadata } => {
                out.push(1u8);
                put_text(&mut out, token_id);
                put_text(&mut out, image_url);
                put_text(&mut out, metadata);
            },
            AiNftInstruction::Transfer { amount } => {
                out.push(2u8);
                let raw = u64_to_le(*amount);
                append_bytes(&mut out, raw.as_slice());
            },
        }
        assert(out@ =~= self@.encode());
        out
    }

    /// Writes the instruction in its wire format. `None` exactly where a
    /// text field is too long for its length prefix.
    pub fn encode(&self) -> (r: Option<Vec<u8>>)
        ensures
            r is Some <==> self@.encodable(),
            r matches Some(bytes) ==> bytes@ == self@.encode(),
    {
        if self.is_encodable() {
            Some(self.write())
        } else {
            None
        }
    }

    /// Reads an instruction from a payload. It succeeds exactly on the
    /// payloads that [`Operation::decode`] accepts; every other payload is
    /// an `InvalidInstruction`.
    pub fn decode(data: &[u8]) -> (r: Result<AiNftInstruction, AiNftError>)
        ensures
            match r {
                Ok(instruction) => Operation::decode(data@) == Some(instruction@),
                Err(e) => e == AiNftError::InvalidInstruction && Operation::decode(data@) is None,
            },
    {
        if data.len() == 0 {
            return Err(AiNftError::InvalidInstruction);
        }
        let tag = data[0];
        if tag == 0 {
            match take_texts(data, 1) {
                Some((name, symbol, uri)) => Ok(AiNftInstruction::Initialize { name, symbol, uri }),
                None => Err(AiNftError::InvalidInstruction),
            }
        } else if tag == 1 {
            match take_texts(data, 1) {
                Some((token_id, image_url, metadata)) => Ok(
                    AiNftInstruction::Mint { token_id, image_url, metadata },
                ),
                None => Err(AiNftError::InvalidInstruction),
            }
        } else if tag == 2 {
            if data.len() != 9 {
                return Err(AiNftError::InvalidInstruction);
            }
            let amount = u64_from_le(slice_subrange(data, 1, 9));
            Ok(AiNftInstruction::Transfer { amount })
        } else {
            Err(AiNftError::InvalidInstruction)
        }
    }
}

/// A written text, whatever follows it, is read back as it was, and what
/// follows is left over.
pub proof fn lemma_text_round_trip(text: Seq<char>, rest: Seq<u8>)
    requires
        text_encodable(text),
    ensures
        spec_decode_text(spec_encode_text(text) + rest) == Some((text, rest)),
{
    lemma_u32_le_round_trip(encode_utf8(text).len() as u32);
    encode_utf8_valid_utf8(text);
    encode_utf8_decode_utf8(text);
    let body = encode_utf8(text);
    let prefix = spec_u32_le(body.len() as u32);
    let all = spec_encode_text(text) + rest;
    assert(all.subrange(0, 4) =~= prefix);
    let n = body.len() as int;
    assert(all.subrange(4, 4 + n) =~= body);
    assert(all.subrange(4 + n, all.len() as int) =~= rest);
}

/// Bytes from which a text is read start with that text's wire form, and
/// the text is one that can be written.
pub proof fn lemma_text_canonical(bytes: Seq<u8>)
    requires
        spec_decode_text(bytes) is Some,
    ensures
        ({
            let (text, rest) = spec_decode_text(bytes)->0;
            text_encodable(text) && bytes == spec_encode_text(text) + rest
        }),
{
    lemma_u32_le_canonical(bytes.subrange(0, 4));
    let n = spec_u32_from_le(bytes.subrange(0, 4));
    let body = bytes.subrange(4, 4 + n);
    decode_utf8_encode_utf8(body);
    assert(spec_u32_le(n) == bytes.subrange(0, 4));
    assert(bytes =~= bytes.subrange(0, 4) + body + bytes.subrange(4 + n, bytes.len() as int));
}

/// Three written texts and nothing more are read back as they were.
proof fn lemma_texts_round_trip(a: Seq<char>, b: Seq<char>, c: Seq<char>)
    requires
        text_encodable(a),
        text_encodable(b),
        text_encodable(c),
    ensures
        spec_decode_texts(spec_encode_text(a) + spec_encode_text(b) + spec_encode_text(c)) == Some(
            (a, b, c),
        ),
{
    let empty = Seq::<u8>::empty();
    lemma_text_round_trip(a, spec_encode_text(b) + spec_encode_text(c));
    lemma_text_round_trip(b, spec_encode_text(c));
    lemma_text_round_trip(c, empty);
    assert(spec_encode_text(a) + spec_encode_text(b) + spec_encode_text(c) =~= spec_encode_text(a)
        + (spec_encode_text(b) + spec_encode_text(c)));
    assert(spec_encode_text(c) + empty =~= spec_encode_text(c));
}

/// Bytes from which three texts are read are those texts' wire forms in a
/// row.
proof fn lemma_texts_canonical(bytes: Seq<u8>)
    requires
        spec_decode_texts(bytes) is Some,
    ensures
        ({
            let (a, b, c) = spec_decode_texts(bytes)->0;
            &&& text_encodable(a)
            &&& text_encodable(b)
            &&& text_encodable(c)
            &&& bytes == spec_encode_text(a) + spec_encode_text(b) + spec_encode_text(c)
        }),
{
    let (a, rest1) = spec_decode_text(bytes)->0;
    let (b, rest2) = spec_decode_text(rest1)->0;
    let (c, rest3) = spec_decode_text(rest2)->0;
    lemma_text_canonical(bytes);
    lemma_text_canonical(rest1);
    lemma_text_canonical(rest2);
    assert(rest3 =~= Seq::<u8>::empty());
    assert(bytes =~= spec_encode_text(a) + spec_encode_text(b) + spec_encode_text(c));
}

/// Round trip: an instruction that can be written is read back from its
/// payload as it was.
pub proof fn lemma_decode_encode(op: Operation)
    requires
        op.encodable(),
    ensures
        Operation::decode(op.encode()) == Some(op),
{
    let bytes = op.encode();
    match op {
        Operation::Initialize { name, symbol, uri } => {
            lemma_texts_round_trip(name, symbol, uri);
            assert(bytes.subrange(1, bytes.len() as int) =~= spec_encode_text(name)
                + spec_encode_text(symbol) + spec_encode_text(uri));
        },
        Operation::Mint { token_id, image_url, metadata } => {
            lemma_texts_round_trip(token_id, image_url, metadata);
            assert(bytes.subrange(1, bytes.len() as int) =~= spec_encode_text(token_id)
                + spec_encode_text(image_url) + spec_encode_text(metadata));
        },
        Operation::Transfer { amount } => {
            lemma_u64_le_round_trip(amount);
            assert(bytes.subrange(1, 9) =~= spec_u64_le(amount));
        },
    }
}

/// A payload is read as an instruction only if it is exactly what that
/// instruction is written as: nothing is accepted in two forms, and no byte
/// is left over.
pub proof fn lemma_encode_decode(bytes: Seq<u8>)
    requires
        Operation::decode(bytes) is Some,
    ensures
        Operation::decode(bytes)->0.encodable(),
        Operation::decode(bytes)->0.encode() == bytes,
{
    let tail = bytes.subrange(1, bytes.len() as int);
    assert(bytes =~= seq![bytes[0]] + tail);
    if bytes[0] == 0 || bytes[0] == 1 {
        lemma_texts_canonical(tail);
        let (a, b, c) = spec_decode_texts(tail)->0;
        assert(seq![bytes[0]] + spec_encode_text(a) + spec_encode_text(b) + spec_encode_text(c)
            =~= seq![bytes[0]] + (spec_encode_text(a) + spec_encode_text(b) + spec_encode_text(
            c,
        )));
    } else {
        lemma_u64_le_canonical(bytes.subrange(1, 9));
        assert(tail =~= bytes.subrange(1, 9));
    }
}

/// Two instructions with the same payload are the same instruction.
pub proof fn lemma_encode_injective(a: Operation, b: Operation)
    requires
        a.encodable(),
        b.encodable(),
        a.encode() == b.encode(),
    ensures
        a == b,
{
    lemma_decode_encode(a);
    lemma_decode_encode(b);
}

/// A field is cut short where fewer than four bytes are left for its length,
/// or where the length it announces exceeds the bytes that follow.
pub open spec fn text_cut_short(bytes: Seq<u8>) -> bool {
    bytes.len() < 4 || spec_u32_from_le(bytes.subrange(0, 4)) > bytes.len() - 4
}

/// The wire forms of `texts`, one after the other.
pub open spec fn spec_encode_all(texts: Seq<Seq<char>>) -> Seq<u8>
    decreases texts.len(),
{
    if texts.len() == 0 {
        Seq::empty()
    } else {
        spec_encode_text(texts[0]) + spec_encode_all(texts.drop_first())
    }
}

/// No instruction is read from the empty payload, nor from one whose tag is
/// none of 0, 1 and 2, nor from a transfer whose amount is not eight bytes.
pub proof fn lemma_decode_rejects_unknown(bytes: Seq<u8>)
    ensures
        bytes.len() == 0 ==> Operation::decode(bytes) is None,
        bytes.len() > 0 && bytes[0] > 2 ==> Operation::decode(bytes) is None,
        bytes.len() > 0 && bytes[0] == 2 && bytes.len() != 9 ==> Operation::decode(bytes) is None,
{
}

/// No instruction is read from a payload in which, after the tag of a text
/// instruction and fewer than three whole texts, a text is cut short.
pub proof fn lemma_decode_rejects_cut_text(tag: u8, texts: Seq<Seq<char>>, tail: Seq<u8>)
    requires
        tag == 0 || tag == 1,
        texts.len() < 3,
        forall|i: int| 0 <= i < texts.len() ==> text_encodable(#[trigger] texts[i]),
        text_cut_short(tail),
    ensures
        Operation::decode(seq![tag] + spec_encode_all(texts) + tail) is None,
{
    let bytes = seq![tag] + spec_encode_all(texts) + tail;
    let body = bytes.subrange(1, bytes.len() as int);
    assert(body =~= spec_encode_all(texts) + tail);
    reveal_with_fuel(spec_encode_all, 3);
    let empty = Seq::<u8>::empty();
    if texts.len() == 0 {
        assert(body =~= tail);
    } else if texts.len() == 1 {
        assert(texts.drop_first().len() == 0);
        assert(body =~= spec_encode_text(texts[0]) + tail);
        lemma_text_round_trip(texts[0], tail);
    } else {
        assert(texts.drop_first().drop_first().len() == 0);
        assert(texts.drop_first()[0] == texts[1]);
        assert(body =~= spec_encode_text(texts[0]) + (spec_encode_text(texts[1]) + tail));
        lemma_text_round_trip(texts[0], spec_encode_text(texts[1]) + tail);
        lemma_text_round_trip(texts[1], tail);
    }
}

/// No instruction is read from a payload that goes on after a whole
/// instruction.
pub proof fn lemma_decode_rejects_trailing(op: Operation, extra: Seq<u8>)
    requires
        op.encodable(),
        extra.len() > 0,
    ensures
        Operation::decode(op.encode() + extra) is None,
{
    let bytes = op.encode() + extra;
    let body = bytes.subrange(1, bytes.len() as int);
    match op {
        Operation::Initialize { name, symbol, uri } => {
            lemma_texts_reject_trailing(name, symbol, uri, extra);
            assert(body =~= spec_encode_text(name) + spec_encode_text(symbol) + spec_encode_text(
                uri,
            ) + extra);
        },
        Operation::Mint { token_id, image_url, metadata } => {
            lemma_texts_reject_trailing(token_id, image_url, metadata, extra);
            assert(body =~= spec_encode_text(token_id) + spec_encode_text(image_url)
                + spec_encode_text(metadata) + extra);
        },
        Operation::Transfer { amount } => {
            lemma_u64_le_round_trip(amount);
        },
    }
}

/// Three written texts with something after them are not three texts that
/// fill the bytes.
proof fn lemma_texts_reject_trailing(a: Seq<char>, b: Seq<char>, c: Seq<char>, extra: Seq<u8>)
    requires
        text_encodable(a),
        text_encodable(b),
        text_encodable(c),
        extra.len() > 0,
    ensures
        spec_decode_texts(spec_encode_text(a) + spec_encode_text(b) + spec_encode_text(c) + extra)
            is None,
{
    lemma_text_round_trip(a, spec_encode_text(b) + spec_encode_text(c) + extra);
    lemma_text_round_trip(b, spec_encode_text(c) + extra);
    lemma_text_round_trip(c, extra);
    assert(spec_encode_text(a) + spec_encode_text(b) + spec_encode_text(c) + extra
        =~= spec_encode_text(a) + (spec_encode_text(b) + spec_encode_text(c) + extra));
    assert(spec_encode_text(b) + spec_encode_text(c) + extra =~= spec_encode_text(b) + (
    spec_encode_text(c) + extra));
}

} // verus!
