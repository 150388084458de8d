//! The calls this library makes into the host's SDK and the token program's
//! client crate, each behind a small trusted contract.
use solana_program::instruction::Instruction;
use solana_program::program_error::ProgramError;
use solana_program::pubkey::Pubkey;
use vstd::prelude::*;

verus! {

#[verifier::external_type_specification]
#[verifier::external_body]
pub struct ExInstruction(Instruction);

#[verifier::external_type_specification]
#[verifier::external_body]
pub struct ExProgramError(ProgramError);

/// The identity of the token program, `TokenkegQfeZyiNwAJbNbGKPFXCWuBvf9Ss623VQ5DA`, as bytes.
pub open spec fn token_program_id() -> Seq<u8> {
    seq![
        6u8, 221, 246, 225, 215, 101, 161, 147, 217, 203, 225, 70, 206, 235, 121, 172,
        28, 180, 133, 237, 95, 91, 55, 145, 58, 140, 245, 133, 126, 255, 0, 169,
    ]
}

/// The derived address and bump for one seed under a program, if the search finds one.
pub uninterp spec fn program_address_of(seed: Seq<u8>, program_id: Seq<u8>) -> Option<(Seq<u8>, u8)>;

/// The token program's `Transfer` instruction for these keys and amount.
pub uninterp spec fn token_transfer_of(
    token_program: Seq<u8>,
    source: Seq<u8>,
    destination: Seq<u8>,
    authority: Seq<u8>,
    amount: u64,
) -> Instruction;

/// The token program's `MintTo` instruction for these keys and amount.
pub uninterp spec fn token_mint_to_of(
    token_program: Seq<u8>,
    mint: Seq<u8>,
    destination: Seq<u8>,
    authority: Seq<u8>,
    amount: u64,
) -> Instruction;

/// The system program's `CreateAccount` instruction.
pub uninterp spec fn create_account_of(
    payer: Seq<u8>,
    new_account: Seq<u8>,
    lamports: u64,
    space: u64,
    owner: Seq<u8>,
) -> Instruction;

/// The system program's `Transfer` instruction.
pub uninterp spec fn lamport_transfer_of(from: Seq<u8>, to: Seq<u8>, lamports: u64) -> Instruction;

/// The view of an address found by `derive_address`.
pub open spec fn found_view(found: Option<([u8; 32], u8)>) -> Option<(Seq<u8>, u8)> {
    match found {
        Some((address, bump)) => Some((address@, bump)),
        None => None,
    }
}

/// Relies on `Pubkey::try_find_program_address`: a deterministic search over
/// bump values, from 255 down, for the first seed-and-bump hash that is off
/// the curve; `None` when every bump fails.
#[verifier::external_body]
pub(crate) fn derive_address(seed: &[u8], program_id: &[u8; 32]) -> (r: Option<([u8; 32], u8)>)
    ensures
        found_view(r) == program_address_of(seed@, program_id@),
{
    Pubkey::try_find_program_address(&[seed], &Pubkey::new_from_array(*program_id)).map(
        |(address, bump)| (address.to_bytes(), bump),
    )
}

/// Relies on `spl_token::instruction::transfer`: with no multisig signers it
/// fails exactly when `token_program` is not the token program's id, and
/// otherwise builds the `Transfer` instruction from its arguments alone.
#[verifier::external_body]
pub(crate) fn token_transfer(
    token_program: &[u8; 32],
    source: &[u8; 32],
    destination: &[u8; 32],
    authority: &[u8; 32],
    amount: u64,
) -> (r: Result<Instruction, ProgramError>)
    ensures
        r is Ok <==> token_program@ == token_program_id(),
        r matches Ok(ix) ==> ix == token_transfer_of(
            token_program@,
            source@,
            destination@,
            authority@,
            amount,
        ),
{
    spl_token::instruction::transfer(
        &Pubkey::new_from_array(*token_program),
        &Pubkey::new_from_array(*source),
        &Pubkey::new_from_array(*destination),
        &Pubkey::new_from_array(*authority),
        &[],
        amount,
    )
}

/// Relies on `spl_token::instruction::mint_to`: with no multisig signers it
/// fails exactly when `token_program` is not the token program's id, and
/// otherwise builds the `MintTo` instruction from its arguments alone.
#[verifier::external_body]
pub(crate) fn token_mint_to(
    token_program: &[u8; 32],
    mint: &[u8; 32],
    destination: &[u8; 32],
    authority: &[u8; 32],
    amount: u64,
) -> (r: Result<Instruction, ProgramError>)
    ensures
        r is Ok <==> token_program@ == token_program_id(),
        r matches Ok(ix) ==> ix == token_mint_to_of(
            token_program@,
            mint@,
            destination@,
            authority@,
            amount,
        ),
{
    spl_token::instruction::mint_to(
        &Pubkey::new_from_array(*token_program),
        &Pubkey::new_from_array(*mint),
        &Pubkey::new_from_array(*destination),
        &Pubkey::new_from_array(*authority),
        &[],
        amount,
    )
}

/// Relies on `system_instruction::create_account`: builds the instruction
/// from its arguments alone.
#[verifier::external_body]
#[allow(deprecated)]
pub(crate) fn create_account(
    payer: &[u8; 32],
    new_account: &[u8; 32],
    lamports: u64,
    space: u64,
    owner: &[u8; 32],
) -> (r: Instruction)
    ensures
        r == create_account_of(payer@, new_account@, lamports, space, owner@),
{
    solana_program::system_instruction::create_account(
        &Pubkey::new_from_array(*payer),
        &Pubkey::new_from_array(*new_account),
        lamports,
        space,
        &Pubkey::new_from_array(*owner),
    )
}

/// Relies on `system_instruction::transfer`: builds the instruction from its
/// arguments alone.
#[verifier::external_body]
#[allow(deprecated)]
pub(crate) fn lamport_transfer(from: &[u8; 32], to: &[u8; 32], lamports: u64) -> (r: Instruction)
    ensures
        r == lamport_transfer_of(from@, to@, lamports),
{
    solana_program::system_instruction::transfer(
        &Pubkey::new_from_array(*from),
        &Pubkey::new_from_array(*to),
        lamports,
    )
}

/// The owner recorded in a token account's bytes: bytes 32 to 64, when the
/// buffer has a token account's exact length (165) and its state byte (at
/// 108) is not "uninitialized" (0).
pub open spec fn token_owner_of(data: Seq<u8>) -> Option<Seq<u8>> {
    if data.len() == 165 && data[108] != 0 {
        Some(data.subrange(32, 64))
    } else {
        None
    }
}

/// Relies on `GenericTokenAccount::unpack_account_owner` for
/// `spl_token::state::Account`: the owner field when the data is a valid,
/// initialized token account, `None` otherwise.
#[verifier::external_body]
pub(crate) fn token_account_owner(data: &[u8]) -> (r: Option<[u8; 32]>)
    ensures
        match r {
            Some(owner) => token_owner_of(data@) == Some(owner@),
            None => token_owner_of(data@) is None,
        },
{
    <spl_token::state::Account as spl_token::state::GenericTokenAccount>::unpack_account_owner(
        data,
    ).map(|owner| owner.to_bytes())
}

} // verus!
