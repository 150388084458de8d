//! One invocation of the program: decode the payload, validate the accounts,
//! and decide the writes and cross-program calls the host is to perform.
//!
//! The decision is a pure function of the accounts as the host presents them;
//! the host then carries out the returned effects in order, and any failure
//! there aborts the whole invocation, so nothing half-done is ever kept.
use crate::host::{
    create_account, create_account_of, derive_address, found_view, lamport_transfer,
    lamport_transfer_of, program_address_of, token_account_owner, token_owner_of, token_mint_to, token_mint_to_of, token_program_id,
    token_transfer, token_transfer_of,
};
use crate::instruction::{parse_spec, RewardInstruction};
use crate::record::{
    all_zero, decode_spec, earn_spec, encode_spec, lemma_encoding_written, lemma_record_round_trip, fresh_record, redeem_spec, RedeemError, RewardAccount, RECORD_SIZE,
};
use solana_program::instruction::Instruction;
use vstd::prelude::*;

verus! {

/// How many account handles every instruction expects, in this order:
/// signer, reward record, user token account, vault token account, token
/// mint, token program, system program.
pub const ACCOUNTS_NEEDED: usize = 7;

/// Why an invocation is refused.
#[derive(Clone, Copy, Debug, PartialEq, Eq, Structural)]
pub enum RewardError {
    /// Fewer account handles than the program expects.
    NotEnoughAccountKeys,
    /// Unknown tag or malformed fields in the payload.
    InvalidInstruction,
    /// The first account did not sign the transaction.
    MissingSignature,
    /// The reward record is not owned by this program.
    WrongOwner,
    /// No derived address exists for a seed under this program.
    AddressDerivationFailed,
    /// The reward record is not at the address derived from its seed.
    InvalidDerivedAddress,
    /// `Init` found the record's address held by another program.
    OwnershipConflict,
    /// The host's rent parameters could not be read.
    RentUnavailable,
    /// The signer cannot fund the record's minimum balance.
    InsufficientBalance,
    /// The record's bytes do not hold a record.
    InvalidRecord,
    /// A counter would leave the `u32` range.
    Overflow,
    /// The record holds fewer points than the claim requires.
    InsufficientPoints,
    /// The signer is not the derived mint authority.
    InvalidAuthority,
    /// The account named as the token program is not it.
    IncorrectTokenProgram,
}

/// An account handle as the host presents it.
pub struct AccountState {
    pub key: [u8; 32],
    pub lamports: u64,
    pub owner: [u8; 32],
    pub is_signer: bool,
    pub data: Vec<u8>,
}

/// One step the host performs, in order, once the invocation is accepted.
pub enum Effect {
    /// Invoke the system program with `[signer, record, system program]`,
    /// signing for the record's address with its seed and `bump`.
    CreateRecordAccount { instruction: Instruction, bump: u8 },
    /// Invoke the system program with `[signer, record, system program]`.
    FundRecordAccount { instruction: Instruction },
    /// Resize the record's storage to `size` bytes, zero-filling new bytes.
    ResizeRecordAccount { size: usize },
    /// Write the record's encoding at the start of its storage.
    WriteRecord { record: RewardAccount },
    /// Invoke the token program with `[vault, user, token program, signer]`;
    /// with a `bump`, the record's account is the vault's authority and
    /// `[vault, user, token program, record]` is passed instead, signing for
    /// the record's address with its seed and `bump`.
    PayOut { instruction: Instruction, bump: Option<u8> },
    /// Invoke the token program with `[mint, vault, token program, signer]`,
    /// signing for the mint authority with its seed and `bump`.
    MintToVault { instruction: Instruction, bump: u8 },
}

/// Seed of the reward record's address: `"reward"`.
pub open spec fn reward_seed() -> Seq<u8> {
    seq![114u8, 101, 119, 97, 114, 100]
}

/// Seed of the mint authority's address: `"WAGUS"`.
pub open spec fn mint_authority_seed() -> Seq<u8> {
    seq![87u8, 65, 71, 85, 83]
}

/// The view of a decision.
pub open spec fn plan_view(r: Result<Vec<Effect>, RewardError>) -> Result<Seq<Effect>, RewardError> {
    match r {
        Ok(v) => Ok(v@),
        Err(e) => Err(e),
    }
}

/// `Init`: create the record, leave a valid one alone, or repair a corrupt one.
pub open spec fn init_spec(
    program_id: Seq<u8>,
    signer: AccountState,
    record: AccountState,
    mint: AccountState,
    rent: Option<u64>,
    bump: u8,
) -> Result<Seq<Effect>, RewardError> {
    let write = Effect::WriteRecord { record: fresh_record(mint.key) };
    let resize = Effect::ResizeRecordAccount { size: RECORD_SIZE };
    if record.lamports > 0 {
        if record.owner@ != program_id {
            Err(RewardError::OwnershipConflict)
        } else if decode_spec(record.data@) is Ok {
            Ok(Seq::empty())
        } else {
            match rent {
                None => Err(RewardError::RentUnavailable),
                Some(minimum) => if record.lamports >= minimum {
                    Ok(seq![resize, write])
                } else if signer.lamports < minimum - record.lamports {
                    Err(RewardError::InsufficientBalance)
                } else {
                    let fund = Effect::FundRecordAccount {
                        instruction: lamport_transfer_of(
                            signer.key@,
                            record.key@,
                            (minimum - record.lamports) as u64,
                        ),
                    };
                    Ok(seq![fund, resize, write])
                },
            }
        }
    } else {
        match rent {
            None => Err(RewardError::RentUnavailable),
            Some(minimum) => if signer.lamports < minimum {
                Err(RewardError::InsufficientBalance)
            } else {
                let create = Effect::CreateRecordAccount {
                    instruction: create_account_of(
                        signer.key@,
                        record.key@,
                        minimum,
                        RECORD_SIZE as u64,
                        program_id,
                    ),
                    bump,
                };
                Ok(seq![create, write])
            },
        }
    }
}

/// `Earn`: add points to the stored record.
pub open spec fn earn_plan(record: AccountState, points: u32) -> Result<Seq<Effect>, RewardError> {
    match decode_spec(record.data@) {
        Err(_) => Err(RewardError::InvalidRecord),
        Ok(current) => match earn_spec(current, points) {
            None => Err(RewardError::Overflow),
            Some(after) => Ok(seq![Effect::WriteRecord { record: after }]),
        },
    }
}

/// Whether a token account's bytes are an initialized token account whose
/// owner, the authority over its balance, is `key`.
pub open spec fn token_owner_is(data: Seq<u8>, key: Seq<u8>) -> bool {
    token_owner_of(data) == Some(key)
}

/// `Claim`: spend points, store the record, then pay out from the vault,
/// authorized by the record's derived address when that address controls the
/// vault, and by the signer otherwise.
pub open spec fn claim_plan(
    accounts: Seq<AccountState>,
    required_points: u32,
    amount: u64,
    bump: u8,
) -> Result<Seq<Effect>, RewardError> {
    let signer = accounts[0];
    let record = accounts[1];
    let user = accounts[2];
    let vault = accounts[3];
    let token_program = accounts[5];
    match decode_spec(record.data@) {
        Err(_) => Err(RewardError::InvalidRecord),
        Ok(current) => match redeem_spec(current, required_points) {
            Err(RedeemError::InsufficientPoints) => Err(RewardError::InsufficientPoints),
            Err(RedeemError::Overflow) => Err(RewardError::Overflow),
            Ok(after) => if token_program.key@ != token_program_id() {
                Err(RewardError::IncorrectTokenProgram)
            } else {
                let vault_by_record = token_owner_is(vault.data@, record.key@);
                let authority = if vault_by_record {
                    record.key@
                } else {
                    signer.key@
                };
                let pay = Effect::PayOut {
                    instruction: token_transfer_of(
                        token_program.key@,
                        vault.key@,
                        user.key@,
                        authority,
                        amount,
                    ),
                    bump: if vault_by_record {
                        Some(bump)
                    } else {
                        None
                    },
                };
                Ok(seq![Effect::WriteRecord { record: after }, pay])
            },
        },
    }
}

/// `MintToken`: mint into the vault, signed for by the derived mint authority.
pub open spec fn mint_plan(
    accounts: Seq<AccountState>,
    amount: u64,
    mint_authority: Option<(Seq<u8>, u8)>,
) -> Result<Seq<Effect>, RewardError> {
    let signer = accounts[0];
    let vault = accounts[3];
    let mint = accounts[4];
    let token_program = accounts[5];
    match mint_authority {
        None => Err(RewardError::AddressDerivationFailed),
        Some((authority, bump)) => if signer.key@ != authority {
            Err(RewardError::InvalidAuthority)
        } else if token_program.key@ != token_program_id() {
            Err(RewardError::IncorrectTokenProgram)
        } else {
            let mint_to = Effect::MintToVault {
                instruction: token_mint_to_of(
                    token_program.key@,
                    mint.key@,
                    vault.key@,
                    authority,
                    amount,
                ),
                bump,
            };
            Ok(seq![mint_to])
        },
    }
}

/// The whole decision, given the derived addresses of the record and of the
/// mint authority.
pub open spec fn process_spec(
    program_id: Seq<u8>,
    accounts: Seq<AccountState>,
    data: Seq<u8>,
    rent: Option<u64>,
    record_address: Option<(Seq<u8>, u8)>,
    mint_authority: Option<(Seq<u8>, u8)>,
) -> Result<Seq<Effect>, RewardError> {
    match parse_spec(data) {
        None => Err(RewardError::InvalidInstruction),
        Some(ix) => if accounts.len() == 0 {
            Err(RewardError::NotEnoughAccountKeys)
        } else if !accounts[0].is_signer {
            Err(RewardError::MissingSignature)
        } else if accounts.len() < ACCOUNTS_NEEDED {
            Err(RewardError::NotEnoughAccountKeys)
        } else if ix !is Init && accounts[1].owner@ != program_id {
            Err(RewardError::WrongOwner)
        } else {
            match record_address {
                None => Err(RewardError::AddressDerivationFailed),
                Some((address, bump)) => if accounts[1].key@ != address {
                    Err(RewardError::InvalidDerivedAddress)
                } else {
                    match ix {
                        RewardInstruction::Init => init_spec(
                            program_id,
                            accounts[0],
                            accounts[1],
                            accounts[4],
                            rent,
                            bump,
                        ),
                        RewardInstruction::Earn { points } => earn_plan(accounts[1], points),
                        RewardInstruction::Claim { required_points, amount } => claim_plan(
                            accounts,
                            required_points,
                            amount,
                            bump,
                        ),
                        RewardInstruction::MintToken { amount } => mint_plan(
                            accounts,
                            amount,
                            mint_authority,
                        ),
                    }
                },
            }
        },
    }
}

/// The mint authority that an invocation with payload `data` looks up.
pub open spec fn mint_authority_for(program_id: Seq<u8>, data: Seq<u8>) -> Option<(Seq<u8>, u8)> {
    if parse_spec(data) matches Some(RewardInstruction::MintToken { .. }) {
        program_address_of(mint_authority_seed(), program_id)
    } else {
        None
    }
}

/// Whether two keys are the same.
pub fn same_key(a: &[u8; 32], b: &[u8; 32]) -> (r: bool)
    ensures
        r == (a@ == b@),
{
    let mut i: usize = 0;
    while i < 32
        invariant
            0 <= i <= 32,
            forall|j: int| 0 <= j < i ==> a@[j] == b@[j],
        decreases 32 - i,
    {
        if a[i] != b[i] {
            return false;
        }
        i = i + 1;
    }
    assert(a@ =~= b@);
    true
}

fn reward_seed_bytes() -> (s: Vec<u8>)
    ensures
        s@ == reward_seed(),
{
    let s = vec![114u8, 101, 119, 97, 114, 100];
    assert(s@ =~= reward_seed());
    s
}

fn mint_authority_seed_bytes() -> (s: Vec<u8>)
    ensures
        s@ == mint_authority_seed(),
{
    let s = vec![87u8, 65, 71, 85, 83];
    assert(s@ =~= mint_authority_seed());
    s
}

fn init(
    program_id: &[u8; 32],
    signer: &AccountState,
    record: &AccountState,
    mint: &AccountState,
    rent: Option<u64>,
    bump: u8,
) -> (r: Result<Vec<Effect>, RewardError>)
    ensures
        plan_view(r) == init_spec(program_id@, *signer, *record, *mint, rent, bump),
{
    if record.lamports > 0 {
        if !same_key(&record.owner, program_id) {
            return Err(RewardError::OwnershipConflict);
        }
        if RewardAccount::unpack(record.data.as_slice()).is_ok() {
            return Ok(Vec::new());
        }
        let minimum = match rent {
            None => {
                return Err(RewardError::RentUnavailable);
            },
            Some(minimum) => minimum,
        };
        let write = Effect::WriteRecord { record: RewardAccount::new(mint.key) };
        let resize = Effect::ResizeRecordAccount { size: RECORD_SIZE };
        if record.lamports < minimum {
            let shortfall = minimum - record.lamports;
            if signer.lamports < shortfall {
                return Err(RewardError::InsufficientBalance);
            }
            let instruction = lamport_transfer(&signer.key, &record.key, shortfall);
            let effects = vec![Effect::FundRecordAccount { instruction }, resize, write];
            assert(effects@ =~= seq![
                Effect::FundRecordAccount {
                    instruction: lamport_transfer_of(signer.key@, record.key@, shortfall),
                },
                Effect::ResizeRecordAccount { size: RECORD_SIZE },
                Effect::WriteRecord { record: fresh_record(mint.key) },
            ]);
            return Ok(effects);
        }
        let effects = vec![resize, write];
        assert(effects@ =~= seq![
            Effect::ResizeRecordAccount { size: RECORD_SIZE },
            Effect::WriteRecord { record: fresh_record(mint.key) },
        ]);
        Ok(effects)
    } else {
        let minimum = match rent {
            None => {
                return Err(RewardError::RentUnavailable);
            },
            Some(minimum) => minimum,
        };
        if signer.lamports < minimum {
            return Err(RewardError::InsufficientBalance);
        }
        let instruction = create_account(
            &signer.key,
            &record.key,
            minimum,
            RECORD_SIZE as u64,
            program_id,
        );
        let effects = vec![
            Effect::CreateRecordAccount { instruction, bump },
            Effect::WriteRecord { record: RewardAccount::new(mint.key) },
        ];
        assert(effects@ =~= seq![
            Effect::CreateRecordAccount {
                instruction: create_account_of(
                    signer.key@,
                    record.key@,
                    minimum,
                    RECORD_SIZE as u64,
                    program_id@,
                ),
                bump,
            },
            Effect::WriteRecord { record: fresh_record(mint.key) },
        ]);
        Ok(effects)
    }
}

fn earn(record: &AccountState, points: u32) -> (r: Result<Vec<Effect>, RewardError>)
    ensures
        plan_view(r) == earn_plan(*record, points),
{
    let current = match RewardAccount::unpack(record.data.as_slice()) {
        Err(_) => {
            return Err(RewardError::InvalidRecord);
        },
        Ok(current) => current,
    };
    match current.earn(points) {
        None => Err(RewardError::Overflow),
        Some(after) => {
            let effects = vec![Effect::WriteRecord { record: after }];
            assert(effects@ =~= seq![Effect::WriteRecord { record: after }]);
            Ok(effects)
        },
    }
}

/// Whether `data`, read as a token account, names `key` as its owner.
fn token_owner_matches(data: &Vec<u8>, key: &[u8; 32]) -> (r: bool)
    ensures
        r == token_owner_is(data@, key@),
{
    match token_account_owner(data.as_slice()) {
        Some(owner) => same_key(&owner, key),
        None => false,
    }
}

fn claim(accounts: &[AccountState], required_points: u32, amount: u64, bump: u8) -> (r: Result<
    Vec<Effect>,
    RewardError,
>)
    requires
        accounts@.len() >= ACCOUNTS_NEEDED,
    ensures
        plan_view(r) == claim_plan(accounts@, required_points, amount, bump),
{
    let signer = &accounts[0];
    let record = &accounts[1];
    let user = &accounts[2];
    let vault = &accounts[3];
    let token_program = &accounts[5];
    let current = match RewardAccount::unpack(record.data.as_slice()) {
        Err(_) => {
            return Err(RewardError::InvalidRecord);
        },
        Ok(current) => current,
    };
    let after = match current.redeem(required_points) {
        Err(RedeemError::InsufficientPoints) => {
            return Err(RewardError::InsufficientPoints);
        },
        Err(RedeemError::Overflow) => {
            return Err(RewardError::Overflow);
        },
        Ok(after) => after,
    };
    let vault_by_record = token_owner_matches(&vault.data, &record.key);
    let authority = if vault_by_record {
        &record.key
    } else {
        &signer.key
    };
    let instruction = match token_transfer(
        &token_program.key,
        &vault.key,
        &user.key,
        authority,
        amount,
    ) {
        Err(_) => {
            return Err(RewardError::IncorrectTokenProgram);
        },
        Ok(instruction) => instruction,
    };
    let pay_bump = if vault_by_record {
        Some(bump)
    } else {
        None
    };
    let effects = vec![
        Effect::WriteRecord { record: after },
        Effect::PayOut { instruction, bump: pay_bump },
    ];
    assert(effects@ =~= seq![
        Effect::WriteRecord { record: after },
        Effect::PayOut {
            instruction: token_transfer_of(
                token_program.key@,
                vault.key@,
                user.key@,
                authority@,
                amount,
            ),
            bump: pay_bump,
        },
    ]);
    Ok(effects)
}

fn mint_token(
    accounts: &[AccountState],
    amount: u64,
    mint_authority: Option<([u8; 32], u8)>,
) -> (r: Result<Vec<Effect>, RewardError>)
    requires
        accounts@.len() >= ACCOUNTS_NEEDED,
    ensures
        plan_view(r) == mint_plan(accounts@, amount, found_view(mint_authority)),
{
    let signer = &accounts[0];
    let vault = &accounts[3];
    let mint = &accounts[4];
    let token_program = &accounts[5];
    let (authority, bump) = match mint_authority {
        None => {
            return Err(RewardError::AddressDerivationFailed);
        },
        Some(found) => found,
    };
    if !same_key(&signer.key, &authority) {
        return Err(RewardError::InvalidAuthority);
    }
    let instruction = match token_mint_to(
        &token_program.key,
        &mint.key,
        &vault.key,
        &authority,
        amount,
    ) {
        Err(_) => {
            return Err(RewardError::IncorrectTokenProgram);
        },
        Ok(instruction) => instruction,
    };
    let effects = vec![Effect::MintToVault { instruction, bump }];
    assert(effects@ =~= seq![
        Effect::MintToVault {
            instruction: token_mint_to_of(
                token_program.key@,
                mint.key@,
                vault.key@,
                authority@,
                amount,
            ),
            bump,
        },
    ]);
    Ok(effects)
}

/// Decides one invocation, given what the address search found for the
/// record's seed and, for `MintToken`, for the mint authority's seed.
pub fn process_with_addresses(
    program_id: &[u8; 32],
    accounts: &[AccountState],
    data: &[u8],
    rent: Option<u64>,
    record_address: Option<([u8; 32], u8)>,
    mint_authority: Option<([u8; 32], u8)>,
) -> (r: Result<Vec<Effect>, RewardError>)
    ensures
        plan_view(r) == process_spec(
            program_id@,
            accounts@,
            data@,
            rent,
            found_view(record_address),
            found_view(mint_authority),
        ),
{
    let ix = match RewardInstruction::unpack(data) {
        None => {
            return Err(RewardError::InvalidInstruction);
        },
        Some(ix) => ix,
    };
    if accounts.len() == 0 {
        return Err(RewardError::NotEnoughAccountKeys);
    }
    if !accounts[0].is_signer {
        return Err(RewardError::MissingSignature);
    }
    if accounts.len() < ACCOUNTS_NEEDED {
        return Err(RewardError::NotEnoughAccountKeys);
    }
    let is_init = match ix {
        RewardInstruction::Init => true,
        _ => false,
    };
    if !is_init && !same_key(&accounts[1].owner, program_id) {
        return Err(RewardError::WrongOwner);
    }
    let (address, bump) = match record_address {
        None => {
            return Err(RewardError::AddressDerivationFailed);
        },
        Some(found) => found,
    };
    if !same_key(&accounts[1].key, &address) {
        return Err(RewardError::InvalidDerivedAddress);
    }
    match ix {
        RewardInstruction::Init => init(
            program_id,
            &accounts[0],
            &accounts[1],
            &accounts[4],
            rent,
            bump,
        ),
        RewardInstruction::Earn { points } => earn(&accounts[1], points),
        RewardInstruction::Claim { required_points, amount } => claim(
            accounts,
            required_points,
            amount,
            bump,
        ),
        RewardInstruction::MintToken { amount } => mint_token(accounts, amount, mint_authority),
    }
}

/// Decides one invocation: validates the payload and accounts and returns the
/// effects that carry out the instruction, or the reason it is refused.
/// `rent` is the minimum balance that keeps a record's storage alive, if the
/// host could supply it.
pub fn process_instruction(
    program_id: &[u8; 32],
    accounts: &[AccountState],
    data: &[u8],
    rent: Option<u64>,
) -> (r: Result<Vec<Effect>, RewardError>)
    ensures
        plan_view(r) == process_spec(
            program_id@,
            accounts@,
            data@,
            rent,
            program_address_of(reward_seed(), program_id@),
            mint_authority_for(program_id@, data@),
        ),
{
    let seed = reward_seed_bytes();
    let record_address = derive_address(seed.as_slice(), program_id);
    let mint_authority = match RewardInstruction::unpack(data) {
        Some(RewardInstruction::MintToken { .. }) => {
            let seed = mint_authority_seed_bytes();
            derive_address(seed.as_slice(), program_id)
        },
        _ => None,
    };
    process_with_addresses(program_id, accounts, data, rent, record_address, mint_authority)
}

/// `Init` is idempotent. A successful first `Init` either finds a valid record
/// and asks for nothing, or ends by writing the fresh record; and once the
/// record's storage, owned by this program and funded, holds that fresh
/// record, a second `Init` on otherwise the same accounts succeeds and asks
/// for nothing. (A mint key of all zero bytes is left out: the fresh record
/// then encodes as all zero bytes, which reads as never written.)
pub proof fn lemma_init_idempotent(
    program_id: Seq<u8>,
    accounts: Seq<AccountState>,
    data: Seq<u8>,
    rent: Option<u64>,
    record_address: Option<(Seq<u8>, u8)>,
    mint_authority: Option<(Seq<u8>, u8)>,
    stored: AccountState,
)
    requires
        parse_spec(data) == Some(RewardInstruction::Init),
        process_spec(program_id, accounts, data, rent, record_address, mint_authority) is Ok,
        stored.key == accounts[1].key,
        stored.owner@ == program_id,
        stored.lamports > 0,
        stored.data@ == encode_spec(fresh_record(accounts[4].key)),
        !all_zero(accounts[4].key@),
    ensures
        ({
            let effects = process_spec(
                program_id,
                accounts,
                data,
                rent,
                record_address,
                mint_authority,
            )->Ok_0;
            effects.len() == 0 || effects.last() == Effect::WriteRecord {
                record: fresh_record(accounts[4].key),
            }
        }),
        process_spec(
            program_id,
            accounts.update(1, stored),
            data,
            rent,
            record_address,
            mint_authority,
        ) == Ok::<Seq<Effect>, RewardError>(Seq::empty()),
{
    lemma_encoding_written(fresh_record(accounts[4].key));
    lemma_record_round_trip(fresh_record(accounts[4].key));
    let second = accounts.update(1, stored);
    assert(second[0] == accounts[0]);
    assert(second[1] == stored);
}

/// `Init` on a record that this program owns but whose bytes are not a record
/// repairs it, when the minimum balance is known and the signer can cover any
/// shortfall: it resizes the storage and writes the fresh record, and never
/// asks for the account to be created, which is the only step that assigns an
/// owner.
pub proof fn lemma_init_repairs(
    program_id: Seq<u8>,
    accounts: Seq<AccountState>,
    data: Seq<u8>,
    minimum: u64,
    bump: u8,
    mint_authority: Option<(Seq<u8>, u8)>,
)
    requires
        parse_spec(data) == Some(RewardInstruction::Init),
        accounts.len() >= ACCOUNTS_NEEDED,
        accounts[0].is_signer,
        accounts[1].lamports > 0,
        accounts[1].owner@ == program_id,
        decode_spec(accounts[1].data@) is Err,
        accounts[1].lamports < minimum ==> accounts[0].lamports >= minimum - accounts[1].lamports,
    ensures
        ({
            let r = process_spec(
                program_id,
                accounts,
                data,
                Some(minimum),
                Some((accounts[1].key@, bump)),
                mint_authority,
            );
            &&& r is Ok
            &&& r->Ok_0.len() >= 2
            &&& r->Ok_0.last() == Effect::WriteRecord { record: fresh_record(accounts[4].key) }
            &&& r->Ok_0[r->Ok_0.len() - 2] == Effect::ResizeRecordAccount { size: RECORD_SIZE }
            &&& forall|i: int|
                0 <= i < r->Ok_0.len() ==> !(#[trigger] r->Ok_0[i] is CreateRecordAccount)
        }),
{
}

/// `Init` on a live record held by another program always fails, so nothing
/// is written; once the signer and the derived address check out, the
/// failure is the ownership conflict.
pub proof fn lemma_init_foreign_owner(
    program_id: Seq<u8>,
    accounts: Seq<AccountState>,
    data: Seq<u8>,
    rent: Option<u64>,
    record_address: Option<(Seq<u8>, u8)>,
    mint_authority: Option<(Seq<u8>, u8)>,
)
    requires
        parse_spec(data) == Some(RewardInstruction::Init),
        accounts.len() >= ACCOUNTS_NEEDED,
        accounts[1].lamports > 0,
        accounts[1].owner@ != program_id,
    ensures
        process_spec(program_id, accounts, data, rent, record_address, mint_authority) is Err,
        (accounts[0].is_signer && record_address is Some && record_address->Some_0.0
            == accounts[1].key@) ==> process_spec(
            program_id,
            accounts,
            data,
            rent,
            record_address,
            mint_authority,
        ) == Err::<Seq<Effect>, RewardError>(RewardError::OwnershipConflict),
{
}

/// On a valid claim context (signed, owned record at its derived address,
/// holding a record whose claim counter has room, and the real token
/// program), `Claim` succeeds exactly when the record holds at least
/// `required_points`; it then writes the record with the points lowered by
/// that much and one more claim, before the payout, and on failure it
/// reports insufficient points and writes nothing.
pub proof fn lemma_claim(
    program_id: Seq<u8>,
    accounts: Seq<AccountState>,
    data: Seq<u8>,
    rent: Option<u64>,
    bump: u8,
    mint_authority: Option<(Seq<u8>, u8)>,
    required_points: u32,
    amount: u64,
)
    requires
        parse_spec(data) == Some(RewardInstruction::Claim { required_points, amount }),
        accounts.len() >= ACCOUNTS_NEEDED,
        accounts[0].is_signer,
        accounts[1].owner@ == program_id,
        decode_spec(accounts[1].data@) is Ok,
        decode_spec(accounts[1].data@)->Ok_0.rewards_claimed < u32::MAX,
        accounts[5].key@ == token_program_id(),
    ensures
        ({
            let current = decode_spec(accounts[1].data@)->Ok_0;
            let r = process_spec(
                program_id,
                accounts,
                data,
                rent,
                Some((accounts[1].key@, bump)),
                mint_authority,
            );
            &&& r is Ok <==> current.total_points >= required_points
            &&& r is Ok ==> r->Ok_0.len() == 2 && r->Ok_0[0] == Effect::WriteRecord {
                record: RewardAccount {
                    total_points: (current.total_points - required_points) as u32,
                    rewards_claimed: (current.rewards_claimed + 1) as u32,
                    mint: current.mint,
                },
            } && r->Ok_0[1] is PayOut
            &&& r is Err ==> r == Err::<Seq<Effect>, RewardError>(RewardError::InsufficientPoints)
        }),
{
}

/// On a valid earn context (signed, the record owned by this program at its
/// derived address and holding a record), `Earn { points }` plans exactly one
/// write: the record with `points` added, when the sum stays within `u32`.
/// Otherwise it fails with `Overflow`, and nothing is written.
pub proof fn lemma_earn(
    program_id: Seq<u8>,
    accounts: Seq<AccountState>,
    data: Seq<u8>,
    rent: Option<u64>,
    bump: u8,
    mint_authority: Option<(Seq<u8>, u8)>,
    points: u32,
)
    requires
        parse_spec(data) == Some(RewardInstruction::Earn { points }),
        accounts.len() >= ACCOUNTS_NEEDED,
        accounts[0].is_signer,
        accounts[1].owner@ == program_id,
        decode_spec(accounts[1].data@) is Ok,
    ensures
        ({
            let current = decode_spec(accounts[1].data@)->Ok_0;
            let r = process_spec(
                program_id,
                accounts,
                data,
                rent,
                Some((accounts[1].key@, bump)),
                mint_authority,
            );
            &&& current.total_points + points <= u32::MAX ==> r == Ok::<
                Seq<Effect>,
                RewardError,
            >(
                seq![
                    Effect::WriteRecord {
                        record: RewardAccount {
                            total_points: (current.total_points + points) as u32,
                            ..current
                        },
                    },
                ],
            )
            &&& current.total_points + points > u32::MAX ==> r == Err::<Seq<Effect>, RewardError>(
                RewardError::Overflow,
            )
        }),
{
}

/// A stored record survives the trip through storage: on a valid earn
/// context whose record bytes are the encoding of `rec` (not all zero bytes),
/// `Earn { points: 0 }` plans one write of `rec` itself.
pub proof fn lemma_stored_record_read_back(
    program_id: Seq<u8>,
    accounts: Seq<AccountState>,
    data: Seq<u8>,
    rent: Option<u64>,
    bump: u8,
    mint_authority: Option<(Seq<u8>, u8)>,
    rec: RewardAccount,
)
    requires
        parse_spec(data) == Some(RewardInstruction::Earn { points: 0 }),
        accounts.len() >= ACCOUNTS_NEEDED,
        accounts[0].is_signer,
        accounts[1].owner@ == program_id,
        accounts[1].data@ == encode_spec(rec),
        !all_zero(encode_spec(rec)),
    ensures
        process_spec(
            program_id,
            accounts,
            data,
            rent,
            Some((accounts[1].key@, bump)),
            mint_authority,
        ) == Ok::<Seq<Effect>, RewardError>(seq![Effect::WriteRecord { record: rec }]),
{
    lemma_record_round_trip(rec);
    assert(RewardAccount { total_points: (rec.total_points + 0) as u32, ..rec } == rec);
}

} // verus!
