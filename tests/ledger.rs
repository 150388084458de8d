use reward_ledger::instruction::RewardInstruction;
use reward_ledger::processor::{
    process_instruction, process_with_addresses, same_key, AccountState, Effect, RewardError,
};
use reward_ledger::record::{DecodeError, RedeemError, RewardAccount, RECORD_SIZE};
use solana_program::pubkey::Pubkey;

const RENT: u64 = 1_169_280;
const PROGRAM: [u8; 32] = [7u8; 32];
const MINT: [u8; 32] = [9u8; 32];

fn account(key: [u8; 32], lamports: u64, owner: [u8; 32], is_signer: bool, data: Vec<u8>) -> AccountState {
    AccountState { key, lamports, owner, is_signer, data }
}

fn record_key() -> [u8; 32] {
    Pubkey::find_program_address(&[b"reward"], &Pubkey::new_from_array(PROGRAM)).0.to_bytes()
}

fn token_program_key() -> [u8; 32] {
    spl_token::id().to_bytes()
}

/// The seven accounts, with a record account as given.
fn accounts_with(record: AccountState) -> Vec<AccountState> {
    vec![
        account([1u8; 32], 5_000_000_000, [0u8; 32], true, vec![]),
        record,
        account([2u8; 32], 0, token_program_key(), false, vec![]),
        account([3u8; 32], 0, token_program_key(), false, vec![]),
        account(MINT, 0, token_program_key(), false, vec![]),
        account(token_program_key(), 1, [0u8; 32], false, vec![]),
        account([0u8; 32], 1, [0u8; 32], false, vec![]),
    ]
}

fn stored(rec: RewardAccount) -> AccountState {
    account(record_key(), RENT, PROGRAM, false, rec.pack())
}

fn run(accounts: &[AccountState], ix: RewardInstruction) -> Result<Vec<Effect>, RewardError> {
    process_instruction(&PROGRAM, accounts, &ix.pack(), Some(RENT))
}

fn rec(total_points: u32, rewards_claimed: u32) -> RewardAccount {
    RewardAccount { total_points, rewards_claimed, mint: MINT }
}

fn written(effects: &[Effect]) -> RewardAccount {
    match effects.last() {
        Some(Effect::WriteRecord { record }) => *record,
        _ => panic!("the last effect is not a record write"),
    }
}

fn le(bytes: &[u8], x: u64) -> Vec<u8> {
    let mut v = bytes.to_vec();
    v.extend_from_slice(&x.to_le_bytes());
    v
}

#[test]
fn scenario_fresh_deploy_earn_claim() {
    // Init on a slot that does not exist yet.
    let empty = account(record_key(), 0, [0u8; 32], false, vec![]);
    let effects = run(&accounts_with(empty), RewardInstruction::Init).unwrap();
    assert_eq!(effects.len(), 2);
    assert!(matches!(effects[0], Effect::CreateRecordAccount { .. }));
    assert_eq!(written(&effects), rec(0, 0));

    let effects = run(&accounts_with(stored(rec(0, 0))), RewardInstruction::Earn { points: 10 }).unwrap();
    assert_eq!(effects.len(), 1);
    assert_eq!(written(&effects), rec(10, 0));

    let r = run(&accounts_with(stored(rec(10, 0))), RewardInstruction::Earn { points: 4294967290 });
    assert_eq!(r.err(), Some(RewardError::Overflow));

    let effects = run(
        &accounts_with(stored(rec(10, 0))),
        RewardInstruction::Claim { required_points: 10, amount: 1000000 },
    )
    .unwrap();
    assert_eq!(effects.len(), 2);
    match &effects[0] {
        Effect::WriteRecord { record } => assert_eq!(*record, rec(0, 1)),
        _ => panic!("the record must be written before the payout"),
    }
    match &effects[1] {
        Effect::PayOut { instruction, bump } => {
            assert_eq!(*bump, None);
            assert_eq!(instruction.program_id, spl_token::id());
            assert_eq!(instruction.data, le(&[3u8], 1000000));
            assert_eq!(instruction.accounts[0].pubkey.to_bytes(), [3u8; 32]);
            assert_eq!(instruction.accounts[1].pubkey.to_bytes(), [2u8; 32]);
            assert_eq!(instruction.accounts[2].pubkey.to_bytes(), [1u8; 32]);
        }
        _ => panic!("expected a payout"),
    }

    let r = run(
        &accounts_with(stored(rec(0, 1))),
        RewardInstruction::Claim { required_points: 1, amount: 1000000 },
    );
    assert_eq!(r.err(), Some(RewardError::InsufficientPoints));
}

#[test]
fn init_creates_account_with_rent_and_size() {
    let empty = account(record_key(), 0, [0u8; 32], false, vec![]);
    let effects = run(&accounts_with(empty), RewardInstruction::Init).unwrap();
    match &effects[0] {
        Effect::CreateRecordAccount { instruction, bump } => {
            let (_, expected_bump) =
                Pubkey::find_program_address(&[b"reward"], &Pubkey::new_from_array(PROGRAM));
            assert_eq!(*bump, expected_bump);
            let mut data = vec![0u8, 0, 0, 0];
            data.extend_from_slice(&RENT.to_le_bytes());
            data.extend_from_slice(&(RECORD_SIZE as u64).to_le_bytes());
            data.extend_from_slice(&PROGRAM);
            assert_eq!(instruction.data, data);
            assert_eq!(instruction.accounts[0].pubkey.to_bytes(), [1u8; 32]);
            assert_eq!(instruction.accounts[1].pubkey.to_bytes(), record_key());
        }
        _ => panic!("expected account creation"),
    }
}

#[test]
fn init_is_idempotent_on_valid_record() {
    let accounts = accounts_with(stored(rec(0, 0)));
    assert_eq!(run(&accounts, RewardInstruction::Init).unwrap().len(), 0);
    assert_eq!(run(&accounts, RewardInstruction::Init).unwrap().len(), 0);
    let accounts = accounts_with(stored(rec(55, 3)));
    assert_eq!(run(&accounts, RewardInstruction::Init).unwrap().len(), 0);
}

#[test]
fn init_repairs_corrupt_record_with_top_up() {
    let corrupt = account(record_key(), 1000, PROGRAM, false, vec![1, 2, 3]);
    let effects = run(&accounts_with(corrupt), RewardInstruction::Init).unwrap();
    assert_eq!(effects.len(), 3);
    match &effects[0] {
        Effect::FundRecordAccount { instruction } => {
            assert_eq!(instruction.data, le(&[2u8, 0, 0, 0], RENT - 1000));
        }
        _ => panic!("expected a top-up"),
    }
    assert!(matches!(effects[1], Effect::ResizeRecordAccount { size: 40 }));
    assert_eq!(written(&effects), rec(0, 0));
}

#[test]
fn init_repairs_corrupt_record_without_top_up() {
    let corrupt = account(record_key(), RENT, PROGRAM, false, vec![0u8; 41]);
    let effects = run(&accounts_with(corrupt), RewardInstruction::Init).unwrap();
    assert_eq!(effects.len(), 2);
    assert!(matches!(effects[0], Effect::ResizeRecordAccount { size: 40 }));
    assert_eq!(written(&effects), rec(0, 0));
}

#[test]
fn init_on_foreign_record_is_ownership_conflict() {
    let foreign = account(record_key(), RENT, [5u8; 32], false, rec(1, 1).pack());
    let r = run(&accounts_with(foreign), RewardInstruction::Init);
    assert_eq!(r.err(), Some(RewardError::OwnershipConflict));
}

#[test]
fn init_without_rent_fails() {
    let empty = account(record_key(), 0, [0u8; 32], false, vec![]);
    let r = process_instruction(&PROGRAM, &accounts_with(empty), &[0u8], None);
    assert_eq!(r.err(), Some(RewardError::RentUnavailable));
}

#[test]
fn init_with_poor_signer_fails() {
    let empty = account(record_key(), 0, [0u8; 32], false, vec![]);
    let mut accounts = accounts_with(empty);
    accounts[0].lamports = RENT - 1;
    let r = run(&accounts, RewardInstruction::Init);
    assert_eq!(r.err(), Some(RewardError::InsufficientBalance));
}

#[test]
fn unknown_instruction_is_rejected_first() {
    let r = process_instruction(&PROGRAM, &[], &[9u8], Some(RENT));
    assert_eq!(r.err(), Some(RewardError::InvalidInstruction));
    let r = process_instruction(&PROGRAM, &[], &[1u8, 0, 0], Some(RENT));
    assert_eq!(r.err(), Some(RewardError::InvalidInstruction));
    let r = process_instruction(&PROGRAM, &[], &[], Some(RENT));
    assert_eq!(r.err(), Some(RewardError::InvalidInstruction));
}

#[test]
fn too_few_accounts() {
    let mut accounts = accounts_with(stored(rec(0, 0)));
    accounts.truncate(6);
    let r = run(&accounts, RewardInstruction::Earn { points: 1 });
    assert_eq!(r.err(), Some(RewardError::NotEnoughAccountKeys));
}

#[test]
fn unsigned_signer_is_refused() {
    let mut accounts = accounts_with(stored(rec(0, 0)));
    accounts[0].is_signer = false;
    let r = run(&accounts, RewardInstruction::Earn { points: 1 });
    assert_eq!(r.err(), Some(RewardError::MissingSignature));
}

#[test]
fn record_of_other_program_is_refused() {
    let mut accounts = accounts_with(stored(rec(0, 0)));
    accounts[1].owner = [5u8; 32];
    let r = run(&accounts, RewardInstruction::Earn { points: 1 });
    assert_eq!(r.err(), Some(RewardError::WrongOwner));
}

#[test]
fn record_at_wrong_address_is_refused() {
    let mut accounts = accounts_with(stored(rec(0, 0)));
    accounts[1].key = [4u8; 32];
    let r = run(&accounts, RewardInstruction::Earn { points: 1 });
    assert_eq!(r.err(), Some(RewardError::InvalidDerivedAddress));
}

#[test]
fn earn_on_malformed_record_fails() {
    let bad = account(record_key(), RENT, PROGRAM, false, vec![1u8; 39]);
    let r = run(&accounts_with(bad), RewardInstruction::Earn { points: 1 });
    assert_eq!(r.err(), Some(RewardError::InvalidRecord));
}

#[test]
fn earn_up_to_the_limit() {
    let effects = run(&accounts_with(stored(rec(10, 2))), RewardInstruction::Earn { points: u32::MAX - 10 }).unwrap();
    assert_eq!(written(&effects), rec(u32::MAX, 2));
}

#[test]
fn claim_with_exhausted_counter_overflows() {
    let r = run(
        &accounts_with(stored(rec(10, u32::MAX))),
        RewardInstruction::Claim { required_points: 1, amount: 5 },
    );
    assert_eq!(r.err(), Some(RewardError::Overflow));
}

#[test]
fn claim_with_wrong_token_program_fails() {
    let mut accounts = accounts_with(stored(rec(10, 0)));
    accounts[5].key = [6u8; 32];
    let r = run(&accounts, RewardInstruction::Claim { required_points: 1, amount: 5 });
    assert_eq!(r.err(), Some(RewardError::IncorrectTokenProgram));
}

#[test]
fn mint_by_derived_authority() {
    let (authority, bump) =
        Pubkey::find_program_address(&[b"WAGUS"], &Pubkey::new_from_array(PROGRAM));
    let mut accounts = accounts_with(stored(rec(0, 0)));
    accounts[0].key = authority.to_bytes();
    let effects = run(&accounts, RewardInstruction::MintToken { amount: 77 }).unwrap();
    assert_eq!(effects.len(), 1);
    match &effects[0] {
        Effect::MintToVault { instruction, bump: b } => {
            assert_eq!(*b, bump);
            assert_eq!(instruction.program_id, spl_token::id());
            assert_eq!(instruction.data, le(&[7u8], 77));
            assert_eq!(instruction.accounts[0].pubkey.to_bytes(), MINT);
            assert_eq!(instruction.accounts[1].pubkey.to_bytes(), [3u8; 32]);
            assert_eq!(instruction.accounts[2].pubkey, authority);
        }
        _ => panic!("expected a mint"),
    }
}

#[test]
fn mint_by_other_signer_is_refused() {
    let accounts = accounts_with(stored(rec(0, 0)));
    let r = run(&accounts, RewardInstruction::MintToken { amount: 77 });
    assert_eq!(r.err(), Some(RewardError::InvalidAuthority));
}

#[test]
fn decision_with_given_addresses() {
    let accounts = accounts_with(stored(rec(3, 0)));
    let data = RewardInstruction::Earn { points: 4 }.pack();
    let r = process_with_addresses(&PROGRAM, &accounts, &data, None, Some((record_key(), 200)), None);
    assert_eq!(written(&r.unwrap()), rec(7, 0));
    let r = process_with_addresses(&PROGRAM, &accounts, &data, None, None, None);
    assert_eq!(r.err(), Some(RewardError::AddressDerivationFailed));
    let mint = RewardInstruction::MintToken { amount: 1 }.pack();
    let r = process_with_addresses(&PROGRAM, &accounts, &mint, None, Some((record_key(), 200)), None);
    assert_eq!(r.err(), Some(RewardError::AddressDerivationFailed));
}

#[test]
fn record_round_trip() {
    let r = RewardAccount { total_points: 0x01020304, rewards_claimed: 7, mint: MINT };
    let bytes = r.pack();
    assert_eq!(bytes.len(), RECORD_SIZE);
    assert_eq!(&bytes[0..8], &[4u8, 3, 2, 1, 7, 0, 0, 0]);
    assert_eq!(RewardAccount::unpack(&bytes), Ok(r));
}

#[test]
fn record_decode_errors() {
    assert_eq!(RewardAccount::unpack(&[]), Err(DecodeError::Uninitialized));
    assert_eq!(RewardAccount::unpack(&[0u8; 40]), Err(DecodeError::Uninitialized));
    assert_eq!(RewardAccount::unpack(&[0u8; 41]), Err(DecodeError::Uninitialized));
    assert_eq!(RewardAccount::unpack(&[1u8; 39]), Err(DecodeError::WrongLength));
    assert_eq!(RewardAccount::unpack(&[1u8; 41]), Err(DecodeError::WrongLength));
    let mut one_point = [0u8; 40];
    one_point[0] = 1;
    assert_eq!(
        RewardAccount::unpack(&one_point),
        Ok(RewardAccount { total_points: 1, rewards_claimed: 0, mint: [0u8; 32] })
    );
}

#[test]
fn pack_into_checks_room() {
    let r = rec(5, 6);
    let mut small = vec![9u8; 39];
    assert!(!r.pack_into(&mut small));
    assert_eq!(small, vec![9u8; 39]);
    let mut big = vec![9u8; 42];
    assert!(r.pack_into(&mut big));
    assert_eq!(&big[..40], &r.pack()[..]);
    assert_eq!(&big[40..], &[9u8, 9]);
}

#[test]
fn earn_and_redeem_on_records() {
    assert_eq!(rec(1, 0).earn(2), Some(rec(3, 0)));
    assert_eq!(rec(1, 0).earn(u32::MAX), None);
    let mut r = rec(0, 0);
    for p in [5u32, 10, 20] {
        r = r.earn(p).unwrap();
    }
    assert_eq!(r, rec(35, 0));
    assert_eq!(rec(10, 4).redeem(10), Ok(rec(0, 5)));
    assert_eq!(rec(9, 4).redeem(10), Err(RedeemError::InsufficientPoints));
    assert_eq!(rec(10, u32::MAX).redeem(1), Err(RedeemError::Overflow));
}

#[test]
fn instruction_encoding() {
    assert_eq!(RewardInstruction::Init.pack(), vec![0u8]);
    assert_eq!(RewardInstruction::Earn { points: 10 }.pack(), vec![1u8, 10, 0, 0, 0]);
    let claim = RewardInstruction::Claim { required_points: 10, amount: 1000000 };
    let bytes = claim.pack();
    assert_eq!(bytes, vec![2u8, 10, 0, 0, 0, 0x40, 0x42, 0x0f, 0, 0, 0, 0, 0]);
    assert_eq!(RewardInstruction::unpack(&bytes), Some(claim));
    let mint = RewardInstruction::MintToken { amount: 3 };
    assert_eq!(RewardInstruction::unpack(&mint.pack()), Some(mint));
    assert_eq!(RewardInstruction::unpack(&[4u8]), None);
    assert_eq!(RewardInstruction::unpack(&[0u8, 0]), None);
}

#[test]
fn keys_compare_bytewise() {
    assert!(same_key(&[3u8; 32], &[3u8; 32]));
    let mut other = [3u8; 32];
    other[31] = 4;
    assert!(!same_key(&[3u8; 32], &other));
}

#[test]
fn claim_from_vault_held_by_record_address() {
    let mut accounts = accounts_with(stored(rec(30, 0)));
    let mut vault_data = vec![0u8; 165];
    vault_data[32..64].copy_from_slice(&record_key());
    vault_data[108] = 1;
    accounts[3].data = vault_data;
    let effects = run(&accounts, RewardInstruction::Claim { required_points: 25, amount: 9 }).unwrap();
    match &effects[0] {
        Effect::WriteRecord { record } => assert_eq!(*record, rec(5, 1)),
        _ => panic!("the record must be written before the payout"),
    }
    match &effects[1] {
        Effect::PayOut { instruction, bump } => {
            let (_, expected_bump) =
                Pubkey::find_program_address(&[b"reward"], &Pubkey::new_from_array(PROGRAM));
            assert_eq!(*bump, Some(expected_bump));
            assert_eq!(instruction.accounts[2].pubkey.to_bytes(), record_key());
            assert_eq!(instruction.data, le(&[3u8], 9));
        }
        _ => panic!("expected a payout"),
    }
}

#[test]
fn claim_from_uninitialized_vault_uses_signer() {
    let mut accounts = accounts_with(stored(rec(30, 0)));
    let mut vault_data = vec![0u8; 165];
    vault_data[32..64].copy_from_slice(&record_key());
    accounts[3].data = vault_data;
    let effects = run(&accounts, RewardInstruction::Claim { required_points: 25, amount: 9 }).unwrap();
    match &effects[1] {
        Effect::PayOut { instruction, bump } => {
            assert_eq!(*bump, None);
            assert_eq!(instruction.accounts[2].pubkey.to_bytes(), [1u8; 32]);
        }
        _ => panic!("expected a payout"),
    }
}

#[test]
fn signature_is_checked_before_account_count() {
    let mut accounts = accounts_with(stored(rec(0, 0)));
    accounts[0].is_signer = false;
    for n in 1..=6 {
        let r = run(&accounts[..n], RewardInstruction::Earn { points: 1 });
        assert_eq!(r.err(), Some(RewardError::MissingSignature));
    }
    let r = run(&[], RewardInstruction::Earn { points: 1 });
    assert_eq!(r.err(), Some(RewardError::NotEnoughAccountKeys));
}

#[test]
fn earn_on_zeroed_record_is_uninitialized() {
    let zeroed = account(record_key(), RENT, PROGRAM, false, vec![0u8; 40]);
    let r = run(&accounts_with(zeroed), RewardInstruction::Earn { points: 1 });
    assert_eq!(r.err(), Some(RewardError::InvalidRecord));
}

#[test]
fn init_on_zeroed_record_initializes_it() {
    let zeroed = account(record_key(), RENT, PROGRAM, false, vec![0u8; 40]);
    let effects = run(&accounts_with(zeroed), RewardInstruction::Init).unwrap();
    assert_eq!(effects.len(), 2);
    assert_eq!(written(&effects), rec(0, 0));
}
