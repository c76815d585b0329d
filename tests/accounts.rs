use elusiv::accounts::{
    fee_seed, governor_seed, init_new_fee_version, open_multi_instance_account, open_pda_account_with_offset,
    open_single_instance_account, setup_governor_account, MultiInstancePDAAccountKind, PDAAccount,
    SingleInstancePDAAccountKind,
};
use elusiv::address::{derive_address, find_pda, pda_seed, signer_seeds, u64_to_le_bytes, U256};
use elusiv::error::ElusivError;
use elusiv::ledger::{Ledger, StorageUnit};
use solana_program::pubkey::Pubkey;

const PROGRAM: U256 = [7u8; 32];
const PAYER: U256 = [1u8; 32];

fn ledger_with_payer(lamports: u64) -> Ledger {
    let mut ledger = Ledger::new(PROGRAM);
    ledger
        .insert_unit(StorageUnit { address: PAYER, owner: [0u8; 32], lamports, data: vec![] })
        .unwrap();
    ledger
}

fn unit_at<'a>(ledger: &'a Ledger, address: &U256) -> &'a StorageUnit {
    &ledger.units[ledger.find_unit(address).unwrap()]
}

#[test]
fn error_codes_and_names() {
    assert_eq!(ElusivError::InvalidInstruction.code(), 0);
    assert_eq!(ElusivError::InvalidRecipient.code(), 16);
    assert_eq!(ElusivError::AddressDerivationMismatch.code(), 17);
    assert_eq!(ElusivError::InvalidFeeVersion.code(), 31);
    assert_eq!(ElusivError::CouldNotParseProof.fmt(), "CouldNotParseProof");
    assert_eq!(ElusivError::DuplicateOrAliasedAccount.fmt(), "DuplicateOrAliasedAccount");
}

#[test]
fn offsets_encode_little_endian() {
    assert_eq!(u64_to_le_bytes(0x0102030405060708), vec![8, 7, 6, 5, 4, 3, 2, 1]);
    assert_eq!(u64_to_le_bytes(0), vec![0; 8]);
    let seeds = pda_seed(&b"abc".to_vec(), &vec![1, 256]);
    assert_eq!(seeds, vec![b"abc".to_vec(), vec![1, 0, 0, 0, 0, 0, 0, 0], vec![0, 1, 0, 0, 0, 0, 0, 0]]);
    let signer = signer_seeds(&b"abc".to_vec(), Some(2), 254);
    assert_eq!(signer, vec![b"abc".to_vec(), vec![2, 0, 0, 0, 0, 0, 0, 0], vec![254]]);
}

#[test]
fn derivation_matches_the_runtime() {
    let program = Pubkey::new_from_array(PROGRAM);
    let (expected, bump) = Pubkey::find_program_address(&[b"pool"], &program);
    let (address, found_bump) = derive_address(&b"pool".to_vec(), None, &PROGRAM).unwrap();
    assert_eq!(address, expected.to_bytes());
    assert_eq!(found_bump, bump);
    assert_ne!(address, PROGRAM);

    let (expected, bump) = Pubkey::find_program_address(&[b"fee", &5u64.to_le_bytes()], &program);
    let (address, found_bump) = derive_address(&b"fee".to_vec(), Some(5), &PROGRAM).unwrap();
    assert_eq!(address, expected.to_bytes());
    assert_eq!(found_bump, bump);

    let again = find_pda(&b"fee".to_vec(), &vec![5], &PROGRAM).unwrap();
    assert_eq!(again, (address, found_bump));
}

#[test]
fn open_single_instance_twice_fails() {
    let mut ledger = ledger_with_payer(1_000);
    let kind = SingleInstancePDAAccountKind::PoolAccount;
    let (target, bump) = derive_address(&kind.seed(), None, &PROGRAM).unwrap();

    assert_eq!(open_single_instance_account(&mut ledger, &PAYER, &target, kind, 64, 100), Ok(bump));
    let unit = unit_at(&ledger, &target);
    assert_eq!(unit.owner, PROGRAM);
    assert_eq!(unit.lamports, 100);
    assert_eq!(unit.data, vec![0u8; 64]);
    assert_eq!(unit_at(&ledger, &PAYER).lamports, 900);

    assert_eq!(
        open_single_instance_account(&mut ledger, &PAYER, &target, kind, 64, 100),
        Err(ElusivError::AlreadyExists)
    );
    assert_eq!(ledger.units.len(), 2);
    assert_eq!(unit_at(&ledger, &PAYER).lamports, 900);
}

#[test]
fn open_with_wrong_target_fails() {
    let mut ledger = ledger_with_payer(1_000);
    let kind = SingleInstancePDAAccountKind::StorageAccount;
    let (other, _) = derive_address(&b"pool".to_vec(), None, &PROGRAM).unwrap();
    assert_eq!(
        open_single_instance_account(&mut ledger, &PAYER, &other, kind, 64, 100),
        Err(ElusivError::AddressDerivationMismatch)
    );
    assert_eq!(ledger.units.len(), 1);
}

#[test]
fn open_without_funds_fails() {
    let mut ledger = ledger_with_payer(99);
    let kind = SingleInstancePDAAccountKind::NullifierAccount;
    let (target, _) = derive_address(&kind.seed(), None, &PROGRAM).unwrap();
    assert_eq!(
        open_single_instance_account(&mut ledger, &PAYER, &target, kind, 8, 100),
        Err(ElusivError::InsufficientFunds)
    );
    assert_eq!(
        open_single_instance_account(&mut ledger, &[9u8; 32], &target, kind, 8, 100),
        Err(ElusivError::InsufficientFunds)
    );
    assert_eq!(ledger.units.len(), 1);
    assert_eq!(unit_at(&ledger, &PAYER).lamports, 99);
}

#[test]
fn open_multi_instance_per_offset() {
    let mut ledger = ledger_with_payer(1_000);
    let kind = MultiInstancePDAAccountKind::BaseCommitmentQueueAccount;
    assert_eq!(kind.seed(), b"base_commitment_queue".to_vec());
    let (first, _) = derive_address(&kind.seed(), Some(0), &PROGRAM).unwrap();
    let (second, _) = derive_address(&kind.seed(), Some(1), &PROGRAM).unwrap();
    assert_ne!(first, second);

    assert!(open_multi_instance_account(&mut ledger, &PAYER, &first, kind, 0, 16, 10).is_ok());
    assert_eq!(
        open_multi_instance_account(&mut ledger, &PAYER, &first, kind, 1, 16, 10),
        Err(ElusivError::AddressDerivationMismatch)
    );
    assert!(open_multi_instance_account(&mut ledger, &PAYER, &second, kind, 1, 16, 10).is_ok());
    assert_eq!(
        open_pda_account_with_offset(&mut ledger, &PAYER, &second, &kind.seed(), 16, 1, 10),
        Err(ElusivError::AlreadyExists)
    );
    assert_eq!(ledger.units.len(), 3);
    assert_eq!(unit_at(&ledger, &PAYER).lamports, 980);
}

#[test]
fn governor_and_fee_versions() {
    let mut ledger = ledger_with_payer(1_000);
    let (governor, _) = derive_address(&governor_seed(), None, &PROGRAM).unwrap();
    assert!(setup_governor_account(&mut ledger, &PAYER, &governor, 32, 10).is_ok());
    assert_eq!(unit_at(&ledger, &governor).data.len(), 32);

    let (fee, _) = derive_address(&fee_seed(), Some(0), &PROGRAM).unwrap();
    assert_eq!(
        init_new_fee_version(&mut ledger, &PAYER, 0, &fee, 1, 48, 10),
        Err(ElusivError::InvalidFeeVersion)
    );
    assert!(init_new_fee_version(&mut ledger, &PAYER, 0, &fee, 0, 48, 10).is_ok());
    assert_eq!(unit_at(&ledger, &fee).data, vec![0u8; 48]);
}

#[test]
fn insert_unit_rejects_existing_address() {
    let mut ledger = ledger_with_payer(5);
    let dup = StorageUnit { address: PAYER, owner: PROGRAM, lamports: 1, data: vec![1] };
    assert_eq!(ledger.insert_unit(dup), Err(ElusivError::AlreadyExists));
    assert_eq!(ledger.find_unit(&[3u8; 32]), None);
}
