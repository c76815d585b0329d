use elusiv::address::U256;
use elusiv::container::{
    bind_container, is_zero, setup_storage_account, verify_extern_data_account, verify_heterogen_sub_accounts,
    ContainerLayout, MultiAccountContainer, SubAccountRent,
};
use elusiv::error::ElusivError;
use elusiv::ledger::StorageUnit;

const PROGRAM: U256 = [7u8; 32];
const INTERMEDIARY_ACCOUNT_SIZE: usize = 1024;
const LAST_ACCOUNT_SIZE: usize = 320;
const COUNT: usize = 7;
const LAYOUT: ContainerLayout =
    ContainerLayout { count: COUNT, intermediary_size: INTERMEDIARY_ACCOUNT_SIZE, last_size: LAST_ACCOUNT_SIZE };
const RENT: SubAccountRent = SubAccountRent { intermediary: 5_000, last: 2_000 };

fn unit(id: u8, size: usize) -> StorageUnit {
    StorageUnit { address: [id; 32], owner: PROGRAM, lamports: u64::MAX / 2, data: vec![0; size] }
}

fn storage_accounts(sizes: [usize; COUNT]) -> Vec<StorageUnit> {
    sizes.iter().enumerate().map(|(i, &s)| unit(i as u8 + 10, s)).collect()
}

fn valid_accounts() -> Vec<StorageUnit> {
    let mut sizes = [INTERMEDIARY_ACCOUNT_SIZE; COUNT];
    sizes[COUNT - 1] = LAST_ACCOUNT_SIZE;
    storage_accounts(sizes)
}

#[test]
fn test_storage_account_valid() {
    let accounts = valid_accounts();
    verify_heterogen_sub_accounts(&accounts, LAYOUT, RENT, false, &PROGRAM).unwrap();
}

#[test]
#[should_panic]
fn test_storage_account_invalid_size() {
    let accounts = storage_accounts([
        INTERMEDIARY_ACCOUNT_SIZE,
        INTERMEDIARY_ACCOUNT_SIZE,
        INTERMEDIARY_ACCOUNT_SIZE,
        INTERMEDIARY_ACCOUNT_SIZE,
        INTERMEDIARY_ACCOUNT_SIZE,
        INTERMEDIARY_ACCOUNT_SIZE,
        LAST_ACCOUNT_SIZE - 1,
    ]);
    verify_heterogen_sub_accounts(&accounts, LAYOUT, RENT, false, &PROGRAM).unwrap();
}

#[test]
fn validator_rejects_wrong_size() {
    let u = unit(1, 100);
    assert_eq!(verify_extern_data_account(&u, 101, false, 0, &PROGRAM), Err(ElusivError::SizeOrLayoutViolation));
    assert_eq!(verify_extern_data_account(&u, 99, true, 0, &PROGRAM), Err(ElusivError::SizeOrLayoutViolation));
}

#[test]
fn validator_zero_policy() {
    let mut u = unit(1, 100);
    u.data[57] = 3;
    assert!(!is_zero(&u.data));
    assert_eq!(verify_extern_data_account(&u, 100, true, 0, &PROGRAM), Err(ElusivError::NotZeroed));
    assert_eq!(verify_extern_data_account(&u, 100, false, 0, &PROGRAM), Ok(()));
    let z = unit(2, 100);
    assert!(is_zero(&z.data));
    assert_eq!(verify_extern_data_account(&z, 100, true, 0, &PROGRAM), Ok(()));
}

#[test]
fn validator_rent_and_owner() {
    let mut u = unit(1, 10);
    u.lamports = 99;
    assert_eq!(verify_extern_data_account(&u, 10, false, 100, &PROGRAM), Err(ElusivError::NotRentExempt));
    assert_eq!(verify_extern_data_account(&u, 10, false, 99, &PROGRAM), Ok(()));
    u.owner = [8u8; 32];
    assert_eq!(verify_extern_data_account(&u, 10, false, 99, &PROGRAM), Err(ElusivError::OwnershipViolation));
}

#[test]
fn sub_accounts_report_first_failure() {
    let mut accounts = valid_accounts();
    accounts[2].owner = [0u8; 32];
    accounts[4].lamports = 0;
    assert_eq!(
        verify_heterogen_sub_accounts(&accounts, LAYOUT, RENT, false, &PROGRAM),
        Err(ElusivError::OwnershipViolation)
    );
    let mut accounts = valid_accounts();
    accounts[COUNT - 1].lamports = 1_999;
    assert_eq!(
        verify_heterogen_sub_accounts(&accounts, LAYOUT, RENT, false, &PROGRAM),
        Err(ElusivError::NotRentExempt)
    );
    let mut accounts = valid_accounts();
    accounts.pop();
    assert_eq!(
        verify_heterogen_sub_accounts(&accounts, LAYOUT, RENT, false, &PROGRAM),
        Err(ElusivError::SizeOrLayoutViolation)
    );
}

#[test]
fn bind_succeeds_exactly_once() {
    let accounts = valid_accounts();
    let mut container = MultiAccountContainer::new(LAYOUT);
    assert!(!container.pda_initialized());
    assert_eq!(container.get_child(0), Err(ElusivError::NotInitialized));

    assert_eq!(setup_storage_account(&mut container, &accounts, RENT, &PROGRAM), Ok(()));
    assert!(container.pda_initialized());
    let keys: Vec<U256> = accounts.iter().map(|u| u.address).collect();
    assert_eq!(container.get_all_pubkeys(), &keys);
    assert_eq!(container.get_child(3), Ok([13u8; 32]));
    assert_eq!(container.get_child(COUNT), Err(ElusivError::SizeOrLayoutViolation));

    let others = storage_accounts([INTERMEDIARY_ACCOUNT_SIZE; COUNT]);
    assert_eq!(
        setup_storage_account(&mut container, &accounts, RENT, &PROGRAM),
        Err(ElusivError::AlreadyInitialized)
    );
    assert_eq!(
        bind_container(&mut container, &others, RENT, false, &PROGRAM),
        Err(ElusivError::AlreadyInitialized)
    );
    assert_eq!(container.get_all_pubkeys(), &keys);
}

#[test]
fn bind_rejects_repeated_address() {
    let mut accounts = valid_accounts();
    accounts[5].address = accounts[1].address;
    let mut container = MultiAccountContainer::new(LAYOUT);
    assert_eq!(
        setup_storage_account(&mut container, &accounts, RENT, &PROGRAM),
        Err(ElusivError::DuplicateOrAliasedAccount)
    );
    assert!(!container.pda_initialized());
    assert!(container.get_all_pubkeys().is_empty());
}

#[test]
fn bind_validates_before_binding() {
    let mut accounts = valid_accounts();
    accounts[0].data[0] = 1;
    let mut container = MultiAccountContainer::new(LAYOUT);
    assert_eq!(bind_container(&mut container, &accounts, RENT, true, &PROGRAM), Err(ElusivError::NotZeroed));
    assert!(!container.pda_initialized());
    assert_eq!(bind_container(&mut container, &accounts, RENT, false, &PROGRAM), Ok(()));
    assert_eq!(container.layout(), LAYOUT);
}
