use elusiv::address::{find_pda, U256};
use elusiv::big_array::{ArrayLayout, BigArrayAccount, MAX_ACCOUNT_SIZE};
use elusiv::error::ElusivError;

const PROGRAM: U256 = [7u8; 32];

fn element(i: u32, width: usize) -> Vec<u8> {
    (0..width).map(|b| (i as usize * 31 + b) as u8).collect()
}

#[test]
fn shard_layout_under_default_ceiling() {
    let layout = ArrayLayout::new(20_000, 32);
    assert_eq!(layout.max_account_size, MAX_ACCOUNT_SIZE);
    assert_eq!(layout.max_values_per_account(), 312_500);
    assert_eq!(layout.accounts_count(), 1);
}

#[test]
fn shard_layout_under_reduced_ceiling() {
    let layout = ArrayLayout { size: 20_000, width: 32, max_account_size: 400_000 };
    assert_eq!(layout.max_values_per_account(), 12_500);
    assert_eq!(layout.accounts_count(), 2);
    assert_eq!(layout.account_and_local_index(12_499), (0, 12_499));
    assert_eq!(layout.account_and_local_index(12_500), (1, 0));
    assert_eq!(layout.account_and_local_index(19_999), (1, 7_499));
}

#[test]
fn shard_count_rounds_up() {
    let layout = ArrayLayout { size: 10, width: 3, max_account_size: 10 };
    assert_eq!(layout.max_values_per_account(), 3);
    assert_eq!(layout.accounts_count(), 4);
    let exact = ArrayLayout { size: 9, width: 3, max_account_size: 10 };
    assert_eq!(exact.accounts_count(), 3);
    let empty = ArrayLayout { size: 0, width: 3, max_account_size: 10 };
    assert_eq!(empty.accounts_count(), 0);
}

#[test]
fn index_split_recovers_every_index() {
    let layout = ArrayLayout { size: 1_000, width: 8, max_account_size: 100 };
    let per = layout.max_values_per_account();
    for i in 0..layout.size {
        let (shard, local) = layout.account_and_local_index(i);
        assert_eq!(shard * per + local, i);
        assert!(shard < layout.accounts_count());
        assert!(local < per);
    }
}

#[test]
fn set_then_get_round_trips() {
    let layout = ArrayLayout { size: 20_000, width: 32, max_account_size: 400_000 };
    let mut array = BigArrayAccount::new(layout);
    assert_eq!(array.get(12_500), vec![0u8; 32]);
    for &i in &[0u32, 12_499, 12_500, 19_999] {
        array.set(i as usize, &element(i, 32));
    }
    for &i in &[0u32, 12_499, 12_500, 19_999] {
        assert_eq!(array.get(i as usize), element(i, 32));
    }
    assert_eq!(array.get(1), vec![0u8; 32]);
    array.set(12_499, &vec![0xAA; 32]);
    assert_eq!(array.get(12_499), vec![0xAA; 32]);
    assert_eq!(array.get(12_500), element(12_500, 32));
    assert_eq!(array.get(12_498), vec![0u8; 32]);
}

#[test]
fn range_spanning_shards_is_copied_in_order() {
    let layout = ArrayLayout { size: 10, width: 3, max_account_size: 10 };
    let mut array = BigArrayAccount::new(layout);
    for i in 0..10u32 {
        array.set(i as usize, &element(i, 3));
    }
    let range = array.get_mut_array_slice(2, 7);
    let expected: Vec<u8> = (2..7u32).flat_map(|i| element(i, 3)).collect();
    assert_eq!(range, expected);
    assert!(array.get_mut_array_slice(4, 4).is_empty());
    let full = array.get_full_array();
    let expected: Vec<u8> = (0..10u32).flat_map(|i| element(i, 3)).collect();
    assert_eq!(full, expected);
    assert_eq!(array.get_array_accounts().len(), 4);
    assert_eq!(array.get_array_accounts()[0].len(), 9);
}

#[test]
fn from_shards_checks_sizes() {
    let layout = ArrayLayout { size: 10, width: 3, max_account_size: 10 };
    assert!(BigArrayAccount::from_shards(layout, vec![vec![0; 9]; 4]).is_ok());
    assert!(matches!(
        BigArrayAccount::from_shards(layout, vec![vec![0; 9]; 3]),
        Err(ElusivError::SizeOrLayoutViolation)
    ));
    let mut shards = vec![vec![0u8; 9]; 4];
    shards[3].push(0);
    assert!(matches!(BigArrayAccount::from_shards(layout, shards), Err(ElusivError::SizeOrLayoutViolation)));

    let mut shards = vec![vec![0u8; 9]; 4];
    shards[1][3] = 42;
    let array = BigArrayAccount::from_shards(layout, shards).unwrap();
    assert_eq!(array.get(4), vec![42, 0, 0]);
    assert_eq!(array.layout(), layout);
}

#[test]
fn shard_addresses_extend_the_seed() {
    let layout = ArrayLayout { size: 10, width: 3, max_account_size: 10 };
    let seed = b"nullifier".to_vec();
    let pdas = layout.array_accounts_pdas(&seed, &vec![2], &PROGRAM).unwrap();
    assert_eq!(pdas.len(), 4);
    for (i, pda) in pdas.iter().enumerate() {
        let (expected, _) = find_pda(&seed, &vec![2, i as u64], &PROGRAM).unwrap();
        assert_eq!(*pda, expected);
    }
    assert_ne!(pdas[0], pdas[1]);
}
