use vstd::prelude::*;
use vstd::string::StrSliceExecFns;
use vstd::string::StringSliceAdditionalSpecFns;
use crate::address::U256;
use crate::error::ElusivError;
use crate::ledger::{Ledger, open_result, opened};

verus! {

/// A type whose storage lives at a program-derived address.
pub trait PDAAccount {
    spec fn seed_spec(&self) -> Seq<u8>;

    /// The seed from which the type's addresses are derived.
    fn seed(&self) -> (r: Vec<u8>)
        ensures
            r@ == self.seed_spec(),
    ;
}

/// The kinds of account that exist once per program.
#[derive(Clone, Copy, Debug, PartialEq, Eq, Structural)]
pub enum SingleInstancePDAAccountKind {
    CommitmentHashingAccount,
    CommitmentQueueAccount,
    PoolAccount,
    FeeCollectorAccount,
    StorageAccount,
    NullifierAccount,
}

/// The kinds of account that exist once per offset.
#[derive(Clone, Copy, Debug, PartialEq, Eq, Structural)]
pub enum MultiInstancePDAAccountKind {
    BaseCommitmentQueueAccount,
}

impl PDAAccount for SingleInstancePDAAccountKind {
    open spec fn seed_spec(&self) -> Seq<u8> {
        match *self {
            SingleInstancePDAAccountKind::CommitmentHashingAccount => "commitment_hashing".spec_bytes(),
            SingleInstancePDAAccountKind::CommitmentQueueAccount => "commitment_queue".spec_bytes(),
            SingleInstancePDAAccountKind::PoolAccount => "pool".spec_bytes(),
            SingleInstancePDAAccountKind::FeeCollectorAccount => "fee_collector".spec_bytes(),
            SingleInstancePDAAccountKind::StorageAccount => "storage".spec_bytes(),
            SingleInstancePDAAccountKind::NullifierAccount => "nullifier".spec_bytes(),
        }
    }

    fn seed(&self) -> (r: Vec<u8>) {
        match self {
            SingleInstancePDAAccountKind::CommitmentHashingAccount => "commitment_hashing".as_bytes_vec(),
            SingleInstancePDAAccountKind::CommitmentQueueAccount => "commitment_queue".as_bytes_vec(),
            SingleInstancePDAAccountKind::PoolAccount => "pool".as_bytes_vec(),
            SingleInstancePDAAccountKind::FeeCollectorAccount => "fee_collector".as_bytes_vec(),
            SingleInstancePDAAccountKind::StorageAccount => "storage".as_bytes_vec(),
            SingleInstancePDAAccountKind::NullifierAccount => "nullifier".as_bytes_vec(),
        }
    }
}

impl PDAAccount for MultiInstancePDAAccountKind {
    open spec fn seed_spec(&self) -> Seq<u8> {
        match *self {
            MultiInstancePDAAccountKind::BaseCommitmentQueueAccount => "base_commitment_queue".spec_bytes(),
        }
    }

    fn seed(&self) -> (r: Vec<u8>) {
        match self {
            MultiInstancePDAAccountKind::BaseCommitmentQueueAccount => "base_commitment_queue".as_bytes_vec(),
        }
    }
}

/// The seed of the governor account.
pub open spec fn governor_seed_spec() -> Seq<u8> {
    "governor".spec_bytes()
}

/// The seed of the fee accounts, one per fee version.
pub open spec fn fee_seed_spec() -> Seq<u8> {
    "fee".spec_bytes()
}

pub fn governor_seed() -> (r: Vec<u8>)
    ensures
        r@ == governor_seed_spec(),
{
    "governor".as_bytes_vec()
}

pub fn fee_seed() -> (r: Vec<u8>)
    ensures
        r@ == fee_seed_spec(),
{
    "fee".as_bytes_vec()
}

/// Opens the account at `pda_account`, derived from `seed` and the offset
/// `pda_offset`, as long as it does not exist yet.
pub fn open_pda_account_with_offset(
    ledger: &mut Ledger,
    payer: &U256,
    pda_account: &U256,
    seed: &Vec<u8>,
    account_size: usize,
    pda_offset: u64,
    rent_minimum: u64,
) -> (r: Result<u8, ElusivError>)
    requires
        old(ledger).wf(),
    ensures
        final(ledger).wf(),
        final(ledger).program_id == old(ledger).program_id,
        r == open_result(*old(ledger), payer@, pda_account@, seed@, Some(pda_offset), rent_minimum),
        r is Err ==> *final(ledger) == *old(ledger),
        r is Ok ==> opened(*old(ledger), *final(ledger), payer@, pda_account@, account_size as nat, rent_minimum),
{
    ledger.open_pda_account(payer, pda_account, seed, Some(pda_offset), account_size, rent_minimum)
}

/// Opens the account at `pda_account`, derived from `seed` alone, as long as
/// it does not exist yet.
pub fn open_pda_account_without_offset(
    ledger: &mut Ledger,
    payer: &U256,
    pda_account: &U256,
    seed: &Vec<u8>,
    account_size: usize,
    rent_minimum: u64,
) -> (r: Result<u8, ElusivError>)
    requires
        old(ledger).wf(),
    ensures
        final(ledger).wf(),
        final(ledger).program_id == old(ledger).program_id,
        r == open_result(*old(ledger), payer@, pda_account@, seed@, None, rent_minimum),
        r is Err ==> *final(ledger) == *old(ledger),
        r is Ok ==> opened(*old(ledger), *final(ledger), payer@, pda_account@, account_size as nat, rent_minimum),
{
    ledger.open_pda_account(payer, pda_account, seed, None, account_size, rent_minimum)
}

/// Opens one single instance account, as long as it does not exist yet.
pub fn open_single_instance_account(
    ledger: &mut Ledger,
    payer: &U256,
    pda_account: &U256,
    kind: SingleInstancePDAAccountKind,
    account_size: usize,
    rent_minimum: u64,
) -> (r: Result<u8, ElusivError>)
    requires
        old(ledger).wf(),
    ensures
        final(ledger).wf(),
        final(ledger).program_id == old(ledger).program_id,
        r == open_result(*old(ledger), payer@, pda_account@, kind.seed_spec(), None, rent_minimum),
        r is Err ==> *final(ledger) == *old(ledger),
        r is Ok ==> opened(*old(ledger), *final(ledger), payer@, pda_account@, account_size as nat, rent_minimum),
{
    let seed = kind.seed();
    open_pda_account_without_offset(ledger, payer, pda_account, &seed, account_size, rent_minimum)
}

/// Opens one multi instance account at the offset `pda_offset`, as long as it
/// does not exist yet.
pub fn open_multi_instance_account(
    ledger: &mut Ledger,
    payer: &U256,
    pda_account: &U256,
    kind: MultiInstancePDAAccountKind,
    pda_offset: u64,
    account_size: usize,
    rent_minimum: u64,
) -> (r: Result<u8, ElusivError>)
    requires
        old(ledger).wf(),
    ensures
        final(ledger).wf(),
        final(ledger).program_id == old(ledger).program_id,
        r == open_result(*old(ledger), payer@, pda_account@, kind.seed_spec(), Some(pda_offset), rent_minimum),
        r is Err ==> *final(ledger) == *old(ledger),
        r is Ok ==> opened(*old(ledger), *final(ledger), payer@, pda_account@, account_size as nat, rent_minimum),
{
    let seed = kind.seed();
    open_pda_account_with_offset(ledger, payer, pda_account, &seed, account_size, pda_offset, rent_minimum)
}

/// Opens the governor account.
pub fn setup_governor_account(
    ledger: &mut Ledger,
    payer: &U256,
    governor_account: &U256,
    account_size: usize,
    rent_minimum: u64,
) -> (r: Result<u8, ElusivError>)
    requires
        old(ledger).wf(),
    ensures
        final(ledger).wf(),
        r == open_result(*old(ledger), payer@, governor_account@, governor_seed_spec(), None, rent_minimum),
        r is Err ==> *final(ledger) == *old(ledger),
        r is Ok ==> opened(*old(ledger), *final(ledger), payer@, governor_account@, account_size as nat, rent_minimum),
{
    let seed = governor_seed();
    open_pda_account_without_offset(ledger, payer, governor_account, &seed, account_size, rent_minimum)
}

/// Opens the fee account of `fee_version`, which must be the governor's
/// current fee version.
pub fn init_new_fee_version(
    ledger: &mut Ledger,
    payer: &U256,
    current_fee_version: u64,
    new_fee: &U256,
    fee_version: u64,
    account_size: usize,
    rent_minimum: u64,
) -> (r: Result<u8, ElusivError>)
    requires
        old(ledger).wf(),
    ensures
        final(ledger).wf(),
        fee_version != current_fee_version ==> r == Err::<u8, ElusivError>(ElusivError::InvalidFeeVersion),
        fee_version == current_fee_version ==> r == open_result(*old(ledger), payer@, new_fee@, fee_seed_spec(), Some(fee_version), rent_minimum),
        r is Err ==> *final(ledger) == *old(ledger),
        r is Ok ==> opened(*old(ledger), *final(ledger), payer@, new_fee@, account_size as nat, rent_minimum),
{
    if fee_version != current_fee_version {
        return Err(ElusivError::InvalidFeeVersion);
    }
    let seed = fee_seed();
    open_pda_account_with_offset(ledger, payer, new_fee, &seed, account_size, fee_version, rent_minimum)
}

} // verus!
