use vstd::prelude::*;
use crate::address::{U256, addresses_equal};
use crate::error::ElusivError;
use crate::ledger::StorageUnit;

verus! {

/// The sizes of the units bound by a heterogeneous container: `count` units,
/// all of `intermediary_size` bytes but the last, of `last_size` bytes.
#[derive(Clone, Copy, Debug, PartialEq, Eq, Structural)]
pub struct ContainerLayout {
    pub count: usize,
    pub intermediary_size: usize,
    pub last_size: usize,
}

/// The exemption thresholds for the two unit sizes of a container.
#[derive(Clone, Copy, Debug, PartialEq, Eq, Structural)]
pub struct SubAccountRent {
    pub intermediary: u64,
    pub last: u64,
}

/// Every byte is zero.
pub open spec fn is_zero_spec(s: Seq<u8>) -> bool {
    forall|i: int| 0 <= i < s.len() ==> s[i] == 0
}

/// Whether every byte of `data` is zero.
pub fn is_zero(data: &Vec<u8>) -> (r: bool)
    ensures
        r == is_zero_spec(data@),
{
    let mut i: usize = 0;
    while i < data.len()
        invariant
            i <= data@.len(),
            forall|j: int| 0 <= j < i ==> data@[j] == 0,
        decreases data@.len() - i,
    {
        if data[i] != 0 {
            return false;
        }
        i += 1;
    }
    true
}

/// The outcome of validating an externally supplied unit.
pub open spec fn extern_account_check(
    u: StorageUnit,
    data_len: nat,
    check_zeroness: bool,
    rent_minimum: u64,
    program_id: Seq<u8>,
) -> Result<(), ElusivError> {
    if u.data@.len() != data_len {
        Err(ElusivError::SizeOrLayoutViolation)
    } else if check_zeroness && !is_zero_spec(u.data@) {
        Err(ElusivError::NotZeroed)
    } else if u.lamports < rent_minimum {
        Err(ElusivError::NotRentExempt)
    } else if u.owner@ != program_id {
        Err(ElusivError::OwnershipViolation)
    } else {
        Ok(())
    }
}

/// Verifies that an externally supplied unit has `data_len` bytes (all zero
/// where `check_zeroness`), holds at least `rent_minimum`, and is owned by
/// `program_id`. Reads only.
pub fn verify_extern_data_account(
    account: &StorageUnit,
    data_len: usize,
    check_zeroness: bool,
    rent_minimum: u64,
    program_id: &U256,
) -> (r: Result<(), ElusivError>)
    ensures
        r == extern_account_check(*account, data_len as nat, check_zeroness, rent_minimum, program_id@),
{
    if account.data.len() != data_len {
        return Err(ElusivError::SizeOrLayoutViolation);
    }
    if check_zeroness && !is_zero(&account.data) {
        return Err(ElusivError::NotZeroed);
    }
    if account.lamports < rent_minimum {
        return Err(ElusivError::NotRentExempt);
    }
    if !addresses_equal(&account.owner, program_id) {
        return Err(ElusivError::OwnershipViolation);
    }
    Ok(())
}

/// The size the `i`-th unit of a container must have.
pub open spec fn sub_account_size(layout: ContainerLayout, i: int) -> nat {
    if i < layout.count - 1 {
        layout.intermediary_size as nat
    } else {
        layout.last_size as nat
    }
}

/// The exemption threshold of the `i`-th unit of a container.
pub open spec fn sub_account_rent(layout: ContainerLayout, rent: SubAccountRent, i: int) -> u64 {
    if i < layout.count - 1 {
        rent.intermediary
    } else {
        rent.last
    }
}

/// The outcome of validating the first `n` units, stopping at the first failure.
pub open spec fn sub_accounts_prefix_check(
    units: Seq<StorageUnit>,
    layout: ContainerLayout,
    rent: SubAccountRent,
    check_zeroness: bool,
    program_id: Seq<u8>,
    n: nat,
) -> Result<(), ElusivError>
    decreases n,
{
    if n == 0 {
        Ok(())
    } else {
        match sub_accounts_prefix_check(units, layout, rent, check_zeroness, program_id, (n - 1) as nat) {
            Err(e) => Err(e),
            Ok(_) => extern_account_check(
                units[n - 1],
                sub_account_size(layout, n - 1),
                check_zeroness,
                sub_account_rent(layout, rent, n - 1),
                program_id,
            ),
        }
    }
}

/// The outcome of validating all units supplied for a container.
pub open spec fn sub_accounts_check(
    units: Seq<StorageUnit>,
    layout: ContainerLayout,
    rent: SubAccountRent,
    check_zeroness: bool,
    program_id: Seq<u8>,
) -> Result<(), ElusivError> {
    if units.len() != layout.count {
        Err(ElusivError::SizeOrLayoutViolation)
    } else {
        sub_accounts_prefix_check(units, layout, rent, check_zeroness, program_id, layout.count as nat)
    }
}

/// Verifies the units supplied for a container: there are `layout.count` of
/// them, and each passes `verify_extern_data_account` with its size class.
/// The first failure is returned.
pub fn verify_heterogen_sub_accounts(
    units: &Vec<StorageUnit>,
    layout: ContainerLayout,
    rent: SubAccountRent,
    check_zeroness: bool,
    program_id: &U256,
) -> (r: Result<(), ElusivError>)
    ensures
        r == sub_accounts_check(units@, layout, rent, check_zeroness, program_id@),
{
    if units.len() != layout.count {
        return Err(ElusivError::SizeOrLayoutViolation);
    }
    let mut i: usize = 0;
    while i < layout.count
        invariant
            i <= layout.count,
            units@.len() == layout.count,
            sub_accounts_prefix_check(units@, layout, rent, check_zeroness, program_id@, i as nat) == Ok::<(), ElusivError>(()),
        decreases layout.count - i,
    {
        let (size, threshold) = if i < layout.count - 1 {
            (layout.intermediary_size, rent.intermediary)
        } else {
            (layout.last_size, rent.last)
        };
        let res = verify_extern_data_account(&units[i], size, check_zeroness, threshold, program_id);
        if res.is_err() {
            proof {
                assert(sub_accounts_prefix_check(units@, layout, rent, check_zeroness, program_id@, (i + 1) as nat) == res);
                lemma_prefix_failure_sticks(units@, layout, rent, check_zeroness, program_id@, (i + 1) as nat, layout.count as nat);
            }
            return res;
        }
        i += 1;
    }
    Ok(())
}

/// Once a prefix of the units fails, every longer prefix fails the same way.
proof fn lemma_prefix_failure_sticks(
    units: Seq<StorageUnit>,
    layout: ContainerLayout,
    rent: SubAccountRent,
    check_zeroness: bool,
    program_id: Seq<u8>,
    n: nat,
    m: nat,
)
    requires
        n <= m,
        sub_accounts_prefix_check(units, layout, rent, check_zeroness, program_id, n) is Err,
    ensures
        sub_accounts_prefix_check(units, layout, rent, check_zeroness, program_id, m)
            == sub_accounts_prefix_check(units, layout, rent, check_zeroness, program_id, n),
    decreases m - n,
{
    if n < m {
        lemma_prefix_failure_sticks(units, layout, rent, check_zeroness, program_id, n, (m - 1) as nat);
    }
}

/// The addresses of `units`, in order.
pub open spec fn unit_addresses(units: Seq<StorageUnit>) -> Seq<U256> {
    units.map_values(|u: StorageUnit| u.address)
}

/// No address occurs twice.
pub open spec fn distinct_keys(keys: Seq<U256>) -> bool {
    forall|i: int, j: int| 0 <= i < keys.len() && 0 <= j < keys.len() && i != j ==> keys[i]@ != keys[j]@
}

/// Whether no address occurs twice in `keys`.
pub fn all_distinct(keys: &Vec<U256>) -> (r: bool)
    ensures
        r == distinct_keys(keys@),
{
    let mut i: usize = 0;
    while i < keys.len()
        invariant
            i <= keys@.len(),
            forall|a: int, b: int| 0 <= a < i && 0 <= b < i && a != b ==> keys@[a]@ != keys@[b]@,
        decreases keys@.len() - i,
    {
        let mut j: usize = 0;
        while j < i
            invariant
                i < keys@.len(),
                j <= i,
                forall|a: int, b: int| 0 <= a < i && 0 <= b < i && a != b ==> keys@[a]@ != keys@[b]@,
                forall|b: int| 0 <= b < j ==> keys@[i as int]@ != keys@[b]@,
            decreases i - j,
        {
            if addresses_equal(&keys[i], &keys[j]) {
                assert(!distinct_keys(keys@)) by {
                    assert(keys@[i as int]@ == keys@[j as int]@);
                }
                return false;
            }
            j += 1;
        }
        i += 1;
    }
    true
}

/// A parent record holding the addresses of `layout.count` externally
/// supplied units, bound exactly once.
pub struct MultiAccountContainer {
    layout: ContainerLayout,
    pubkeys: Vec<U256>,
    initialized: bool,
}

/// What binding `units` to a container whose flag is `initialized` returns.
pub open spec fn bind_result(
    initialized: bool,
    units: Seq<StorageUnit>,
    layout: ContainerLayout,
    rent: SubAccountRent,
    check_zeroness: bool,
    program_id: Seq<u8>,
) -> Result<(), ElusivError> {
    if initialized {
        Err(ElusivError::AlreadyInitialized)
    } else {
        match sub_accounts_check(units, layout, rent, check_zeroness, program_id) {
            Err(e) => Err(e),
            Ok(_) => if distinct_keys(unit_addresses(units)) {
                Ok(())
            } else {
                Err(ElusivError::DuplicateOrAliasedAccount)
            },
        }
    }
}

impl MultiAccountContainer {
    pub closed spec fn wf(&self) -> bool {
        &&& self.initialized ==> self.pubkeys@.len() == self.layout.count && distinct_keys(self.pubkeys@)
        &&& !self.initialized ==> self.pubkeys@.len() == 0
    }

    pub closed spec fn layout_of(&self) -> ContainerLayout {
        self.layout
    }

    pub closed spec fn is_bound(&self) -> bool {
        self.initialized
    }

    pub closed spec fn keys(&self) -> Seq<U256> {
        self.pubkeys@
    }

    /// An unbound container for units of `layout`.
    pub fn new(layout: ContainerLayout) -> (r: MultiAccountContainer)
        ensures
            r.wf(),
            r.layout_of() == layout,
            !r.is_bound(),
            r.keys().len() == 0,
    {
        MultiAccountContainer { layout, pubkeys: Vec::new(), initialized: false }
    }

    /// The sizes of the units the container binds.
    pub fn layout(&self) -> (r: ContainerLayout)
        ensures
            r == self.layout_of(),
    {
        self.layout
    }

    /// Whether the container was bound.
    pub fn pda_initialized(&self) -> (r: bool)
        ensures
            r == self.is_bound(),
    {
        self.initialized
    }

    /// The bound addresses, in order (empty before binding).
    pub fn get_all_pubkeys(&self) -> (r: &Vec<U256>)
        ensures
            r@ == self.keys(),
    {
        &self.pubkeys
    }

    /// The address of the `index`-th bound unit.
    pub fn get_child(&self, index: usize) -> (r: Result<U256, ElusivError>)
        requires
            self.wf(),
        ensures
            !self.is_bound() ==> r == Err::<U256, ElusivError>(ElusivError::NotInitialized),
            self.is_bound() && index >= self.layout_of().count ==> r == Err::<U256, ElusivError>(ElusivError::SizeOrLayoutViolation),
            self.is_bound() && index < self.layout_of().count ==> r == Ok::<U256, ElusivError>(self.keys()[index as int]),
    {
        if !self.initialized {
            return Err(ElusivError::NotInitialized);
        }
        if index >= self.layout.count {
            return Err(ElusivError::SizeOrLayoutViolation);
        }
        Ok(self.pubkeys[index])
    }
}

/// The addresses of `units`, in order.
fn collect_addresses(units: &Vec<StorageUnit>) -> (r: Vec<U256>)
    ensures
        r@ == unit_addresses(units@),
{
    let mut r: Vec<U256> = Vec::new();
    let mut i: usize = 0;
    while i < units.len()
        invariant
            i <= units@.len(),
            r@ =~= unit_addresses(units@.subrange(0, i as int)),
        decreases units@.len() - i,
    {
        r.push(units[i].address);
        i += 1;
        assert(r@ =~= unit_addresses(units@.subrange(0, i as int)));
    }
    assert(units@.subrange(0, units@.len() as int) =~= units@);
    r
}

/// Records the addresses of `units` and marks the container bound, unless it
/// is bound already, their number is wrong, or an address repeats.
fn setup_multi_account_account(account: &mut MultiAccountContainer, units: &Vec<StorageUnit>) -> (r: Result<(), ElusivError>)
    requires
        old(account).wf(),
    ensures
        final(account).wf(),
        final(account).layout_of() == old(account).layout_of(),
        old(account).is_bound() ==> r == Err::<(), ElusivError>(ElusivError::AlreadyInitialized),
        !old(account).is_bound() && units@.len() != old(account).layout_of().count
            ==> r == Err::<(), ElusivError>(ElusivError::SizeOrLayoutViolation),
        !old(account).is_bound() && units@.len() == old(account).layout_of().count && !distinct_keys(unit_addresses(units@))
            ==> r == Err::<(), ElusivError>(ElusivError::DuplicateOrAliasedAccount),
        !old(account).is_bound() && units@.len() == old(account).layout_of().count && distinct_keys(unit_addresses(units@))
            ==> r == Ok::<(), ElusivError>(()),
        r is Err ==> *final(account) == *old(account),
        r is Ok ==> final(account).is_bound() && final(account).keys() == unit_addresses(units@),
{
    if account.initialized {
        return Err(ElusivError::AlreadyInitialized);
    }
    if units.len() != account.layout.count {
        return Err(ElusivError::SizeOrLayoutViolation);
    }
    let pks = collect_addresses(units);
    if !all_distinct(&pks) {
        return Err(ElusivError::DuplicateOrAliasedAccount);
    }
    account.pubkeys = pks;
    account.initialized = true;
    Ok(())
}

/// Validates the units supplied for a container and binds their addresses to
/// it, exactly once; on failure the container is unchanged.
pub fn bind_container(
    container: &mut MultiAccountContainer,
    units: &Vec<StorageUnit>,
    rent: SubAccountRent,
    check_zeroness: bool,
    program_id: &U256,
) -> (r: Result<(), ElusivError>)
    requires
        old(container).wf(),
    ensures
        final(container).wf(),
        final(container).layout_of() == old(container).layout_of(),
        r == bind_result(old(container).is_bound(), units@, old(container).layout_of(), rent, check_zeroness, program_id@),
        r is Err ==> *final(container) == *old(container),
        r is Ok ==> final(container).is_bound() && final(container).keys() == unit_addresses(units@),
{
    if container.pda_initialized() {
        return Err(ElusivError::AlreadyInitialized);
    }
    if let Err(e) = verify_heterogen_sub_accounts(units, container.layout(), rent, check_zeroness, program_id) {
        return Err(e);
    }
    assert(units@.len() == container.layout_of().count);
    setup_multi_account_account(container, units)
}

/// Binds the storage account's sub-accounts; their contents are not required
/// to be zero, since only data the program has written is ever read.
pub fn setup_storage_account(
    storage_account: &mut MultiAccountContainer,
    units: &Vec<StorageUnit>,
    rent: SubAccountRent,
    program_id: &U256,
) -> (r: Result<(), ElusivError>)
    requires
        old(storage_account).wf(),
    ensures
        final(storage_account).wf(),
        final(storage_account).layout_of() == old(storage_account).layout_of(),
        r == bind_result(old(storage_account).is_bound(), units@, old(storage_account).layout_of(), rent, false, program_id@),
        r is Err ==> *final(storage_account) == *old(storage_account),
        r is Ok ==> final(storage_account).is_bound() && final(storage_account).keys() == unit_addresses(units@),
{
    bind_container(storage_account, units, rent, false, program_id)
}


/// A unit of the wrong size fails with `SizeOrLayoutViolation` whatever the
/// zero policy; a correctly sized, funded, owned unit holding a non-zero byte
/// fails with `NotZeroed` when zeroes are required and passes otherwise.
pub proof fn lemma_validator_policy(u: StorageUnit, data_len: nat, rent_minimum: u64, program_id: Seq<u8>, check_zeroness: bool)
    ensures
        u.data@.len() != data_len ==> extern_account_check(u, data_len, check_zeroness, rent_minimum, program_id)
            == Err::<(), ElusivError>(ElusivError::SizeOrLayoutViolation),
        u.data@.len() == data_len && !is_zero_spec(u.data@) && u.lamports >= rent_minimum && u.owner@ == program_id ==> {
            &&& extern_account_check(u, data_len, true, rent_minimum, program_id) == Err::<(), ElusivError>(ElusivError::NotZeroed)
            &&& extern_account_check(u, data_len, false, rent_minimum, program_id) == Ok::<(), ElusivError>(())
        },
{
}

/// Binding valid units with distinct addresses succeeds on an unbound
/// container and fails with `AlreadyInitialized` on the container it bound;
/// binding valid units among which one address repeats fails with
/// `DuplicateOrAliasedAccount`.
pub proof fn lemma_bind_once(
    units: Seq<StorageUnit>,
    layout: ContainerLayout,
    rent: SubAccountRent,
    check_zeroness: bool,
    program_id: Seq<u8>,
    i: int,
    j: int,
)
    requires
        sub_accounts_check(units, layout, rent, check_zeroness, program_id) is Ok,
    ensures
        distinct_keys(unit_addresses(units)) ==> bind_result(false, units, layout, rent, check_zeroness, program_id) is Ok,
        bind_result(true, units, layout, rent, check_zeroness, program_id)
            == Err::<(), ElusivError>(ElusivError::AlreadyInitialized),
        0 <= i < units.len() && 0 <= j < units.len() && i != j && units[i].address@ == units[j].address@
            ==> bind_result(false, units, layout, rent, check_zeroness, program_id)
                == Err::<(), ElusivError>(ElusivError::DuplicateOrAliasedAccount),
{
    if 0 <= i < units.len() && 0 <= j < units.len() && i != j && units[i].address@ == units[j].address@ {
        let keys = unit_addresses(units);
        assert(keys[i]@ == keys[j]@);
    }
}

} // verus!
