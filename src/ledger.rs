use vstd::prelude::*;
use crate::address::{U256, derived, derive_address, addresses_equal};
use crate::error::ElusivError;

verus! {

/// A persistent storage unit: its address, owner, balance and raw bytes.
pub struct StorageUnit {
    pub address: U256,
    pub owner: U256,
    pub lamports: u64,
    pub data: Vec<u8>,
}

/// The storage units that live on the ledger, as seen by one program.
pub struct Ledger {
    pub program_id: U256,
    pub units: Vec<StorageUnit>,
}

/// Whether some unit of `units` lives at `a`.
pub open spec fn has_unit(units: Seq<StorageUnit>, a: Seq<u8>) -> bool {
    exists|i: int| 0 <= i < units.len() && units[i].address@ == a
}

/// The addresses of `units` are pairwise distinct.
pub open spec fn distinct_addresses(units: Seq<StorageUnit>) -> bool {
    forall|i: int, j: int|
        0 <= i < units.len() && 0 <= j < units.len() && i != j ==> units[i].address@ != units[j].address@
}

/// Whether a unit at `payer` can fund `amount`.
pub open spec fn can_fund(units: Seq<StorageUnit>, payer: Seq<u8>, amount: u64) -> bool {
    exists|i: int| 0 <= i < units.len() && units[i].address@ == payer && units[i].lamports >= amount
}

/// What opening a PDA at `target` returns: the bump on success.
pub open spec fn open_result(
    ledger: Ledger,
    payer: Seq<u8>,
    target: Seq<u8>,
    seed: Seq<u8>,
    offset: Option<u64>,
    rent_minimum: u64,
) -> Result<u8, ElusivError> {
    match derived(seed, offset, ledger.program_id@) {
        None => Err(ElusivError::AddressDerivationMismatch),
        Some(d) => if d.0 != target {
            Err(ElusivError::AddressDerivationMismatch)
        } else if has_unit(ledger.units@, target) {
            Err(ElusivError::AlreadyExists)
        } else if !can_fund(ledger.units@, payer, rent_minimum) {
            Err(ElusivError::InsufficientFunds)
        } else {
            Ok(d.1)
        },
    }
}

/// The unit a successful open appends: owned by the program, funded with
/// the exemption minimum, and zero-filled.
pub open spec fn is_opened_unit(u: StorageUnit, target: Seq<u8>, program_id: Seq<u8>, size: nat, rent_minimum: u64) -> bool {
    &&& u.address@ == target
    &&& u.owner@ == program_id
    &&& u.lamports == rent_minimum
    &&& u.data@ == Seq::new(size, |_i: int| 0u8)
}

/// A zero-filled byte buffer of length `n`.
pub fn zeroed(n: usize) -> (r: Vec<u8>)
    ensures
        r@ == Seq::new(n as nat, |_i: int| 0u8),
{
    let mut r: Vec<u8> = Vec::new();
    let mut i: usize = 0;
    while i < n
        invariant
            i <= n,
            r@ =~= Seq::new(i as nat, |_i: int| 0u8),
        decreases n - i,
    {
        r.push(0u8);
        i += 1;
    }
    r
}

/// `after` is `before` with `rent_minimum` moved from the unit at `payer`
/// into a new unit opened at `target`, appended last.
pub open spec fn opened(before: Ledger, after: Ledger, payer: Seq<u8>, target: Seq<u8>, size: nat, rent_minimum: u64) -> bool {
    &&& after.program_id == before.program_id
    &&& after.units@.len() == before.units@.len() + 1
    &&& is_opened_unit(after.units@.last(), target, before.program_id@, size, rent_minimum)
    &&& exists|i: int| #![trigger before.units@[i]]
        0 <= i < before.units@.len() && before.units@[i].address@ == payer
        && after.units@[i].lamports == before.units@[i].lamports - rent_minimum
        && after.units@[i].address == before.units@[i].address
        && after.units@[i].owner == before.units@[i].owner
        && after.units@[i].data == before.units@[i].data
        && (forall|j: int| 0 <= j < before.units@.len() && j != i ==> after.units@[j] == before.units@[j])
}

impl Ledger {
    pub open spec fn wf(&self) -> bool {
        distinct_addresses(self.units@)
    }

    /// A ledger holding no units.
    pub fn new(program_id: U256) -> (r: Ledger)
        ensures
            r.wf(),
            r.program_id == program_id,
            r.units@.len() == 0,
    {
        Ledger { program_id, units: Vec::new() }
    }

    /// The position of the unit at `a`, if one lives there.
    pub fn find_unit(&self, a: &U256) -> (r: Option<usize>)
        ensures
            r is None <==> !has_unit(self.units@, a@),
            r matches Some(i) ==> i < self.units@.len() && self.units@[i as int].address@ == a@,
    {
        let mut i: usize = 0;
        while i < self.units.len()
            invariant
                i <= self.units@.len(),
                forall|j: int| 0 <= j < i ==> self.units@[j].address@ != a@,
            decreases self.units@.len() - i,
        {
            if addresses_equal(&self.units[i].address, a) {
                return Some(i);
            }
            i += 1;
        }
        None
    }

    /// Adds an externally supplied unit, unless a unit already lives at its
    /// address.
    pub fn insert_unit(&mut self, unit: StorageUnit) -> (r: Result<(), ElusivError>)
        requires
            old(self).wf(),
        ensures
            final(self).wf(),
            final(self).program_id == old(self).program_id,
            has_unit(old(self).units@, unit.address@) ==> r == Err::<(), ElusivError>(ElusivError::AlreadyExists)
                && *final(self) == *old(self),
            !has_unit(old(self).units@, unit.address@) ==> r is Ok && final(self).units@ == old(self).units@.push(unit),
    {
        if self.find_unit(&unit.address).is_some() {
            return Err(ElusivError::AlreadyExists);
        }
        self.units.push(unit);
        Ok(())
    }

    /// Opens a new unit of `account_size` zero bytes at the address derived
    /// from `seed` and `offset`, funded by `payer` with `rent_minimum`.
    /// Fails where `target` is not the derived address, a unit already lives
    /// there, or the payer cannot fund it; the ledger is then unchanged.
    /// Returns the bump of the derivation.
    pub fn open_pda_account(
        &mut self,
        payer: &U256,
        target: &U256,
        seed: &Vec<u8>,
        offset: Option<u64>,
        account_size: usize,
        rent_minimum: u64,
    ) -> (r: Result<u8, ElusivError>)
        requires
            old(self).wf(),
        ensures
            final(self).wf(),
            final(self).program_id == old(self).program_id,
            r == open_result(*old(self), payer@, target@, seed@, offset, rent_minimum),
            r is Err ==> *final(self) == *old(self),
            r is Ok ==> opened(*old(self), *final(self), payer@, target@, account_size as nat, rent_minimum),
    {
        let derivation = derive_address(seed, offset, &self.program_id);
        let (pk, bump) = match derivation {
            None => return Err(ElusivError::AddressDerivationMismatch),
            Some(d) => d,
        };
        if !addresses_equal(&pk, target) {
            return Err(ElusivError::AddressDerivationMismatch);
        }
        if self.find_unit(target).is_some() {
            return Err(ElusivError::AlreadyExists);
        }
        let p = match self.find_unit(payer) {
            None => return Err(ElusivError::InsufficientFunds),
            Some(p) => p,
        };
        if self.units[p].lamports < rent_minimum {
            proof {
                assert forall|i: int| 0 <= i < self.units@.len() && self.units@[i].address@ == payer@
                    implies self.units@[i].lamports < rent_minimum by {
                    if i != p as int {
                        assert(self.units@[i].address@ != self.units@[p as int].address@);
                    }
                }
            }
            return Err(ElusivError::InsufficientFunds);
        }
        let ghost old_units = self.units@;
        let new_unit = StorageUnit {
            address: *target,
            owner: self.program_id,
            lamports: rent_minimum,
            data: zeroed(account_size),
        };
        let funded = self.units[p].lamports - rent_minimum;
        self.units[p].lamports = funded;
        self.units.push(new_unit);
        proof {
            assert forall|j: int| 0 <= j < old_units.len() && j != p as int implies self.units@[j] == old_units[j] by {
                if j < p as int {
                } else {
                }
            }
            assert(self.units@[p as int].address == old_units[p as int].address);
            assert forall|a: int, b: int|
                0 <= a < self.units@.len() && 0 <= b < self.units@.len() && a != b
                implies self.units@[a].address@ != self.units@[b].address@ by {
                if a < old_units.len() && b < old_units.len() {
                    assert(self.units@[a].address == old_units[a].address);
                    assert(self.units@[b].address == old_units[b].address);
                } else if a < old_units.len() {
                    assert(self.units@[a].address == old_units[a].address);
                } else {
                    assert(self.units@[b].address == old_units[b].address);
                }
            }
        }
        Ok(bump)
    }
}


/// Opening the same derived address a second time, once the first open
/// succeeded, fails with `AlreadyExists`; opening an address that is not the
/// derived one fails with `AddressDerivationMismatch`.
pub proof fn lemma_open_twice(
    first: Ledger,
    second: Ledger,
    payer: Seq<u8>,
    target: Seq<u8>,
    seed: Seq<u8>,
    offset: Option<u64>,
    rent_minimum: u64,
    size: nat,
    other_payer: Seq<u8>,
    other_rent: u64,
    other_target: Seq<u8>,
)
    requires
        open_result(first, payer, target, seed, offset, rent_minimum) is Ok,
        opened(first, second, payer, target, size, rent_minimum),
    ensures
        open_result(second, other_payer, target, seed, offset, other_rent) == Err::<u8, ElusivError>(ElusivError::AlreadyExists),
        other_target != target ==> open_result(first, other_payer, other_target, seed, offset, other_rent)
            == Err::<u8, ElusivError>(ElusivError::AddressDerivationMismatch),
{
    let last = second.units@.len() - 1;
    assert(second.units@[last].address@ == target);
    assert(has_unit(second.units@, target));
}

} // verus!
