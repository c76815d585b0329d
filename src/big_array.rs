use vstd::prelude::*;
use crate::address::{U256, find_pda, program_address_of, pda_seed_spec};
use crate::error::ElusivError;

verus! {

/// The byte capacity ceiling of one storage unit.
pub const MAX_ACCOUNT_SIZE: usize = 10_000_000;

/// The shape of a logical array split over storage units: `size` elements of
/// `width` bytes each, in units of at most `max_account_size` bytes.
#[derive(Clone, Copy, Debug, PartialEq, Eq, Structural)]
pub struct ArrayLayout {
    pub size: usize,
    pub width: usize,
    pub max_account_size: usize,
}

impl ArrayLayout {
    pub open spec fn wf(self) -> bool {
        0 < self.width <= self.max_account_size
    }

    /// Elements per shard: `floor(max_account_size / width)`.
    pub open spec fn values_per_account(self) -> nat {
        (self.max_account_size / self.width) as nat
    }

    /// Number of shards: `ceil(size / values_per_account)`.
    pub open spec fn shard_count(self) -> nat {
        let v = self.values_per_account() as int;
        let n = self.size as int;
        (n / v + if n % v == 0 { 0int } else { 1int }) as nat
    }

    /// The shard that holds element `i`.
    pub open spec fn shard_of(self, i: int) -> int {
        i / (self.values_per_account() as int)
    }

    /// The position of element `i` inside its shard.
    pub open spec fn local_of(self, i: int) -> int {
        i % (self.values_per_account() as int)
    }

    /// The bytes of one shard.
    pub open spec fn shard_len(self) -> nat {
        (self.values_per_account() * self.width) as nat
    }

    /// A layout under the default unit capacity ceiling.
    pub fn new(size: usize, width: usize) -> (r: ArrayLayout)
        requires
            0 < width <= MAX_ACCOUNT_SIZE,
        ensures
            r.wf(),
            r == (ArrayLayout { size, width, max_account_size: MAX_ACCOUNT_SIZE }),
    {
        ArrayLayout { size, width, max_account_size: MAX_ACCOUNT_SIZE }
    }

    /// `MAX_VALUES_PER_ACCOUNT`: how many elements fit in one shard.
    pub fn max_values_per_account(&self) -> (r: usize)
        requires
            self.wf(),
        ensures
            r == self.values_per_account(),
            r >= 1,
    {
        proof {
            self.lemma_shard_len();
        }
        self.max_account_size / self.width
    }

    /// `ACCOUNTS_COUNT`: how many shards the array needs.
    pub fn accounts_count(&self) -> (r: usize)
        requires
            self.wf(),
        ensures
            r == self.shard_count(),
    {
        let per = self.max_values_per_account();
        assert(self.size % per != 0 ==> self.size / per < self.size) by (nonlinear_arith)
            requires per >= 1;
        self.size / per + if self.size % per == 0 { 0 } else { 1 }
    }

    /// The shard of element `index` and its position inside the shard.
    pub fn account_and_local_index(&self, index: usize) -> (r: (usize, usize))
        requires
            self.wf(),
        ensures
            r.0 == self.shard_of(index as int),
            r.1 == self.local_of(index as int),
    {
        let per = self.max_values_per_account();
        let account_index = index / per;
        (account_index, index % per)
    }

    /// `values_per_account * width` fits the ceiling.
    pub proof fn lemma_shard_len(self)
        requires
            self.wf(),
        ensures
            self.values_per_account() >= 1,
            self.shard_len() <= self.max_account_size,
    {
        let v = self.values_per_account() as int;
        let w = self.width as int;
        let m = self.max_account_size as int;
        assert(v * w <= m) by (nonlinear_arith)
            requires v == m / w, w > 0, m >= 0;
        assert(v >= 1) by (nonlinear_arith)
            requires v == m / w, w > 0, m >= w;
    }
}

/// Every valid index maps to a shard and a position inside it from which it
/// is recovered (`shard * capacity + local == i`), and the shard exists.
pub proof fn lemma_index_split(layout: ArrayLayout, i: int)
    requires
        layout.wf(),
        0 <= i < layout.size,
    ensures
        layout.shard_of(i) * layout.values_per_account() + layout.local_of(i) == i,
        0 <= layout.shard_of(i) < layout.shard_count(),
        0 <= layout.local_of(i) < layout.values_per_account(),
{
    layout.lemma_shard_len();
    let v = layout.values_per_account() as int;
    let s = layout.size as int;
    let q = i / v;
    let r = i % v;
    assert(q * v + r == i && 0 <= r < v) by (nonlinear_arith)
        requires v >= 1, q == i / v, r == i % v;
    assert(0 <= q) by (nonlinear_arith)
        requires v >= 1, q == i / v, i >= 0;
    let c = layout.shard_count() as int;
    assert(q < c) by (nonlinear_arith)
        requires
            v >= 1,
            q == i / v,
            0 <= i < s,
            c == s / v + if s % v == 0 { 0int } else { 1int },
    {
        assert(s == (s / v) * v + s % v);
        assert(i == q * v + i % v);
        assert(0 <= i % v < v);
        assert(0 <= s % v < v);
        if q >= c {
            assert(q * v >= c * v);
        }
    }
}

/// Two valid indices in the same shard at the same position are equal.
pub proof fn lemma_index_split_injective(layout: ArrayLayout, i: int, j: int)
    requires
        layout.wf(),
        0 <= i < layout.size,
        0 <= j < layout.size,
        layout.shard_of(i) == layout.shard_of(j),
        layout.local_of(i) == layout.local_of(j),
    ensures
        i == j,
{
    lemma_index_split(layout, i);
    lemma_index_split(layout, j);
}


/// The bytes of element `i` inside the shards.
pub open spec fn element_at(shards: Seq<Seq<u8>>, layout: ArrayLayout, i: int) -> Seq<u8> {
    let o = layout.local_of(i) * layout.width;
    shards[layout.shard_of(i)].subrange(o, o + layout.width)
}

/// The shards after element `i` is overwritten by `v`.
pub open spec fn write_element(shards: Seq<Seq<u8>>, layout: ArrayLayout, i: int, v: Seq<u8>) -> Seq<Seq<u8>> {
    let k = layout.shard_of(i);
    let o = layout.local_of(i) * layout.width;
    shards.update(k, shards[k].subrange(0, o) + v + shards[k].subrange(o + layout.width, shards[k].len() as int))
}

/// There is one shard per `shard_count`, each of `shard_len` bytes.
pub open spec fn shards_wf(shards: Seq<Seq<u8>>, layout: ArrayLayout) -> bool {
    &&& shards.len() == layout.shard_count()
    &&& forall|k: int| 0 <= k < shards.len() ==> #[trigger] shards[k].len() == layout.shard_len()
}

/// The elements of the logical array that the shards hold.
pub open spec fn elements(shards: Seq<Seq<u8>>, layout: ArrayLayout) -> Seq<Seq<u8>> {
    Seq::new(layout.size as nat, |i: int| element_at(shards, layout, i))
}

/// Element `i` lies inside its shard.
proof fn lemma_element_in_shard(layout: ArrayLayout, i: int)
    requires
        layout.wf(),
        0 <= i < layout.size,
    ensures
        0 <= layout.local_of(i) * layout.width,
        layout.local_of(i) * layout.width + layout.width <= layout.shard_len(),
        0 <= layout.shard_of(i) < layout.shard_count(),
{
    lemma_index_split(layout, i);
    let l = layout.local_of(i);
    let w = layout.width as int;
    let v = layout.values_per_account() as int;
    assert(0 <= l * w && l * w + w <= v * w) by (nonlinear_arith)
        requires 0 <= l < v, w > 0;
}

/// Writing element `i` and reading it back gives the written value; every
/// other element keeps its bytes, and the shards keep their sizes.
pub proof fn lemma_write_then_read(shards: Seq<Seq<u8>>, layout: ArrayLayout, i: int, v: Seq<u8>)
    requires
        layout.wf(),
        shards_wf(shards, layout),
        0 <= i < layout.size,
        v.len() == layout.width,
    ensures
        shards_wf(write_element(shards, layout, i, v), layout),
        element_at(write_element(shards, layout, i, v), layout, i) == v,
        forall|j: int| 0 <= j < layout.size && j != i ==>
            element_at(write_element(shards, layout, i, v), layout, j) == element_at(shards, layout, j),
{
    let w = layout.width as int;
    let k = layout.shard_of(i);
    let o = layout.local_of(i) * w;
    lemma_element_in_shard(layout, i);
    let new_shards = write_element(shards, layout, i, v);
    assert(new_shards[k].len() == shards[k].len());
    assert(element_at(new_shards, layout, i) =~= v);
    assert forall|j: int| 0 <= j < layout.size && j != i implies
        element_at(new_shards, layout, j) == element_at(shards, layout, j) by {
        lemma_element_in_shard(layout, j);
        if layout.shard_of(j) == k {
            if layout.local_of(j) == layout.local_of(i) {
                lemma_index_split_injective(layout, i, j);
            }
            let lj = layout.local_of(j);
            let li = layout.local_of(i);
            assert(lj * w + w <= li * w || li * w + w <= lj * w) by (nonlinear_arith)
                requires lj != li, w > 0;
            assert(element_at(new_shards, layout, j) =~= element_at(shards, layout, j));
        }
    }
}

/// A logical array of fixed-width elements stored across shards.
pub struct BigArrayAccount {
    layout: ArrayLayout,
    shards: Vec<Vec<u8>>,
}

impl View for BigArrayAccount {
    type V = Seq<Seq<u8>>;

    open spec fn view(&self) -> Seq<Seq<u8>> {
        elements(self.shard_bytes(), self.layout_of())
    }
}

impl BigArrayAccount {
    pub closed spec fn layout_of(&self) -> ArrayLayout {
        self.layout
    }

    /// The bytes of each shard.
    pub closed spec fn shard_bytes(&self) -> Seq<Seq<u8>> {
        self.shards@.map_values(|s: Vec<u8>| s@)
    }

    pub open spec fn wf(&self) -> bool {
        self.layout_of().wf() && shards_wf(self.shard_bytes(), self.layout_of())
    }

    /// An array whose shards start zeroed.
    pub fn new(layout: ArrayLayout) -> (r: BigArrayAccount)
        requires
            layout.wf(),
        ensures
            r.wf(),
            r.layout_of() == layout,
            forall|k: int| 0 <= k < r.shard_bytes().len() ==> #[trigger] r.shard_bytes()[k] == Seq::new(layout.shard_len(), |_i: int| 0u8),
            r@ == Seq::new(layout.size as nat, |_i: int| Seq::new(layout.width as nat, |_j: int| 0u8)),
    {
        proof {
            layout.lemma_shard_len();
        }
        let count = layout.accounts_count();
        let len = layout.max_values_per_account() * layout.width;
        let mut shards: Vec<Vec<u8>> = Vec::new();
        let mut k: usize = 0;
        while k < count
            invariant
                k <= count,
                count == layout.shard_count(),
                len == layout.shard_len(),
                shards@.len() == k,
                forall|j: int| 0 <= j < k ==> #[trigger] shards@[j]@ == Seq::new(layout.shard_len(), |_i: int| 0u8),
            decreases count - k,
        {
            shards.push(crate::ledger::zeroed(len));
            k += 1;
        }
        let r = BigArrayAccount { layout, shards };
        proof {
            let zeros = Seq::new(layout.width as nat, |_j: int| 0u8);
            assert forall|i: int| 0 <= i < layout.size implies #[trigger] r@[i] == zeros by {
                lemma_element_in_shard(layout, i);
                let k = layout.shard_of(i);
                assert(r.shard_bytes()[k] == shards@[k]@);
                assert(r@[i] =~= zeros);
            }
            assert(r@ =~= Seq::new(layout.size as nat, |_i: int| zeros));
        }
        r
    }

    /// An array over existing shards, which must number `accounts_count` and
    /// each hold `max_values_per_account * width` bytes.
    pub fn from_shards(layout: ArrayLayout, shards: Vec<Vec<u8>>) -> (r: Result<BigArrayAccount, ElusivError>)
        requires
            layout.wf(),
        ensures
            r is Ok <==> shards_wf(shards@.map_values(|s: Vec<u8>| s@), layout),
            r matches Ok(a) ==> a.wf() && a.layout_of() == layout && a.shard_bytes() == shards@.map_values(|s: Vec<u8>| s@),
            r is Err ==> r == Err::<BigArrayAccount, ElusivError>(ElusivError::SizeOrLayoutViolation),
    {
        proof {
            layout.lemma_shard_len();
        }
        let ghost sv = shards@.map_values(|s: Vec<u8>| s@);
        let count = layout.accounts_count();
        let len = layout.max_values_per_account() * layout.width;
        if shards.len() != count {
            return Err(ElusivError::SizeOrLayoutViolation);
        }
        let mut k: usize = 0;
        while k < count
            invariant
                k <= count,
                sv == shards@.map_values(|s: Vec<u8>| s@),
                shards@.len() == count,
                count == layout.shard_count(),
                len == layout.shard_len(),
                forall|j: int| 0 <= j < k ==> #[trigger] shards@[j]@.len() == layout.shard_len(),
            decreases count - k,
        {
            if shards[k].len() != len {
                assert(sv[k as int] == shards@[k as int]@);
                assert(sv[k as int].len() != layout.shard_len());
                return Err(ElusivError::SizeOrLayoutViolation);
            }
            k += 1;
        }
        assert(shards_wf(sv, layout)) by {
            assert forall|j: int| 0 <= j < sv.len() implies #[trigger] sv[j].len() == layout.shard_len() by {
                assert(shards@[j]@.len() == layout.shard_len());
            }
        }
        Ok(BigArrayAccount { layout, shards })
    }

    /// The array's layout.
    pub fn layout(&self) -> (r: ArrayLayout)
        ensures
            r == self.layout_of(),
    {
        self.layout
    }

    /// The shards, in order.
    pub fn get_array_accounts(&self) -> (r: &Vec<Vec<u8>>)
        ensures
            r@.map_values(|s: Vec<u8>| s@) == self.shard_bytes(),
    {
        &self.shards
    }

    /// Element `index`.
    pub fn get(&self, index: usize) -> (r: Vec<u8>)
        requires
            self.wf(),
            index < self.layout_of().size,
        ensures
            r@ == self@[index as int],
            r@ == element_at(self.shard_bytes(), self.layout_of(), index as int),
    {
        let layout = self.layout;
        proof {
            lemma_element_in_shard(layout, index as int);
        }
        let (account_index, local_index) = layout.account_and_local_index(index);
        proof {
            layout.lemma_shard_len();
            assert(self.shard_bytes()[account_index as int] == self.shards@[account_index as int]@);
            assert(self.shard_bytes()[account_index as int].len() == layout.shard_len());
        }
        let start = local_index * layout.width;
        let shard = &self.shards[account_index];
        assert(shard@ == self.shard_bytes()[account_index as int]);
        let mut r: Vec<u8> = Vec::new();
        let mut t: usize = 0;
        while t < layout.width
            invariant
                t <= layout.width,
                start + layout.width <= shard@.len(),
                start + layout.width <= layout.max_account_size,
                r@ =~= shard@.subrange(start as int, start + t),
            decreases layout.width - t,
        {
            r.push(shard[start + t]);
            t += 1;
        }
        r
    }

    /// Overwrites element `index` with `value`; no other element changes.
    pub fn set(&mut self, index: usize, value: &Vec<u8>)
        requires
            old(self).wf(),
            index < old(self).layout_of().size,
            value@.len() == old(self).layout_of().width,
        ensures
            final(self).wf(),
            final(self).layout_of() == old(self).layout_of(),
            final(self).shard_bytes() == write_element(old(self).shard_bytes(), old(self).layout_of(), index as int, value@),
            final(self)@ == old(self)@.update(index as int, value@),
    {
        let layout = self.layout;
        let ghost old_bytes = self.shard_bytes();
        proof {
            lemma_element_in_shard(layout, index as int);
            lemma_write_then_read(old_bytes, layout, index as int, value@);
        }
        let (account_index, local_index) = layout.account_and_local_index(index);
        proof {
            layout.lemma_shard_len();
            assert(old_bytes[account_index as int] == self.shards@[account_index as int]@);
            assert(old_bytes[account_index as int].len() == layout.shard_len());
        }
        let start = local_index * layout.width;
        let ghost k = account_index as int;
        let ghost old_shard = old_bytes[k];
        let mut t: usize = 0;
        while t < layout.width
            invariant
                t <= layout.width,
                layout == self.layout,
                value@.len() == layout.width,
                start + layout.width <= old_shard.len(),
                start + layout.width <= layout.max_account_size,
                k == account_index,
                0 <= k < old_bytes.len(),
                self.shards@.len() == old_bytes.len(),
                forall|j: int| 0 <= j < old_bytes.len() && j != k ==> #[trigger] self.shards@[j]@ == old_bytes[j],
                self.shards@[k]@.len() == old_shard.len(),
                forall|p: int| 0 <= p < old_shard.len() ==> #[trigger] self.shards@[k]@[p] == if start <= p < start + t {
                    value@[p - start]
                } else {
                    old_shard[p]
                },
            decreases layout.width - t,
        {
            self.shards[account_index].set(start + t, value[t]);
            t += 1;
        }
        proof {
            let expected = write_element(old_bytes, layout, index as int, value@);
            assert(self.shards@[k]@ =~= expected[k]);
            assert(self.shard_bytes() =~= expected);
            assert(self@ =~= old(self)@.update(index as int, value@));
        }
    }

    /// The bytes of elements `start_index .. end_index`, concatenated in order
    /// into a fresh buffer (the shards are not contiguous).
    pub fn get_mut_array_slice(&self, start_index: usize, end_index: usize) -> (r: Vec<u8>)
        requires
            self.wf(),
            start_index <= end_index <= self.layout_of().size,
        ensures
            r@ == self@.subrange(start_index as int, end_index as int).flatten(),
    {
        let mut r: Vec<u8> = Vec::new();
        let mut i: usize = start_index;
        while i < end_index
            invariant
                self.wf(),
                start_index <= i <= end_index <= self.layout_of().size,
                r@ == self@.subrange(start_index as int, i as int).flatten(),
            decreases end_index - i,
        {
            let element = self.get(i);
            let mut t: usize = 0;
            let ghost before = r@;
            while t < element.len()
                invariant
                    t <= element@.len(),
                    r@ == before + element@.subrange(0, t as int),
                decreases element@.len() - t,
            {
                r.push(element[t]);
                t += 1;
                assert(r@ =~= before + element@.subrange(0, t as int));
            }
            proof {
                let prefix = self@.subrange(start_index as int, i as int);
                assert(self@.subrange(start_index as int, i + 1) =~= prefix.push(self@[i as int]));
                prefix.lemma_flatten_push(self@[i as int]);
                assert(element@.subrange(0, element@.len() as int) =~= element@);
            }
            i += 1;
        }
        r
    }

    /// The bytes of the whole array.
    pub fn get_full_array(&self) -> (r: Vec<u8>)
        requires
            self.wf(),
        ensures
            r@ == self@.flatten(),
    {
        let r = self.get_mut_array_slice(0, self.layout.size);
        assert(self@.subrange(0, self@.len() as int) =~= self@);
        r
    }
}

/// The derived address and bump of shard `i`: the seed extended by
/// `offsets` and then `i`.
pub open spec fn shard_pda(seed: Seq<u8>, offsets: Seq<u64>, i: int, program_id: Seq<u8>) -> Option<(Seq<u8>, u8)> {
    program_address_of(pda_seed_spec(seed, offsets.push(i as u64)), program_id)
}

impl ArrayLayout {
    /// The addresses of the shards: shard `i` is derived from `seed` extended
    /// by `offsets` and then `i`. `None` where some derivation fails.
    pub fn array_accounts_pdas(&self, seed: &Vec<u8>, offsets: &Vec<u64>, program_id: &U256) -> (r: Option<Vec<U256>>)
        requires
            self.wf(),
        ensures
            r matches Some(v) ==> v@.len() == self.shard_count() && forall|i: int| 0 <= i < v@.len() ==>
                (#[trigger] shard_pda(seed@, offsets@, i, program_id@)) is Some
                && (shard_pda(seed@, offsets@, i, program_id@)->0).0 == v@[i]@,
            r is None ==> exists|i: int| 0 <= i < self.shard_count()
                && (#[trigger] shard_pda(seed@, offsets@, i, program_id@)) is None,
    {
        let count = self.accounts_count();
        let mut v: Vec<U256> = Vec::new();
        let mut i: usize = 0;
        while i < count
            invariant
                i <= count,
                count == self.shard_count(),
                v@.len() == i,
                forall|j: int| 0 <= j < i ==>
                    (#[trigger] shard_pda(seed@, offsets@, j, program_id@)) is Some
                    && (shard_pda(seed@, offsets@, j, program_id@)->0).0 == v@[j]@,
            decreases count - i,
        {
            let mut shard_offsets = offsets.clone();
            shard_offsets.push(i as u64);
            assert(shard_offsets@ == offsets@.push(i as u64));
            match find_pda(seed, &shard_offsets, program_id) {
                None => {
                    assert(shard_pda(seed@, offsets@, i as int, program_id@) is None);
                    return None;
                },
                Some((address, _bump)) => {
                    v.push(address);
                },
            }
            i += 1;
        }
        Some(v)
    }
}

} // verus!
