use vstd::prelude::*;
use solana_program::pubkey::Pubkey;

verus! {

/// A 32-byte address (a public key or a program-derived address).
pub type U256 = [u8; 32];

/// The `n` lowest bytes of `v`, least significant first.
pub open spec fn le_bytes(v: nat, n: nat) -> Seq<u8>
    decreases n,
{
    if n == 0 {
        seq![]
    } else {
        seq![(v % 256) as u8] + le_bytes(v / 256, (n - 1) as nat)
    }
}

/// The little-endian encoding of a 64-bit offset.
pub open spec fn u64_le(v: u64) -> Seq<u8> {
    le_bytes(v as nat, 8)
}

/// The seed list of a PDA: the type's seed followed by each offset's encoding.
pub open spec fn pda_seed_spec(seed: Seq<u8>, offsets: Seq<u64>) -> Seq<Seq<u8>> {
    seq![seed] + offsets.map_values(|o: u64| u64_le(o))
}

/// The offsets of an optional offset.
pub open spec fn offsets_of(offset: Option<u64>) -> Seq<u64> {
    match offset {
        Some(o) => seq![o],
        None => seq![],
    }
}

/// The byte sequences of a list of seeds.
pub open spec fn view_seeds(seeds: Seq<Vec<u8>>) -> Seq<Seq<u8>> {
    seeds.map_values(|s: Vec<u8>| s@)
}

/// The program-derived address and bump for a seed list under a program id,
/// or `None` where no bump gives a valid derived address.
pub uninterp spec fn program_address_of(seeds: Seq<Seq<u8>>, program_id: Seq<u8>) -> Option<(Seq<u8>, u8)>;

/// The address and bump that `derive_address` computes.
pub open spec fn derived(seed: Seq<u8>, offset: Option<u64>, program_id: Seq<u8>) -> Option<(Seq<u8>, u8)> {
    program_address_of(pda_seed_spec(seed, offsets_of(offset)), program_id)
}

/// Relies on `Pubkey::try_find_program_address`: the derived address and bump
/// for `seeds` under `program_id`, or `None` where no bump gives one.
#[verifier::external_body]
fn try_find_program_address(seeds: &Vec<Vec<u8>>, program_id: &U256) -> (r: Option<(U256, u8)>)
    ensures
        r is None <==> program_address_of(view_seeds(seeds@), program_id@) is None,
        r matches Some(p) ==> program_address_of(view_seeds(seeds@), program_id@) == Some((p.0@, p.1)),
{
    let slices: Vec<&[u8]> = seeds.iter().map(|s| s.as_slice()).collect();
    let program = Pubkey::new_from_array(*program_id);
    Pubkey::try_find_program_address(&slices, &program).map(|(a, b)| (a.to_bytes(), b))
}

/// Little-endian encoding of `v`.
pub fn u64_to_le_bytes(v: u64) -> (r: Vec<u8>)
    ensures
        r@ == u64_le(v),
{
    let mut out: Vec<u8> = Vec::new();
    let mut x: u64 = v;
    let mut i: usize = 0;
    while i < 8
        invariant
            i <= 8,
            out@ + le_bytes(x as nat, (8 - i) as nat) == le_bytes(v as nat, 8),
        decreases 8 - i,
    {
        let ghost rest = le_bytes(x as nat / 256, (8 - i - 1) as nat);
        assert(le_bytes(x as nat, (8 - i) as nat) == seq![(x as nat % 256) as u8] + rest);
        assert(out@.push((x % 256) as u8) + rest =~= out@ + (seq![(x as nat % 256) as u8] + rest));
        out.push((x % 256) as u8);
        x = x / 256;
        i += 1;
    }
    assert(out@ + le_bytes(x as nat, 0) =~= out@);
    out
}

/// The seed list of a PDA with the given offsets (`PDAAccount` seeds extended
/// by each offset's little-endian bytes).
pub fn pda_seed(seed: &Vec<u8>, offsets: &Vec<u64>) -> (r: Vec<Vec<u8>>)
    ensures
        view_seeds(r@) == pda_seed_spec(seed@, offsets@),
{
    let mut r: Vec<Vec<u8>> = Vec::new();
    r.push(seed.clone());
    let mut i: usize = 0;
    while i < offsets.len()
        invariant
            i <= offsets@.len(),
            view_seeds(r@) =~= pda_seed_spec(seed@, offsets@.subrange(0, i as int)),
        decreases offsets@.len() - i,
    {
        let bytes = u64_to_le_bytes(offsets[i]);
        let ghost prev = r@;
        r.push(bytes);
        let ghost pre = offsets@.subrange(0, i as int);
        assert(offsets@.subrange(0, i + 1) =~= pre.push(offsets@[i as int]));
        assert(pre.push(offsets@[i as int]).map_values(|o: u64| u64_le(o))
            =~= pre.map_values(|o: u64| u64_le(o)).push(u64_le(offsets@[i as int])));
        assert(view_seeds(r@) =~= view_seeds(prev).push(u64_le(offsets@[i as int])));
        assert(view_seeds(r@) =~= pda_seed_spec(seed@, offsets@.subrange(0, i + 1)));
        i += 1;
    }
    assert(offsets@.subrange(0, offsets@.len() as int) =~= offsets@);
    r
}

/// The offsets vector of an optional offset.
fn offsets_vec(offset: Option<u64>) -> (r: Vec<u64>)
    ensures
        r@ == offsets_of(offset),
{
    let mut r: Vec<u64> = Vec::new();
    if let Some(o) = offset {
        r.push(o);
    }
    assert(r@ =~= offsets_of(offset));
    r
}

/// Derives the program address and bump for `seed` extended by `offsets`.
pub fn find_pda(seed: &Vec<u8>, offsets: &Vec<u64>, program_id: &U256) -> (r: Option<(U256, u8)>)
    ensures
        r is None <==> program_address_of(pda_seed_spec(seed@, offsets@), program_id@) is None,
        r matches Some(p) ==> program_address_of(pda_seed_spec(seed@, offsets@), program_id@) == Some((p.0@, p.1)),
{
    let seeds = pda_seed(seed, offsets);
    try_find_program_address(&seeds, program_id)
}

/// Derives the program address and bump for `seed` and an optional offset.
pub fn derive_address(seed: &Vec<u8>, offset: Option<u64>, program_id: &U256) -> (r: Option<(U256, u8)>)
    ensures
        r is None <==> derived(seed@, offset, program_id@) is None,
        r matches Some(p) ==> derived(seed@, offset, program_id@) == Some((p.0@, p.1)),
{
    let offsets = offsets_vec(offset);
    find_pda(seed, &offsets, program_id)
}

/// The seeds that authorize creation at a derived address: the PDA seeds
/// followed by the bump byte.
pub fn signer_seeds(seed: &Vec<u8>, offset: Option<u64>, bump: u8) -> (r: Vec<Vec<u8>>)
    ensures
        view_seeds(r@) == pda_seed_spec(seed@, offsets_of(offset)).push(seq![bump]),
{
    let offsets = offsets_vec(offset);
    let mut r = pda_seed(seed, &offsets);
    let mut b: Vec<u8> = Vec::new();
    b.push(bump);
    r.push(b);
    assert(view_seeds(r@) =~= pda_seed_spec(seed@, offsets_of(offset)).push(seq![bump]));
    r
}

/// Whether two addresses are equal.
pub fn addresses_equal(a: &U256, b: &U256) -> (r: bool)
    ensures
        r == (a@ == b@),
{
    let mut i: usize = 0;
    while i < 32
        invariant
            i <= 32,
            a@.len() == 32,
            b@.len() == 32,
            forall|j: int| 0 <= j < i ==> a@[j] == b@[j],
        decreases 32 - i,
    {
        if a[i] != b[i] {
            return false;
        }
        i += 1;
    }
    assert(a@ =~= b@);
    true
}

} // verus!
