//! Program-derived (keyless) addresses for offers.
//!
//! An offer's address is derived from the domain tag `"offer"`, the maker's identity
//! and the little-endian bytes of the offer id, under the swap program's identity.
//! No private key exists for such an address: only the program, by reproducing the
//! derivation, can act as it.
use vstd::prelude::*;
use vstd::bytes::{spec_u64_to_le_bytes, u64_to_le_bytes};
use crate::table::Key;

verus! {

/// The address that the runtime's search for a program-derived address finds for the
/// given seeds under the given program, with its bump seed; none where it finds none.
pub uninterp spec fn program_address_of(seeds: Seq<Seq<u8>>, program: Seq<u8>) -> Option<(Seq<u8>, u8)>;

/// The program-derived address of the given seeds (the bump seed last) under the
/// given program; none where the seeds are invalid or the address is a curve point.
pub uninterp spec fn created_address_of(seeds: Seq<Seq<u8>>, program: Seq<u8>) -> Option<Seq<u8>>;

/// The byte strings of a list of seeds.
pub open spec fn seeds_view(s: Seq<Vec<u8>>) -> Seq<Seq<u8>> {
    s.map_values(|v: Vec<u8>| v@)
}

/// The domain tag of offer addresses: the bytes of `"offer"`.
pub open spec fn offer_tag() -> Seq<u8> {
    seq![111u8, 102u8, 102u8, 101u8, 114u8]
}

/// The seeds from which the address of the offer `id` of `maker` is derived.
pub open spec fn offer_seeds(maker: Seq<u8>, id: u64) -> Seq<Seq<u8>> {
    seq![offer_tag(), maker, spec_u64_to_le_bytes(id)]
}

/// The offer seeds followed by the bump seed, as used to sign for the offer's address.
pub open spec fn offer_signer_seeds(maker: Seq<u8>, id: u64, bump: u8) -> Seq<Seq<u8>> {
    offer_seeds(maker, id).push(seq![bump])
}

/// The address and bump seed of the offer `id` of `maker` under `program`.
pub open spec fn offer_address_of(maker: Seq<u8>, id: u64, program: Seq<u8>) -> Option<(Seq<u8>, u8)> {
    program_address_of(offer_seeds(maker, id), program)
}

/// Relies on `Pubkey::try_find_program_address` of solana_program (through anchor_lang):
/// its result depends on the seeds and the program id alone.
#[verifier::external_body]
fn find_program_address(seeds: &Vec<Vec<u8>>, program_id: &Key) -> (r: Option<(Key, u8)>)
    ensures
        match r {
            Some((a, b)) => program_address_of(seeds_view(seeds@), program_id@) == Some((a@, b)),
            None => program_address_of(seeds_view(seeds@), program_id@) is None,
        },
{
    let parts: Vec<&[u8]> = seeds.iter().map(|s| s.as_slice()).collect();
    let program = anchor_lang::prelude::Pubkey::new_from_array(*program_id);
    anchor_lang::prelude::Pubkey::try_find_program_address(&parts, &program).map(
        |(a, b)| (a.to_bytes(), b),
    )
}

/// Relies on `Pubkey::create_program_address` of solana_program (through anchor_lang):
/// its result depends on the seeds and the program id alone; its error becomes `None`.
#[verifier::external_body]
fn create_program_address(seeds: &Vec<Vec<u8>>, program_id: &Key) -> (r: Option<Key>)
    ensures
        match r {
            Some(a) => created_address_of(seeds_view(seeds@), program_id@) == Some(a@),
            None => created_address_of(seeds_view(seeds@), program_id@) is None,
        },
{
    let parts: Vec<&[u8]> = seeds.iter().map(|s| s.as_slice()).collect();
    let program = anchor_lang::prelude::Pubkey::new_from_array(*program_id);
    anchor_lang::prelude::Pubkey::create_program_address(&parts, &program).ok().map(
        |a| a.to_bytes(),
    )
}

/// The bytes of a key as a vector.
fn key_bytes(k: &Key) -> (r: Vec<u8>)
    ensures
        r@ == k@,
{
    let mut r: Vec<u8> = Vec::new();
    let mut i: usize = 0;
    while i < 32
        invariant
            0 <= i <= 32,
            k@.len() == 32,
            r@ == k@.subrange(0, i as int),
        decreases 32 - i,
    {
        r.push(k[i]);
        i = i + 1;
        assert(r@ =~= k@.subrange(0, i as int));
    }
    assert(k@.subrange(0, 32) =~= k@);
    r
}

/// The seeds of the offer `id` of `maker`.
pub fn offer_seed_list(maker: &Key, id: u64) -> (r: Vec<Vec<u8>>)
    ensures
        seeds_view(r@) == offer_seeds(maker@, id),
{
    let tag: Vec<u8> = vec![111u8, 102u8, 102u8, 101u8, 114u8];
    let mut r: Vec<Vec<u8>> = Vec::new();
    r.push(tag);
    r.push(key_bytes(maker));
    r.push(u64_to_le_bytes(id));
    assert(seeds_view(r@) =~= offer_seeds(maker@, id));
    r
}

/// Derives the address of the offer `id` of `maker` under the program `program_id`,
/// with the bump seed that makes it a keyless address.
pub fn derive_offer_address(maker: &Key, id: u64, program_id: &Key) -> (r: Option<(Key, u8)>)
    ensures
        match r {
            Some((a, b)) => offer_address_of(maker@, id, program_id@) == Some((a@, b)),
            None => offer_address_of(maker@, id, program_id@) is None,
        },
{
    let seeds = offer_seed_list(maker, id);
    find_program_address(&seeds, program_id)
}

/// Recomputes the address of the offer `id` of `maker` from its stored bump seed.
pub fn offer_signer_address(maker: &Key, id: u64, bump: u8, program_id: &Key) -> (r: Option<Key>)
    ensures
        match r {
            Some(a) => created_address_of(offer_signer_seeds(maker@, id, bump), program_id@) == Some(a@),
            None => created_address_of(offer_signer_seeds(maker@, id, bump), program_id@) is None,
        },
{
    let mut seeds = offer_seed_list(maker, id);
    let bump_seed: Vec<u8> = vec![bump];
    assert(bump_seed@ =~= seq![bump]);
    let ghost before = seeds@;
    seeds.push(bump_seed);
    assert(seeds@ == before.push(bump_seed));
    assert(seeds_view(seeds@) =~= seeds_view(before).push(seq![bump]));
    create_program_address(&seeds, program_id)
}

/// Derivation is a function of the maker, the id and the program alone: two
/// derivations from the same inputs give the same address and bump seed.
pub proof fn lemma_derivation_deterministic(
    maker: Seq<u8>,
    id: u64,
    program: Seq<u8>,
    first: Option<(Seq<u8>, u8)>,
    second: Option<(Seq<u8>, u8)>,
)
    requires
        first == offer_address_of(maker, id, program),
        second == offer_address_of(maker, id, program),
    ensures
        first == second,
{
}

} // verus!
