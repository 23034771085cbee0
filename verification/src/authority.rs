use crate::identity::{identity_of, Identity};
use anchor_lang::prelude::Pubkey;
use vstd::prelude::*;

verus! {

/// The derivation parameters by which a holder acts as the signing authority
/// of a vault: the seeds, the bump among them, from which the program derives
/// the authority's identity. Whoever holds the matching parameters can act.
#[derive(Debug, PartialEq, Eq)]
pub struct AuthorityProof {
    pub seeds: Vec<Vec<u8>>,
}

impl View for AuthorityProof {
    type V = Seq<Seq<u8>>;

    open spec fn view(&self) -> Seq<Seq<u8>> {
        Seq::new(self.seeds@.len(), |i: int| self.seeds@[i]@)
    }
}

/// The address that the program `program` derives from `seeds`, if they
/// derive one: what `Pubkey::create_program_address` returns.
pub uninterp spec fn program_address(seeds: Seq<Seq<u8>>, program: Seq<u8>) -> Option<Seq<u8>>;

/// The address and bump seed that a search from `seeds` finds for the program
/// `program`: what `Pubkey::try_find_program_address` returns.
pub uninterp spec fn found_program_address(seeds: Seq<Seq<u8>>, program: Seq<u8>) -> Option<
    (Seq<u8>, u8),
>;

/// An optional identity as its bytes.
pub open spec fn bytes_of(identity: Option<Identity>) -> Option<Seq<u8>> {
    match identity {
        Some(identity) => Some(identity@),
        None => None,
    }
}

/// A found address and bump, the address as its bytes.
pub open spec fn found_bytes_of(found: Option<(Identity, u8)>) -> Option<(Seq<u8>, u8)> {
    match found {
        Some((identity, bump)) => Some((identity@, bump)),
        None => None,
    }
}

/// A found address and bump, the address as the identity that has its bytes.
pub open spec fn found_identity(found: Option<(Seq<u8>, u8)>) -> Option<(Identity, u8)> {
    match found {
        Some((bytes, bump)) => Some((identity_of(bytes), bump)),
        None => None,
    }
}

/// Calls `Pubkey::create_program_address` on the proof's seeds. Trusted: the
/// result is the address that function derives from these seeds for this
/// program, and `None` where it reports an error (too many or too long seeds,
/// or seeds that derive no valid address).
#[verifier::external_body]
pub(crate) fn create_program_address(proof: &AuthorityProof, program: &Identity) -> (address:
    Option<Identity>)
    ensures
        bytes_of(address) == program_address(proof@, program@),
{
    let seeds: Vec<&[u8]> = proof.seeds.iter().map(|seed| seed.as_slice()).collect();
    match Pubkey::create_program_address(&seeds, &Pubkey::new_from_array(program.bytes)) {
        Ok(address) => Some(Identity { bytes: address.to_bytes() }),
        Err(_) => None,
    }
}

/// Calls `Pubkey::try_find_program_address` on the proof's seeds. Trusted: the
/// result is the address and bump seed that function finds for this program,
/// and `None` where it finds none; and an address it finds is the one that
/// `Pubkey::create_program_address` derives from the same seeds with the
/// found bump seed appended, which is how the search tells that it has found
/// one.
#[verifier::external_body]
pub(crate) fn try_find_program_address(proof: &AuthorityProof, program: &Identity) -> (found:
    Option<(Identity, u8)>)
    ensures
        found_bytes_of(found) == found_program_address(proof@, program@),
        found matches Some((address, bump)) ==> program_address(
            with_bump(proof@, bump),
            program@,
        ) == Some(address@),
{
    let seeds: Vec<&[u8]> = proof.seeds.iter().map(|seed| seed.as_slice()).collect();
    match Pubkey::try_find_program_address(&seeds, &Pubkey::new_from_array(program.bytes)) {
        Some((address, bump)) => Some((Identity { bytes: address.to_bytes() }, bump)),
        None => None,
    }
}

/// Tag of the seeds from which a stake record's identity is derived: the
/// bytes of `stake_info`.
pub const STAKE_INFO_SEED: [u8; 10] = [115, 116, 97, 107, 101, 95, 105, 110, 102, 111];

/// Tag of the seeds from which a reward pool's authority is derived: the
/// bytes of `reward_vault`.
pub const REWARD_VAULT_SEED: [u8; 12] = [114, 101, 119, 97, 114, 100, 95, 118, 97, 117, 108, 116];

/// The seeds from which the identity of the record of `staker` in `asset` is
/// searched.
pub open spec fn record_seeds(staker: Identity, asset: Identity) -> Seq<Seq<u8>> {
    seq![STAKE_INFO_SEED@, staker@, asset@]
}

/// The seeds from which the authority of the reward pool of `asset` is
/// searched.
pub open spec fn pool_seeds(asset: Identity) -> Seq<Seq<u8>> {
    seq![REWARD_VAULT_SEED@, asset@]
}

/// Seeds completed by their bump seed: what a holder signs with.
pub open spec fn with_bump(seeds: Seq<Seq<u8>>, bump: u8) -> Seq<Seq<u8>> {
    seeds.push(seq![bump])
}

fn tag_seed<const N: usize>(tag: &[u8; N]) -> (seed: Vec<u8>)
    ensures
        seed@ == tag@,
{
    let mut seed: Vec<u8> = Vec::new();
    let mut i: usize = 0;
    while i < N
        invariant
            i <= N,
            tag@.len() == N,
            seed@ == tag@.subrange(0, i as int),
        decreases N - i,
    {
        seed.push(tag[i]);
        i += 1;
    }
    assert(seed@ =~= tag@);
    seed
}

impl AuthorityProof {
    /// The seeds of the record of `staker` in `asset`, without a bump.
    pub fn record_search(staker: &Identity, asset: &Identity) -> (proof: AuthorityProof)
        ensures
            proof@ == record_seeds(*staker, *asset),
    {
        let mut seeds: Vec<Vec<u8>> = Vec::new();
        seeds.push(tag_seed(&STAKE_INFO_SEED));
        seeds.push(staker.to_seed());
        seeds.push(asset.to_seed());
        let proof = AuthorityProof { seeds };
        assert(proof@ =~= record_seeds(*staker, *asset));
        proof
    }

    /// The seeds of the reward pool of `asset`, without a bump.
    pub fn pool_search(asset: &Identity) -> (proof: AuthorityProof)
        ensures
            proof@ == pool_seeds(*asset),
    {
        let mut seeds: Vec<Vec<u8>> = Vec::new();
        seeds.push(tag_seed(&REWARD_VAULT_SEED));
        seeds.push(asset.to_seed());
        let proof = AuthorityProof { seeds };
        assert(proof@ =~= pool_seeds(*asset));
        proof
    }

    /// These seeds completed by `bump`.
    pub fn signed(self, bump: u8) -> (proof: AuthorityProof)
        ensures
            proof@ == with_bump(self@, bump),
    {
        let ghost before = self@;
        let mut seeds = self.seeds;
        let mut last: Vec<u8> = Vec::new();
        last.push(bump);
        seeds.push(last);
        let proof = AuthorityProof { seeds };
        assert(proof@ =~= with_bump(before, bump));
        proof
    }

    /// What the record of `staker` in `asset` signs with.
    pub fn for_record(staker: &Identity, asset: &Identity, bump: u8) -> (proof: AuthorityProof)
        ensures
            proof@ == with_bump(record_seeds(*staker, *asset), bump),
    {
        AuthorityProof::record_search(staker, asset).signed(bump)
    }

    /// What the reward pool of `asset` signs with.
    pub fn for_pool(asset: &Identity, bump: u8) -> (proof: AuthorityProof)
        ensures
            proof@ == with_bump(pool_seeds(*asset), bump),
    {
        AuthorityProof::pool_search(asset).signed(bump)
    }
}

/// The identity under which the record of `staker` in `asset` is kept, and
/// the bump that completes its authority proof, where the search finds one.
pub fn record_address(staker: &Identity, asset: &Identity, program: &Identity) -> (found: Option<
    (Identity, u8),
>)
    ensures
        found_bytes_of(found) == found_program_address(record_seeds(*staker, *asset), program@),
        found matches Some((address, bump)) ==> program_address(
            with_bump(record_seeds(*staker, *asset), bump),
            program@,
        ) == Some(address@),
{
    let seeds = AuthorityProof::record_search(staker, asset);
    try_find_program_address(&seeds, program)
}

/// The authority of the reward pool of `asset`, and the bump that completes
/// its authority proof, where the search finds one.
pub fn pool_address(asset: &Identity, program: &Identity) -> (found: Option<(Identity, u8)>)
    ensures
        found_bytes_of(found) == found_program_address(pool_seeds(*asset), program@),
        found matches Some((address, bump)) ==> program_address(
            with_bump(pool_seeds(*asset), bump),
            program@,
        ) == Some(address@),
{
    let seeds = AuthorityProof::pool_search(asset);
    try_find_program_address(&seeds, program)
}

} // verus!
