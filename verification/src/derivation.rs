//! Deterministic address derivation for stake records.
//!
//! A stake record's address is derived from the seed tuple
//! `("stake", config identity, asset identity)` plus a disambiguation bump
//! byte. The derivation itself is the ledger substrate's: it is consumed
//! through the two trusted wrappers below and never reimplemented. The
//! derived address doubles as the record's signing authority, reconstructed
//! on demand from public seeds and the stored bump.

use crate::records::Key;
use vstd::prelude::*;

verus! {

broadcast use vstd::array::group_array_axioms;

/// The address and bump that searching the bump space yields for a seed
/// tuple under a program, if any.
pub uninterp spec fn found_address(seeds: Seq<Seq<u8>>, program: Seq<u8>) -> Option<(Seq<u8>, u8)>;

/// The address that a full seed tuple (bump included) derives under a
/// program, or `None` where the tuple names no valid derived address.
pub uninterp spec fn created_address(seeds: Seq<Seq<u8>>, program: Seq<u8>) -> Option<Seq<u8>>;

/// The namespace tag of stake record derivations: the bytes of "stake".
pub open spec fn stake_tag() -> Seq<u8> {
    seq![115u8, 116u8, 97u8, 107u8, 101u8]
}

/// The seed tuple of a stake record: tag, then configuration identity, then
/// asset identity — the one canonical order, applied uniformly.
pub open spec fn stake_seeds(config: Seq<u8>, mint: Seq<u8>) -> Seq<Seq<u8>> {
    seq![stake_tag(), config, mint]
}

/// The full seed tuple of a stake record's authority: the stake seeds with
/// the stored bump appended.
pub open spec fn authority_seeds(config: Seq<u8>, mint: Seq<u8>, bump: u8) -> Seq<Seq<u8>> {
    stake_seeds(config, mint).push(seq![bump])
}

/// Relies on `Pubkey::try_find_program_address`: the result is a pure
/// function of the seeds and the program id; its documentation states that
/// appending the returned bump to the seeds and calling
/// `create_program_address` reproduces the returned address, and that `None`
/// comes only when no bump yields a valid address.
#[verifier::external_body]
fn try_find_pda3(s0: &[u8], s1: &[u8], s2: &[u8], program: &Key) -> (r: Option<(Key, u8)>)
    ensures
        r matches Some(p) ==> found_address(seq![s0@, s1@, s2@], program@) == Some((p.0@, p.1)),
        r is None ==> found_address(seq![s0@, s1@, s2@], program@) is None,
        r matches Some(p) ==> created_address(seq![s0@, s1@, s2@].push(seq![p.1]), program@)
            == Some(p.0@),
{
    let pk = anchor_lang::solana_program::pubkey::Pubkey::new_from_array(*program);
    match anchor_lang::solana_program::pubkey::Pubkey::try_find_program_address(
        &[s0, s1, s2],
        &pk,
    ) {
        Some((address, bump)) => Some((address.to_bytes(), bump)),
        None => None,
    }
}

/// Relies on `Pubkey::create_program_address`: the result is a pure function
/// of the seeds and the program id; an error means the seed tuple names no
/// valid derived address.
#[verifier::external_body]
fn create_pda4(s0: &[u8], s1: &[u8], s2: &[u8], s3: &[u8], program: &Key) -> (r: Option<Key>)
    ensures
        r matches Some(a) ==> created_address(seq![s0@, s1@, s2@, s3@], program@) == Some(a@),
        r is None ==> created_address(seq![s0@, s1@, s2@, s3@], program@) is None,
{
    let pk = anchor_lang::solana_program::pubkey::Pubkey::new_from_array(*program);
    match anchor_lang::solana_program::pubkey::Pubkey::create_program_address(
        &[s0, s1, s2, s3],
        &pk,
    ) {
        Ok(address) => Some(address.to_bytes()),
        Err(_) => None,
    }
}

/// The namespace tag as bytes.
fn stake_tag_bytes() -> (r: [u8; 5])
    ensures
        r@ == stake_tag(),
{
    let r: [u8; 5] = [115u8, 116u8, 97u8, 107u8, 101u8];
    proof {
        assert(r@ =~= stake_tag());
    }
    r
}

/// Search for the derived address and bump of the stake record of `mint`
/// under `config` and `program`.
pub fn find_stake_address(config: &Key, mint: &Key, program: &Key) -> (r: Option<(Key, u8)>)
    ensures
        r matches Some(p) ==> found_address(stake_seeds(config@, mint@), program@) == Some(
            (p.0@, p.1),
        ),
        r is None ==> found_address(stake_seeds(config@, mint@), program@) is None,
        r matches Some(p) ==> created_address(authority_seeds(config@, mint@, p.1), program@)
            == Some(p.0@),
{
    let tag = stake_tag_bytes();
    let r = try_find_pda3(tag.as_slice(), config.as_slice(), mint.as_slice(), program);
    proof {
        assert(seq![tag@, config@, mint@] =~= stake_seeds(config@, mint@));
    }
    r
}

/// Reconstruct the derived authority from the public seeds and a stored
/// bump, and report whether it reproduces `expected` — the check a later
/// operation performs instead of searching the bump space again.
pub fn reproduces_address(config: &Key, mint: &Key, bump: u8, program: &Key, expected: &Key) -> (r:
    bool)
    ensures
        r == (created_address(authority_seeds(config@, mint@, bump), program@) == Some(
            expected@,
        )),
{
    let tag = stake_tag_bytes();
    let bump_seed: [u8; 1] = [bump];
    let r = create_pda4(
        tag.as_slice(),
        config.as_slice(),
        mint.as_slice(),
        bump_seed.as_slice(),
        program,
    );
    proof {
        assert(bump_seed@ =~= seq![bump]);
        assert(seq![tag@, config@, mint@, bump_seed@] =~= authority_seeds(config@, mint@, bump));
    }
    match r {
        Some(address) => {
            let eq = crate::records::key_eq(&address, expected);
            proof {
                if address@ == expected@ {
                    assert(address =~= *expected);
                }
            }
            eq
        },
        None => false,
    }
}

} // verus!
