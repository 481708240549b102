//! The protocol's record types and the identity type they are keyed by.

use vstd::prelude::*;

verus! {

/// An identity: a 32-byte account address, as the ledger substrate uses for
/// holders, mints, programs and derived record addresses.
pub type Key = [u8; 32];

/// Byte-wise equality of two identities.
pub fn key_eq(a: &Key, b: &Key) -> (r: bool)
    ensures
        r == (*a == *b),
{
    let mut i: usize = 0;
    while i < 32
        invariant
            i <= 32,
            forall|j: int| 0 <= j < i ==> a@[j] == b@[j],
        decreases 32 - i,
    {
        if a[i] != b[i] {
            return false;
        }
        i += 1;
    }
    proof {
        assert(*a =~= *b);
    }
    true
}

/// The singleton configuration record: immutable after initialization.
#[derive(Clone, Copy, Debug)]
pub struct StakeConfig {
    /// Identity of the configuration record itself; one of the seeds from
    /// which every stake record's address is derived.
    pub key: Key,
    /// Ceiling on simultaneous active stakes per holder.
    pub max_stake: u8,
    /// Minimum whole time units an asset must remain staked before it is
    /// eligible for unstaking.
    pub freeze_period: u32,
    /// Reward points accrued per elapsed time unit per staked asset.
    pub points_per_stake: u8,
    /// Disambiguation byte of the configuration record's own derivation.
    pub bump: u8,
}

/// A holder's mutable counters; one record per holder, created before the
/// holder's first stake.
#[derive(Clone, Copy, Debug)]
pub struct UserAccount {
    /// The holder this record belongs to.
    pub owner: Key,
    /// Number of currently active stake records owned by this holder.
    pub amount_staked: u8,
    /// Lifetime accrued reward points; never decreases.
    pub points: u32,
    /// Disambiguation byte of this record's derivation.
    pub bump: u8,
}

/// A stake record: created when an asset is staked, destroyed when it is
/// unstaked. Its derived address acts as the delegated custodian of the
/// asset for the duration of its existence.
#[derive(Clone, Copy, Debug)]
pub struct StakeRecord {
    /// The staking holder; re-checked at unstake to authorize release.
    pub owner: Key,
    /// The staked asset's mint.
    pub mint: Key,
    /// Timestamp (seconds) at which the asset was staked.
    pub staked_at: i64,
    /// The record's derived address: the authority that the token account's
    /// delegation and freeze are bound to.
    pub address: Key,
    /// Disambiguation byte stored so later operations can reconstruct the
    /// derived authority without searching again.
    pub bump: u8,
}

/// The read-only metadata the collection-verification primitive exposes for
/// one asset.
#[derive(Clone, Copy, Debug)]
pub struct AssetMetadata {
    /// The asset this metadata describes.
    pub mint: Key,
    /// The collection the asset claims membership in.
    pub collection: Key,
    /// Whether that membership was verified by the collection authority.
    pub collection_verified: bool,
}

} // verus!
