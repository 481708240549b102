//! A collateralized staking protocol for collection-verified assets.
//!
//! A holder locks an asset in place, without giving up custody, in exchange
//! for reward points that accrue per whole elapsed time unit. A configured
//! freeze period must pass before the asset can be released, and each holder
//! is limited to a configured number of concurrent stakes.

pub mod derivation;
pub mod error;
pub mod ledger;
pub mod records;
pub mod token;

use vstd::prelude::*;

verus! {

/// Number of seconds in one accrual time unit (one day).
pub const SECONDS_PER_TIME_UNIT: i64 = 86400;

/// Whole time units elapsed from `staked_at` to `now`, truncated toward
/// zero: a partial final unit counts for nothing.
pub open spec fn spec_elapsed_units(now: i64, staked_at: i64) -> int {
    (now - staked_at) / (SECONDS_PER_TIME_UNIT as int)
}

/// Whole time units elapsed between `staked_at` and `now`.
pub fn elapsed_time_units(now: i64, staked_at: i64) -> (r: u32)
    requires
        staked_at <= now,
        spec_elapsed_units(now, staked_at) <= u32::MAX,
    ensures
        r == spec_elapsed_units(now, staked_at),
{
    ((now - staked_at) / SECONDS_PER_TIME_UNIT) as u32
}

/// Reward points earned for `elapsed` whole time units at `rate` points per
/// unit per staked asset.
pub fn points_earned(elapsed: u32, rate: u8) -> (r: u32)
    requires
        elapsed * rate <= u32::MAX,
    ensures
        r == elapsed * rate,
{
    elapsed * (rate as u32)
}

} // verus!
