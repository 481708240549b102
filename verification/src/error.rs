//! Error taxonomy of the staking protocol.
//!
//! Eligibility failures are detected before any mutation; the remaining
//! variants model the failures that the ledger substrate and the token and
//! metadata primitives report, which abort an operation with no state change.

use vstd::prelude::*;

verus! {

/// Every way a protocol operation can fail. Each orchestrator's contract
/// states exactly which inputs produce which variant.
#[derive(Clone, Copy, Debug, PartialEq, Eq, Structural)]
pub enum StakeError {
    /// The holder already has `max_stake` active stakes.
    MaxStakeReached,
    /// Fewer whole time units than `freeze_period` have elapsed since staking.
    FreezePeriodNotPassed,
    /// No user account record exists for the holder.
    UserNotRegistered,
    /// A user account record already exists for the holder.
    UserAlreadyRegistered,
    /// An asset with this mint is already registered.
    AssetAlreadyRegistered,
    /// No token account exists for the mint.
    TokenAccountMissing,
    /// The token account is not owned by the holder.
    NotTokenOwner,
    /// The asset's metadata does not carry a verified membership in the
    /// expected collection.
    CollectionNotVerified,
    /// A stake record for this asset already exists: the derived record
    /// address collides, so a second concurrent stake cannot be created.
    RecordAlreadyExists,
    /// No stake record exists for this asset.
    RecordMissing,
    /// The stake record is not owned by the holder.
    RecordOwnerMismatch,
    /// A token or metadata primitive was invoked with an authority that
    /// matches neither the account's owner nor its recorded delegate.
    IncorrectAuthority,
    /// The token account is frozen, so the operation is refused.
    AccountFrozen,
    /// The token account is not frozen, so it cannot be thawed.
    AccountNotFrozen,
    /// No derived address could be produced or reproduced from the seeds.
    DerivationFailed,
}

} // verus!
