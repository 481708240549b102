//! The ledger model and the two orchestrators.
//!
//! The `Ledger` holds the configuration record, the user account records,
//! the asset metadata, the token accounts and the active stake records, as
//! the ledger substrate persists them between transactions. Each operation
//! is all-or-nothing: it either commits every effect or leaves the ledger
//! exactly as it was.

use crate::derivation::{authority_seeds, created_address, find_stake_address, found_address,
    reproduces_address, stake_seeds};
use crate::error::StakeError;
use crate::records::{key_eq, AssetMetadata, Key, StakeConfig, StakeRecord, UserAccount};
use crate::token::{approve, freeze, is_delegate, revoke, thaw, transfer_title, TokenAccount};
use crate::{elapsed_time_units, points_earned, spec_elapsed_units};
use vstd::prelude::*;

verus! {

/// How many of the records in `s` are owned by `owner`.
pub open spec fn count_owned(s: Seq<StakeRecord>, owner: Key) -> nat
    decreases s.len(),
{
    if s.len() == 0 {
        0
    } else {
        (if s[0].owner == owner {
            1nat
        } else {
            0nat
        }) + count_owned(s.drop_first(), owner)
    }
}

/// Appending one record raises the owner's count by one and leaves every
/// other count unchanged.
pub proof fn lemma_count_owned_push(s: Seq<StakeRecord>, r: StakeRecord, owner: Key)
    ensures
        count_owned(s.push(r), owner) == count_owned(s, owner) + (if r.owner == owner {
            1nat
        } else {
            0nat
        }),
    decreases s.len(),
{
    if s.len() == 0 {
        assert(s.push(r).drop_first() =~= s);
    } else {
        assert(s.push(r).drop_first() =~= s.drop_first().push(r));
        lemma_count_owned_push(s.drop_first(), r, owner);
    }
}

/// Removing one record lowers its owner's count by one and leaves every
/// other count unchanged.
pub proof fn lemma_count_owned_remove(s: Seq<StakeRecord>, i: int, owner: Key)
    requires
        0 <= i < s.len(),
    ensures
        count_owned(s, owner) == count_owned(s.remove(i), owner) + (if s[i].owner == owner {
            1nat
        } else {
            0nat
        }),
    decreases i,
{
    if i == 0 {
        assert(s.remove(0) =~= s.drop_first());
    } else {
        assert(s.remove(i).drop_first() =~= s.drop_first().remove(i - 1));
        lemma_count_owned_remove(s.drop_first(), i - 1, owner);
    }
}

/// An owner with no record in `s` has count zero.
pub proof fn lemma_count_owned_zero(s: Seq<StakeRecord>, owner: Key)
    requires
        forall|i: int| 0 <= i < s.len() ==> s[i].owner != owner,
    ensures
        count_owned(s, owner) == 0,
    decreases s.len(),
{
    if s.len() > 0 {
        lemma_count_owned_zero(s.drop_first(), owner);
    }
}

/// The shared ledger state.
pub struct Ledger {
    /// The staking program's identity: the derivation namespace of every
    /// stake record.
    pub program_id: Key,
    /// The singleton configuration record.
    pub config: StakeConfig,
    /// One mutable counter record per registered holder.
    pub users: Vec<UserAccount>,
    /// The read-only metadata of each registered asset.
    pub metadata: Vec<AssetMetadata>,
    /// One token account per registered asset.
    pub tokens: Vec<TokenAccount>,
    /// The active stake records, at most one per asset.
    pub stakes: Vec<StakeRecord>,
}

impl Ledger {
    /// Whether a user account record exists for `owner`.
    pub open spec fn has_user(self, owner: Key) -> bool {
        exists|i: int| 0 <= i < self.users@.len() && self.users@[i].owner == owner
    }

    /// Index of the user account record of `owner`.
    pub open spec fn user_index(self, owner: Key) -> int {
        choose|i: int| 0 <= i < self.users@.len() && self.users@[i].owner == owner
    }

    /// The user account record of `owner`; meaningful when `has_user`.
    pub open spec fn user_at(self, owner: Key) -> UserAccount {
        self.users@[self.user_index(owner)]
    }

    /// Whether a token account exists for `mint`.
    pub open spec fn has_token(self, mint: Key) -> bool {
        exists|i: int| 0 <= i < self.tokens@.len() && self.tokens@[i].mint == mint
    }

    /// Index of the token account of `mint`.
    pub open spec fn token_index(self, mint: Key) -> int {
        choose|i: int| 0 <= i < self.tokens@.len() && self.tokens@[i].mint == mint
    }

    /// The token account of `mint`; meaningful when `has_token`.
    pub open spec fn token_at(self, mint: Key) -> TokenAccount {
        self.tokens@[self.token_index(mint)]
    }

    /// Whether metadata exists for `mint`.
    pub open spec fn has_metadata(self, mint: Key) -> bool {
        exists|i: int| 0 <= i < self.metadata@.len() && self.metadata@[i].mint == mint
    }

    /// Index of the metadata of `mint`.
    pub open spec fn metadata_index(self, mint: Key) -> int {
        choose|i: int| 0 <= i < self.metadata@.len() && self.metadata@[i].mint == mint
    }

    /// The metadata of `mint`; meaningful when `has_metadata`.
    pub open spec fn metadata_at(self, mint: Key) -> AssetMetadata {
        self.metadata@[self.metadata_index(mint)]
    }

    /// Whether an active stake record exists for `mint`.
    pub open spec fn has_record(self, mint: Key) -> bool {
        exists|i: int| 0 <= i < self.stakes@.len() && self.stakes@[i].mint == mint
    }

    /// Index of the stake record of `mint`.
    pub open spec fn record_index(self, mint: Key) -> int {
        choose|i: int| 0 <= i < self.stakes@.len() && self.stakes@[i].mint == mint
    }

    /// The stake record of `mint`; meaningful when `has_record`.
    pub open spec fn record_at(self, mint: Key) -> StakeRecord {
        self.stakes@[self.record_index(mint)]
    }

    /// Whether `mint`'s metadata carries a verified membership in
    /// `collection`.
    pub open spec fn collection_ok(self, mint: Key, collection: Key) -> bool {
        &&& self.has_metadata(mint)
        &&& self.metadata_at(mint).collection == collection
        &&& self.metadata_at(mint).collection_verified
    }

    /// The ledger's structural invariant. Every operation preserves it.
    pub open spec fn wf(self) -> bool {
        // Each kind of record is keyed deterministically, so keys are unique.
        &&& (forall|i: int, j: int|
            0 <= i < j < self.users@.len() ==> self.users@[i].owner != self.users@[j].owner)
        &&& (forall|i: int, j: int|
            0 <= i < j < self.metadata@.len() ==> self.metadata@[i].mint != self.metadata@[j].mint)
        &&& (forall|i: int, j: int|
            0 <= i < j < self.tokens@.len() ==> self.tokens@[i].mint != self.tokens@[j].mint)
        // At most one stake record exists per asset.
        &&& (forall|i: int, j: int|
            0 <= i < j < self.stakes@.len() ==> self.stakes@[i].mint != self.stakes@[j].mint)
        // A holder's counter equals the number of records the holder owns.
        &&& (forall|i: int|
            0 <= i < self.users@.len() ==> self.users@[i].amount_staked as nat == count_owned(
                self.stakes@,
                self.users@[i].owner,
            ))
        // No holder exceeds the configured ceiling.
        &&& (forall|i: int|
            0 <= i < self.users@.len() ==> self.users@[i].amount_staked <= self.config.max_stake)
        // Every stake record's owner is a registered holder.
        &&& (forall|i: int|
            0 <= i < self.stakes@.len() ==> self.has_user(#[trigger] self.stakes@[i].owner))
        // A staked asset's token account exists, is frozen, and is delegated
        // to the stake record's derived authority.
        &&& (forall|i: int|
            0 <= i < self.stakes@.len() ==> self.has_token(#[trigger] self.stakes@[i].mint))
        &&& (forall|i: int, j: int|
            0 <= i < self.stakes@.len() && 0 <= j < self.tokens@.len() && (
            #[trigger] self.stakes@[i].mint) == (#[trigger] self.tokens@[j].mint) ==> {
                &&& self.tokens@[j].frozen
                &&& is_delegate(self.tokens@[j], self.stakes@[i].address)
            })
        // An asset with no stake record is not frozen.
        &&& (forall|i: int|
            0 <= i < self.tokens@.len() && !self.has_record(#[trigger] self.tokens@[i].mint)
                ==> !self.tokens@[i].frozen)
        // A registered asset has both metadata and a token account.
        &&& (forall|i: int|
            0 <= i < self.tokens@.len() ==> self.has_metadata(#[trigger] self.tokens@[i].mint))
        &&& (forall|i: int|
            0 <= i < self.metadata@.len() ==> self.has_token(#[trigger] self.metadata@[i].mint))
    }

    /// Which failure, if any, a `stake` call for `holder`, `mint` and
    /// `collection` runs into, in the order the checks are made. `None`
    /// means the holder is eligible to stake the asset.
    pub open spec fn stake_failure(self, holder: Key, mint: Key, collection: Key) -> Option<
        StakeError,
    > {
        if !self.has_user(holder) {
            Some(StakeError::UserNotRegistered)
        } else if !self.has_token(mint) {
            Some(StakeError::TokenAccountMissing)
        } else if self.token_at(mint).owner != holder {
            Some(StakeError::NotTokenOwner)
        } else if !self.collection_ok(mint, collection) {
            Some(StakeError::CollectionNotVerified)
        } else if self.has_record(mint) {
            Some(StakeError::RecordAlreadyExists)
        } else if self.user_at(holder).amount_staked >= self.config.max_stake {
            Some(StakeError::MaxStakeReached)
        } else {
            None
        }
    }

    /// Which failure, if any, an `unstake` call for `holder` and `mint` at
    /// time `now` runs into, in the order the checks are made. `None` means
    /// the stake is eligible for release.
    pub open spec fn unstake_failure(self, holder: Key, mint: Key, now: i64) -> Option<
        StakeError,
    > {
        if !self.has_user(holder) {
            Some(StakeError::UserNotRegistered)
        } else if !self.has_record(mint) {
            Some(StakeError::RecordMissing)
        } else if self.record_at(mint).owner != holder {
            Some(StakeError::RecordOwnerMismatch)
        } else if spec_elapsed_units(now, self.record_at(mint).staked_at)
            < self.config.freeze_period {
            Some(StakeError::FreezePeriodNotPassed)
        } else {
            None
        }
    }

    /// A fresh ledger with a configuration and no records.
    pub fn new(program_id: Key, config: StakeConfig) -> (r: Ledger)
        ensures
            r.wf(),
            r.program_id == program_id,
            r.config == config,
            r.users@.len() == 0,
            r.metadata@.len() == 0,
            r.tokens@.len() == 0,
            r.stakes@.len() == 0,
    {
        Ledger {
            program_id,
            config,
            users: Vec::new(),
            metadata: Vec::new(),
            tokens: Vec::new(),
            stakes: Vec::new(),
        }
    }

    /// Create the user account record of `owner`, with zeroed counters.
    pub fn register_user(&mut self, owner: &Key, bump: u8) -> (r: Result<(), StakeError>)
        requires
            old(self).wf(),
        ensures
            final(self).wf(),
            r is Err ==> *final(self) == *old(self),
            old(self).has_user(*owner) ==> r == Err::<(), StakeError>(
                StakeError::UserAlreadyRegistered,
            ),
            !old(self).has_user(*owner) ==> r is Ok && final(self).users@ == old(
                self,
            ).users@.push(UserAccount { owner: *owner, amount_staked: 0, points: 0, bump }),
            r is Ok ==> {
                &&& final(self).has_user(*owner)
                &&& final(self).user_at(*owner).amount_staked == 0
                &&& final(self).user_at(*owner).points == 0
                &&& final(self).metadata@ == old(self).metadata@
                &&& final(self).tokens@ == old(self).tokens@
                &&& final(self).stakes@ == old(self).stakes@
                &&& final(self).config == old(self).config
                &&& final(self).program_id == old(self).program_id
            },
    {
        if find_user_index(&self.users, owner).is_some() {
            return Err(StakeError::UserAlreadyRegistered);
        }
        let account = UserAccount { owner: *owner, amount_staked: 0, points: 0, bump };
        proof {
            assert forall|i: int| 0 <= i < self.stakes@.len() implies self.stakes@[i].owner
                != *owner by {
                if self.stakes@[i].owner == *owner {
                    assert(self.has_user(self.stakes@[i].owner));
                }
            }
            lemma_count_owned_zero(self.stakes@, *owner);
        }
        self.users.push(account);
        proof {
            lemma_users_keep_owners(*old(self), *self);
            lemma_tokens_keep_mints(*old(self), *self);
            lemma_metadata_keep_mints(*old(self), *self);
            lemma_stakes_keep_mints(*old(self), *self);
            let n = self.users@.len() - 1;
            assert(self.users@[n].owner == *owner);
            lemma_user_lookup(*self, n);
        }
        Ok(())
    }

    /// Register an asset: its read-only metadata and the token account that
    /// holds its one unit for `owner`.
    pub fn register_asset(&mut self, mint: &Key, owner: &Key, collection: &Key, verified: bool)
        -> (r: Result<(), StakeError>)
        requires
            old(self).wf(),
        ensures
            final(self).wf(),
            r is Err ==> *final(self) == *old(self),
            old(self).has_token(*mint) || old(self).has_metadata(*mint) ==> r == Err::<
                (),
                StakeError,
            >(StakeError::AssetAlreadyRegistered),
            !old(self).has_token(*mint) && !old(self).has_metadata(*mint) ==> r is Ok,
            r is Ok ==> {
                &&& final(self).tokens@ == old(self).tokens@.push(
                    TokenAccount {
                        mint: *mint,
                        owner: *owner,
                        amount: 1,
                        delegate: None,
                        delegated_amount: 0,
                        frozen: false,
                    },
                )
                &&& final(self).metadata@ == old(self).metadata@.push(
                    AssetMetadata { mint: *mint, collection: *collection, collection_verified: verified },
                )
                &&& final(self).users@ == old(self).users@
                &&& final(self).stakes@ == old(self).stakes@
                &&& final(self).config == old(self).config
                &&& final(self).program_id == old(self).program_id
                &&& final(self).has_token(*mint)
                &&& !final(self).token_at(*mint).frozen
                &&& final(self).collection_ok(*mint, *collection) == verified
            },
    {
        if find_token_index(&self.tokens, mint).is_some() {
            return Err(StakeError::AssetAlreadyRegistered);
        }
        if find_metadata_index(&self.metadata, mint).is_some() {
            return Err(StakeError::AssetAlreadyRegistered);
        }
        let token = TokenAccount {
            mint: *mint,
            owner: *owner,
            amount: 1,
            delegate: None,
            delegated_amount: 0,
            frozen: false,
        };
        let meta = AssetMetadata {
            mint: *mint,
            collection: *collection,
            collection_verified: verified,
        };
        self.tokens.push(token);
        self.metadata.push(meta);
        proof {
            lemma_users_keep_owners(*old(self), *self);
            lemma_tokens_keep_mints(*old(self), *self);
            lemma_metadata_keep_mints(*old(self), *self);
            lemma_stakes_keep_mints(*old(self), *self);
            let nt = self.tokens@.len() - 1;
            let nm = self.metadata@.len() - 1;
            assert(self.tokens@[nt].mint == *mint && self.metadata@[nm].mint == *mint);
            assert forall|m: Key| #[trigger] self.has_record(m) implies old(self).has_record(
                m,
            ) by {
                let j = choose|j: int|
                    0 <= j < self.stakes@.len() && self.stakes@[j].mint == m;
                assert(old(self).stakes@[j].mint == m);
            }
            lemma_token_lookup(*self, nt);
            lemma_metadata_lookup(*self, nm);
        }
        Ok(())
    }
    /// Stake `mint` for `holder`: create the stake record, delegate one
    /// unit of the asset to the record's derived authority, freeze the token
    /// account, and raise the holder's active count by one. All effects
    /// commit together, or a failure leaves the ledger untouched.
    pub fn stake(&mut self, holder: &Key, mint: &Key, collection: &Key, now: i64) -> (r: Result<
        (),
        StakeError,
    >)
        requires
            old(self).wf(),
        ensures
            final(self).wf(),
            r is Err ==> *final(self) == *old(self),
            old(self).stake_failure(*holder, *mint, *collection) matches Some(e) ==> r == Err::<
                (),
                StakeError,
            >(e),
            old(self).stake_failure(*holder, *mint, *collection) is None ==> {
                &&& (r is Ok <==> found_address(
                    stake_seeds(old(self).config.key@, mint@),
                    old(self).program_id@,
                ) is Some)
                &&& (r is Err ==> r == Err::<(), StakeError>(StakeError::DerivationFailed))
            },
            r is Ok ==> ({
                let rec = final(self).record_at(*mint);
                &&& old(self).stake_failure(*holder, *mint, *collection) is None
                &&& rec.owner == *holder
                &&& rec.mint == *mint
                &&& rec.staked_at == now
                &&& Some((rec.address@, rec.bump)) == found_address(
                    stake_seeds(old(self).config.key@, mint@),
                    old(self).program_id@,
                )
                &&& created_address(
                    authority_seeds(old(self).config.key@, mint@, rec.bump),
                    old(self).program_id@,
                ) == Some(rec.address@)
                &&& final(self).stakes@ == old(self).stakes@.push(rec)
                &&& final(self).users@ == old(self).users@.update(
                    old(self).user_index(*holder),
                    (UserAccount {
                        amount_staked: (old(self).user_at(*holder).amount_staked + 1) as u8,
                        ..old(self).user_at(*holder)
                    }),
                )
                &&& final(self).tokens@ == old(self).tokens@.update(
                    old(self).token_index(*mint),
                    (TokenAccount {
                        delegate: Some(rec.address),
                        delegated_amount: 1,
                        frozen: true,
                        ..old(self).token_at(*mint)
                    }),
                )
                &&& final(self).metadata@ == old(self).metadata@
                &&& final(self).config == old(self).config
                &&& final(self).program_id == old(self).program_id
                &&& final(self).user_at(*holder).amount_staked == old(self).user_at(
                    *holder,
                ).amount_staked + 1
                &&& final(self).user_at(*holder).points == old(self).user_at(*holder).points
                &&& final(self).has_record(*mint)
                &&& final(self).token_at(*mint).frozen
            }),
            // Points never decrease, whatever the outcome.
            final(self).users@.len() == old(self).users@.len(),
            forall|i: int|
                0 <= i < old(self).users@.len() ==> old(self).users@[i].points
                    <= final(self).users@[i].points,
    {
        let iu = match find_user_index(&self.users, holder) {
            Some(i) => i,
            None => {
                return Err(StakeError::UserNotRegistered);
            },
        };
        proof {
            lemma_user_lookup(*self, iu as int);
        }
        let it = match find_token_index(&self.tokens, mint) {
            Some(i) => i,
            None => {
                return Err(StakeError::TokenAccountMissing);
            },
        };
        proof {
            lemma_token_lookup(*self, it as int);
        }
        if !key_eq(&self.tokens[it].owner, holder) {
            return Err(StakeError::NotTokenOwner);
        }
        let verified_member: bool = match find_metadata_index(&self.metadata, mint) {
            Some(im) => key_eq(&self.metadata[im].collection, collection)
                && self.metadata[im].collection_verified,
            None => false,
        };
        proof {
            if self.has_metadata(*mint) {
                lemma_metadata_lookup(*self, self.metadata_index(*mint));
            }
        }
        if !verified_member {
            return Err(StakeError::CollectionNotVerified);
        }
        if find_record_index(&self.stakes, mint).is_some() {
            return Err(StakeError::RecordAlreadyExists);
        }
        if self.users[iu].amount_staked >= self.config.max_stake {
            return Err(StakeError::MaxStakeReached);
        }
        let (address, bump) = match find_stake_address(&self.config.key, mint, &self.program_id) {
            Some(p) => p,
            None => {
                return Err(StakeError::DerivationFailed);
            },
        };
        let record = StakeRecord { owner: *holder, mint: *mint, staked_at: now, address, bump };
        let ghost prev = *self;
        let mut tok = self.tokens.remove(it);
        // The holder owns the unfrozen account, so approval cannot fail;
        // the proof shows the branch is unreachable.
        if let Err(e) = approve(&mut tok, holder, &address, 1) {
            self.tokens.insert(it, tok);
            proof {
                assert(false);
            }
            return Err(e);
        }
        // The account is now delegated to the record and not frozen, so
        // freezing cannot fail either.
        if let Err(e) = freeze(&mut tok, &address) {
            self.tokens.insert(it, tok);
            proof {
                assert(false);
            }
            return Err(e);
        }
        self.tokens.insert(it, tok);
        self.stakes.push(record);
        let mut user = self.users.remove(iu);
        user.amount_staked = user.amount_staked + 1;
        self.users.insert(iu, user);
        proof {
            lemma_remove_insert(prev.tokens@, it as int, tok);
            lemma_remove_insert(prev.users@, iu as int, user);
            lemma_stake_commit(prev, *self, *holder, *mint, iu as int, it as int, record);
            lemma_user_lookup(*self, iu as int);
            lemma_record_lookup(*self, self.stakes@.len() - 1);
            lemma_token_lookup(*self, it as int);
        }
        Ok(())
    }
    /// Unstake `mint` for `holder`: credit the points earned over the whole
    /// elapsed time units, thaw the token account, revoke the delegation,
    /// destroy the stake record, and lower the holder's active count by one.
    /// All effects commit together, or a failure leaves the ledger
    /// untouched. The record's derived authority is reconstructed from the
    /// public seeds and the stored bump before anything is released.
    pub fn unstake(&mut self, holder: &Key, mint: &Key, now: i64) -> (r: Result<(), StakeError>)
        requires
            old(self).wf(),
            old(self).has_record(*mint) ==> old(self).record_at(*mint).staked_at <= now
                && spec_elapsed_units(now, old(self).record_at(*mint).staked_at) <= u32::MAX,
            old(self).has_user(*holder) && old(self).has_record(*mint) ==> old(self).user_at(
                *holder,
            ).points + spec_elapsed_units(now, old(self).record_at(*mint).staked_at) * old(
                self,
            ).config.points_per_stake <= u32::MAX,
        ensures
            final(self).wf(),
            r is Err ==> *final(self) == *old(self),
            old(self).unstake_failure(*holder, *mint, now) matches Some(e) ==> r == Err::<
                (),
                StakeError,
            >(e),
            old(self).unstake_failure(*holder, *mint, now) is None ==> {
                &&& (r is Ok <==> created_address(
                    authority_seeds(
                        old(self).config.key@,
                        mint@,
                        old(self).record_at(*mint).bump,
                    ),
                    old(self).program_id@,
                ) == Some(old(self).record_at(*mint).address@))
                &&& (r is Err ==> r == Err::<(), StakeError>(StakeError::DerivationFailed))
            },
            r is Ok ==> ({
                let rec = old(self).record_at(*mint);
                let earned = spec_elapsed_units(now, rec.staked_at) * old(
                    self,
                ).config.points_per_stake;
                &&& old(self).unstake_failure(*holder, *mint, now) is None
                &&& final(self).stakes@ == old(self).stakes@.remove(old(self).record_index(*mint))
                &&& final(self).users@ == old(self).users@.update(
                    old(self).user_index(*holder),
                    (UserAccount {
                        amount_staked: (old(self).user_at(*holder).amount_staked - 1) as u8,
                        points: (old(self).user_at(*holder).points + earned) as u32,
                        ..old(self).user_at(*holder)
                    }),
                )
                &&& final(self).tokens@ == old(self).tokens@.update(
                    old(self).token_index(*mint),
                    (TokenAccount {
                        delegate: None,
                        delegated_amount: 0,
                        frozen: false,
                        ..old(self).token_at(*mint)
                    }),
                )
                &&& final(self).metadata@ == old(self).metadata@
                &&& final(self).config == old(self).config
                &&& final(self).program_id == old(self).program_id
                &&& final(self).user_at(*holder).points == old(self).user_at(*holder).points
                    + earned
                &&& final(self).user_at(*holder).amount_staked == old(self).user_at(
                    *holder,
                ).amount_staked - 1
                &&& !final(self).has_record(*mint)
                &&& final(self).has_token(*mint)
                &&& !final(self).token_at(*mint).frozen
                &&& final(self).token_at(*mint).delegate is None
            }),
            // Points never decrease, whatever the outcome.
            final(self).users@.len() == old(self).users@.len(),
            forall|i: int|
                0 <= i < old(self).users@.len() ==> old(self).users@[i].points
                    <= final(self).users@[i].points,
    {
        let iu = match find_user_index(&self.users, holder) {
            Some(i) => i,
            None => {
                return Err(StakeError::UserNotRegistered);
            },
        };
        proof {
            lemma_user_lookup(*self, iu as int);
        }
        let ir = match find_record_index(&self.stakes, mint) {
            Some(i) => i,
            None => {
                return Err(StakeError::RecordMissing);
            },
        };
        proof {
            lemma_record_lookup(*self, ir as int);
        }
        if !key_eq(&self.stakes[ir].owner, holder) {
            return Err(StakeError::RecordOwnerMismatch);
        }
        let record = self.stakes[ir];
        let elapsed = elapsed_time_units(now, record.staked_at);
        if elapsed < self.config.freeze_period {
            return Err(StakeError::FreezePeriodNotPassed);
        }
        let earned = points_earned(elapsed, self.config.points_per_stake);
        if !reproduces_address(&self.config.key, mint, record.bump, &self.program_id, &record.address) {
            return Err(StakeError::DerivationFailed);
        }
        // A staked asset always has a token account, by the invariant, so
        // this lookup cannot fail.
        let it = match find_token_index(&self.tokens, mint) {
            Some(i) => i,
            None => {
                proof {
                    assert(false);
                }
                return Err(StakeError::TokenAccountMissing);
            },
        };
        proof {
            lemma_token_lookup(*self, it as int);
            lemma_count_owned_remove(self.stakes@, ir as int, *holder);
        }
        let ghost prev = *self;
        let mut tok = self.tokens.remove(it);
        // By the invariant the account is frozen and delegated to the
        // record's authority, so thawing cannot fail.
        if let Err(e) = thaw(&mut tok, &record.address) {
            self.tokens.insert(it, tok);
            proof {
                assert(false);
            }
            return Err(e);
        }
        // The delegation is still in force and the account is thawed, so
        // revoking cannot fail either.
        if let Err(e) = revoke(&mut tok, &record.address) {
            self.tokens.insert(it, tok);
            proof {
                assert(false);
            }
            return Err(e);
        }
        self.tokens.insert(it, tok);
        self.stakes.remove(ir);
        let mut user = self.users.remove(iu);
        user.amount_staked = user.amount_staked - 1;
        user.points = user.points + earned;
        self.users.insert(iu, user);
        proof {
            lemma_remove_insert(prev.tokens@, it as int, tok);
            lemma_remove_insert(prev.users@, iu as int, user);
            lemma_unstake_commit(prev, *self, *holder, *mint, iu as int, it as int, ir as int);
            lemma_user_lookup(*self, iu as int);
            lemma_token_lookup(*self, it as int);
        }
        Ok(())
    }
    /// Attempt to move title of `mint`'s token account to `recipient`. While
    /// the asset is staked its token account is frozen, so the attempt fails
    /// and nothing changes.
    pub fn transfer(&mut self, mint: &Key, authority: &Key, recipient: &Key) -> (r: Result<
        (),
        StakeError,
    >)
        requires
            old(self).wf(),
        ensures
            final(self).wf(),
            r is Err ==> *final(self) == *old(self),
            !old(self).has_token(*mint) ==> r == Err::<(), StakeError>(
                StakeError::TokenAccountMissing,
            ),
            old(self).has_token(*mint) && old(self).token_at(*mint).frozen ==> r == Err::<
                (),
                StakeError,
            >(StakeError::AccountFrozen),
            old(self).has_token(*mint) && !old(self).token_at(*mint).frozen && old(self).token_at(
                *mint,
            ).owner != *authority ==> r == Err::<(), StakeError>(StakeError::IncorrectAuthority),
            old(self).has_token(*mint) && !old(self).token_at(*mint).frozen && old(self).token_at(
                *mint,
            ).owner == *authority ==> r is Ok,
            r is Ok ==> {
                &&& final(self).tokens@ == old(self).tokens@.update(
                    old(self).token_index(*mint),
                    (TokenAccount { owner: *recipient, ..old(self).token_at(*mint) }),
                )
                &&& final(self).users@ == old(self).users@
                &&& final(self).metadata@ == old(self).metadata@
                &&& final(self).stakes@ == old(self).stakes@
                &&& final(self).config == old(self).config
                &&& final(self).program_id == old(self).program_id
                &&& final(self).token_at(*mint).owner == *recipient
            },
    {
        let it = match find_token_index(&self.tokens, mint) {
            Some(i) => i,
            None => {
                return Err(StakeError::TokenAccountMissing);
            },
        };
        proof {
            lemma_token_lookup(*self, it as int);
        }
        if self.tokens[it].frozen {
            return Err(StakeError::AccountFrozen);
        }
        if !key_eq(&self.tokens[it].owner, authority) {
            return Err(StakeError::IncorrectAuthority);
        }
        let ghost prev = *self;
        let mut tok = self.tokens.remove(it);
        // The account was just seen unfrozen and owned by the authority, so
        // the move cannot fail.
        if let Err(e) = transfer_title(&mut tok, authority, recipient) {
            self.tokens.insert(it, tok);
            proof {
                assert(false);
            }
            return Err(e);
        }
        self.tokens.insert(it, tok);
        proof {
            lemma_remove_insert(prev.tokens@, it as int, tok);
            lemma_users_keep_owners(prev, *self);
            lemma_tokens_keep_mints(prev, *self);
            lemma_metadata_keep_mints(prev, *self);
            lemma_stakes_keep_mints(prev, *self);
            // The account was not frozen, so no stake record names this mint.
            assert forall|i: int| 0 <= i < self.stakes@.len() implies self.stakes@[i].mint
                != *mint by {
                if prev.stakes@[i].mint == prev.tokens@[it as int].mint {
                    assert(prev.tokens@[it as int].frozen);
                }
            }
            assert forall|m: Key| #[trigger] self.has_record(m) implies prev.has_record(m) by {
                let j = choose|j: int|
                    0 <= j < self.stakes@.len() && self.stakes@[j].mint == m;
                assert(prev.stakes@[j].mint == m);
            }
            lemma_token_lookup(*self, it as int);
        }
        Ok(())
    }

    /// The active-stake count of `owner`, if registered.
    pub fn amount_staked_of(&self, owner: &Key) -> (r: Option<u8>)
        requires
            self.wf(),
        ensures
            r == if self.has_user(*owner) {
                Some(self.user_at(*owner).amount_staked)
            } else {
                None::<u8>
            },
    {
        match find_user_index(&self.users, owner) {
            Some(i) => {
                proof {
                    lemma_user_lookup(*self, i as int);
                }
                Some(self.users[i].amount_staked)
            },
            None => None,
        }
    }

    /// The lifetime accrued points of `owner`, if registered.
    pub fn points_of(&self, owner: &Key) -> (r: Option<u32>)
        requires
            self.wf(),
        ensures
            r == if self.has_user(*owner) {
                Some(self.user_at(*owner).points)
            } else {
                None::<u32>
            },
    {
        match find_user_index(&self.users, owner) {
            Some(i) => {
                proof {
                    lemma_user_lookup(*self, i as int);
                }
                Some(self.users[i].points)
            },
            None => None,
        }
    }

    /// Whether a stake record exists for `mint`.
    pub fn is_staked(&self, mint: &Key) -> (r: bool)
        requires
            self.wf(),
        ensures
            r == self.has_record(*mint),
    {
        match find_record_index(&self.stakes, mint) {
            Some(i) => {
                proof {
                    lemma_record_lookup(*self, i as int);
                }
                true
            },
            None => false,
        }
    }

    /// The stake record of `mint`, if one exists.
    pub fn record_of(&self, mint: &Key) -> (r: Option<StakeRecord>)
        requires
            self.wf(),
        ensures
            r == if self.has_record(*mint) {
                Some(self.record_at(*mint))
            } else {
                None::<StakeRecord>
            },
    {
        match find_record_index(&self.stakes, mint) {
            Some(i) => {
                proof {
                    lemma_record_lookup(*self, i as int);
                }
                Some(self.stakes[i])
            },
            None => None,
        }
    }

    /// The token account of `mint`, if one exists.
    pub fn token_of(&self, mint: &Key) -> (r: Option<TokenAccount>)
        requires
            self.wf(),
        ensures
            r == if self.has_token(*mint) {
                Some(self.token_at(*mint))
            } else {
                None::<TokenAccount>
            },
    {
        match find_token_index(&self.tokens, mint) {
            Some(i) => {
                proof {
                    lemma_token_lookup(*self, i as int);
                }
                Some(self.tokens[i])
            },
            None => None,
        }
    }
}

/// Law: for every registered holder, at all times, the active-stake counter
/// equals the number of stake records the holder owns — a structural
/// equality over the record store, not a numeric coincidence.
pub proof fn lemma_amount_staked_counts_records(l: Ledger, owner: Key)
    requires
        l.wf(),
        l.has_user(owner),
    ensures
        l.user_at(owner).amount_staked as nat == count_owned(l.stakes@, owner),
{
    let i = l.user_index(owner);
    assert(0 <= i < l.users@.len() && l.users@[i].owner == owner);
}

/// Law: a registered holder's active-stake counter never exceeds the
/// configured ceiling.
pub proof fn lemma_amount_staked_bounded(l: Ledger, owner: Key)
    requires
        l.wf(),
        l.has_user(owner),
    ensures
        l.user_at(owner).amount_staked <= l.config.max_stake,
{
    let i = l.user_index(owner);
    assert(0 <= i < l.users@.len() && l.users@[i].owner == owner);
}

/// Law: `stake` runs into `MaxStakeReached` exactly when every other check
/// passes and the holder's counter stands at the configured ceiling — never
/// above it, since the ledger invariant caps the counter.
pub proof fn lemma_max_stake_boundary(l: Ledger, holder: Key, mint: Key, collection: Key)
    requires
        l.wf(),
    ensures
        l.stake_failure(holder, mint, collection) == Some(StakeError::MaxStakeReached) <==> {
            &&& l.has_user(holder)
            &&& l.has_token(mint)
            &&& l.token_at(mint).owner == holder
            &&& l.collection_ok(mint, collection)
            &&& !l.has_record(mint)
            &&& l.user_at(holder).amount_staked == l.config.max_stake
        },
{
    if l.has_user(holder) {
        lemma_amount_staked_bounded(l, holder);
    }
}

/// Law: at most one stake record exists for a given asset at any time.
pub proof fn lemma_one_record_per_asset(l: Ledger, i: int, j: int)
    requires
        l.wf(),
        0 <= i < l.stakes@.len(),
        0 <= j < l.stakes@.len(),
        i != j,
    ensures
        l.stakes@[i].mint != l.stakes@[j].mint,
{
}

/// Law: while an asset is staked, its token account is frozen and delegated
/// to the stake record's derived authority, so a transfer must fail.
pub proof fn lemma_staked_asset_frozen(l: Ledger, mint: Key)
    requires
        l.wf(),
        l.has_record(mint),
    ensures
        l.has_token(mint),
        l.token_at(mint).frozen,
        is_delegate(l.token_at(mint), l.record_at(mint).address),
{
    let i = l.record_index(mint);
    assert(0 <= i < l.stakes@.len() && l.stakes@[i].mint == mint);
    assert(l.has_token(l.stakes@[i].mint));
    let j = l.token_index(mint);
    assert(0 <= j < l.tokens@.len() && l.tokens@[j].mint == mint);
}

/// The heart of the `unstake` proof: committing the effects of a release
/// preserves the ledger invariant.
proof fn lemma_unstake_commit(
    prev: Ledger,
    next: Ledger,
    holder: Key,
    mint: Key,
    iu: int,
    it: int,
    ir: int,
)
    requires
        prev.wf(),
        0 <= iu < prev.users@.len(),
        0 <= it < prev.tokens@.len(),
        0 <= ir < prev.stakes@.len(),
        prev.users@[iu].owner == holder,
        prev.tokens@[it].mint == mint,
        prev.stakes@[ir].owner == holder,
        prev.stakes@[ir].mint == mint,
        next.stakes@ == prev.stakes@.remove(ir),
        next.users@.len() == prev.users@.len(),
        forall|i: int| 0 <= i < prev.users@.len() && i != iu ==> next.users@[i] == prev.users@[i],
        next.users@[iu].owner == holder,
        next.users@[iu].amount_staked as nat == prev.users@[iu].amount_staked as nat - 1,
        next.tokens@.len() == prev.tokens@.len(),
        forall|j: int|
            0 <= j < prev.tokens@.len() && j != it ==> next.tokens@[j] == prev.tokens@[j],
        next.tokens@[it].mint == mint,
        !next.tokens@[it].frozen,
        next.metadata@ == prev.metadata@,
        next.config == prev.config,
    ensures
        next.wf(),
        !next.has_record(mint),
{
    // After the removal, a surviving record at `i` is the old record at `i`
    // or at `i + 1`, so no record for `mint` survives.
    assert forall|i: int| 0 <= i < next.stakes@.len() implies next.stakes@[i].mint != mint by {
        let i2: int = if i < ir {
            i
        } else {
            i + 1
        };
        assert(next.stakes@[i] == prev.stakes@[i2]);
        if prev.stakes@[i2].mint == mint {
            assert(prev.stakes@[ir].mint == mint);
        }
    }
    assert(!next.has_record(mint));
    lemma_users_keep_owners(prev, next);
    lemma_tokens_keep_mints(prev, next);
    lemma_metadata_keep_mints(prev, next);
    // Every count follows the removal of one record owned by `holder`.
    assert forall|i: int| 0 <= i < next.users@.len() implies next.users@[i].amount_staked as nat
        == count_owned(next.stakes@, next.users@[i].owner) by {
        lemma_count_owned_remove(prev.stakes@, ir, next.users@[i].owner);
        if i != iu {
            assert(prev.users@[i].owner != holder);
        }
    }
    // Surviving records still point at registered holders and live tokens.
    assert forall|i: int| 0 <= i < next.stakes@.len() implies next.has_user(
        #[trigger] next.stakes@[i].owner,
    ) && next.has_token(next.stakes@[i].mint) by {
        let i2: int = if i < ir {
            i
        } else {
            i + 1
        };
        assert(prev.has_user(prev.stakes@[i2].owner));
        assert(prev.has_token(prev.stakes@[i2].mint));
    }
    // Their token accounts are untouched, so still frozen and delegated.
    assert forall|i: int, j: int|
        0 <= i < next.stakes@.len() && 0 <= j < next.tokens@.len() && (
        #[trigger] next.stakes@[i].mint) == (#[trigger] next.tokens@[j].mint) implies {
        &&& next.tokens@[j].frozen
        &&& is_delegate(next.tokens@[j], next.stakes@[i].address)
    } by {
        let i2: int = if i < ir {
            i
        } else {
            i + 1
        };
        assert(next.stakes@[i].mint != mint);
        assert(j != it);
        assert(next.tokens@[j] == prev.tokens@[j]);
        assert(prev.stakes@[i2].mint == prev.tokens@[j].mint);
    }
    // Anything without a record is not frozen: the released token among it.
    assert forall|j: int|
        0 <= j < next.tokens@.len() && !next.has_record(#[trigger] next.tokens@[j].mint) implies !next.tokens@[j].frozen by {
        if j != it {
            assert(prev.tokens@[j].mint != prev.tokens@[it].mint);
            if prev.has_record(prev.tokens@[j].mint) {
                let k = choose|k: int|
                    0 <= k < prev.stakes@.len() && prev.stakes@[k].mint == prev.tokens@[j].mint;
                assert(k != ir);
                let k2: int = if k < ir {
                    k
                } else {
                    k - 1
                };
                assert(next.stakes@[k2] == prev.stakes@[k]);
                assert(next.has_record(next.tokens@[j].mint));
            }
        }
    }
    // Token accounts and metadata still pair up.
    assert forall|j: int| 0 <= j < next.tokens@.len() implies next.has_metadata(
        #[trigger] next.tokens@[j].mint,
    ) by {
        assert(next.tokens@[j].mint == prev.tokens@[j].mint);
        assert(prev.has_metadata(prev.tokens@[j].mint));
    }
    assert forall|j: int| 0 <= j < next.metadata@.len() implies next.has_token(
        #[trigger] next.metadata@[j].mint,
    ) by {
        assert(prev.has_token(prev.metadata@[j].mint));
    }
}

/// The heart of the `stake` proof: committing the three effects preserves
/// the ledger invariant.
proof fn lemma_stake_commit(
    prev: Ledger,
    next: Ledger,
    holder: Key,
    mint: Key,
    iu: int,
    it: int,
    rec: StakeRecord,
)
    requires
        prev.wf(),
        0 <= iu < prev.users@.len(),
        0 <= it < prev.tokens@.len(),
        prev.users@[iu].owner == holder,
        prev.tokens@[it].mint == mint,
        !prev.has_record(mint),
        prev.users@[iu].amount_staked < prev.config.max_stake,
        rec.owner == holder,
        rec.mint == mint,
        next.stakes@ == prev.stakes@.push(rec),
        next.users@ == prev.users@.update(
            iu,
            (UserAccount {
                amount_staked: (prev.users@[iu].amount_staked + 1) as u8,
                ..prev.users@[iu]
            }),
        ),
        next.tokens@ == prev.tokens@.update(
            it,
            (TokenAccount {
                delegate: Some(rec.address),
                delegated_amount: 1,
                frozen: true,
                ..prev.tokens@[it]
            }),
        ),
        next.metadata@ == prev.metadata@,
        next.config == prev.config,
    ensures
        next.wf(),
{
    assert forall|i: int| 0 <= i < prev.stakes@.len() implies prev.stakes@[i].mint != mint by {
        if prev.stakes@[i].mint == mint {
            assert(prev.has_record(mint));
        }
    }
    lemma_users_keep_owners(prev, next);
    lemma_tokens_keep_mints(prev, next);
    lemma_metadata_keep_mints(prev, next);
    lemma_stakes_keep_mints(prev, next);
    // The holder's count rises by one; every other count is unchanged.
    assert forall|i: int| 0 <= i < next.users@.len() implies next.users@[i].amount_staked as nat
        == count_owned(next.stakes@, next.users@[i].owner) by {
        lemma_count_owned_push(prev.stakes@, rec, next.users@[i].owner);
        if i != iu {
            assert(prev.users@[i].owner != holder);
        }
    }
    // A staked asset's token account is frozen and delegated to its record.
    assert forall|i: int, j: int|
        0 <= i < next.stakes@.len() && 0 <= j < next.tokens@.len() && (
        #[trigger] next.stakes@[i].mint) == (#[trigger] next.tokens@[j].mint) implies {
        &&& next.tokens@[j].frozen
        &&& is_delegate(next.tokens@[j], next.stakes@[i].address)
    } by {
        if i < prev.stakes@.len() {
            assert(prev.stakes@[i].mint != mint);
            assert(next.tokens@[j].mint != mint);
            assert(j != it);
            assert(next.tokens@[j] == prev.tokens@[j]);
        } else {
            assert(next.stakes@[i] == rec);
            assert(next.tokens@[j].mint == mint);
            if j != it {
                assert(prev.tokens@[j].mint == mint && prev.tokens@[it].mint == mint);
            }
            assert(j == it);
        }
    }
    // An asset with no stake record is not frozen.
    assert forall|j: int|
        0 <= j < next.tokens@.len() && !next.has_record(#[trigger] next.tokens@[j].mint) implies !next.tokens@[j].frozen by {
        assert(next.stakes@[prev.stakes@.len() as int] == rec);
        if j == it {
            assert(next.has_record(mint));
        } else {
            if prev.has_record(prev.tokens@[j].mint) {
                assert(next.has_record(next.tokens@[j].mint));
            }
        }
    }
}

/// The looked-up position of `owner` in a user record sequence is the
/// position it is seen at, when owners are distinct.
pub proof fn lemma_user_lookup(l: Ledger, i: int)
    requires
        0 <= i < l.users@.len(),
        forall|a: int, b: int|
            0 <= a < b < l.users@.len() ==> l.users@[a].owner != l.users@[b].owner,
    ensures
        l.has_user(l.users@[i].owner),
        l.user_index(l.users@[i].owner) == i,
        l.user_at(l.users@[i].owner) == l.users@[i],
{
    assert(l.has_user(l.users@[i].owner));
    let j = l.user_index(l.users@[i].owner);
    assert(0 <= j < l.users@.len() && l.users@[j].owner == l.users@[i].owner);
    if i < j {
        assert(l.users@[i].owner != l.users@[j].owner);
    } else if j < i {
        assert(l.users@[j].owner != l.users@[i].owner);
    }
}

/// The looked-up position of `mint` in a token account sequence is the
/// position it is seen at, when mints are distinct.
pub proof fn lemma_token_lookup(l: Ledger, i: int)
    requires
        0 <= i < l.tokens@.len(),
        forall|a: int, b: int|
            0 <= a < b < l.tokens@.len() ==> l.tokens@[a].mint != l.tokens@[b].mint,
    ensures
        l.has_token(l.tokens@[i].mint),
        l.token_index(l.tokens@[i].mint) == i,
        l.token_at(l.tokens@[i].mint) == l.tokens@[i],
{
    assert(l.has_token(l.tokens@[i].mint));
    let j = l.token_index(l.tokens@[i].mint);
    assert(0 <= j < l.tokens@.len() && l.tokens@[j].mint == l.tokens@[i].mint);
    if i < j {
        assert(l.tokens@[i].mint != l.tokens@[j].mint);
    } else if j < i {
        assert(l.tokens@[j].mint != l.tokens@[i].mint);
    }
}

/// The looked-up position of `mint` in a metadata sequence is the position
/// it is seen at, when mints are distinct.
pub proof fn lemma_metadata_lookup(l: Ledger, i: int)
    requires
        0 <= i < l.metadata@.len(),
        forall|a: int, b: int|
            0 <= a < b < l.metadata@.len() ==> l.metadata@[a].mint != l.metadata@[b].mint,
    ensures
        l.has_metadata(l.metadata@[i].mint),
        l.metadata_index(l.metadata@[i].mint) == i,
        l.metadata_at(l.metadata@[i].mint) == l.metadata@[i],
{
    assert(l.has_metadata(l.metadata@[i].mint));
    let j = l.metadata_index(l.metadata@[i].mint);
    assert(0 <= j < l.metadata@.len() && l.metadata@[j].mint == l.metadata@[i].mint);
    if i < j {
        assert(l.metadata@[i].mint != l.metadata@[j].mint);
    } else if j < i {
        assert(l.metadata@[j].mint != l.metadata@[i].mint);
    }
}

/// The looked-up position of `mint` in a stake record sequence is the
/// position it is seen at, when mints are distinct.
pub proof fn lemma_record_lookup(l: Ledger, i: int)
    requires
        0 <= i < l.stakes@.len(),
        forall|a: int, b: int|
            0 <= a < b < l.stakes@.len() ==> l.stakes@[a].mint != l.stakes@[b].mint,
    ensures
        l.has_record(l.stakes@[i].mint),
        l.record_index(l.stakes@[i].mint) == i,
        l.record_at(l.stakes@[i].mint) == l.stakes@[i],
{
    assert(l.has_record(l.stakes@[i].mint));
    let j = l.record_index(l.stakes@[i].mint);
    assert(0 <= j < l.stakes@.len() && l.stakes@[j].mint == l.stakes@[i].mint);
    if i < j {
        assert(l.stakes@[i].mint != l.stakes@[j].mint);
    } else if j < i {
        assert(l.stakes@[j].mint != l.stakes@[i].mint);
    }
}

/// Any holder registered in `a` is registered in `b` when `b`'s user
/// records keep every owner of `a`'s, position for position.
pub proof fn lemma_users_keep_owners(a: Ledger, b: Ledger)
    requires
        a.users@.len() <= b.users@.len(),
        forall|i: int| 0 <= i < a.users@.len() ==> a.users@[i].owner == b.users@[i].owner,
    ensures
        forall|o: Key| #[trigger] a.has_user(o) ==> b.has_user(o),
{
    assert forall|o: Key| #[trigger] a.has_user(o) implies b.has_user(o) by {
        let j = choose|j: int| 0 <= j < a.users@.len() && a.users@[j].owner == o;
        assert(b.users@[j].owner == o);
    }
}

/// Any mint with a token account in `a` has one in `b` when `b`'s token
/// accounts keep every mint of `a`'s, position for position.
pub proof fn lemma_tokens_keep_mints(a: Ledger, b: Ledger)
    requires
        a.tokens@.len() <= b.tokens@.len(),
        forall|i: int| 0 <= i < a.tokens@.len() ==> a.tokens@[i].mint == b.tokens@[i].mint,
    ensures
        forall|m: Key| #[trigger] a.has_token(m) ==> b.has_token(m),
{
    assert forall|m: Key| #[trigger] a.has_token(m) implies b.has_token(m) by {
        let j = choose|j: int| 0 <= j < a.tokens@.len() && a.tokens@[j].mint == m;
        assert(b.tokens@[j].mint == m);
    }
}

/// Any mint with metadata in `a` has metadata in `b` when `b`'s metadata
/// keeps every mint of `a`'s, position for position.
pub proof fn lemma_metadata_keep_mints(a: Ledger, b: Ledger)
    requires
        a.metadata@.len() <= b.metadata@.len(),
        forall|i: int| 0 <= i < a.metadata@.len() ==> a.metadata@[i].mint == b.metadata@[i].mint,
    ensures
        forall|m: Key| #[trigger] a.has_metadata(m) ==> b.has_metadata(m),
{
    assert forall|m: Key| #[trigger] a.has_metadata(m) implies b.has_metadata(m) by {
        let j = choose|j: int| 0 <= j < a.metadata@.len() && a.metadata@[j].mint == m;
        assert(b.metadata@[j].mint == m);
    }
}

/// Any mint with a stake record in `a` has one in `b` when `b`'s stake
/// records keep every mint of `a`'s, position for position.
pub proof fn lemma_stakes_keep_mints(a: Ledger, b: Ledger)
    requires
        a.stakes@.len() <= b.stakes@.len(),
        forall|i: int| 0 <= i < a.stakes@.len() ==> a.stakes@[i].mint == b.stakes@[i].mint,
    ensures
        forall|m: Key| #[trigger] a.has_record(m) ==> b.has_record(m),
{
    assert forall|m: Key| #[trigger] a.has_record(m) implies b.has_record(m) by {
        let j = choose|j: int| 0 <= j < a.stakes@.len() && a.stakes@[j].mint == m;
        assert(b.stakes@[j].mint == m);
    }
}

/// Removing position `i` and inserting `v` back at `i` updates position `i`.
pub proof fn lemma_remove_insert<T>(s: Seq<T>, i: int, v: T)
    requires
        0 <= i < s.len(),
    ensures
        s.remove(i).insert(i, v) == s.update(i, v),
{
    assert(s.remove(i).insert(i, v) =~= s.update(i, v));
}

/// Position of the user account record of `owner`, if one exists.
fn find_user_index(v: &Vec<UserAccount>, owner: &Key) -> (r: Option<usize>)
    ensures
        r matches Some(i) ==> i < v@.len() && v@[i as int].owner == *owner,
        r is None ==> forall|j: int| 0 <= j < v@.len() ==> v@[j].owner != *owner,
{
    let mut i: usize = 0;
    while i < v.len()
        invariant
            i <= v@.len(),
            forall|j: int| 0 <= j < i ==> v@[j].owner != *owner,
        decreases v@.len() - i,
    {
        if key_eq(&v[i].owner, owner) {
            return Some(i);
        }
        i += 1;
    }
    None
}

/// Position of the token account of `mint`, if one exists.
fn find_token_index(v: &Vec<TokenAccount>, mint: &Key) -> (r: Option<usize>)
    ensures
        r matches Some(i) ==> i < v@.len() && v@[i as int].mint == *mint,
        r is None ==> forall|j: int| 0 <= j < v@.len() ==> v@[j].mint != *mint,
{
    let mut i: usize = 0;
    while i < v.len()
        invariant
            i <= v@.len(),
            forall|j: int| 0 <= j < i ==> v@[j].mint != *mint,
        decreases v@.len() - i,
    {
        if key_eq(&v[i].mint, mint) {
            return Some(i);
        }
        i += 1;
    }
    None
}

/// Position of the metadata of `mint`, if one exists.
fn find_metadata_index(v: &Vec<AssetMetadata>, mint: &Key) -> (r: Option<usize>)
    ensures
        r matches Some(i) ==> i < v@.len() && v@[i as int].mint == *mint,
        r is None ==> forall|j: int| 0 <= j < v@.len() ==> v@[j].mint != *mint,
{
    let mut i: usize = 0;
    while i < v.len()
        invariant
            i <= v@.len(),
            forall|j: int| 0 <= j < i ==> v@[j].mint != *mint,
        decreases v@.len() - i,
    {
        if key_eq(&v[i].mint, mint) {
            return Some(i);
        }
        i += 1;
    }
    None
}

/// Position of the stake record of `mint`, if one exists.
fn find_record_index(v: &Vec<StakeRecord>, mint: &Key) -> (r: Option<usize>)
    ensures
        r matches Some(i) ==> i < v@.len() && v@[i as int].mint == *mint,
        r is None ==> forall|j: int| 0 <= j < v@.len() ==> v@[j].mint != *mint,
{
    let mut i: usize = 0;
    while i < v.len()
        invariant
            i <= v@.len(),
            forall|j: int| 0 <= j < i ==> v@[j].mint != *mint,
        decreases v@.len() - i,
    {
        if key_eq(&v[i].mint, mint) {
            return Some(i);
        }
        i += 1;
    }
    None
}

} // verus!
