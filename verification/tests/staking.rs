use nft_staking::derivation::reproduces_address;
use nft_staking::elapsed_time_units;
use nft_staking::error::StakeError;
use nft_staking::ledger::Ledger;
use nft_staking::points_earned;
use nft_staking::records::{Key, StakeConfig};

const DAY: i64 = 86400;

fn key(n: u8) -> Key {
    let mut k = [0u8; 32];
    k[0] = n;
    k
}

fn config(max_stake: u8, freeze_period: u32, points_per_stake: u8) -> StakeConfig {
    StakeConfig { key: key(1), max_stake, freeze_period, points_per_stake, bump: 255 }
}

/// A ledger with one registered holder (key 2) and one of their verified
/// collection (key 4) assets (key 3).
fn ledger_with_asset(max_stake: u8, freeze_period: u32, points_per_stake: u8) -> Ledger {
    let mut l = Ledger::new(key(9), config(max_stake, freeze_period, points_per_stake));
    l.register_user(&key(2), 254).unwrap();
    l.register_asset(&key(3), &key(2), &key(4), true).unwrap();
    l
}

#[test]
fn elapsed_units_truncate_toward_zero() {
    assert_eq!(elapsed_time_units(0, 0), 0);
    assert_eq!(elapsed_time_units(DAY - 1, 0), 0);
    assert_eq!(elapsed_time_units(DAY, 0), 1);
    assert_eq!(elapsed_time_units(2 * DAY + DAY / 2, 0), 2);
    assert_eq!(elapsed_time_units(5 * DAY, 3 * DAY), 2);
}

#[test]
fn points_earned_exact() {
    assert_eq!(points_earned(0, 10), 0);
    assert_eq!(points_earned(2, 10), 20);
    assert_eq!(points_earned(7, 3), 21);
}

#[test]
fn register_user_and_getters() {
    let mut l = Ledger::new(key(9), config(3, 2, 10));
    assert_eq!(l.amount_staked_of(&key(2)), None);
    assert_eq!(l.points_of(&key(2)), None);
    assert_eq!(l.register_user(&key(2), 254), Ok(()));
    assert_eq!(l.amount_staked_of(&key(2)), Some(0));
    assert_eq!(l.points_of(&key(2)), Some(0));
    assert_eq!(l.register_user(&key(2), 254), Err(StakeError::UserAlreadyRegistered));
}

#[test]
fn register_asset_rejects_duplicates() {
    let mut l = Ledger::new(key(9), config(3, 2, 10));
    assert_eq!(l.register_asset(&key(3), &key(2), &key(4), true), Ok(()));
    assert_eq!(
        l.register_asset(&key(3), &key(2), &key(4), true),
        Err(StakeError::AssetAlreadyRegistered)
    );
}

#[test]
fn stake_creates_record_delegates_and_freezes() {
    let mut l = ledger_with_asset(3, 2, 10);
    assert_eq!(l.stake(&key(2), &key(3), &key(4), 1000), Ok(()));
    assert_eq!(l.amount_staked_of(&key(2)), Some(1));
    assert_eq!(l.points_of(&key(2)), Some(0));
    assert!(l.is_staked(&key(3)));
    let rec = l.record_of(&key(3)).unwrap();
    assert_eq!(rec.owner, key(2));
    assert_eq!(rec.mint, key(3));
    assert_eq!(rec.staked_at, 1000);
    let tok = l.token_of(&key(3)).unwrap();
    assert!(tok.frozen);
    assert_eq!(tok.delegate, Some(rec.address));
    assert_eq!(tok.delegated_amount, 1);
}

#[test]
fn stake_requires_registration_and_ownership() {
    let mut l = Ledger::new(key(9), config(3, 2, 10));
    assert_eq!(l.stake(&key(2), &key(3), &key(4), 0), Err(StakeError::UserNotRegistered));
    l.register_user(&key(2), 254).unwrap();
    assert_eq!(l.stake(&key(2), &key(3), &key(4), 0), Err(StakeError::TokenAccountMissing));
    l.register_asset(&key(3), &key(7), &key(4), true).unwrap();
    assert_eq!(l.stake(&key(2), &key(3), &key(4), 0), Err(StakeError::NotTokenOwner));
}

#[test]
fn stake_requires_verified_collection_membership() {
    let mut l = Ledger::new(key(9), config(3, 2, 10));
    l.register_user(&key(2), 254).unwrap();
    l.register_asset(&key(3), &key(2), &key(4), false).unwrap();
    l.register_asset(&key(5), &key(2), &key(4), true).unwrap();
    assert_eq!(l.stake(&key(2), &key(3), &key(4), 0), Err(StakeError::CollectionNotVerified));
    assert_eq!(l.stake(&key(2), &key(5), &key(6), 0), Err(StakeError::CollectionNotVerified));
    assert_eq!(l.stake(&key(2), &key(5), &key(4), 0), Ok(()));
}

#[test]
fn stake_same_asset_twice_collides() {
    let mut l = ledger_with_asset(3, 2, 10);
    assert_eq!(l.stake(&key(2), &key(3), &key(4), 0), Ok(()));
    assert_eq!(l.stake(&key(2), &key(3), &key(4), 5), Err(StakeError::RecordAlreadyExists));
    assert_eq!(l.amount_staked_of(&key(2)), Some(1));
}

#[test]
fn fourth_stake_hits_max_stake() {
    let mut l = Ledger::new(key(9), config(3, 2, 10));
    l.register_user(&key(2), 254).unwrap();
    for n in 0..4u8 {
        l.register_asset(&key(10 + n), &key(2), &key(4), true).unwrap();
    }
    assert_eq!(l.stake(&key(2), &key(10), &key(4), 0), Ok(()));
    assert_eq!(l.stake(&key(2), &key(11), &key(4), 0), Ok(()));
    assert_eq!(l.stake(&key(2), &key(12), &key(4), 0), Ok(()));
    assert_eq!(l.amount_staked_of(&key(2)), Some(3));
    assert_eq!(l.stake(&key(2), &key(13), &key(4), 0), Err(StakeError::MaxStakeReached));
    assert_eq!(l.amount_staked_of(&key(2)), Some(3));
    // Releasing one stake makes room again.
    assert_eq!(l.unstake(&key(2), &key(10), 2 * DAY), Ok(()));
    assert_eq!(l.stake(&key(2), &key(13), &key(4), 2 * DAY), Ok(()));
}

#[test]
fn freeze_period_gates_unstake_and_points_accrue() {
    let mut l = ledger_with_asset(3, 2, 10);
    assert_eq!(l.stake(&key(2), &key(3), &key(4), 0), Ok(()));
    // One day staked: one whole unit, fewer than the freeze period of two.
    assert_eq!(l.unstake(&key(2), &key(3), DAY), Err(StakeError::FreezePeriodNotPassed));
    assert_eq!(l.points_of(&key(2)), Some(0));
    assert_eq!(l.amount_staked_of(&key(2)), Some(1));
    assert!(l.is_staked(&key(3)));
    // Two and a half days staked: floor(2.5) = 2 units, 2 * 10 = 20 points.
    assert_eq!(l.unstake(&key(2), &key(3), 2 * DAY + DAY / 2), Ok(()));
    assert_eq!(l.points_of(&key(2)), Some(20));
    assert_eq!(l.amount_staked_of(&key(2)), Some(0));
    assert!(!l.is_staked(&key(3)));
    let tok = l.token_of(&key(3)).unwrap();
    assert!(!tok.frozen);
    assert_eq!(tok.delegate, None);
}

#[test]
fn unstake_requires_record_and_matching_owner() {
    let mut l = ledger_with_asset(3, 2, 10);
    l.register_user(&key(7), 253).unwrap();
    assert_eq!(l.unstake(&key(2), &key(3), 0), Err(StakeError::RecordMissing));
    assert_eq!(l.stake(&key(2), &key(3), &key(4), 0), Ok(()));
    assert_eq!(l.unstake(&key(7), &key(3), 2 * DAY), Err(StakeError::RecordOwnerMismatch));
    assert_eq!(l.unstake(&key(2), &key(3), 2 * DAY), Ok(()));
}

#[test]
fn staked_asset_cannot_be_transferred() {
    let mut l = ledger_with_asset(3, 2, 10);
    assert_eq!(l.stake(&key(2), &key(3), &key(4), 0), Ok(()));
    assert_eq!(l.transfer(&key(3), &key(2), &key(8)), Err(StakeError::AccountFrozen));
    assert_eq!(l.token_of(&key(3)).unwrap().owner, key(2));
    // After unstaking, title can move again.
    assert_eq!(l.unstake(&key(2), &key(3), 2 * DAY), Ok(()));
    assert_eq!(l.transfer(&key(3), &key(7), &key(8)), Err(StakeError::IncorrectAuthority));
    assert_eq!(l.transfer(&key(3), &key(2), &key(8)), Ok(()));
    assert_eq!(l.token_of(&key(3)).unwrap().owner, key(8));
}

#[test]
fn restake_creates_fresh_record() {
    let mut l = ledger_with_asset(3, 2, 10);
    assert_eq!(l.stake(&key(2), &key(3), &key(4), 0), Ok(()));
    assert_eq!(l.unstake(&key(2), &key(3), 3 * DAY), Ok(()));
    assert_eq!(l.points_of(&key(2)), Some(30));
    // The same asset can be staked again; the record is a fresh one.
    assert_eq!(l.stake(&key(2), &key(3), &key(4), 5 * DAY), Ok(()));
    let rec = l.record_of(&key(3)).unwrap();
    assert_eq!(rec.staked_at, 5 * DAY);
    // Points only ever grow.
    assert_eq!(l.unstake(&key(2), &key(3), 9 * DAY), Ok(()));
    assert_eq!(l.points_of(&key(2)), Some(70));
}

#[test]
fn holders_have_independent_counters() {
    let mut l = Ledger::new(key(9), config(2, 1, 5));
    l.register_user(&key(2), 254).unwrap();
    l.register_user(&key(7), 253).unwrap();
    l.register_asset(&key(3), &key(2), &key(4), true).unwrap();
    l.register_asset(&key(5), &key(7), &key(4), true).unwrap();
    assert_eq!(l.stake(&key(2), &key(3), &key(4), 0), Ok(()));
    assert_eq!(l.stake(&key(7), &key(5), &key(4), 0), Ok(()));
    assert_eq!(l.amount_staked_of(&key(2)), Some(1));
    assert_eq!(l.amount_staked_of(&key(7)), Some(1));
    assert_eq!(l.unstake(&key(7), &key(5), 3 * DAY), Ok(()));
    assert_eq!(l.amount_staked_of(&key(2)), Some(1));
    assert_eq!(l.amount_staked_of(&key(7)), Some(0));
    assert_eq!(l.points_of(&key(2)), Some(0));
    assert_eq!(l.points_of(&key(7)), Some(15));
}

#[test]
fn stored_bump_reproduces_derived_authority() {
    let mut l = ledger_with_asset(3, 2, 10);
    assert_eq!(l.stake(&key(2), &key(3), &key(4), 0), Ok(()));
    let rec = l.record_of(&key(3)).unwrap();
    let cfg_key = l.config.key;
    let program = l.program_id;
    assert!(reproduces_address(&cfg_key, &key(3), rec.bump, &program, &rec.address));
    // A different asset's seeds cannot reproduce this record's authority.
    assert!(!reproduces_address(&cfg_key, &key(5), rec.bump, &program, &rec.address));
    // The derived address is none of the inputs handed to the derivation.
    assert_ne!(rec.address, cfg_key);
    assert_ne!(rec.address, key(3));
    assert_ne!(rec.address, program);
}
