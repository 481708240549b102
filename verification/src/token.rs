//! The token account model and the adapters over the external token and
//! metadata primitives.
//!
//! A token account records who owns one unit of an asset, whether a limited
//! spending delegation is in force, and whether the account is frozen. The
//! four adapters mirror the call contracts of the external primitives:
//! `approve` and `revoke` manage the delegation, `freeze` and `thaw` toggle
//! transferability, and each fails, mutating nothing, when invoked with the
//! wrong authority or in the wrong freeze state.

use crate::error::StakeError;
use crate::records::{key_eq, Key};
use vstd::prelude::*;

verus! {

/// One holder's account for one asset, as the external token primitive
/// keeps it.
#[derive(Clone, Copy, Debug)]
pub struct TokenAccount {
    /// The asset this account holds.
    pub mint: Key,
    /// The account's owner: the party with title to the asset.
    pub owner: Key,
    /// Units of the asset held; one for a unique collection asset.
    pub amount: u64,
    /// The delegate, if a spending delegation is in force.
    pub delegate: Option<Key>,
    /// Units the delegate may spend.
    pub delegated_amount: u64,
    /// While frozen, the asset cannot be transferred.
    pub frozen: bool,
}

/// Whether `authority` is the recorded delegate of `t`.
pub open spec fn is_delegate(t: TokenAccount, authority: Key) -> bool {
    t.delegate == Some(authority)
}

/// Grant `delegate` a spending delegation of `amount` units. Fails if the
/// authority is not the account's owner, or if the account is frozen.
pub fn approve(t: &mut TokenAccount, authority: &Key, delegate: &Key, amount: u64) -> (r: Result<
    (),
    StakeError,
>)
    ensures
        r is Err ==> *final(t) == *old(t),
        old(t).frozen ==> r == Err::<(), StakeError>(StakeError::AccountFrozen),
        !old(t).frozen && old(t).owner != *authority ==> r == Err::<(), StakeError>(
            StakeError::IncorrectAuthority,
        ),
        !old(t).frozen && old(t).owner == *authority ==> r is Ok && *final(t) == (TokenAccount {
            delegate: Some(*delegate),
            delegated_amount: amount,
            ..*old(t)
        }),
{
    if t.frozen {
        return Err(StakeError::AccountFrozen);
    }
    if !key_eq(&t.owner, authority) {
        return Err(StakeError::IncorrectAuthority);
    }
    t.delegate = Some(*delegate);
    t.delegated_amount = amount;
    Ok(())
}

/// Remove the spending delegation. Fails if the authority matches neither
/// the owner nor the recorded delegate, or if the account is frozen.
pub fn revoke(t: &mut TokenAccount, authority: &Key) -> (r: Result<(), StakeError>)
    ensures
        r is Err ==> *final(t) == *old(t),
        old(t).frozen ==> r == Err::<(), StakeError>(StakeError::AccountFrozen),
        !old(t).frozen && old(t).owner != *authority && !is_delegate(*old(t), *authority) ==> r
            == Err::<(), StakeError>(StakeError::IncorrectAuthority),
        !old(t).frozen && (old(t).owner == *authority || is_delegate(*old(t), *authority)) ==> r
            is Ok && *final(t) == (TokenAccount {
            delegate: None,
            delegated_amount: 0,
            ..*old(t)
        }),
{
    if t.frozen {
        return Err(StakeError::AccountFrozen);
    }
    let authorized: bool = if key_eq(&t.owner, authority) {
        true
    } else {
        match &t.delegate {
            Some(d) => key_eq(d, authority),
            None => false,
        }
    };
    if !authorized {
        return Err(StakeError::IncorrectAuthority);
    }
    t.delegate = None;
    t.delegated_amount = 0;
    Ok(())
}

/// Mark the account non-transferable. The authority must be the recorded
/// delegate, and the account must not already be frozen.
pub fn freeze(t: &mut TokenAccount, authority: &Key) -> (r: Result<(), StakeError>)
    ensures
        r is Err ==> *final(t) == *old(t),
        !is_delegate(*old(t), *authority) ==> r == Err::<(), StakeError>(
            StakeError::IncorrectAuthority,
        ),
        is_delegate(*old(t), *authority) && old(t).frozen ==> r == Err::<(), StakeError>(
            StakeError::AccountFrozen,
        ),
        is_delegate(*old(t), *authority) && !old(t).frozen ==> r is Ok && *final(t)
            == (TokenAccount { frozen: true, ..*old(t) }),
{
    let delegated: bool = match &t.delegate {
        Some(d) => key_eq(d, authority),
        None => false,
    };
    if !delegated {
        return Err(StakeError::IncorrectAuthority);
    }
    if t.frozen {
        return Err(StakeError::AccountFrozen);
    }
    t.frozen = true;
    Ok(())
}

/// Restore transferability. The authority must be the recorded delegate,
/// and the account must be frozen.
pub fn thaw(t: &mut TokenAccount, authority: &Key) -> (r: Result<(), StakeError>)
    ensures
        r is Err ==> *final(t) == *old(t),
        !is_delegate(*old(t), *authority) ==> r == Err::<(), StakeError>(
            StakeError::IncorrectAuthority,
        ),
        is_delegate(*old(t), *authority) && !old(t).frozen ==> r == Err::<(), StakeError>(
            StakeError::AccountNotFrozen,
        ),
        is_delegate(*old(t), *authority) && old(t).frozen ==> r is Ok && *final(t)
            == (TokenAccount { frozen: false, ..*old(t) }),
{
    let delegated: bool = match &t.delegate {
        Some(d) => key_eq(d, authority),
        None => false,
    };
    if !delegated {
        return Err(StakeError::IncorrectAuthority);
    }
    if !t.frozen {
        return Err(StakeError::AccountNotFrozen);
    }
    t.frozen = false;
    Ok(())
}

/// Move title to `recipient`. Fails while the account is frozen — this is
/// what makes a staked asset non-transferable — and when the authority is
/// not the owner.
pub fn transfer_title(t: &mut TokenAccount, authority: &Key, recipient: &Key) -> (r: Result<
    (),
    StakeError,
>)
    ensures
        r is Err ==> *final(t) == *old(t),
        old(t).frozen ==> r == Err::<(), StakeError>(StakeError::AccountFrozen),
        !old(t).frozen && old(t).owner != *authority ==> r == Err::<(), StakeError>(
            StakeError::IncorrectAuthority,
        ),
        !old(t).frozen && old(t).owner == *authority ==> r is Ok && *final(t) == (TokenAccount {
            owner: *recipient,
            ..*old(t)
        }),
{
    if t.frozen {
        return Err(StakeError::AccountFrozen);
    }
    if !key_eq(&t.owner, authority) {
        return Err(StakeError::IncorrectAuthority);
    }
    t.owner = *recipient;
    Ok(())
}

} // verus!
