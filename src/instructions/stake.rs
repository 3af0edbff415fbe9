use vstd::prelude::*;

use crate::errors::StakeError;
use crate::state::{Address, PoolState, StakeEntry};

verus! {

/// A deposit by `user` into their entry of a pool. The tokens reach the vault
/// together with this accounting.
#[derive(Debug, Clone, Copy)]
pub struct StakeCtx {
    pub user: Address,
    pub user_stake_entry: StakeEntry,
    pub pool_state: PoolState,
}

/// The pool and entry after `user` stakes `amount` at time `now`, or why not.
/// An empty entry takes the pool's current rate as its snapshot.
pub open spec fn stake_outcome(pool: PoolState, entry: StakeEntry, user: Address, amount: u64, now: i64) -> Result<
    (PoolState, StakeEntry),
    StakeError,
> {
    if user != entry.user {
        Err(StakeError::InvalidUser)
    } else if amount == 0 {
        Err(StakeError::InvalidAmount)
    } else if pool.amount + amount > u64::MAX || pool.user_deposit_amt + amount > u64::MAX
        || entry.balance + amount > u64::MAX {
        Err(StakeError::ArithmeticOverflow)
    } else {
        Ok(
            (
                PoolState {
                    amount: (pool.amount + amount) as u64,
                    user_deposit_amt: (pool.user_deposit_amt + amount) as u64,
                    ..pool
                },
                StakeEntry {
                    balance: (entry.balance + amount) as u64,
                    last_staked: now,
                    initial_distribution_rate: if entry.balance == 0 {
                        pool.distribution_rate
                    } else {
                        entry.initial_distribution_rate
                    },
                    ..entry
                },
            ),
        )
    }
}

/// Stakes `amount` for `ctx.user` at time `now`. The rate is not touched, so
/// no other holder's share changes.
pub fn handler(ctx: &mut StakeCtx, amount: u64, now: i64) -> (r: Result<(), StakeError>)
    ensures
        final(ctx).user == old(ctx).user,
        match stake_outcome(old(ctx).pool_state, old(ctx).user_stake_entry, old(ctx).user, amount, now) {
            Ok((pool, entry)) => r is Ok && final(ctx).pool_state == pool
                && final(ctx).user_stake_entry == entry,
            Err(e) => r == Err::<(), StakeError>(e) && final(ctx).pool_state == old(ctx).pool_state
                && final(ctx).user_stake_entry == old(ctx).user_stake_entry,
        },
{
    if !(ctx.user == ctx.user_stake_entry.user) {
        return Err(StakeError::InvalidUser);
    }
    if amount == 0 {
        return Err(StakeError::InvalidAmount);
    }
    let total = match ctx.pool_state.amount.checked_add(amount) {
        Some(v) => v,
        None => return Err(StakeError::ArithmeticOverflow),
    };
    let deposits = match ctx.pool_state.user_deposit_amt.checked_add(amount) {
        Some(v) => v,
        None => return Err(StakeError::ArithmeticOverflow),
    };
    let balance = match ctx.user_stake_entry.balance.checked_add(amount) {
        Some(v) => v,
        None => return Err(StakeError::ArithmeticOverflow),
    };
    if ctx.user_stake_entry.balance == 0 {
        ctx.user_stake_entry.initial_distribution_rate = ctx.pool_state.distribution_rate;
    }
    ctx.user_stake_entry.balance = balance;
    ctx.user_stake_entry.last_staked = now;
    ctx.pool_state.amount = total;
    ctx.pool_state.user_deposit_amt = deposits;
    Ok(())
}

} // verus!
