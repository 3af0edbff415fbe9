use vstd::prelude::*;

use crate::errors::StakeError;
use crate::state::{calculate_out_amount, redeemable, Address, PoolState, StakeEntry};

verus! {

/// A full withdrawal by `user` from their entry of a pool.
#[derive(Debug, Clone, Copy)]
pub struct UnstakeCtx {
    pub user: Address,
    pub user_stake_entry: StakeEntry,
    pub pool_state: PoolState,
}

/// The amount paid out, the pool and the emptied entry after `user`
/// withdraws everything, or why not.
pub open spec fn unstake_outcome(pool: PoolState, entry: StakeEntry, user: Address) -> Result<
    (u64, PoolState, StakeEntry),
    StakeError,
> {
    if user != entry.user {
        Err(StakeError::InvalidUser)
    } else {
        match redeemable(pool, entry) {
            Err(e) => Err(e),
            Ok(out) => if entry.balance > pool.amount {
                Err(StakeError::ArithmeticUnderflow)
            } else if out > u64::MAX {
                Err(StakeError::ArithmeticOverflow)
            } else {
                Ok(
                    (
                        out as u64,
                        PoolState { amount: (pool.amount - entry.balance) as u64, ..pool },
                        StakeEntry {
                            balance: 0,
                            initial_distribution_rate: pool.distribution_rate,
                            ..entry
                        },
                    ),
                )
            },
        }
    }
}

/// Withdraws the whole entry of `ctx.user`: returns the amount to pay out
/// of the vault, removes the principal from the staked total and resets the
/// entry to an empty one at the pool's current rate.
pub fn handler(ctx: &mut UnstakeCtx) -> (r: Result<u64, StakeError>)
    ensures
        final(ctx).user == old(ctx).user,
        match unstake_outcome(old(ctx).pool_state, old(ctx).user_stake_entry, old(ctx).user) {
            Ok((out, pool, entry)) => r == Ok::<u64, StakeError>(out) && final(ctx).pool_state == pool
                && final(ctx).user_stake_entry == entry,
            Err(e) => r == Err::<u64, StakeError>(e) && final(ctx).pool_state == old(ctx).pool_state
                && final(ctx).user_stake_entry == old(ctx).user_stake_entry,
        },
{
    if !(ctx.user == ctx.user_stake_entry.user) {
        return Err(StakeError::InvalidUser);
    }
    let out = match calculate_out_amount(&ctx.pool_state, &ctx.user_stake_entry) {
        Ok(out) => out,
        Err(e) => return Err(e),
    };
    let remaining = match ctx.pool_state.amount.checked_sub(ctx.user_stake_entry.balance) {
        Some(v) => v,
        None => return Err(StakeError::ArithmeticUnderflow),
    };
    if out > u64::MAX as u128 {
        return Err(StakeError::ArithmeticOverflow);
    }
    ctx.pool_state.amount = remaining;
    ctx.user_stake_entry.balance = 0;
    ctx.user_stake_entry.initial_distribution_rate = ctx.pool_state.distribution_rate;
    Ok(out as u64)
}

} // verus!
