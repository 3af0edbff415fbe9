use vstd::prelude::*;

use crate::errors::StakeError;
use crate::rate::{distribute_rate, rebase_on_distribute};
use crate::state::{Address, PoolState};

verus! {

/// A reward deposited by `program_authority` into the pool of `token_mint`.
/// The tokens reach the vault before this accounting runs.
#[derive(Debug, Clone, Copy)]
pub struct DistributeCtx {
    pub program_authority: Address,
    pub token_mint: Address,
    pub pool_state: PoolState,
}

/// The pool after a reward of `amount`, or why not.
pub open spec fn distribute_outcome(pool: PoolState, signer: Address, mint: Address, amount: u64) -> Result<
    PoolState,
    StakeError,
> {
    if signer != pool.authority {
        Err(StakeError::InvalidProgramAuthority)
    } else if mint != pool.token_mint {
        Err(StakeError::InvalidMint)
    } else if amount == 0 {
        Err(StakeError::InvalidAmount)
    } else {
        match distribute_rate(pool.distribution_rate, amount, pool.amount) {
            Err(e) => Err(e),
            Ok(rate) => Ok(PoolState { distribution_rate: rate, ..pool }),
        }
    }
}

/// Accounts for a reward of `amount` tokens: the rate grows by the reward per
/// staked unit; the staked total is unchanged.
pub fn handler(ctx: &mut DistributeCtx, amount: u64) -> (r: Result<(), StakeError>)
    ensures
        final(ctx).program_authority == old(ctx).program_authority,
        final(ctx).token_mint == old(ctx).token_mint,
        match distribute_outcome(old(ctx).pool_state, old(ctx).program_authority, old(ctx).token_mint, amount) {
            Ok(pool) => r is Ok && final(ctx).pool_state == pool,
            Err(e) => r == Err::<(), StakeError>(e) && final(ctx).pool_state == old(ctx).pool_state,
        },
{
    if !(ctx.program_authority == ctx.pool_state.authority) {
        return Err(StakeError::InvalidProgramAuthority);
    }
    if !(ctx.token_mint == ctx.pool_state.token_mint) {
        return Err(StakeError::InvalidMint);
    }
    if amount == 0 {
        return Err(StakeError::InvalidAmount);
    }
    let rate = match rebase_on_distribute(ctx.pool_state.distribution_rate, amount, ctx.pool_state.amount) {
        Ok(rate) => rate,
        Err(e) => return Err(e),
    };
    ctx.pool_state.distribution_rate = rate;
    Ok(())
}

} // verus!
