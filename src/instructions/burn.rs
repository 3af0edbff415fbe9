use vstd::prelude::*;

use crate::errors::StakeError;
use crate::rate::{burn_rate, rebase_on_burn};
use crate::state::{Address, PoolState};

verus! {

/// A burn requested by `program_authority` on the pool of `token_mint`.
/// The tokens themselves are destroyed in the vault before this accounting
/// runs; a failed burn never reaches it.
#[derive(Debug, Clone, Copy)]
pub struct BurnCtx {
    pub program_authority: Address,
    pub token_mint: Address,
    pub pool_state: PoolState,
}

/// The pool after burning `amount` of its staked tokens, or why not.
pub open spec fn burn_outcome(pool: PoolState, signer: Address, mint: Address, amount: u64) -> Result<
    PoolState,
    StakeError,
> {
    if signer != pool.authority {
        Err(StakeError::InvalidProgramAuthority)
    } else if mint != pool.token_mint {
        Err(StakeError::InvalidMint)
    } else if amount == 0 {
        Err(StakeError::InvalidAmount)
    } else {
        match burn_rate(pool.distribution_rate, amount, pool.amount) {
            Err(e) => Err(e),
            Ok(rate) => if amount > pool.amount {
                Err(StakeError::ArithmeticUnderflow)
            } else {
                Ok(PoolState { distribution_rate: rate, amount: (pool.amount - amount) as u64, ..pool })
            },
        }
    }
}

/// Burns `amount` staked tokens as a penalty: every holder's share shrinks in
/// proportion through the rate, and the staked total drops by `amount`. A
/// burn of nothing is refused.
///
/// Burning the whole staked total sets the rate to zero: what was staked
/// before is worth nothing. An entry opened after that snapshots the zero
/// rate, which the read counts as one, so such an entry keeps a defined
/// value (its balance, as long as the rate stays zero).
pub fn handler(ctx: &mut BurnCtx, amount: u64) -> (r: Result<(), StakeError>)
    ensures
        final(ctx).program_authority == old(ctx).program_authority,
        final(ctx).token_mint == old(ctx).token_mint,
        match burn_outcome(old(ctx).pool_state, old(ctx).program_authority, old(ctx).token_mint, amount) {
            Ok(pool) => r is Ok && final(ctx).pool_state == pool,
            Err(e) => r == Err::<(), StakeError>(e) && final(ctx).pool_state == old(ctx).pool_state,
        },
{
    if !(ctx.program_authority == ctx.pool_state.authority) {
        return Err(StakeError::InvalidProgramAuthority);
    }
    if !(ctx.token_mint == ctx.pool_state.token_mint) {
        return Err(StakeError::InvalidMint);
    }
    if amount == 0 {
        return Err(StakeError::InvalidAmount);
    }
    let rate = match rebase_on_burn(ctx.pool_state.distribution_rate, amount, ctx.pool_state.amount) {
        Ok(rate) => rate,
        Err(e) => return Err(e),
    };
    let remaining = match ctx.pool_state.amount.checked_sub(amount) {
        Some(v) => v,
        None => return Err(StakeError::ArithmeticUnderflow),
    };
    ctx.pool_state.distribution_rate = rate;
    ctx.pool_state.amount = remaining;
    Ok(())
}

} // verus!
