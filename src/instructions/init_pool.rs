use vstd::prelude::*;

use crate::rate::DistributionRate;
use crate::state::{Address, PoolState};

verus! {

/// The identities and seeds of a pool being created. The caller has already
/// verified that `program_authority` signed.
#[derive(Debug, Clone, Copy)]
pub struct InitializePool {
    pub program_authority: Address,
    pub token_vault: Address,
    pub token_mint: Address,
    pub vault_authority: Address,
    pub pool_bump: u8,
    pub vault_bump: u8,
    pub vault_auth_bump: u8,
}

/// A pool with nothing staked, no deposits and an unrebased rate.
pub open spec fn new_pool(ctx: InitializePool, now: i64) -> PoolState {
    PoolState {
        authority: ctx.program_authority,
        bump: ctx.pool_bump,
        amount: 0,
        token_vault: ctx.token_vault,
        token_mint: ctx.token_mint,
        initialized_at: now,
        vault_bump: ctx.vault_bump,
        vault_auth_bump: ctx.vault_auth_bump,
        vault_authority: ctx.vault_authority,
        distribution_rate: DistributionRate::NotYetRebased,
        user_deposit_amt: 0,
    }
}

/// Creates the pool of `ctx.token_mint`, owned by `ctx.program_authority`,
/// at time `now`.
pub fn handler(ctx: &InitializePool, now: i64) -> (r: PoolState)
    ensures
        r == new_pool(*ctx, now),
{
    PoolState {
        authority: ctx.program_authority,
        bump: ctx.pool_bump,
        amount: 0,
        token_vault: ctx.token_vault,
        token_mint: ctx.token_mint,
        initialized_at: now,
        vault_bump: ctx.vault_bump,
        vault_auth_bump: ctx.vault_auth_bump,
        vault_authority: ctx.vault_authority,
        distribution_rate: DistributionRate::NotYetRebased,
        user_deposit_amt: 0,
    }
}

} // verus!
