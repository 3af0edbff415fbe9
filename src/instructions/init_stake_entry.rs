use vstd::prelude::*;

use crate::state::{Address, PoolState, StakeEntry};

verus! {

/// A user opening an entry in a pool.
#[derive(Debug, Clone, Copy)]
pub struct InitEntryCtx {
    pub user: Address,
    pub entry_bump: u8,
    pub pool_state: PoolState,
}

/// An empty entry of `ctx.user` holding the pool's current rate.
pub open spec fn new_entry(ctx: InitEntryCtx) -> StakeEntry {
    StakeEntry {
        user: ctx.user,
        bump: ctx.entry_bump,
        balance: 0,
        last_staked: 0,
        initial_distribution_rate: ctx.pool_state.distribution_rate,
    }
}

/// Opens a zero-balance entry for `ctx.user`, snapshotting the pool's rate.
pub fn handler(ctx: &InitEntryCtx) -> (r: StakeEntry)
    ensures
        r == new_entry(*ctx),
{
    StakeEntry {
        user: ctx.user,
        bump: ctx.entry_bump,
        balance: 0,
        last_staked: 0,
        initial_distribution_rate: ctx.pool_state.distribution_rate,
    }
}

} // verus!
