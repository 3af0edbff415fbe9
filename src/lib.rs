//! Accounting engine of a shared staking pool whose value is rebased by
//! reward deposits and burns through a single pool-wide distribution rate.
pub mod errors;
pub mod instructions;
pub mod laws;
pub mod rate;
pub mod state;

use vstd::prelude::*;

use crate::instructions::init_pool::{new_pool, InitializePool};
use crate::instructions::init_stake_entry::{new_entry, InitEntryCtx};
use crate::state::{PoolState, StakeEntry};

verus! {

/// Creates the pool described by `ctx` at time `now`.
pub fn init_pool(ctx: &InitializePool, now: i64) -> (r: PoolState)
    ensures
        r == new_pool(*ctx, now),
{
    crate::instructions::init_pool::handler(ctx, now)
}

/// Opens the entry described by `ctx`.
pub fn init_stake_entry(ctx: &InitEntryCtx) -> (r: StakeEntry)
    ensures
        r == new_entry(*ctx),
{
    crate::instructions::init_stake_entry::handler(ctx)
}

} // verus!
