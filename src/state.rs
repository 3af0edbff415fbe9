use vstd::prelude::*;

use crate::errors::StakeError;
use crate::rate::{out_amount, DistributionRate, RATE_MULT};

verus! {

/// A 32-byte ledger identity: a user, an authority, a mint or a vault.
#[derive(Debug, Clone, Copy)]
pub struct Address {
    pub bytes: [u8; 32],
}

impl PartialEq for Address {
    fn eq(&self, other: &Address) -> (r: bool) {
        let mut i: usize = 0;
        while i < 32
            invariant
                0 <= i <= 32,
                forall|j: int| 0 <= j < i ==> self.bytes[j] == other.bytes[j],
            decreases 32 - i,
        {
            if self.bytes[i] != other.bytes[i] {
                return false;
            }
            i = i + 1;
        }
        assert(self.bytes =~= other.bytes);
        true
    }
}

impl vstd::std_specs::cmp::PartialEqSpecImpl for Address {
    open spec fn obeys_eq_spec() -> bool {
        true
    }

    open spec fn eq_spec(&self, other: &Address) -> bool {
        *self == *other
    }
}

/// The pool of one token mint.
#[derive(Debug, Clone, Copy)]
pub struct PoolState {
    /// The identity allowed to distribute and burn.
    pub authority: Address,
    pub bump: u8,
    /// Sum of all staked principal, in base units.
    pub amount: u64,
    pub token_vault: Address,
    pub token_mint: Address,
    pub initialized_at: i64,
    pub vault_bump: u8,
    pub vault_auth_bump: u8,
    pub vault_authority: Address,
    /// Not yet rebased until the first reward or burn.
    pub distribution_rate: DistributionRate,
    /// Cumulative amount ever staked by users.
    pub user_deposit_amt: u64,
}

/// One user's deposit in one pool.
#[derive(Debug, Clone, Copy)]
pub struct StakeEntry {
    pub user: Address,
    pub bump: u8,
    /// Staked principal, as deposited.
    pub balance: u64,
    pub last_staked: i64,
    /// The pool's rate when this entry was opened (or last emptied).
    pub initial_distribution_rate: DistributionRate,
}

/// What `entry` may redeem from `pool` now.
pub open spec fn redeemable(pool: PoolState, entry: StakeEntry) -> Result<u128, StakeError> {
    out_amount(entry.balance, pool.distribution_rate, entry.initial_distribution_rate)
}

/// The redeemable value of `user_stake_entry`: its balance scaled by the
/// pool's rate (for an entry opened before any rebase; an unrebased pool
/// stands for 1.0, so such an entry redeems its balance), or by
/// `(pool rate + RATE_MULT) / snapshot` otherwise (a zero snapshot counting
/// as one), divided by `RATE_MULT`. Every step is checked; a product is
/// formed before any division.
pub fn calculate_out_amount(pool_state: &PoolState, user_stake_entry: &StakeEntry) -> (r: Result<
    u128,
    StakeError,
>)
    ensures
        r == redeemable(*pool_state, *user_stake_entry),
{
    let pool_rate = pool_state.distribution_rate.value();
    let rate: u128 = match user_stake_entry.initial_distribution_rate {
        DistributionRate::NotYetRebased => pool_rate,
        DistributionRate::Rebased(snapshot) => {
            let sum = match pool_rate.checked_add(RATE_MULT) {
                Some(s) => s,
                None => return Err(StakeError::ArithmeticOverflow),
            };
            if snapshot == 0 {
                sum
            } else {
                sum / snapshot
            }
        },
    };
    match (user_stake_entry.balance as u128).checked_mul(rate) {
        Some(p) => Ok(p / RATE_MULT),
        None => Err(StakeError::ArithmeticOverflow),
    }
}

} // verus!
