use vstd::prelude::*;

use crate::errors::StakeError;

verus! {

/// Fixed-point scale of every distribution rate: `RATE_MULT` stands for 1.0.
pub const RATE_MULT: u128 = 100_000_000_000;

/// A pool's distribution rate, or an entry's snapshot of it. "Not yet
/// rebased" is its own state, never confused with a computed rate.
#[derive(Debug, Clone, Copy, PartialEq, Eq, Structural)]
pub enum DistributionRate {
    /// No reward or burn has happened yet: the rate stands for 1.0.
    NotYetRebased,
    /// A rate computed by a rebase, scaled by `RATE_MULT`.
    Rebased(u128),
}

/// The number a rate stands for, scaled by `RATE_MULT`.
pub open spec fn rate_value(rate: DistributionRate) -> int {
    match rate {
        DistributionRate::NotYetRebased => RATE_MULT as int,
        DistributionRate::Rebased(r) => r as int,
    }
}

impl DistributionRate {
    /// The number this rate stands for, scaled by `RATE_MULT`.
    pub fn value(&self) -> (r: u128)
        ensures
            r == rate_value(*self),
    {
        match self {
            DistributionRate::NotYetRebased => RATE_MULT,
            DistributionRate::Rebased(r) => *r,
        }
    }
}

/// `RATE_MULT - floor(burn * RATE_MULT / total)`, as a mathematical integer
/// (negative when more than the staked total is burnt).
pub open spec fn shrink_factor_spec(burn: int, total: int) -> int {
    RATE_MULT as int - (burn * RATE_MULT as int) / total
}

/// `floor(reward * RATE_MULT / total)`: the rate increment of a reward.
pub open spec fn reward_increment_spec(reward: int, total: int) -> int {
    (reward * RATE_MULT as int) / total
}

/// The pool rate after `burn` tokens are destroyed out of `total` staked.
pub open spec fn burn_rate(rate: DistributionRate, burn: u64, total: u64) -> Result<
    DistributionRate,
    StakeError,
> {
    if total == 0 {
        Ok(rate)
    } else {
        let f = shrink_factor_spec(burn as int, total as int);
        if f < 0 {
            Err(StakeError::ArithmeticUnderflow)
        } else {
            match rate {
                DistributionRate::NotYetRebased => Ok(DistributionRate::Rebased(f as u128)),
                DistributionRate::Rebased(r) => if r * f > u128::MAX {
                    Err(StakeError::ArithmeticOverflow)
                } else {
                    Ok(DistributionRate::Rebased(((r * f) / RATE_MULT as int) as u128))
                },
            }
        }
    }
}

/// The pool rate after a reward of `reward` tokens over `total` staked.
pub open spec fn distribute_rate(rate: DistributionRate, reward: u64, total: u64) -> Result<
    DistributionRate,
    StakeError,
> {
    if total == 0 {
        Err(StakeError::DivisionByZero)
    } else {
        let sum = rate_value(rate) + reward_increment_spec(reward as int, total as int);
        if sum > u128::MAX {
            Err(StakeError::ArithmeticOverflow)
        } else {
            Ok(DistributionRate::Rebased(sum as u128))
        }
    }
}

/// The rate by which a balance is scaled on withdrawal, given the pool's
/// current rate and the entry's snapshot. For an entry opened before any
/// rebase it is the pool's rate; otherwise `(pool rate + RATE_MULT) /
/// snapshot`, where a snapshot of zero (taken after a burn emptied the pool)
/// counts as one, so that no read ever divides by zero.
pub open spec fn effective_rate(pool_rate: DistributionRate, snapshot: DistributionRate) -> Result<
    u128,
    StakeError,
> {
    match snapshot {
        DistributionRate::NotYetRebased => Ok(rate_value(pool_rate) as u128),
        DistributionRate::Rebased(s) => if rate_value(pool_rate) + RATE_MULT > u128::MAX {
            Err(StakeError::ArithmeticOverflow)
        } else {
            Ok(((rate_value(pool_rate) + RATE_MULT) / (if s == 0 {
                1
            } else {
                s as int
            })) as u128)
        },
    }
}

/// What a balance staked at rate `snapshot` is worth at rate `pool_rate`.
pub open spec fn out_amount(balance: u64, pool_rate: DistributionRate, snapshot: DistributionRate) -> Result<
    u128,
    StakeError,
> {
    match effective_rate(pool_rate, snapshot) {
        Err(e) => Err(e),
        Ok(rate) => if balance * rate > u128::MAX {
            Err(StakeError::ArithmeticOverflow)
        } else {
            Ok(((balance * rate) / RATE_MULT as int) as u128)
        },
    }
}

/// The factor by which every staked unit shrinks when `burn` of `total`
/// staked tokens are destroyed.
pub fn shrink_factor(burn: u64, total: u64) -> (r: Result<u128, StakeError>)
    requires
        total > 0,
    ensures
        shrink_factor_spec(burn as int, total as int) >= 0 ==> r == Ok::<u128, StakeError>(
            shrink_factor_spec(burn as int, total as int) as u128,
        ),
        shrink_factor_spec(burn as int, total as int) < 0 ==> r == Err::<u128, StakeError>(
            StakeError::ArithmeticUnderflow,
        ),
{
    let scaled: u128 = (burn as u128) * RATE_MULT;
    let share: u128 = scaled / (total as u128);
    match RATE_MULT.checked_sub(share) {
        Some(f) => Ok(f),
        None => Err(StakeError::ArithmeticUnderflow),
    }
}

/// Rebases `rate` for a burn of `burn` tokens out of `total` staked: the
/// shrink factor becomes the first rebased rate and composes multiplicatively
/// with any rebased one. An empty pool keeps its rate.
pub fn rebase_on_burn(rate: DistributionRate, burn: u64, total: u64) -> (r: Result<
    DistributionRate,
    StakeError,
>)
    ensures
        r == burn_rate(rate, burn, total),
{
    if total == 0 {
        return Ok(rate);
    }
    let f = match shrink_factor(burn, total) {
        Ok(f) => f,
        Err(e) => return Err(e),
    };
    match rate {
        DistributionRate::NotYetRebased => Ok(DistributionRate::Rebased(f)),
        DistributionRate::Rebased(r) => match r.checked_mul(f) {
            Some(p) => Ok(DistributionRate::Rebased(p / RATE_MULT)),
            None => Err(StakeError::ArithmeticOverflow),
        },
    }
}

/// Rebases `rate` for a reward of `reward` tokens over `total` staked: the
/// increment is added to the rate, an unrebased pool counting as
/// `RATE_MULT`.
pub fn rebase_on_distribute(rate: DistributionRate, reward: u64, total: u64) -> (r: Result<
    DistributionRate,
    StakeError,
>)
    ensures
        r == distribute_rate(rate, reward, total),
{
    if total == 0 {
        return Err(StakeError::DivisionByZero);
    }
    let inc: u128 = (reward as u128) * RATE_MULT / (total as u128);
    match rate.value().checked_add(inc) {
        Some(s) => Ok(DistributionRate::Rebased(s)),
        None => Err(StakeError::ArithmeticOverflow),
    }
}

} // verus!
