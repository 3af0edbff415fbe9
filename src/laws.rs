//! Properties that hold across the operations of the pool.
use vstd::prelude::*;

use vstd::arithmetic::div_mod::{lemma_div_is_ordered, lemma_div_pos_is_pos, lemma_fundamental_div_mod, lemma_mod_pos_bound};

use crate::errors::StakeError;
use crate::instructions::burn::burn_outcome;
use crate::instructions::distribute::distribute_outcome;
use crate::instructions::init_pool::{new_pool, InitializePool};
use crate::instructions::init_stake_entry::{new_entry, InitEntryCtx};
use crate::instructions::stake::stake_outcome;
use crate::instructions::unstake::unstake_outcome;
use crate::rate::{
    burn_rate, distribute_rate, out_amount, rate_value, shrink_factor_spec, DistributionRate, RATE_MULT,
};
use crate::state::{redeemable, Address, PoolState, StakeEntry};

verus! {

/// Sum of the balances of `entries`.
pub open spec fn staked_sum(entries: Seq<StakeEntry>) -> int
    decreases entries.len(),
{
    if entries.len() == 0 {
        0
    } else {
        staked_sum(entries.drop_last()) + entries.last().balance
    }
}

/// The pool's staked total equals the sum of the balances of its entries.
pub open spec fn ledger_balanced(pool: PoolState, entries: Seq<StakeEntry>) -> bool {
    pool.amount == staked_sum(entries)
}

proof fn lemma_staked_sum_update(entries: Seq<StakeEntry>, i: int, e: StakeEntry)
    requires
        0 <= i < entries.len(),
    ensures
        staked_sum(entries.update(i, e)) == staked_sum(entries) - entries[i].balance + e.balance,
    decreases entries.len(),
{
    let updated = entries.update(i, e);
    if i == entries.len() - 1 {
        assert(updated.drop_last() =~= entries.drop_last());
    } else {
        assert(updated.drop_last() =~= entries.drop_last().update(i, e));
        lemma_staked_sum_update(entries.drop_last(), i, e);
    }
}

/// A newly created pool, with no entries yet, is balanced.
pub proof fn lemma_new_pool_balanced(ctx: InitializePool, now: i64)
    ensures
        ledger_balanced(new_pool(ctx, now), Seq::<StakeEntry>::empty()),
{
}

/// Opening an entry adds a zero balance and keeps the pool balanced.
pub proof fn lemma_open_entry_keeps_ledger(pool: PoolState, entries: Seq<StakeEntry>, ctx: InitEntryCtx)
    requires
        ledger_balanced(pool, entries),
        ctx.pool_state == pool,
    ensures
        ledger_balanced(pool, entries.push(new_entry(ctx))),
{
    assert(entries.push(new_entry(ctx)).drop_last() =~= entries);
}

/// A successful stake keeps the staked total equal to the sum of balances.
pub proof fn lemma_stake_keeps_ledger(
    pool: PoolState,
    entries: Seq<StakeEntry>,
    i: int,
    user: Address,
    amount: u64,
    now: i64,
)
    requires
        ledger_balanced(pool, entries),
        0 <= i < entries.len(),
        stake_outcome(pool, entries[i], user, amount, now) is Ok,
    ensures
        ({
            let (p, e) = stake_outcome(pool, entries[i], user, amount, now)->Ok_0;
            ledger_balanced(p, entries.update(i, e))
        }),
{
    let (p, e) = stake_outcome(pool, entries[i], user, amount, now)->Ok_0;
    lemma_staked_sum_update(entries, i, e);
}

/// A successful unstake keeps the staked total equal to the sum of balances.
pub proof fn lemma_unstake_keeps_ledger(pool: PoolState, entries: Seq<StakeEntry>, i: int, user: Address)
    requires
        ledger_balanced(pool, entries),
        0 <= i < entries.len(),
        unstake_outcome(pool, entries[i], user) is Ok,
    ensures
        ({
            let (out, p, e) = unstake_outcome(pool, entries[i], user)->Ok_0;
            ledger_balanced(p, entries.update(i, e))
        }),
{
    let (out, p, e) = unstake_outcome(pool, entries[i], user)->Ok_0;
    lemma_staked_sum_update(entries, i, e);
}

/// Stakes and unstakes never rebase: the pool keeps its rate, and in a pool
/// still not rebased an entry opened before any rebase keeps "not yet
/// rebased" as its snapshot.
pub proof fn lemma_stake_and_unstake_keep_rate(
    pool: PoolState,
    entry: StakeEntry,
    user: Address,
    amount: u64,
    now: i64,
)
    ensures
        stake_outcome(pool, entry, user, amount, now) is Ok ==> ({
            let (p, e) = stake_outcome(pool, entry, user, amount, now)->Ok_0;
            &&& p.distribution_rate == pool.distribution_rate
            &&& pool.distribution_rate == DistributionRate::NotYetRebased && entry.initial_distribution_rate
                == DistributionRate::NotYetRebased ==> e.initial_distribution_rate == DistributionRate::NotYetRebased
        }),
        unstake_outcome(pool, entry, user) is Ok ==> ({
            let (out, p, e) = unstake_outcome(pool, entry, user)->Ok_0;
            &&& p.distribution_rate == pool.distribution_rate
            &&& pool.distribution_rate == DistributionRate::NotYetRebased ==> e.initial_distribution_rate
                == DistributionRate::NotYetRebased
        }),
{
}

/// In a pool with no reward or burn yet, an entry opened before any rebase
/// redeems exactly its balance.
pub proof fn lemma_unrebased_entry_redeems_balance(pool: PoolState, entry: StakeEntry)
    requires
        pool.distribution_rate == DistributionRate::NotYetRebased,
        entry.initial_distribution_rate == DistributionRate::NotYetRebased,
    ensures
        redeemable(pool, entry) == Ok::<u128, StakeError>(entry.balance as u128),
{
    let b = entry.balance as int;
    let m = RATE_MULT as int;
    assert((b * m) / m == b) by (nonlinear_arith)
        requires
            0 < m,
    ;
}

/// The redeemable value depends on the pool and the entry alone: two reads
/// with no change in between give the same result.
pub proof fn lemma_read_is_idempotent(
    pool: PoolState,
    entry: StakeEntry,
    first: Result<u128, StakeError>,
    second: Result<u128, StakeError>,
)
    requires
        first == redeemable(pool, entry),
        second == redeemable(pool, entry),
    ensures
        first == second,
{
}

proof fn lemma_floor_div(x: int, d: int)
    requires
        0 <= x,
        0 < d,
    ensures
        0 <= x / d,
        (x / d) * d <= x < (x / d) * d + d,
{
    lemma_fundamental_div_mod(x, d);
    lemma_mod_pos_bound(x, d);
    lemma_div_pos_is_pos(x, d);
    let q = x / d;
    let rm = x % d;
    assert(q * d <= x < q * d + d) by (nonlinear_arith)
        requires
            x == d * q + rm,
            0 <= rm < d,
    ;
}

proof fn lemma_scaled_values(b: int, re: int, r2: int, t: int, kept: int, m: int)
    requires
        0 <= b,
        0 <= r2 <= re,
        0 < t,
        0 <= kept <= t,
        0 < m,
        re * kept < (r2 + 1) * t,
        r2 * t * m <= re * kept * m + re * t,
    ensures
        0 <= b * r2 <= b * re,
        (b * r2) / m <= (b * re) / m,
        -(t * (2 * m * m + b * (m + re))) <= ((b * r2) / m * t - (b * re) / m * kept) * m * m
            <= t * (2 * m * m + b * (m + re)),
{
    assert(0 <= b * r2 <= b * re) by (nonlinear_arith)
        requires
            0 <= b,
            0 <= r2 <= re,
    ;
    lemma_div_is_ordered(b * r2, b * re, m);
    lemma_floor_div(b * r2, m);
    lemma_floor_div(b * re, m);
    let v1 = (b * r2) / m;
    let v0 = (b * re) / m;
    // upper bound
    assert(v1 * t * m * m <= b * r2 * t * m) by (nonlinear_arith)
        requires
            v1 * m <= b * r2,
            0 < t,
            0 < m,
    ;
    assert(b * r2 * t * m <= b * (re * kept * m + re * t)) by (nonlinear_arith)
        requires
            r2 * t * m <= re * kept * m + re * t,
            0 <= b,
    ;
    assert(v0 * kept * m * m >= (b * re - m) * kept * m) by (nonlinear_arith)
        requires
            v0 * m + m > b * re,
            0 <= kept,
            0 < m,
    ;
    assert((v1 * t - v0 * kept) * m * m == v1 * t * m * m - v0 * kept * m * m) by (nonlinear_arith);
    assert(b * (re * kept * m + re * t) == b * re * kept * m + b * re * t) by (nonlinear_arith);
    assert((b * re - m) * kept * m == b * re * kept * m - kept * m * m) by (nonlinear_arith);
    assert(t * (2 * m * m + b * (m + re)) == 2 * (t * m * m) + b * t * m + b * re * t) by (nonlinear_arith);
    assert(kept * m * m <= t * m * m) by (nonlinear_arith)
        requires
            kept <= t,
    ;
    assert(0 <= b * t * m) by (nonlinear_arith)
        requires
            0 <= b,
            0 < t,
            0 < m,
    ;
    assert(0 <= t * m * m) by (nonlinear_arith)
        requires
            0 < t,
    ;
    // lower bound
    assert(v1 * t * m * m >= (b * r2 - m) * t * m) by (nonlinear_arith)
        requires
            v1 * m + m > b * r2,
            0 < t,
            0 < m,
    ;
    assert((b * r2 - m) * t * m == b * r2 * t * m - t * m * m) by (nonlinear_arith);
    assert((r2 + 1) * t == r2 * t + t) by (nonlinear_arith);
    assert(b * r2 * t * m >= b * (re * kept - t) * m) by (nonlinear_arith)
        requires
            r2 * t >= re * kept - t,
            0 <= b,
            0 < m,
    ;
    assert(b * (re * kept - t) * m == b * re * kept * m - b * t * m) by (nonlinear_arith);
    assert(v0 * kept * m * m <= b * re * kept * m) by (nonlinear_arith)
        requires
            v0 * m <= b * re,
            0 <= kept,
            0 < m,
    ;
    assert(0 <= b * re * t) by (nonlinear_arith)
        requires
            0 <= b,
            0 <= re,
            0 < t,
    ;
}

/// A successful burn of `amount` out of a positive staked total `t` scales
/// the value `r` of the pool's rate by `(t - amount) / t`: the new value lies
/// less than one unit below and at most `r / RATE_MULT` above
/// `r * (t - amount) / t`. No entry opened before any rebase gains value,
/// and its value `v`
/// becomes `v * (t - amount) / t` up to rounding: `|v' * t - v * (t - amount)|`
/// is at most `t * (2 + b * (RATE_MULT + r) / RATE_MULT^2)` for a balance `b`.
pub proof fn lemma_burn_shrinks_proportionally(
    pool: PoolState,
    signer: Address,
    mint: Address,
    amount: u64,
)
    requires
        pool.amount > 0,
        amount > 0,
        burn_outcome(pool, signer, mint, amount) is Ok,
    ensures
        ({
            let next = burn_outcome(pool, signer, mint, amount)->Ok_0;
            let r = rate_value(pool.distribution_rate);
            let r2 = rate_value(next.distribution_rate);
            let t = pool.amount as int;
            let m = RATE_MULT as int;
            let kept = t - amount;
            &&& amount <= t
            &&& next.amount == kept
            &&& r * kept < (r2 + 1) * t
            &&& r2 * t * m <= r * kept * m + r * t
            &&& r2 <= r
            &&& forall|e: StakeEntry|
                #![trigger redeemable(next, e)]
                e.initial_distribution_rate == DistributionRate::NotYetRebased && redeemable(pool, e) is Ok ==> {
                    let v0 = redeemable(pool, e)->Ok_0 as int;
                    let v1 = redeemable(next, e)->Ok_0 as int;
                    let b = e.balance as int;
                    &&& redeemable(next, e) is Ok
                    &&& v1 <= v0
                    &&& -(t * (2 * m * m + b * (m + r))) <= (v1 * t - v0 * kept) * m * m
                    &&& (v1 * t - v0 * kept) * m * m <= t * (2 * m * m + b * (m + r))
                }
        }),
{
    let next = burn_outcome(pool, signer, mint, amount)->Ok_0;
    let raw = rate_value(pool.distribution_rate);
    let r = rate_value(pool.distribution_rate);
    let r2 = rate_value(next.distribution_rate);
    let t = pool.amount as int;
    let a = amount as int;
    let m = RATE_MULT as int;
    let kept = t - a;
    let q = (a * m) / t;
    let f = m - q;
    lemma_floor_div(a * m, t);
    assert(f == shrink_factor_spec(a, t));
    assert(f >= 0);
    // q * t <= a * m < q * t + t, hence m * kept <= f * t < m * kept + t
    assert(f * t >= m * kept && f * t < m * kept + t) by (nonlinear_arith)
        requires
            q * t <= a * m < q * t + t,
            f == m - q,
            kept == t - a,
    ;
    if pool.distribution_rate == DistributionRate::NotYetRebased {
        assert(r2 == f);
        assert(r == m);
        assert(m * kept < (f + 1) * t) by (nonlinear_arith)
            requires
                f * t >= m * kept,
                0 < t,
        ;
        assert(f * t * m <= m * kept * m + m * t) by (nonlinear_arith)
            requires
                f * t < m * kept + t,
                0 < m,
        ;
    } else {
        assert(r == raw);
        assert(raw * f <= u128::MAX);
        assert(r2 == (raw * f) / m);
        assert(0 <= raw * f) by (nonlinear_arith)
            requires
                0 <= raw,
                0 <= f,
        ;
        lemma_floor_div(raw * f, m);
        assert(r * (f * t) >= r * (m * kept)) by (nonlinear_arith)
            requires
                f * t >= m * kept,
                0 <= r,
        ;
        assert((r2 + 1) * m * t > r * f * t) by (nonlinear_arith)
            requires
                r * f < r2 * m + m,
                0 < t,
        ;
        assert(r * f * t == r * (f * t)) by (nonlinear_arith);
        assert(r * kept < (r2 + 1) * t) by (nonlinear_arith)
            requires
                (r2 + 1) * m * t > r * (m * kept),
                0 < m,
        ;
        assert(r2 * t * m <= r * f * t) by (nonlinear_arith)
            requires
                r2 * m <= r * f,
                0 < t,
        ;
        assert(r * (f * t) <= r * (m * kept + t)) by (nonlinear_arith)
            requires
                f * t < m * kept + t,
                0 <= r,
        ;
        assert(r2 * t * m <= r * kept * m + r * t) by (nonlinear_arith)
            requires
                r2 * t * m <= r * (f * t),
                r * (f * t) <= r * (m * kept + t),
        ;
        assert(r2 <= r) by (nonlinear_arith)
            requires
                r2 * m <= r * f,
                f <= m,
                0 < m,
                0 <= r,
        ;
    }
    assert forall|e: StakeEntry|
        #![trigger redeemable(next, e)]
        e.initial_distribution_rate == DistributionRate::NotYetRebased && redeemable(pool, e) is Ok implies {
            let v0 = redeemable(pool, e)->Ok_0 as int;
            let v1 = redeemable(next, e)->Ok_0 as int;
            let b = e.balance as int;
            &&& redeemable(next, e) is Ok
            &&& v1 <= v0
            &&& -(t * (2 * m * m + b * (m + r))) <= (v1 * t - v0 * kept) * m * m
            &&& (v1 * t - v0 * kept) * m * m <= t * (2 * m * m + b * (m + r))
        } by {
        let b = e.balance as int;
        lemma_scaled_values(b, r, r2, t, kept, m);
        assert(b * r <= u128::MAX);
    }
}

/// Burning the whole staked total succeeds, empties the pool and sets its
/// rate to zero. On the emptied pool the next rate computation divides by
/// nothing: a further burn keeps the rate, a reward is refused, and an entry
/// opened afterwards (snapshot zero) redeems exactly its balance.
pub proof fn lemma_full_burn_empties_pool(pool: PoolState, amount2: u64)
    requires
        pool.amount > 0,
    ensures
        burn_outcome(pool, pool.authority, pool.token_mint, pool.amount) == Ok::<
            PoolState,
            StakeError,
        >(PoolState { amount: 0, distribution_rate: DistributionRate::Rebased(0), ..pool }),
        burn_rate(DistributionRate::Rebased(0), amount2, 0) == Ok::<DistributionRate, StakeError>(
            DistributionRate::Rebased(0),
        ),
        distribute_rate(DistributionRate::Rebased(0), amount2, 0) == Err::<
            DistributionRate,
            StakeError,
        >(StakeError::DivisionByZero),
        distribute_outcome(
            PoolState { amount: 0, distribution_rate: DistributionRate::Rebased(0), ..pool },
            pool.authority,
            pool.token_mint,
            amount2,
        ) is Err,
        forall|e: StakeEntry|
            e.initial_distribution_rate == DistributionRate::Rebased(0) ==> #[trigger] redeemable(
                PoolState { amount: 0, distribution_rate: DistributionRate::Rebased(0), ..pool },
                e,
            ) == Ok::<u128, StakeError>(e.balance as u128),
{
    let t = pool.amount as int;
    let m = RATE_MULT as int;
    assert((t * m) / t == m) by (nonlinear_arith)
        requires
            0 < t,
            0 < m,
    ;
    assert(shrink_factor_spec(t, t) == 0);
    let emptied = PoolState { amount: 0, distribution_rate: DistributionRate::Rebased(0), ..pool };
    assert forall|e: StakeEntry|
        e.initial_distribution_rate == DistributionRate::Rebased(0) implies #[trigger] redeemable(
            emptied,
            e,
        ) == Ok::<u128, StakeError>(e.balance as u128) by {
        let b = e.balance as int;
        assert((0 + m) / 1 == m);
        assert((b * m) / m == b) by (nonlinear_arith)
            requires
                0 < m,
        ;
    }
}

/// Every `u128` product or sum of the arithmetic that would overflow is
/// reported as an arithmetic overflow, never wrapped or truncated.
pub proof fn lemma_overflow_is_reported(
    rate: u128,
    burn: u64,
    total: u64,
    balance: u64,
    snapshot: DistributionRate,
)
    ensures
        total > 0 && shrink_factor_spec(burn as int, total as int) >= 0 && rate
            * shrink_factor_spec(burn as int, total as int) > u128::MAX ==> burn_rate(
            DistributionRate::Rebased(rate),
            burn,
            total,
        ) == Err::<DistributionRate, StakeError>(StakeError::ArithmeticOverflow),
        total > 0 && rate + (burn * RATE_MULT) / (total as int) > u128::MAX ==> distribute_rate(
            DistributionRate::Rebased(rate),
            burn,
            total,
        ) == Err::<DistributionRate, StakeError>(StakeError::ArithmeticOverflow),
        snapshot is Rebased && rate + RATE_MULT > u128::MAX ==> out_amount(
            balance,
            DistributionRate::Rebased(rate),
            snapshot,
        ) == Err::<u128, StakeError>(StakeError::ArithmeticOverflow),
        snapshot == DistributionRate::NotYetRebased && balance * rate > u128::MAX ==> out_amount(
            balance,
            DistributionRate::Rebased(rate),
            snapshot,
        ) == Err::<u128, StakeError>(StakeError::ArithmeticOverflow),
{
}

} // verus!
