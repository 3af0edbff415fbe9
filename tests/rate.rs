use rnd_staking::errors::StakeError;
use rnd_staking::rate::{
    rebase_on_burn, rebase_on_distribute, shrink_factor, DistributionRate, RATE_MULT,
};

use DistributionRate::{NotYetRebased, Rebased};

#[test]
fn shrink_factor_values() {
    assert_eq!(shrink_factor(100, 1000), Ok(90_000_000_000));
    assert_eq!(shrink_factor(1, 3), Ok(66_666_666_667));
    assert_eq!(shrink_factor(7, 7), Ok(0));
    assert_eq!(shrink_factor(0, 7), Ok(RATE_MULT));
    assert_eq!(shrink_factor(8, 7), Err(StakeError::ArithmeticUnderflow));
}

#[test]
fn rebase_on_burn_values() {
    assert_eq!(rebase_on_burn(NotYetRebased, 100, 1000), Ok(Rebased(90_000_000_000)));
    assert_eq!(rebase_on_burn(Rebased(90_000_000_000), 90, 900), Ok(Rebased(81_000_000_000)));
    assert_eq!(rebase_on_burn(Rebased(12345), 5, 0), Ok(Rebased(12345)));
    assert_eq!(rebase_on_burn(NotYetRebased, 5, 0), Ok(NotYetRebased));
    assert_eq!(rebase_on_burn(Rebased(u128::MAX), 1, 10), Err(StakeError::ArithmeticOverflow));
    assert_eq!(rebase_on_burn(Rebased(5), 2, 1), Err(StakeError::ArithmeticUnderflow));
}

#[test]
fn rebase_on_distribute_values() {
    assert_eq!(rebase_on_distribute(NotYetRebased, 100, 1000), Ok(Rebased(110_000_000_000)));
    assert_eq!(rebase_on_distribute(Rebased(90_000_000_000), 100, 900), Ok(Rebased(101_111_111_111)));
    assert_eq!(rebase_on_distribute(Rebased(7), 1, 0), Err(StakeError::DivisionByZero));
    assert_eq!(rebase_on_distribute(Rebased(u128::MAX), 1, 1), Err(StakeError::ArithmeticOverflow));
}
