use vstd::prelude::*;

verus! {

/// Every reason for which an operation of the pool is refused. An operation
/// that returns one of these leaves the pool and the entry as they were.
#[derive(Debug, Clone, Copy, PartialEq, Eq, Structural)]
pub enum StakeError {
    /// The signer is not the authority recorded in the pool.
    InvalidProgramAuthority,
    /// The token mint does not match the pool's mint.
    InvalidMint,
    /// The stake entry belongs to another user.
    InvalidUser,
    /// An amount of zero was given where a positive amount is required.
    InvalidAmount,
    /// A checked addition or multiplication exceeded its integer type.
    ArithmeticOverflow,
    /// A checked subtraction went below zero.
    ArithmeticUnderflow,
    /// A division had a zero divisor.
    DivisionByZero,
}

} // verus!
