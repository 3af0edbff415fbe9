//! The operations of the pool. Each one checks its inputs, computes the new
//! accounting state and commits it whole, or leaves everything unchanged and
//! returns the reason.
pub mod burn;
pub mod distribute;
pub mod init_pool;
pub mod init_stake_entry;
pub mod stake;
pub mod unstake;
