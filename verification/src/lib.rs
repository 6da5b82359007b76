//! Verified core of a chain-staking protocol: validation, fee and payout arithmetic,
//! and the state transitions of each instruction.
pub mod address;
pub mod errors;
pub mod constants;
pub mod state;
pub mod yield_utils;
pub mod fees;
pub mod stake_utils;
pub mod instructions;
pub mod chainstaking;
pub mod lifecycle;
