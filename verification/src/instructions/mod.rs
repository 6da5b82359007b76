//! The protocol's instructions: for each, what it reads, the checks it makes, the
//! state it writes and the calls it leaves to be made.
pub mod enter_chain;
pub mod donate_to_chain;
pub mod manual_break_chain;
pub mod exit_first_entrant;
pub mod compound_rewards;
pub mod trigger_unstake;
pub mod compute_payouts;
pub mod withdraw_after_cooldown;
pub mod initialize_protocol;
