use chainstaking::errors::{ChainStakingError, ProgramFailure};
use chainstaking::fees::bps_of_truncating;
use chainstaking::instructions::compound_rewards;
use chainstaking::instructions::donate_to_chain::compute_protocol_fee;
use chainstaking::instructions::enter_chain::compute_required_entry;
use chainstaking::instructions::trigger_unstake::{compute_total_trigger_reward, transfer_program_lamports, validate_stake_pairs};
use chainstaking::instructions::withdraw_after_cooldown::transfer_from_pda;

fn custom(e: ChainStakingError) -> ProgramFailure {
    ProgramFailure::Custom(e)
}

#[test]
fn required_entry_adds_the_spread() {
    assert_eq!(compute_required_entry(10_000_000, 500), Ok(10_500_000));
    assert_eq!(compute_required_entry(10_000_000, 1_000_000), Ok(1_010_000_000));
    assert_eq!(compute_required_entry(19_999, 500), Ok(20_998));
    assert_eq!(compute_required_entry(0, 500), Ok(0));
}

#[test]
fn required_entry_overflow() {
    assert_eq!(compute_required_entry(u64::MAX, 1), Err(custom(ChainStakingError::ArithmeticOverflow)));
    assert_eq!(compute_required_entry(u64::MAX, 0), Ok(u64::MAX));
}

#[test]
fn protocol_fee_values() {
    assert_eq!(compute_protocol_fee(1_000_000, 100), Ok(10_000));
    assert_eq!(compute_protocol_fee(99, 100), Ok(0));
    assert_eq!(compute_protocol_fee(u64::MAX, 10_000), Ok(u64::MAX));
    assert_eq!(compute_protocol_fee(u64::MAX, 65_535), Err(custom(ChainStakingError::ArithmeticOverflow)));
}

#[test]
fn truncating_fee_wraps_like_a_cast() {
    assert_eq!(bps_of_truncating(1_000_000, 100), 10_000);
    let exact = (u64::MAX as u128) * 65_535 / 10_000;
    assert_eq!(bps_of_truncating(u64::MAX, 65_535), exact as u64);
    assert_ne!(bps_of_truncating(u64::MAX, 65_535) as u128, exact);
}

#[test]
fn stake_pairs_validation() {
    assert_eq!(validate_stake_pairs(0), Err(custom(ChainStakingError::InvalidTriggerUnstakeAccounts)));
    assert_eq!(validate_stake_pairs(3), Err(custom(ChainStakingError::InvalidTriggerUnstakeAccounts)));
    assert_eq!(validate_stake_pairs(12), Err(custom(ChainStakingError::TriggerUnstakeBatchTooLarge)));
    assert_eq!(validate_stake_pairs(10), Ok(5));
    assert_eq!(validate_stake_pairs(2), Ok(1));
}

#[test]
fn trigger_reward_values() {
    assert_eq!(compute_total_trigger_reward(5), Ok(50_000_000));
    assert_eq!(compute_total_trigger_reward(0), Ok(0));
    assert_eq!(compute_total_trigger_reward(usize::MAX), Err(custom(ChainStakingError::ArithmeticOverflow)));
}

#[test]
fn program_lamport_moves_keep_the_sum() {
    assert_eq!(transfer_program_lamports(100, 5, 30), Ok((70, 35)));
    assert_eq!(transfer_program_lamports(10, 5, 30), Err(custom(ChainStakingError::InsufficientTriggerRewardReserve)));
    assert_eq!(transfer_program_lamports(100, u64::MAX, 1), Err(custom(ChainStakingError::ArithmeticOverflow)));
    assert_eq!(compound_rewards::transfer_program_lamports(100, 5, 30), Ok((70, 35)));
    assert_eq!(
        compound_rewards::transfer_program_lamports(10, 5, 30),
        Err(custom(ChainStakingError::InsufficientLiquidRewards))
    );
    assert_eq!(transfer_from_pda(100, 5, 100), Ok((0, 105)));
    assert_eq!(transfer_from_pda(10, 5, 30), Err(custom(ChainStakingError::ArithmeticOverflow)));
}
