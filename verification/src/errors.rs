//! Errors that the protocol's instructions report.
use vstd::prelude::*;

verus! {

/// The protocol's own error codes.
#[derive(Clone, Copy, Debug, PartialEq, Eq, Structural)]
pub enum ChainStakingError {
    /// At least one validator must be provided during protocol initialization.
    EmptyValidatorList,
    /// ValidatorRegistry cannot store more than 16 validators.
    TooManyValidators,
    /// ValidatorRegistry contains a duplicate validator pubkey.
    DuplicateValidator,
    /// initialize_protocol expects 20 remaining accounts: 10 TriggerVault PDAs then 10 ChainAccount PDAs.
    InvalidRemainingAccountsLen,
    /// The provided TriggerVault account does not match the expected PDA for its chain.
    InvalidTriggerVaultPda,
    /// The provided ChainAccount does not match the expected PDA for its chain.
    InvalidChainAccountPda,
    /// The PDA account must be writable.
    PdaAccountNotWritable,
    /// The PDA account is already initialized or not system-owned.
    PdaAccountAlreadyInitialized,
    /// Chain is currently broken - no new entries allowed until the next round.
    ChainIsBroken,
    /// Entry amount is below the required minimum (spread or minimum entry).
    InsufficientEntryAmount,
    /// Validator vote account is not in the approved ValidatorRegistry list.
    InvalidValidator,
    /// Fee receiver does not match GlobalConfig.authority.
    InvalidFeeReceiver,
    /// Chain authority PDA does not match the expected derivation.
    InvalidChainAuthority,
    /// TriggerVault PDA does not match the expected derivation for this chain.
    InvalidTriggerVault,
    /// exit_first_entrant requires exactly 1 entry on the chain.
    ExitNotAllowed,
    /// Caller does not match the entry's staker.
    ExitWrongStaker,
    /// Arithmetic overflow in checked math operation.
    ArithmeticOverflow,
    /// Stake account has already been withdrawn.
    AlreadyWithdrawn,
    /// Donation amount must be greater than zero.
    InvalidDonationAmount,
    /// Donations require an active chain leader.
    DonationRequiresActiveLeader,
    /// Donation index does not match the chain's next donation slot.
    InvalidDonationIndex,
    /// Compound amount must be greater than zero.
    InvalidCompoundAmount,
    /// Not enough liquid rewards are available to compound.
    InsufficientLiquidRewards,
    /// Break type is invalid for payout computation.
    InvalidBreakType,
    /// At least two entries are required to compute payouts.
    InsufficientEntriesForPayouts,
    /// Entry payout inputs must be ordered by contiguous positions.
    PayoutEntriesOutOfOrder,
    /// Payout computation received more entries than allowed in one call.
    TooManyPayoutEntries,
    /// Yield accounting requires the same number of stake trackers and stake accounts.
    MismatchedStakeBalanceCount,
    /// The payout principal pool must be non-zero when distributing pooled rewards.
    InvalidPayoutPrincipalPool,
    /// Only the current chain leader (last_entry_authority) can trigger a manual break.
    ManualBreakUnauthorized,
    /// Manual break requires at least 2 entries - single entrant must use exit_first_entrant.
    ManualBreakRequiresMultipleEntries,
    /// Cooldown period has not expired yet.
    CooldownNotExpired,
    /// trigger_unstake requires a broken chain.
    ChainNotBroken,
    /// trigger_unstake expects 1 to 5 remaining account pairs ordered as [stake_tracker, stake_account].
    InvalidTriggerUnstakeAccounts,
    /// trigger_unstake cannot process more stake accounts than the configured batch size.
    TriggerUnstakeBatchTooLarge,
    /// The provided StakeTracker belongs to a different chain.
    StakeTrackerChainMismatch,
    /// The provided native stake account does not match the StakeTracker record.
    StakeTrackerStakeAccountMismatch,
    /// The provided stake account is not owned by the native Stake Program.
    InvalidStakeAccountOwner,
    /// Stake account has already been deactivated.
    StakeAlreadyDeactivated,
    /// TriggerVault does not have enough reserved lamports to pay the trigger reward.
    InsufficientTriggerRewardReserve,
    /// Stake account has not been deactivated yet — call trigger_unstake first.
    StakeNotDeactivated,
    /// The provided StakeTracker belongs to a different round.
    StakeTrackerRoundMismatch,
    /// compute_payouts: the chain must be broken before payouts can be computed.
    PayoutsRequireBrokenChain,
    /// compute_payouts: the round has already been settled — payouts already computed.
    RoundAlreadySettled,
    /// compute_payouts: remaining_accounts must contain entry_account + stake_account pairs.
    InvalidComputePayoutsAccounts,
    /// compute_payouts: the entry account does not belong to the current chain/round.
    PayoutEntryMismatch,
    /// withdraw_after_cooldown: round payouts have not been settled yet — call compute_payouts first.
    RoundNotSettled,
}

/// Why an instruction failed: one of the protocol's own errors, a failed key
/// comparison without a dedicated error, or one of the runtime's generic errors.
#[derive(Clone, Copy, Debug, PartialEq, Eq, Structural)]
pub enum ProgramFailure {
    Custom(ChainStakingError),
    /// Two keys that had to match did not, and no protocol error names the pair.
    RequireKeysEqViolated,
    IncorrectProgramId,
    InvalidArgument,
    MissingRequiredSignature,
    InsufficientFunds,
}

/// Shorthand for a protocol error.
pub open spec fn custom(e: ChainStakingError) -> ProgramFailure {
    ProgramFailure::Custom(e)
}

} // verus!
