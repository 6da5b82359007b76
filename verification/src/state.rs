//! The protocol's accounts, as plain values.
use crate::address::{Address, zero_address};
use crate::constants::{BREAK_TYPE_COMMUNITY, BREAK_TYPE_NONE};
use vstd::prelude::*;

verus! {

/// Protocol-wide configuration.
#[derive(Clone, Copy, Debug)]
pub struct GlobalConfig {
    pub authority: Address,
    pub is_initialized: bool,
    pub total_chains: u8,
    pub fee_bps: u16,
    pub flat_fee_lamports: u64,
    pub withdrawal_fee_bps: u16,
    pub cooldown_seconds: i64,
    pub unstake_batch_size: u8,
    pub trigger_reward_lamports: u64,
    pub bump: u8,
}

impl GlobalConfig {
    pub const INIT_SPACE: usize = 32 + 1 + 1 + 2 + 8 + 2 + 8 + 1 + 8 + 1;
    pub const SPACE: usize = 8 + Self::INIT_SPACE;
}

/// The validators that stakes may be delegated to.
#[derive(Clone, Debug)]
pub struct ValidatorRegistry {
    /// No separate count is kept: the count is the list's length.
    pub validator_list: Vec<Address>,
    pub bump: u8,
}

impl ValidatorRegistry {
    /// The registry lists `validator`.
    pub open spec fn lists(self, validator: Seq<u8>) -> bool {
        exists|i: int| 0 <= i < self.validator_list@.len() && #[trigger] self.validator_list@[i]@ == validator
    }

    /// Whether the registry lists `validator`.
    pub fn contains(&self, validator: &Address) -> (r: bool)
        ensures
            r == self.lists(validator@),
    {
        validator.is_in(&self.validator_list)
    }

    /// 4 (length prefix) + 16 * 32 (addresses) + 1 (bump).
    pub const INIT_SPACE: usize = 4 + 16 * 32 + 1;
    pub const SPACE: usize = 8 + Self::INIT_SPACE;
}

/// The reserve from which a chain pays those who trigger its unstaking.
#[derive(Clone, Copy, Debug)]
pub struct TriggerVault {
    pub chain_id: u8,
    /// Logical reserve tracked by the protocol; not the account's lamport balance.
    pub reserve_lamports: u64,
    pub bump: u8,
}

impl TriggerVault {
    pub const INIT_SPACE: usize = 1 + 8 + 1;
    pub const SPACE: usize = 8 + Self::INIT_SPACE;
}

/// The state of one chain.
#[derive(Clone, Copy, Debug)]
pub struct ChainAccount {
    pub chain_id: u8,
    /// Up to 1_000_000 basis points, hence a `u32`.
    pub spread_bps: u32,
    pub entry_count: u32,
    /// Starts at 0; entries are created in the current round, which advances once
    /// every stake of a broken chain has been withdrawn.
    pub current_round: u32,
    pub last_entry_amount: u64,
    pub last_entry_timestamp: i64,
    /// The zero address while no entry has been made.
    pub last_entry_authority: Address,
    pub total_staked_lamports: u64,
    pub frontend_estimated_yield_pool_lamports: u64,
    pub donation_pot_lamports: u64,
    /// The next donation index of the round.
    pub donation_count: u16,
    pub is_broken: bool,
    /// 0 = none, 1 = manual, 2 = community.
    pub break_type: u8,
    pub bump: u8,
    /// Bump of the chain authority, kept to avoid deriving it again when signing.
    pub chain_authority_bump: u8,
    /// Set once the payouts of every entry of the round have been computed.
    pub round_settled: bool,
}

impl ChainAccount {
    pub const INIT_SPACE: usize = 1 + 4 + 4 + 4 + 8 + 8 + 32 + 8 + 8 + 8 + 2 + 1 + 1 + 1 + 1 + 1;
    pub const SPACE: usize = 8 + Self::INIT_SPACE;

    /// What every instruction keeps of a chain: it is broken exactly when a break
    /// type is recorded, that type is one of the three known ones, only a broken
    /// round is ever settled, and a chain without entries has no leader.
    pub open spec fn well_formed(self) -> bool {
        &&& self.is_broken <==> self.break_type != BREAK_TYPE_NONE
        &&& self.break_type <= BREAK_TYPE_COMMUNITY
        &&& self.round_settled ==> self.is_broken
        &&& self.entry_count == 0 ==> {
            &&& self.last_entry_amount == 0
            &&& self.last_entry_timestamp == 0
            &&& self.last_entry_authority@ == zero_address()
        }
    }
}

/// One entry of a chain.
#[derive(Clone, Copy, Debug)]
pub struct EntryAccount {
    pub chain_id: u8,
    pub round: u32,
    pub position: u32,
    pub staker: Address,
    pub principal_lamports: u64,
    pub stake_account: Address,
    pub validator: Address,
    pub is_unstaked: bool,
    pub is_withdrawn: bool,
    pub payout_lamports: u64,
    pub bump: u8,
}

impl EntryAccount {
    pub const INIT_SPACE: usize = 1 + 4 + 4 + 32 + 8 + 32 + 32 + 1 + 1 + 8 + 1;
    pub const SPACE: usize = 8 + Self::INIT_SPACE;
}

/// The record of one native stake account held for a chain.
#[derive(Clone, Copy, Debug)]
pub struct StakeTracker {
    pub chain_id: u8,
    pub round: u32,
    pub stake_account: Address,
    pub principal_lamports: u64,
    pub source_type: u8,
    pub source_index: u32,
    pub is_active: bool,
    pub is_deactivated: bool,
    pub is_withdrawn: bool,
    pub bump: u8,
}

impl StakeTracker {
    pub const INIT_SPACE: usize = 1 + 4 + 32 + 8 + 1 + 4 + 1 + 1 + 1 + 1;
    pub const SPACE: usize = 8 + Self::INIT_SPACE;
}

/// One donation to a chain's pot.
#[derive(Clone, Copy, Debug)]
pub struct DonationRecord {
    pub chain_id: u8,
    pub round: u32,
    pub donation_index: u16,
    pub donor: Address,
    pub amount_lamports: u64,
    pub stake_account: Address,
    pub validator: Address,
    pub bump: u8,
}

impl DonationRecord {
    pub const INIT_SPACE: usize = 1 + 4 + 2 + 32 + 8 + 32 + 32 + 1;
    pub const SPACE: usize = 8 + Self::INIT_SPACE;
}

/// One restaking of a chain's liquid rewards.
#[derive(Clone, Copy, Debug)]
pub struct CompoundRecord {
    pub chain_id: u8,
    pub round: u32,
    pub compound_index: u16,
    pub amount_lamports: u64,
    pub stake_account: Address,
    pub validator: Address,
    pub bump: u8,
}

impl CompoundRecord {
    pub const INIT_SPACE: usize = 1 + 4 + 2 + 8 + 32 + 32 + 1;
    pub const SPACE: usize = 8 + Self::INIT_SPACE;
}

/// What an instruction reads of an account that it does not deserialize.
#[derive(Clone, Copy, Debug)]
pub struct AccountSnapshot {
    pub key: Address,
    pub owner: Address,
    pub lamports: u64,
    pub is_signer: bool,
    pub is_writable: bool,
    pub executable: bool,
    pub data_len: usize,
}

} // verus!
