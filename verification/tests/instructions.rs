use anchor_lang::prelude::Pubkey;
use chainstaking::address::Address;
use chainstaking::errors::{ChainStakingError, ProgramFailure};
use chainstaking::instructions::compound_rewards::{self, CompoundRewards, CompoundRewardsArgs};
use chainstaking::instructions::donate_to_chain::{self, DonateToChain, DonateToChainArgs};
use chainstaking::instructions::enter_chain::{self, EnterChain, EnterChainArgs};
use chainstaking::instructions::exit_first_entrant::{self, ExitFirstEntrant};
use chainstaking::instructions::manual_break_chain::{self, ManualBreakChain};
use chainstaking::stake_utils::CpiStep;
use chainstaking::state::{
    AccountSnapshot, ChainAccount, CompoundRecord, DonationRecord, EntryAccount, GlobalConfig, StakeTracker,
    TriggerVault, ValidatorRegistry,
};

fn addr(b: u8) -> Address {
    Address::new([b; 32])
}

fn program() -> Pubkey {
    Pubkey::new_from_array([7; 32])
}

fn program_id() -> Address {
    Address::new(program().to_bytes())
}

fn chain_authority(chain_id: u8) -> Address {
    let (key, _) = Pubkey::find_program_address(&[b"chain_auth", &[chain_id]], &program());
    Address::new(key.to_bytes())
}

fn custom(e: ChainStakingError) -> ProgramFailure {
    ProgramFailure::Custom(e)
}

fn account(key: Address, lamports: u64) -> AccountSnapshot {
    AccountSnapshot { key, owner: Address::zero(), lamports, is_signer: true, is_writable: true, executable: false, data_len: 0 }
}

fn program_account(key: [u8; 32]) -> AccountSnapshot {
    AccountSnapshot { executable: true, ..account(Address::new(key), 1) }
}

fn stake_program() -> AccountSnapshot {
    program_account(solana_stake_interface::program::ID.to_bytes())
}

fn clock() -> AccountSnapshot {
    account(Address::new(anchor_lang::solana_program::sysvar::clock::ID.to_bytes()), 1)
}

fn stake_history() -> AccountSnapshot {
    account(Address::new(anchor_lang::solana_program::sysvar::stake_history::ID.to_bytes()), 1)
}

#[allow(deprecated)]
fn stake_config() -> AccountSnapshot {
    account(Address::new(solana_stake_interface::config::ID.to_bytes()), 1)
}

fn config() -> GlobalConfig {
    GlobalConfig {
        authority: addr(90),
        is_initialized: true,
        total_chains: 10,
        fee_bps: 100,
        flat_fee_lamports: 10_000_000,
        withdrawal_fee_bps: 100,
        cooldown_seconds: 300,
        unstake_batch_size: 5,
        trigger_reward_lamports: 10_000_000,
        bump: 255,
    }
}

fn fresh_chain(chain_id: u8) -> ChainAccount {
    ChainAccount {
        chain_id,
        spread_bps: 500,
        entry_count: 0,
        current_round: 0,
        last_entry_amount: 0,
        last_entry_timestamp: 0,
        last_entry_authority: Address::zero(),
        total_staked_lamports: 0,
        frontend_estimated_yield_pool_lamports: 0,
        donation_pot_lamports: 0,
        donation_count: 0,
        is_broken: false,
        break_type: 0,
        bump: 250,
        chain_authority_bump: 249,
        round_settled: false,
    }
}

fn blank_entry() -> EntryAccount {
    EntryAccount {
        chain_id: 0,
        round: 0,
        position: 0,
        staker: Address::zero(),
        principal_lamports: 0,
        stake_account: Address::zero(),
        validator: Address::zero(),
        is_unstaked: false,
        is_withdrawn: false,
        payout_lamports: 0,
        bump: 0,
    }
}

fn blank_tracker() -> StakeTracker {
    StakeTracker {
        chain_id: 0,
        round: 0,
        stake_account: Address::zero(),
        principal_lamports: 0,
        source_type: 0,
        source_index: 0,
        is_active: false,
        is_deactivated: false,
        is_withdrawn: false,
        bump: 0,
    }
}

fn enter_ctx(chain: ChainAccount) -> EnterChain {
    EnterChain {
        staker: account(addr(1), 1_000_000_000),
        global_config: config(),
        validator_registry: ValidatorRegistry { validator_list: vec![addr(50), addr(51)], bump: 254 },
        chain_account: chain,
        trigger_vault: TriggerVault { chain_id: 0, reserve_lamports: 0, bump: 253 },
        trigger_vault_key: addr(60),
        entry_account: blank_entry(),
        entry_account_bump: 11,
        stake_tracker: blank_tracker(),
        stake_tracker_bump: 12,
        stake_account: account(addr(2), 0),
        chain_authority: chain_authority(0),
        validator_vote: addr(51),
        fee_receiver: addr(90),
        clock: clock(),
        clock_unix_timestamp: 1_000,
        system_program: program_account([0; 32]),
        stake_program: stake_program(),
        stake_history: stake_history(),
        stake_config: stake_config(),
        stake_minimum_balance: 2_282_880,
    }
}

#[test]
fn first_entry_leads_the_chain() {
    let mut ctx = enter_ctx(fresh_chain(0));
    let steps = enter_chain::handler(&mut ctx, &program_id(), &EnterChainArgs { amount: 10_000_000, chain_id: 0 }).unwrap();
    assert_eq!(ctx.chain_account.entry_count, 1);
    assert_eq!(ctx.chain_account.last_entry_amount, 10_000_000);
    assert_eq!(ctx.chain_account.last_entry_timestamp, 1_000);
    assert_eq!(ctx.chain_account.last_entry_authority, addr(1));
    assert_eq!(ctx.chain_account.total_staked_lamports, 10_000_000);
    assert_eq!(ctx.entry_account.position, 0);
    assert_eq!(ctx.entry_account.principal_lamports, 10_000_000);
    assert_eq!(ctx.entry_account.bump, 11);
    assert_eq!(ctx.stake_tracker.source_index, 0);
    assert!(ctx.stake_tracker.is_active);
    assert_eq!(ctx.trigger_vault.reserve_lamports, 10_000_000);
    assert_eq!(
        steps,
        vec![
            CpiStep::Transfer { from: addr(1), to: addr(90), lamports: 100_000 },
            CpiStep::Transfer { from: addr(1), to: addr(60), lamports: 10_000_000 },
            CpiStep::CreateStakeAccount { payer: addr(1), stake_account: addr(2), lamports: 10_000_000 },
            CpiStep::InitializeStakeAccount { stake_account: addr(2), authority: chain_authority(0) },
            CpiStep::DelegateStake { stake_account: addr(2), validator_vote: addr(51), chain_id: 0, chain_authority_bump: 249 },
        ]
    );
}

#[test]
fn next_entry_must_exceed_the_spread() {
    let mut chain = fresh_chain(0);
    chain.entry_count = 1;
    chain.last_entry_amount = 10_000_000;
    chain.last_entry_authority = addr(1);
    let mut ctx = enter_ctx(chain);
    let before = ctx.chain_account;
    let r = enter_chain::handler(&mut ctx, &program_id(), &EnterChainArgs { amount: 10_499_999, chain_id: 0 });
    assert_eq!(r, Err(custom(ChainStakingError::InsufficientEntryAmount)));
    assert_eq!(ctx.chain_account.entry_count, before.entry_count);
    let r = enter_chain::handler(&mut ctx, &program_id(), &EnterChainArgs { amount: 10_500_000, chain_id: 0 });
    assert!(r.is_ok());
    assert_eq!(ctx.entry_account.position, 1);
    assert_eq!(ctx.chain_account.entry_count, 2);
}

#[test]
fn entry_refusals() {
    let args = EnterChainArgs { amount: 10_000_000, chain_id: 0 };
    let mut broken = fresh_chain(0);
    broken.is_broken = true;
    broken.break_type = 1;
    assert_eq!(enter_chain::handler(&mut enter_ctx(broken), &program_id(), &args), Err(custom(ChainStakingError::ChainIsBroken)));

    let mut ctx = enter_ctx(fresh_chain(0));
    ctx.validator_vote = addr(52);
    assert_eq!(enter_chain::handler(&mut ctx, &program_id(), &args), Err(custom(ChainStakingError::InvalidValidator)));

    let mut ctx = enter_ctx(fresh_chain(0));
    ctx.fee_receiver = addr(91);
    assert_eq!(enter_chain::handler(&mut ctx, &program_id(), &args), Err(custom(ChainStakingError::InvalidFeeReceiver)));

    let mut ctx = enter_ctx(fresh_chain(0));
    ctx.chain_authority = chain_authority(1);
    assert_eq!(enter_chain::handler(&mut ctx, &program_id(), &args), Err(custom(ChainStakingError::InvalidChainAuthority)));

    // The stake account's checks come after the fee transfers: the entry is refused
    // once those are made, and the accounts stay as they were.
    let mut ctx = enter_ctx(fresh_chain(0));
    ctx.stake_minimum_balance = 20_000_000;
    let steps = enter_chain::handler(&mut ctx, &program_id(), &args).unwrap();
    assert_eq!(steps.len(), 3);
    assert!(matches!(steps[0], CpiStep::Transfer { .. }) && matches!(steps[1], CpiStep::Transfer { .. }));
    assert_eq!(steps[2], CpiStep::Fail { error: ProgramFailure::InsufficientFunds });
    assert_eq!(ctx.chain_account.entry_count, 0);

    let mut ctx = enter_ctx(fresh_chain(0));
    ctx.stake_program.executable = false;
    let steps = enter_chain::handler(&mut ctx, &program_id(), &args).unwrap();
    assert_eq!(steps.len(), 4);
    assert!(matches!(steps[2], CpiStep::CreateStakeAccount { .. }));
    assert_eq!(steps[3], CpiStep::Fail { error: ProgramFailure::IncorrectProgramId });
    assert_eq!(ctx.chain_account.entry_count, 0);

    let mut ctx = enter_ctx(fresh_chain(0));
    ctx.trigger_vault.reserve_lamports = u64::MAX;
    assert_eq!(enter_chain::handler(&mut ctx, &program_id(), &args), Err(custom(ChainStakingError::ArithmeticOverflow)));
}

fn donate_ctx(chain: ChainAccount) -> DonateToChain {
    DonateToChain {
        donor: account(addr(3), 1_000_000_000),
        global_config: config(),
        validator_registry: ValidatorRegistry { validator_list: vec![addr(50)], bump: 254 },
        chain_account: chain,
        trigger_vault: TriggerVault { chain_id: 0, reserve_lamports: 5, bump: 253 },
        trigger_vault_key: addr(60),
        donation_record: DonationRecord {
            chain_id: 0,
            round: 0,
            donation_index: 0,
            donor: Address::zero(),
            amount_lamports: 0,
            stake_account: Address::zero(),
            validator: Address::zero(),
            bump: 0,
        },
        donation_record_bump: 21,
        stake_tracker: blank_tracker(),
        stake_tracker_bump: 22,
        stake_account: account(addr(4), 0),
        chain_authority: chain_authority(0),
        validator_vote: addr(50),
        fee_receiver: addr(90),
        clock: clock(),
        system_program: program_account([0; 32]),
        stake_program: stake_program(),
        stake_history: stake_history(),
        stake_config: stake_config(),
        stake_minimum_balance: 2_282_880,
    }
}

fn led_chain() -> ChainAccount {
    let mut chain = fresh_chain(0);
    chain.entry_count = 1;
    chain.last_entry_amount = 10_000_000;
    chain.last_entry_authority = addr(1);
    chain.last_entry_timestamp = 1_000;
    chain.total_staked_lamports = 10_000_000;
    chain
}

#[test]
fn donations_fill_the_pot_until_the_community_breaks_the_chain() {
    let mut ctx = donate_ctx(led_chain());
    let steps = donate_to_chain::handler(&mut ctx, &program_id(), &DonateToChainArgs { amount: 4_000_000, chain_id: 0, donation_index: 0 }).unwrap();
    assert_eq!(steps.len(), 5);
    assert_eq!(steps[0], CpiStep::Transfer { from: addr(3), to: addr(90), lamports: 40_000 });
    assert_eq!(ctx.chain_account.donation_pot_lamports, 4_000_000);
    assert_eq!(ctx.chain_account.donation_count, 1);
    assert!(!ctx.chain_account.is_broken);
    assert_eq!(ctx.chain_account.total_staked_lamports, 14_000_000);
    assert_eq!(ctx.trigger_vault.reserve_lamports, 10_000_005);
    assert_eq!(ctx.donation_record.donation_index, 0);
    assert_eq!(ctx.stake_tracker.source_type, 1);

    let r = donate_to_chain::handler(&mut ctx, &program_id(), &DonateToChainArgs { amount: 6_000_000, chain_id: 0, donation_index: 0 });
    assert_eq!(r, Err(custom(ChainStakingError::InvalidDonationIndex)));
    let r = donate_to_chain::handler(&mut ctx, &program_id(), &DonateToChainArgs { amount: 6_000_000, chain_id: 0, donation_index: 2 });
    assert_eq!(r, Err(custom(ChainStakingError::InvalidDonationIndex)));
    donate_to_chain::handler(&mut ctx, &program_id(), &DonateToChainArgs { amount: 6_000_000, chain_id: 0, donation_index: 1 }).unwrap();
    assert_eq!(ctx.chain_account.donation_pot_lamports, 10_000_000);
    assert!(ctx.chain_account.is_broken);
    assert_eq!(ctx.chain_account.break_type, 2);
    let r = donate_to_chain::handler(&mut ctx, &program_id(), &DonateToChainArgs { amount: 1, chain_id: 0, donation_index: 2 });
    assert_eq!(r, Err(custom(ChainStakingError::ChainIsBroken)));
    // The broken chain refuses entries too, leaving the chain as it was.
    let mut entry = enter_ctx(ctx.chain_account);
    let args = EnterChainArgs { amount: 1_000_000_000, chain_id: 0 };
    assert_eq!(enter_chain::handler(&mut entry, &program_id(), &args), Err(custom(ChainStakingError::ChainIsBroken)));
    assert_eq!(entry.chain_account.entry_count, ctx.chain_account.entry_count);
}

#[test]
fn donation_refusals() {
    let args = DonateToChainArgs { amount: 1_000, chain_id: 0, donation_index: 0 };
    let zero = DonateToChainArgs { amount: 0, ..args };
    assert_eq!(donate_to_chain::handler(&mut donate_ctx(led_chain()), &program_id(), &zero), Err(custom(ChainStakingError::InvalidDonationAmount)));
    assert_eq!(
        donate_to_chain::handler(&mut donate_ctx(fresh_chain(0)), &program_id(), &args),
        Err(custom(ChainStakingError::DonationRequiresActiveLeader))
    );
}

fn break_ctx(breaker: Address, now: i64) -> ManualBreakChain {
    let mut chain = led_chain();
    chain.entry_count = 2;
    chain.frontend_estimated_yield_pool_lamports = 10_000;
    chain.donation_pot_lamports = 7;
    ManualBreakChain { breaker, global_config: config(), chain_account: chain, clock_unix_timestamp: now }
}

#[test]
fn leader_breaks_after_the_cooldown() {
    let mut ctx = break_ctx(addr(1), 1_300);
    manual_break_chain::handler(&mut ctx, 0).unwrap();
    assert!(ctx.chain_account.is_broken);
    assert_eq!(ctx.chain_account.break_type, 1);
    assert_eq!(ctx.chain_account.frontend_estimated_yield_pool_lamports, 9_900);
    assert_eq!(ctx.chain_account.donation_pot_lamports, 107);
    assert_eq!(ctx.chain_account.current_round, 0);
}

#[test]
fn manual_break_refusals() {
    assert_eq!(manual_break_chain::handler(&mut break_ctx(addr(1), 1_299), 0), Err(custom(ChainStakingError::CooldownNotExpired)));
    assert_eq!(manual_break_chain::handler(&mut break_ctx(addr(2), 1_300), 0), Err(custom(ChainStakingError::ManualBreakUnauthorized)));
    let mut single = break_ctx(addr(1), 1_300);
    single.chain_account.entry_count = 1;
    assert_eq!(manual_break_chain::handler(&mut single, 0), Err(custom(ChainStakingError::ManualBreakRequiresMultipleEntries)));
    let mut late = break_ctx(addr(1), i64::MAX);
    late.chain_account.last_entry_timestamp = i64::MAX;
    assert_eq!(manual_break_chain::handler(&mut late, 0), Err(custom(ChainStakingError::ArithmeticOverflow)));
}

fn exit_ctx() -> ExitFirstEntrant {
    let mut entry = blank_entry();
    entry.staker = addr(1);
    entry.stake_account = addr(2);
    entry.principal_lamports = 10_000_000;
    let mut tracker = blank_tracker();
    tracker.stake_account = addr(2);
    tracker.is_active = true;
    ExitFirstEntrant {
        staker: account(addr(1), 5),
        chain_account: led_chain(),
        entry_account: entry,
        stake_tracker: tracker,
        stake_account: account(addr(2), 10_000_000),
        chain_authority: chain_authority(0),
        clock: clock(),
        stake_history: stake_history(),
        stake_program: stake_program(),
    }
}

#[test]
fn sole_entrant_exits_in_two_steps() {
    let mut ctx = exit_ctx();
    let steps = exit_first_entrant::handler(&mut ctx, &program_id(), 0).unwrap();
    assert_eq!(steps, vec![CpiStep::DeactivateStake { stake_account: addr(2), chain_id: 0, chain_authority_bump: 249 }]);
    assert!(ctx.stake_tracker.is_deactivated && !ctx.stake_tracker.is_active && ctx.entry_account.is_unstaked);
    assert_eq!(ctx.chain_account.entry_count, 1);
    let steps = exit_first_entrant::handler(&mut ctx, &program_id(), 0).unwrap();
    assert_eq!(
        steps,
        vec![CpiStep::WithdrawStake { stake_account: addr(2), recipient: addr(1), chain_id: 0, chain_authority_bump: 249 }]
    );
    assert!(ctx.stake_tracker.is_withdrawn && ctx.entry_account.is_withdrawn);
    assert_eq!(ctx.chain_account.entry_count, 0);
    assert_eq!(ctx.chain_account.last_entry_authority, Address::zero());
    assert_eq!(ctx.chain_account.total_staked_lamports, 0);
    assert_eq!(exit_first_entrant::handler(&mut ctx, &program_id(), 0), Err(custom(ChainStakingError::ExitNotAllowed)));
}

#[test]
fn exit_refusals() {
    let mut ctx = exit_ctx();
    ctx.staker.key = addr(9);
    assert_eq!(exit_first_entrant::handler(&mut ctx, &program_id(), 0), Err(custom(ChainStakingError::ExitWrongStaker)));
    let mut ctx = exit_ctx();
    ctx.stake_account.key = addr(9);
    assert_eq!(exit_first_entrant::handler(&mut ctx, &program_id(), 0), Err(ProgramFailure::RequireKeysEqViolated));
    let mut ctx = exit_ctx();
    ctx.stake_tracker.is_withdrawn = true;
    assert_eq!(exit_first_entrant::handler(&mut ctx, &program_id(), 0), Err(custom(ChainStakingError::AlreadyWithdrawn)));
    let mut ctx = exit_ctx();
    assert_eq!(exit_first_entrant::handler(&mut ctx, &program_id(), 1), Err(custom(ChainStakingError::InvalidChainAuthority)));
}

fn compound_ctx() -> CompoundRewards {
    CompoundRewards {
        caller: account(addr(5), 100_000_000),
        validator_registry: ValidatorRegistry { validator_list: vec![addr(50)], bump: 254 },
        chain_account: led_chain(),
        chain_account_info: account(addr(70), 1_500_000 + 8_000_000),
        chain_account_minimum_balance: 1_500_000,
        compound_record: CompoundRecord {
            chain_id: 0,
            round: 0,
            compound_index: 0,
            amount_lamports: 0,
            stake_account: Address::zero(),
            validator: Address::zero(),
            bump: 0,
        },
        compound_record_bump: 31,
        stake_tracker: blank_tracker(),
        stake_tracker_bump: 32,
        stake_account: account(addr(6), 0),
        chain_authority: chain_authority(0),
        validator_vote: addr(50),
        clock: clock(),
        system_program: program_account([0; 32]),
        stake_program: stake_program(),
        stake_history: stake_history(),
        stake_config: stake_config(),
        stake_minimum_balance: 2_282_880,
    }
}

#[test]
fn compounding_restakes_liquid_rewards() {
    let mut ctx = compound_ctx();
    let args = CompoundRewardsArgs { amount: 8_000_000, chain_id: 0, compound_index: 3 };
    let steps = compound_rewards::handler(&mut ctx, &program_id(), &args).unwrap();
    assert_eq!(steps[0], CpiStep::CreateStakeAccount { payer: addr(5), stake_account: addr(6), lamports: 8_000_000 });
    assert_eq!(steps[1], CpiStep::MoveLamports { from: addr(70), to: addr(5), lamports: 8_000_000 });
    assert_eq!(steps.len(), 4);
    assert_eq!(ctx.chain_account.total_staked_lamports, 18_000_000);
    assert_eq!(ctx.compound_record.compound_index, 3);
    assert_eq!(ctx.stake_tracker.source_type, 2);
    assert_eq!(ctx.stake_tracker.source_index, 3);

    let mut ctx = compound_ctx();
    let too_much = CompoundRewardsArgs { amount: 8_000_001, ..args };
    assert_eq!(compound_rewards::handler(&mut ctx, &program_id(), &too_much), Err(custom(ChainStakingError::InsufficientLiquidRewards)));
    let zero = CompoundRewardsArgs { amount: 0, ..args };
    assert_eq!(compound_rewards::handler(&mut ctx, &program_id(), &zero), Err(custom(ChainStakingError::InvalidCompoundAmount)));

    // The initialization check comes after the stake account is created and funded.
    let mut ctx = compound_ctx();
    ctx.stake_program.executable = false;
    let steps = compound_rewards::handler(&mut ctx, &program_id(), &args).unwrap();
    assert_eq!(steps.len(), 3);
    assert_eq!(steps[2], CpiStep::Fail { error: ProgramFailure::IncorrectProgramId });
    assert_eq!(ctx.chain_account.total_staked_lamports, 10_000_000);
    // The stake overflow is checked last, after the delegation.
    let mut ctx = compound_ctx();
    ctx.chain_account.total_staked_lamports = u64::MAX;
    let steps = compound_rewards::handler(&mut ctx, &program_id(), &args).unwrap();
    assert_eq!(steps.len(), 5);
    assert_eq!(steps[4], CpiStep::Fail { error: custom(ChainStakingError::ArithmeticOverflow) });
}
