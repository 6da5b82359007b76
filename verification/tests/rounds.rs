use anchor_lang::prelude::Pubkey;
use chainstaking::address::Address;
use chainstaking::errors::{ChainStakingError, ProgramFailure};
use chainstaking::instructions::compute_payouts::{self, ComputePayouts, ComputePayoutsArgs, PayoutTriplet};
use chainstaking::instructions::initialize_protocol::{self, InitializeProtocol, InitializeProtocolArgs};
use chainstaking::instructions::trigger_unstake::{self, StakePair, TriggerUnstake};
use chainstaking::instructions::withdraw_after_cooldown::{self, WithdrawAfterCooldown, WithdrawAfterCooldownArgs};
use chainstaking::stake_utils::{CpiStep, ProgramAccountKind};
use chainstaking::state::{
    AccountSnapshot, ChainAccount, EntryAccount, GlobalConfig, StakeTracker, TriggerVault, ValidatorRegistry,
};

fn addr(b: u8) -> Address {
    Address::new([b; 32])
}

fn program() -> Pubkey {
    Pubkey::new_from_array([7; 32])
}

fn program_id() -> Address {
    Address::new(program().to_bytes())
}

fn derive(seeds: &[&[u8]]) -> (Address, u8) {
    let (key, bump) = Pubkey::find_program_address(seeds, &program());
    (Address::new(key.to_bytes()), bump)
}

fn custom(e: ChainStakingError) -> ProgramFailure {
    ProgramFailure::Custom(e)
}

fn account(key: Address, lamports: u64) -> AccountSnapshot {
    AccountSnapshot { key, owner: Address::zero(), lamports, is_signer: false, is_writable: true, executable: false, data_len: 0 }
}

fn stake_program() -> AccountSnapshot {
    AccountSnapshot { executable: true, ..account(Address::new(solana_stake_interface::program::ID.to_bytes()), 1) }
}

fn clock() -> AccountSnapshot {
    account(Address::new(anchor_lang::solana_program::sysvar::clock::ID.to_bytes()), 1)
}

fn stake_history() -> AccountSnapshot {
    account(Address::new(anchor_lang::solana_program::sysvar::stake_history::ID.to_bytes()), 1)
}

fn config() -> GlobalConfig {
    GlobalConfig {
        authority: addr(90),
        is_initialized: true,
        total_chains: 10,
        fee_bps: 100,
        flat_fee_lamports: 10_000_000,
        withdrawal_fee_bps: 100,
        cooldown_seconds: 300,
        unstake_batch_size: 5,
        trigger_reward_lamports: 10_000_000,
        bump: 255,
    }
}

/// Asserts that the handler made `calls` calls and was then refused with `error`.
fn refused_after(r: Result<Vec<CpiStep>, ProgramFailure>, calls: usize, error: ProgramFailure) -> Vec<CpiStep> {
    let steps = r.unwrap();
    assert_eq!(steps.len(), calls + 1);
    assert_eq!(steps[calls], CpiStep::Fail { error });
    assert!(steps[..calls].iter().all(|s| !matches!(s, CpiStep::Fail { .. })));
    steps
}

fn broken_chain(break_type: u8) -> ChainAccount {
    ChainAccount {
        chain_id: 0,
        spread_bps: 500,
        entry_count: 3,
        current_round: 4,
        last_entry_amount: 12_000_000,
        last_entry_timestamp: 1_000,
        last_entry_authority: addr(13),
        total_staked_lamports: 33_000_000,
        frontend_estimated_yield_pool_lamports: 0,
        donation_pot_lamports: 1_000,
        donation_count: 1,
        is_broken: true,
        break_type,
        bump: 250,
        chain_authority_bump: 249,
        round_settled: false,
    }
}

fn tracker(stake: Address, principal: u64) -> StakeTracker {
    StakeTracker {
        chain_id: 0,
        round: 4,
        stake_account: stake,
        principal_lamports: principal,
        source_type: 0,
        source_index: 0,
        is_active: true,
        is_deactivated: false,
        is_withdrawn: false,
        bump: 1,
    }
}

fn stake_account(key: Address, lamports: u64) -> AccountSnapshot {
    AccountSnapshot { owner: Address::new(solana_stake_interface::program::ID.to_bytes()), ..account(key, lamports) }
}

fn trigger_ctx(pairs: Vec<StakePair>) -> TriggerUnstake {
    TriggerUnstake {
        triggerer: account(addr(80), 0),
        chain_account: broken_chain(1),
        trigger_vault: TriggerVault { chain_id: 0, reserve_lamports: 30_000_000, bump: 253 },
        trigger_vault_key: addr(60),
        trigger_vault_lamports: 31_000_000,
        chain_authority: derive(&[b"chain_auth", &[0]]).0,
        clock: clock(),
        stake_history: stake_history(),
        stake_program: stake_program(),
        stake_pairs: pairs,
        trailing_account: false,
    }
}

fn pair(tracker_key: u8, stake: u8) -> StakePair {
    StakePair {
        stake_tracker_key: addr(tracker_key),
        stake_tracker_is_writable: true,
        stake_tracker: tracker(addr(stake), 10_000_000),
        stake_account: stake_account(addr(stake), 10_000_000),
    }
}

#[test]
fn trigger_deactivates_each_stake_for_a_reward() {
    let mut ctx = trigger_ctx(vec![pair(20, 30), pair(21, 31)]);
    let steps = trigger_unstake::handler(&mut ctx, &program_id(), 0).unwrap();
    assert_eq!(
        steps,
        vec![
            CpiStep::DeactivateStake { stake_account: addr(30), chain_id: 0, chain_authority_bump: 249 },
            CpiStep::DeactivateStake { stake_account: addr(31), chain_id: 0, chain_authority_bump: 249 },
            CpiStep::MoveLamports { from: addr(60), to: addr(80), lamports: 20_000_000 },
        ]
    );
    assert_eq!(ctx.trigger_vault.reserve_lamports, 10_000_000);
    assert!(ctx.stake_pairs.iter().all(|p| p.stake_tracker.is_deactivated && !p.stake_tracker.is_active));
    // The deactivated stakes cannot be triggered again.
    let mut again = trigger_ctx(ctx.stake_pairs.clone());
    refused_after(trigger_unstake::handler(&mut again, &program_id(), 0), 0, custom(ChainStakingError::StakeAlreadyDeactivated));
}

#[test]
fn trigger_refuses_a_tracker_named_twice() {
    let mut ctx = trigger_ctx(vec![pair(20, 30), pair(20, 30)]);
    // The first pair's stake is deactivated before the second pair is checked.
    let steps = refused_after(trigger_unstake::handler(&mut ctx, &program_id(), 0), 1, custom(ChainStakingError::StakeAlreadyDeactivated));
    assert_eq!(steps[0], CpiStep::DeactivateStake { stake_account: addr(30), chain_id: 0, chain_authority_bump: 249 });
    assert_eq!(ctx.trigger_vault.reserve_lamports, 30_000_000);
    // The same tracker account, read twice, paired with another stake account.
    let other = StakePair { stake_account: stake_account(addr(31), 10_000_000), ..pair(20, 30) };
    let mut ctx = trigger_ctx(vec![pair(20, 30), other]);
    refused_after(trigger_unstake::handler(&mut ctx, &program_id(), 0), 1, custom(ChainStakingError::StakeTrackerStakeAccountMismatch));
}

#[test]
fn trigger_refusals() {
    let mut ctx = trigger_ctx(vec![pair(20, 30); 6]);
    assert_eq!(trigger_unstake::handler(&mut ctx, &program_id(), 0), Err(custom(ChainStakingError::TriggerUnstakeBatchTooLarge)));
    let mut ctx = trigger_ctx(vec![pair(20, 30), pair(21, 31), pair(22, 32), pair(23, 33)]);
    assert_eq!(
        trigger_unstake::handler(&mut ctx, &program_id(), 0),
        Err(custom(ChainStakingError::InsufficientTriggerRewardReserve))
    );
    let mut ctx = trigger_ctx(vec![]);
    assert_eq!(trigger_unstake::handler(&mut ctx, &program_id(), 0), Err(custom(ChainStakingError::InvalidTriggerUnstakeAccounts)));
    let mut ctx = trigger_ctx(vec![pair(20, 30)]);
    ctx.trailing_account = true;
    assert_eq!(trigger_unstake::handler(&mut ctx, &program_id(), 0), Err(custom(ChainStakingError::InvalidTriggerUnstakeAccounts)));
    let mut ctx = trigger_ctx(vec![pair(20, 30)]);
    ctx.chain_account.is_broken = false;
    assert_eq!(trigger_unstake::handler(&mut ctx, &program_id(), 0), Err(custom(ChainStakingError::ChainNotBroken)));
    let mut ctx = trigger_ctx(vec![pair(20, 30)]);
    ctx.stake_pairs[0].stake_tracker.round = 3;
    refused_after(trigger_unstake::handler(&mut ctx, &program_id(), 0), 0, custom(ChainStakingError::StakeTrackerRoundMismatch));
    let mut ctx = trigger_ctx(vec![pair(20, 30)]);
    ctx.stake_pairs[0].stake_account.owner = addr(1);
    refused_after(trigger_unstake::handler(&mut ctx, &program_id(), 0), 0, custom(ChainStakingError::InvalidStakeAccountOwner));
    let mut ctx = trigger_ctx(vec![pair(20, 30)]);
    ctx.stake_pairs[0].stake_tracker_is_writable = false;
    refused_after(trigger_unstake::handler(&mut ctx, &program_id(), 0), 0, custom(ChainStakingError::PdaAccountNotWritable));
    // The reserve is recorded, but the vault account itself must hold the reward.
    let mut ctx = trigger_ctx(vec![pair(20, 30)]);
    ctx.trigger_vault_lamports = 9_999_999;
    refused_after(trigger_unstake::handler(&mut ctx, &program_id(), 0), 1, custom(ChainStakingError::InsufficientTriggerRewardReserve));
    assert_eq!(ctx.trigger_vault.reserve_lamports, 30_000_000);
    let mut ctx = trigger_ctx(vec![pair(20, 30)]);
    ctx.triggerer.lamports = u64::MAX - 9_999_999;
    refused_after(trigger_unstake::handler(&mut ctx, &program_id(), 0), 1, custom(ChainStakingError::ArithmeticOverflow));
}

fn triplet(position: u32, principal: u64, balance: u64) -> PayoutTriplet {
    let (entry_key, _) = derive(&[b"entry", &[0], &4u32.to_le_bytes(), &position.to_le_bytes()]);
    let (tracker_key, _) = derive(&[b"stake_tracker", &[0], &4u32.to_le_bytes(), &[0], &position.to_le_bytes()]);
    let stake = addr(100 + position as u8);
    PayoutTriplet {
        entry_key,
        entry_is_writable: true,
        entry: EntryAccount {
            chain_id: 0,
            round: 4,
            position,
            staker: addr(10 + position as u8),
            principal_lamports: principal,
            stake_account: stake,
            validator: addr(50),
            is_unstaked: false,
            is_withdrawn: false,
            payout_lamports: 0,
            bump: 1,
        },
        stake_tracker_key: tracker_key,
        stake_tracker: tracker(stake, principal),
        stake_account: stake_account(stake, balance),
    }
}

#[test]
fn payouts_of_a_manually_broken_chain_settle_the_round() {
    let mut ctx = ComputePayouts {
        global_config: config(),
        chain_account: broken_chain(1),
        triplets: vec![
            triplet(0, 10_000_000, 10_000_100),
            triplet(1, 11_000_000, 11_000_100),
            triplet(2, 12_000_000, 12_000_100),
        ],
        trailing_accounts: 0,
    };
    compute_payouts::handler(&mut ctx, &program_id(), &ComputePayoutsArgs { chain_id: 0, start_position: 0 }).unwrap();
    // The pot of 1_000 is shared over the whole batch principal of 33_000_000.
    assert_eq!(ctx.triplets[0].entry.payout_lamports, 0);
    assert_eq!(ctx.triplets[1].entry.payout_lamports, 12_000_000 + 333);
    // The leader receives the staking yield of the batch: 300.
    assert_eq!(ctx.triplets[2].entry.payout_lamports, 300);
    assert!(ctx.chain_account.round_settled);
    let r = compute_payouts::handler(&mut ctx, &program_id(), &ComputePayoutsArgs { chain_id: 0, start_position: 0 });
    assert_eq!(r, Err(custom(ChainStakingError::RoundAlreadySettled)));
}

#[test]
fn payout_batch_refusals() {
    let make = |triplets: Vec<PayoutTriplet>| ComputePayouts {
        global_config: config(),
        chain_account: broken_chain(2),
        triplets,
        trailing_accounts: 0,
    };
    let args = ComputePayoutsArgs { chain_id: 0, start_position: 0 };
    let mut ctx = make(vec![triplet(0, 1, 1), triplet(2, 1, 1)]);
    assert_eq!(compute_payouts::handler(&mut ctx, &program_id(), &args), Err(custom(ChainStakingError::PayoutEntryMismatch)));
    let mut swapped = triplet(1, 1, 1);
    swapped.stake_tracker_key = addr(1);
    let mut ctx = make(vec![triplet(0, 1, 1), swapped]);
    assert_eq!(
        compute_payouts::handler(&mut ctx, &program_id(), &args),
        Err(custom(ChainStakingError::StakeTrackerStakeAccountMismatch))
    );
    let mut ctx = make(vec![triplet(0, 1, 1), triplet(1, 1, 1)]);
    ctx.trailing_accounts = 2;
    assert_eq!(compute_payouts::handler(&mut ctx, &program_id(), &args), Err(custom(ChainStakingError::InvalidComputePayoutsAccounts)));
    let mut ctx = make(vec![triplet(0, 1, 1), triplet(1, 1, 1)]);
    ctx.chain_account.is_broken = false;
    assert_eq!(compute_payouts::handler(&mut ctx, &program_id(), &args), Err(custom(ChainStakingError::PayoutsRequireBrokenChain)));
    // Entries of a later batch must come in the order of their positions.
    let mut ctx = make(vec![triplet(1, 1, 1), triplet(2, 1, 1)]);
    ctx.triplets[1].entry.position = 1;
    let later = ComputePayoutsArgs { chain_id: 0, start_position: 1 };
    assert_eq!(compute_payouts::handler(&mut ctx, &program_id(), &later), Err(custom(ChainStakingError::PayoutEntriesOutOfOrder)));
    // A batch of one entry has no leader and no first entrant apart.
    let mut ctx = make(vec![triplet(2, 1, 1)]);
    let last = ComputePayoutsArgs { chain_id: 0, start_position: 2 };
    assert_eq!(compute_payouts::handler(&mut ctx, &program_id(), &last), Err(custom(ChainStakingError::InsufficientEntriesForPayouts)));
}

#[test]
fn payouts_are_computed_in_batches() {
    let mut chain = broken_chain(1);
    chain.entry_count = 4;
    let mut first = ComputePayouts {
        global_config: config(),
        chain_account: chain,
        triplets: vec![triplet(0, 10_000_000, 10_000_100), triplet(1, 11_000_000, 11_000_100)],
        trailing_accounts: 0,
    };
    compute_payouts::handler(&mut first, &program_id(), &ComputePayoutsArgs { chain_id: 0, start_position: 0 }).unwrap();
    assert_eq!(first.triplets[0].entry.payout_lamports, 0);
    assert_eq!(first.triplets[1].entry.payout_lamports, 200);
    assert!(!first.chain_account.round_settled);
    let mut second = ComputePayouts {
        global_config: config(),
        chain_account: first.chain_account,
        triplets: vec![triplet(2, 12_000_000, 12_000_100), triplet(3, 13_000_000, 13_000_200)],
        trailing_accounts: 0,
    };
    compute_payouts::handler(&mut second, &program_id(), &ComputePayoutsArgs { chain_id: 0, start_position: 2 }).unwrap();
    assert_eq!(second.triplets[0].entry.payout_lamports, 0);
    assert_eq!(second.triplets[1].entry.payout_lamports, 300);
    assert!(second.chain_account.round_settled);
}

fn withdraw_ctx(payout: u64, balance: u64, total_staked: u64) -> WithdrawAfterCooldown {
    let mut chain = broken_chain(1);
    chain.round_settled = true;
    chain.total_staked_lamports = total_staked;
    let mut t = tracker(addr(101), 11_000_000);
    t.is_deactivated = true;
    t.is_active = false;
    WithdrawAfterCooldown {
        recipient: addr(80),
        global_config: config(),
        chain_account: chain,
        entry_account: EntryAccount {
            chain_id: 0,
            round: 4,
            position: 1,
            staker: addr(11),
            principal_lamports: 11_000_000,
            stake_account: addr(101),
            validator: addr(50),
            is_unstaked: true,
            is_withdrawn: false,
            payout_lamports: payout,
            bump: 1,
        },
        stake_tracker: t,
        stake_account: stake_account(addr(101), balance),
        chain_authority: account(derive(&[b"chain_auth", &[0]]).0, 0),
        staker: addr(11),
        fee_receiver: addr(90),
        clock: clock(),
        stake_history: stake_history(),
        stake_program: stake_program(),
    }
}

#[test]
fn withdrawal_pays_net_fee_and_dust() {
    let mut ctx = withdraw_ctx(12_000_333, 12_100_000, 33_000_000);
    let args = WithdrawAfterCooldownArgs { chain_id: 0, source_type: 0, source_index: 1, entry_position: 1 };
    let steps = withdraw_after_cooldown::handler(&mut ctx, &program_id(), &args).unwrap();
    let authority = derive(&[b"chain_auth", &[0]]).0;
    // Actual yield 1_100_000, 1% fee 11_000; net 11_989_333; dust 99_667.
    assert_eq!(
        steps,
        vec![
            CpiStep::WithdrawStake { stake_account: addr(101), recipient: authority, chain_id: 0, chain_authority_bump: 249 },
            CpiStep::MoveLamports { from: authority, to: addr(11), lamports: 11_989_333 },
            CpiStep::MoveLamports { from: authority, to: addr(90), lamports: 11_000 },
            CpiStep::MoveLamports { from: authority, to: addr(11), lamports: 99_667 },
        ]
    );
    assert!(ctx.stake_tracker.is_withdrawn && ctx.entry_account.is_withdrawn);
    assert_eq!(ctx.chain_account.total_staked_lamports, 22_000_000);
    assert_eq!(ctx.chain_account.current_round, 4);
    assert!(ctx.chain_account.is_broken);
}

#[test]
fn last_withdrawal_opens_the_next_round() {
    let mut ctx = withdraw_ctx(0, 11_000_000, 11_000_000);
    let args = WithdrawAfterCooldownArgs { chain_id: 0, source_type: 0, source_index: 1, entry_position: 1 };
    let steps = withdraw_after_cooldown::handler(&mut ctx, &program_id(), &args).unwrap();
    assert_eq!(steps.len(), 2);
    let c = ctx.chain_account;
    assert_eq!(c.current_round, 5);
    assert_eq!((c.entry_count, c.donation_count, c.donation_pot_lamports, c.total_staked_lamports), (0, 0, 0, 0));
    assert!(!c.is_broken && !c.round_settled);
    assert_eq!(c.break_type, 0);
    assert_eq!(c.last_entry_authority, Address::zero());
}

#[test]
fn withdrawal_refusals() {
    let args = WithdrawAfterCooldownArgs { chain_id: 0, source_type: 0, source_index: 1, entry_position: 1 };
    let mut ctx = withdraw_ctx(1, 11_000_000, 11_000_000);
    ctx.chain_account.round_settled = false;
    assert_eq!(withdraw_after_cooldown::handler(&mut ctx, &program_id(), &args), Err(custom(ChainStakingError::RoundNotSettled)));
    let mut ctx = withdraw_ctx(1, 11_000_000, 11_000_000);
    ctx.stake_tracker.is_deactivated = false;
    assert_eq!(withdraw_after_cooldown::handler(&mut ctx, &program_id(), &args), Err(custom(ChainStakingError::StakeNotDeactivated)));
    let mut ctx = withdraw_ctx(1, 11_000_000, 11_000_000);
    ctx.staker = addr(12);
    assert_eq!(withdraw_after_cooldown::handler(&mut ctx, &program_id(), &args), Err(custom(ChainStakingError::ExitWrongStaker)));
    // A fee above the payout underflows.
    let mut ctx = withdraw_ctx(10, 21_000_000, 11_000_000);
    refused_after(withdraw_after_cooldown::handler(&mut ctx, &program_id(), &args), 1, custom(ChainStakingError::ArithmeticOverflow));
    assert!(!ctx.stake_tracker.is_withdrawn);
    let mut ctx = withdraw_ctx(1, 0, 11_000_000);
    assert_eq!(withdraw_after_cooldown::handler(&mut ctx, &program_id(), &args), Err(ProgramFailure::InsufficientFunds));
    // A payout above the stake must be covered by what the chain authority holds.
    let mut ctx = withdraw_ctx(12_000_000, 11_000_000, 33_000_000);
    refused_after(withdraw_after_cooldown::handler(&mut ctx, &program_id(), &args), 1, custom(ChainStakingError::ArithmeticOverflow));
    let mut ctx = withdraw_ctx(12_000_000, 11_000_000, 33_000_000);
    ctx.chain_authority.lamports = 1_000_000;
    assert!(withdraw_after_cooldown::handler(&mut ctx, &program_id(), &args).is_ok());
}

fn init_ctx() -> InitializeProtocol {
    let mut remaining = Vec::new();
    for i in 0..10u8 {
        remaining.push(account(derive(&[b"trigger_vault", &[i]]).0, 0));
    }
    for i in 0..10u8 {
        remaining.push(account(derive(&[b"chain", &[i]]).0, 0));
    }
    InitializeProtocol {
        authority: addr(90),
        global_config: config(),
        global_config_bump: 201,
        validator_registry: ValidatorRegistry { validator_list: vec![], bump: 0 },
        validator_registry_bump: 202,
        remaining_accounts: remaining,
        trigger_vaults: vec![],
        chain_accounts: vec![],
    }
}

#[test]
fn initialization_creates_every_chain() {
    let mut ctx = init_ctx();
    let steps = initialize_protocol::handler(&mut ctx, &program_id(), InitializeProtocolArgs { validator_list: vec![addr(50), addr(51)] }).unwrap();
    assert_eq!(steps.len(), 20);
    assert_eq!(ctx.global_config.authority, addr(90));
    assert_eq!(ctx.global_config.fee_bps, 100);
    assert_eq!(ctx.global_config.bump, 201);
    assert_eq!(ctx.validator_registry.validator_list, vec![addr(50), addr(51)]);
    assert_eq!(ctx.chain_accounts.len(), 10);
    for i in 0..10u8 {
        let (vault_key, vault_bump) = derive(&[b"trigger_vault", &[i]]);
        let (chain_key, chain_bump) = derive(&[b"chain", &[i]]);
        let (_, authority_bump) = derive(&[b"chain_auth", &[i]]);
        assert_eq!(
            steps[2 * i as usize],
            CpiStep::CreateProgramAccount { payer: addr(90), account: vault_key, space: 18, kind: ProgramAccountKind::TriggerVault, chain_id: i, bump: vault_bump }
        );
        assert_eq!(
            steps[2 * i as usize + 1],
            CpiStep::CreateProgramAccount { payer: addr(90), account: chain_key, space: 100, kind: ProgramAccountKind::Chain, chain_id: i, bump: chain_bump }
        );
        let c = ctx.chain_accounts[i as usize];
        assert_eq!(c.chain_id, i);
        assert_eq!(c.bump, chain_bump);
        assert_eq!(c.chain_authority_bump, authority_bump);
        assert_eq!(c.entry_count, 0);
        assert!(!c.is_broken);
        assert_eq!(ctx.trigger_vaults[i as usize].reserve_lamports, 0);
        assert_eq!(ctx.trigger_vaults[i as usize].bump, vault_bump);
    }
    assert_eq!(ctx.chain_accounts[9].spread_bps, 1_000_000);
}

#[test]
fn initialization_refusals() {
    let good = || InitializeProtocolArgs { validator_list: vec![addr(50)] };
    let mut ctx = init_ctx();
    assert_eq!(
        initialize_protocol::handler(&mut ctx, &program_id(), InitializeProtocolArgs { validator_list: vec![] }),
        Err(custom(ChainStakingError::EmptyValidatorList))
    );
    let mut ctx = init_ctx();
    ctx.remaining_accounts.pop();
    assert_eq!(initialize_protocol::handler(&mut ctx, &program_id(), good()), Err(custom(ChainStakingError::InvalidRemainingAccountsLen)));
    let mut ctx = init_ctx();
    ctx.remaining_accounts.swap(0, 1);
    refused_after(initialize_protocol::handler(&mut ctx, &program_id(), good()), 0, custom(ChainStakingError::InvalidTriggerVaultPda));
    let mut ctx = init_ctx();
    ctx.remaining_accounts[12].key = addr(3);
    // Chain 2's account is checked after the accounts of chains 0 and 1 and chain 2's vault are created.
    refused_after(initialize_protocol::handler(&mut ctx, &program_id(), good()), 5, custom(ChainStakingError::InvalidChainAccountPda));
    let mut ctx = init_ctx();
    ctx.remaining_accounts[13].lamports = 1;
    refused_after(initialize_protocol::handler(&mut ctx, &program_id(), good()), 7, custom(ChainStakingError::PdaAccountAlreadyInitialized));
    let mut ctx = init_ctx();
    ctx.remaining_accounts[4].is_writable = false;
    refused_after(initialize_protocol::handler(&mut ctx, &program_id(), good()), 8, custom(ChainStakingError::PdaAccountNotWritable));
    assert!(ctx.chain_accounts.is_empty());
}
