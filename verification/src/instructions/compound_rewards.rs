//! Restaking the liquid rewards a chain account holds above its rent-exempt minimum.
use crate::address::Address;
use crate::constants::{
    chain_authority_seeds, derived_address, find_chain_authority_pda, key_matches, matches_expected,
    opt_address_view, pda_address, STAKE_SOURCE_TYPE_COMPOUND,
};
use crate::errors::{custom, ChainStakingError, ProgramFailure};
use crate::stake_utils::{
    create_stake_account, create_stake_account_check, delegate_stake_account, delegate_stake_account_check,
    failure_of, initialize_stake_account, initialize_stake_account_check, CpiStep,
};
use crate::state::{AccountSnapshot, ChainAccount, CompoundRecord, StakeTracker, ValidatorRegistry};
use crate::yield_utils::compute_available_liquid_rewards_lamports;
use vstd::prelude::*;

verus! {

#[derive(Clone, Copy, Debug, PartialEq, Eq, Structural)]
pub struct CompoundRewardsArgs {
    pub amount: u64,
    pub chain_id: u8,
    pub compound_index: u16,
}

/// What compounding reads and writes.
#[derive(Clone, Debug)]
pub struct CompoundRewards {
    pub caller: AccountSnapshot,
    pub validator_registry: ValidatorRegistry,
    pub chain_account: ChainAccount,
    /// The chain account as an account: its address and lamports.
    pub chain_account_info: AccountSnapshot,
    /// The rent-exempt minimum balance of a chain account.
    pub chain_account_minimum_balance: u64,
    /// The record being created, and the bump of its address.
    pub compound_record: CompoundRecord,
    pub compound_record_bump: u8,
    /// The tracker of the new stake, and the bump of its address.
    pub stake_tracker: StakeTracker,
    pub stake_tracker_bump: u8,
    pub stake_account: AccountSnapshot,
    pub chain_authority: Address,
    pub validator_vote: Address,
    pub clock: AccountSnapshot,
    pub system_program: AccountSnapshot,
    pub stake_program: AccountSnapshot,
    pub stake_history: AccountSnapshot,
    pub stake_config: AccountSnapshot,
    /// The rent-exempt minimum balance of a stake account.
    pub stake_minimum_balance: u64,
}

/// The liquid rewards of the chain: its lamports above its rent-exempt minimum.
pub open spec fn available_rewards(ctx: CompoundRewards) -> int {
    if ctx.chain_account_info.lamports >= ctx.chain_account_minimum_balance {
        ctx.chain_account_info.lamports - ctx.chain_account_minimum_balance
    } else {
        0
    }
}

/// The first check that refuses compounding before any call is made, in the order they
/// are made: a zero amount, an unlisted validator, a chain authority other than the
/// derived one, and more than the liquid rewards.
pub open spec fn compound_error(
    ctx: CompoundRewards,
    args: CompoundRewardsArgs,
    expected_chain_authority: Option<Seq<u8>>,
) -> Option<ProgramFailure> {
    if args.amount == 0 {
        Some(custom(ChainStakingError::InvalidCompoundAmount))
    } else if !ctx.validator_registry.lists(ctx.validator_vote@) {
        Some(custom(ChainStakingError::InvalidValidator))
    } else if !key_matches(ctx.chain_authority@, expected_chain_authority) {
        Some(custom(ChainStakingError::InvalidChainAuthority))
    } else if args.amount > available_rewards(ctx) {
        Some(custom(ChainStakingError::InsufficientLiquidRewards))
    } else {
        None
    }
}

pub open spec fn create_failure(ctx: CompoundRewards, args: CompoundRewardsArgs) -> Option<ProgramFailure> {
    failure_of(
        create_stake_account_check(
            ctx.caller,
            ctx.stake_account,
            ctx.system_program,
            args.amount,
            ctx.stake_minimum_balance,
        ),
    )
}

pub open spec fn init_failure(ctx: CompoundRewards) -> Option<ProgramFailure> {
    failure_of(initialize_stake_account_check(ctx.stake_account, ctx.stake_program))
}

pub open spec fn delegate_failure(ctx: CompoundRewards) -> Option<ProgramFailure> {
    failure_of(
        delegate_stake_account_check(ctx.stake_account, ctx.clock, ctx.stake_history, ctx.stake_config, ctx.stake_program),
    )
}

/// The chain's stake would overflow with the compounded amount.
pub open spec fn stake_overflows(ctx: CompoundRewards, args: CompoundRewardsArgs) -> bool {
    ctx.chain_account.total_staked_lamports + args.amount > u64::MAX
}

/// The first check made between the calls that refuses compounding: the creation,
/// initialization and delegation checks, then an overflow of the chain's stake.
pub open spec fn compound_setup_error(ctx: CompoundRewards, args: CompoundRewardsArgs) -> Option<ProgramFailure> {
    if create_failure(ctx, args) is Some {
        create_failure(ctx, args)
    } else if init_failure(ctx) is Some {
        init_failure(ctx)
    } else if delegate_failure(ctx) is Some {
        delegate_failure(ctx)
    } else if stake_overflows(ctx, args) {
        Some(custom(ChainStakingError::ArithmeticOverflow))
    } else {
        None
    }
}

/// The accounts after accepted compounding: the new stake is recorded and tracked,
/// and counted in the chain's stake.
pub open spec fn compounded(ctx: CompoundRewards, args: CompoundRewardsArgs) -> CompoundRewards {
    let chain = ctx.chain_account;
    CompoundRewards {
        chain_account: ChainAccount {
            total_staked_lamports: (chain.total_staked_lamports + args.amount) as u64,
            ..chain
        },
        compound_record: CompoundRecord {
            chain_id: args.chain_id,
            round: chain.current_round,
            compound_index: args.compound_index,
            amount_lamports: args.amount,
            stake_account: ctx.stake_account.key,
            validator: ctx.validator_vote,
            bump: ctx.compound_record_bump,
        },
        stake_tracker: StakeTracker {
            chain_id: args.chain_id,
            round: chain.current_round,
            stake_account: ctx.stake_account.key,
            principal_lamports: args.amount,
            source_type: STAKE_SOURCE_TYPE_COMPOUND,
            source_index: args.compound_index as u32,
            is_active: true,
            is_deactivated: false,
            is_withdrawn: false,
            bump: ctx.stake_tracker_bump,
        },
        ..ctx
    }
}

/// The calls of compounding: the caller creates the stake account with the amount, the
/// chain account repays the caller the same amount, then the stake is initialized and
/// delegated; each call after its check, and the stake overflow checked last. A failing
/// check ends the calls with `Fail`.
pub open spec fn compound_steps(ctx: CompoundRewards, args: CompoundRewardsArgs) -> Seq<CpiStep> {
    let create = CpiStep::CreateStakeAccount {
        payer: ctx.caller.key,
        stake_account: ctx.stake_account.key,
        lamports: args.amount,
    };
    let repay = CpiStep::MoveLamports { from: ctx.chain_account_info.key, to: ctx.caller.key, lamports: args.amount };
    let init = CpiStep::InitializeStakeAccount { stake_account: ctx.stake_account.key, authority: ctx.chain_authority };
    let delegate = CpiStep::DelegateStake {
        stake_account: ctx.stake_account.key,
        validator_vote: ctx.validator_vote,
        chain_id: args.chain_id,
        chain_authority_bump: ctx.chain_account.chain_authority_bump,
    };
    if create_failure(ctx, args) is Some {
        seq![CpiStep::Fail { error: create_failure(ctx, args)->0 }]
    } else if init_failure(ctx) is Some {
        seq![create, repay, CpiStep::Fail { error: init_failure(ctx)->0 }]
    } else if delegate_failure(ctx) is Some {
        seq![create, repay, init, CpiStep::Fail { error: delegate_failure(ctx)->0 }]
    } else if stake_overflows(ctx, args) {
        seq![create, repay, init, delegate, CpiStep::Fail { error: custom(ChainStakingError::ArithmeticOverflow) }]
    } else {
        seq![create, repay, init, delegate]
    }
}

/// Compounding: refused with `compound_error` before any call (accounts unchanged), or
/// the calls of `compound_steps`, with the accounts of `compounded` when no check
/// between the calls refuses it and unchanged when one does (its `Fail`).
pub open spec fn compound_outcome(
    before: CompoundRewards,
    args: CompoundRewardsArgs,
    expected_chain_authority: Option<Seq<u8>>,
    after: CompoundRewards,
    r: Result<Vec<CpiStep>, ProgramFailure>,
) -> bool {
    match r {
        Ok(steps) => {
            &&& compound_error(before, args, expected_chain_authority) is None
            &&& after == if compound_setup_error(before, args) is None {
                compounded(before, args)
            } else {
                before
            }
            &&& steps@ == compound_steps(before, args)
        },
        Err(e) => {
            &&& compound_error(before, args, expected_chain_authority) == Some(e)
            &&& after == before
        },
    }
}

/// Moves `amount` lamports between two balances this program may edit. Fails when the
/// source holds less than the amount (not enough liquid rewards) or the destination
/// would overflow; otherwise the two balances keep their sum.
pub fn transfer_program_lamports(source_lamports: u64, destination_lamports: u64, amount: u64) -> (r: Result<
    (u64, u64),
    ProgramFailure,
>)
    ensures
        amount > source_lamports ==> r == Err::<(u64, u64), ProgramFailure>(
            custom(ChainStakingError::InsufficientLiquidRewards),
        ),
        amount <= source_lamports && destination_lamports + amount > u64::MAX ==> r == Err::<
            (u64, u64),
            ProgramFailure,
        >(custom(ChainStakingError::ArithmeticOverflow)),
        amount <= source_lamports && destination_lamports + amount <= u64::MAX ==> r == Ok::<
            (u64, u64),
            ProgramFailure,
        >(((source_lamports - amount) as u64, (destination_lamports + amount) as u64)),
        r matches Ok(b) ==> b.0 + b.1 == source_lamports + destination_lamports,
{
    if amount > source_lamports {
        return Err(ProgramFailure::Custom(ChainStakingError::InsufficientLiquidRewards));
    }
    if destination_lamports > u64::MAX - amount {
        return Err(ProgramFailure::Custom(ChainStakingError::ArithmeticOverflow));
    }
    Ok((source_lamports - amount, destination_lamports + amount))
}

/// Compounds the chain's liquid rewards, given the derived chain authority.
pub fn process(
    ctx: &mut CompoundRewards,
    args: &CompoundRewardsArgs,
    expected_chain_authority: &Option<Address>,
) -> (r: Result<Vec<CpiStep>, ProgramFailure>)
    ensures
        compound_outcome(*old(ctx), *args, opt_address_view(*expected_chain_authority), *final(ctx), r),
        r is Ok && old(ctx).chain_account.well_formed() ==> final(ctx).chain_account.well_formed(),
{
    if args.amount == 0 {
        return Err(ProgramFailure::Custom(ChainStakingError::InvalidCompoundAmount));
    }
    if !ctx.validator_registry.contains(&ctx.validator_vote) {
        return Err(ProgramFailure::Custom(ChainStakingError::InvalidValidator));
    }
    if !matches_expected(&ctx.chain_authority, expected_chain_authority) {
        return Err(ProgramFailure::Custom(ChainStakingError::InvalidChainAuthority));
    }
    let available_liquid_rewards = compute_available_liquid_rewards_lamports(
        &ctx.chain_account_info,
        ctx.chain_account_minimum_balance,
    )?;
    if args.amount > available_liquid_rewards {
        return Err(ProgramFailure::Custom(ChainStakingError::InsufficientLiquidRewards));
    }
    let chain_id = args.chain_id;
    let round = ctx.chain_account.current_round;
    let chain_authority_bump = ctx.chain_account.chain_authority_bump;
    let source_index = args.compound_index as u32;
    let create = create_stake_account(
        &ctx.caller,
        &ctx.stake_account,
        &ctx.system_program,
        args.amount,
        ctx.stake_minimum_balance,
    );
    let init = initialize_stake_account(&ctx.stake_account, &ctx.stake_program);
    let delegate = delegate_stake_account(
        &ctx.stake_account,
        &ctx.clock,
        &ctx.stake_history,
        &ctx.stake_config,
        &ctx.stake_program,
    );
    let create_step = CpiStep::CreateStakeAccount {
        payer: ctx.caller.key,
        stake_account: ctx.stake_account.key,
        lamports: args.amount,
    };
    let repay_step = CpiStep::MoveLamports { from: ctx.chain_account_info.key, to: ctx.caller.key, lamports: args.amount };
    let init_step = CpiStep::InitializeStakeAccount { stake_account: ctx.stake_account.key, authority: ctx.chain_authority };
    let delegate_step = CpiStep::DelegateStake {
        stake_account: ctx.stake_account.key,
        validator_vote: ctx.validator_vote,
        chain_id,
        chain_authority_bump,
    };
    let mut steps: Vec<CpiStep> = Vec::new();
    if let Err(e) = create {
        steps.push(CpiStep::Fail { error: e });
        assert(steps@ =~= compound_steps(*ctx, *args));
        return Ok(steps);
    }
    steps.push(create_step);
    steps.push(repay_step);
    if let Err(e) = init {
        steps.push(CpiStep::Fail { error: e });
        assert(steps@ =~= compound_steps(*ctx, *args));
        return Ok(steps);
    }
    steps.push(init_step);
    if let Err(e) = delegate {
        steps.push(CpiStep::Fail { error: e });
        assert(steps@ =~= compound_steps(*ctx, *args));
        return Ok(steps);
    }
    steps.push(delegate_step);
    if ctx.chain_account.total_staked_lamports > u64::MAX - args.amount {
        steps.push(CpiStep::Fail { error: ProgramFailure::Custom(ChainStakingError::ArithmeticOverflow) });
        assert(steps@ =~= compound_steps(*ctx, *args));
        return Ok(steps);
    }
    assert(steps@ =~= compound_steps(*ctx, *args));
    let ghost before = *ctx;
    ctx.compound_record = CompoundRecord {
        chain_id,
        round,
        compound_index: args.compound_index,
        amount_lamports: args.amount,
        stake_account: ctx.stake_account.key,
        validator: ctx.validator_vote,
        bump: ctx.compound_record_bump,
    };
    ctx.stake_tracker = StakeTracker {
        chain_id,
        round,
        stake_account: ctx.stake_account.key,
        principal_lamports: args.amount,
        source_type: STAKE_SOURCE_TYPE_COMPOUND,
        source_index,
        is_active: true,
        is_deactivated: false,
        is_withdrawn: false,
        bump: ctx.stake_tracker_bump,
    };
    ctx.chain_account.total_staked_lamports = ctx.chain_account.total_staked_lamports + args.amount;
    Ok(steps)
}

/// Compounding spends only liquid rewards: an accepted amount is not zero and fits in
/// what the chain account holds above its rent-exempt minimum; it is staked through a
/// new stake account that the caller funds and the chain account repays in full, and
/// the chain's stake grows by it.
pub proof fn lemma_compound_effects(
    before: CompoundRewards,
    args: CompoundRewardsArgs,
    expected_chain_authority: Option<Seq<u8>>,
    after: CompoundRewards,
    r: Result<Vec<CpiStep>, ProgramFailure>,
)
    requires
        compound_outcome(before, args, expected_chain_authority, after, r),
        r is Ok,
        compound_setup_error(before, args) is None,
    ensures
        0 < args.amount,
        before.chain_account_info.lamports >= before.chain_account_minimum_balance + args.amount,
        after.chain_account.total_staked_lamports == before.chain_account.total_staked_lamports + args.amount,
        after.chain_account.is_broken == before.chain_account.is_broken,
        after.compound_record.amount_lamports == args.amount,
        after.stake_tracker.principal_lamports == args.amount,
        ({
            &&& r matches Ok(steps) && steps@.len() == 4 && steps@[0] == (CpiStep::CreateStakeAccount {
                payer: before.caller.key,
                stake_account: before.stake_account.key,
                lamports: args.amount,
            }) && steps@[1] == (CpiStep::MoveLamports {
                from: before.chain_account_info.key,
                to: before.caller.key,
                lamports: args.amount,
            })
        }),
{
}

/// Compounds the liquid rewards of chain `args.chain_id`.
pub fn handler(ctx: &mut CompoundRewards, program_id: &Address, args: &CompoundRewardsArgs) -> (r: Result<
    Vec<CpiStep>,
    ProgramFailure,
>)
    ensures
        compound_outcome(
            *old(ctx),
            *args,
            pda_address(chain_authority_seeds(args.chain_id), program_id@),
            *final(ctx),
            r,
        ),
        r is Ok && old(ctx).chain_account.well_formed() ==> final(ctx).chain_account.well_formed(),
{
    let expected = derived_address(find_chain_authority_pda(program_id, args.chain_id));
    process(ctx, args, &expected)
}

} // verus!
