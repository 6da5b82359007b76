//! Donating to a chain's pot; a pot that reaches the leader's entry breaks the chain.
use crate::address::Address;
use crate::constants::{
    chain_authority_seeds, derived_address, find_chain_authority_pda, key_matches, matches_expected,
    opt_address_view, pda_address, BREAK_TYPE_COMMUNITY, STAKE_SOURCE_TYPE_DONATION,
};
use crate::errors::{custom, ChainStakingError, ProgramFailure};
use crate::fees::bps_of;
use crate::stake_utils::{
    create_stake_account, create_stake_account_check, delegate_stake_account, delegate_stake_account_check,
    failure, failure_of, initialize_stake_account, initialize_stake_account_check, push_stake_setup_steps,
    stake_setup_steps, CpiStep,
};
use crate::state::{AccountSnapshot, ChainAccount, DonationRecord, GlobalConfig, StakeTracker, TriggerVault, ValidatorRegistry};
use vstd::prelude::*;

verus! {

#[derive(Clone, Copy, Debug, PartialEq, Eq, Structural)]
pub struct DonateToChainArgs {
    pub amount: u64,
    pub chain_id: u8,
    pub donation_index: u16,
}

/// What a donation reads and writes.
#[derive(Clone, Debug)]
pub struct DonateToChain {
    pub donor: AccountSnapshot,
    pub global_config: GlobalConfig,
    pub validator_registry: ValidatorRegistry,
    pub chain_account: ChainAccount,
    pub trigger_vault: TriggerVault,
    pub trigger_vault_key: Address,
    /// The record being created, and the bump of its address.
    pub donation_record: DonationRecord,
    pub donation_record_bump: u8,
    /// The tracker of the donation's stake, and the bump of its address.
    pub stake_tracker: StakeTracker,
    pub stake_tracker_bump: u8,
    pub stake_account: AccountSnapshot,
    pub chain_authority: Address,
    pub validator_vote: Address,
    pub fee_receiver: Address,
    pub clock: AccountSnapshot,
    pub system_program: AccountSnapshot,
    pub stake_program: AccountSnapshot,
    pub stake_history: AccountSnapshot,
    pub stake_config: AccountSnapshot,
    /// The rent-exempt minimum balance of a stake account.
    pub stake_minimum_balance: u64,
}

/// `amount * fee_bps / 10_000`, or an overflow error when it does not fit in a `u64`.
pub fn compute_protocol_fee(amount: u64, fee_bps: u16) -> (r: Result<u64, ProgramFailure>)
    ensures
        bps_of(amount, fee_bps) <= u64::MAX ==> r == Ok::<u64, ProgramFailure>(bps_of(amount, fee_bps) as u64),
        bps_of(amount, fee_bps) > u64::MAX ==> r == Err::<u64, ProgramFailure>(
            custom(ChainStakingError::ArithmeticOverflow),
        ),
{
    let a = amount as u128;
    let b = fee_bps as u128;
    assert(a * b <= u64::MAX as int * 65535) by (nonlinear_arith)
        requires
            a <= u64::MAX,
            b <= 65535,
    ;
    let fee = a * b / 10_000;
    if fee > u64::MAX as u128 {
        return Err(ProgramFailure::Custom(ChainStakingError::ArithmeticOverflow));
    }
    Ok(fee as u64)
}

/// The first check that refuses a donation before any call is made, in the order they
/// are made. The stake-account checks come after the fee transfers (`stake_setup_error`).
pub open spec fn donate_error(
    ctx: DonateToChain,
    args: DonateToChainArgs,
    expected_chain_authority: Option<Seq<u8>>,
) -> Option<ProgramFailure> {
    let chain = ctx.chain_account;
    if args.amount == 0 {
        Some(custom(ChainStakingError::InvalidDonationAmount))
    } else if chain.is_broken {
        Some(custom(ChainStakingError::ChainIsBroken))
    } else if chain.entry_count == 0 {
        Some(custom(ChainStakingError::DonationRequiresActiveLeader))
    } else if args.donation_index != chain.donation_count {
        Some(custom(ChainStakingError::InvalidDonationIndex))
    } else if !ctx.validator_registry.lists(ctx.validator_vote@) {
        Some(custom(ChainStakingError::InvalidValidator))
    } else if ctx.fee_receiver@ != ctx.global_config.authority@ {
        Some(custom(ChainStakingError::InvalidFeeReceiver))
    } else if !key_matches(ctx.chain_authority@, expected_chain_authority) {
        Some(custom(ChainStakingError::InvalidChainAuthority))
    } else if bps_of(args.amount, ctx.global_config.fee_bps) > u64::MAX || chain.donation_pot_lamports
        + args.amount > u64::MAX || chain.donation_count + 1 > u16::MAX || chain.total_staked_lamports
        + args.amount > u64::MAX || ctx.trigger_vault.reserve_lamports + ctx.global_config.flat_fee_lamports
        > u64::MAX {
        Some(custom(ChainStakingError::ArithmeticOverflow))
    } else {
        None
    }
}

/// The first failing check of the stake-account creation, initialization and delegation.
/// Each is made after the calls before it: the fee transfers, then the creation before
/// the initialization check, and the initialization before the delegation check.
pub open spec fn stake_setup_error(ctx: DonateToChain, amount: u64) -> Option<ProgramFailure> {
    let create = create_stake_account_check(
        ctx.donor,
        ctx.stake_account,
        ctx.system_program,
        amount,
        ctx.stake_minimum_balance,
    );
    let init = initialize_stake_account_check(ctx.stake_account, ctx.stake_program);
    let delegate = delegate_stake_account_check(
        ctx.stake_account,
        ctx.clock,
        ctx.stake_history,
        ctx.stake_config,
        ctx.stake_program,
    );
    if create is Err {
        failure_of(create)
    } else if init is Err {
        failure_of(init)
    } else {
        failure_of(delegate)
    }
}

/// The chain after an accepted donation: the pot and the stake grow by the amount, the
/// next donation index is taken, and a pot that reaches the leader's entry amount
/// breaks the chain by the community.
pub open spec fn chain_after_donation(chain: ChainAccount, amount: u64) -> ChainAccount {
    let pot = (chain.donation_pot_lamports + amount) as u64;
    let breaks = pot >= chain.last_entry_amount;
    ChainAccount {
        donation_pot_lamports: pot,
        donation_count: (chain.donation_count + 1) as u16,
        is_broken: if breaks { true } else { chain.is_broken },
        break_type: if breaks { BREAK_TYPE_COMMUNITY } else { chain.break_type },
        total_staked_lamports: (chain.total_staked_lamports + amount) as u64,
        ..chain
    }
}

/// The accounts after an accepted donation.
pub open spec fn donated(ctx: DonateToChain, args: DonateToChainArgs) -> DonateToChain {
    let chain = ctx.chain_account;
    DonateToChain {
        chain_account: chain_after_donation(chain, args.amount),
        trigger_vault: TriggerVault {
            reserve_lamports: (ctx.trigger_vault.reserve_lamports + ctx.global_config.flat_fee_lamports) as u64,
            ..ctx.trigger_vault
        },
        donation_record: DonationRecord {
            chain_id: args.chain_id,
            round: chain.current_round,
            donation_index: args.donation_index,
            donor: ctx.donor.key,
            amount_lamports: args.amount,
            stake_account: ctx.stake_account.key,
            validator: ctx.validator_vote,
            bump: ctx.donation_record_bump,
        },
        stake_tracker: StakeTracker {
            chain_id: args.chain_id,
            round: chain.current_round,
            stake_account: ctx.stake_account.key,
            principal_lamports: args.amount,
            source_type: STAKE_SOURCE_TYPE_DONATION,
            source_index: args.donation_index as u32,
            is_active: true,
            is_deactivated: false,
            is_withdrawn: false,
            bump: ctx.stake_tracker_bump,
        },
        ..ctx
    }
}

/// The calls a donation makes: the protocol fee (when not zero), the flat fee to the
/// trigger vault, then the creation, initialization and delegation of the donation's
/// stake account, each after its check; a failing check ends the calls with `Fail`.
pub open spec fn donate_steps(ctx: DonateToChain, args: DonateToChainArgs) -> Seq<CpiStep> {
    let fee = bps_of(args.amount, ctx.global_config.fee_bps) as u64;
    let fees = seq![
        CpiStep::Transfer {
            from: ctx.donor.key,
            to: ctx.trigger_vault_key,
            lamports: ctx.global_config.flat_fee_lamports,
        },
    ];
    let setup = stake_setup_steps(
        failure_of(
            create_stake_account_check(
                ctx.donor,
                ctx.stake_account,
                ctx.system_program,
                args.amount,
                ctx.stake_minimum_balance,
            ),
        ),
        failure_of(initialize_stake_account_check(ctx.stake_account, ctx.stake_program)),
        failure_of(
            delegate_stake_account_check(
                ctx.stake_account,
                ctx.clock,
                ctx.stake_history,
                ctx.stake_config,
                ctx.stake_program,
            ),
        ),
        CpiStep::CreateStakeAccount { payer: ctx.donor.key, stake_account: ctx.stake_account.key, lamports: args.amount },
        CpiStep::InitializeStakeAccount { stake_account: ctx.stake_account.key, authority: ctx.chain_authority },
        CpiStep::DelegateStake {
            stake_account: ctx.stake_account.key,
            validator_vote: ctx.validator_vote,
            chain_id: args.chain_id,
            chain_authority_bump: ctx.chain_account.chain_authority_bump,
        },
    );
    if fee > 0 {
        seq![CpiStep::Transfer { from: ctx.donor.key, to: ctx.fee_receiver, lamports: fee }] + fees + setup
    } else {
        fees + setup
    }
}

/// A donation: refused with `donate_error` before any call (accounts unchanged), or
/// the calls of `donate_steps`, with the accounts of `donated` when the stake-account
/// checks pass and unchanged when one refuses the donation (its `Fail`).
pub open spec fn donate_outcome(
    before: DonateToChain,
    args: DonateToChainArgs,
    expected_chain_authority: Option<Seq<u8>>,
    after: DonateToChain,
    r: Result<Vec<CpiStep>, ProgramFailure>,
) -> bool {
    match r {
        Ok(steps) => {
            &&& donate_error(before, args, expected_chain_authority) is None
            &&& after == if stake_setup_error(before, args.amount) is None {
                donated(before, args)
            } else {
                before
            }
            &&& steps@ == donate_steps(before, args)
        },
        Err(e) => {
            &&& donate_error(before, args, expected_chain_authority) == Some(e)
            &&& after == before
        },
    }
}

/// A donation adds its amount to the pot and to the chain's stake, takes the next
/// donation index, and breaks the chain (by the community) exactly when the new pot,
/// the old pot plus the amount, reaches the leader's entry amount; otherwise the
/// chain stays unbroken with its break type unchanged.
pub proof fn lemma_donation_breaks_at_leader_amount(
    before: DonateToChain,
    args: DonateToChainArgs,
    expected_chain_authority: Option<Seq<u8>>,
    after: DonateToChain,
    r: Result<Vec<CpiStep>, ProgramFailure>,
)
    requires
        donate_outcome(before, args, expected_chain_authority, after, r),
        r is Ok,
        stake_setup_error(before, args.amount) is None,
    ensures
        ({
            let c = before.chain_account;
            let pot = c.donation_pot_lamports + args.amount;
            &&& after.chain_account.donation_pot_lamports == pot
            &&& after.chain_account.total_staked_lamports == c.total_staked_lamports + args.amount
            &&& after.chain_account.donation_count == c.donation_count + 1
            &&& !c.is_broken
            &&& after.chain_account.is_broken == (pot >= c.last_entry_amount)
            &&& after.chain_account.break_type == if pot >= c.last_entry_amount {
                BREAK_TYPE_COMMUNITY
            } else {
                c.break_type
            }
        }),
{
}

/// What an accepted donation pays and records: the donor pays first the protocol fee,
/// `amount * fee_bps / 10_000`, to the fee receiver when it is not zero, then the flat
/// fee to the trigger vault, whose reserve grows by it; the donation is recorded under
/// its index in the current round, and its stake tracked with the amount as principal.
pub proof fn lemma_donation_effects(
    before: DonateToChain,
    args: DonateToChainArgs,
    expected_chain_authority: Option<Seq<u8>>,
    after: DonateToChain,
    r: Result<Vec<CpiStep>, ProgramFailure>,
)
    requires
        donate_outcome(before, args, expected_chain_authority, after, r),
        r is Ok,
        stake_setup_error(before, args.amount) is None,
    ensures
        ({
            let fee = (args.amount as int * before.global_config.fee_bps as int) / 10_000;
            let flat = CpiStep::Transfer {
                from: before.donor.key,
                to: before.trigger_vault_key,
                lamports: before.global_config.flat_fee_lamports,
            };
            &&& fee <= u64::MAX
            &&& after.trigger_vault.reserve_lamports == before.trigger_vault.reserve_lamports
                + before.global_config.flat_fee_lamports
            &&& after.donation_record.donation_index == args.donation_index
            &&& after.donation_record.amount_lamports == args.amount
            &&& after.donation_record.round == before.chain_account.current_round
            &&& after.donation_record.donor == before.donor.key
            &&& after.stake_tracker.principal_lamports == args.amount
            &&& after.stake_tracker.source_index == args.donation_index
            &&& after.chain_account.last_entry_amount == before.chain_account.last_entry_amount
            &&& after.chain_account.entry_count == before.chain_account.entry_count
            &&& after.chain_account.current_round == before.chain_account.current_round
            &&& r matches Ok(steps) && if fee > 0 {
                &&& steps@[0] == CpiStep::Transfer { from: before.donor.key, to: before.fee_receiver, lamports: fee as u64 }
                &&& steps@[1] == flat
            } else {
                steps@[0] == flat
            }
        }),
{
}

/// Donates to the chain, given the chain authority derived for `args.chain_id`.
pub fn process(
    ctx: &mut DonateToChain,
    args: &DonateToChainArgs,
    expected_chain_authority: &Option<Address>,
) -> (r: Result<Vec<CpiStep>, ProgramFailure>)
    ensures
        donate_outcome(*old(ctx), *args, opt_address_view(*expected_chain_authority), *final(ctx), r),
        r is Ok && old(ctx).chain_account.well_formed() ==> final(ctx).chain_account.well_formed(),
{
    let chain = ctx.chain_account;
    if args.amount == 0 {
        return Err(ProgramFailure::Custom(ChainStakingError::InvalidDonationAmount));
    }
    if chain.is_broken {
        return Err(ProgramFailure::Custom(ChainStakingError::ChainIsBroken));
    }
    if chain.entry_count == 0 {
        return Err(ProgramFailure::Custom(ChainStakingError::DonationRequiresActiveLeader));
    }
    if args.donation_index != chain.donation_count {
        return Err(ProgramFailure::Custom(ChainStakingError::InvalidDonationIndex));
    }
    if !ctx.validator_registry.contains(&ctx.validator_vote) {
        return Err(ProgramFailure::Custom(ChainStakingError::InvalidValidator));
    }
    if !ctx.fee_receiver.equals(&ctx.global_config.authority) {
        return Err(ProgramFailure::Custom(ChainStakingError::InvalidFeeReceiver));
    }
    if !matches_expected(&ctx.chain_authority, expected_chain_authority) {
        return Err(ProgramFailure::Custom(ChainStakingError::InvalidChainAuthority));
    }
    let protocol_fee = compute_protocol_fee(args.amount, ctx.global_config.fee_bps)?;
    let flat_fee = ctx.global_config.flat_fee_lamports;
    let community_break_threshold = chain.last_entry_amount;
    let chain_id = args.chain_id;
    let round = chain.current_round;
    let donation_index = args.donation_index;
    let source_index = donation_index as u32;
    let chain_authority_bump = chain.chain_authority_bump;
    if chain.donation_pot_lamports > u64::MAX - args.amount || chain.donation_count == u16::MAX
        || chain.total_staked_lamports > u64::MAX - args.amount || ctx.trigger_vault.reserve_lamports
        > u64::MAX - flat_fee {
        return Err(ProgramFailure::Custom(ChainStakingError::ArithmeticOverflow));
    }
    let create = create_stake_account(
        &ctx.donor,
        &ctx.stake_account,
        &ctx.system_program,
        args.amount,
        ctx.stake_minimum_balance,
    );
    let init = initialize_stake_account(&ctx.stake_account, &ctx.stake_program);
    let delegate = delegate_stake_account(
        &ctx.stake_account,
        &ctx.clock,
        &ctx.stake_history,
        &ctx.stake_config,
        &ctx.stake_program,
    );
    let create_failure = failure(&create);
    let init_failure = failure(&init);
    let delegate_failure = failure(&delegate);
    let mut steps: Vec<CpiStep> = Vec::new();
    if protocol_fee > 0 {
        steps.push(CpiStep::Transfer { from: ctx.donor.key, to: ctx.fee_receiver, lamports: protocol_fee });
    }
    steps.push(CpiStep::Transfer { from: ctx.donor.key, to: ctx.trigger_vault_key, lamports: flat_fee });
    push_stake_setup_steps(
        &mut steps,
        create_failure,
        init_failure,
        delegate_failure,
        CpiStep::CreateStakeAccount { payer: ctx.donor.key, stake_account: ctx.stake_account.key, lamports: args.amount },
        CpiStep::InitializeStakeAccount { stake_account: ctx.stake_account.key, authority: ctx.chain_authority },
        CpiStep::DelegateStake {
            stake_account: ctx.stake_account.key,
            validator_vote: ctx.validator_vote,
            chain_id,
            chain_authority_bump,
        },
    );
    assert(steps@ =~= donate_steps(*ctx, *args));
    if create_failure.is_some() || init_failure.is_some() || delegate_failure.is_some() {
        return Ok(steps);
    }
    let ghost before = *ctx;
    ctx.chain_account.donation_pot_lamports = chain.donation_pot_lamports + args.amount;
    ctx.chain_account.donation_count = chain.donation_count + 1;
    if ctx.chain_account.donation_pot_lamports >= community_break_threshold {
        ctx.chain_account.is_broken = true;
        ctx.chain_account.break_type = BREAK_TYPE_COMMUNITY;
    }
    ctx.chain_account.total_staked_lamports = chain.total_staked_lamports + args.amount;
    ctx.trigger_vault.reserve_lamports = ctx.trigger_vault.reserve_lamports + flat_fee;
    ctx.donation_record = DonationRecord {
        chain_id,
        round,
        donation_index,
        donor: ctx.donor.key,
        amount_lamports: args.amount,
        stake_account: ctx.stake_account.key,
        validator: ctx.validator_vote,
        bump: ctx.donation_record_bump,
    };
    ctx.stake_tracker = StakeTracker {
        chain_id,
        round,
        stake_account: ctx.stake_account.key,
        principal_lamports: args.amount,
        source_type: STAKE_SOURCE_TYPE_DONATION,
        source_index,
        is_active: true,
        is_deactivated: false,
        is_withdrawn: false,
        bump: ctx.stake_tracker_bump,
    };
    Ok(steps)
}

/// Donates to the chain `args.chain_id`, deriving its chain authority from `program_id`.
pub fn handler(ctx: &mut DonateToChain, program_id: &Address, args: &DonateToChainArgs) -> (r: Result<
    Vec<CpiStep>,
    ProgramFailure,
>)
    ensures
        donate_outcome(
            *old(ctx),
            *args,
            pda_address(chain_authority_seeds(args.chain_id), program_id@),
            *final(ctx),
            r,
        ),
        r is Ok && old(ctx).chain_account.well_formed() ==> final(ctx).chain_account.well_formed(),
{
    let expected = derived_address(find_chain_authority_pda(program_id, args.chain_id));
    process(ctx, args, &expected)
}

} // verus!
