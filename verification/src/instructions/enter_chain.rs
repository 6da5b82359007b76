//! Joining a chain: an entry at least the spread above the last one becomes the leader.
use crate::address::Address;
use crate::constants::{
    chain_authority_seeds, derived_address, find_chain_authority_pda, key_matches, matches_expected,
    opt_address_view, pda_address, MIN_ENTRY_LAMPORTS, STAKE_SOURCE_TYPE_ENTRY,
};
use crate::errors::{custom, ChainStakingError, ProgramFailure};
use crate::fees::{bps_of_truncating, bps_of_wrapped};
use crate::stake_utils::{
    create_stake_account, create_stake_account_check, delegate_stake_account, delegate_stake_account_check,
    failure, failure_of, initialize_stake_account, initialize_stake_account_check, push_stake_setup_steps,
    stake_setup_steps, CpiStep,
};
use crate::state::{AccountSnapshot, ChainAccount, EntryAccount, GlobalConfig, StakeTracker, TriggerVault, ValidatorRegistry};
use vstd::prelude::*;

verus! {

#[derive(Clone, Copy, Debug, PartialEq, Eq, Structural)]
pub struct EnterChainArgs {
    pub amount: u64,
    pub chain_id: u8,
}

/// What entering a chain reads and writes.
#[derive(Clone, Debug)]
pub struct EnterChain {
    pub staker: AccountSnapshot,
    pub global_config: GlobalConfig,
    pub validator_registry: ValidatorRegistry,
    pub chain_account: ChainAccount,
    pub trigger_vault: TriggerVault,
    pub trigger_vault_key: Address,
    /// The entry being created, and the bump of its address.
    pub entry_account: EntryAccount,
    pub entry_account_bump: u8,
    /// The tracker of the entry's stake, and the bump of its address.
    pub stake_tracker: StakeTracker,
    pub stake_tracker_bump: u8,
    pub stake_account: AccountSnapshot,
    pub chain_authority: Address,
    pub validator_vote: Address,
    pub fee_receiver: Address,
    pub clock: AccountSnapshot,
    pub system_program: AccountSnapshot,
    pub stake_program: AccountSnapshot,
    pub stake_history: AccountSnapshot,
    pub stake_config: AccountSnapshot,
    /// The rent-exempt minimum balance of a stake account.
    pub stake_minimum_balance: u64,
    pub clock_unix_timestamp: i64,
}

/// The least amount that may follow an entry of `last_entry_amount`:
/// `last_entry_amount * (10_000 + spread_bps) / 10_000`, rounded down.
pub open spec fn required_entry(last_entry_amount: u64, spread_bps: u32) -> int {
    (last_entry_amount as int * (10_000 + spread_bps as int)) / 10_000
}

/// The least amount that may enter `chain` now.
pub open spec fn required_amount(chain: ChainAccount) -> int {
    if chain.entry_count == 0 {
        MIN_ENTRY_LAMPORTS as int
    } else {
        required_entry(chain.last_entry_amount, chain.spread_bps)
    }
}

/// `required_entry`, or an overflow error when it does not fit in a `u64`. The result
/// is never below `last_entry_amount`.
pub fn compute_required_entry(last_entry_amount: u64, spread_bps: u32) -> (r: Result<u64, ProgramFailure>)
    ensures
        required_entry(last_entry_amount, spread_bps) <= u64::MAX ==> r == Ok::<u64, ProgramFailure>(
            required_entry(last_entry_amount, spread_bps) as u64,
        ),
        required_entry(last_entry_amount, spread_bps) > u64::MAX ==> r == Err::<u64, ProgramFailure>(
            custom(ChainStakingError::ArithmeticOverflow),
        ),
        r matches Ok(v) ==> v >= last_entry_amount,
{
    let multiplier = 10_000u128 + spread_bps as u128;
    let a = last_entry_amount as u128;
    assert(a * multiplier <= u64::MAX as int * (10_000 + u32::MAX as int)) by (nonlinear_arith)
        requires
            a <= u64::MAX,
            multiplier <= 10_000 + u32::MAX as int,
    ;
    let result = a * multiplier / 10_000;
    assert(result >= a) by (nonlinear_arith)
        requires
            result == a * multiplier / 10_000,
            multiplier >= 10_000,
            a >= 0,
    ;
    if result > u64::MAX as u128 {
        return Err(ProgramFailure::Custom(ChainStakingError::ArithmeticOverflow));
    }
    Ok(result as u64)
}

/// The first check that refuses an entry before any call is made, in the order they are
/// made: a broken chain, an overflowing required amount, too small an amount, an
/// unlisted validator, a fee receiver other than the protocol authority, a chain
/// authority other than the derived one, and an overflow of the entry count, the
/// chain's stake or the trigger reserve. The stake-account checks come after the fee
/// transfers (`stake_setup_error`).
pub open spec fn enter_chain_error(
    ctx: EnterChain,
    args: EnterChainArgs,
    expected_chain_authority: Option<Seq<u8>>,
) -> Option<ProgramFailure> {
    let chain = ctx.chain_account;
    if chain.is_broken {
        Some(custom(ChainStakingError::ChainIsBroken))
    } else if required_amount(chain) > u64::MAX {
        Some(custom(ChainStakingError::ArithmeticOverflow))
    } else if args.amount < required_amount(chain) {
        Some(custom(ChainStakingError::InsufficientEntryAmount))
    } else if !ctx.validator_registry.lists(ctx.validator_vote@) {
        Some(custom(ChainStakingError::InvalidValidator))
    } else if ctx.fee_receiver@ != ctx.global_config.authority@ {
        Some(custom(ChainStakingError::InvalidFeeReceiver))
    } else if !key_matches(ctx.chain_authority@, expected_chain_authority) {
        Some(custom(ChainStakingError::InvalidChainAuthority))
    } else if chain.entry_count + 1 > u32::MAX || chain.total_staked_lamports + args.amount > u64::MAX
        || ctx.trigger_vault.reserve_lamports + ctx.global_config.flat_fee_lamports > u64::MAX {
        Some(custom(ChainStakingError::ArithmeticOverflow))
    } else {
        None
    }
}

/// The first failing check of the stake-account creation, initialization and delegation.
/// Each is made after the calls before it: the fee transfers, then the creation before
/// the initialization check, and the initialization before the delegation check.
pub open spec fn stake_setup_error(ctx: EnterChain, amount: u64) -> Option<ProgramFailure> {
    let create = create_stake_account_check(
        ctx.staker,
        ctx.stake_account,
        ctx.system_program,
        amount,
        ctx.stake_minimum_balance,
    );
    let init = initialize_stake_account_check(ctx.stake_account, ctx.stake_program);
    let delegate = delegate_stake_account_check(
        ctx.stake_account,
        ctx.clock,
        ctx.stake_history,
        ctx.stake_config,
        ctx.stake_program,
    );
    if create is Err {
        failure_of(create)
    } else if init is Err {
        failure_of(init)
    } else {
        failure_of(delegate)
    }
}

/// The accounts after an accepted entry: the staker leads the chain with the new
/// entry at the next position of the current round, its stake is tracked, and the flat
/// fee is added to the trigger reserve.
pub open spec fn entered(ctx: EnterChain, args: EnterChainArgs) -> EnterChain {
    let chain = ctx.chain_account;
    EnterChain {
        chain_account: ChainAccount {
            entry_count: (chain.entry_count + 1) as u32,
            last_entry_amount: args.amount,
            last_entry_timestamp: ctx.clock_unix_timestamp,
            last_entry_authority: ctx.staker.key,
            total_staked_lamports: (chain.total_staked_lamports + args.amount) as u64,
            ..chain
        },
        entry_account: EntryAccount {
            chain_id: args.chain_id,
            round: chain.current_round,
            position: chain.entry_count,
            staker: ctx.staker.key,
            principal_lamports: args.amount,
            stake_account: ctx.stake_account.key,
            validator: ctx.validator_vote,
            is_unstaked: false,
            is_withdrawn: false,
            payout_lamports: 0,
            bump: ctx.entry_account_bump,
        },
        stake_tracker: StakeTracker {
            chain_id: args.chain_id,
            round: chain.current_round,
            stake_account: ctx.stake_account.key,
            principal_lamports: args.amount,
            source_type: STAKE_SOURCE_TYPE_ENTRY,
            source_index: chain.entry_count,
            is_active: true,
            is_deactivated: false,
            is_withdrawn: false,
            bump: ctx.stake_tracker_bump,
        },
        trigger_vault: TriggerVault {
            reserve_lamports: (ctx.trigger_vault.reserve_lamports + ctx.global_config.flat_fee_lamports) as u64,
            ..ctx.trigger_vault
        },
        ..ctx
    }
}

/// The calls an entry makes: the protocol fee to the fee receiver (when not zero), the
/// flat fee to the trigger vault, then the creation, initialization and delegation of
/// the entry's stake account, funded with the whole amount, each after its check; a
/// failing check ends the calls with `Fail`.
pub open spec fn enter_chain_steps(ctx: EnterChain, args: EnterChainArgs) -> Seq<CpiStep> {
    let fee = bps_of_wrapped(args.amount, ctx.global_config.fee_bps);
    let fees = seq![
        CpiStep::Transfer {
            from: ctx.staker.key,
            to: ctx.trigger_vault_key,
            lamports: ctx.global_config.flat_fee_lamports,
        },
    ];
    let setup = stake_setup_steps(
        failure_of(
            create_stake_account_check(
                ctx.staker,
                ctx.stake_account,
                ctx.system_program,
                args.amount,
                ctx.stake_minimum_balance,
            ),
        ),
        failure_of(initialize_stake_account_check(ctx.stake_account, ctx.stake_program)),
        failure_of(
            delegate_stake_account_check(
                ctx.stake_account,
                ctx.clock,
                ctx.stake_history,
                ctx.stake_config,
                ctx.stake_program,
            ),
        ),
        CpiStep::CreateStakeAccount { payer: ctx.staker.key, stake_account: ctx.stake_account.key, lamports: args.amount },
        CpiStep::InitializeStakeAccount { stake_account: ctx.stake_account.key, authority: ctx.chain_authority },
        CpiStep::DelegateStake {
            stake_account: ctx.stake_account.key,
            validator_vote: ctx.validator_vote,
            chain_id: args.chain_id,
            chain_authority_bump: ctx.chain_account.chain_authority_bump,
        },
    );
    if fee > 0 {
        seq![CpiStep::Transfer { from: ctx.staker.key, to: ctx.fee_receiver, lamports: fee }] + fees + setup
    } else {
        fees + setup
    }
}

/// Entering a chain: refused with `enter_chain_error` before any call (accounts
/// unchanged), or the calls of `enter_chain_steps`, with the accounts of `entered` when
/// the stake-account checks pass and unchanged when one refuses the entry (its `Fail`).
pub open spec fn enter_chain_outcome(
    before: EnterChain,
    args: EnterChainArgs,
    expected_chain_authority: Option<Seq<u8>>,
    after: EnterChain,
    r: Result<Vec<CpiStep>, ProgramFailure>,
) -> bool {
    match r {
        Ok(steps) => {
            &&& enter_chain_error(before, args, expected_chain_authority) is None
            &&& after == if stake_setup_error(before, args.amount) is None {
                entered(before, args)
            } else {
                before
            }
            &&& steps@ == enter_chain_steps(before, args)
        },
        Err(e) => {
            &&& enter_chain_error(before, args, expected_chain_authority) == Some(e)
            &&& after == before
        },
    }
}

/// Enters the chain, given the chain authority derived for `args.chain_id` (`None`
/// where none could be derived, which no account can match).
pub fn process(
    ctx: &mut EnterChain,
    args: &EnterChainArgs,
    expected_chain_authority: &Option<Address>,
) -> (r: Result<Vec<CpiStep>, ProgramFailure>)
    ensures
        enter_chain_outcome(*old(ctx), *args, opt_address_view(*expected_chain_authority), *final(ctx), r),
        r is Ok && old(ctx).chain_account.well_formed() ==> final(ctx).chain_account.well_formed(),
{
    let chain = ctx.chain_account;
    if chain.is_broken {
        return Err(ProgramFailure::Custom(ChainStakingError::ChainIsBroken));
    }
    let required_amount = if chain.entry_count == 0 {
        MIN_ENTRY_LAMPORTS
    } else {
        compute_required_entry(chain.last_entry_amount, chain.spread_bps)?
    };
    if args.amount < required_amount {
        return Err(ProgramFailure::Custom(ChainStakingError::InsufficientEntryAmount));
    }
    if !ctx.validator_registry.contains(&ctx.validator_vote) {
        return Err(ProgramFailure::Custom(ChainStakingError::InvalidValidator));
    }
    if !ctx.fee_receiver.equals(&ctx.global_config.authority) {
        return Err(ProgramFailure::Custom(ChainStakingError::InvalidFeeReceiver));
    }
    if !matches_expected(&ctx.chain_authority, expected_chain_authority) {
        return Err(ProgramFailure::Custom(ChainStakingError::InvalidChainAuthority));
    }
    let protocol_fee = bps_of_truncating(args.amount, ctx.global_config.fee_bps);
    let flat_fee = ctx.global_config.flat_fee_lamports;
    let position = chain.entry_count;
    let round = chain.current_round;
    let chain_id = args.chain_id;
    let chain_authority_bump = chain.chain_authority_bump;
    if position == u32::MAX || chain.total_staked_lamports > u64::MAX - args.amount
        || ctx.trigger_vault.reserve_lamports > u64::MAX - flat_fee {
        return Err(ProgramFailure::Custom(ChainStakingError::ArithmeticOverflow));
    }
    let create = create_stake_account(
        &ctx.staker,
        &ctx.stake_account,
        &ctx.system_program,
        args.amount,
        ctx.stake_minimum_balance,
    );
    let init = initialize_stake_account(&ctx.stake_account, &ctx.stake_program);
    let delegate = delegate_stake_account(
        &ctx.stake_account,
        &ctx.clock,
        &ctx.stake_history,
        &ctx.stake_config,
        &ctx.stake_program,
    );
    let create_failure = failure(&create);
    let init_failure = failure(&init);
    let delegate_failure = failure(&delegate);
    let mut steps: Vec<CpiStep> = Vec::new();
    if protocol_fee > 0 {
        steps.push(CpiStep::Transfer { from: ctx.staker.key, to: ctx.fee_receiver, lamports: protocol_fee });
    }
    steps.push(CpiStep::Transfer { from: ctx.staker.key, to: ctx.trigger_vault_key, lamports: flat_fee });
    push_stake_setup_steps(
        &mut steps,
        create_failure,
        init_failure,
        delegate_failure,
        CpiStep::CreateStakeAccount { payer: ctx.staker.key, stake_account: ctx.stake_account.key, lamports: args.amount },
        CpiStep::InitializeStakeAccount { stake_account: ctx.stake_account.key, authority: ctx.chain_authority },
        CpiStep::DelegateStake {
            stake_account: ctx.stake_account.key,
            validator_vote: ctx.validator_vote,
            chain_id,
            chain_authority_bump,
        },
    );
    assert(steps@ =~= enter_chain_steps(*ctx, *args));
    if create_failure.is_some() || init_failure.is_some() || delegate_failure.is_some() {
        return Ok(steps);
    }
    let ghost before = *ctx;
    ctx.chain_account.entry_count = position + 1;
    ctx.chain_account.last_entry_amount = args.amount;
    ctx.chain_account.last_entry_timestamp = ctx.clock_unix_timestamp;
    ctx.chain_account.last_entry_authority = ctx.staker.key;
    ctx.chain_account.total_staked_lamports = chain.total_staked_lamports + args.amount;
    ctx.entry_account = EntryAccount {
        chain_id,
        round,
        position,
        staker: ctx.staker.key,
        principal_lamports: args.amount,
        stake_account: ctx.stake_account.key,
        validator: ctx.validator_vote,
        is_unstaked: false,
        is_withdrawn: false,
        payout_lamports: 0,
        bump: ctx.entry_account_bump,
    };
    ctx.stake_tracker = StakeTracker {
        chain_id,
        round,
        stake_account: ctx.stake_account.key,
        principal_lamports: args.amount,
        source_type: STAKE_SOURCE_TYPE_ENTRY,
        source_index: position,
        is_active: true,
        is_deactivated: false,
        is_withdrawn: false,
        bump: ctx.stake_tracker_bump,
    };
    ctx.trigger_vault.reserve_lamports = ctx.trigger_vault.reserve_lamports + flat_fee;
    Ok(steps)
}

/// A chain only grows: an accepted entry that follows another is at least the spread
/// above it, and so never below it, and becomes the amount the next entry must exceed.
pub proof fn lemma_entries_never_shrink(
    ctx: EnterChain,
    args: EnterChainArgs,
    expected_chain_authority: Option<Seq<u8>>,
)
    requires
        enter_chain_error(ctx, args, expected_chain_authority) is None,
        ctx.chain_account.entry_count > 0,
    ensures
        args.amount >= required_entry(ctx.chain_account.last_entry_amount, ctx.chain_account.spread_bps),
        args.amount >= ctx.chain_account.last_entry_amount,
        required_amount(entered(ctx, args).chain_account) == required_entry(args.amount, ctx.chain_account.spread_bps),
{
    let last = ctx.chain_account.last_entry_amount as int;
    let spread = ctx.chain_account.spread_bps as int;
    assert((last * (10_000 + spread)) / 10_000 >= last) by (nonlinear_arith)
        requires
            last >= 0,
            spread >= 0,
    ;
}

/// The first entry of a round must be at least `MIN_ENTRY_LAMPORTS`: on a chain with no
/// entries, a smaller amount is refused as insufficient (unless the chain is broken)
/// and changes nothing, and no entry of a smaller amount gets past the checks.
pub proof fn lemma_first_entry_minimum(
    before: EnterChain,
    args: EnterChainArgs,
    expected_chain_authority: Option<Seq<u8>>,
    after: EnterChain,
    r: Result<Vec<CpiStep>, ProgramFailure>,
)
    requires
        enter_chain_outcome(before, args, expected_chain_authority, after, r),
        before.chain_account.entry_count == 0,
    ensures
        !before.chain_account.is_broken && args.amount < MIN_ENTRY_LAMPORTS ==> (r matches Err(e) && e
            == custom(ChainStakingError::InsufficientEntryAmount)) && after == before,
        r is Ok ==> args.amount >= MIN_ENTRY_LAMPORTS,
        r is Ok && stake_setup_error(before, args.amount) is None ==> {
            &&& after.chain_account.entry_count == 1
            &&& after.chain_account.last_entry_amount == args.amount
            &&& after.entry_account.position == 0
        },
{
}

/// An entry after another must reach the spread above it: on a chain with entries, an
/// amount below `last * (10_000 + spread_bps) / 10_000` is refused as insufficient
/// (unless the chain is broken or that bound overflows) and changes nothing, and no
/// smaller amount gets past the checks.
pub proof fn lemma_next_entry_beats_spread(
    before: EnterChain,
    args: EnterChainArgs,
    expected_chain_authority: Option<Seq<u8>>,
    after: EnterChain,
    r: Result<Vec<CpiStep>, ProgramFailure>,
)
    requires
        enter_chain_outcome(before, args, expected_chain_authority, after, r),
        before.chain_account.entry_count > 0,
    ensures
        ({
            let c = before.chain_account;
            let bound = (c.last_entry_amount as int * (10_000 + c.spread_bps as int)) / 10_000;
            &&& r is Ok ==> args.amount >= bound
            &&& !c.is_broken && bound <= u64::MAX && args.amount < bound ==> (r matches Err(e) && e == custom(
                ChainStakingError::InsufficientEntryAmount,
            )) && after == before
        }),
{
}

/// What an accepted entry does: the staker leads the chain with the amount, at the next
/// position of the round; the chain's stake grows by the amount and the trigger reserve
/// by the flat fee; and the staker pays first the protocol fee, `amount * fee_bps /
/// 10_000` (cut to 64 bits), to the fee receiver when it is not zero, then the flat fee
/// to the trigger vault.
pub proof fn lemma_entry_effects(
    before: EnterChain,
    args: EnterChainArgs,
    expected_chain_authority: Option<Seq<u8>>,
    after: EnterChain,
    r: Result<Vec<CpiStep>, ProgramFailure>,
)
    requires
        enter_chain_outcome(before, args, expected_chain_authority, after, r),
        r is Ok,
        stake_setup_error(before, args.amount) is None,
    ensures
        ({
            let c = before.chain_account;
            let fee = ((args.amount as int * before.global_config.fee_bps as int) / 10_000) % 0x1_0000_0000_0000_0000;
            let flat = CpiStep::Transfer {
                from: before.staker.key,
                to: before.trigger_vault_key,
                lamports: before.global_config.flat_fee_lamports,
            };
            &&& after.chain_account.entry_count == c.entry_count + 1
            &&& after.chain_account.last_entry_amount == args.amount
            &&& after.chain_account.last_entry_timestamp == before.clock_unix_timestamp
            &&& after.chain_account.last_entry_authority == before.staker.key
            &&& after.chain_account.total_staked_lamports == c.total_staked_lamports + args.amount
            &&& after.chain_account.current_round == c.current_round && !after.chain_account.is_broken
            &&& after.trigger_vault.reserve_lamports == before.trigger_vault.reserve_lamports
                + before.global_config.flat_fee_lamports
            &&& after.entry_account.position == c.entry_count && after.entry_account.round == c.current_round
            &&& after.entry_account.principal_lamports == args.amount && after.entry_account.staker == before.staker.key
            &&& after.stake_tracker.principal_lamports == args.amount && after.stake_tracker.source_index == c.entry_count
            &&& r matches Ok(steps) && if fee > 0 {
                &&& steps@[0] == CpiStep::Transfer { from: before.staker.key, to: before.fee_receiver, lamports: fee as u64 }
                &&& steps@[1] == flat
            } else {
                steps@[0] == flat
            }
        }),
{
}

/// Enters the chain `args.chain_id`, deriving its chain authority from `program_id`.
pub fn handler(ctx: &mut EnterChain, program_id: &Address, args: &EnterChainArgs) -> (r: Result<
    Vec<CpiStep>,
    ProgramFailure,
>)
    ensures
        enter_chain_outcome(
            *old(ctx),
            *args,
            pda_address(chain_authority_seeds(args.chain_id), program_id@),
            *final(ctx),
            r,
        ),
        r is Ok && old(ctx).chain_account.well_formed() ==> final(ctx).chain_account.well_formed(),
{
    let expected = derived_address(find_chain_authority_pda(program_id, args.chain_id));
    process(ctx, args, &expected)
}

} // verus!
