//! Withdrawing a deactivated stake of a settled round and paying out its entry; the
//! last withdrawal of a round opens the next one.
use crate::address::{zero_address, zero_key, Address};
use crate::constants::{
    chain_authority_seeds, derived_address, find_chain_authority_pda, key_matches, matches_expected,
    opt_address_view, pda_address, BREAK_TYPE_NONE,
};
use crate::errors::{custom, ChainStakingError, ProgramFailure};
use crate::fees::{bps_of, bps_of_truncating, bps_of_wrapped};
use crate::stake_utils::{failure_of, withdraw_stake_account, withdraw_stake_account_check, CpiStep};
use crate::state::{AccountSnapshot, ChainAccount, EntryAccount, GlobalConfig, StakeTracker};
use vstd::prelude::*;

verus! {

#[derive(Clone, Copy, Debug, PartialEq, Eq, Structural)]
pub struct WithdrawAfterCooldownArgs {
    pub chain_id: u8,
    /// The kind of the stake being withdrawn (entry, donation or compound).
    pub source_type: u8,
    /// The index of the stake being withdrawn.
    pub source_index: u32,
    /// The position of the entry whose payout is claimed.
    pub entry_position: u32,
}

/// What a withdrawal reads and writes.
#[derive(Clone, Copy, Debug)]
pub struct WithdrawAfterCooldown {
    /// Whoever completes the withdrawal.
    pub recipient: Address,
    pub global_config: GlobalConfig,
    pub chain_account: ChainAccount,
    pub entry_account: EntryAccount,
    pub stake_tracker: StakeTracker,
    pub stake_account: AccountSnapshot,
    /// The chain authority, which receives the stake and pays it out.
    pub chain_authority: AccountSnapshot,
    /// The entry's staker, who receives the payout.
    pub staker: Address,
    pub fee_receiver: Address,
    pub clock: AccountSnapshot,
    pub stake_history: AccountSnapshot,
    pub stake_program: AccountSnapshot,
}

/// What the stake holds beyond the entry's principal (0 when it holds less).
pub open spec fn actual_yield(ctx: WithdrawAfterCooldown) -> u64 {
    if ctx.stake_account.lamports >= ctx.entry_account.principal_lamports {
        (ctx.stake_account.lamports - ctx.entry_account.principal_lamports) as u64
    } else {
        0
    }
}

/// The withdrawal fee: a basis-point part of the actual yield only.
pub open spec fn withdrawal_fee(ctx: WithdrawAfterCooldown) -> u64 {
    bps_of_wrapped(actual_yield(ctx), ctx.global_config.withdrawal_fee_bps)
}

/// The payout after the fee.
pub open spec fn net_payout(ctx: WithdrawAfterCooldown) -> u64 {
    (ctx.entry_account.payout_lamports - withdrawal_fee(ctx)) as u64
}

/// What the stake holds beyond the payout, returned to the staker.
pub open spec fn remaining_dust(ctx: WithdrawAfterCooldown) -> u64 {
    if ctx.stake_account.lamports >= ctx.entry_account.payout_lamports {
        (ctx.stake_account.lamports - ctx.entry_account.payout_lamports) as u64
    } else {
        0
    }
}

/// What the chain authority pays out: the net payout, the fee and the dust.
pub open spec fn paid_out(ctx: WithdrawAfterCooldown) -> int {
    net_payout(ctx) + withdrawal_fee(ctx) + remaining_dust(ctx)
}

/// The chain's stake after this stake leaves it (never below zero).
pub open spec fn staked_after(ctx: WithdrawAfterCooldown) -> u64 {
    let total = ctx.chain_account.total_staked_lamports;
    let principal = ctx.stake_tracker.principal_lamports;
    if total >= principal {
        (total - principal) as u64
    } else {
        0
    }
}

/// The first check that refuses the withdrawal before the stake is withdrawn, in the
/// order they are made; the checks after it are `payout_refused`. The balances of the
/// staker and the fee receiver are not read here: a move that would overflow one of
/// them is refused by `transfer_from_pda` when the move is made.
pub open spec fn withdraw_error(ctx: WithdrawAfterCooldown, expected_chain_authority: Option<Seq<u8>>) -> Option<
    ProgramFailure,
> {
    let chain = ctx.chain_account;
    let check = withdraw_stake_account_check(
        ctx.stake_account,
        ctx.chain_authority,
        ctx.clock,
        ctx.stake_history,
        ctx.stake_program,
    );
    if !chain.is_broken {
        Some(custom(ChainStakingError::ChainNotBroken))
    } else if !chain.round_settled {
        Some(custom(ChainStakingError::RoundNotSettled))
    } else if !ctx.stake_tracker.is_deactivated {
        Some(custom(ChainStakingError::StakeNotDeactivated))
    } else if ctx.stake_tracker.is_withdrawn {
        Some(custom(ChainStakingError::AlreadyWithdrawn))
    } else if ctx.stake_account.key@ != ctx.stake_tracker.stake_account@ {
        Some(custom(ChainStakingError::StakeTrackerStakeAccountMismatch))
    } else if !key_matches(ctx.chain_authority.key@, expected_chain_authority) {
        Some(custom(ChainStakingError::InvalidChainAuthority))
    } else if ctx.staker@ != ctx.entry_account.staker@ {
        Some(custom(ChainStakingError::ExitWrongStaker))
    } else if ctx.fee_receiver@ != ctx.global_config.authority@ {
        Some(custom(ChainStakingError::InvalidFeeReceiver))
    } else if ctx.entry_account.is_withdrawn {
        Some(custom(ChainStakingError::AlreadyWithdrawn))
    } else if check is Err {
        failure_of(check)
    } else {
        None
    }
}

/// The checks made once the stake is withdrawn, each refusing with an overflow error: a
/// fee above the payout, a chain authority (holding its own balance plus the stake)
/// short of what it pays out, and a round that cannot advance.
pub open spec fn payout_refused(ctx: WithdrawAfterCooldown) -> bool {
    ||| withdrawal_fee(ctx) > ctx.entry_account.payout_lamports
    ||| ctx.chain_authority.lamports + ctx.stake_account.lamports < paid_out(ctx)
    ||| staked_after(ctx) == 0 && ctx.chain_account.current_round == u32::MAX
}

/// The chain opening its next round: the round advances and everything else of the
/// old round is cleared.
pub open spec fn next_round(chain: ChainAccount) -> ChainAccount {
    ChainAccount {
        current_round: (chain.current_round + 1) as u32,
        entry_count: 0,
        donation_count: 0,
        donation_pot_lamports: 0,
        last_entry_amount: 0,
        last_entry_timestamp: 0,
        last_entry_authority: zero_key(),
        frontend_estimated_yield_pool_lamports: 0,
        is_broken: false,
        break_type: BREAK_TYPE_NONE,
        round_settled: false,
        total_staked_lamports: 0,
        ..chain
    }
}

/// The accounts after an accepted withdrawal: the stake and the entry are marked
/// withdrawn, the stake leaves the chain's total, and when nothing is left staked the
/// next round opens.
pub open spec fn withdrawn(ctx: WithdrawAfterCooldown) -> WithdrawAfterCooldown {
    let chain = ChainAccount { total_staked_lamports: staked_after(ctx), ..ctx.chain_account };
    WithdrawAfterCooldown {
        stake_tracker: StakeTracker { is_withdrawn: true, ..ctx.stake_tracker },
        entry_account: EntryAccount { is_withdrawn: true, is_unstaked: true, ..ctx.entry_account },
        chain_account: if staked_after(ctx) == 0 && chain.round_settled {
            next_round(chain)
        } else {
            chain
        },
        ..ctx
    }
}

/// The calls of a withdrawal: the whole stake withdrawn to the chain authority, then,
/// unless `payout_refused` ends the calls with `Fail`, the payout moves.
pub open spec fn withdraw_steps(ctx: WithdrawAfterCooldown, chain_id: u8) -> Seq<CpiStep> {
    let from = ctx.chain_authority.key;
    let net = net_payout(ctx);
    let fee = withdrawal_fee(ctx);
    let dust = remaining_dust(ctx);
    let withdraw = seq![
        CpiStep::WithdrawStake {
            stake_account: ctx.stake_account.key,
            recipient: from,
            chain_id,
            chain_authority_bump: ctx.chain_account.chain_authority_bump,
        },
    ];
    if payout_refused(ctx) {
        withdraw + seq![CpiStep::Fail { error: custom(ChainStakingError::ArithmeticOverflow) }]
    } else {
        withdraw + payout_steps(from, ctx.staker, ctx.fee_receiver, net, fee, dust)
    }
}

/// The net payout to the staker, the fee to the fee receiver and the dust to the
/// staker, each moved from `from` only when not zero.
pub open spec fn payout_steps(from: Address, staker: Address, fee_receiver: Address, net: u64, fee: u64, dust: u64) -> Seq<
    CpiStep,
> {
    (if net > 0 {
        seq![CpiStep::MoveLamports { from, to: staker, lamports: net }]
    } else {
        Seq::empty()
    }) + (if fee > 0 {
        seq![CpiStep::MoveLamports { from, to: fee_receiver, lamports: fee }]
    } else {
        Seq::empty()
    }) + (if dust > 0 {
        seq![CpiStep::MoveLamports { from, to: staker, lamports: dust }]
    } else {
        Seq::empty()
    })
}

/// A withdrawal: refused with `withdraw_error` before any call (accounts unchanged), or
/// the calls of `withdraw_steps`, with the accounts of `withdrawn` unless
/// `payout_refused` refuses it after the stake is withdrawn (accounts unchanged).
pub open spec fn withdraw_outcome(
    before: WithdrawAfterCooldown,
    chain_id: u8,
    expected_chain_authority: Option<Seq<u8>>,
    after: WithdrawAfterCooldown,
    r: Result<Vec<CpiStep>, ProgramFailure>,
) -> bool {
    match r {
        Ok(steps) => {
            &&& withdraw_error(before, expected_chain_authority) is None
            &&& after == if payout_refused(before) {
                before
            } else {
                withdrawn(before)
            }
            &&& steps@ == withdraw_steps(before, chain_id)
        },
        Err(e) => {
            &&& withdraw_error(before, expected_chain_authority) == Some(e)
            &&& after == before
        },
    }
}

/// Moves `amount` lamports out of the chain authority. Fails with an overflow error
/// when the source holds less than the amount or the destination would overflow;
/// otherwise the two balances keep their sum.
pub fn transfer_from_pda(source_lamports: u64, destination_lamports: u64, amount: u64) -> (r: Result<
    (u64, u64),
    ProgramFailure,
>)
    ensures
        amount > source_lamports || destination_lamports + amount > u64::MAX ==> r == Err::<
            (u64, u64),
            ProgramFailure,
        >(custom(ChainStakingError::ArithmeticOverflow)),
        amount <= source_lamports && destination_lamports + amount <= u64::MAX ==> r == Ok::<
            (u64, u64),
            ProgramFailure,
        >(((source_lamports - amount) as u64, (destination_lamports + amount) as u64)),
        r matches Ok(b) ==> b.0 + b.1 == source_lamports + destination_lamports,
{
    if amount > source_lamports || destination_lamports > u64::MAX - amount {
        return Err(ProgramFailure::Custom(ChainStakingError::ArithmeticOverflow));
    }
    Ok((source_lamports - amount, destination_lamports + amount))
}

/// The withdrawal of the stake, then the overflow refusal.
fn refused_after_withdrawal(withdraw_step: CpiStep) -> (steps: Vec<CpiStep>)
    ensures
        steps@ == seq![withdraw_step, CpiStep::Fail { error: custom(ChainStakingError::ArithmeticOverflow) }],
{
    let mut steps: Vec<CpiStep> = Vec::new();
    steps.push(withdraw_step);
    steps.push(CpiStep::Fail { error: ProgramFailure::Custom(ChainStakingError::ArithmeticOverflow) });
    assert(steps@ =~= seq![withdraw_step, CpiStep::Fail { error: custom(ChainStakingError::ArithmeticOverflow) }]);
    steps
}

/// Withdraws the stake and pays out the entry, given the derived chain authority.
pub fn process(ctx: &mut WithdrawAfterCooldown, chain_id: u8, expected_chain_authority: &Option<Address>) -> (r:
    Result<Vec<CpiStep>, ProgramFailure>)
    ensures
        withdraw_outcome(*old(ctx), chain_id, opt_address_view(*expected_chain_authority), *final(ctx), r),
        r is Ok && old(ctx).chain_account.well_formed() ==> final(ctx).chain_account.well_formed(),
{
    let chain = ctx.chain_account;
    if !chain.is_broken {
        return Err(ProgramFailure::Custom(ChainStakingError::ChainNotBroken));
    }
    if !chain.round_settled {
        return Err(ProgramFailure::Custom(ChainStakingError::RoundNotSettled));
    }
    if !ctx.stake_tracker.is_deactivated {
        return Err(ProgramFailure::Custom(ChainStakingError::StakeNotDeactivated));
    }
    if ctx.stake_tracker.is_withdrawn {
        return Err(ProgramFailure::Custom(ChainStakingError::AlreadyWithdrawn));
    }
    if !ctx.stake_account.key.equals(&ctx.stake_tracker.stake_account) {
        return Err(ProgramFailure::Custom(ChainStakingError::StakeTrackerStakeAccountMismatch));
    }
    if !matches_expected(&ctx.chain_authority.key, expected_chain_authority) {
        return Err(ProgramFailure::Custom(ChainStakingError::InvalidChainAuthority));
    }
    if !ctx.staker.equals(&ctx.entry_account.staker) {
        return Err(ProgramFailure::Custom(ChainStakingError::ExitWrongStaker));
    }
    if !ctx.fee_receiver.equals(&ctx.global_config.authority) {
        return Err(ProgramFailure::Custom(ChainStakingError::InvalidFeeReceiver));
    }
    if ctx.entry_account.is_withdrawn {
        return Err(ProgramFailure::Custom(ChainStakingError::AlreadyWithdrawn));
    }
    let chain_authority_bump = chain.chain_authority_bump;
    let stake_balance_before = ctx.stake_account.lamports;
    withdraw_stake_account(&ctx.stake_account, &ctx.chain_authority, &ctx.clock, &ctx.stake_history, &ctx.stake_program)?;
    let payout = ctx.entry_account.payout_lamports;
    let principal = ctx.entry_account.principal_lamports;
    let actual_yield = if stake_balance_before >= principal {
        stake_balance_before - principal
    } else {
        0
    };
    let withdrawal_fee = if actual_yield > 0 {
        bps_of_truncating(actual_yield, ctx.global_config.withdrawal_fee_bps)
    } else {
        0
    };
    assert(withdrawal_fee == bps_of_wrapped(actual_yield, ctx.global_config.withdrawal_fee_bps)) by {
        if actual_yield == 0 {
            let b = ctx.global_config.withdrawal_fee_bps;
            assert(0u64 as int * b as int == 0) by (nonlinear_arith);
            assert(bps_of(0, b) == 0);
            assert(bps_of_wrapped(0, b) == 0);
        }
    }
    let withdraw_step = CpiStep::WithdrawStake {
        stake_account: ctx.stake_account.key,
        recipient: ctx.chain_authority.key,
        chain_id,
        chain_authority_bump,
    };
    if withdrawal_fee > payout {
        assert(withdraw_steps(*ctx, chain_id) =~= seq![withdraw_step, CpiStep::Fail { error: custom(ChainStakingError::ArithmeticOverflow) }]);
        return Ok(refused_after_withdrawal(withdraw_step));
    }
    let net_payout = payout - withdrawal_fee;
    let distributed = net_payout + withdrawal_fee;
    let remaining_dust = if stake_balance_before >= distributed {
        stake_balance_before - distributed
    } else {
        0
    };
    let total_out = distributed + remaining_dust;
    let authority_lamports = ctx.chain_authority.lamports;
    if authority_lamports < total_out && total_out - authority_lamports > stake_balance_before {
        assert(withdraw_steps(*ctx, chain_id) =~= seq![withdraw_step, CpiStep::Fail { error: custom(ChainStakingError::ArithmeticOverflow) }]);
        return Ok(refused_after_withdrawal(withdraw_step));
    }
    let total = chain.total_staked_lamports;
    let tracker_principal = ctx.stake_tracker.principal_lamports;
    let staked = if total >= tracker_principal {
        total - tracker_principal
    } else {
        0
    };
    let advances = staked == 0 && chain.round_settled;
    if advances && chain.current_round == u32::MAX {
        assert(withdraw_steps(*ctx, chain_id) =~= seq![withdraw_step, CpiStep::Fail { error: custom(ChainStakingError::ArithmeticOverflow) }]);
        return Ok(refused_after_withdrawal(withdraw_step));
    }
    let ghost before = *ctx;
    let mut steps: Vec<CpiStep> = Vec::new();
    steps.push(withdraw_step);
    if net_payout > 0 {
        steps.push(CpiStep::MoveLamports { from: ctx.chain_authority.key, to: ctx.staker, lamports: net_payout });
    }
    if withdrawal_fee > 0 {
        steps.push(CpiStep::MoveLamports {
            from: ctx.chain_authority.key,
            to: ctx.fee_receiver,
            lamports: withdrawal_fee,
        });
    }
    if remaining_dust > 0 {
        steps.push(CpiStep::MoveLamports { from: ctx.chain_authority.key, to: ctx.staker, lamports: remaining_dust });
    }
    ctx.stake_tracker.is_withdrawn = true;
    ctx.entry_account.is_withdrawn = true;
    ctx.entry_account.is_unstaked = true;
    ctx.chain_account.total_staked_lamports = staked;
    if advances {
        ctx.chain_account.current_round = chain.current_round + 1;
        ctx.chain_account.entry_count = 0;
        ctx.chain_account.donation_count = 0;
        ctx.chain_account.donation_pot_lamports = 0;
        ctx.chain_account.last_entry_amount = 0;
        ctx.chain_account.last_entry_timestamp = 0;
        ctx.chain_account.last_entry_authority = Address::zero();
        ctx.chain_account.frontend_estimated_yield_pool_lamports = 0;
        ctx.chain_account.is_broken = false;
        ctx.chain_account.break_type = BREAK_TYPE_NONE;
        ctx.chain_account.round_settled = false;
    }
    assert(steps@ =~= withdraw_steps(before, chain_id));
    Ok(steps)
}

/// Withdraws the stake and pays out the entry on chain `args.chain_id`.
pub fn handler(ctx: &mut WithdrawAfterCooldown, program_id: &Address, args: &WithdrawAfterCooldownArgs) -> (r:
    Result<Vec<CpiStep>, ProgramFailure>)
    ensures
        withdraw_outcome(
            *old(ctx),
            args.chain_id,
            pda_address(chain_authority_seeds(args.chain_id), program_id@),
            *final(ctx),
            r,
        ),
        r is Ok && old(ctx).chain_account.well_formed() ==> final(ctx).chain_account.well_formed(),
{
    let expected = derived_address(find_chain_authority_pda(program_id, args.chain_id));
    process(ctx, args.chain_id, &expected)
}

/// A withdrawal releases exactly the withdrawn stake from the chain: its total stake
/// drops by the withdrawn stake tracker's principal (to no less than zero), whatever
/// entry the payout is claimed for, and the next round opens exactly when nothing is
/// left staked.
pub proof fn lemma_withdrawal_releases_the_stake(
    before: WithdrawAfterCooldown,
    chain_id: u8,
    expected_chain_authority: Option<Seq<u8>>,
    after: WithdrawAfterCooldown,
    r: Result<Vec<CpiStep>, ProgramFailure>,
)
    requires
        withdraw_outcome(before, chain_id, expected_chain_authority, after, r),
        r is Ok,
        !payout_refused(before),
    ensures
        ({
            let total = before.chain_account.total_staked_lamports;
            let principal = before.stake_tracker.principal_lamports;
            let left = if total >= principal {
                total - principal
            } else {
                0
            };
            &&& after.chain_account.total_staked_lamports == left
            &&& after.chain_account.current_round == if left == 0 {
                before.chain_account.current_round + 1
            } else {
                before.chain_account.current_round as int
            }
            &&& after.stake_tracker.is_withdrawn && after.entry_account.is_withdrawn
        }),
{
}

/// The calls of an accepted withdrawal: the whole stake withdrawn to the chain
/// authority, then from it the payout less the fee to the staker, the fee to the fee
/// receiver, and the stake above the payout back to the staker, each when not zero.
/// The fee is `withdrawal_fee_bps / 10_000` (cut to 64 bits) of what the stake holds
/// above the entry's principal, nothing when it holds no more.
pub proof fn lemma_withdrawal_calls(
    before: WithdrawAfterCooldown,
    chain_id: u8,
    expected_chain_authority: Option<Seq<u8>>,
    after: WithdrawAfterCooldown,
    r: Result<Vec<CpiStep>, ProgramFailure>,
)
    requires
        withdraw_outcome(before, chain_id, expected_chain_authority, after, r),
        r is Ok,
        !payout_refused(before),
    ensures
        ({
            let stake = before.stake_account.lamports as int;
            let payout = before.entry_account.payout_lamports as int;
            let gain = if stake >= before.entry_account.principal_lamports {
                stake - before.entry_account.principal_lamports
            } else {
                0
            };
            let fee = ((gain * before.global_config.withdrawal_fee_bps as int) / 10_000) % 0x1_0000_0000_0000_0000;
            let net = payout - fee;
            let dust = if stake >= payout {
                stake - payout
            } else {
                0
            };
            let from = before.chain_authority.key;
            &&& 0 <= fee <= payout
            &&& r matches Ok(steps) && steps@ == seq![
                CpiStep::WithdrawStake {
                    stake_account: before.stake_account.key,
                    recipient: from,
                    chain_id,
                    chain_authority_bump: before.chain_account.chain_authority_bump,
                },
            ] + (if net > 0 {
                seq![CpiStep::MoveLamports { from, to: before.staker, lamports: net as u64 }]
            } else {
                Seq::empty()
            }) + (if fee > 0 {
                seq![CpiStep::MoveLamports { from, to: before.fee_receiver, lamports: fee as u64 }]
            } else {
                Seq::empty()
            }) + (if dust > 0 {
                seq![CpiStep::MoveLamports { from, to: before.staker, lamports: dust as u64 }]
            } else {
                Seq::empty()
            })
        }),
{
}

/// What leaves the chain authority adds up: the net payout, the fee and the dust come
/// to the larger of the payout and the withdrawn stake, and never to more.
pub proof fn lemma_withdrawal_distribution(ctx: WithdrawAfterCooldown, expected_chain_authority: Option<Seq<u8>>)
    requires
        withdraw_error(ctx, expected_chain_authority) is None,
        !payout_refused(ctx),
    ensures
        net_payout(ctx) + withdrawal_fee(ctx) == ctx.entry_account.payout_lamports,
        net_payout(ctx) + withdrawal_fee(ctx) + remaining_dust(ctx) == if ctx.stake_account.lamports
            >= ctx.entry_account.payout_lamports {
            ctx.stake_account.lamports as int
        } else {
            ctx.entry_account.payout_lamports as int
        },
{
}

/// The withdrawal that empties a round leaves a fresh chain: the next round, no
/// entries, no leader, no donations, nothing staked, and not broken.
pub proof fn lemma_round_advances_to_fresh_chain(ctx: WithdrawAfterCooldown, expected_chain_authority: Option<Seq<u8>>)
    requires
        withdraw_error(ctx, expected_chain_authority) is None,
        !payout_refused(ctx),
        staked_after(ctx) == 0,
    ensures
        ({
            let c = withdrawn(ctx).chain_account;
            &&& c.current_round == ctx.chain_account.current_round + 1
            &&& c.entry_count == 0 && c.donation_count == 0 && c.donation_pot_lamports == 0
            &&& c.total_staked_lamports == 0
            &&& c.last_entry_authority@ == zero_address()
            &&& !c.is_broken && c.break_type == BREAK_TYPE_NONE && !c.round_settled
            &&& c.well_formed()
            &&& c.chain_id == ctx.chain_account.chain_id && c.spread_bps == ctx.chain_account.spread_bps
        }),
{
    crate::address::lemma_zero_key_view();
}

} // verus!
