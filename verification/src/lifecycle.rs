//! Laws that span instructions: how a chain stays broken within a round, and how the
//! donations of a round are numbered.
use crate::errors::{custom, ChainStakingError, ProgramFailure};
use crate::instructions::compound_rewards::{
    compound_error, compound_setup_error, compounded, CompoundRewards, CompoundRewardsArgs,
};
use crate::instructions::compute_payouts::{
    compute_payouts_error, computed, ComputePayouts, ComputePayoutsArgs, ExpectedAccounts,
};
use crate::instructions::donate_to_chain::{chain_after_donation, donate_error, donated, DonateToChain, DonateToChainArgs};
use crate::instructions::enter_chain::{enter_chain_error, enter_chain_outcome, entered, EnterChain, EnterChainArgs};
use crate::instructions::exit_first_entrant::{exit_error, exited, ExitFirstEntrant};
use crate::instructions::manual_break_chain::{broken_manually, manual_break_error, ManualBreakChain};
use crate::instructions::trigger_unstake::{trigger_error, trigger_refused, triggered, TriggerUnstake};
use crate::instructions::withdraw_after_cooldown::{payout_refused, withdraw_error, withdrawn, WithdrawAfterCooldown};
use crate::stake_utils::CpiStep;
use crate::state::ChainAccount;
use vstd::prelude::*;

verus! {

/// Within one round, a broken chain stays broken and the donation count stays put.
pub open spec fn round_state_kept(before: ChainAccount, after: ChainAccount) -> bool {
    after.current_round == before.current_round ==> {
        &&& before.is_broken ==> after.is_broken
        &&& after.donation_count == before.donation_count
    }
}

/// A chain breaks in two ways: an accepted manual break breaks it, and so does an
/// accepted donation that brings the pot up to the leader's entry amount.
pub proof fn lemma_chains_break(manual: ManualBreakChain, chain: ChainAccount, amount: u64)
    ensures
        manual_break_error(manual) is None ==> broken_manually(manual).is_broken,
        chain.donation_pot_lamports + amount <= u64::MAX && chain.donation_pot_lamports + amount
            >= chain.last_entry_amount ==> chain_after_donation(chain, amount).is_broken,
{
}

/// No instruction but a donation changes the donation count within a round, and none
/// mends a broken chain: only the withdrawal that opens the next round clears it.
pub proof fn lemma_round_state_kept()
    ensures
        forall|c: EnterChain, a: EnterChainArgs|
            round_state_kept(c.chain_account, #[trigger] entered(c, a).chain_account),
        forall|c: ManualBreakChain| round_state_kept(c.chain_account, #[trigger] broken_manually(c)),
        forall|c: CompoundRewards, a: CompoundRewardsArgs|
            round_state_kept(c.chain_account, #[trigger] compounded(c, a).chain_account),
        forall|c: ExitFirstEntrant| round_state_kept(c.chain_account, #[trigger] exited(c).chain_account),
        forall|c: TriggerUnstake, after: TriggerUnstake|
            #[trigger] triggered(c, after) ==> round_state_kept(c.chain_account, after.chain_account),
        forall|c: ComputePayouts, a: ComputePayoutsArgs, after: ComputePayouts|
            #[trigger] computed(c, a, after) ==> round_state_kept(c.chain_account, after.chain_account),
        forall|c: WithdrawAfterCooldown| round_state_kept(c.chain_account, #[trigger] withdrawn(c).chain_account),
        forall|chain: ChainAccount, amount: u64|
            chain.is_broken ==> (#[trigger] chain_after_donation(chain, amount)).is_broken,
{
    assert forall|c: WithdrawAfterCooldown| round_state_kept(c.chain_account, #[trigger] withdrawn(c).chain_account) by {
        let r = c.chain_account.current_round;
        if r == u32::MAX {
            assert(((r + 1) as u32) == 0u32) by (bit_vector)
                requires
                    r == 0xffff_ffffu32,
            ;
        }
    }
}

/// A broken chain refuses every entry, whatever its amount, and the entry leaves every
/// account as it was.
pub proof fn lemma_broken_chain_refuses_entries(
    ctx: EnterChain,
    args: EnterChainArgs,
    expected_chain_authority: Option<Seq<u8>>,
    after: EnterChain,
    r: Result<Vec<CpiStep>, ProgramFailure>,
)
    requires
        ctx.chain_account.is_broken,
        enter_chain_outcome(ctx, args, expected_chain_authority, after, r),
    ensures
        r matches Err(e) && e == custom(ChainStakingError::ChainIsBroken),
        after == ctx,
{
}

/// The donations of a round are numbered 0, 1, 2, ... without gaps or repeats: after
/// an accepted donation with index `d` the chain counts `d + 1` donations, and a
/// donation to it with any index but `d + 1` is refused.
pub proof fn lemma_donation_indexes_consecutive(
    ctx: DonateToChain,
    args: DonateToChainArgs,
    expected_chain_authority: Option<Seq<u8>>,
    next: DonateToChain,
    next_args: DonateToChainArgs,
    next_expected_chain_authority: Option<Seq<u8>>,
)
    requires
        donate_error(ctx, args, expected_chain_authority) is None,
        next.chain_account == donated(ctx, args).chain_account,
    ensures
        next.chain_account.donation_count == args.donation_index + 1,
        next_args.donation_index != args.donation_index + 1 ==> donate_error(
            next,
            next_args,
            next_expected_chain_authority,
        ) is Some,
{
}

/// One call of an instruction on a chain, with what it read (and, where the new
/// accounts are given as a relation, what it wrote). Calls on other chains leave this
/// chain's account alone and are not listed.
#[allow(inconsistent_fields)]
pub enum ChainCall {
    Enter { ctx: EnterChain, args: EnterChainArgs, expected_chain_authority: Option<Seq<u8>> },
    ManualBreak { ctx: ManualBreakChain },
    Donate { ctx: DonateToChain, args: DonateToChainArgs, expected_chain_authority: Option<Seq<u8>> },
    Compound { ctx: CompoundRewards, args: CompoundRewardsArgs, expected_chain_authority: Option<Seq<u8>> },
    Exit { ctx: ExitFirstEntrant, expected_chain_authority: Option<Seq<u8>> },
    Trigger { ctx: TriggerUnstake, chain_id: u8, expected_chain_authority: Option<Seq<u8>>, after: TriggerUnstake },
    Payouts { ctx: ComputePayouts, args: ComputePayoutsArgs, expected: Seq<ExpectedAccounts>, after: ComputePayouts },
    Withdraw { ctx: WithdrawAfterCooldown, expected_chain_authority: Option<Seq<u8>> },
}

/// The chain account a call reads.
#[verifier::opaque]
pub open spec fn call_before(c: ChainCall) -> ChainAccount {
    match c {
        ChainCall::Enter { ctx, .. } => ctx.chain_account,
        ChainCall::ManualBreak { ctx } => ctx.chain_account,
        ChainCall::Donate { ctx, .. } => ctx.chain_account,
        ChainCall::Compound { ctx, .. } => ctx.chain_account,
        ChainCall::Exit { ctx, .. } => ctx.chain_account,
        ChainCall::Trigger { ctx, .. } => ctx.chain_account,
        ChainCall::Payouts { ctx, .. } => ctx.chain_account,
        ChainCall::Withdraw { ctx, .. } => ctx.chain_account,
    }
}

/// The chain account an accepted call leaves.
#[verifier::opaque]
pub open spec fn call_after(c: ChainCall) -> ChainAccount {
    match c {
        ChainCall::Enter { ctx, args, .. } => entered(ctx, args).chain_account,
        ChainCall::ManualBreak { ctx } => broken_manually(ctx),
        ChainCall::Donate { ctx, args, .. } => donated(ctx, args).chain_account,
        ChainCall::Compound { ctx, args, .. } => compounded(ctx, args).chain_account,
        ChainCall::Exit { ctx, .. } => exited(ctx).chain_account,
        ChainCall::Trigger { after, .. } => after.chain_account,
        ChainCall::Payouts { after, .. } => after.chain_account,
        ChainCall::Withdraw { ctx, .. } => withdrawn(ctx).chain_account,
    }
}

/// The call is accepted: none of its checks refuses it, before or between its calls
/// (and, where the new accounts are given as a relation, they are the accepted ones).
#[verifier::opaque]
pub open spec fn call_accepted(c: ChainCall) -> bool {
    match c {
        ChainCall::Enter { ctx, args, expected_chain_authority } => {
            &&& enter_chain_error(ctx, args, expected_chain_authority) is None
            &&& crate::instructions::enter_chain::stake_setup_error(ctx, args.amount) is None
        },
        ChainCall::ManualBreak { ctx } => manual_break_error(ctx) is None,
        ChainCall::Donate { ctx, args, expected_chain_authority } => {
            &&& donate_error(ctx, args, expected_chain_authority) is None
            &&& crate::instructions::donate_to_chain::stake_setup_error(ctx, args.amount) is None
        },
        ChainCall::Compound { ctx, args, expected_chain_authority } => {
            &&& compound_error(ctx, args, expected_chain_authority) is None
            &&& compound_setup_error(ctx, args) is None
        },
        ChainCall::Exit { ctx, expected_chain_authority } => exit_error(ctx, expected_chain_authority) is None,
        ChainCall::Trigger { ctx, chain_id, expected_chain_authority, after } => {
            &&& trigger_error(ctx, chain_id, expected_chain_authority) is None
            &&& !trigger_refused(ctx, chain_id)
            &&& triggered(ctx, after)
        },
        ChainCall::Payouts { ctx, args, expected, after } => compute_payouts_error(ctx, args, expected) is None
            && computed(ctx, args, after),
        ChainCall::Withdraw { ctx, expected_chain_authority } => {
            &&& withdraw_error(ctx, expected_chain_authority) is None
            &&& !payout_refused(ctx)
        },
    }
}

/// The chain account before call `i` of `calls` (after the last one for `i == calls.len()`).
pub open spec fn chain_at(calls: Seq<ChainCall>, start: ChainAccount, i: int) -> ChainAccount {
    if i <= 0 {
        start
    } else {
        call_after(calls[i - 1])
    }
}

/// A sequence of accepted calls on one chain, from `start`, each reading the chain
/// account the previous one left.
pub open spec fn accepted_trace(calls: Seq<ChainCall>, start: ChainAccount) -> bool {
    forall|i: int|
        0 <= i < calls.len() ==> call_accepted(#[trigger] calls[i]) && call_before(calls[i]) == chain_at(
            calls,
            start,
            i,
        )
}

/// No call of the sequence leaves the round that `start` is in.
pub open spec fn within_round(calls: Seq<ChainCall>, start: ChainAccount) -> bool {
    forall|i: int| 0 <= i < calls.len() ==> (#[trigger] call_after(calls[i])).current_round == start.current_round
}

/// The call breaks the chain: a manual break, or a donation that leaves the pot at or
/// above the leader's entry amount.
pub open spec fn breaking_call(c: ChainCall) -> bool {
    ||| c is ManualBreak
    ||| c is Donate && call_after(c).donation_pot_lamports >= call_after(c).last_entry_amount
}

/// How many donations a sequence of calls holds.
pub open spec fn donations_in(calls: Seq<ChainCall>) -> nat
    decreases calls.len(),
{
    if calls.len() == 0 {
        0
    } else {
        donations_in(calls.drop_last()) + if calls.last() is Donate {
            1nat
        } else {
            0nat
        }
    }
}

/// The index a donation call names.
pub open spec fn donation_index_of(c: ChainCall) -> int {
    match c {
        ChainCall::Donate { args, .. } => args.donation_index as int,
        _ => 0,
    }
}

/// One accepted call: within its round it keeps a broken chain broken, and it moves the
/// donation count only when it is a donation, which names the count as its index and
/// raises it by one.
proof fn lemma_call_step(c: ChainCall)
    requires
        call_accepted(c),
    ensures
        call_after(c).current_round == call_before(c).current_round ==> (call_before(c).is_broken
            ==> call_after(c).is_broken),
        call_after(c).current_round == call_before(c).current_round && !(c is Donate)
            ==> call_after(c).donation_count == call_before(c).donation_count,
        c is Donate ==> call_after(c).donation_count == call_before(c).donation_count + 1 && donation_index_of(c)
            == call_before(c).donation_count && call_after(c).current_round == call_before(c).current_round,
        breaking_call(c) ==> call_after(c).is_broken,
{
    reveal(call_before);
    reveal(call_after);
    reveal(call_accepted);
    lemma_round_state_kept();
    match c {
        ChainCall::Enter { ctx, args, .. } => {
            assert(round_state_kept(ctx.chain_account, entered(ctx, args).chain_account));
        },
        ChainCall::ManualBreak { ctx } => {
            assert(round_state_kept(ctx.chain_account, broken_manually(ctx)));
        },
        ChainCall::Donate { ctx, args, .. } => {},
        ChainCall::Compound { ctx, args, .. } => {
            assert(round_state_kept(ctx.chain_account, compounded(ctx, args).chain_account));
        },
        ChainCall::Exit { ctx, .. } => {
            assert(round_state_kept(ctx.chain_account, exited(ctx).chain_account));
        },
        ChainCall::Trigger { ctx, after, .. } => {
            assert(triggered(ctx, after));
        },
        ChainCall::Payouts { ctx, args, after, .. } => {
            assert(computed(ctx, args, after));
        },
        ChainCall::Withdraw { ctx, .. } => {
            assert(round_state_kept(ctx.chain_account, withdrawn(ctx).chain_account));
        },
    }
}

proof fn lemma_stays_broken_from(calls: Seq<ChainCall>, start: ChainAccount, k: int, j: int)
    requires
        accepted_trace(calls, start),
        within_round(calls, start),
        0 <= k <= j <= calls.len(),
        chain_at(calls, start, k).is_broken,
        chain_at(calls, start, k).current_round == start.current_round,
    ensures
        chain_at(calls, start, j).is_broken,
    decreases j - k,
{
    if j > k {
        lemma_stays_broken_from(calls, start, k, j - 1);
        let c = calls[j - 1];
        lemma_call_step(c);
        if j - 1 > 0 {
            assert(call_after(calls[j - 2]).current_round == start.current_round);
        }
    }
}

/// A broken chain stays broken through any sequence of accepted calls that stays in its
/// round: only the withdrawal that opens the next round mends it.
pub proof fn lemma_broken_chain_stays_broken(calls: Seq<ChainCall>, start: ChainAccount)
    requires
        accepted_trace(calls, start),
        within_round(calls, start),
        start.is_broken,
    ensures
        chain_at(calls, start, calls.len() as int).is_broken,
{
    lemma_stays_broken_from(calls, start, 0, calls.len() as int);
}

/// Once a chain is broken, by a manual break or by a donation that brings the pot up to
/// the leader's entry, every later entry in the same round is refused as entering a
/// broken chain, whatever its amount, and leaves every account as it was.
pub proof fn lemma_broken_until_next_round(
    calls: Seq<ChainCall>,
    start: ChainAccount,
    ctx: EnterChain,
    args: EnterChainArgs,
    expected_chain_authority: Option<Seq<u8>>,
    after: EnterChain,
    r: Result<Vec<CpiStep>, ProgramFailure>,
)
    requires
        accepted_trace(calls, start),
        within_round(calls, start),
        calls.len() >= 1,
        breaking_call(calls[0]),
        ctx.chain_account == chain_at(calls, start, calls.len() as int),
        enter_chain_outcome(ctx, args, expected_chain_authority, after, r),
    ensures
        r matches Err(e) && e == custom(ChainStakingError::ChainIsBroken),
        after == ctx,
{
    assert(call_accepted(calls[0]));
    lemma_call_step(calls[0]);
    assert(call_after(calls[0]).current_round == start.current_round);
    lemma_stays_broken_from(calls, start, 1, calls.len() as int);
    lemma_broken_chain_refuses_entries(ctx, args, expected_chain_authority, after, r);
}

#[verifier::spinoff_prover]
#[verifier::rlimit(40)]
proof fn lemma_donations_upto(calls: Seq<ChainCall>, start: ChainAccount, j: int)
    requires
        accepted_trace(calls, start),
        within_round(calls, start),
        0 <= j <= calls.len(),
    ensures
        chain_at(calls, start, j).donation_count == start.donation_count + donations_in(calls.take(j)),
        chain_at(calls, start, j).current_round == start.current_round,
        forall|i: int|
            0 <= i < j && (#[trigger] calls[i]) is Donate ==> donation_index_of(calls[i]) == start.donation_count
                + donations_in(calls.take(i)),
    decreases j,
{
    if j > 0 {
        lemma_donations_upto(calls, start, j - 1);
        let c = calls[j - 1];
        let before = chain_at(calls, start, j - 1);
        assert(call_accepted(c) && call_before(c) == before);
        lemma_call_step(c);
        assert(call_after(c).current_round == start.current_round);
        let prefix = calls.take(j);
        assert(prefix.drop_last() =~= calls.take(j - 1));
        assert(prefix.last() == c);
        assert(donations_in(prefix) == donations_in(calls.take(j - 1)) + if c is Donate {
            1nat
        } else {
            0nat
        });
    } else {
        assert(calls.take(0) =~= Seq::<ChainCall>::empty());
    }
}

/// The donations of a round are numbered 0, 1, 2, ... without gaps or repeats: through
/// any sequence of accepted calls that stays in one round, each donation names as its
/// index the donations counted before it, the count at the end is the count at the start
/// plus the donations made, and a donation naming any other index is then refused.
pub proof fn lemma_donation_indexes_in_round(calls: Seq<ChainCall>, start: ChainAccount)
    requires
        accepted_trace(calls, start),
        within_round(calls, start),
    ensures
        forall|i: int|
            0 <= i < calls.len() && (#[trigger] calls[i]) is Donate ==> donation_index_of(calls[i])
                == start.donation_count + donations_in(calls.take(i)),
        chain_at(calls, start, calls.len() as int).donation_count == start.donation_count + donations_in(calls),
        forall|next: DonateToChain, next_args: DonateToChainArgs, e: Option<Seq<u8>>|
            next.chain_account == chain_at(calls, start, calls.len() as int) && next_args.donation_index
                != start.donation_count + donations_in(calls) ==> (#[trigger] donate_error(next, next_args, e)) is Some,
{
    lemma_donations_upto(calls, start, calls.len() as int);
    assert(calls.take(calls.len() as int) =~= calls);
}

} // verus!
