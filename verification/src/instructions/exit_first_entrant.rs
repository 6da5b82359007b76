//! The sole entrant of a chain leaving it: first deactivating the stake, then, after
//! the stake program's cooldown, withdrawing it and resetting the chain.
use crate::address::{zero_key, Address};
use crate::constants::{
    chain_authority_seeds, derived_address, find_chain_authority_pda, key_matches, matches_expected,
    opt_address_view, pda_address,
};
use crate::errors::{custom, ChainStakingError, ProgramFailure};
use crate::stake_utils::{
    deactivate_stake_account, deactivate_stake_account_check, failure_of, withdraw_stake_account,
    withdraw_stake_account_check, CpiStep,
};
use crate::state::{AccountSnapshot, ChainAccount, EntryAccount, StakeTracker};
use vstd::prelude::*;

verus! {

/// What leaving a single-entry chain reads and writes.
#[derive(Clone, Copy, Debug)]
pub struct ExitFirstEntrant {
    /// The caller, who receives the withdrawn stake.
    pub staker: AccountSnapshot,
    pub chain_account: ChainAccount,
    /// The entry at position 0 of the current round, and its stake tracker.
    pub entry_account: EntryAccount,
    pub stake_tracker: StakeTracker,
    pub stake_account: AccountSnapshot,
    pub chain_authority: Address,
    pub clock: AccountSnapshot,
    pub stake_history: AccountSnapshot,
    pub stake_program: AccountSnapshot,
}

/// The first check that refuses the exit, in the order they are made.
pub open spec fn exit_error(ctx: ExitFirstEntrant, expected_chain_authority: Option<Seq<u8>>) -> Option<
    ProgramFailure,
> {
    if ctx.chain_account.entry_count != 1 {
        Some(custom(ChainStakingError::ExitNotAllowed))
    } else if ctx.staker.key@ != ctx.entry_account.staker@ {
        Some(custom(ChainStakingError::ExitWrongStaker))
    } else if !key_matches(ctx.chain_authority@, expected_chain_authority) {
        Some(custom(ChainStakingError::InvalidChainAuthority))
    } else if ctx.stake_account.key@ != ctx.entry_account.stake_account@ {
        Some(ProgramFailure::RequireKeysEqViolated)
    } else if ctx.stake_tracker.is_withdrawn {
        Some(custom(ChainStakingError::AlreadyWithdrawn))
    } else if !ctx.stake_tracker.is_deactivated {
        failure_of(deactivate_stake_account_check(ctx.stake_account, ctx.clock, ctx.stake_history, ctx.stake_program))
    } else {
        failure_of(
            withdraw_stake_account_check(
                ctx.stake_account,
                ctx.staker,
                ctx.clock,
                ctx.stake_history,
                ctx.stake_program,
            ),
        )
    }
}

/// The chain with its entries cleared: no entries, no leader, no stake.
pub open spec fn chain_cleared(chain: ChainAccount) -> ChainAccount {
    ChainAccount {
        entry_count: 0,
        last_entry_amount: 0,
        last_entry_timestamp: 0,
        last_entry_authority: zero_key(),
        total_staked_lamports: 0,
        ..chain
    }
}

/// The accounts after an accepted exit: a stake not yet deactivated is marked
/// deactivated and the entry unstaked; a deactivated one is marked withdrawn, with the
/// entry, and the chain's entries are cleared.
pub open spec fn exited(ctx: ExitFirstEntrant) -> ExitFirstEntrant {
    if !ctx.stake_tracker.is_deactivated {
        ExitFirstEntrant {
            stake_tracker: StakeTracker { is_deactivated: true, is_active: false, ..ctx.stake_tracker },
            entry_account: EntryAccount { is_unstaked: true, ..ctx.entry_account },
            ..ctx
        }
    } else {
        ExitFirstEntrant {
            stake_tracker: StakeTracker { is_withdrawn: true, ..ctx.stake_tracker },
            entry_account: EntryAccount { is_withdrawn: true, ..ctx.entry_account },
            chain_account: chain_cleared(ctx.chain_account),
            ..ctx
        }
    }
}

/// The call an accepted exit makes: a deactivation, or a withdrawal to the staker.
pub open spec fn exit_steps(ctx: ExitFirstEntrant, chain_id: u8) -> Seq<CpiStep> {
    let bump = ctx.chain_account.chain_authority_bump;
    if !ctx.stake_tracker.is_deactivated {
        seq![CpiStep::DeactivateStake { stake_account: ctx.stake_account.key, chain_id, chain_authority_bump: bump }]
    } else {
        seq![
            CpiStep::WithdrawStake {
                stake_account: ctx.stake_account.key,
                recipient: ctx.staker.key,
                chain_id,
                chain_authority_bump: bump,
            },
        ]
    }
}

/// An exit: refused with `exit_error` (accounts unchanged), or accepted with the
/// accounts of `exited` and the call of `exit_steps`.
pub open spec fn exit_outcome(
    before: ExitFirstEntrant,
    chain_id: u8,
    expected_chain_authority: Option<Seq<u8>>,
    after: ExitFirstEntrant,
    r: Result<Vec<CpiStep>, ProgramFailure>,
) -> bool {
    match r {
        Ok(steps) => {
            &&& exit_error(before, expected_chain_authority) is None
            &&& after == exited(before)
            &&& steps@ == exit_steps(before, chain_id)
        },
        Err(e) => {
            &&& exit_error(before, expected_chain_authority) == Some(e)
            &&& after == before
        },
    }
}

/// Takes the next step of the sole entrant's exit, given the derived chain authority.
pub fn process(ctx: &mut ExitFirstEntrant, chain_id: u8, expected_chain_authority: &Option<Address>) -> (r:
    Result<Vec<CpiStep>, ProgramFailure>)
    ensures
        exit_outcome(*old(ctx), chain_id, opt_address_view(*expected_chain_authority), *final(ctx), r),
        r is Ok && old(ctx).chain_account.well_formed() ==> final(ctx).chain_account.well_formed(),
{
    if ctx.chain_account.entry_count != 1 {
        return Err(ProgramFailure::Custom(ChainStakingError::ExitNotAllowed));
    }
    if !ctx.staker.key.equals(&ctx.entry_account.staker) {
        return Err(ProgramFailure::Custom(ChainStakingError::ExitWrongStaker));
    }
    if !matches_expected(&ctx.chain_authority, expected_chain_authority) {
        return Err(ProgramFailure::Custom(ChainStakingError::InvalidChainAuthority));
    }
    if !ctx.stake_account.key.equals(&ctx.entry_account.stake_account) {
        return Err(ProgramFailure::RequireKeysEqViolated);
    }
    let chain_authority_bump = ctx.chain_account.chain_authority_bump;
    if ctx.stake_tracker.is_withdrawn {
        return Err(ProgramFailure::Custom(ChainStakingError::AlreadyWithdrawn));
    }
    let mut steps: Vec<CpiStep> = Vec::new();
    if !ctx.stake_tracker.is_deactivated {
        deactivate_stake_account(&ctx.stake_account, &ctx.clock, &ctx.stake_history, &ctx.stake_program)?;
        steps.push(CpiStep::DeactivateStake { stake_account: ctx.stake_account.key, chain_id, chain_authority_bump });
        ctx.stake_tracker.is_deactivated = true;
        ctx.stake_tracker.is_active = false;
        ctx.entry_account.is_unstaked = true;
    } else {
        withdraw_stake_account(&ctx.stake_account, &ctx.staker, &ctx.clock, &ctx.stake_history, &ctx.stake_program)?;
        steps.push(CpiStep::WithdrawStake {
            stake_account: ctx.stake_account.key,
            recipient: ctx.staker.key,
            chain_id,
            chain_authority_bump,
        });
        ctx.stake_tracker.is_withdrawn = true;
        ctx.entry_account.is_withdrawn = true;
        ctx.chain_account.entry_count = 0;
        ctx.chain_account.last_entry_amount = 0;
        ctx.chain_account.last_entry_timestamp = 0;
        ctx.chain_account.last_entry_authority = Address::zero();
        ctx.chain_account.total_staked_lamports = 0;
    }
    assert(steps@ =~= exit_steps(*old(ctx), chain_id));
    Ok(steps)
}

/// Takes the next step of the sole entrant's exit from chain `chain_id`.
pub fn handler(ctx: &mut ExitFirstEntrant, program_id: &Address, chain_id: u8) -> (r: Result<
    Vec<CpiStep>,
    ProgramFailure,
>)
    ensures
        exit_outcome(*old(ctx), chain_id, pda_address(chain_authority_seeds(chain_id), program_id@), *final(ctx), r),
        r is Ok && old(ctx).chain_account.well_formed() ==> final(ctx).chain_account.well_formed(),
{
    let expected = derived_address(find_chain_authority_pda(program_id, chain_id));
    process(ctx, chain_id, &expected)
}

/// The exit takes two calls: after an accepted first call on a stake not yet
/// deactivated, a second call with the same accounts is accepted whenever the withdrawal
/// checks pass, withdraws the stake to the staker and clears the chain.
pub proof fn lemma_exit_takes_two_steps(
    ctx: ExitFirstEntrant,
    chain_id: u8,
    expected_chain_authority: Option<Seq<u8>>,
)
    requires
        exit_error(ctx, expected_chain_authority) is None,
        !ctx.stake_tracker.is_deactivated,
        withdraw_stake_account_check(ctx.stake_account, ctx.staker, ctx.clock, ctx.stake_history, ctx.stake_program) is Ok,
    ensures
        exit_error(exited(ctx), expected_chain_authority) is None,
        exited(exited(ctx)).chain_account == chain_cleared(ctx.chain_account),
        exited(exited(ctx)).stake_tracker.is_withdrawn,
        exited(exited(ctx)).entry_account.is_withdrawn,
        exit_steps(exited(ctx), chain_id) == seq![
            CpiStep::WithdrawStake {
                stake_account: ctx.stake_account.key,
                recipient: ctx.staker.key,
                chain_id,
                chain_authority_bump: ctx.chain_account.chain_authority_bump,
            },
        ],
{
}

} // verus!
