//! The leader breaking the chain once the cooldown since the last entry has passed.
use crate::address::Address;
use crate::constants::BREAK_TYPE_MANUAL;
use crate::errors::{custom, ChainStakingError, ProgramFailure};
use crate::fees::{bps_of_truncating, bps_of_wrapped};
use crate::state::{ChainAccount, GlobalConfig};
use vstd::prelude::*;

verus! {

/// What a manual break reads and writes.
#[derive(Clone, Copy, Debug)]
pub struct ManualBreakChain {
    pub breaker: Address,
    pub global_config: GlobalConfig,
    pub chain_account: ChainAccount,
    pub clock_unix_timestamp: i64,
}

/// The part of the estimated yield pool moved into the donation pot on a manual break.
pub open spec fn yield_transfer(chain: ChainAccount, config: GlobalConfig) -> u64 {
    bps_of_wrapped(chain.frontend_estimated_yield_pool_lamports, config.fee_bps)
}

/// The first check that refuses a manual break, in the order they are made: an already
/// broken chain, fewer than two entries, a breaker other than the leader, an
/// overflowing cooldown expiry, a cooldown not yet over, and an overflow of the move
/// from the yield estimate to the pot.
pub open spec fn manual_break_error(ctx: ManualBreakChain) -> Option<ProgramFailure> {
    let chain = ctx.chain_account;
    let expiry = chain.last_entry_timestamp + ctx.global_config.cooldown_seconds;
    let t = yield_transfer(chain, ctx.global_config);
    if chain.is_broken {
        Some(custom(ChainStakingError::ChainIsBroken))
    } else if chain.entry_count < 2 {
        Some(custom(ChainStakingError::ManualBreakRequiresMultipleEntries))
    } else if ctx.breaker@ != chain.last_entry_authority@ {
        Some(custom(ChainStakingError::ManualBreakUnauthorized))
    } else if expiry < i64::MIN || expiry > i64::MAX {
        Some(custom(ChainStakingError::ArithmeticOverflow))
    } else if ctx.clock_unix_timestamp < expiry {
        Some(custom(ChainStakingError::CooldownNotExpired))
    } else if t > 0 && (t > chain.frontend_estimated_yield_pool_lamports || chain.donation_pot_lamports + t
        > u64::MAX) {
        Some(custom(ChainStakingError::ArithmeticOverflow))
    } else {
        None
    }
}

/// The chain after a manual break: `yield_transfer` moves from the yield estimate to
/// the donation pot, and the chain is broken manually. The round is not advanced here.
pub open spec fn broken_manually(ctx: ManualBreakChain) -> ChainAccount {
    let chain = ctx.chain_account;
    let t = yield_transfer(chain, ctx.global_config);
    ChainAccount {
        frontend_estimated_yield_pool_lamports: (chain.frontend_estimated_yield_pool_lamports - t) as u64,
        donation_pot_lamports: (chain.donation_pot_lamports + t) as u64,
        is_broken: true,
        break_type: BREAK_TYPE_MANUAL,
        ..chain
    }
}

/// Breaks the chain at its leader's request. Refused with `manual_break_error` (chain
/// unchanged); accepted with the chain of `broken_manually`, which keeps the sum of the
/// yield estimate and the pot, and keeps the chain well formed.
pub fn handler(ctx: &mut ManualBreakChain, _chain_id: u8) -> (r: Result<(), ProgramFailure>)
    ensures
        match r {
            Ok(_) => {
                &&& manual_break_error(*old(ctx)) is None
                &&& *final(ctx) == (ManualBreakChain { chain_account: broken_manually(*old(ctx)), ..*old(ctx) })
            },
            Err(e) => {
                &&& manual_break_error(*old(ctx)) == Some(e)
                &&& *final(ctx) == *old(ctx)
            },
        },
        r is Ok ==> final(ctx).chain_account.frontend_estimated_yield_pool_lamports
            + final(ctx).chain_account.donation_pot_lamports == old(ctx).chain_account.frontend_estimated_yield_pool_lamports
            + old(ctx).chain_account.donation_pot_lamports,
        r is Ok && old(ctx).chain_account.well_formed() ==> final(ctx).chain_account.well_formed(),
{
    let chain = ctx.chain_account;
    let config = ctx.global_config;
    if chain.is_broken {
        return Err(ProgramFailure::Custom(ChainStakingError::ChainIsBroken));
    }
    if chain.entry_count < 2 {
        return Err(ProgramFailure::Custom(ChainStakingError::ManualBreakRequiresMultipleEntries));
    }
    if !ctx.breaker.equals(&chain.last_entry_authority) {
        return Err(ProgramFailure::Custom(ChainStakingError::ManualBreakUnauthorized));
    }
    let cooldown_expiry = match chain.last_entry_timestamp.checked_add(config.cooldown_seconds) {
        Some(v) => v,
        None => {
            return Err(ProgramFailure::Custom(ChainStakingError::ArithmeticOverflow));
        },
    };
    if ctx.clock_unix_timestamp < cooldown_expiry {
        return Err(ProgramFailure::Custom(ChainStakingError::CooldownNotExpired));
    }
    let transfer = bps_of_truncating(chain.frontend_estimated_yield_pool_lamports, config.fee_bps);
    let mut estimate = chain.frontend_estimated_yield_pool_lamports;
    let mut pot = chain.donation_pot_lamports;
    if transfer > 0 {
        if transfer > estimate || pot > u64::MAX - transfer {
            return Err(ProgramFailure::Custom(ChainStakingError::ArithmeticOverflow));
        }
        estimate = estimate - transfer;
        pot = pot + transfer;
    }
    ctx.chain_account.frontend_estimated_yield_pool_lamports = estimate;
    ctx.chain_account.donation_pot_lamports = pot;
    ctx.chain_account.is_broken = true;
    ctx.chain_account.break_type = BREAK_TYPE_MANUAL;
    Ok(())
}

/// Only the leader breaks a chain by hand, once it has at least two entries and its
/// cooldown since the last entry is over; the break moves `estimate * fee_bps / 10_000`
/// (cut to 64 bits) from the yield estimate into the donation pot, and leaves the chain
/// broken manually with its entries and round as they were.
pub proof fn lemma_manual_break_effects(ctx: ManualBreakChain)
    requires
        manual_break_error(ctx) is None,
    ensures
        ({
            let c = ctx.chain_account;
            let moved = ((c.frontend_estimated_yield_pool_lamports as int * ctx.global_config.fee_bps as int) / 10_000)
                % 0x1_0000_0000_0000_0000;
            let after = broken_manually(ctx);
            &&& !c.is_broken && c.entry_count >= 2
            &&& ctx.breaker@ == c.last_entry_authority@
            &&& ctx.clock_unix_timestamp >= c.last_entry_timestamp + ctx.global_config.cooldown_seconds
            &&& after.donation_pot_lamports == c.donation_pot_lamports + moved
            &&& after.frontend_estimated_yield_pool_lamports == c.frontend_estimated_yield_pool_lamports - moved
            &&& after.is_broken && after.break_type == BREAK_TYPE_MANUAL
            &&& after.entry_count == c.entry_count && after.current_round == c.current_round
            &&& after.total_staked_lamports == c.total_staked_lamports
            &&& after.last_entry_amount == c.last_entry_amount
        }),
{
}

} // verus!
