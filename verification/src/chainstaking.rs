//! The program's instructions, each dispatched to its handler.
use crate::address::Address;
use crate::constants::{chain_authority_seeds, pda_address, pda_view, program_address, chain_seeds, trigger_vault_seeds, TOTAL_CHAINS};
use crate::errors::ProgramFailure;
use crate::instructions::compound_rewards::{self, compound_outcome, CompoundRewards, CompoundRewardsArgs};
use crate::instructions::compute_payouts::{
    self, compute_payouts_error, computed, derived_at, expected_at, ComputePayouts, ComputePayoutsArgs,
    ExpectedAccounts,
};
use crate::instructions::donate_to_chain::{self, donate_outcome, DonateToChain, DonateToChainArgs};
use crate::instructions::enter_chain::{self, enter_chain_outcome, EnterChain, EnterChainArgs};
use crate::instructions::exit_first_entrant::{self, exit_outcome, ExitFirstEntrant};
use crate::instructions::initialize_protocol::{
    self, initialize_outcome, ChainAddresses, InitializeProtocol, InitializeProtocolArgs,
};
use crate::instructions::manual_break_chain::{self, broken_manually, manual_break_error, ManualBreakChain};
use crate::instructions::trigger_unstake::{self, trigger_outcome, TriggerUnstake};
use crate::instructions::withdraw_after_cooldown::{
    self, withdraw_outcome, WithdrawAfterCooldown, WithdrawAfterCooldownArgs,
};
use crate::stake_utils::CpiStep;
use vstd::prelude::*;

verus! {

pub fn initialize_protocol(ctx: &mut InitializeProtocol, program_id: &Address, args: InitializeProtocolArgs) -> (r:
    Result<Vec<CpiStep>, ProgramFailure>)
    ensures
        exists|addresses: Seq<ChainAddresses>|
            {
                &&& addresses.len() == TOTAL_CHAINS
                &&& forall|i: int|
                    0 <= i < TOTAL_CHAINS ==> {
                        &&& pda_view(#[trigger] addresses[i].trigger_vault) == program_address(
                            trigger_vault_seeds(i as u8),
                            program_id@,
                        )
                        &&& pda_view(addresses[i].chain) == program_address(chain_seeds(i as u8), program_id@)
                        &&& pda_view(addresses[i].chain_authority) == program_address(
                            chain_authority_seeds(i as u8),
                            program_id@,
                        )
                    }
                &&& initialize_outcome(*old(ctx), args, addresses, *final(ctx), r)
            },
{
    initialize_protocol::handler(ctx, program_id, args)
}

pub fn enter_chain(ctx: &mut EnterChain, program_id: &Address, args: &EnterChainArgs) -> (r: Result<
    Vec<CpiStep>,
    ProgramFailure,
>)
    ensures
        enter_chain_outcome(
            *old(ctx),
            *args,
            pda_address(chain_authority_seeds(args.chain_id), program_id@),
            *final(ctx),
            r,
        ),
{
    enter_chain::handler(ctx, program_id, args)
}

pub fn exit_first_entrant(ctx: &mut ExitFirstEntrant, program_id: &Address, chain_id: u8) -> (r: Result<
    Vec<CpiStep>,
    ProgramFailure,
>)
    ensures
        exit_outcome(*old(ctx), chain_id, pda_address(chain_authority_seeds(chain_id), program_id@), *final(ctx), r),
{
    exit_first_entrant::handler(ctx, program_id, chain_id)
}

pub fn donate_to_chain(ctx: &mut DonateToChain, program_id: &Address, args: &DonateToChainArgs) -> (r: Result<
    Vec<CpiStep>,
    ProgramFailure,
>)
    ensures
        donate_outcome(
            *old(ctx),
            *args,
            pda_address(chain_authority_seeds(args.chain_id), program_id@),
            *final(ctx),
            r,
        ),
{
    donate_to_chain::handler(ctx, program_id, args)
}

pub fn compound_rewards(ctx: &mut CompoundRewards, program_id: &Address, args: &CompoundRewardsArgs) -> (r: Result<
    Vec<CpiStep>,
    ProgramFailure,
>)
    ensures
        compound_outcome(
            *old(ctx),
            *args,
            pda_address(chain_authority_seeds(args.chain_id), program_id@),
            *final(ctx),
            r,
        ),
{
    compound_rewards::handler(ctx, program_id, args)
}

pub fn manual_break_chain(ctx: &mut ManualBreakChain, chain_id: u8) -> (r: Result<(), ProgramFailure>)
    ensures
        match r {
            Ok(_) => {
                &&& manual_break_error(*old(ctx)) is None
                &&& *final(ctx) == (ManualBreakChain { chain_account: broken_manually(*old(ctx)), ..*old(ctx) })
            },
            Err(e) => {
                &&& manual_break_error(*old(ctx)) == Some(e)
                &&& *final(ctx) == *old(ctx)
            },
        },
{
    manual_break_chain::handler(ctx, chain_id)
}

pub fn compute_payouts(ctx: &mut ComputePayouts, program_id: &Address, args: &ComputePayoutsArgs) -> (r: Result<
    (),
    ProgramFailure,
>)
    ensures
        exists|expected: Seq<ExpectedAccounts>|
            {
                &&& expected.len() == old(ctx).triplets@.len()
                &&& forall|i: int|
                    0 <= i < expected.len() && args.start_position + i <= u32::MAX ==> #[trigger] expected_at(
                        expected,
                        i,
                    ) == derived_at(program_id@, *args, old(ctx).chain_account.current_round, i)
                &&& match r {
                    Ok(_) => {
                        &&& compute_payouts_error(*old(ctx), *args, expected) is None
                        &&& computed(*old(ctx), *args, *final(ctx))
                    },
                    Err(e) => {
                        &&& compute_payouts_error(*old(ctx), *args, expected) == Some(e)
                        &&& *final(ctx) == *old(ctx)
                    },
                }
            },
{
    compute_payouts::handler(ctx, program_id, args)
}

pub fn trigger_unstake(ctx: &mut TriggerUnstake, program_id: &Address, chain_id: u8) -> (r: Result<
    Vec<CpiStep>,
    ProgramFailure,
>)
    ensures
        trigger_outcome(*old(ctx), chain_id, pda_address(chain_authority_seeds(chain_id), program_id@), *final(ctx), r),
{
    trigger_unstake::handler(ctx, program_id, chain_id)
}

pub fn withdraw_after_cooldown(
    ctx: &mut WithdrawAfterCooldown,
    program_id: &Address,
    args: &WithdrawAfterCooldownArgs,
) -> (r: Result<Vec<CpiStep>, ProgramFailure>)
    ensures
        withdraw_outcome(
            *old(ctx),
            args.chain_id,
            pda_address(chain_authority_seeds(args.chain_id), program_id@),
            *final(ctx),
            r,
        ),
{
    withdraw_after_cooldown::handler(ctx, program_id, args)
}

} // verus!
