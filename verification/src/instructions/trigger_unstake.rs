//! Deactivating the stakes of a broken chain, for a reward from its trigger vault.
use crate::address::Address;
use crate::constants::{
    chain_authority_seeds, derived_address, find_chain_authority_pda, key_matches, matches_expected,
    opt_address_view, pda_address, DEFAULT_TRIGGER_REWARD_LAMPORTS, DEFAULT_UNSTAKE_BATCH_SIZE,
};
use crate::errors::{custom, ChainStakingError, ProgramFailure};
use crate::stake_utils::{
    deactivate_stake_account_check, deactivate_stake_account_with_signer_seeds, failure_of, stake_program_key,
    stake_program_id, CpiStep,
};
use crate::state::{AccountSnapshot, ChainAccount, StakeTracker, TriggerVault};
use vstd::prelude::*;

verus! {

/// One `[stake_tracker, stake_account]` pair of the remaining accounts.
#[derive(Clone, Copy, Debug)]
pub struct StakePair {
    pub stake_tracker_key: Address,
    pub stake_tracker_is_writable: bool,
    /// The tracker as deserialized from its account.
    pub stake_tracker: StakeTracker,
    pub stake_account: AccountSnapshot,
}

/// What triggering an unstake reads and writes.
#[derive(Clone, Debug)]
pub struct TriggerUnstake {
    pub triggerer: AccountSnapshot,
    pub chain_account: ChainAccount,
    pub trigger_vault: TriggerVault,
    pub trigger_vault_key: Address,
    /// The vault account's balance, which pays the reward.
    pub trigger_vault_lamports: u64,
    pub chain_authority: Address,
    pub clock: AccountSnapshot,
    pub stake_history: AccountSnapshot,
    pub stake_program: AccountSnapshot,
    /// The remaining accounts, read in pairs.
    pub stake_pairs: Vec<StakePair>,
    /// Whether one remaining account is left over after the pairs.
    pub trailing_account: bool,
}

/// The number of `[stake_tracker, stake_account]` pairs in `remaining_account_len`
/// remaining accounts: refused when there are none or they do not pair up, and when
/// there are more pairs than one batch allows.
pub fn validate_stake_pairs(remaining_account_len: usize) -> (r: Result<usize, ProgramFailure>)
    ensures
        r == if remaining_account_len == 0 || remaining_account_len % 2 != 0 {
            Err(custom(ChainStakingError::InvalidTriggerUnstakeAccounts))
        } else if remaining_account_len / 2 > DEFAULT_UNSTAKE_BATCH_SIZE {
            Err(custom(ChainStakingError::TriggerUnstakeBatchTooLarge))
        } else {
            Ok::<usize, ProgramFailure>(remaining_account_len / 2)
        },
{
    if remaining_account_len == 0 || remaining_account_len % 2 != 0 {
        return Err(ProgramFailure::Custom(ChainStakingError::InvalidTriggerUnstakeAccounts));
    }
    let pair_count = remaining_account_len / 2;
    if pair_count > DEFAULT_UNSTAKE_BATCH_SIZE as usize {
        return Err(ProgramFailure::Custom(ChainStakingError::TriggerUnstakeBatchTooLarge));
    }
    Ok(pair_count)
}

/// The reward for deactivating `pair_count` stakes: the fixed reward per stake, times
/// the count; an overflow error when that exceeds `u64::MAX`.
pub fn compute_total_trigger_reward(pair_count: usize) -> (r: Result<u64, ProgramFailure>)
    ensures
        DEFAULT_TRIGGER_REWARD_LAMPORTS * pair_count <= u64::MAX ==> r == Ok::<u64, ProgramFailure>(
            (DEFAULT_TRIGGER_REWARD_LAMPORTS * pair_count) as u64,
        ),
        DEFAULT_TRIGGER_REWARD_LAMPORTS * pair_count > u64::MAX ==> r == Err::<u64, ProgramFailure>(
            custom(ChainStakingError::ArithmeticOverflow),
        ),
{
    let count = pair_count as u64;
    match DEFAULT_TRIGGER_REWARD_LAMPORTS.checked_mul(count) {
        Some(v) => Ok(v),
        None => Err(ProgramFailure::Custom(ChainStakingError::ArithmeticOverflow)),
    }
}

/// Pair `j` names a tracker that an earlier pair already named.
pub open spec fn repeats_tracker(pairs: Seq<StakePair>, j: int) -> bool {
    exists|k: int| 0 <= k < j && #[trigger] pairs[k].stake_tracker_key@ == pairs[j].stake_tracker_key@
}

/// The check that refuses pair `j`, if any, in the order they are made. A tracker
/// named by an earlier pair has been deactivated by then.
pub open spec fn pair_error(ctx: TriggerUnstake, chain_id: u8, j: int) -> Option<ProgramFailure> {
    let p = ctx.stake_pairs@[j];
    let t = p.stake_tracker;
    if !p.stake_tracker_is_writable {
        Some(custom(ChainStakingError::PdaAccountNotWritable))
    } else if t.chain_id != chain_id {
        Some(custom(ChainStakingError::StakeTrackerChainMismatch))
    } else if t.round != ctx.chain_account.current_round {
        Some(custom(ChainStakingError::StakeTrackerRoundMismatch))
    } else if p.stake_account.key@ != t.stake_account@ {
        Some(custom(ChainStakingError::StakeTrackerStakeAccountMismatch))
    } else if t.is_deactivated || repeats_tracker(ctx.stake_pairs@, j) {
        Some(custom(ChainStakingError::StakeAlreadyDeactivated))
    } else if t.is_withdrawn {
        Some(custom(ChainStakingError::AlreadyWithdrawn))
    } else if p.stake_account.owner@ != stake_program_key() {
        Some(custom(ChainStakingError::InvalidStakeAccountOwner))
    } else {
        failure_of(deactivate_stake_account_check(p.stake_account, ctx.clock, ctx.stake_history, ctx.stake_program))
    }
}

/// The first refused pair's error, from pair `lo` on.
pub open spec fn first_pair_error(ctx: TriggerUnstake, chain_id: u8, lo: int) -> Option<ProgramFailure>
    decreases ctx.stake_pairs@.len() - lo,
{
    if lo < 0 || lo >= ctx.stake_pairs@.len() {
        None
    } else if pair_error(ctx, chain_id, lo) is Some {
        pair_error(ctx, chain_id, lo)
    } else {
        first_pair_error(ctx, chain_id, lo + 1)
    }
}

/// The first pair from `lo` on that a check refuses (the number of pairs if none is).
pub open spec fn refused_pair(ctx: TriggerUnstake, chain_id: u8, lo: int) -> int
    decreases ctx.stake_pairs@.len() - lo,
{
    if lo < 0 || lo >= ctx.stake_pairs@.len() {
        ctx.stake_pairs@.len() as int
    } else if pair_error(ctx, chain_id, lo) is Some {
        lo
    } else {
        refused_pair(ctx, chain_id, lo + 1)
    }
}

/// A check made between the calls refuses the trigger: one of a pair, or the reward's move.
pub open spec fn trigger_refused(ctx: TriggerUnstake, chain_id: u8) -> bool {
    refused_pair(ctx, chain_id, 0) < ctx.stake_pairs@.len() || reward_move_error(ctx) is Some
}

/// The deactivations of the first `m` pairs, in order.
pub open spec fn deactivation_steps(ctx: TriggerUnstake, chain_id: u8, m: int) -> Seq<CpiStep> {
    let bump = ctx.chain_account.chain_authority_bump;
    ctx.stake_pairs@.take(m).map_values(
        |p: StakePair|
            CpiStep::DeactivateStake { stake_account: p.stake_account.key, chain_id, chain_authority_bump: bump },
    )
}

/// The first check that refuses the trigger before any call is made, in the order they
/// are made. Each pair's checks come after the deactivations of the pairs before it
/// (`refused_pair`), and the reward's move is checked last (`reward_move_error`).
pub open spec fn trigger_error(ctx: TriggerUnstake, chain_id: u8, expected_chain_authority: Option<Seq<u8>>) -> Option<
    ProgramFailure,
> {
    let n = ctx.stake_pairs@.len();
    if !ctx.chain_account.is_broken {
        Some(custom(ChainStakingError::ChainNotBroken))
    } else if ctx.chain_account.chain_id != chain_id {
        Some(custom(ChainStakingError::StakeTrackerChainMismatch))
    } else if ctx.trigger_vault.chain_id != chain_id {
        Some(custom(ChainStakingError::InvalidTriggerVault))
    } else if !key_matches(ctx.chain_authority@, expected_chain_authority) {
        Some(custom(ChainStakingError::InvalidChainAuthority))
    } else if n == 0 || ctx.trailing_account {
        Some(custom(ChainStakingError::InvalidTriggerUnstakeAccounts))
    } else if n > DEFAULT_UNSTAKE_BATCH_SIZE {
        Some(custom(ChainStakingError::TriggerUnstakeBatchTooLarge))
    } else if ctx.trigger_vault.reserve_lamports < DEFAULT_TRIGGER_REWARD_LAMPORTS * n {
        Some(custom(ChainStakingError::InsufficientTriggerRewardReserve))
    } else {
        None
    }
}

/// Why the reward cannot move from the vault to the triggerer: the vault's balance is
/// short of it, or the triggerer's balance would overflow.
pub open spec fn reward_move_error(ctx: TriggerUnstake) -> Option<ProgramFailure> {
    let reward = DEFAULT_TRIGGER_REWARD_LAMPORTS * ctx.stake_pairs@.len();
    if reward > ctx.trigger_vault_lamports {
        Some(custom(ChainStakingError::InsufficientTriggerRewardReserve))
    } else if ctx.triggerer.lamports + reward > u64::MAX {
        Some(custom(ChainStakingError::ArithmeticOverflow))
    } else {
        None
    }
}

/// A pair whose tracker has been deactivated.
pub open spec fn deactivated_pair(p: StakePair) -> StakePair {
    StakePair { stake_tracker: StakeTracker { is_deactivated: true, is_active: false, ..p.stake_tracker }, ..p }
}

/// The accounts after an accepted trigger: every tracker deactivated, and the reward
/// taken from the vault's reserve.
pub open spec fn triggered(ctx: TriggerUnstake, after: TriggerUnstake) -> bool {
    let n = ctx.stake_pairs@.len();
    &&& after == TriggerUnstake {
        trigger_vault: TriggerVault {
            reserve_lamports: (ctx.trigger_vault.reserve_lamports - DEFAULT_TRIGGER_REWARD_LAMPORTS * n) as u64,
            ..ctx.trigger_vault
        },
        stake_pairs: after.stake_pairs,
        ..ctx
    }
    &&& after.stake_pairs@ == ctx.stake_pairs@.map_values(|p: StakePair| deactivated_pair(p))
}

/// The calls of a trigger: one deactivation per pair, in order, each after that pair's
/// checks, then the reward moved from the vault to the triggerer; a refusing check ends
/// the calls with `Fail`.
pub open spec fn trigger_steps(ctx: TriggerUnstake, chain_id: u8) -> Seq<CpiStep> {
    let n = ctx.stake_pairs@.len() as int;
    let k = refused_pair(ctx, chain_id, 0);
    if k < n {
        deactivation_steps(ctx, chain_id, k) + seq![CpiStep::Fail { error: pair_error(ctx, chain_id, k)->0 }]
    } else if reward_move_error(ctx) is Some {
        deactivation_steps(ctx, chain_id, n) + seq![CpiStep::Fail { error: reward_move_error(ctx)->0 }]
    } else {
        deactivation_steps(ctx, chain_id, n) + seq![
            CpiStep::MoveLamports {
                from: ctx.trigger_vault_key,
                to: ctx.triggerer.key,
                lamports: (DEFAULT_TRIGGER_REWARD_LAMPORTS * n) as u64,
            },
        ]
    }
}

/// A trigger: refused with `trigger_error` before any call (accounts unchanged), or the
/// calls of `trigger_steps`, with the accounts of `triggered` unless a check between the
/// calls refuses it (accounts unchanged).
pub open spec fn trigger_outcome(
    before: TriggerUnstake,
    chain_id: u8,
    expected_chain_authority: Option<Seq<u8>>,
    after: TriggerUnstake,
    r: Result<Vec<CpiStep>, ProgramFailure>,
) -> bool {
    match r {
        Ok(steps) => {
            &&& trigger_error(before, chain_id, expected_chain_authority) is None
            &&& if trigger_refused(before, chain_id) {
                after == before
            } else {
                triggered(before, after)
            }
            &&& steps@ == trigger_steps(before, chain_id)
        },
        Err(e) => {
            &&& trigger_error(before, chain_id, expected_chain_authority) == Some(e)
            &&& after == before
        },
    }
}

proof fn lemma_first_pair_error_at(ctx: TriggerUnstake, chain_id: u8, lo: int, j: int)
    requires
        0 <= lo <= j <= ctx.stake_pairs@.len(),
        forall|i: int| lo <= i < j ==> pair_error(ctx, chain_id, i) is None,
    ensures
        j < ctx.stake_pairs@.len() ==> first_pair_error(ctx, chain_id, lo) == first_pair_error(ctx, chain_id, j),
        j == ctx.stake_pairs@.len() ==> first_pair_error(ctx, chain_id, lo) is None,
        refused_pair(ctx, chain_id, lo) == refused_pair(ctx, chain_id, j),
    decreases j - lo,
{
    if lo < j {
        lemma_first_pair_error_at(ctx, chain_id, lo + 1, j);
    }
}

/// Whether an earlier pair names the same tracker as pair `j`.
fn repeats_earlier(pairs: &Vec<StakePair>, j: usize) -> (r: bool)
    requires
        j < pairs@.len(),
    ensures
        r == repeats_tracker(pairs@, j as int),
{
    let mut k: usize = 0;
    while k < j
        invariant
            j < pairs@.len(),
            0 <= k <= j,
            forall|i: int| 0 <= i < k ==> #[trigger] pairs@[i].stake_tracker_key@ != pairs@[j as int].stake_tracker_key@,
        decreases j - k,
    {
        if pairs[k].stake_tracker_key.equals(&pairs[j].stake_tracker_key) {
            return true;
        }
        k = k + 1;
    }
    false
}

/// Deactivates the stakes of the broken chain `chain_id`, given its derived authority.
pub fn process(ctx: &mut TriggerUnstake, chain_id: u8, expected_chain_authority: &Option<Address>) -> (r: Result<
    Vec<CpiStep>,
    ProgramFailure,
>)
    ensures
        trigger_outcome(*old(ctx), chain_id, opt_address_view(*expected_chain_authority), *final(ctx), r),
        r is Ok ==> final(ctx).chain_account == old(ctx).chain_account,
{
    if !ctx.chain_account.is_broken {
        return Err(ProgramFailure::Custom(ChainStakingError::ChainNotBroken));
    }
    if ctx.chain_account.chain_id != chain_id {
        return Err(ProgramFailure::Custom(ChainStakingError::StakeTrackerChainMismatch));
    }
    if ctx.trigger_vault.chain_id != chain_id {
        return Err(ProgramFailure::Custom(ChainStakingError::InvalidTriggerVault));
    }
    if !matches_expected(&ctx.chain_authority, expected_chain_authority) {
        return Err(ProgramFailure::Custom(ChainStakingError::InvalidChainAuthority));
    }
    let n = ctx.stake_pairs.len();
    if n == 0 || ctx.trailing_account {
        return Err(ProgramFailure::Custom(ChainStakingError::InvalidTriggerUnstakeAccounts));
    }
    if n > DEFAULT_UNSTAKE_BATCH_SIZE as usize {
        return Err(ProgramFailure::Custom(ChainStakingError::TriggerUnstakeBatchTooLarge));
    }
    let total_trigger_reward = compute_total_trigger_reward(n)?;
    if ctx.trigger_vault.reserve_lamports < total_trigger_reward {
        return Err(ProgramFailure::Custom(ChainStakingError::InsufficientTriggerRewardReserve));
    }
    let chain_authority_bump = ctx.chain_account.chain_authority_bump;
    let current_round = ctx.chain_account.current_round;
    let program = stake_program_id();
    let ghost before = *ctx;
    assert(trigger_error(before, chain_id, opt_address_view(*expected_chain_authority)) is None);
    let mut updated: Vec<StakePair> = Vec::new();
    let mut steps: Vec<CpiStep> = Vec::new();
    let mut j: usize = 0;
    while j < n
        invariant
            *ctx == before,
            trigger_error(before, chain_id, opt_address_view(*expected_chain_authority)) is None,
            total_trigger_reward == DEFAULT_TRIGGER_REWARD_LAMPORTS * n,
            n == before.stake_pairs@.len(),
            0 <= j <= n,
            current_round == before.chain_account.current_round,
            chain_authority_bump == before.chain_account.chain_authority_bump,
            program@ == stake_program_key(),
            forall|i: int| 0 <= i < j ==> pair_error(before, chain_id, i) is None,
            updated@ == before.stake_pairs@.take(j as int).map_values(|p: StakePair| deactivated_pair(p)),
            steps@ == before.stake_pairs@.take(j as int).map_values(
                |p: StakePair|
                    CpiStep::DeactivateStake {
                        stake_account: p.stake_account.key,
                        chain_id,
                        chain_authority_bump: chain_authority_bump,
                    },
            ),
        decreases n - j,
    {
        let pair = ctx.stake_pairs[j];
        let tracker = pair.stake_tracker;
        let repeated = repeats_earlier(&ctx.stake_pairs, j);
        let failure = if !pair.stake_tracker_is_writable {
            Some(ProgramFailure::Custom(ChainStakingError::PdaAccountNotWritable))
        } else if tracker.chain_id != chain_id {
            Some(ProgramFailure::Custom(ChainStakingError::StakeTrackerChainMismatch))
        } else if tracker.round != current_round {
            Some(ProgramFailure::Custom(ChainStakingError::StakeTrackerRoundMismatch))
        } else if !pair.stake_account.key.equals(&tracker.stake_account) {
            Some(ProgramFailure::Custom(ChainStakingError::StakeTrackerStakeAccountMismatch))
        } else if tracker.is_deactivated || repeated {
            Some(ProgramFailure::Custom(ChainStakingError::StakeAlreadyDeactivated))
        } else if tracker.is_withdrawn {
            Some(ProgramFailure::Custom(ChainStakingError::AlreadyWithdrawn))
        } else if !pair.stake_account.owner.equals(&program) {
            Some(ProgramFailure::Custom(ChainStakingError::InvalidStakeAccountOwner))
        } else {
            match deactivate_stake_account_with_signer_seeds(
                &pair.stake_account,
                &ctx.clock,
                &ctx.stake_history,
                &ctx.stake_program,
            ) {
                Ok(_) => None,
                Err(e) => Some(e),
            }
        };
        assert(failure == pair_error(before, chain_id, j as int));
        if let Some(e) = failure {
            proof {
                lemma_first_pair_error_at(before, chain_id, 0, j as int);
                assert(steps@ =~= deactivation_steps(before, chain_id, j as int));
            }
            steps.push(CpiStep::Fail { error: e });
            assert(steps@ =~= trigger_steps(before, chain_id));
            return Ok(steps);
        }
        let ghost old_updated = updated@;
        let ghost old_steps = steps@;
        updated.push(StakePair {
            stake_tracker: StakeTracker { is_deactivated: true, is_active: false, ..tracker },
            ..pair
        });
        steps.push(CpiStep::DeactivateStake { stake_account: pair.stake_account.key, chain_id, chain_authority_bump });
        proof {
            assert(before.stake_pairs@.take(j + 1) =~= before.stake_pairs@.take(j as int).push(pair));
        }
        j = j + 1;
        assert(updated@ =~= before.stake_pairs@.take(j as int).map_values(|p: StakePair| deactivated_pair(p)));
        assert(steps@ =~= before.stake_pairs@.take(j as int).map_values(
            |p: StakePair|
                CpiStep::DeactivateStake { stake_account: p.stake_account.key, chain_id, chain_authority_bump },
        ));
    }
    proof {
        lemma_first_pair_error_at(before, chain_id, 0, n as int);
        assert(before.stake_pairs@.take(n as int) =~= before.stake_pairs@);
    }
    proof {
        assert(steps@ =~= deactivation_steps(before, chain_id, n as int));
    }
    if let Err(e) = transfer_program_lamports(ctx.trigger_vault_lamports, ctx.triggerer.lamports, total_trigger_reward) {
        steps.push(CpiStep::Fail { error: e });
        assert(steps@ =~= trigger_steps(before, chain_id));
        return Ok(steps);
    }
    ctx.trigger_vault.reserve_lamports = ctx.trigger_vault.reserve_lamports - total_trigger_reward;
    ctx.stake_pairs = updated;
    steps.push(CpiStep::MoveLamports {
        from: ctx.trigger_vault_key,
        to: ctx.triggerer.key,
        lamports: total_trigger_reward,
    });
    assert(steps@ =~= trigger_steps(before, chain_id));
    Ok(steps)
}

/// Deactivates the stakes of the broken chain `chain_id`.
pub fn handler(ctx: &mut TriggerUnstake, program_id: &Address, chain_id: u8) -> (r: Result<
    Vec<CpiStep>,
    ProgramFailure,
>)
    ensures
        trigger_outcome(*old(ctx), chain_id, pda_address(chain_authority_seeds(chain_id), program_id@), *final(ctx), r),
        r is Ok ==> final(ctx).chain_account == old(ctx).chain_account,
{
    let expected = derived_address(find_chain_authority_pda(program_id, chain_id));
    process(ctx, chain_id, &expected)
}

/// An accepted trigger deactivates each listed stake, in order, for a reward of
/// `DEFAULT_TRIGGER_REWARD_LAMPORTS` per stake, moved from the vault to the triggerer
/// and taken from the vault's reserve; the chain itself is left as it was.
pub proof fn lemma_trigger_rewards(
    before: TriggerUnstake,
    chain_id: u8,
    expected_chain_authority: Option<Seq<u8>>,
    after: TriggerUnstake,
    r: Result<Vec<CpiStep>, ProgramFailure>,
)
    requires
        trigger_outcome(before, chain_id, expected_chain_authority, after, r),
        r is Ok,
        !trigger_refused(before, chain_id),
    ensures
        ({
            let n = before.stake_pairs@.len() as int;
            let reward = 10_000_000 * n;
            &&& 1 <= n <= 5
            &&& after.trigger_vault.reserve_lamports == before.trigger_vault.reserve_lamports - reward
            &&& after.chain_account == before.chain_account
            &&& after.stake_pairs@.len() == n
            &&& forall|i: int|
                0 <= i < n ==> (#[trigger] after.stake_pairs@[i]).stake_tracker.is_deactivated
                    && !after.stake_pairs@[i].stake_tracker.is_active
            &&& r matches Ok(steps) && steps@.len() == n + 1 && steps@[n] == CpiStep::MoveLamports {
                from: before.trigger_vault_key,
                to: before.triggerer.key,
                lamports: reward as u64,
            } && forall|i: int|
                0 <= i < n ==> #[trigger] steps@[i] == CpiStep::DeactivateStake {
                    stake_account: before.stake_pairs@[i].stake_account.key,
                    chain_id,
                    chain_authority_bump: before.chain_account.chain_authority_bump,
                }
        }),
{
    let n = before.stake_pairs@.len() as int;
    assert forall|i: int| 0 <= i < n implies (#[trigger] after.stake_pairs@[i]).stake_tracker.is_deactivated
        && !after.stake_pairs@[i].stake_tracker.is_active by {
        assert(after.stake_pairs@[i] == deactivated_pair(before.stake_pairs@[i]));
    }
    assert(before.stake_pairs@.take(n) =~= before.stake_pairs@);
}

/// A stake is deactivated for a reward only once: after an accepted trigger, the same
/// pairs are refused, the first of them as already deactivated.
pub proof fn lemma_trigger_only_once(
    before: TriggerUnstake,
    after: TriggerUnstake,
    chain_id: u8,
    expected_chain_authority: Option<Seq<u8>>,
)
    requires
        trigger_error(before, chain_id, expected_chain_authority) is None,
        !trigger_refused(before, chain_id),
        triggered(before, after),
    ensures
        first_pair_error(after, chain_id, 0) == Some(custom(ChainStakingError::StakeAlreadyDeactivated)),
{
    assert(pair_error(before, chain_id, 0) is None);
    assert(after.stake_pairs@[0] == deactivated_pair(before.stake_pairs@[0]));
}

/// Moves `amount` lamports between two balances this program may edit. Fails when the
/// source holds less than the amount (the trigger reserve is short) or the destination
/// would overflow; otherwise the two balances keep their sum.
pub fn transfer_program_lamports(source_lamports: u64, destination_lamports: u64, amount: u64) -> (r: Result<
    (u64, u64),
    ProgramFailure,
>)
    ensures
        amount > source_lamports ==> r == Err::<(u64, u64), ProgramFailure>(
            custom(ChainStakingError::InsufficientTriggerRewardReserve),
        ),
        amount <= source_lamports && destination_lamports + amount > u64::MAX ==> r == Err::<
            (u64, u64),
            ProgramFailure,
        >(custom(ChainStakingError::ArithmeticOverflow)),
        amount <= source_lamports && destination_lamports + amount <= u64::MAX ==> r == Ok::<
            (u64, u64),
            ProgramFailure,
        >(((source_lamports - amount) as u64, (destination_lamports + amount) as u64)),
        r matches Ok(b) ==> b.0 + b.1 == source_lamports + destination_lamports,
{
    if amount > source_lamports {
        return Err(ProgramFailure::Custom(ChainStakingError::InsufficientTriggerRewardReserve));
    }
    if destination_lamports > u64::MAX - amount {
        return Err(ProgramFailure::Custom(ChainStakingError::ArithmeticOverflow));
    }
    Ok((source_lamports - amount, destination_lamports + amount))
}

} // verus!
