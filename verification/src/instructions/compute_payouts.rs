//! Computing the payouts of a broken chain's entries, in batches.
use crate::address::Address;
use crate::constants::{
    BREAK_TYPE_MANUAL, derived_address, entry_seeds, find_entry_pda, find_stake_tracker_pda, key_matches, matches_expected,
    opt_address_view, pda_address, stake_tracker_seeds, MAX_PAYOUTS_PER_CALL, STAKE_SOURCE_TYPE_ENTRY,
};
use crate::errors::{custom, ChainStakingError, ProgramFailure};
use crate::state::{AccountSnapshot, ChainAccount, EntryAccount, GlobalConfig, StakeTracker};
use crate::yield_utils::{
    compute_payouts, is_middle, lemma_sum_nonneg, lemma_sum_prefix_step, middle_row_fits, payout_row, payouts_error, sum_u64,
    EntryPayoutBreakdown, EntryPayoutInput,
};
use vstd::prelude::*;

verus! {

#[derive(Clone, Copy, Debug, PartialEq, Eq, Structural)]
pub struct ComputePayoutsArgs {
    pub chain_id: u8,
    /// The position of the batch's first entry.
    pub start_position: u32,
}

/// One `[entry_account, stake_tracker, stake_account]` triplet of the remaining accounts.
#[derive(Clone, Copy, Debug)]
pub struct PayoutTriplet {
    pub entry_key: Address,
    pub entry_is_writable: bool,
    /// The entry as deserialized from its account.
    pub entry: EntryAccount,
    pub stake_tracker_key: Address,
    /// The tracker as deserialized from its account.
    pub stake_tracker: StakeTracker,
    pub stake_account: AccountSnapshot,
}

/// What computing payouts reads and writes.
#[derive(Clone, Debug)]
pub struct ComputePayouts {
    pub global_config: GlobalConfig,
    pub chain_account: ChainAccount,
    /// The remaining accounts, read in triplets.
    pub triplets: Vec<PayoutTriplet>,
    /// How many remaining accounts are left over after the triplets (0, 1 or 2).
    pub trailing_accounts: usize,
}

/// The derived addresses of the entry and the tracker at each batch position.
#[derive(Clone, Copy, Debug)]
pub struct ExpectedAccounts {
    pub entry: Option<Address>,
    pub stake_tracker: Option<Address>,
}

/// The derived entry and tracker addresses for batch index `i`, as views (none where
/// they are missing).
pub open spec fn expected_at(expected: Seq<ExpectedAccounts>, i: int) -> (Option<Seq<u8>>, Option<Seq<u8>>) {
    if 0 <= i < expected.len() {
        (opt_address_view(expected[i].entry), opt_address_view(expected[i].stake_tracker))
    } else {
        (None, None)
    }
}

/// The addresses the runtime derives for batch index `i`.
pub open spec fn derived_at(program_id: Seq<u8>, args: ComputePayoutsArgs, round: u32, i: int) -> (
    Option<Seq<u8>>,
    Option<Seq<u8>>,
) {
    let position = (args.start_position + i) as u32;
    (
        pda_address(entry_seeds(args.chain_id, round, position), program_id),
        pda_address(stake_tracker_seeds(args.chain_id, round, STAKE_SOURCE_TYPE_ENTRY, position), program_id),
    )
}

pub open spec fn tracker_principals(triplets: Seq<PayoutTriplet>) -> Seq<u64> {
    triplets.map_values(|t: PayoutTriplet| t.stake_tracker.principal_lamports)
}

pub open spec fn stake_balances(triplets: Seq<PayoutTriplet>) -> Seq<u64> {
    triplets.map_values(|t: PayoutTriplet| t.stake_account.lamports)
}

/// The payout inputs of a batch: each entry's principal, at its place in the batch.
/// A batch may start at any position of the round, and the payout rules are applied to
/// the batch on its own: its first entry is paid as the first entrant (nothing), each
/// middle entry with the principal of the entry after it plus its pooled share, and its
/// last entry as the leader. A round paid in one batch is paid as a whole; one paid in
/// several batches is paid batch by batch in this way.
pub open spec fn payout_inputs(triplets: Seq<PayoutTriplet>) -> Seq<EntryPayoutInput> {
    Seq::new(
        triplets.len(),
        |i: int| EntryPayoutInput { position: i as u32, principal_lamports: triplets[i].entry.principal_lamports },
    )
}

/// The check that refuses triplet `i`, if any, in the order they are made.
pub open spec fn triplet_error(
    ctx: ComputePayouts,
    args: ComputePayoutsArgs,
    expected: (Option<Seq<u8>>, Option<Seq<u8>>),
    i: int,
) -> Option<ProgramFailure> {
    let t = ctx.triplets@[i];
    let position = args.start_position + i;
    if position > u32::MAX {
        Some(custom(ChainStakingError::ArithmeticOverflow))
    } else if !key_matches(t.entry_key@, expected.0) {
        Some(custom(ChainStakingError::PayoutEntryMismatch))
    } else if !t.entry_is_writable {
        Some(custom(ChainStakingError::PdaAccountNotWritable))
    } else if t.entry.chain_id != args.chain_id || t.entry.round != ctx.chain_account.current_round {
        Some(custom(ChainStakingError::PayoutEntryMismatch))
    } else if t.entry.position != position {
        Some(custom(ChainStakingError::PayoutEntriesOutOfOrder))
    } else if !key_matches(t.stake_tracker_key@, expected.1) {
        Some(custom(ChainStakingError::StakeTrackerStakeAccountMismatch))
    } else if t.stake_account.key@ != t.stake_tracker.stake_account@ {
        Some(custom(ChainStakingError::StakeTrackerStakeAccountMismatch))
    } else if sum_u64(tracker_principals(ctx.triplets@).take(i + 1)) > u64::MAX || sum_u64(
        stake_balances(ctx.triplets@).take(i + 1),
    ) > u64::MAX {
        Some(custom(ChainStakingError::ArithmeticOverflow))
    } else {
        None
    }
}

/// The first refused triplet's error, from triplet `lo` on.
pub open spec fn first_triplet_error(
    ctx: ComputePayouts,
    args: ComputePayoutsArgs,
    expected: Seq<ExpectedAccounts>,
    lo: int,
) -> Option<ProgramFailure>
    decreases ctx.triplets@.len() - lo,
{
    if lo < 0 || lo >= ctx.triplets@.len() {
        None
    } else if triplet_error(ctx, args, expected_at(expected, lo), lo) is Some {
        triplet_error(ctx, args, expected_at(expected, lo), lo)
    } else {
        first_triplet_error(ctx, args, expected, lo + 1)
    }
}

/// The batch's principal (from its trackers) and stake balance.
pub open spec fn batch_principal(ctx: ComputePayouts) -> int {
    sum_u64(tracker_principals(ctx.triplets@))
}

pub open spec fn batch_balance(ctx: ComputePayouts) -> int {
    sum_u64(stake_balances(ctx.triplets@))
}

/// The yield the batch's stakes hold beyond their principal (0 when they hold less).
pub open spec fn batch_yield(ctx: ComputePayouts) -> u64 {
    if batch_balance(ctx) >= batch_principal(ctx) {
        (batch_balance(ctx) - batch_principal(ctx)) as u64
    } else {
        0
    }
}

/// The first check that refuses the batch, in the order they are made.
pub open spec fn compute_payouts_error(
    ctx: ComputePayouts,
    args: ComputePayoutsArgs,
    expected: Seq<ExpectedAccounts>,
) -> Option<ProgramFailure> {
    let chain = ctx.chain_account;
    let n = ctx.triplets@.len();
    if !chain.is_broken {
        Some(custom(ChainStakingError::PayoutsRequireBrokenChain))
    } else if chain.round_settled {
        Some(custom(ChainStakingError::RoundAlreadySettled))
    } else if chain.entry_count < 2 {
        Some(custom(ChainStakingError::InsufficientEntriesForPayouts))
    } else if chain.chain_id != args.chain_id {
        Some(custom(ChainStakingError::StakeTrackerChainMismatch))
    } else if n == 0 || ctx.trailing_accounts != 0 {
        Some(custom(ChainStakingError::InvalidComputePayoutsAccounts))
    } else if n > MAX_PAYOUTS_PER_CALL {
        Some(custom(ChainStakingError::TooManyPayoutEntries))
    } else {
        error_after_checks(ctx, args, expected)
    }
}

/// The error of a batch that passes the checks made before its triplets are read.
pub open spec fn error_after_checks(
    ctx: ComputePayouts,
    args: ComputePayoutsArgs,
    expected: Seq<ExpectedAccounts>,
) -> Option<ProgramFailure> {
    let chain = ctx.chain_account;
    let inputs = payout_inputs(ctx.triplets@);
    let pool = batch_principal(ctx) as u64;
    if first_triplet_error(ctx, args, expected, 0) is Some {
        first_triplet_error(ctx, args, expected, 0)
    } else if payouts_error(inputs, chain.break_type, batch_yield(ctx), chain.donation_pot_lamports, pool) is Some {
        payouts_error(inputs, chain.break_type, batch_yield(ctx), chain.donation_pot_lamports, pool)
    } else if args.start_position + ctx.triplets@.len() > u32::MAX {
        Some(custom(ChainStakingError::ArithmeticOverflow))
    } else {
        None
    }
}

/// The accounts after an accepted batch: the entry at position `args.start_position + i`
/// (triplet `i`) holds the payout that `payout_row` gives place `i` of the batch, and
/// the round is settled once the batch reaches the round's last entry.
pub open spec fn computed(ctx: ComputePayouts, args: ComputePayoutsArgs, after: ComputePayouts) -> bool {
    let chain = ctx.chain_account;
    let n = ctx.triplets@.len();
    let inputs = payout_inputs(ctx.triplets@);
    &&& after.global_config == ctx.global_config
    &&& after.trailing_accounts == ctx.trailing_accounts
    &&& after.chain_account == ChainAccount {
        round_settled: if args.start_position + n >= chain.entry_count { true } else { chain.round_settled },
        ..chain
    }
    &&& after.triplets@.len() == n
    &&& forall|i: int|
        0 <= i < n ==> #[trigger] after.triplets@[i] == PayoutTriplet {
            entry: EntryAccount {
                payout_lamports: payout_row(
                    inputs,
                    i,
                    chain.break_type,
                    batch_yield(ctx),
                    chain.donation_pot_lamports,
                    batch_principal(ctx) as u64,
                ).payout_lamports,
                ..ctx.triplets@[i].entry
            },
            ..ctx.triplets@[i]
        }
}

proof fn lemma_first_triplet_error_at(
    ctx: ComputePayouts,
    args: ComputePayoutsArgs,
    expected: Seq<ExpectedAccounts>,
    lo: int,
    j: int,
)
    requires
        0 <= lo <= j <= ctx.triplets@.len(),
        forall|i: int| lo <= i < j ==> triplet_error(ctx, args, expected_at(expected, i), i) is None,
    ensures
        j < ctx.triplets@.len() ==> first_triplet_error(ctx, args, expected, lo) == first_triplet_error(
            ctx,
            args,
            expected,
            j,
        ),
        j == ctx.triplets@.len() ==> first_triplet_error(ctx, args, expected, lo) is None,
    decreases j - lo,
{
    if lo < j {
        lemma_first_triplet_error_at(ctx, args, expected, lo + 1, j);
    }
}

/// Computes the payouts of a batch, given the derived entry and tracker addresses for
/// each batch index.
pub fn process(ctx: &mut ComputePayouts, args: &ComputePayoutsArgs, expected: &Vec<ExpectedAccounts>) -> (r: Result<
    (),
    ProgramFailure,
>)
    ensures
        match r {
            Ok(_) => {
                &&& compute_payouts_error(*old(ctx), *args, expected@) is None
                &&& computed(*old(ctx), *args, *final(ctx))
            },
            Err(e) => {
                &&& compute_payouts_error(*old(ctx), *args, expected@) == Some(e)
                &&& *final(ctx) == *old(ctx)
            },
        },
        r is Ok && old(ctx).chain_account.well_formed() ==> final(ctx).chain_account.well_formed(),
{
    let chain = ctx.chain_account;
    if !chain.is_broken {
        return Err(ProgramFailure::Custom(ChainStakingError::PayoutsRequireBrokenChain));
    }
    if chain.round_settled {
        return Err(ProgramFailure::Custom(ChainStakingError::RoundAlreadySettled));
    }
    if chain.entry_count < 2 {
        return Err(ProgramFailure::Custom(ChainStakingError::InsufficientEntriesForPayouts));
    }
    if chain.chain_id != args.chain_id {
        return Err(ProgramFailure::Custom(ChainStakingError::StakeTrackerChainMismatch));
    }
    let batch_size = ctx.triplets.len();
    if batch_size == 0 || ctx.trailing_accounts != 0 {
        return Err(ProgramFailure::Custom(ChainStakingError::InvalidComputePayoutsAccounts));
    }
    if batch_size > MAX_PAYOUTS_PER_CALL {
        return Err(ProgramFailure::Custom(ChainStakingError::TooManyPayoutEntries));
    }
    let chain_id = args.chain_id;
    let round = chain.current_round;
    let break_type = chain.break_type;
    let donation_pot = chain.donation_pot_lamports;
    let ghost before = *ctx;
    let ghost exp = expected@;
    let ghost principals_seq = tracker_principals(before.triplets@);
    let ghost balances_seq = stake_balances(before.triplets@);
    assert(compute_payouts_error(before, *args, exp) == error_after_checks(before, *args, exp));
    let mut entry_inputs: Vec<EntryPayoutInput> = Vec::new();
    let mut total_principal: u64 = 0;
    let mut total_stake_balance: u64 = 0;
    let mut batch_idx: usize = 0;
    while batch_idx < batch_size
        invariant
            *ctx == before,
            expected@ == exp,
            compute_payouts_error(before, *args, exp) == error_after_checks(before, *args, exp),
            batch_size == before.triplets@.len(),
            batch_size <= MAX_PAYOUTS_PER_CALL,
            0 <= batch_idx <= batch_size,
            round == before.chain_account.current_round,
            chain_id == args.chain_id,
            principals_seq == tracker_principals(before.triplets@),
            balances_seq == stake_balances(before.triplets@),
            forall|i: int| 0 <= i < batch_idx ==> triplet_error(before, *args, expected_at(exp, i), i) is None,
            total_principal == sum_u64(principals_seq.take(batch_idx as int)),
            total_stake_balance == sum_u64(balances_seq.take(batch_idx as int)),
            entry_inputs@ == payout_inputs(before.triplets@).take(batch_idx as int),
        decreases batch_size - batch_idx,
    {
        let t = ctx.triplets[batch_idx];
        let ghost texp = expected_at(exp, batch_idx as int);
        let (exp_entry, exp_tracker) = if batch_idx < expected.len() {
            (expected[batch_idx].entry, expected[batch_idx].stake_tracker)
        } else {
            (None, None)
        };
        assert(opt_address_view(exp_entry) == texp.0 && opt_address_view(exp_tracker) == texp.1);
        proof {
            lemma_sum_prefix_step(principals_seq, batch_idx as int);
            lemma_sum_prefix_step(balances_seq, batch_idx as int);
        }
        let failure = if args.start_position > u32::MAX - batch_idx as u32 {
            Some(ProgramFailure::Custom(ChainStakingError::ArithmeticOverflow))
        } else if !matches_expected(&t.entry_key, &exp_entry) {
            Some(ProgramFailure::Custom(ChainStakingError::PayoutEntryMismatch))
        } else if !t.entry_is_writable {
            Some(ProgramFailure::Custom(ChainStakingError::PdaAccountNotWritable))
        } else if t.entry.chain_id != chain_id || t.entry.round != round {
            Some(ProgramFailure::Custom(ChainStakingError::PayoutEntryMismatch))
        } else if t.entry.position != args.start_position + batch_idx as u32 {
            Some(ProgramFailure::Custom(ChainStakingError::PayoutEntriesOutOfOrder))
        } else if !matches_expected(&t.stake_tracker_key, &exp_tracker) {
            Some(ProgramFailure::Custom(ChainStakingError::StakeTrackerStakeAccountMismatch))
        } else if !t.stake_account.key.equals(&t.stake_tracker.stake_account) {
            Some(ProgramFailure::Custom(ChainStakingError::StakeTrackerStakeAccountMismatch))
        } else if total_principal > u64::MAX - t.stake_tracker.principal_lamports || total_stake_balance > u64::MAX
            - t.stake_account.lamports {
            Some(ProgramFailure::Custom(ChainStakingError::ArithmeticOverflow))
        } else {
            None
        };
        assert(failure == triplet_error(before, *args, texp, batch_idx as int));
        if let Some(e) = failure {
            proof {
                lemma_first_triplet_error_at(before, *args, exp, 0, batch_idx as int);
            }
            return Err(e);
        }
        total_principal = total_principal + t.stake_tracker.principal_lamports;
        total_stake_balance = total_stake_balance + t.stake_account.lamports;
        entry_inputs.push(EntryPayoutInput {
            position: batch_idx as u32,
            principal_lamports: t.entry.principal_lamports,
        });
        batch_idx = batch_idx + 1;
        assert(entry_inputs@ =~= payout_inputs(before.triplets@).take(batch_idx as int));
    }
    proof {
        lemma_first_triplet_error_at(before, *args, exp, 0, batch_size as int);
        assert(principals_seq.take(batch_size as int) =~= principals_seq);
        assert(balances_seq.take(batch_size as int) =~= balances_seq);
        assert(payout_inputs(before.triplets@).take(batch_size as int) =~= payout_inputs(before.triplets@));
    }
    let yield_pool = if total_stake_balance >= total_principal {
        total_stake_balance - total_principal
    } else {
        0
    };
    let payouts = compute_payouts(entry_inputs.as_slice(), break_type, yield_pool, donation_pot, total_principal)?;
    if args.start_position > u32::MAX - batch_size as u32 {
        return Err(ProgramFailure::Custom(ChainStakingError::ArithmeticOverflow));
    }
    let end_position = args.start_position + batch_size as u32;
    let mut k: usize = 0;
    while k < batch_size
        invariant
            batch_size == before.triplets@.len(),
            payouts@.len() == batch_size,
            0 <= k <= batch_size,
            ctx.global_config == before.global_config,
            ctx.chain_account == before.chain_account,
            ctx.trailing_accounts == before.trailing_accounts,
            ctx.triplets@.len() == batch_size,
            forall|i: int|
                0 <= i < k ==> #[trigger] ctx.triplets@[i] == (PayoutTriplet {
                    entry: (EntryAccount { payout_lamports: payouts@[i].payout_lamports, ..before.triplets@[i].entry }),
                    ..before.triplets@[i]
                }),
            forall|i: int| k <= i < batch_size ==> #[trigger] ctx.triplets@[i] == before.triplets@[i],
        decreases batch_size - k,
    {
        let mut t = ctx.triplets[k];
        t.entry.payout_lamports = payouts[k].payout_lamports;
        ctx.triplets.set(k, t);
        k = k + 1;
    }
    if end_position >= ctx.chain_account.entry_count {
        ctx.chain_account.round_settled = true;
    }
    Ok(())
}

/// Computes the payouts of a batch of the broken chain `args.chain_id`, deriving the
/// expected entry and tracker addresses from `program_id`.
pub fn handler(ctx: &mut ComputePayouts, program_id: &Address, args: &ComputePayoutsArgs) -> (r: Result<
    (),
    ProgramFailure,
>)
    ensures
        exists|expected: Seq<ExpectedAccounts>|
            {
                &&& expected.len() == old(ctx).triplets@.len()
                &&& forall|i: int|
                    0 <= i < expected.len() && args.start_position + i <= u32::MAX ==> #[trigger] expected_at(
                        expected,
                        i,
                    ) == derived_at(program_id@, *args, old(ctx).chain_account.current_round, i)
                &&& match r {
                    Ok(_) => {
                        &&& compute_payouts_error(*old(ctx), *args, expected) is None
                        &&& computed(*old(ctx), *args, *final(ctx))
                    },
                    Err(e) => {
                        &&& compute_payouts_error(*old(ctx), *args, expected) == Some(e)
                        &&& *final(ctx) == *old(ctx)
                    },
                }
            },
        r is Ok && old(ctx).chain_account.well_formed() ==> final(ctx).chain_account.well_formed(),
{
    let round = ctx.chain_account.current_round;
    let n = ctx.triplets.len();
    let mut expected: Vec<ExpectedAccounts> = Vec::new();
    let mut i: usize = 0;
    while i < n
        invariant
            n == ctx.triplets@.len(),
            0 <= i <= n,
            round == ctx.chain_account.current_round,
            expected@.len() == i,
            forall|j: int|
                0 <= j < i && args.start_position + j <= u32::MAX ==> #[trigger] expected_at(expected@, j)
                    == derived_at(program_id@, *args, round, j),
        decreases n - i,
    {
        let ghost old_expected = expected@;
        if i <= (u32::MAX - args.start_position) as usize {
            let position = args.start_position + i as u32;
            let entry = derived_address(find_entry_pda(program_id, args.chain_id, round, position));
            let stake_tracker = derived_address(
                find_stake_tracker_pda(program_id, args.chain_id, round, STAKE_SOURCE_TYPE_ENTRY, position),
            );
            expected.push(ExpectedAccounts { entry, stake_tracker });
        } else {
            expected.push(ExpectedAccounts { entry: None, stake_tracker: None });
        }
        assert forall|j: int| 0 <= j < i implies #[trigger] expected_at(expected@, j) == expected_at(old_expected, j) by {
            assert(expected@[j] == old_expected[j]);
        }
        i = i + 1;
    }
    process(ctx, args, &expected)
}

/// A batch may start at any position of the round: the payout rules never find the
/// inputs of a batch out of order, wherever the batch starts.
pub proof fn lemma_batch_inputs_in_order(
    triplets: Seq<PayoutTriplet>,
    break_type: u8,
    total_yield_pool: u64,
    donation_pot: u64,
    distributable_principal: u64,
)
    ensures
        payouts_error(payout_inputs(triplets), break_type, total_yield_pool, donation_pot, distributable_principal)
            != Some(custom(ChainStakingError::PayoutEntriesOutOfOrder)),
{
    let inputs = payout_inputs(triplets);
    if 2 <= inputs.len() <= MAX_PAYOUTS_PER_CALL {
        assert forall|i: int| 0 <= i < inputs.len() implies #[trigger] inputs[i].position == i by {}
    }
}

/// The payouts a batch writes, over the batch alone: with `P` the sum of the batch's
/// tracker principals and `Y` what its stakes hold beyond `P`, the first entry gets
/// nothing; the last gets `Y` after a manual break and the donation pot after a
/// community break; and each middle entry gets the next entry's principal plus its
/// principal's share of the reward (the pot after a manual break, `Y` after a community
/// break), `principal * reward / P` rounded down. Nothing else of the chain, such as its
/// total stake, enters into it.
pub proof fn lemma_batch_payouts(
    before: ComputePayouts,
    args: ComputePayoutsArgs,
    expected: Seq<ExpectedAccounts>,
    after: ComputePayouts,
)
    requires
        compute_payouts_error(before, args, expected) is None,
        computed(before, args, after),
    ensures
        ({
            let t = before.triplets@;
            let n = t.len() as int;
            let p = sum_u64(tracker_principals(t));
            let b = sum_u64(stake_balances(t));
            let y = if b >= p {
                b - p
            } else {
                0
            };
            let manual = before.chain_account.break_type == BREAK_TYPE_MANUAL;
            let pot = before.chain_account.donation_pot_lamports as int;
            let reward = if manual {
                pot
            } else {
                y
            };
            &&& n >= 2
            &&& after.triplets@.len() == n
            &&& after.chain_account.round_settled == (args.start_position + n >= before.chain_account.entry_count)
            &&& after.chain_account.total_staked_lamports == before.chain_account.total_staked_lamports
            &&& after.chain_account.donation_pot_lamports == before.chain_account.donation_pot_lamports
            &&& after.chain_account.current_round == before.chain_account.current_round
            &&& forall|i: int|
                0 <= i < n ==> (#[trigger] after.triplets@[i]).entry.principal_lamports
                    == t[i].entry.principal_lamports && after.triplets@[i].stake_tracker == t[i].stake_tracker
            &&& after.triplets@[0].entry.payout_lamports == 0
            &&& after.triplets@[n - 1].entry.payout_lamports == if manual {
                y
            } else {
                pot
            }
            &&& forall|i: int|
                0 < i < n - 1 ==> #[trigger] after.triplets@[i].entry.payout_lamports == t[i
                    + 1].entry.principal_lamports + if reward == 0 || t[i].entry.principal_lamports == 0 {
                    0
                } else {
                    t[i].entry.principal_lamports * reward / p
                }
        }),
{
    let t = before.triplets@;
    let n = t.len() as int;
    let inputs = payout_inputs(t);
    let chain = before.chain_account;
    assert(error_after_checks(before, args, expected) is None);
    lemma_no_triplet_error(before, args, expected, 0);
    assert(triplet_error(before, args, expected_at(expected, n - 1), n - 1) is None);
    assert(tracker_principals(t).take(n) =~= tracker_principals(t));
    assert(stake_balances(t).take(n) =~= stake_balances(t));
    let p = sum_u64(tracker_principals(t));
    let b = sum_u64(stake_balances(t));
    assert(0 <= p <= u64::MAX) by {
        lemma_sum_nonneg(tracker_principals(t));
    }
    assert(0 <= b <= u64::MAX) by {
        lemma_sum_nonneg(stake_balances(t));
    }
    let y = batch_yield(before);
    let pool = batch_principal(before) as u64;
    assert(pool == p);
    assert(payouts_error(inputs, chain.break_type, y, chain.donation_pot_lamports, pool) is None);
    assert forall|i: int| 0 < i < n - 1 implies #[trigger] after.triplets@[i].entry.payout_lamports == t[i
        + 1].entry.principal_lamports + if (if chain.break_type == BREAK_TYPE_MANUAL {
        chain.donation_pot_lamports as int
    } else {
        if b >= p {
            b - p
        } else {
            0
        }
    }) == 0 || t[i].entry.principal_lamports == 0 {
        0
    } else {
        t[i].entry.principal_lamports * (if chain.break_type == BREAK_TYPE_MANUAL {
            chain.donation_pot_lamports as int
        } else {
            if b >= p {
                b - p
            } else {
                0
            }
        }) / p
    } by {
        assert(is_middle(inputs, i));
        assert(middle_row_fits(inputs, i, chain.break_type, y, chain.donation_pot_lamports, pool));
        assert(after.triplets@[i].entry.payout_lamports == payout_row(
            inputs,
            i,
            chain.break_type,
            y,
            chain.donation_pot_lamports,
            pool,
        ).payout_lamports);
    }
    assert(after.triplets@[0].entry.payout_lamports == payout_row(
        inputs,
        0,
        chain.break_type,
        y,
        chain.donation_pot_lamports,
        pool,
    ).payout_lamports);
    assert(after.triplets@[n - 1].entry.payout_lamports == payout_row(
        inputs,
        n - 1,
        chain.break_type,
        y,
        chain.donation_pot_lamports,
        pool,
    ).payout_lamports);
}

proof fn lemma_no_triplet_error(ctx: ComputePayouts, args: ComputePayoutsArgs, expected: Seq<ExpectedAccounts>, lo: int)
    requires
        0 <= lo,
        first_triplet_error(ctx, args, expected, lo) is None,
    ensures
        forall|i: int| lo <= i < ctx.triplets@.len() ==> triplet_error(ctx, args, expected_at(expected, i), i) is None,
    decreases ctx.triplets@.len() - lo,
{
    if lo < ctx.triplets@.len() {
        lemma_no_triplet_error(ctx, args, expected, lo + 1);
    }
}

} // verus!
