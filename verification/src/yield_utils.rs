//! Yield accounting and the payout of a broken chain.
use crate::constants::{BREAK_TYPE_COMMUNITY, BREAK_TYPE_MANUAL, MAX_PAYOUTS_PER_CALL};
use crate::errors::{custom, ChainStakingError, ProgramFailure};
use crate::state::{AccountSnapshot, StakeTracker};
use vstd::arithmetic::div_mod::{lemma_fundamental_div_mod, lemma_mod_pos_bound};
use vstd::prelude::*;

verus! {

#[derive(Clone, Copy, Debug, PartialEq, Eq, Structural)]
pub struct YieldPoolAccounting {
    pub total_stake_account_balance_lamports: u64,
    pub principal_pool_lamports: u64,
    pub yield_pool_lamports: u64,
}

#[derive(Clone, Copy, Debug, PartialEq, Eq, Structural)]
pub struct EntryPayoutInput {
    pub position: u32,
    pub principal_lamports: u64,
}

#[derive(Clone, Copy, Debug, PartialEq, Eq, Structural)]
pub struct EntryPayoutBreakdown {
    pub position: u32,
    pub principal_lamports: u64,
    pub yield_lamports: u64,
    pub donation_lamports: u64,
    pub payout_lamports: u64,
}

/// The sum of a sequence of amounts.
pub open spec fn sum_u64(s: Seq<u64>) -> int
    decreases s.len(),
{
    if s.len() == 0 {
        0
    } else {
        sum_u64(s.drop_last()) + s.last()
    }
}

pub open spec fn principals(trackers: Seq<StakeTracker>) -> Seq<u64> {
    trackers.map_values(|t: StakeTracker| t.principal_lamports)
}

pub open spec fn balances(accounts: Seq<AccountSnapshot>) -> Seq<u64> {
    accounts.map_values(|a: AccountSnapshot| a.lamports)
}

/// A sum of amounts is never negative.
pub(crate) proof fn lemma_sum_nonneg(s: Seq<u64>)
    ensures
        sum_u64(s) >= 0,
    decreases s.len(),
{
    if s.len() > 0 {
        lemma_sum_nonneg(s.drop_last());
    }
}

pub(crate) proof fn lemma_sum_prefix_step(s: Seq<u64>, i: int)
    requires
        0 <= i < s.len(),
    ensures
        sum_u64(s.take(i + 1)) == sum_u64(s.take(i)) + s[i],
{
    assert(s.take(i + 1).drop_last() =~= s.take(i));
}

proof fn lemma_sum_prefix_le(s: Seq<u64>, i: int)
    requires
        0 <= i <= s.len(),
    ensures
        sum_u64(s.take(i)) <= sum_u64(s),
    decreases s.len() - i,
{
    if i < s.len() {
        lemma_sum_prefix_le(s, i + 1);
        lemma_sum_prefix_step(s, i);
    } else {
        assert(s.take(i) =~= s);
    }
}

/// Adds up `values`, failing with an overflow exactly when the sum exceeds `u64::MAX`.
fn checked_total(values: &Vec<u64>) -> (r: Result<u64, ProgramFailure>)
    ensures
        match r {
            Ok(v) => v == sum_u64(values@),
            Err(e) => e == custom(ChainStakingError::ArithmeticOverflow) && sum_u64(values@) > u64::MAX,
        },
{
    let mut total: u64 = 0;
    let mut i: usize = 0;
    while i < values.len()
        invariant
            0 <= i <= values@.len(),
            total == sum_u64(values@.take(i as int)),
        decreases values.len() - i,
    {
        proof {
            lemma_sum_prefix_step(values@, i as int);
        }
        let x = values[i];
        if total > u64::MAX - x {
            proof {
                lemma_sum_prefix_le(values@, i + 1);
            }
            return Err(ProgramFailure::Custom(ChainStakingError::ArithmeticOverflow));
        }
        total = total + x;
        i = i + 1;
    }
    assert(values@.take(i as int) =~= values@);
    Ok(total)
}

/// The sum of the trackers' principals; an overflow exactly when it exceeds `u64::MAX`.
pub fn compute_principal_pool_lamports(stake_trackers: &[StakeTracker]) -> (r: Result<u64, ProgramFailure>)
    ensures
        match r {
            Ok(v) => v == sum_u64(principals(stake_trackers@)),
            Err(e) => e == custom(ChainStakingError::ArithmeticOverflow)
                && sum_u64(principals(stake_trackers@)) > u64::MAX,
        },
{
    let mut values: Vec<u64> = Vec::new();
    let mut i: usize = 0;
    while i < stake_trackers.len()
        invariant
            0 <= i <= stake_trackers@.len(),
            values@ == principals(stake_trackers@).take(i as int),
        decreases stake_trackers.len() - i,
    {
        values.push(stake_trackers[i].principal_lamports);
        i = i + 1;
        assert(values@ =~= principals(stake_trackers@).take(i as int));
    }
    assert(values@ =~= principals(stake_trackers@));
    checked_total(&values)
}

/// The sum of the accounts' balances; an overflow exactly when it exceeds `u64::MAX`.
pub fn compute_total_stake_account_balance_lamports(stake_accounts: &[AccountSnapshot]) -> (r: Result<u64, ProgramFailure>)
    ensures
        match r {
            Ok(v) => v == sum_u64(balances(stake_accounts@)),
            Err(e) => e == custom(ChainStakingError::ArithmeticOverflow)
                && sum_u64(balances(stake_accounts@)) > u64::MAX,
        },
{
    let mut values: Vec<u64> = Vec::new();
    let mut i: usize = 0;
    while i < stake_accounts.len()
        invariant
            0 <= i <= stake_accounts@.len(),
            values@ == balances(stake_accounts@).take(i as int),
        decreases stake_accounts.len() - i,
    {
        values.push(stake_accounts[i].lamports);
        i = i + 1;
        assert(values@ =~= balances(stake_accounts@).take(i as int));
    }
    assert(values@ =~= balances(stake_accounts@));
    checked_total(&values)
}

/// What the stake accounts hold beyond their principal; an overflow error when they
/// hold less than it.
pub fn compute_yield_pool_lamports(
    total_stake_account_balance_lamports: u64,
    principal_pool_lamports: u64,
) -> (r: Result<u64, ProgramFailure>)
    ensures
        principal_pool_lamports <= total_stake_account_balance_lamports ==> r == Ok::<u64, ProgramFailure>(
            (total_stake_account_balance_lamports - principal_pool_lamports) as u64,
        ),
        principal_pool_lamports > total_stake_account_balance_lamports ==> r == Err::<u64, ProgramFailure>(
            custom(ChainStakingError::ArithmeticOverflow),
        ),
{
    if principal_pool_lamports <= total_stake_account_balance_lamports {
        Ok(total_stake_account_balance_lamports - principal_pool_lamports)
    } else {
        Err(ProgramFailure::Custom(ChainStakingError::ArithmeticOverflow))
    }
}

/// The accounting of a set of stakes: their principal, their balance and the yield
/// between the two. Fails on a count mismatch first, then on an overflow of either sum,
/// then when the balance is below the principal.
pub fn compute_yield_pool_accounting(
    stake_trackers: &[StakeTracker],
    stake_accounts: &[AccountSnapshot],
) -> (r: Result<YieldPoolAccounting, ProgramFailure>)
    ensures
        ({
            let principal = sum_u64(principals(stake_trackers@));
            let balance = sum_u64(balances(stake_accounts@));
            if stake_trackers@.len() != stake_accounts@.len() {
                r == Err::<YieldPoolAccounting, ProgramFailure>(
                    custom(ChainStakingError::MismatchedStakeBalanceCount),
                )
            } else if principal > u64::MAX || balance > u64::MAX || balance < principal {
                r == Err::<YieldPoolAccounting, ProgramFailure>(custom(ChainStakingError::ArithmeticOverflow))
            } else {
                r == Ok::<YieldPoolAccounting, ProgramFailure>(
                    YieldPoolAccounting {
                        total_stake_account_balance_lamports: balance as u64,
                        principal_pool_lamports: principal as u64,
                        yield_pool_lamports: (balance - principal) as u64,
                    },
                )
            }
        }),
{
    if stake_trackers.len() != stake_accounts.len() {
        return Err(ProgramFailure::Custom(ChainStakingError::MismatchedStakeBalanceCount));
    }
    let principal_pool_lamports = compute_principal_pool_lamports(stake_trackers)?;
    let total_stake_account_balance_lamports = compute_total_stake_account_balance_lamports(stake_accounts)?;
    let yield_pool_lamports = compute_yield_pool_lamports(
        total_stake_account_balance_lamports,
        principal_pool_lamports,
    )?;
    Ok(YieldPoolAccounting {
        total_stake_account_balance_lamports,
        principal_pool_lamports,
        yield_pool_lamports,
    })
}

/// The lamports of an account above its rent-exempt minimum (`minimum_balance`), or 0.
pub fn compute_available_liquid_rewards_lamports(
    account_info: &AccountSnapshot,
    minimum_balance: u64,
) -> (r: Result<u64, ProgramFailure>)
    ensures
        r == Ok::<u64, ProgramFailure>(
            if account_info.lamports >= minimum_balance {
                (account_info.lamports - minimum_balance) as u64
            } else {
                0u64
            },
        ),
{
    if account_info.lamports >= minimum_balance {
        Ok(account_info.lamports - minimum_balance)
    } else {
        Ok(0)
    }
}

/// A holder's share of a pool, in proportion to their principal within the
/// distributable principal, rounded down.
pub open spec fn proportional_share(user_principal: u64, pool: u64, distributable_principal: u64) -> int {
    if pool == 0 || user_principal == 0 {
        0
    } else {
        (user_principal as int * pool as int) / (distributable_principal as int)
    }
}

/// `user_principal * pool / distributable_principal`, rounded down, or 0 where the pool
/// or the principal is empty. Fails when there is something to share but no
/// distributable principal, and when the share does not fit in a `u64`.
pub fn compute_proportional_share(
    user_principal_lamports: u64,
    pool_lamports: u64,
    distributable_principal_pool_lamports: u64,
) -> (r: Result<u64, ProgramFailure>)
    ensures
        ({
            let share = proportional_share(
                user_principal_lamports,
                pool_lamports,
                distributable_principal_pool_lamports,
            );
            if pool_lamports == 0 || user_principal_lamports == 0 {
                r == Ok::<u64, ProgramFailure>(0)
            } else if distributable_principal_pool_lamports == 0 {
                r == Err::<u64, ProgramFailure>(custom(ChainStakingError::InvalidPayoutPrincipalPool))
            } else if share > u64::MAX {
                r == Err::<u64, ProgramFailure>(custom(ChainStakingError::ArithmeticOverflow))
            } else {
                r == Ok::<u64, ProgramFailure>(share as u64)
            }
        }),
{
    if pool_lamports == 0 || user_principal_lamports == 0 {
        return Ok(0);
    }
    if distributable_principal_pool_lamports == 0 {
        return Err(ProgramFailure::Custom(ChainStakingError::InvalidPayoutPrincipalPool));
    }
    let a = user_principal_lamports as u128;
    let b = pool_lamports as u128;
    assert(a * b <= u64::MAX as int * u64::MAX as int) by (nonlinear_arith)
        requires
            a <= u64::MAX,
            b <= u64::MAX,
    ;
    let product = a * b;
    let share = product / (distributable_principal_pool_lamports as u128);
    if share > u64::MAX as u128 {
        return Err(ProgramFailure::Custom(ChainStakingError::ArithmeticOverflow));
    }
    Ok(share as u64)
}

/// The pool a break shares out among the middle entries: the donation pot after a
/// manual break, the staking yield after a community break.
pub open spec fn reward_pool(break_type: u8, total_yield_pool: u64, donation_pot: u64) -> u64 {
    if break_type == BREAK_TYPE_MANUAL {
        donation_pot
    } else {
        total_yield_pool
    }
}

/// Entry `i` is neither the first entrant nor the leader.
pub open spec fn is_middle(entries: Seq<EntryPayoutInput>, i: int) -> bool {
    0 < i < entries.len() - 1
}

/// The pooled share of entry `i`.
pub open spec fn entry_share(
    entries: Seq<EntryPayoutInput>,
    i: int,
    break_type: u8,
    total_yield_pool: u64,
    donation_pot: u64,
    distributable_principal: u64,
) -> int {
    proportional_share(
        entries[i].principal_lamports,
        reward_pool(break_type, total_yield_pool, donation_pot),
        distributable_principal,
    )
}

/// A middle entry's payout, its successor's principal plus its share, fits in a `u64`.
pub open spec fn middle_row_fits(
    entries: Seq<EntryPayoutInput>,
    i: int,
    break_type: u8,
    total_yield_pool: u64,
    donation_pot: u64,
    distributable_principal: u64,
) -> bool {
    let share = entry_share(entries, i, break_type, total_yield_pool, donation_pot, distributable_principal);
    share <= u64::MAX && entries[i + 1].principal_lamports + share <= u64::MAX
}

/// The first reason, in the order they are checked, for which a payout is refused.
pub open spec fn payouts_error(
    entries: Seq<EntryPayoutInput>,
    break_type: u8,
    total_yield_pool: u64,
    donation_pot: u64,
    distributable_principal: u64,
) -> Option<ProgramFailure> {
    if entries.len() > MAX_PAYOUTS_PER_CALL {
        Some(custom(ChainStakingError::TooManyPayoutEntries))
    } else if entries.len() < 2 {
        Some(custom(ChainStakingError::InsufficientEntriesForPayouts))
    } else if exists|i: int| 0 <= i < entries.len() && #[trigger] entries[i].position != i {
        Some(custom(ChainStakingError::PayoutEntriesOutOfOrder))
    } else if break_type != BREAK_TYPE_MANUAL && break_type != BREAK_TYPE_COMMUNITY {
        Some(custom(ChainStakingError::InvalidBreakType))
    } else if reward_pool(break_type, total_yield_pool, donation_pot) > 0 && distributable_principal == 0 {
        Some(custom(ChainStakingError::InvalidPayoutPrincipalPool))
    } else if exists|i: int|
        is_middle(entries, i) && !#[trigger] middle_row_fits(
            entries,
            i,
            break_type,
            total_yield_pool,
            donation_pot,
            distributable_principal,
        ) {
        Some(custom(ChainStakingError::ArithmeticOverflow))
    } else {
        None
    }
}

/// The payout of entry `i`: the first entrant gets nothing; each middle entry gets the
/// principal of the entry after it plus its pooled share (as donation after a manual
/// break, as yield after a community break); the leader gets the staking yield after a
/// manual break and the donation pot after a community break.
pub open spec fn payout_row(
    entries: Seq<EntryPayoutInput>,
    i: int,
    break_type: u8,
    total_yield_pool: u64,
    donation_pot: u64,
    distributable_principal: u64,
) -> EntryPayoutBreakdown {
    let share = entry_share(entries, i, break_type, total_yield_pool, donation_pot, distributable_principal) as u64;
    let leader = i == entries.len() - 1;
    let middle = is_middle(entries, i);
    let manual = break_type == BREAK_TYPE_MANUAL;
    let principal: u64 = if middle { entries[i + 1].principal_lamports } else { 0 };
    let yield_part: u64 = if leader && manual {
        total_yield_pool
    } else if middle && !manual {
        share
    } else {
        0
    };
    let donation_part: u64 = if leader && !manual {
        donation_pot
    } else if middle && manual {
        share
    } else {
        0
    };
    EntryPayoutBreakdown {
        position: entries[i].position,
        principal_lamports: principal,
        yield_lamports: yield_part,
        donation_lamports: donation_part,
        payout_lamports: (principal + yield_part + donation_part) as u64,
    }
}

/// The payouts of a contiguous run of entries, starting from the first entrant, of a
/// broken chain: one row per entry, each as `payout_row` gives it. Refused, with the
/// error `payouts_error` gives, when the run is too long or too short, out of order, the
/// break type unknown, pooled rewards have no principal to go to, or a payout overflows.
pub fn compute_payouts(
    entries: &[EntryPayoutInput],
    break_type: u8,
    total_yield_pool_lamports: u64,
    donation_pot_lamports: u64,
    distributable_principal_pool_lamports: u64,
) -> (r: Result<Vec<EntryPayoutBreakdown>, ProgramFailure>)
    ensures
        ({
            let err = payouts_error(
                entries@,
                break_type,
                total_yield_pool_lamports,
                donation_pot_lamports,
                distributable_principal_pool_lamports,
            );
            match r {
                Ok(rows) => {
                    &&& err is None
                    &&& rows@.len() == entries@.len()
                    &&& forall|i: int|
                        0 <= i < rows@.len() ==> #[trigger] rows@[i] == payout_row(
                            entries@,
                            i,
                            break_type,
                            total_yield_pool_lamports,
                            donation_pot_lamports,
                            distributable_principal_pool_lamports,
                        )
                },
                Err(e) => err == Some(e),
            }
        }),
{
    let ghost es = entries@;
    let n = entries.len();
    if n > MAX_PAYOUTS_PER_CALL {
        return Err(ProgramFailure::Custom(ChainStakingError::TooManyPayoutEntries));
    }
    if n < 2 {
        return Err(ProgramFailure::Custom(ChainStakingError::InsufficientEntriesForPayouts));
    }
    let mut k: usize = 0;
    while k < n
        invariant
            n == es.len(),
            es == entries@,
            2 <= n <= MAX_PAYOUTS_PER_CALL,
            0 <= k <= n,
            forall|j: int| 0 <= j < k ==> #[trigger] es[j].position == j,
        decreases n - k,
    {
        if entries[k].position != k as u32 {
            assert(es[k as int].position != k as int);
            return Err(ProgramFailure::Custom(ChainStakingError::PayoutEntriesOutOfOrder));
        }
        k = k + 1;
    }
    let leader_index = n - 1;
    let reward_pool_lamports = if break_type == BREAK_TYPE_MANUAL {
        donation_pot_lamports
    } else if break_type == BREAK_TYPE_COMMUNITY {
        total_yield_pool_lamports
    } else {
        return Err(ProgramFailure::Custom(ChainStakingError::InvalidBreakType));
    };
    if reward_pool_lamports > 0 && distributable_principal_pool_lamports == 0 {
        return Err(ProgramFailure::Custom(ChainStakingError::InvalidPayoutPrincipalPool));
    }
    let ghost (bt, yp, dp, dist) = (
        break_type,
        total_yield_pool_lamports,
        donation_pot_lamports,
        distributable_principal_pool_lamports,
    );
    let mut payouts: Vec<EntryPayoutBreakdown> = Vec::new();
    let mut index: usize = 0;
    while index < n
        invariant
            n == es.len(),
            es == entries@,
            2 <= n <= MAX_PAYOUTS_PER_CALL,
            leader_index == n - 1,
            0 <= index <= n,
            bt == break_type && yp == total_yield_pool_lamports && dp == donation_pot_lamports
                && dist == distributable_principal_pool_lamports,
            bt == BREAK_TYPE_MANUAL || bt == BREAK_TYPE_COMMUNITY,
            reward_pool_lamports == reward_pool(bt, yp, dp),
            !(reward_pool_lamports > 0 && dist == 0),
            forall|j: int| 0 <= j < n ==> #[trigger] es[j].position == j,
            payouts@.len() == index,
            forall|j: int| 0 <= j < index ==> #[trigger] payouts@[j] == payout_row(es, j, bt, yp, dp, dist),
            forall|j: int| 0 <= j < index && is_middle(es, j) ==> #[trigger] middle_row_fits(es, j, bt, yp, dp, dist),
        decreases n - index,
    {
        let entry = entries[index];
        let mut principal_lamports: u64 = 0;
        let mut yield_lamports: u64 = 0;
        let mut donation_lamports: u64 = 0;
        if index == leader_index {
            if break_type == BREAK_TYPE_MANUAL {
                yield_lamports = total_yield_pool_lamports;
            } else {
                donation_lamports = donation_pot_lamports;
            }
        } else if index > 0 {
            let next_entry = entries[index + 1];
            principal_lamports = next_entry.principal_lamports;
            let share_result = compute_proportional_share(
                entry.principal_lamports,
                reward_pool_lamports,
                distributable_principal_pool_lamports,
            );
            let proportional_share = match share_result {
                Ok(v) => v,
                Err(e) => {
                    assert(!middle_row_fits(es, index as int, bt, yp, dp, dist));
                    return Err(e);
                },
            };
            if break_type == BREAK_TYPE_MANUAL {
                donation_lamports = proportional_share;
            } else {
                yield_lamports = proportional_share;
            }
        }
        if principal_lamports > u64::MAX - yield_lamports
            || principal_lamports + yield_lamports > u64::MAX - donation_lamports {
            assert(!middle_row_fits(es, index as int, bt, yp, dp, dist));
            return Err(ProgramFailure::Custom(ChainStakingError::ArithmeticOverflow));
        }
        let payout_lamports = principal_lamports + yield_lamports + donation_lamports;
        let row = EntryPayoutBreakdown {
            position: entry.position,
            principal_lamports,
            yield_lamports,
            donation_lamports,
            payout_lamports,
        };
        assert(row == payout_row(es, index as int, bt, yp, dp, dist));
        payouts.push(row);
        index = index + 1;
    }
    Ok(payouts)
}

/// The pooled shares paid to rows `1..k`.
pub open spec fn pooled_paid_upto(
    entries: Seq<EntryPayoutInput>,
    break_type: u8,
    total_yield_pool: u64,
    donation_pot: u64,
    distributable_principal: u64,
    k: int,
) -> int
    decreases k,
{
    if k <= 1 {
        0
    } else {
        let row = payout_row(entries, k - 1, break_type, total_yield_pool, donation_pot, distributable_principal);
        pooled_paid_upto(entries, break_type, total_yield_pool, donation_pot, distributable_principal, k - 1)
            + row.yield_lamports + row.donation_lamports
    }
}

/// The principal of entries `1..k`.
pub open spec fn principal_upto(entries: Seq<EntryPayoutInput>, k: int) -> int
    decreases k,
{
    if k <= 1 {
        0
    } else {
        principal_upto(entries, k - 1) + entries[k - 1].principal_lamports
    }
}

/// The shape of an accepted payout: the first entrant receives nothing; each middle
/// entry is repaid with the principal of the entry after it, plus only its pooled
/// share; the leader receives no principal, and receives the staking yield after a
/// manual break or the donation pot after a community break; and every payout is the
/// exact sum of its three parts.
pub proof fn lemma_payout_shape(
    entries: Seq<EntryPayoutInput>,
    break_type: u8,
    total_yield_pool: u64,
    donation_pot: u64,
    distributable_principal: u64,
    i: int,
)
    requires
        payouts_error(entries, break_type, total_yield_pool, donation_pot, distributable_principal) is None,
        0 <= i < entries.len(),
    ensures
        ({
            let row = payout_row(entries, i, break_type, total_yield_pool, donation_pot, distributable_principal);
            let n = entries.len();
            &&& row.position == i
            &&& row.payout_lamports == row.principal_lamports + row.yield_lamports + row.donation_lamports
            &&& i == 0 ==> row.payout_lamports == 0
            &&& is_middle(entries, i) ==> {
                &&& row.principal_lamports == entries[i + 1].principal_lamports
                &&& row.yield_lamports + row.donation_lamports == entry_share(
                    entries,
                    i,
                    break_type,
                    total_yield_pool,
                    donation_pot,
                    distributable_principal,
                )
            }
            &&& i == n - 1 && break_type == BREAK_TYPE_MANUAL ==> {
                &&& row.principal_lamports == 0
                &&& row.payout_lamports == total_yield_pool
            }
            &&& i == n - 1 && break_type == BREAK_TYPE_COMMUNITY ==> {
                &&& row.principal_lamports == 0
                &&& row.payout_lamports == donation_pot
            }
        }),
{
    assert(entries[i].position == i);
    if is_middle(entries, i) {
        assert(middle_row_fits(entries, i, break_type, total_yield_pool, donation_pot, distributable_principal));
    }
}

/// Pooled rewards are never over-distributed: when the distributable principal covers
/// the principal of the middle entries, the pooled shares paid to them add up to at
/// most the pool that the break shares out.
pub proof fn lemma_pooled_shares_within_pool(
    entries: Seq<EntryPayoutInput>,
    break_type: u8,
    total_yield_pool: u64,
    donation_pot: u64,
    distributable_principal: u64,
)
    requires
        payouts_error(entries, break_type, total_yield_pool, donation_pot, distributable_principal) is None,
        principal_upto(entries, entries.len() - 1) <= distributable_principal,
    ensures
        pooled_paid_upto(
            entries,
            break_type,
            total_yield_pool,
            donation_pot,
            distributable_principal,
            entries.len() - 1,
        ) <= reward_pool(break_type, total_yield_pool, donation_pot),
{
    let pool = reward_pool(break_type, total_yield_pool, donation_pot);
    let n = entries.len();
    if pool == 0 {
        lemma_pooled_zero_when_pool_empty(entries, break_type, total_yield_pool, donation_pot, distributable_principal, n - 1);
    } else {
        let d = distributable_principal as int;
        lemma_pooled_scaled(entries, break_type, total_yield_pool, donation_pot, distributable_principal, n - 1);
        let paid = pooled_paid_upto(entries, break_type, total_yield_pool, donation_pot, distributable_principal, n - 1);
        let p = principal_upto(entries, n - 1);
        lemma_principal_upto_nonneg(entries, n - 1);
        assert(paid <= pool as int) by (nonlinear_arith)
            requires
                paid * d <= pool as int * p,
                0 <= p <= d,
                d > 0,
                pool >= 0,
        ;
    }
}

proof fn lemma_principal_upto_nonneg(entries: Seq<EntryPayoutInput>, k: int)
    ensures
        principal_upto(entries, k) >= 0,
    decreases k,
{
    if k > 1 {
        lemma_principal_upto_nonneg(entries, k - 1);
    }
}

proof fn lemma_pooled_zero_when_pool_empty(
    entries: Seq<EntryPayoutInput>,
    break_type: u8,
    total_yield_pool: u64,
    donation_pot: u64,
    distributable_principal: u64,
    k: int,
)
    requires
        payouts_error(entries, break_type, total_yield_pool, donation_pot, distributable_principal) is None,
        reward_pool(break_type, total_yield_pool, donation_pot) == 0,
        k <= entries.len() - 1,
    ensures
        pooled_paid_upto(entries, break_type, total_yield_pool, donation_pot, distributable_principal, k) == 0,
    decreases k,
{
    if k > 1 {
        lemma_pooled_zero_when_pool_empty(entries, break_type, total_yield_pool, donation_pot, distributable_principal, k - 1);
    }
}

/// Scaled by the distributable principal, the pooled shares of rows `1..k` are at most
/// the pool times their principal.
proof fn lemma_pooled_scaled(
    entries: Seq<EntryPayoutInput>,
    break_type: u8,
    total_yield_pool: u64,
    donation_pot: u64,
    distributable_principal: u64,
    k: int,
)
    requires
        payouts_error(entries, break_type, total_yield_pool, donation_pot, distributable_principal) is None,
        reward_pool(break_type, total_yield_pool, donation_pot) > 0,
        k <= entries.len() - 1,
    ensures
        pooled_paid_upto(entries, break_type, total_yield_pool, donation_pot, distributable_principal, k)
            * distributable_principal as int <= reward_pool(break_type, total_yield_pool, donation_pot) as int
            * principal_upto(entries, k),
    decreases k,
{
    let pool = reward_pool(break_type, total_yield_pool, donation_pot) as int;
    let d = distributable_principal as int;
    if k > 1 {
        lemma_pooled_scaled(entries, break_type, total_yield_pool, donation_pot, distributable_principal, k - 1);
        let i = k - 1;
        lemma_payout_shape(entries, break_type, total_yield_pool, donation_pot, distributable_principal, i);
        let share = entry_share(entries, i, break_type, total_yield_pool, donation_pot, distributable_principal);
        let p = entries[i].principal_lamports as int;
        assert(share * d <= pool * p) by {
            if p == 0 {
            } else {
                lemma_fundamental_div_mod(p * pool, d);
                lemma_mod_pos_bound(p * pool, d);
                assert(share == (p * pool) / d);
                assert(share * d <= pool * p) by (nonlinear_arith)
                    requires
                        p * pool == d * ((p * pool) / d) + (p * pool) % d,
                        (p * pool) % d >= 0,
                        share == (p * pool) / d,
                ;
            }
        }
        let prev = pooled_paid_upto(entries, break_type, total_yield_pool, donation_pot, distributable_principal, k - 1);
        let prevp = principal_upto(entries, k - 1);
        assert((prev + share) * d <= pool * (prevp + p)) by (nonlinear_arith)
            requires
                prev * d <= pool * prevp,
                share * d <= pool * p,
        ;
    }
}

} // verus!
