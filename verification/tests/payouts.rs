use chainstaking::errors::{ChainStakingError, ProgramFailure};
use chainstaking::yield_utils::{
    compute_payouts, compute_proportional_share, EntryPayoutBreakdown, EntryPayoutInput,
};

fn entries(principals: &[u64]) -> Vec<EntryPayoutInput> {
    principals
        .iter()
        .enumerate()
        .map(|(i, p)| EntryPayoutInput { position: i as u32, principal_lamports: *p })
        .collect()
}

fn custom(e: ChainStakingError) -> ProgramFailure {
    ProgramFailure::Custom(e)
}

#[test]
fn manual_break_pays_leader_the_yield_and_middle_the_pot() {
    let rows = compute_payouts(&entries(&[10_000_000, 11_000_000, 12_000_000]), 1, 500, 1_000, 11_000_000).unwrap();
    assert_eq!(rows.len(), 3);
    assert_eq!(
        rows[0],
        EntryPayoutBreakdown { position: 0, principal_lamports: 0, yield_lamports: 0, donation_lamports: 0, payout_lamports: 0 }
    );
    assert_eq!(
        rows[1],
        EntryPayoutBreakdown {
            position: 1,
            principal_lamports: 12_000_000,
            yield_lamports: 0,
            donation_lamports: 1_000,
            payout_lamports: 12_001_000,
        }
    );
    assert_eq!(
        rows[2],
        EntryPayoutBreakdown { position: 2, principal_lamports: 0, yield_lamports: 500, donation_lamports: 0, payout_lamports: 500 }
    );
}

#[test]
fn community_break_pays_leader_the_pot_and_middle_the_yield() {
    let rows = compute_payouts(&entries(&[10, 30, 10, 40]), 2, 90, 7, 40).unwrap();
    assert_eq!(rows[0].payout_lamports, 0);
    assert_eq!(rows[1].principal_lamports, 10);
    assert_eq!(rows[1].yield_lamports, 67);
    assert_eq!(rows[1].payout_lamports, 77);
    assert_eq!(rows[2].principal_lamports, 40);
    assert_eq!(rows[2].yield_lamports, 22);
    assert_eq!(rows[2].donation_lamports, 0);
    assert_eq!(rows[3].donation_lamports, 7);
    assert_eq!(rows[3].payout_lamports, 7);
    // The pooled shares stay within the pool.
    assert!(rows[1].yield_lamports + rows[2].yield_lamports <= 90);
}

#[test]
fn two_entries_only_the_leader_is_paid() {
    let rows = compute_payouts(&entries(&[5, 6]), 1, 3, 0, 0).unwrap();
    assert_eq!(rows[0].payout_lamports, 0);
    assert_eq!(rows[1].payout_lamports, 3);
}

#[test]
fn payouts_refuse_too_many_entries() {
    let r = compute_payouts(&entries(&[1; 11]), 1, 0, 0, 1);
    assert_eq!(r, Err(custom(ChainStakingError::TooManyPayoutEntries)));
}

#[test]
fn payouts_refuse_too_few_entries() {
    let r = compute_payouts(&entries(&[1]), 1, 0, 0, 1);
    assert_eq!(r, Err(custom(ChainStakingError::InsufficientEntriesForPayouts)));
}

#[test]
fn payouts_refuse_out_of_order_entries() {
    let mut es = entries(&[1, 2, 3]);
    es[2].position = 5;
    assert_eq!(compute_payouts(&es, 1, 0, 0, 1), Err(custom(ChainStakingError::PayoutEntriesOutOfOrder)));
}

#[test]
fn payouts_refuse_unknown_break_type() {
    assert_eq!(compute_payouts(&entries(&[1, 2, 3]), 0, 0, 0, 1), Err(custom(ChainStakingError::InvalidBreakType)));
    assert_eq!(compute_payouts(&entries(&[1, 2, 3]), 3, 0, 0, 1), Err(custom(ChainStakingError::InvalidBreakType)));
}

#[test]
fn payouts_refuse_pool_without_principal() {
    assert_eq!(
        compute_payouts(&entries(&[1, 2, 3]), 1, 0, 5, 0),
        Err(custom(ChainStakingError::InvalidPayoutPrincipalPool))
    );
}

#[test]
fn payouts_refuse_overflowing_payout() {
    // The middle entry's successor principal plus its share overflows.
    assert_eq!(
        compute_payouts(&entries(&[1, 1, u64::MAX]), 1, 0, 10, 1),
        Err(custom(ChainStakingError::ArithmeticOverflow))
    );
    // The share itself does not fit in a u64.
    assert_eq!(
        compute_payouts(&entries(&[1, u64::MAX, 1]), 1, 0, u64::MAX, 1),
        Err(custom(ChainStakingError::ArithmeticOverflow))
    );
}

#[test]
fn proportional_share_values() {
    assert_eq!(compute_proportional_share(0, 10, 4), Ok(0));
    assert_eq!(compute_proportional_share(3, 0, 4), Ok(0));
    assert_eq!(compute_proportional_share(3, 10, 4), Ok(7));
    assert_eq!(compute_proportional_share(3, 10, 0), Err(custom(ChainStakingError::InvalidPayoutPrincipalPool)));
    assert_eq!(
        compute_proportional_share(u64::MAX, u64::MAX, 1),
        Err(custom(ChainStakingError::ArithmeticOverflow))
    );
    assert_eq!(compute_proportional_share(u64::MAX, u64::MAX, u64::MAX), Ok(u64::MAX));
}
