use anchor_lang::prelude::Pubkey;
use chainstaking::address::Address;
use chainstaking::constants::{
    find_chain_authority_pda, find_chain_pda, find_compound_record_pda, find_donation_record_pda, find_entry_pda,
    find_global_config_pda, find_stake_tracker_pda, find_trigger_vault_pda, find_validator_registry_pda,
    ChainAuthoritySigner, CHAIN_AUTH_SEED, CHAIN_SPREADS_BPS,
};
use chainstaking::errors::{ChainStakingError, ProgramFailure};
use chainstaking::instructions::initialize_protocol::validate_validator_list;
use chainstaking::stake_utils::{
    chain_authority_signer_seeds_raw, create_stake_account, deactivate_stake_account, delegate_stake_account,
    initialize_stake_account, withdraw_stake_account,
};
use chainstaking::state::{AccountSnapshot, StakeTracker};
use chainstaking::yield_utils::{
    compute_available_liquid_rewards_lamports, compute_principal_pool_lamports,
    compute_total_stake_account_balance_lamports, compute_yield_pool_accounting, compute_yield_pool_lamports,
    YieldPoolAccounting,
};

fn addr(b: u8) -> Address {
    Address::new([b; 32])
}

fn program() -> Pubkey {
    Pubkey::new_from_array([7; 32])
}

fn snapshot(key: Address, lamports: u64) -> AccountSnapshot {
    AccountSnapshot {
        key,
        owner: Address::zero(),
        lamports,
        is_signer: true,
        is_writable: true,
        executable: false,
        data_len: 0,
    }
}

fn tracker(principal: u64) -> StakeTracker {
    StakeTracker {
        chain_id: 0,
        round: 0,
        stake_account: addr(1),
        principal_lamports: principal,
        source_type: 0,
        source_index: 0,
        is_active: true,
        is_deactivated: false,
        is_withdrawn: false,
        bump: 0,
    }
}

fn custom(e: ChainStakingError) -> ProgramFailure {
    ProgramFailure::Custom(e)
}

fn derived(seeds: &[&[u8]]) -> (Address, u8) {
    let (key, bump) = Pubkey::find_program_address(seeds, &program());
    (Address::new(key.to_bytes()), bump)
}

#[test]
fn address_equality_and_membership() {
    assert!(addr(3).equals(&addr(3)));
    assert!(!addr(3).equals(&addr(4)));
    let list = vec![addr(1), addr(2)];
    assert!(addr(2).is_in(&list));
    assert!(!addr(5).is_in(&list));
    assert_eq!(Address::zero().bytes, [0u8; 32]);
}

#[test]
fn derived_addresses_match_the_runtime() {
    let pid = Address::new(program().to_bytes());
    assert_eq!(find_global_config_pda(&pid), Some(derived(&[b"global_config"])));
    assert_eq!(find_validator_registry_pda(&pid), Some(derived(&[b"validator_registry"])));
    assert_eq!(find_trigger_vault_pda(&pid, 3), Some(derived(&[b"trigger_vault", &[3]])));
    assert_eq!(find_chain_pda(&pid, 4), Some(derived(&[b"chain", &[4]])));
    assert_eq!(
        find_entry_pda(&pid, 1, 0x01020304, 7),
        Some(derived(&[b"entry", &[1], &0x01020304u32.to_le_bytes(), &7u32.to_le_bytes()]))
    );
    assert_eq!(
        find_stake_tracker_pda(&pid, 2, 9, 1, 300),
        Some(derived(&[b"stake_tracker", &[2], &9u32.to_le_bytes(), &[1], &300u32.to_le_bytes()]))
    );
    assert_eq!(
        find_donation_record_pda(&pid, 2, 9, 513),
        Some(derived(&[b"donation", &[2], &9u32.to_le_bytes(), &513u16.to_le_bytes()]))
    );
    assert_eq!(
        find_compound_record_pda(&pid, 2, 9, 1),
        Some(derived(&[b"compound", &[2], &9u32.to_le_bytes(), &1u16.to_le_bytes()]))
    );
    assert_eq!(find_chain_authority_pda(&pid, 5), Some(derived(&[b"chain_auth", &[5]])));
    // The derivation depends on the program id.
    assert_ne!(find_chain_pda(&pid, 4), find_chain_pda(&addr(8), 4));
}

#[test]
fn chain_authority_signer_seeds() {
    let signer = ChainAuthoritySigner::new(3, 254);
    let seeds = signer.signer_seeds();
    assert_eq!(seeds[0], b"chain_auth");
    assert_eq!(seeds[1], &[3u8]);
    assert_eq!(seeds[2], &[254u8]);
    let raw = chain_authority_signer_seeds_raw(&[9], &[1]);
    assert_eq!(raw[0], &CHAIN_AUTH_SEED[..]);
    assert_eq!(raw[1], &[9u8]);
    assert_eq!(raw[2], &[1u8]);
}

#[test]
fn spreads_of_the_ten_chains() {
    assert_eq!(CHAIN_SPREADS_BPS, [500, 1000, 2500, 5000, 10000, 25000, 50000, 100000, 500000, 1000000]);
}

#[test]
fn principal_and_balance_sums() {
    assert_eq!(compute_principal_pool_lamports(&[tracker(3), tracker(4)]), Ok(7));
    assert_eq!(compute_principal_pool_lamports(&[]), Ok(0));
    assert_eq!(
        compute_principal_pool_lamports(&[tracker(u64::MAX), tracker(1)]),
        Err(custom(ChainStakingError::ArithmeticOverflow))
    );
    assert_eq!(compute_total_stake_account_balance_lamports(&[snapshot(addr(1), 5), snapshot(addr(2), 6)]), Ok(11));
    assert_eq!(
        compute_total_stake_account_balance_lamports(&[snapshot(addr(1), u64::MAX), snapshot(addr(2), 1)]),
        Err(custom(ChainStakingError::ArithmeticOverflow))
    );
}

#[test]
fn yield_pool_accounting() {
    assert_eq!(compute_yield_pool_lamports(10, 4), Ok(6));
    assert_eq!(compute_yield_pool_lamports(3, 4), Err(custom(ChainStakingError::ArithmeticOverflow)));
    assert_eq!(
        compute_yield_pool_accounting(&[tracker(3), tracker(4)], &[snapshot(addr(1), 5), snapshot(addr(2), 6)]),
        Ok(YieldPoolAccounting {
            total_stake_account_balance_lamports: 11,
            principal_pool_lamports: 7,
            yield_pool_lamports: 4,
        })
    );
    assert_eq!(
        compute_yield_pool_accounting(&[tracker(3)], &[snapshot(addr(1), 5), snapshot(addr(2), 6)]),
        Err(custom(ChainStakingError::MismatchedStakeBalanceCount))
    );
    assert_eq!(
        compute_yield_pool_accounting(&[tracker(30)], &[snapshot(addr(1), 5)]),
        Err(custom(ChainStakingError::ArithmeticOverflow))
    );
}

#[test]
fn liquid_rewards_above_the_minimum() {
    assert_eq!(compute_available_liquid_rewards_lamports(&snapshot(addr(1), 105), 100), Ok(5));
    assert_eq!(compute_available_liquid_rewards_lamports(&snapshot(addr(1), 95), 100), Ok(0));
}

#[test]
fn validator_list_checks() {
    assert_eq!(validate_validator_list(&[]), Err(custom(ChainStakingError::EmptyValidatorList)));
    let many: Vec<Address> = (0..17u8).map(addr).collect();
    assert_eq!(validate_validator_list(&many), Err(custom(ChainStakingError::TooManyValidators)));
    assert_eq!(validate_validator_list(&many[..16]), Ok(()));
    assert_eq!(
        validate_validator_list(&[addr(1), addr(2), addr(1)]),
        Err(custom(ChainStakingError::DuplicateValidator))
    );
}

fn program_account(key: [u8; 32]) -> AccountSnapshot {
    AccountSnapshot { executable: true, ..snapshot(Address::new(key), 1) }
}

fn stake_program() -> AccountSnapshot {
    program_account(solana_stake_interface::program::ID.to_bytes())
}

fn sysvar(key: [u8; 32]) -> AccountSnapshot {
    snapshot(Address::new(key), 1)
}

#[test]
#[allow(deprecated)]
fn stake_call_checks() {
    let system = program_account([0; 32]);
    let payer = snapshot(addr(1), 100);
    let stake = snapshot(addr(2), 0);
    assert_eq!(create_stake_account(&payer, &stake, &system, 50, 40), Ok(200));
    assert_eq!(create_stake_account(&payer, &stake, &system, 30, 40), Err(ProgramFailure::InsufficientFunds));
    assert_eq!(create_stake_account(&payer, &stake, &stake_program(), 50, 40), Err(ProgramFailure::IncorrectProgramId));
    let unsigned = AccountSnapshot { is_signer: false, ..stake };
    assert_eq!(create_stake_account(&payer, &unsigned, &system, 50, 40), Err(ProgramFailure::MissingRequiredSignature));
    let readonly = AccountSnapshot { is_writable: false, ..stake };
    assert_eq!(create_stake_account(&payer, &readonly, &system, 50, 40), Err(ProgramFailure::InvalidArgument));

    assert_eq!(initialize_stake_account(&stake, &stake_program()), Ok(()));
    assert_eq!(initialize_stake_account(&readonly, &stake_program()), Err(ProgramFailure::InvalidArgument));
    let not_executable = AccountSnapshot { executable: false, ..stake_program() };
    assert_eq!(initialize_stake_account(&stake, &not_executable), Err(ProgramFailure::IncorrectProgramId));

    let clock = sysvar(anchor_lang::solana_program::sysvar::clock::ID.to_bytes());
    let history = sysvar(anchor_lang::solana_program::sysvar::stake_history::ID.to_bytes());
    let config = sysvar(solana_stake_interface::config::ID.to_bytes());
    assert_eq!(delegate_stake_account(&stake, &clock, &history, &config, &stake_program()), Ok(()));
    assert_eq!(delegate_stake_account(&stake, &history, &history, &config, &stake_program()), Err(ProgramFailure::InvalidArgument));
    assert_eq!(delegate_stake_account(&stake, &clock, &history, &clock, &stake_program()), Err(ProgramFailure::InvalidArgument));
    assert_eq!(deactivate_stake_account(&stake, &clock, &history, &stake_program()), Ok(()));
    assert_eq!(deactivate_stake_account(&stake, &clock, &clock, &stake_program()), Err(ProgramFailure::InvalidArgument));

    let funded = snapshot(addr(2), 77);
    assert_eq!(withdraw_stake_account(&funded, &payer, &clock, &history, &stake_program()), Ok(77));
    assert_eq!(withdraw_stake_account(&stake, &payer, &clock, &history, &stake_program()), Err(ProgramFailure::InsufficientFunds));
}
