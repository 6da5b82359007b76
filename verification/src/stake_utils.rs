//! The checks made before each call into the system and stake programs, and the
//! calls that the instructions ask for.
use crate::address::{zero_address, Address};
use crate::constants::CHAIN_AUTH_SEED;
use crate::errors::ProgramFailure;
use crate::state::AccountSnapshot;
use vstd::prelude::*;

verus! {

/// A call into another program (or a direct move of lamports between accounts that
/// this program may debit) that an instruction makes once its own checks and state
/// changes are done, in the order listed; or `Fail`, where a check that the
/// instruction makes between two calls refuses it. What a call into another program
/// does, and whether it fails, is that program's and is not stated here.
#[derive(Clone, Copy, Debug, PartialEq, Eq)]
pub enum CpiStep {
    /// A system-program transfer.
    Transfer { from: Address, to: Address, lamports: u64 },
    /// Create `stake_account`, funded with `lamports`, owned by the stake program.
    CreateStakeAccount { payer: Address, stake_account: Address, lamports: u64 },
    /// Initialize `stake_account` with `authority` as staker and withdrawer.
    InitializeStakeAccount { stake_account: Address, authority: Address },
    /// Delegate `stake_account` to `validator_vote`, signed by the chain authority.
    DelegateStake { stake_account: Address, validator_vote: Address, chain_id: u8, chain_authority_bump: u8 },
    /// Deactivate `stake_account`, signed by the chain authority.
    DeactivateStake { stake_account: Address, chain_id: u8, chain_authority_bump: u8 },
    /// Withdraw the whole balance of `stake_account` to `recipient`, signed by the chain authority.
    WithdrawStake { stake_account: Address, recipient: Address, chain_id: u8, chain_authority_bump: u8 },
    /// Move `lamports` from `from` to `to` by editing both balances.
    MoveLamports { from: Address, to: Address, lamports: u64 },
    /// Create the program-owned account `account` of `space` bytes at the address derived
    /// from `kind`'s seed, `chain_id` and `bump`, paid by `payer` at the rent-exempt minimum.
    CreateProgramAccount { payer: Address, account: Address, space: u64, kind: ProgramAccountKind, chain_id: u8, bump: u8 },
    /// Refuse the instruction with `error` once the calls before it are made (every
    /// change of the instruction is then undone).
    Fail { error: ProgramFailure },
}

/// The per-chain accounts this program creates at its own derived addresses.
#[derive(Clone, Copy, Debug, PartialEq, Eq, Structural)]
pub enum ProgramAccountKind {
    TriggerVault,
    Chain,
}

/// The system program's id ("11111111111111111111111111111111": 32 zero bytes).
pub open spec fn system_program_key() -> Seq<u8> {
    zero_address()
}

/// The stake program's id ("Stake11111111111111111111111111111111111111").
pub open spec fn stake_program_key() -> Seq<u8> {
    seq![6u8, 161, 216, 23, 145, 55, 84, 42, 152, 52, 55, 189, 254, 42, 122, 178, 85, 127, 83, 92, 138, 120, 114, 43, 104, 164, 157, 192, 0, 0, 0, 0]
}

/// The clock sysvar's id ("SysvarC1ock11111111111111111111111111111111").
pub open spec fn clock_sysvar_key() -> Seq<u8> {
    seq![6u8, 167, 213, 23, 24, 199, 116, 201, 40, 86, 99, 152, 105, 29, 94, 182, 139, 94, 184, 163, 155, 75, 109, 92, 115, 85, 91, 33, 0, 0, 0, 0]
}

/// The stake-history sysvar's id ("SysvarStakeHistory1111111111111111111111111").
pub open spec fn stake_history_sysvar_key() -> Seq<u8> {
    seq![6u8, 167, 213, 23, 25, 53, 132, 208, 254, 237, 155, 179, 67, 29, 19, 32, 107, 229, 68, 40, 27, 87, 184, 86, 108, 197, 55, 95, 244, 0, 0, 0]
}

/// The stake config account's id ("StakeConfig11111111111111111111111111111111").
pub open spec fn stake_config_key() -> Seq<u8> {
    seq![6u8, 161, 216, 23, 165, 2, 5, 11, 104, 7, 145, 230, 206, 109, 184, 142, 30, 91, 113, 80, 246, 31, 198, 121, 10, 78, 180, 209, 0, 0, 0, 0]
}

/// Reads `anchor_lang::system_program::ID`; claimed: its 32 bytes are zero.
#[verifier::external_body]
pub(crate) fn system_program_id() -> (r: Address)
    ensures
        r@ == system_program_key(),
{
    Address { bytes: anchor_lang::system_program::ID.to_bytes() }
}

/// Reads `solana_stake_interface::program::ID`; claimed: its bytes are the decoding of
/// "Stake11111111111111111111111111111111111111".
#[verifier::external_body]
pub(crate) fn stake_program_id() -> (r: Address)
    ensures
        r@ == stake_program_key(),
{
    Address { bytes: solana_stake_interface::program::ID.to_bytes() }
}

/// Reads `anchor_lang::solana_program::sysvar::clock::ID`; claimed: its bytes are the
/// decoding of "SysvarC1ock11111111111111111111111111111111".
#[verifier::external_body]
fn clock_sysvar_id() -> (r: Address)
    ensures
        r@ == clock_sysvar_key(),
{
    Address { bytes: anchor_lang::solana_program::sysvar::clock::ID.to_bytes() }
}

/// Reads `anchor_lang::solana_program::sysvar::stake_history::ID`; claimed: its bytes
/// are the decoding of "SysvarStakeHistory1111111111111111111111111".
#[verifier::external_body]
fn stake_history_sysvar_id() -> (r: Address)
    ensures
        r@ == stake_history_sysvar_key(),
{
    Address { bytes: anchor_lang::solana_program::sysvar::stake_history::ID.to_bytes() }
}

/// Reads `solana_stake_interface::config::ID`; claimed: its bytes are the decoding of
/// "StakeConfig11111111111111111111111111111111".
#[verifier::external_body]
#[allow(deprecated)]
fn stake_config_id() -> (r: Address)
    ensures
        r@ == stake_config_key(),
{
    Address { bytes: solana_stake_interface::config::ID.to_bytes() }
}

/// Calls `solana_stake_interface::state::StakeState::size_of`; claimed: it is 200, the
/// constant its source returns.
#[verifier::external_body]
#[allow(deprecated)]
fn stake_state_size() -> (r: usize)
    ensures
        r == 200,
{
    solana_stake_interface::state::StakeState::size_of()
}

/// The error of a failed check, if it failed.
pub open spec fn failure_of<T>(r: Result<T, ProgramFailure>) -> Option<ProgramFailure> {
    match r {
        Ok(_) => None,
        Err(e) => Some(e),
    }
}

/// The account is the program `expected` and is executable.
pub open spec fn is_program_account(account: AccountSnapshot, expected: Seq<u8>) -> bool {
    account.key@ == expected && account.executable
}

fn require_program_account(account: &AccountSnapshot, expected: &Address) -> (r: Result<(), ProgramFailure>)
    ensures
        r == if is_program_account(*account, expected@) {
            Ok::<(), ProgramFailure>(())
        } else {
            Err(ProgramFailure::IncorrectProgramId)
        },
{
    if !account.key.equals(expected) || !account.executable {
        return Err(ProgramFailure::IncorrectProgramId);
    }
    Ok(())
}

fn require_account_key(account: &AccountSnapshot, expected: &Address) -> (r: Result<(), ProgramFailure>)
    ensures
        r == if account.key@ == expected@ {
            Ok::<(), ProgramFailure>(())
        } else {
            Err(ProgramFailure::InvalidArgument)
        },
{
    if !account.key.equals(expected) {
        return Err(ProgramFailure::InvalidArgument);
    }
    Ok(())
}

fn require_signer(account: &AccountSnapshot) -> (r: Result<(), ProgramFailure>)
    ensures
        r == if account.is_signer {
            Ok::<(), ProgramFailure>(())
        } else {
            Err(ProgramFailure::MissingRequiredSignature)
        },
{
    if !account.is_signer {
        return Err(ProgramFailure::MissingRequiredSignature);
    }
    Ok(())
}

fn require_writable(account: &AccountSnapshot) -> (r: Result<(), ProgramFailure>)
    ensures
        r == if account.is_writable {
            Ok::<(), ProgramFailure>(())
        } else {
            Err(ProgramFailure::InvalidArgument)
        },
{
    if !account.is_writable {
        return Err(ProgramFailure::InvalidArgument);
    }
    Ok(())
}

/// The checks before creating a stake account, in the order they are made.
pub open spec fn create_stake_account_check(
    payer: AccountSnapshot,
    stake_account: AccountSnapshot,
    system_program_account: AccountSnapshot,
    lamports: u64,
    minimum_balance: u64,
) -> Result<u64, ProgramFailure> {
    if !is_program_account(system_program_account, system_program_key()) {
        Err(ProgramFailure::IncorrectProgramId)
    } else if !payer.is_signer || !stake_account.is_signer {
        Err(ProgramFailure::MissingRequiredSignature)
    } else if !payer.is_writable || !stake_account.is_writable {
        Err(ProgramFailure::InvalidArgument)
    } else if lamports < minimum_balance {
        Err(ProgramFailure::InsufficientFunds)
    } else {
        Ok(200)
    }
}

/// The checks before creating a stake account, in order: the system program, both
/// signatures, both accounts writable, and funding at least `minimum_balance` (the
/// rent-exempt minimum of a stake account). On success, the size to allocate: 200 bytes.
pub fn create_stake_account(
    payer: &AccountSnapshot,
    stake_account: &AccountSnapshot,
    system_program_account: &AccountSnapshot,
    lamports: u64,
    minimum_balance: u64,
) -> (r: Result<u64, ProgramFailure>)
    ensures
        r == create_stake_account_check(*payer, *stake_account, *system_program_account, lamports, minimum_balance),
{
    let system_program = system_program_id();
    require_program_account(system_program_account, &system_program)?;
    require_signer(payer)?;
    require_signer(stake_account)?;
    require_writable(payer)?;
    require_writable(stake_account)?;
    let stake_account_size = stake_state_size();
    if lamports < minimum_balance {
        return Err(ProgramFailure::InsufficientFunds);
    }
    Ok(stake_account_size as u64)
}

/// The checks before initializing a stake account: the stake program, and the stake
/// account writable.
pub open spec fn initialize_stake_account_check(
    stake_account: AccountSnapshot,
    stake_program: AccountSnapshot,
) -> Result<(), ProgramFailure> {
    if !is_program_account(stake_program, stake_program_key()) {
        Err(ProgramFailure::IncorrectProgramId)
    } else if !stake_account.is_writable {
        Err(ProgramFailure::InvalidArgument)
    } else {
        Ok(())
    }
}

/// The checks before initializing a stake account.
pub fn initialize_stake_account(
    stake_account: &AccountSnapshot,
    stake_program: &AccountSnapshot,
) -> (r: Result<(), ProgramFailure>)
    ensures
        r == initialize_stake_account_check(*stake_account, *stake_program),
{
    let program = stake_program_id();
    require_program_account(stake_program, &program)?;
    require_writable(stake_account)?;
    Ok(())
}

/// The checks before delegating a stake account: the stake program, the stake account
/// writable, and the clock, stake-history and stake-config accounts.
pub open spec fn delegate_stake_account_check(
    stake_account: AccountSnapshot,
    clock: AccountSnapshot,
    stake_history: AccountSnapshot,
    stake_config: AccountSnapshot,
    stake_program: AccountSnapshot,
) -> Result<(), ProgramFailure> {
    if !is_program_account(stake_program, stake_program_key()) {
        Err(ProgramFailure::IncorrectProgramId)
    } else if !stake_account.is_writable || clock.key@ != clock_sysvar_key() || stake_history.key@
        != stake_history_sysvar_key() || stake_config.key@ != stake_config_key() {
        Err(ProgramFailure::InvalidArgument)
    } else {
        Ok(())
    }
}

/// The checks before delegating a stake account.
pub fn delegate_stake_account(
    stake_account: &AccountSnapshot,
    clock: &AccountSnapshot,
    stake_history: &AccountSnapshot,
    stake_config: &AccountSnapshot,
    stake_program: &AccountSnapshot,
) -> (r: Result<(), ProgramFailure>)
    ensures
        r == delegate_stake_account_check(*stake_account, *clock, *stake_history, *stake_config, *stake_program),
{
    let program = stake_program_id();
    require_program_account(stake_program, &program)?;
    require_writable(stake_account)?;
    let clock_id = clock_sysvar_id();
    require_account_key(clock, &clock_id)?;
    let history_id = stake_history_sysvar_id();
    require_account_key(stake_history, &history_id)?;
    let config_id = stake_config_id();
    require_account_key(stake_config, &config_id)?;
    Ok(())
}

/// The checks before deactivating a stake account: the stake program, the stake
/// account writable, and the clock and stake-history accounts.
pub open spec fn deactivate_stake_account_check(
    stake_account: AccountSnapshot,
    clock: AccountSnapshot,
    stake_history: AccountSnapshot,
    stake_program: AccountSnapshot,
) -> Result<(), ProgramFailure> {
    if !is_program_account(stake_program, stake_program_key()) {
        Err(ProgramFailure::IncorrectProgramId)
    } else if !stake_account.is_writable || clock.key@ != clock_sysvar_key() || stake_history.key@
        != stake_history_sysvar_key() {
        Err(ProgramFailure::InvalidArgument)
    } else {
        Ok(())
    }
}

/// The checks before deactivating a stake account with the chain authority's seeds.
pub fn deactivate_stake_account(
    stake_account: &AccountSnapshot,
    clock: &AccountSnapshot,
    stake_history: &AccountSnapshot,
    stake_program: &AccountSnapshot,
) -> (r: Result<(), ProgramFailure>)
    ensures
        r == deactivate_stake_account_check(*stake_account, *clock, *stake_history, *stake_program),
{
    let program = stake_program_id();
    require_program_account(stake_program, &program)?;
    require_writable(stake_account)?;
    let clock_id = clock_sysvar_id();
    require_account_key(clock, &clock_id)?;
    let history_id = stake_history_sysvar_id();
    require_account_key(stake_history, &history_id)?;
    deactivate_stake_account_with_signer_seeds(stake_account, clock, stake_history, stake_program)
}

/// The checks before deactivating a stake account with seeds given by the caller.
pub fn deactivate_stake_account_with_signer_seeds(
    stake_account: &AccountSnapshot,
    clock: &AccountSnapshot,
    stake_history: &AccountSnapshot,
    stake_program: &AccountSnapshot,
) -> (r: Result<(), ProgramFailure>)
    ensures
        r == deactivate_stake_account_check(*stake_account, *clock, *stake_history, *stake_program),
{
    let program = stake_program_id();
    require_program_account(stake_program, &program)?;
    require_writable(stake_account)?;
    let clock_id = clock_sysvar_id();
    require_account_key(clock, &clock_id)?;
    let history_id = stake_history_sysvar_id();
    require_account_key(stake_history, &history_id)?;
    Ok(())
}

/// The checks before withdrawing a stake account: the stake program, the stake account
/// and the recipient writable, the clock and stake-history accounts, and a non-empty
/// balance. On success, the amount to withdraw: the whole balance.
pub open spec fn withdraw_stake_account_check(
    stake_account: AccountSnapshot,
    recipient: AccountSnapshot,
    clock: AccountSnapshot,
    stake_history: AccountSnapshot,
    stake_program: AccountSnapshot,
) -> Result<u64, ProgramFailure> {
    if !is_program_account(stake_program, stake_program_key()) {
        Err(ProgramFailure::IncorrectProgramId)
    } else if !stake_account.is_writable || !recipient.is_writable || clock.key@ != clock_sysvar_key()
        || stake_history.key@ != stake_history_sysvar_key() {
        Err(ProgramFailure::InvalidArgument)
    } else if stake_account.lamports == 0 {
        Err(ProgramFailure::InsufficientFunds)
    } else {
        Ok(stake_account.lamports)
    }
}

/// The checks before withdrawing a stake account.
pub fn withdraw_stake_account(
    stake_account: &AccountSnapshot,
    recipient: &AccountSnapshot,
    clock: &AccountSnapshot,
    stake_history: &AccountSnapshot,
    stake_program: &AccountSnapshot,
) -> (r: Result<u64, ProgramFailure>)
    ensures
        r == withdraw_stake_account_check(*stake_account, *recipient, *clock, *stake_history, *stake_program),
{
    let program = stake_program_id();
    require_program_account(stake_program, &program)?;
    require_writable(stake_account)?;
    require_writable(recipient)?;
    let clock_id = clock_sysvar_id();
    require_account_key(clock, &clock_id)?;
    let history_id = stake_history_sysvar_id();
    require_account_key(stake_history, &history_id)?;
    let lamports = stake_account.lamports;
    if lamports == 0 {
        return Err(ProgramFailure::InsufficientFunds);
    }
    Ok(lamports)
}

/// The signer seeds of a chain authority: `[b"chain_auth", chain_id_byte, bump_byte]`.
pub fn chain_authority_signer_seeds_raw<'a>(chain_id_byte: &'a [u8], bump_byte: &'a [u8]) -> (r: [&'a [u8]; 3])
    ensures
        r@[0]@ == CHAIN_AUTH_SEED@,
        r@[1]@ == chain_id_byte@,
        r@[2]@ == bump_byte@,
{
    [CHAIN_AUTH_SEED.as_slice(), chain_id_byte, bump_byte]
}

/// No call of `steps` is a `Fail`: the instruction is accepted once its calls succeed.
pub open spec fn no_failure(steps: Seq<CpiStep>) -> bool {
    forall|i: int| 0 <= i < steps.len() ==> !(#[trigger] steps[i] is Fail)
}

/// The error of a failed check, if it failed.
pub fn failure<T>(r: &Result<T, ProgramFailure>) -> (f: Option<ProgramFailure>)
    ensures
        f == failure_of(*r),
{
    match r {
        Ok(_) => None,
        Err(e) => Some(*e),
    }
}

/// The creation, initialization and delegation of a stake account, each made only when
/// its check passes: the first failing check ends the calls with `Fail`.
pub open spec fn stake_setup_steps(
    create: Option<ProgramFailure>,
    init: Option<ProgramFailure>,
    delegate: Option<ProgramFailure>,
    create_step: CpiStep,
    init_step: CpiStep,
    delegate_step: CpiStep,
) -> Seq<CpiStep> {
    match create {
        Some(e) => seq![CpiStep::Fail { error: e }],
        None => match init {
            Some(e) => seq![create_step, CpiStep::Fail { error: e }],
            None => match delegate {
                Some(e) => seq![create_step, init_step, CpiStep::Fail { error: e }],
                None => seq![create_step, init_step, delegate_step],
            },
        },
    }
}

/// Appends `stake_setup_steps` to `steps`.
pub fn push_stake_setup_steps(
    steps: &mut Vec<CpiStep>,
    create: Option<ProgramFailure>,
    init: Option<ProgramFailure>,
    delegate: Option<ProgramFailure>,
    create_step: CpiStep,
    init_step: CpiStep,
    delegate_step: CpiStep,
)
    ensures
        final(steps)@ == old(steps)@ + stake_setup_steps(create, init, delegate, create_step, init_step, delegate_step),
{
    let ghost start = steps@;
    match create {
        Some(e) => {
            steps.push(CpiStep::Fail { error: e });
        },
        None => {
            steps.push(create_step);
            match init {
                Some(e) => {
                    steps.push(CpiStep::Fail { error: e });
                },
                None => {
                    steps.push(init_step);
                    match delegate {
                        Some(e) => {
                            steps.push(CpiStep::Fail { error: e });
                        },
                        None => {
                            steps.push(delegate_step);
                        },
                    }
                },
            }
        },
    }
    assert(steps@ =~= start + stake_setup_steps(create, init, delegate, create_step, init_step, delegate_step));
}

} // verus!
