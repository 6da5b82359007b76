//! Setting the protocol up: its configuration, its validator registry, and the trigger
//! vault and chain account of each of its chains.
use crate::address::{zero_key, Address};
use crate::constants::{
    chain_authority_seeds, chain_seeds, derived_address, find_chain_authority_pda, find_chain_pda,
    find_trigger_vault_pda, key_matches, opt_address_view, pda_view, program_address, trigger_vault_seeds,
    BREAK_TYPE_NONE, CHAIN_SPREADS_BPS, DEFAULT_COOLDOWN_SECONDS, DEFAULT_FEE_BPS, DEFAULT_FLAT_FEE_LAMPORTS,
    DEFAULT_TRIGGER_REWARD_LAMPORTS, DEFAULT_UNSTAKE_BATCH_SIZE, DEFAULT_WITHDRAWAL_FEE_BPS,
    EXPECTED_INITIALIZE_REMAINING_ACCOUNTS, MAX_VALIDATORS, TOTAL_CHAINS, TOTAL_CHAINS_U8,
};
use crate::errors::{custom, ChainStakingError, ProgramFailure};
use crate::stake_utils::{no_failure, system_program_key, CpiStep, ProgramAccountKind};
use crate::state::{AccountSnapshot, ChainAccount, GlobalConfig, TriggerVault, ValidatorRegistry};
use vstd::prelude::*;

verus! {

#[derive(Clone, Debug)]
pub struct InitializeProtocolArgs {
    pub validator_list: Vec<Address>,
}

/// What initialization reads and writes.
#[derive(Clone, Debug)]
pub struct InitializeProtocol {
    pub authority: Address,
    /// The configuration being created, and the bump of its address.
    pub global_config: GlobalConfig,
    pub global_config_bump: u8,
    /// The registry being created, and the bump of its address.
    pub validator_registry: ValidatorRegistry,
    pub validator_registry_bump: u8,
    /// The ten trigger vaults, then the ten chain accounts.
    pub remaining_accounts: Vec<AccountSnapshot>,
    /// The data written to each chain's trigger vault and chain account, in chain order.
    pub trigger_vaults: Vec<TriggerVault>,
    pub chain_accounts: Vec<ChainAccount>,
}

/// The derived addresses (and bumps) of one chain's accounts.
#[derive(Clone, Copy, Debug)]
pub struct ChainAddresses {
    pub trigger_vault: Option<(Address, u8)>,
    pub chain: Option<(Address, u8)>,
    pub chain_authority: Option<(Address, u8)>,
}

/// Some address occurs twice in `list`.
pub open spec fn has_duplicate(list: Seq<Address>) -> bool {
    exists|i: int, j: int| 0 <= i < j < list.len() && #[trigger] list[i]@ == #[trigger] list[j]@
}

/// Why a validator list is refused: empty, longer than the registry holds, or with a
/// validator listed twice.
pub open spec fn validator_list_error(list: Seq<Address>) -> Option<ProgramFailure> {
    if list.len() == 0 {
        Some(custom(ChainStakingError::EmptyValidatorList))
    } else if list.len() > MAX_VALIDATORS {
        Some(custom(ChainStakingError::TooManyValidators))
    } else if has_duplicate(list) {
        Some(custom(ChainStakingError::DuplicateValidator))
    } else {
        None
    }
}

/// Checks a validator list: refused exactly as `validator_list_error` says.
pub fn validate_validator_list(validator_list: &[Address]) -> (r: Result<(), ProgramFailure>)
    ensures
        match r {
            Ok(_) => validator_list_error(validator_list@) is None,
            Err(e) => validator_list_error(validator_list@) == Some(e),
        },
{
    if validator_list.len() == 0 {
        return Err(ProgramFailure::Custom(ChainStakingError::EmptyValidatorList));
    }
    if validator_list.len() > MAX_VALIDATORS {
        return Err(ProgramFailure::Custom(ChainStakingError::TooManyValidators));
    }
    let n = validator_list.len();
    let mut index: usize = 0;
    while index < n
        invariant
            n == validator_list@.len(),
            0 < n <= MAX_VALIDATORS,
            0 <= index <= n,
            forall|i: int, j: int| 0 <= i < index && i < j < n ==> validator_list@[i]@ != validator_list@[j]@,
        decreases n - index,
    {
        let mut other: usize = index + 1;
        while other < n
            invariant
                n == validator_list@.len(),
                0 < n <= MAX_VALIDATORS,
                0 <= index < n,
                index + 1 <= other <= n,
                forall|i: int, j: int| 0 <= i < index && i < j < n ==> validator_list@[i]@ != validator_list@[j]@,
                forall|j: int| index < j < other ==> validator_list@[index as int]@ != validator_list@[j]@,
            decreases n - other,
        {
            if validator_list[index].equals(&validator_list[other]) {
                assert(has_duplicate(validator_list@)) by {
                    assert(validator_list@[index as int]@ == validator_list@[other as int]@);
                }
                return Err(ProgramFailure::Custom(ChainStakingError::DuplicateValidator));
            }
            other = other + 1;
        }
        index = index + 1;
    }
    assert(!has_duplicate(validator_list@));
    Ok(())
}

/// The chain of creation step `k`: steps go trigger vault 0, chain 0, trigger vault 1, ...
pub open spec fn creation_chain(k: int) -> int {
    k / 2
}

/// Creation step `k` creates a trigger vault (otherwise, a chain account).
pub open spec fn creates_vault(k: int) -> bool {
    k % 2 == 0
}

/// The remaining account that creation step `k` creates.
pub open spec fn creation_account(accounts: Seq<AccountSnapshot>, k: int) -> AccountSnapshot {
    if creates_vault(k) {
        accounts[creation_chain(k)]
    } else {
        accounts[TOTAL_CHAINS + creation_chain(k)]
    }
}

/// The derived addresses of chain `i` (none where missing).
pub open spec fn addresses_of(addresses: Seq<ChainAddresses>, i: int) -> ChainAddresses {
    if 0 <= i < addresses.len() {
        addresses[i]
    } else {
        ChainAddresses { trigger_vault: None, chain: None, chain_authority: None }
    }
}

/// The address creation step `k` expects.
pub open spec fn expected_key(addresses: Seq<ChainAddresses>, k: int) -> Option<Seq<u8>> {
    let a = addresses_of(addresses, creation_chain(k));
    let derived = if creates_vault(k) { a.trigger_vault } else { a.chain };
    match pda_view(derived) {
        Some(p) => Some(p.0),
        None => None,
    }
}

/// Creation step `k` names an account that an earlier step already created.
pub open spec fn repeats_creation(accounts: Seq<AccountSnapshot>, k: int) -> bool {
    exists|k2: int| 0 <= k2 < k && #[trigger] creation_account(accounts, k2).key@ == creation_account(accounts, k).key@
}

/// Why an account cannot be created at a derived address: it is not writable, or it
/// is already in use (not owned by the system program, created earlier in this
/// instruction, holding data or holding lamports).
pub open spec fn pda_account_error(target: AccountSnapshot, created_earlier: bool) -> Option<ProgramFailure> {
    if !target.is_writable {
        Some(custom(ChainStakingError::PdaAccountNotWritable))
    } else if target.owner@ != system_program_key() || created_earlier || target.data_len != 0 || target.lamports != 0 {
        Some(custom(ChainStakingError::PdaAccountAlreadyInitialized))
    } else {
        None
    }
}

/// The address alone of an optional derivation.
pub open spec fn derived_key(derived: Option<(Address, u8)>) -> Option<Seq<u8>> {
    match pda_view(derived) {
        Some(p) => Some(p.0),
        None => None,
    }
}

/// The check that refuses creation step `k` before its call, if any, in the order they
/// are made: the derived address, then the account's state.
pub open spec fn creation_error(accounts: Seq<AccountSnapshot>, addresses: Seq<ChainAddresses>, k: int) -> Option<
    ProgramFailure,
> {
    let account = creation_account(accounts, k);
    if !key_matches(account.key@, expected_key(addresses, k)) {
        if creates_vault(k) {
            Some(custom(ChainStakingError::InvalidTriggerVaultPda))
        } else {
            Some(custom(ChainStakingError::InvalidChainAccountPda))
        }
    } else {
        pda_account_error(account, repeats_creation(accounts, k))
    }
}

/// The check that refuses creation step `k` once its account is created: a chain
/// account whose chain has no derivable chain authority.
pub open spec fn post_creation_error(addresses: Seq<ChainAddresses>, k: int) -> Option<ProgramFailure> {
    if !creates_vault(k) && addresses_of(addresses, creation_chain(k)).chain_authority is None {
        Some(custom(ChainStakingError::InvalidChainAuthority))
    } else {
        None
    }
}

/// The first creation step from `lo` on that a check refuses, before or after its call
/// (`2 * TOTAL_CHAINS` if none is).
pub open spec fn refused_creation(accounts: Seq<AccountSnapshot>, addresses: Seq<ChainAddresses>, lo: int) -> int
    decreases 2 * TOTAL_CHAINS - lo,
{
    if lo < 0 || lo >= 2 * TOTAL_CHAINS {
        2 * TOTAL_CHAINS as int
    } else if creation_error(accounts, addresses, lo) is Some || post_creation_error(addresses, lo) is Some {
        lo
    } else {
        refused_creation(accounts, addresses, lo + 1)
    }
}

/// The first check that refuses initialization before any call is made, in the order
/// they are made; each creation step's checks come after the calls before it.
pub open spec fn initialize_error(
    ctx: InitializeProtocol,
    args: InitializeProtocolArgs,
    addresses: Seq<ChainAddresses>,
) -> Option<ProgramFailure> {
    if validator_list_error(args.validator_list@) is Some {
        validator_list_error(args.validator_list@)
    } else if ctx.remaining_accounts@.len() != EXPECTED_INITIALIZE_REMAINING_ACCOUNTS {
        Some(custom(ChainStakingError::InvalidRemainingAccountsLen))
    } else {
        None
    }
}

/// The configuration of a new protocol: the caller's authority and the default fees,
/// cooldown, batch size and trigger reward.
pub open spec fn initial_config(authority: Address, bump: u8) -> GlobalConfig {
    GlobalConfig {
        authority,
        is_initialized: true,
        total_chains: TOTAL_CHAINS_U8,
        fee_bps: DEFAULT_FEE_BPS,
        flat_fee_lamports: DEFAULT_FLAT_FEE_LAMPORTS,
        withdrawal_fee_bps: DEFAULT_WITHDRAWAL_FEE_BPS,
        cooldown_seconds: DEFAULT_COOLDOWN_SECONDS,
        unstake_batch_size: DEFAULT_UNSTAKE_BATCH_SIZE,
        trigger_reward_lamports: DEFAULT_TRIGGER_REWARD_LAMPORTS,
        bump,
    }
}

/// The new trigger vault of chain `i`: an empty reserve.
pub open spec fn initial_vault(addresses: Seq<ChainAddresses>, i: int) -> TriggerVault {
    TriggerVault { chain_id: i as u8, reserve_lamports: 0, bump: addresses_of(addresses, i).trigger_vault.unwrap().1 }
}

/// The new chain account of chain `i`.
pub open spec fn initial_chain(addresses: Seq<ChainAddresses>, i: int) -> ChainAccount {
    new_chain(
        i as u8,
        CHAIN_SPREADS_BPS@[i],
        addresses_of(addresses, i).chain.unwrap().1,
        addresses_of(addresses, i).chain_authority.unwrap().1,
    )
}

/// Creation step `k` as a call.
pub open spec fn creation_step(
    payer: Address,
    accounts: Seq<AccountSnapshot>,
    addresses: Seq<ChainAddresses>,
    k: int,
) -> CpiStep {
    let i = creation_chain(k);
    let a = addresses_of(addresses, i);
    CpiStep::CreateProgramAccount {
        payer,
        account: creation_account(accounts, k).key,
        space: if creates_vault(k) { TriggerVault::SPACE as u64 } else { ChainAccount::SPACE as u64 },
        kind: if creates_vault(k) { ProgramAccountKind::TriggerVault } else { ProgramAccountKind::Chain },
        chain_id: i as u8,
        bump: if creates_vault(k) { a.trigger_vault.unwrap().1 } else { a.chain.unwrap().1 },
    }
}

/// The first `m` creation calls.
pub open spec fn creation_steps(
    payer: Address,
    accounts: Seq<AccountSnapshot>,
    addresses: Seq<ChainAddresses>,
    m: int,
) -> Seq<CpiStep> {
    Seq::new(m as nat, |k: int| creation_step(payer, accounts, addresses, k))
}

/// The calls of initialization: one creation call per account, vault before chain
/// account, chain by chain, each after its checks; a refusing check ends the calls with
/// `Fail` (before the refused step's call, or after it for a check made once the
/// account is created).
pub open spec fn initialize_steps(payer: Address, accounts: Seq<AccountSnapshot>, addresses: Seq<ChainAddresses>) -> Seq<
    CpiStep,
> {
    let k = refused_creation(accounts, addresses, 0);
    if k >= 2 * TOTAL_CHAINS {
        creation_steps(payer, accounts, addresses, 2 * TOTAL_CHAINS as int)
    } else if creation_error(accounts, addresses, k) is Some {
        creation_steps(payer, accounts, addresses, k) + seq![
            CpiStep::Fail { error: creation_error(accounts, addresses, k)->0 },
        ]
    } else {
        creation_steps(payer, accounts, addresses, k + 1) + seq![
            CpiStep::Fail { error: post_creation_error(addresses, k)->0 },
        ]
    }
}

/// Initialization: refused with `initialize_error` before any call (accounts
/// unchanged), or the calls of `initialize_steps`; when no creation step is refused,
/// with the new configuration and registry and each chain's vault and account written,
/// and otherwise with the accounts unchanged.
pub open spec fn initialize_outcome(
    before: InitializeProtocol,
    args: InitializeProtocolArgs,
    addresses: Seq<ChainAddresses>,
    after: InitializeProtocol,
    r: Result<Vec<CpiStep>, ProgramFailure>,
) -> bool {
    match r {
        Ok(steps) => {
            &&& initialize_error(before, args, addresses) is None
            &&& steps@ == initialize_steps(before.authority, before.remaining_accounts@, addresses)
            &&& if refused_creation(before.remaining_accounts@, addresses, 0) < 2 * TOTAL_CHAINS {
                after == before
            } else {
                &&& after.authority == before.authority
                &&& after.remaining_accounts == before.remaining_accounts
                &&& after.global_config == initial_config(before.authority, before.global_config_bump)
                &&& after.validator_registry == (ValidatorRegistry {
                    validator_list: args.validator_list,
                    bump: before.validator_registry_bump,
                })
                &&& after.trigger_vaults@ == Seq::new(TOTAL_CHAINS as nat, |i: int| initial_vault(addresses, i))
                &&& after.chain_accounts@ == Seq::new(TOTAL_CHAINS as nat, |i: int| initial_chain(addresses, i))
            }
        },
        Err(e) => {
            &&& initialize_error(before, args, addresses) == Some(e)
            &&& after == before
        },
    }
}

proof fn lemma_refused_creation_at(accounts: Seq<AccountSnapshot>, addresses: Seq<ChainAddresses>, lo: int, j: int)
    requires
        0 <= lo <= j <= 2 * TOTAL_CHAINS,
        forall|k: int|
            lo <= k < j ==> creation_error(accounts, addresses, k) is None && post_creation_error(addresses, k) is None,
    ensures
        refused_creation(accounts, addresses, lo) == refused_creation(accounts, addresses, j),
    decreases j - lo,
{
    if lo < j {
        lemma_refused_creation_at(accounts, addresses, lo + 1, j);
    }
}

/// Whether creation step `k` names an account that an earlier step already created.
fn repeats_earlier_creation(accounts: &Vec<AccountSnapshot>, k: usize) -> (r: bool)
    requires
        accounts@.len() == EXPECTED_INITIALIZE_REMAINING_ACCOUNTS,
        k < 2 * TOTAL_CHAINS,
    ensures
        r == repeats_creation(accounts@, k as int),
{
    let account = creation_account_exec(accounts, k);
    let mut k2: usize = 0;
    while k2 < k
        invariant
            accounts@.len() == EXPECTED_INITIALIZE_REMAINING_ACCOUNTS,
            k < 2 * TOTAL_CHAINS,
            0 <= k2 <= k,
            account == creation_account(accounts@, k as int),
            forall|k3: int| 0 <= k3 < k2 ==> #[trigger] creation_account(accounts@, k3).key@ != account.key@,
        decreases k - k2,
    {
        let other = creation_account_exec(accounts, k2);
        if other.key.equals(&account.key) {
            return true;
        }
        k2 = k2 + 1;
    }
    false
}

fn creation_account_exec(accounts: &Vec<AccountSnapshot>, k: usize) -> (r: AccountSnapshot)
    requires
        accounts@.len() == EXPECTED_INITIALIZE_REMAINING_ACCOUNTS,
        k < 2 * TOTAL_CHAINS,
    ensures
        r == creation_account(accounts@, k as int),
{
    if k % 2 == 0 {
        accounts[k / 2]
    } else {
        accounts[TOTAL_CHAINS + k / 2]
    }
}

/// The checks before creating an account at a derived address, as
/// `pda_account_error` states them.
pub fn create_program_pda_account(target: &AccountSnapshot, created_earlier: bool) -> (r: Result<(), ProgramFailure>)
    ensures
        match r {
            Ok(_) => pda_account_error(*target, created_earlier) is None,
            Err(e) => pda_account_error(*target, created_earlier) == Some(e),
        },
{
    if !target.is_writable {
        return Err(ProgramFailure::Custom(ChainStakingError::PdaAccountNotWritable));
    }
    let system_program = crate::stake_utils::system_program_id();
    if !target.owner.equals(&system_program) || created_earlier || target.data_len != 0 || target.lamports != 0 {
        return Err(ProgramFailure::Custom(ChainStakingError::PdaAccountAlreadyInitialized));
    }
    Ok(())
}

/// Creates chain `chain_id`'s trigger vault at `target`, which must be its derived
/// address: the vault's data (an empty reserve) and the creation call.
pub fn create_trigger_vault(
    payer: Address,
    target: &AccountSnapshot,
    derived: Option<(Address, u8)>,
    chain_id: u8,
    created_earlier: bool,
) -> (r: Result<(TriggerVault, CpiStep), ProgramFailure>)
    ensures
        match r {
            Ok(out) => {
                &&& key_matches(target.key@, derived_key(derived))
                &&& pda_account_error(*target, created_earlier) is None
                &&& out.0 == (TriggerVault { chain_id, reserve_lamports: 0, bump: derived.unwrap().1 })
                &&& out.1 == (CpiStep::CreateProgramAccount {
                    payer,
                    account: target.key,
                    space: TriggerVault::SPACE as u64,
                    kind: ProgramAccountKind::TriggerVault,
                    chain_id,
                    bump: derived.unwrap().1,
                })
            },
            Err(e) => if !key_matches(target.key@, derived_key(derived)) {
                e == custom(ChainStakingError::InvalidTriggerVaultPda)
            } else {
                pda_account_error(*target, created_earlier) == Some(e)
            },
        },
{
    let bump = match derived {
        Some(d) => {
            if !d.0.equals(&target.key) {
                return Err(ProgramFailure::Custom(ChainStakingError::InvalidTriggerVaultPda));
            }
            d.1
        },
        None => {
            return Err(ProgramFailure::Custom(ChainStakingError::InvalidTriggerVaultPda));
        },
    };
    create_program_pda_account(target, created_earlier)?;
    let step = CpiStep::CreateProgramAccount {
        payer,
        account: target.key,
        space: TriggerVault::SPACE as u64,
        kind: ProgramAccountKind::TriggerVault,
        chain_id,
        bump,
    };
    Ok((TriggerVault { chain_id, reserve_lamports: 0, bump }, step))
}

/// The account of a new chain: its spread, round 0, and nothing else yet.
pub open spec fn new_chain(chain_id: u8, spread_bps: u32, bump: u8, chain_authority_bump: u8) -> ChainAccount {
    ChainAccount {
        chain_id,
        spread_bps,
        entry_count: 0,
        current_round: 0,
        last_entry_amount: 0,
        last_entry_timestamp: 0,
        last_entry_authority: zero_key(),
        total_staked_lamports: 0,
        frontend_estimated_yield_pool_lamports: 0,
        donation_pot_lamports: 0,
        donation_count: 0,
        is_broken: false,
        break_type: BREAK_TYPE_NONE,
        bump,
        chain_authority_bump,
        round_settled: false,
    }
}

/// Creates chain `chain_id`'s account at `target`, which must be its derived address:
/// the account's data and the creation call. Fails with an invalid chain authority
/// where none can be derived for the chain.
pub fn create_chain_account(
    payer: Address,
    target: &AccountSnapshot,
    derived: Option<(Address, u8)>,
    derived_chain_authority: Option<(Address, u8)>,
    chain_id: u8,
    spread_bps: u32,
    created_earlier: bool,
) -> (r: Result<(ChainAccount, CpiStep), ProgramFailure>)
    ensures
        match r {
            Ok(out) => {
                &&& key_matches(target.key@, derived_key(derived))
                &&& pda_account_error(*target, created_earlier) is None
                &&& derived_chain_authority is Some
                &&& out.0 == new_chain(chain_id, spread_bps, derived.unwrap().1, derived_chain_authority.unwrap().1)
                &&& out.1 == (CpiStep::CreateProgramAccount {
                    payer,
                    account: target.key,
                    space: ChainAccount::SPACE as u64,
                    kind: ProgramAccountKind::Chain,
                    chain_id,
                    bump: derived.unwrap().1,
                })
            },
            Err(e) => if !key_matches(target.key@, derived_key(derived)) {
                e == custom(ChainStakingError::InvalidChainAccountPda)
            } else if pda_account_error(*target, created_earlier) is Some {
                pda_account_error(*target, created_earlier) == Some(e)
            } else {
                derived_chain_authority is None && e == custom(ChainStakingError::InvalidChainAuthority)
            },
        },
        r is Ok ==> r.unwrap().0.well_formed(),
{
    let bump = match derived {
        Some(d) => {
            if !d.0.equals(&target.key) {
                return Err(ProgramFailure::Custom(ChainStakingError::InvalidChainAccountPda));
            }
            d.1
        },
        None => {
            return Err(ProgramFailure::Custom(ChainStakingError::InvalidChainAccountPda));
        },
    };
    create_program_pda_account(target, created_earlier)?;
    let chain_authority_bump = match derived_chain_authority {
        Some(d) => d.1,
        None => {
            return Err(ProgramFailure::Custom(ChainStakingError::InvalidChainAuthority));
        },
    };
    let step = CpiStep::CreateProgramAccount {
        payer,
        account: target.key,
        space: ChainAccount::SPACE as u64,
        kind: ProgramAccountKind::Chain,
        chain_id,
        bump,
    };
    proof {
        crate::address::lemma_zero_key_view();
    }
    let chain = ChainAccount {
        chain_id,
        spread_bps,
        entry_count: 0,
        current_round: 0,
        last_entry_amount: 0,
        last_entry_timestamp: 0,
        last_entry_authority: Address::zero(),
        total_staked_lamports: 0,
        frontend_estimated_yield_pool_lamports: 0,
        donation_pot_lamports: 0,
        donation_count: 0,
        is_broken: false,
        break_type: BREAK_TYPE_NONE,
        bump,
        chain_authority_bump,
        round_settled: false,
    };
    Ok((chain, step))
}

/// Creates every chain's trigger vault and account, chain by chain, vault first:
/// refused when there are not exactly twenty remaining accounts; otherwise the calls of
/// `initialize_steps`, whether a creation step is refused, and (when none is) the
/// vaults and the chain accounts.
pub fn initialize_per_chain_accounts(
    payer: Address,
    remaining_accounts: &Vec<AccountSnapshot>,
    addresses: &Vec<ChainAddresses>,
) -> (r: Result<(Vec<TriggerVault>, Vec<ChainAccount>, Vec<CpiStep>, bool), ProgramFailure>)
    ensures
        match r {
            Ok(out) => {
                &&& remaining_accounts@.len() == EXPECTED_INITIALIZE_REMAINING_ACCOUNTS
                &&& out.2@ == initialize_steps(payer, remaining_accounts@, addresses@)
                &&& out.3 == (refused_creation(remaining_accounts@, addresses@, 0) < 2 * TOTAL_CHAINS)
                &&& !out.3 ==> out.0@ == Seq::new(TOTAL_CHAINS as nat, |i: int| initial_vault(addresses@, i))
                &&& !out.3 ==> out.1@ == Seq::new(TOTAL_CHAINS as nat, |i: int| initial_chain(addresses@, i))
            },
            Err(e) => {
                &&& remaining_accounts@.len() != EXPECTED_INITIALIZE_REMAINING_ACCOUNTS
                &&& e == custom(ChainStakingError::InvalidRemainingAccountsLen)
            },
        },
{
    if remaining_accounts.len() != EXPECTED_INITIALIZE_REMAINING_ACCOUNTS {
        return Err(ProgramFailure::Custom(ChainStakingError::InvalidRemainingAccountsLen));
    }
    let ghost accounts = remaining_accounts@;
    let ghost addrs = addresses@;
    let mut vaults: Vec<TriggerVault> = Vec::new();
    let mut chains: Vec<ChainAccount> = Vec::new();
    let mut steps: Vec<CpiStep> = Vec::new();
    let mut chain_index: usize = 0;
    while chain_index < TOTAL_CHAINS
        invariant
            accounts == remaining_accounts@,
            addrs == addresses@,
            accounts.len() == EXPECTED_INITIALIZE_REMAINING_ACCOUNTS,
            0 <= chain_index <= TOTAL_CHAINS,
            forall|k2: int|
                0 <= k2 < 2 * chain_index ==> creation_error(accounts, addrs, k2) is None && post_creation_error(
                    addrs,
                    k2,
                ) is None,
            vaults@ == Seq::new(chain_index as nat, |j: int| initial_vault(addrs, j)),
            chains@ == Seq::new(chain_index as nat, |j: int| initial_chain(addrs, j)),
            steps@ == creation_steps(payer, accounts, addrs, 2 * chain_index as int),
        decreases TOTAL_CHAINS - chain_index,
    {
        let i = chain_index;
        let chain_id = i as u8;
        let a = if i < addresses.len() {
            addresses[i]
        } else {
            ChainAddresses { trigger_vault: None, chain: None, chain_authority: None }
        };
        assert(a == addresses_of(addrs, i as int));
        let kv = 2 * i;
        let kc = 2 * i + 1;
        assert(creation_chain(kv as int) == i && creates_vault(kv as int));
        assert(creation_chain(kc as int) == i && !creates_vault(kc as int));
        let vault_account = remaining_accounts[i];
        let vault_repeats = repeats_earlier_creation(remaining_accounts, kv);
        let vault = create_trigger_vault(payer, &vault_account, a.trigger_vault, chain_id, vault_repeats);
        let (vault_data, vault_step) = match vault {
            Ok(out) => out,
            Err(e) => {
                proof {
                    lemma_refused_creation_at(accounts, addrs, 0, kv as int);
                }
                steps.push(CpiStep::Fail { error: e });
                assert(steps@ =~= initialize_steps(payer, accounts, addrs));
                return Ok((vaults, chains, steps, true));
            },
        };
        assert(vault_step == creation_step(payer, accounts, addrs, kv as int));
        let chain_account = remaining_accounts[TOTAL_CHAINS + i];
        let chain_repeats = repeats_earlier_creation(remaining_accounts, kc);
        let chain = create_chain_account(
            payer,
            &chain_account,
            a.chain,
            a.chain_authority,
            chain_id,
            CHAIN_SPREADS_BPS[i],
            chain_repeats,
        );
        let (chain_data, chain_step) = match chain {
            Ok(out) => out,
            Err(e) => {
                proof {
                    lemma_refused_creation_at(accounts, addrs, 0, kc as int);
                }
                steps.push(vault_step);
                assert(steps@ =~= creation_steps(payer, accounts, addrs, kc as int));
                if a.chain.is_some() && a.chain_authority.is_none() && create_program_pda_account(
                    &chain_account,
                    chain_repeats,
                ).is_ok() && a.chain.unwrap().0.equals(&chain_account.key) {
                    let bump = a.chain.unwrap().1;
                    let chain_step = CpiStep::CreateProgramAccount {
                        payer,
                        account: chain_account.key,
                        space: ChainAccount::SPACE as u64,
                        kind: ProgramAccountKind::Chain,
                        chain_id,
                        bump,
                    };
                    assert(chain_step == creation_step(payer, accounts, addrs, kc as int));
                    steps.push(chain_step);
                }
                steps.push(CpiStep::Fail { error: e });
                assert(steps@ =~= initialize_steps(payer, accounts, addrs));
                return Ok((vaults, chains, steps, true));
            },
        };
        assert(chain_step == creation_step(payer, accounts, addrs, kc as int));
        vaults.push(vault_data);
        chains.push(chain_data);
        steps.push(vault_step);
        steps.push(chain_step);
        chain_index = chain_index + 1;
        assert(vaults@ =~= Seq::new(chain_index as nat, |j: int| initial_vault(addrs, j)));
        assert(chains@ =~= Seq::new(chain_index as nat, |j: int| initial_chain(addrs, j)));
        assert(steps@ =~= creation_steps(payer, accounts, addrs, 2 * chain_index as int));
    }
    proof {
        lemma_refused_creation_at(accounts, addrs, 0, 2 * TOTAL_CHAINS as int);
    }
    Ok((vaults, chains, steps, false))
}

/// Initializes the protocol, given the derived addresses of each chain's accounts.
pub fn process(
    ctx: &mut InitializeProtocol,
    args: InitializeProtocolArgs,
    addresses: &Vec<ChainAddresses>,
) -> (r: Result<Vec<CpiStep>, ProgramFailure>)
    ensures
        initialize_outcome(*old(ctx), args, addresses@, *final(ctx), r),
        r matches Ok(steps) && no_failure(steps@) ==> forall|i: int|
            0 <= i < TOTAL_CHAINS ==> #[trigger] final(ctx).chain_accounts@[i].well_formed(),
{
    validate_validator_list(args.validator_list.as_slice())?;
    let (vaults, chains, steps, refused) = initialize_per_chain_accounts(
        ctx.authority,
        &ctx.remaining_accounts,
        addresses,
    )?;
    if refused {
        proof {
            assert(steps@[steps@.len() - 1] is Fail);
        }
        return Ok(steps);
    }
    ctx.global_config = GlobalConfig {
        authority: ctx.authority,
        is_initialized: true,
        total_chains: TOTAL_CHAINS_U8,
        fee_bps: DEFAULT_FEE_BPS,
        flat_fee_lamports: DEFAULT_FLAT_FEE_LAMPORTS,
        withdrawal_fee_bps: DEFAULT_WITHDRAWAL_FEE_BPS,
        cooldown_seconds: DEFAULT_COOLDOWN_SECONDS,
        unstake_batch_size: DEFAULT_UNSTAKE_BATCH_SIZE,
        trigger_reward_lamports: DEFAULT_TRIGGER_REWARD_LAMPORTS,
        bump: ctx.global_config_bump,
    };
    ctx.validator_registry = ValidatorRegistry { validator_list: args.validator_list, bump: ctx.validator_registry_bump };
    ctx.trigger_vaults = vaults;
    ctx.chain_accounts = chains;
    proof {
        crate::address::lemma_zero_key_view();
    }
    Ok(steps)
}

/// An accepted initialization creates every chain fresh with its own spread: chain `i`
/// has chain id `i`, the spread `CHAIN_SPREADS_BPS[i]`, round 0, no entries, no
/// donations, nothing staked and no break; and its trigger vault holds an empty
/// reserve for chain `i`.
pub proof fn lemma_chains_created_with_their_spreads(
    before: InitializeProtocol,
    args: InitializeProtocolArgs,
    addresses: Seq<ChainAddresses>,
    after: InitializeProtocol,
    r: Result<Vec<CpiStep>, ProgramFailure>,
)
    requires
        initialize_outcome(before, args, addresses, after, r),
        r is Ok,
        refused_creation(before.remaining_accounts@, addresses, 0) >= 2 * TOTAL_CHAINS,
    ensures
        after.chain_accounts@.len() == TOTAL_CHAINS,
        after.trigger_vaults@.len() == TOTAL_CHAINS,
        forall|i: int|
            0 <= i < TOTAL_CHAINS ==> {
                let c = #[trigger] after.chain_accounts@[i];
                &&& c.chain_id == i
                &&& c.spread_bps == CHAIN_SPREADS_BPS@[i]
                &&& c.current_round == 0 && c.entry_count == 0 && c.donation_count == 0
                &&& c.total_staked_lamports == 0 && c.donation_pot_lamports == 0
                &&& !c.is_broken && !c.round_settled
                &&& after.trigger_vaults@[i].chain_id == i && after.trigger_vaults@[i].reserve_lamports == 0
            },
        after.chain_accounts@[0].spread_bps == 500,
        after.chain_accounts@[9].spread_bps == 1_000_000,
        after.global_config.authority == before.authority,
        after.global_config.fee_bps == 100 && after.global_config.withdrawal_fee_bps == 100,
        after.global_config.flat_fee_lamports == 10_000_000,
        after.global_config.trigger_reward_lamports == 10_000_000,
        after.global_config.cooldown_seconds == 300 && after.global_config.unstake_batch_size == 5,
        after.global_config.total_chains == 10 && after.global_config.is_initialized,
        after.validator_registry.validator_list@ == args.validator_list@,
{
    assert forall|i: int| 0 <= i < TOTAL_CHAINS implies (#[trigger] after.chain_accounts@[i]).chain_id == i by {
        assert(after.chain_accounts@[i] == initial_chain(addresses, i));
    }
}

/// The derived addresses of every chain's accounts.
pub fn find_chain_addresses(program_id: &Address) -> (r: Vec<ChainAddresses>)
    ensures
        r@.len() == TOTAL_CHAINS,
        forall|i: int|
            0 <= i < TOTAL_CHAINS ==> {
                &&& pda_view(#[trigger] r@[i].trigger_vault) == program_address(trigger_vault_seeds(i as u8), program_id@)
                &&& pda_view(r@[i].chain) == program_address(chain_seeds(i as u8), program_id@)
                &&& pda_view(r@[i].chain_authority) == program_address(chain_authority_seeds(i as u8), program_id@)
            },
{
    let mut r: Vec<ChainAddresses> = Vec::new();
    let mut i: usize = 0;
    while i < TOTAL_CHAINS
        invariant
            0 <= i <= TOTAL_CHAINS,
            r@.len() == i,
            forall|j: int|
                0 <= j < i ==> {
                    &&& pda_view(#[trigger] r@[j].trigger_vault) == program_address(trigger_vault_seeds(j as u8), program_id@)
                    &&& pda_view(r@[j].chain) == program_address(chain_seeds(j as u8), program_id@)
                    &&& pda_view(r@[j].chain_authority) == program_address(chain_authority_seeds(j as u8), program_id@)
                },
        decreases TOTAL_CHAINS - i,
    {
        let chain_id = i as u8;
        r.push(ChainAddresses {
            trigger_vault: find_trigger_vault_pda(program_id, chain_id),
            chain: find_chain_pda(program_id, chain_id),
            chain_authority: find_chain_authority_pda(program_id, chain_id),
        });
        i = i + 1;
    }
    r
}

/// Initializes the protocol with the addresses derived from `program_id`.
pub fn handler(ctx: &mut InitializeProtocol, program_id: &Address, args: InitializeProtocolArgs) -> (r: Result<
    Vec<CpiStep>,
    ProgramFailure,
>)
    ensures
        exists|addresses: Seq<ChainAddresses>|
            {
                &&& addresses.len() == TOTAL_CHAINS
                &&& forall|i: int|
                    0 <= i < TOTAL_CHAINS ==> {
                        &&& pda_view(#[trigger] addresses[i].trigger_vault) == program_address(
                            trigger_vault_seeds(i as u8),
                            program_id@,
                        )
                        &&& pda_view(addresses[i].chain) == program_address(chain_seeds(i as u8), program_id@)
                        &&& pda_view(addresses[i].chain_authority) == program_address(
                            chain_authority_seeds(i as u8),
                            program_id@,
                        )
                    }
                &&& initialize_outcome(*old(ctx), args, addresses, *final(ctx), r)
            },
        r matches Ok(steps) && no_failure(steps@) ==> forall|i: int|
            0 <= i < TOTAL_CHAINS ==> #[trigger] final(ctx).chain_accounts@[i].well_formed(),
{
    let addresses = find_chain_addresses(program_id);
    process(ctx, args, &addresses)
}

} // verus!
