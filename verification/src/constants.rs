//! Protocol parameters, account seeds and program-derived-address lookups.
use crate::address::Address;
use vstd::prelude::*;

verus! {

pub const TOTAL_CHAINS: usize = 10;
pub const TOTAL_CHAINS_U8: u8 = 10;
pub const MAX_VALIDATORS: usize = 16;
pub const MAX_PAYOUTS_PER_CALL: usize = 10;
pub const EXPECTED_INITIALIZE_REMAINING_ACCOUNTS: usize = 20;
/// remaining_accounts[TRIGGER_VAULT_OFFSET .. TRIGGER_VAULT_OFFSET + TOTAL_CHAINS] are the trigger vaults.
pub const TRIGGER_VAULT_OFFSET: usize = 0;
/// remaining_accounts[CHAIN_ACCOUNT_OFFSET .. CHAIN_ACCOUNT_OFFSET + TOTAL_CHAINS] are the chain accounts.
pub const CHAIN_ACCOUNT_OFFSET: usize = 10;

pub const DEFAULT_FEE_BPS: u16 = 100;
pub const DEFAULT_FLAT_FEE_LAMPORTS: u64 = 10_000_000;
pub const DEFAULT_WITHDRAWAL_FEE_BPS: u16 = 100;
pub const DEFAULT_COOLDOWN_SECONDS: i64 = 300;
pub const DEFAULT_UNSTAKE_BATCH_SIZE: u8 = 5;
pub const DEFAULT_TRIGGER_REWARD_LAMPORTS: u64 = 10_000_000;
pub const MIN_ENTRY_LAMPORTS: u64 = 10_000_000;

pub const STAKE_SOURCE_TYPE_ENTRY: u8 = 0;
pub const STAKE_SOURCE_TYPE_DONATION: u8 = 1;
pub const STAKE_SOURCE_TYPE_COMPOUND: u8 = 2;

pub const BREAK_TYPE_NONE: u8 = 0;
pub const BREAK_TYPE_MANUAL: u8 = 1;
pub const BREAK_TYPE_COMMUNITY: u8 = 2;

/// The spread of each chain in basis points: chain `i` asks each entry to exceed the
/// previous one by `CHAIN_SPREADS_BPS[i] / 10_000` of it.
pub const CHAIN_SPREADS_BPS: [u32; TOTAL_CHAINS] = [
    500, 1000, 2500, 5000, 10000, 25000, 50000, 100000, 500000, 1000000,
];

/// The bytes of "global_config".
pub const GLOBAL_CONFIG_SEED: [u8; 13] = [103, 108, 111, 98, 97, 108, 95, 99, 111, 110, 102, 105, 103];
/// The bytes of "validator_registry".
pub const VALIDATOR_REGISTRY_SEED: [u8; 18] = [118, 97, 108, 105, 100, 97, 116, 111, 114, 95, 114, 101, 103, 105, 115, 116, 114, 121];
/// The bytes of "trigger_vault".
pub const TRIGGER_VAULT_SEED: [u8; 13] = [116, 114, 105, 103, 103, 101, 114, 95, 118, 97, 117, 108, 116];
/// The bytes of "chain".
pub const CHAIN_SEED: [u8; 5] = [99, 104, 97, 105, 110];
/// The bytes of "entry".
pub const ENTRY_SEED: [u8; 5] = [101, 110, 116, 114, 121];
/// The bytes of "stake_tracker".
pub const STAKE_TRACKER_SEED: [u8; 13] = [115, 116, 97, 107, 101, 95, 116, 114, 97, 99, 107, 101, 114];
/// The bytes of "donation".
pub const DONATION_SEED: [u8; 8] = [100, 111, 110, 97, 116, 105, 111, 110];
/// The bytes of "compound".
pub const COMPOUND_SEED: [u8; 8] = [99, 111, 109, 112, 111, 117, 110, 100];
/// The bytes of "chain_auth".
pub const CHAIN_AUTH_SEED: [u8; 10] = [99, 104, 97, 105, 110, 95, 97, 117, 116, 104];

/// The four little-endian bytes of a `u32`.
pub open spec fn u32_le_bytes(x: u32) -> Seq<u8> {
    seq![
        (x % 256) as u8,
        ((x / 256) % 256) as u8,
        ((x / 65536) % 256) as u8,
        (x / 16777216) as u8,
    ]
}

/// The two little-endian bytes of a `u16`.
pub open spec fn u16_le_bytes(x: u16) -> Seq<u8> {
    seq![(x % 256) as u8, (x / 256) as u8]
}

fn u32_to_le_bytes(x: u32) -> (r: Vec<u8>)
    ensures
        r@ == u32_le_bytes(x),
{
    let mut r: Vec<u8> = Vec::new();
    r.push((x % 256) as u8);
    r.push(((x / 256) % 256) as u8);
    r.push(((x / 65536) % 256) as u8);
    r.push((x / 16777216) as u8);
    assert(r@ =~= u32_le_bytes(x));
    r
}

fn u16_to_le_bytes(x: u16) -> (r: Vec<u8>)
    ensures
        r@ == u16_le_bytes(x),
{
    let mut r: Vec<u8> = Vec::new();
    r.push((x % 256) as u8);
    r.push((x / 256) as u8);
    assert(r@ =~= u16_le_bytes(x));
    r
}

fn seed_bytes(s: &[u8]) -> (r: Vec<u8>)
    ensures
        r@ == s@,
{
    let mut r: Vec<u8> = Vec::new();
    let mut i: usize = 0;
    while i < s.len()
        invariant
            0 <= i <= s@.len(),
            r@ == s@.subrange(0, i as int),
        decreases s.len() - i,
    {
        r.push(s[i]);
        i = i + 1;
    }
    assert(r@ =~= s@);
    r
}

fn single_byte(b: u8) -> (r: Vec<u8>)
    ensures
        r@ == seq![b],
{
    let mut r: Vec<u8> = Vec::new();
    r.push(b);
    assert(r@ =~= seq![b]);
    r
}

/// The address and bump that the runtime derives from `seeds` and `program_id`
/// (the first bump, counting down from 255, whose hash is off the curve), or `None`
/// where no bump gives one or the seeds break the runtime's limits.
pub uninterp spec fn program_address(seeds: Seq<Seq<u8>>, program_id: Seq<u8>) -> Option<(Seq<u8>, u8)>;

/// A list of seeds, each taken by its view.
pub open spec fn seeds_view(seeds: Seq<Vec<u8>>) -> Seq<Seq<u8>> {
    seeds.map_values(|s: Vec<u8>| s@)
}

/// An optional derived address, taken by its view.
pub open spec fn pda_view(r: Option<(Address, u8)>) -> Option<(Seq<u8>, u8)> {
    match r {
        Some(p) => Some((p.0@, p.1)),
        None => None,
    }
}

/// Calls `Pubkey::try_find_program_address`. Claimed: the result, taken by its view,
/// is `program_address` of the seeds and the program id. The hash search itself is
/// not stated; `program_address` only names its result.
#[verifier::external_body]
fn try_find_program_address(seeds: &Vec<Vec<u8>>, program_id: &Address) -> (r: Option<(Address, u8)>)
    ensures
        pda_view(r) == program_address(seeds_view(seeds@), program_id@),
{
    let seed_refs: Vec<&[u8]> = seeds.iter().map(|s| s.as_slice()).collect();
    let program = anchor_lang::prelude::Pubkey::new_from_array(program_id.bytes);
    anchor_lang::prelude::Pubkey::try_find_program_address(&seed_refs, &program)
        .map(|(key, bump)| (Address { bytes: key.to_bytes() }, bump))
}

/// The address alone of a derivation.
pub open spec fn pda_address(seeds: Seq<Seq<u8>>, program_id: Seq<u8>) -> Option<Seq<u8>> {
    match program_address(seeds, program_id) {
        Some(p) => Some(p.0),
        None => None,
    }
}

/// An optional address, taken by its view.
pub open spec fn opt_address_view(a: Option<Address>) -> Option<Seq<u8>> {
    match a {
        Some(k) => Some(k@),
        None => None,
    }
}

/// `key` is the derived address `expected`; never so when no address could be derived.
pub open spec fn key_matches(key: Seq<u8>, expected: Option<Seq<u8>>) -> bool {
    match expected {
        Some(k) => k == key,
        None => false,
    }
}

/// Whether `key` is the derived address `expected`.
pub fn matches_expected(key: &Address, expected: &Option<Address>) -> (r: bool)
    ensures
        r == key_matches(key@, opt_address_view(*expected)),
{
    match expected {
        Some(k) => k.equals(key),
        None => false,
    }
}

/// Drops the bump of a derivation.
pub fn derived_address(r: Option<(Address, u8)>) -> (a: Option<Address>)
    ensures
        opt_address_view(a) == match pda_view(r) {
            Some(p) => Some(p.0),
            None => None::<Seq<u8>>,
        },
{
    match r {
        Some(p) => Some(p.0),
        None => None,
    }
}

pub open spec fn global_config_seeds() -> Seq<Seq<u8>> {
    seq![GLOBAL_CONFIG_SEED@]
}

pub open spec fn validator_registry_seeds() -> Seq<Seq<u8>> {
    seq![VALIDATOR_REGISTRY_SEED@]
}

pub open spec fn trigger_vault_seeds(chain_id: u8) -> Seq<Seq<u8>> {
    seq![TRIGGER_VAULT_SEED@, seq![chain_id]]
}

pub open spec fn chain_seeds(chain_id: u8) -> Seq<Seq<u8>> {
    seq![CHAIN_SEED@, seq![chain_id]]
}

pub open spec fn entry_seeds(chain_id: u8, round: u32, position: u32) -> Seq<Seq<u8>> {
    seq![ENTRY_SEED@, seq![chain_id], u32_le_bytes(round), u32_le_bytes(position)]
}

pub open spec fn stake_tracker_seeds(
    chain_id: u8,
    round: u32,
    source_type: u8,
    source_index: u32,
) -> Seq<Seq<u8>> {
    seq![
        STAKE_TRACKER_SEED@,
        seq![chain_id],
        u32_le_bytes(round),
        seq![source_type],
        u32_le_bytes(source_index),
    ]
}

pub open spec fn donation_record_seeds(chain_id: u8, round: u32, donation_index: u16) -> Seq<Seq<u8>> {
    seq![DONATION_SEED@, seq![chain_id], u32_le_bytes(round), u16_le_bytes(donation_index)]
}

pub open spec fn compound_record_seeds(chain_id: u8, round: u32, compound_index: u16) -> Seq<Seq<u8>> {
    seq![COMPOUND_SEED@, seq![chain_id], u32_le_bytes(round), u16_le_bytes(compound_index)]
}

pub open spec fn chain_authority_seeds(chain_id: u8) -> Seq<Seq<u8>> {
    seq![CHAIN_AUTH_SEED@, seq![chain_id]]
}

/// The global configuration account's address.
/// `None` where no bump gives an address, where `Pubkey::find_program_address` would
/// panic; an account key never matches a missing address.
pub fn find_global_config_pda(program_id: &Address) -> (r: Option<(Address, u8)>)
    ensures
        pda_view(r) == program_address(global_config_seeds(), program_id@),
{
    let mut seeds: Vec<Vec<u8>> = Vec::new();
    seeds.push(seed_bytes(GLOBAL_CONFIG_SEED.as_slice()));
    assert(seeds_view(seeds@) =~= global_config_seeds());
    try_find_program_address(&seeds, program_id)
}

/// The validator registry's address.
/// `None` where no bump gives an address, where `Pubkey::find_program_address` would
/// panic; an account key never matches a missing address.
pub fn find_validator_registry_pda(program_id: &Address) -> (r: Option<(Address, u8)>)
    ensures
        pda_view(r) == program_address(validator_registry_seeds(), program_id@),
{
    let mut seeds: Vec<Vec<u8>> = Vec::new();
    seeds.push(seed_bytes(VALIDATOR_REGISTRY_SEED.as_slice()));
    assert(seeds_view(seeds@) =~= validator_registry_seeds());
    try_find_program_address(&seeds, program_id)
}

/// The trigger vault of chain `chain_id`.
/// `None` where no bump gives an address, where `Pubkey::find_program_address` would
/// panic; an account key never matches a missing address.
pub fn find_trigger_vault_pda(program_id: &Address, chain_id: u8) -> (r: Option<(Address, u8)>)
    ensures
        pda_view(r) == program_address(trigger_vault_seeds(chain_id), program_id@),
{
    let mut seeds: Vec<Vec<u8>> = Vec::new();
    seeds.push(seed_bytes(TRIGGER_VAULT_SEED.as_slice()));
    seeds.push(single_byte(chain_id));
    assert(seeds_view(seeds@) =~= trigger_vault_seeds(chain_id));
    try_find_program_address(&seeds, program_id)
}

/// The chain account of chain `chain_id`.
/// `None` where no bump gives an address, where `Pubkey::find_program_address` would
/// panic; an account key never matches a missing address.
pub fn find_chain_pda(program_id: &Address, chain_id: u8) -> (r: Option<(Address, u8)>)
    ensures
        pda_view(r) == program_address(chain_seeds(chain_id), program_id@),
{
    let mut seeds: Vec<Vec<u8>> = Vec::new();
    seeds.push(seed_bytes(CHAIN_SEED.as_slice()));
    seeds.push(single_byte(chain_id));
    assert(seeds_view(seeds@) =~= chain_seeds(chain_id));
    try_find_program_address(&seeds, program_id)
}

/// The entry at `position` of round `round` on chain `chain_id`.
/// `None` where no bump gives an address, where `Pubkey::find_program_address` would
/// panic; an account key never matches a missing address.
pub fn find_entry_pda(program_id: &Address, chain_id: u8, round: u32, position: u32) -> (r: Option<(Address, u8)>)
    ensures
        pda_view(r) == program_address(entry_seeds(chain_id, round, position), program_id@),
{
    let mut seeds: Vec<Vec<u8>> = Vec::new();
    seeds.push(seed_bytes(ENTRY_SEED.as_slice()));
    seeds.push(single_byte(chain_id));
    seeds.push(u32_to_le_bytes(round));
    seeds.push(u32_to_le_bytes(position));
    assert(seeds_view(seeds@) =~= entry_seeds(chain_id, round, position));
    try_find_program_address(&seeds, program_id)
}

/// The stake tracker of a stake of kind `source_type` with index `source_index`.
/// `None` where no bump gives an address, where `Pubkey::find_program_address` would
/// panic; an account key never matches a missing address.
pub fn find_stake_tracker_pda(
    program_id: &Address,
    chain_id: u8,
    round: u32,
    source_type: u8,
    source_index: u32,
) -> (r: Option<(Address, u8)>)
    ensures
        pda_view(r) == program_address(
            stake_tracker_seeds(chain_id, round, source_type, source_index),
            program_id@,
        ),
{
    let mut seeds: Vec<Vec<u8>> = Vec::new();
    seeds.push(seed_bytes(STAKE_TRACKER_SEED.as_slice()));
    seeds.push(single_byte(chain_id));
    seeds.push(u32_to_le_bytes(round));
    seeds.push(single_byte(source_type));
    seeds.push(u32_to_le_bytes(source_index));
    assert(seeds_view(seeds@) =~= stake_tracker_seeds(chain_id, round, source_type, source_index));
    try_find_program_address(&seeds, program_id)
}

/// The record of donation `donation_index` of a round.
/// `None` where no bump gives an address, where `Pubkey::find_program_address` would
/// panic; an account key never matches a missing address.
pub fn find_donation_record_pda(
    program_id: &Address,
    chain_id: u8,
    round: u32,
    donation_index: u16,
) -> (r: Option<(Address, u8)>)
    ensures
        pda_view(r) == program_address(
            donation_record_seeds(chain_id, round, donation_index),
            program_id@,
        ),
{
    let mut seeds: Vec<Vec<u8>> = Vec::new();
    seeds.push(seed_bytes(DONATION_SEED.as_slice()));
    seeds.push(single_byte(chain_id));
    seeds.push(u32_to_le_bytes(round));
    seeds.push(u16_to_le_bytes(donation_index));
    assert(seeds_view(seeds@) =~= donation_record_seeds(chain_id, round, donation_index));
    try_find_program_address(&seeds, program_id)
}

/// The record of compound `compound_index` of a round.
/// `None` where no bump gives an address, where `Pubkey::find_program_address` would
/// panic; an account key never matches a missing address.
pub fn find_compound_record_pda(
    program_id: &Address,
    chain_id: u8,
    round: u32,
    compound_index: u16,
) -> (r: Option<(Address, u8)>)
    ensures
        pda_view(r) == program_address(
            compound_record_seeds(chain_id, round, compound_index),
            program_id@,
        ),
{
    let mut seeds: Vec<Vec<u8>> = Vec::new();
    seeds.push(seed_bytes(COMPOUND_SEED.as_slice()));
    seeds.push(single_byte(chain_id));
    seeds.push(u32_to_le_bytes(round));
    seeds.push(u16_to_le_bytes(compound_index));
    assert(seeds_view(seeds@) =~= compound_record_seeds(chain_id, round, compound_index));
    try_find_program_address(&seeds, program_id)
}

/// The authority that signs for the stake accounts of chain `chain_id`.
/// `None` where no bump gives an address, where `Pubkey::find_program_address` would
/// panic; an account key never matches a missing address.
pub fn find_chain_authority_pda(program_id: &Address, chain_id: u8) -> (r: Option<(Address, u8)>)
    ensures
        pda_view(r) == program_address(chain_authority_seeds(chain_id), program_id@),
{
    let mut seeds: Vec<Vec<u8>> = Vec::new();
    seeds.push(seed_bytes(CHAIN_AUTH_SEED.as_slice()));
    seeds.push(single_byte(chain_id));
    assert(seeds_view(seeds@) =~= chain_authority_seeds(chain_id));
    try_find_program_address(&seeds, program_id)
}

/// The signer seeds of a chain authority, whose bump is derived on demand whenever a
/// stake-program call needs them (the authority has no account of its own).
#[derive(Clone, Copy, Debug)]
pub struct ChainAuthoritySigner {
    chain_id: [u8; 1],
    bump: [u8; 1],
}

impl View for ChainAuthoritySigner {
    type V = (u8, u8);

    closed spec fn view(&self) -> (u8, u8) {
        (self.chain_id@[0], self.bump@[0])
    }
}

impl ChainAuthoritySigner {
    pub fn new(chain_id: u8, bump: u8) -> (s: Self)
        ensures
            s@ == (chain_id, bump),
    {
        Self { chain_id: [chain_id], bump: [bump] }
    }

    /// `[b"chain_auth", [chain_id], [bump]]`.
    pub fn signer_seeds(&self) -> (seeds: [&[u8]; 3])
        ensures
            seeds@[0]@ == CHAIN_AUTH_SEED@,
            seeds@[1]@ == seq![self@.0],
            seeds@[2]@ == seq![self@.1],
    {
        [CHAIN_AUTH_SEED.as_slice(), &self.chain_id, &self.bump]
    }
}

} // verus!
