//! Initialize: checks the accounts and the program-derived address of a new
//! account, says how to create it, and lays out its data once created.
//!
//! Instruction data: [0] tag 0x00, [1] account type, [2] bump seed, then
//! the arena type ([3]) or the slab type and slab index ([3], [4]).
//!
//! Creating the account is a cross-program call that the caller makes with
//! the returned `CreateAccountPlan`: payer `accounts[0]`, new account
//! `accounts[1]`, `space` bytes, owned by the program, signed with `seeds`.
use vstd::prelude::*;
use crate::le::{le_u32, lemma_put_u32, put_u32};
use crate::program::account::{same_address, seeds_view, Account};
use crate::program::error::IncognitusError;
use crate::program::instructions::{
    ACCOUNT_TYPE_ARENA_ALLOCATOR, ACCOUNT_TYPE_ASSET_BALANCE_LEDGER,
    ACCOUNT_TYPE_ASSET_ORDER_STATUS, ACCOUNT_TYPE_MARKET_CONFIG, ACCOUNT_TYPE_SLAB_ALLOCATOR,
};
use crate::program::processor::Instruction;
use crate::trie_children::slab_sequential;
use crate::program::pda::{derive_address, derived_address, seed_bytes};
use crate::program::state::{
    arena_allocator, asset_balance_ledger, asset_order_status, market_config, read_discriminator,
    slab_allocator, write_discriminator, INITIAL_ACCOUNT_SIZE,
};
use vstd::slice::slice_to_vec;

verus! {

/// The initialize instruction that `data` encodes: the account type at
/// [1], the bump seed at [2], and the arena type at [3] or the slab type
/// and index at [3] and [4].
pub open spec fn decoded(data: Seq<u8>) -> Result<Instruction, IncognitusError> {
    if data.len() < 3 {
        Err(IncognitusError::InstructionDataTooShort)
    } else if data[1] == ACCOUNT_TYPE_MARKET_CONFIG {
        Ok(Instruction::InitializeMarketConfig { bump: data[2] })
    } else if data[1] == ACCOUNT_TYPE_ASSET_ORDER_STATUS {
        Ok(Instruction::InitializeAssetOrderStatus { bump: data[2] })
    } else if data[1] == ACCOUNT_TYPE_ASSET_BALANCE_LEDGER {
        Ok(Instruction::InitializeAssetBalanceLedger { bump: data[2] })
    } else if data[1] == ACCOUNT_TYPE_ARENA_ALLOCATOR {
        if data.len() < 4 {
            Err(IncognitusError::InstructionDataTooShort)
        } else {
            Ok(Instruction::InitializeArenaAllocator { bump: data[2], arena_type: data[3] })
        }
    } else if data[1] == ACCOUNT_TYPE_SLAB_ALLOCATOR {
        if data.len() < 5 {
            Err(IncognitusError::InstructionDataTooShort)
        } else {
            Ok(Instruction::InitializeSlabAllocator { bump: data[2], slab_type: data[3], slab_index: data[4] })
        }
    } else {
        Err(IncognitusError::InvalidInstruction)
    }
}

/// Decodes initialize instruction data (see `decoded`).
pub fn decode(instruction_data: &[u8]) -> (r: Result<Instruction, IncognitusError>)
    ensures
        r == decoded(instruction_data@),
{
    if instruction_data.len() < 3 {
        return Err(IncognitusError::InstructionDataTooShort);
    }
    let account_type = instruction_data[1];
    let bump = instruction_data[2];
    if account_type == ACCOUNT_TYPE_MARKET_CONFIG {
        Ok(Instruction::InitializeMarketConfig { bump })
    } else if account_type == ACCOUNT_TYPE_ASSET_ORDER_STATUS {
        Ok(Instruction::InitializeAssetOrderStatus { bump })
    } else if account_type == ACCOUNT_TYPE_ASSET_BALANCE_LEDGER {
        Ok(Instruction::InitializeAssetBalanceLedger { bump })
    } else if account_type == ACCOUNT_TYPE_ARENA_ALLOCATOR {
        if instruction_data.len() < 4 {
            return Err(IncognitusError::InstructionDataTooShort);
        }
        Ok(Instruction::InitializeArenaAllocator { bump, arena_type: instruction_data[3] })
    } else if account_type == ACCOUNT_TYPE_SLAB_ALLOCATOR {
        if instruction_data.len() < 5 {
            return Err(IncognitusError::InstructionDataTooShort);
        }
        Ok(Instruction::InitializeSlabAllocator { bump, slab_type: instruction_data[3], slab_index: instruction_data[4] })
    } else {
        Err(IncognitusError::InvalidInstruction)
    }
}

/// How to create the new account: its size and the signer seeds of its
/// address (the bump seed last).
pub struct CreateAccountPlan {
    pub space: u64,
    pub seeds: Vec<Vec<u8>>,
}

/// The market-config account check shared by the initializers that need
/// one: owned by the program, long enough, and marked as a market config.
pub open spec fn market_config_error(program_id: Seq<u8>, mc: Account) -> Option<IncognitusError> {
    if mc.owner@ != program_id {
        Some(IncognitusError::InvalidOwner)
    } else if mc.data@.len() < 4 {
        Some(IncognitusError::NotInitialized)
    } else if le_u32(mc.data@, 0) != market_config::DISCRIMINATOR {
        Some(IncognitusError::InvalidDiscriminator)
    } else {
        None
    }
}

fn check_market_config(program_id: &[u8; 32], mc: &Account) -> (r: Result<(), IncognitusError>)
    ensures
        r is Err <==> market_config_error(program_id@, *mc) is Some,
        r matches Err(e) ==> market_config_error(program_id@, *mc) == Some(e),
{
    if !same_address(&mc.owner, program_id) {
        return Err(IncognitusError::InvalidOwner);
    }
    if mc.data.len() < 4 {
        return Err(IncognitusError::NotInitialized);
    }
    let mc_disc = read_discriminator(mc.data.as_slice());
    if mc_disc != market_config::DISCRIMINATOR {
        return Err(IncognitusError::InvalidDiscriminator);
    }
    Ok(())
}

/// Where the checks of a new PDA account end: the address must be the one
/// derived from `seeds`, and the account must be empty.
pub open spec fn new_account_error(target: Account, seeds: Seq<Seq<u8>>, bump: u8, program_id: Seq<u8>) -> Option<IncognitusError> {
    if target.address@ != derived_address(seeds, bump, program_id) {
        Some(IncognitusError::InvalidPda)
    } else if target.data@.len() > 0 {
        Some(IncognitusError::AlreadyInitialized)
    } else {
        None
    }
}

/// The outcome of `initialize_market_config`: the first failing check.
/// Accounts: [0] payer (signer), [1] market config (PDA), [2] base mint,
/// [3] quote mint, [4] system program.
pub open spec fn market_config_init_error(program_id: Seq<u8>, a: Seq<Account>, bump: u8) -> Option<IncognitusError> {
    if a.len() < 5 {
        Some(IncognitusError::WrongNumberOfAccounts)
    } else if !a[0].is_signer {
        Some(IncognitusError::MissingRequiredSigner)
    } else {
        new_account_error(a[1], seq![market_config::SEED_PREFIX@, a[2].address@, a[3].address@], bump, program_id)
    }
}

/// Checks the accounts for a new MarketConfig and says how to create it.
pub fn initialize_market_config(program_id: &[u8; 32], accounts: &[Account], bump: u8) -> (r: Result<CreateAccountPlan, IncognitusError>)
    ensures
        r is Err <==> market_config_init_error(program_id@, accounts@, bump) is Some,
        r matches Err(e) ==> market_config_init_error(program_id@, accounts@, bump) == Some(e),
        r matches Ok(p) ==> p.space == market_config::MIN_DATA_LEN && seeds_view(p.seeds@) == seq![
            market_config::SEED_PREFIX@,
            accounts@[2].address@,
            accounts@[3].address@,
            seq![bump],
        ],
{
    if accounts.len() < 5 {
        return Err(IncognitusError::WrongNumberOfAccounts);
    }
    if !accounts[0].is_signer {
        return Err(IncognitusError::MissingRequiredSigner);
    }
    let prefix = market_config::SEED_PREFIX;
    let base = accounts[2].address;
    let quote = accounts[3].address;
    let seeds: [&[u8]; 3] = [prefix.as_slice(), base.as_slice(), quote.as_slice()];
    let expected = derive_address(&seeds, bump, program_id);
    proof {
        assert(seed_bytes(&seeds) =~= seq![prefix@, base@, quote@]);
    }
    if !same_address(&accounts[1].address, &expected) {
        return Err(IncognitusError::InvalidPda);
    }
    if accounts[1].data.len() > 0 {
        return Err(IncognitusError::AlreadyInitialized);
    }
    let bump_bytes = [bump];
    assert(bump_bytes@ =~= seq![bump]);
    let mut seeds: Vec<Vec<u8>> = Vec::new();
    seeds.push(slice_to_vec(prefix.as_slice()));
    seeds.push(slice_to_vec(base.as_slice()));
    seeds.push(slice_to_vec(quote.as_slice()));
    seeds.push(slice_to_vec(bump_bytes.as_slice()));
    proof {
        assert(seeds_view(seeds@) =~= seq![prefix@, base@, quote@, seq![bump]]);
    }
    Ok(CreateAccountPlan { space: market_config::MIN_DATA_LEN as u64, seeds })
}

/// The outcome of `initialize_asset_order_status`.  Accounts: [0] payer
/// (signer), [1] asset order status (PDA), [2] market config, [3] owner
/// (signer), [4] ledger, [5] system program.
pub open spec fn asset_order_status_init_error(program_id: Seq<u8>, a: Seq<Account>, bump: u8) -> Option<IncognitusError> {
    if a.len() < 6 {
        Some(IncognitusError::WrongNumberOfAccounts)
    } else if !a[0].is_signer || !a[3].is_signer {
        Some(IncognitusError::MissingRequiredSigner)
    } else if market_config_error(program_id, a[2]) is Some {
        market_config_error(program_id, a[2])
    } else {
        new_account_error(
            a[1],
            seq![asset_order_status::SEED_PREFIX@, a[2].address@, a[3].address@, a[4].address@],
            bump,
            program_id,
        )
    }
}

/// Checks the accounts for a new AssetOrderStatus and says how to create it.
pub fn initialize_asset_order_status(program_id: &[u8; 32], accounts: &[Account], bump: u8) -> (r: Result<CreateAccountPlan, IncognitusError>)
    ensures
        r is Err <==> asset_order_status_init_error(program_id@, accounts@, bump) is Some,
        r matches Err(e) ==> asset_order_status_init_error(program_id@, accounts@, bump) == Some(e),
        r matches Ok(p) ==> p.space == asset_order_status::MIN_DATA_LEN && seeds_view(p.seeds@) == seq![
            asset_order_status::SEED_PREFIX@,
            accounts@[2].address@,
            accounts@[3].address@,
            accounts@[4].address@,
            seq![bump],
        ],
{
    if accounts.len() < 6 {
        return Err(IncognitusError::WrongNumberOfAccounts);
    }
    if !accounts[0].is_signer {
        return Err(IncognitusError::MissingRequiredSigner);
    }
    if !accounts[3].is_signer {
        return Err(IncognitusError::MissingRequiredSigner);
    }
    match check_market_config(program_id, &accounts[2]) {
        Err(e) => return Err(e),
        Ok(()) => {},
    }
    let prefix = asset_order_status::SEED_PREFIX;
    let mc = accounts[2].address;
    let owner = accounts[3].address;
    let ledger = accounts[4].address;
    let seeds: [&[u8]; 4] = [prefix.as_slice(), mc.as_slice(), owner.as_slice(), ledger.as_slice()];
    let expected = derive_address(&seeds, bump, program_id);
    proof {
        assert(seed_bytes(&seeds) =~= seq![prefix@, mc@, owner@, ledger@]);
    }
    if !same_address(&accounts[1].address, &expected) {
        return Err(IncognitusError::InvalidPda);
    }
    if accounts[1].data.len() > 0 {
        return Err(IncognitusError::AlreadyInitialized);
    }
    let bump_bytes = [bump];
    assert(bump_bytes@ =~= seq![bump]);
    let mut seeds: Vec<Vec<u8>> = Vec::new();
    seeds.push(slice_to_vec(prefix.as_slice()));
    seeds.push(slice_to_vec(mc.as_slice()));
    seeds.push(slice_to_vec(owner.as_slice()));
    seeds.push(slice_to_vec(ledger.as_slice()));
    seeds.push(slice_to_vec(bump_bytes.as_slice()));
    proof {
        assert(seeds_view(seeds@) =~= seq![prefix@, mc@, owner@, ledger@, seq![bump]]);
    }
    Ok(CreateAccountPlan { space: asset_order_status::MIN_DATA_LEN as u64, seeds })
}

/// The outcome of `initialize_asset_balance_ledger`.  Accounts: [0] payer
/// (signer), [1] ledger (PDA), [2] owner (signer), [3] system program.
pub open spec fn asset_balance_ledger_init_error(program_id: Seq<u8>, a: Seq<Account>, bump: u8) -> Option<IncognitusError> {
    if a.len() < 4 {
        Some(IncognitusError::WrongNumberOfAccounts)
    } else if !a[0].is_signer || !a[2].is_signer {
        Some(IncognitusError::MissingRequiredSigner)
    } else {
        new_account_error(a[1], seq![asset_balance_ledger::SEED_PREFIX@, a[2].address@], bump, program_id)
    }
}

/// Checks the accounts for a new AssetBalanceLedger and says how to create it.
pub fn initialize_asset_balance_ledger(program_id: &[u8; 32], accounts: &[Account], bump: u8) -> (r: Result<CreateAccountPlan, IncognitusError>)
    ensures
        r is Err <==> asset_balance_ledger_init_error(program_id@, accounts@, bump) is Some,
        r matches Err(e) ==> asset_balance_ledger_init_error(program_id@, accounts@, bump) == Some(e),
        r matches Ok(p) ==> p.space == asset_balance_ledger::MIN_DATA_LEN && seeds_view(p.seeds@) == seq![
            asset_balance_ledger::SEED_PREFIX@,
            accounts@[2].address@,
            seq![bump],
        ],
{
    if accounts.len() < 4 {
        return Err(IncognitusError::WrongNumberOfAccounts);
    }
    if !accounts[0].is_signer {
        return Err(IncognitusError::MissingRequiredSigner);
    }
    if !accounts[2].is_signer {
        return Err(IncognitusError::MissingRequiredSigner);
    }
    let prefix = asset_balance_ledger::SEED_PREFIX;
    let owner = accounts[2].address;
    let seeds: [&[u8]; 2] = [prefix.as_slice(), owner.as_slice()];
    let expected = derive_address(&seeds, bump, program_id);
    proof {
        assert(seed_bytes(&seeds) =~= seq![prefix@, owner@]);
    }
    if !same_address(&accounts[1].address, &expected) {
        return Err(IncognitusError::InvalidPda);
    }
    if accounts[1].data.len() > 0 {
        return Err(IncognitusError::AlreadyInitialized);
    }
    let bump_bytes = [bump];
    assert(bump_bytes@ =~= seq![bump]);
    let mut seeds: Vec<Vec<u8>> = Vec::new();
    seeds.push(slice_to_vec(prefix.as_slice()));
    seeds.push(slice_to_vec(owner.as_slice()));
    seeds.push(slice_to_vec(bump_bytes.as_slice()));
    proof {
        assert(seeds_view(seeds@) =~= seq![prefix@, owner@, seq![bump]]);
    }
    Ok(CreateAccountPlan { space: asset_balance_ledger::MIN_DATA_LEN as u64, seeds })
}

/// Whether `t` is one of the three arena types.
pub open spec fn is_arena_type(t: u8) -> bool {
    t == arena_allocator::ARENA_TYPE_AGGREGATE || t == arena_allocator::ARENA_TYPE_LIMIT_ORDER_QUEUE
        || t == arena_allocator::ARENA_TYPE_MARKET_ORDER_QUEUE
}

/// The outcome of `initialize_arena_allocator`.  Accounts: [0] payer
/// (signer), [1] arena (PDA), [2] market config, [3] system program.
pub open spec fn arena_init_error(program_id: Seq<u8>, a: Seq<Account>, bump: u8, arena_type: u8) -> Option<IncognitusError> {
    if a.len() < 4 {
        Some(IncognitusError::WrongNumberOfAccounts)
    } else if !a[0].is_signer {
        Some(IncognitusError::MissingRequiredSigner)
    } else if market_config_error(program_id, a[2]) is Some {
        market_config_error(program_id, a[2])
    } else if !is_arena_type(arena_type) {
        Some(IncognitusError::InvalidInstruction)
    } else {
        new_account_error(a[1], seq![arena_allocator::SEED_PREFIX@, a[2].address@, seq![arena_type]], bump, program_id)
    }
}

/// Checks the accounts for a new ArenaAllocator and says how to create it.
pub fn initialize_arena_allocator(program_id: &[u8; 32], accounts: &[Account], bump: u8, arena_type: u8) -> (r: Result<CreateAccountPlan, IncognitusError>)
    ensures
        r is Err <==> arena_init_error(program_id@, accounts@, bump, arena_type) is Some,
        r matches Err(e) ==> arena_init_error(program_id@, accounts@, bump, arena_type) == Some(e),
        r matches Ok(p) ==> p.space == INITIAL_ACCOUNT_SIZE && seeds_view(p.seeds@) == seq![
            arena_allocator::SEED_PREFIX@,
            accounts@[2].address@,
            seq![arena_type],
            seq![bump],
        ],
{
    if accounts.len() < 4 {
        return Err(IncognitusError::WrongNumberOfAccounts);
    }
    if !accounts[0].is_signer {
        return Err(IncognitusError::MissingRequiredSigner);
    }
    match check_market_config(program_id, &accounts[2]) {
        Err(e) => return Err(e),
        Ok(()) => {},
    }
    if !(arena_type == arena_allocator::ARENA_TYPE_AGGREGATE || arena_type
        == arena_allocator::ARENA_TYPE_LIMIT_ORDER_QUEUE || arena_type
        == arena_allocator::ARENA_TYPE_MARKET_ORDER_QUEUE) {
        return Err(IncognitusError::InvalidInstruction);
    }
    let prefix = arena_allocator::SEED_PREFIX;
    let mc = accounts[2].address;
    let type_bytes = [arena_type];
    assert(type_bytes@ =~= seq![arena_type]);
    let seeds: [&[u8]; 3] = [prefix.as_slice(), mc.as_slice(), type_bytes.as_slice()];
    let expected = derive_address(&seeds, bump, program_id);
    proof {
        assert(seed_bytes(&seeds) =~= seq![prefix@, mc@, seq![arena_type]]);
    }
    if !same_address(&accounts[1].address, &expected) {
        return Err(IncognitusError::InvalidPda);
    }
    if accounts[1].data.len() > 0 {
        return Err(IncognitusError::AlreadyInitialized);
    }
    let bump_bytes = [bump];
    assert(bump_bytes@ =~= seq![bump]);
    let mut seeds: Vec<Vec<u8>> = Vec::new();
    seeds.push(slice_to_vec(prefix.as_slice()));
    seeds.push(slice_to_vec(mc.as_slice()));
    seeds.push(slice_to_vec(type_bytes.as_slice()));
    seeds.push(slice_to_vec(bump_bytes.as_slice()));
    proof {
        assert(seeds_view(seeds@) =~= seq![prefix@, mc@, seq![arena_type], seq![bump]]);
    }
    Ok(CreateAccountPlan { space: INITIAL_ACCOUNT_SIZE, seeds })
}

/// Whether `t` is one of the nine slab types.
pub open spec fn is_slab_type(t: u8) -> bool {
    (0x10 <= t <= 0x13) || (0x20 <= t <= 0x24)
}

/// The outcome of `initialize_slab_allocator`.  Accounts: [0] payer
/// (signer), [1] slab (PDA), [2] market config, [3] system program.
pub open spec fn slab_init_error(program_id: Seq<u8>, a: Seq<Account>, bump: u8, slab_type: u8, slab_index: u8) -> Option<IncognitusError> {
    if a.len() < 4 {
        Some(IncognitusError::WrongNumberOfAccounts)
    } else if !a[0].is_signer {
        Some(IncognitusError::MissingRequiredSigner)
    } else if market_config_error(program_id, a[2]) is Some {
        market_config_error(program_id, a[2])
    } else if !is_slab_type(slab_type) {
        Some(IncognitusError::InvalidInstruction)
    } else {
        new_account_error(
            a[1],
            seq![slab_allocator::SEED_PREFIX@, a[2].address@, seq![slab_type], seq![slab_index]],
            bump,
            program_id,
        )
    }
}

/// Checks the accounts for a new SlabAllocator and says how to create it.
pub fn initialize_slab_allocator(program_id: &[u8; 32], accounts: &[Account], bump: u8, slab_type: u8, slab_index: u8) -> (r: Result<CreateAccountPlan, IncognitusError>)
    ensures
        r is Err <==> slab_init_error(program_id@, accounts@, bump, slab_type, slab_index) is Some,
        r matches Err(e) ==> slab_init_error(program_id@, accounts@, bump, slab_type, slab_index) == Some(e),
        r matches Ok(p) ==> p.space == INITIAL_ACCOUNT_SIZE && seeds_view(p.seeds@) == seq![
            slab_allocator::SEED_PREFIX@,
            accounts@[2].address@,
            seq![slab_type],
            seq![slab_index],
            seq![bump],
        ],
{
    if accounts.len() < 4 {
        return Err(IncognitusError::WrongNumberOfAccounts);
    }
    if !accounts[0].is_signer {
        return Err(IncognitusError::MissingRequiredSigner);
    }
    match check_market_config(program_id, &accounts[2]) {
        Err(e) => return Err(e),
        Ok(()) => {},
    }
    if !(slab_type == slab_allocator::SLAB_TYPE_PRICE_TREE || slab_type
        == slab_allocator::SLAB_TYPE_PRICE_STATUS_NODE || slab_type
        == slab_allocator::SLAB_TYPE_ORDER_BLOCK_NODE || slab_type
        == slab_allocator::SLAB_TYPE_ORDER_BLOCK_LINKED_NODE || slab_type
        == slab_allocator::SLAB_TYPE_LEDGER_STATUS || slab_type
        == slab_allocator::SLAB_TYPE_ORDER_ENTRY_STATUS || slab_type
        == slab_allocator::SLAB_TYPE_ENTRY_STATUS || slab_type
        == slab_allocator::SLAB_TYPE_ORDER_ENTRY_STATUS_LINKED || slab_type
        == slab_allocator::SLAB_TYPE_ENTRY_STATUS_LINKED) {
        return Err(IncognitusError::InvalidInstruction);
    }
    let prefix = slab_allocator::SEED_PREFIX;
    let mc = accounts[2].address;
    let type_bytes = [slab_type];
    let index_bytes = [slab_index];
    assert(type_bytes@ =~= seq![slab_type]);
    assert(index_bytes@ =~= seq![slab_index]);
    let seeds: [&[u8]; 4] = [prefix.as_slice(), mc.as_slice(), type_bytes.as_slice(), index_bytes.as_slice()];
    let expected = derive_address(&seeds, bump, program_id);
    proof {
        assert(seed_bytes(&seeds) =~= seq![prefix@, mc@, seq![slab_type], seq![slab_index]]);
    }
    if !same_address(&accounts[1].address, &expected) {
        return Err(IncognitusError::InvalidPda);
    }
    if accounts[1].data.len() > 0 {
        return Err(IncognitusError::AlreadyInitialized);
    }
    let bump_bytes = [bump];
    assert(bump_bytes@ =~= seq![bump]);
    let mut seeds: Vec<Vec<u8>> = Vec::new();
    seeds.push(slice_to_vec(prefix.as_slice()));
    seeds.push(slice_to_vec(mc.as_slice()));
    seeds.push(slice_to_vec(type_bytes.as_slice()));
    seeds.push(slice_to_vec(index_bytes.as_slice()));
    seeds.push(slice_to_vec(bump_bytes.as_slice()));
    proof {
        assert(seeds_view(seeds@) =~= seq![prefix@, mc@, seq![slab_type], seq![slab_index], seq![bump]]);
    }
    Ok(CreateAccountPlan { space: INITIAL_ACCOUNT_SIZE, seeds })
}

/// Lays out a new market-config account: its discriminator in the first
/// four bytes; the rest is left as it is.
pub fn write_market_config_header(data: &mut [u8])
    requires
        old(data)@.len() >= 4,
    ensures
        final(data)@ == put_u32(old(data)@, 0, market_config::DISCRIMINATOR),
        le_u32(final(data)@, 0) == market_config::DISCRIMINATOR,
        final(data)@.len() == old(data)@.len(),
        forall|i: int| 4 <= i < old(data)@.len() ==> final(data)@[i] == old(data)@[i],
{
    proof {
        lemma_put_u32(data@, 0, market_config::DISCRIMINATOR);
    }
    write_discriminator(data, market_config::DISCRIMINATOR);
}

/// Lays out a new asset-order-status account: its discriminator in the
/// first four bytes; the rest is left as it is.
pub fn write_asset_order_status_header(data: &mut [u8])
    requires
        old(data)@.len() >= 4,
    ensures
        final(data)@ == put_u32(old(data)@, 0, asset_order_status::DISCRIMINATOR),
        le_u32(final(data)@, 0) == asset_order_status::DISCRIMINATOR,
        final(data)@.len() == old(data)@.len(),
        forall|i: int| 4 <= i < old(data)@.len() ==> final(data)@[i] == old(data)@[i],
{
    proof {
        lemma_put_u32(data@, 0, asset_order_status::DISCRIMINATOR);
    }
    write_discriminator(data, asset_order_status::DISCRIMINATOR);
}

/// Lays out a new asset-balance-ledger account: its discriminator in the
/// first four bytes; the rest is left as it is.
pub fn write_asset_balance_ledger_header(data: &mut [u8])
    requires
        old(data)@.len() >= 4,
    ensures
        final(data)@ == put_u32(old(data)@, 0, asset_balance_ledger::DISCRIMINATOR),
        le_u32(final(data)@, 0) == asset_balance_ledger::DISCRIMINATOR,
        final(data)@.len() == old(data)@.len(),
        forall|i: int| 4 <= i < old(data)@.len() ==> final(data)@[i] == old(data)@[i],
{
    proof {
        lemma_put_u32(data@, 0, asset_balance_ledger::DISCRIMINATOR);
    }
    write_discriminator(data, asset_balance_ledger::DISCRIMINATOR);
}

/// Lays out a new arena account: discriminator, write and read offsets at
/// the end of the header, capacity of the rest of the initial 10 KiB, flags
/// and reserved word zero.  The remaining bytes are left as they are.
pub fn write_arena_allocator_header(data: &mut [u8])
    requires
        old(data)@.len() >= arena_allocator::HEADER_SIZE,
    ensures
        final(data)@.len() == old(data)@.len(),
        le_u32(final(data)@, 0) == arena_allocator::DISCRIMINATOR,
        le_u32(final(data)@, 4) == arena_allocator::HEADER_SIZE,
        le_u32(final(data)@, 8) == arena_allocator::HEADER_SIZE,
        le_u32(final(data)@, 12) == INITIAL_ACCOUNT_SIZE - arena_allocator::HEADER_SIZE,
        le_u32(final(data)@, 16) == 0,
        le_u32(final(data)@, 20) == 0,
        forall|i: int| 24 <= i < old(data)@.len() ==> final(data)@[i] == old(data)@[i],
{
    let ghost d0 = data@;
    write_discriminator(data, arena_allocator::DISCRIMINATOR);
    let ghost d1 = data@;
    crate::le::write_u32(data, 4, arena_allocator::HEADER_SIZE as u32);
    let ghost d2 = data@;
    crate::le::write_u32(data, 8, arena_allocator::HEADER_SIZE as u32);
    let ghost d3 = data@;
    let capacity = (INITIAL_ACCOUNT_SIZE as u32) - (arena_allocator::HEADER_SIZE as u32);
    crate::le::write_u32(data, 12, capacity);
    let ghost d4 = data@;
    crate::le::write_u32(data, 16, 0);
    let ghost d5 = data@;
    crate::le::write_u32(data, 20, 0);
    proof {
        lemma_put_u32(d0, 0, arena_allocator::DISCRIMINATOR);
        lemma_put_u32(d1, 4, 24);
        lemma_put_u32(d2, 8, 24);
        lemma_put_u32(d3, 12, capacity);
        lemma_put_u32(d4, 16, 0);
        lemma_put_u32(d5, 20, 0);
    }
}

/// Lays out a new slab account of `INITIAL_ACCOUNT_SIZE` bytes: header
/// (discriminator, no root, stack pointer at the head node, allocated
/// size, no nodes, still-growing flag) and the head node in the last 16
/// bytes (next sequential slot right after the header, head type, single
/// stack node).  The bytes in between are left as they are.
pub fn write_slab_allocator_header(data: &mut [u8])
    requires
        old(data)@.len() == INITIAL_ACCOUNT_SIZE,
    ensures
        final(data)@.len() == old(data)@.len(),
        le_u32(final(data)@, 0) == slab_allocator::DISCRIMINATOR,
        le_u32(final(data)@, 4) == 0,
        le_u32(final(data)@, 8) == INITIAL_ACCOUNT_SIZE - slab_allocator::STACK_NODE_SIZE,
        le_u32(final(data)@, 12) == INITIAL_ACCOUNT_SIZE,
        le_u32(final(data)@, 16) == 0,
        le_u32(final(data)@, 20) == 0x0000_00FF,
        le_u32(final(data)@, 10224) == slab_allocator::HEADER_SIZE,
        le_u32(final(data)@, 10228) == 0,
        le_u32(final(data)@, 10232) == 0,
        le_u32(final(data)@, 10236) == 0,
        forall|i: int| 24 <= i < 10224 ==> final(data)@[i] == old(data)@[i],
        slab_sequential(final(data)@),
{
    let total_size = INITIAL_ACCOUNT_SIZE as u32;
    let head_node_addr = total_size - (slab_allocator::STACK_NODE_SIZE as u32);
    let header_size = slab_allocator::HEADER_SIZE as u32;
    let hn = head_node_addr as usize;
    let ghost d0 = data@;
    write_discriminator(data, slab_allocator::DISCRIMINATOR);
    let ghost d1 = data@;
    crate::le::write_u32(data, 4, 0);
    let ghost d2 = data@;
    crate::le::write_u32(data, 8, head_node_addr);
    let ghost d3 = data@;
    crate::le::write_u32(data, 12, total_size);
    let ghost d4 = data@;
    crate::le::write_u32(data, 16, 0);
    let ghost d5 = data@;
    crate::le::write_u32(data, 20, 0x0000_00FF);
    let ghost d6 = data@;
    crate::le::write_u32(data, hn, header_size);
    let ghost d7 = data@;
    crate::le::write_u32(data, hn + 4, 0);
    let ghost d8 = data@;
    crate::le::write_u32(data, hn + 8, 0);
    let ghost d9 = data@;
    crate::le::write_u32(data, hn + 12, 0);
    proof {
        lemma_put_u32(d0, 0, slab_allocator::DISCRIMINATOR);
        lemma_put_u32(d1, 4, 0);
        lemma_put_u32(d2, 8, head_node_addr);
        lemma_put_u32(d3, 12, total_size);
        lemma_put_u32(d4, 16, 0);
        lemma_put_u32(d5, 20, 0x0000_00FF);
        lemma_put_u32(d6, 10224, header_size);
        lemma_put_u32(d7, 10228, 0);
        lemma_put_u32(d8, 10232, 0);
        lemma_put_u32(d9, 10236, 0);
    }
}

// ── laws ─────────────────────────────────────────────────────────────────────

/// A market-config account that the initializers accept: owned by the
/// program, holding at least a discriminator, and marked as a market config.
pub open spec fn valid_market_config(program_id: Seq<u8>, mc: Account) -> bool {
    &&& mc.owner@ == program_id
    &&& mc.data@.len() >= 4
    &&& le_u32(mc.data@, 0) == market_config::DISCRIMINATOR
}

/// A new market config is accepted exactly when there are five accounts,
/// the payer signed, the target sits at the address derived from the seed
/// prefix and the two mints, and the target holds no data.
pub proof fn law_market_config_accepted(program_id: Seq<u8>, a: Seq<Account>, bump: u8)
    ensures
        market_config_init_error(program_id, a, bump) is None <==> (a.len() >= 5 && a[0].is_signer
            && a[1].address@ == derived_address(
            seq![market_config::SEED_PREFIX@, a[2].address@, a[3].address@],
            bump,
            program_id,
        ) && a[1].data@.len() == 0),
{
}

/// A new asset order status is accepted exactly when there are six
/// accounts, payer and owner signed, the market config is valid, the
/// target sits at the address derived from the prefix, market config,
/// owner and ledger, and the target holds no data.
pub proof fn law_asset_order_status_accepted(program_id: Seq<u8>, a: Seq<Account>, bump: u8)
    ensures
        asset_order_status_init_error(program_id, a, bump) is None <==> (a.len() >= 6 && a[0].is_signer
            && a[3].is_signer && valid_market_config(program_id, a[2]) && a[1].address@
            == derived_address(
            seq![asset_order_status::SEED_PREFIX@, a[2].address@, a[3].address@, a[4].address@],
            bump,
            program_id,
        ) && a[1].data@.len() == 0),
{
}

/// A new asset balance ledger is accepted exactly when there are four
/// accounts, payer and owner signed, the target sits at the address derived
/// from the prefix and the owner, and the target holds no data.
pub proof fn law_asset_balance_ledger_accepted(program_id: Seq<u8>, a: Seq<Account>, bump: u8)
    ensures
        asset_balance_ledger_init_error(program_id, a, bump) is None <==> (a.len() >= 4 && a[0].is_signer
            && a[2].is_signer && a[1].address@ == derived_address(
            seq![asset_balance_ledger::SEED_PREFIX@, a[2].address@],
            bump,
            program_id,
        ) && a[1].data@.len() == 0),
{
}

/// A new arena is accepted exactly when there are four accounts, the payer
/// signed, the market config is valid, the arena type is one of the three
/// (aggregate 0x01, limit order queue 0x02, market order queue 0x03), the
/// target sits at the address derived from the prefix, the market config
/// and the type byte, and the target holds no data.  With the accounts in
/// order up to the type, any other type is refused as an invalid
/// instruction.
pub proof fn law_arena_types(program_id: Seq<u8>, a: Seq<Account>, bump: u8, arena_type: u8)
    ensures
        arena_init_error(program_id, a, bump, arena_type) is None <==> (a.len() >= 4 && a[0].is_signer
            && valid_market_config(program_id, a[2]) && (arena_type == 0x01 || arena_type == 0x02
            || arena_type == 0x03) && a[1].address@ == derived_address(
            seq![arena_allocator::SEED_PREFIX@, a[2].address@, seq![arena_type]],
            bump,
            program_id,
        ) && a[1].data@.len() == 0),
        a.len() >= 4 && a[0].is_signer && valid_market_config(program_id, a[2]) ==> (arena_init_error(
            program_id,
            a,
            bump,
            arena_type,
        ) == Some(IncognitusError::InvalidInstruction) <==> !(arena_type == 0x01 || arena_type == 0x02
            || arena_type == 0x03)),
{
}

/// A new slab is accepted exactly when there are four accounts, the payer
/// signed, the market config is valid, the slab type is one of the nine
/// (0x10 to 0x13 and 0x20 to 0x24), the target sits at the address derived
/// from the prefix, the market config, the type byte and the index byte,
/// and the target holds no data.  With the accounts in order up to the
/// type, any other type is refused as an invalid instruction.
pub proof fn law_slab_types(program_id: Seq<u8>, a: Seq<Account>, bump: u8, slab_type: u8, slab_index: u8)
    ensures
        slab_init_error(program_id, a, bump, slab_type, slab_index) is None <==> (a.len() >= 4
            && a[0].is_signer && valid_market_config(program_id, a[2]) && (slab_type == 0x10
            || slab_type == 0x11 || slab_type == 0x12 || slab_type == 0x13 || slab_type == 0x20
            || slab_type == 0x21 || slab_type == 0x22 || slab_type == 0x23 || slab_type == 0x24)
            && a[1].address@ == derived_address(
            seq![slab_allocator::SEED_PREFIX@, a[2].address@, seq![slab_type], seq![slab_index]],
            bump,
            program_id,
        ) && a[1].data@.len() == 0),
        a.len() >= 4 && a[0].is_signer && valid_market_config(program_id, a[2]) ==> (slab_init_error(
            program_id,
            a,
            bump,
            slab_type,
            slab_index,
        ) == Some(IncognitusError::InvalidInstruction) <==> !(slab_type == 0x10 || slab_type == 0x11
            || slab_type == 0x12 || slab_type == 0x13 || slab_type == 0x20 || slab_type == 0x21
            || slab_type == 0x22 || slab_type == 0x23 || slab_type == 0x24)),
{
}

/// The market-config check refuses a foreign owner first, then data too
/// short for a discriminator, then another discriminator.
pub proof fn law_market_config_check(program_id: Seq<u8>, mc: Account)
    ensures
        mc.owner@ != program_id ==> market_config_error(program_id, mc) == Some(IncognitusError::InvalidOwner),
        mc.owner@ == program_id && mc.data@.len() < 4 ==> market_config_error(program_id, mc) == Some(
            IncognitusError::NotInitialized,
        ),
        mc.owner@ == program_id && mc.data@.len() >= 4 && le_u32(mc.data@, 0) != market_config::DISCRIMINATOR
            ==> market_config_error(program_id, mc) == Some(IncognitusError::InvalidDiscriminator),
        market_config_error(program_id, mc) is None <==> valid_market_config(program_id, mc),
{
}

/// The initializers refuse in a fixed order: too few accounts, then a
/// missing payer signature, then (for the types that need one) an invalid
/// market config, then (arena and slab) an unknown type, then a target off
/// its derived address, then a target that already holds data.
pub proof fn law_initialize_refusal_order(
    program_id: Seq<u8>,
    a: Seq<Account>,
    bump: u8,
    kind: u8,
    index: u8,
)
    ensures
        a.len() < 4 ==> arena_init_error(program_id, a, bump, kind) == Some(
            IncognitusError::WrongNumberOfAccounts,
        ) && slab_init_error(program_id, a, bump, kind, index) == Some(
            IncognitusError::WrongNumberOfAccounts,
        ) && asset_balance_ledger_init_error(program_id, a, bump) == Some(
            IncognitusError::WrongNumberOfAccounts,
        ),
        a.len() < 5 ==> market_config_init_error(program_id, a, bump) == Some(
            IncognitusError::WrongNumberOfAccounts,
        ),
        a.len() < 6 ==> asset_order_status_init_error(program_id, a, bump) == Some(
            IncognitusError::WrongNumberOfAccounts,
        ),
        a.len() >= 6 && !a[0].is_signer ==> market_config_init_error(program_id, a, bump) == Some(
            IncognitusError::MissingRequiredSigner,
        ) && asset_order_status_init_error(program_id, a, bump) == Some(
            IncognitusError::MissingRequiredSigner,
        ) && asset_balance_ledger_init_error(program_id, a, bump) == Some(
            IncognitusError::MissingRequiredSigner,
        ) && arena_init_error(program_id, a, bump, kind) == Some(
            IncognitusError::MissingRequiredSigner,
        ) && slab_init_error(program_id, a, bump, kind, index) == Some(
            IncognitusError::MissingRequiredSigner,
        ),
        a.len() >= 6 && a[0].is_signer && !a[3].is_signer ==> asset_order_status_init_error(
            program_id,
            a,
            bump,
        ) == Some(IncognitusError::MissingRequiredSigner),
        a.len() >= 4 && a[0].is_signer && !a[2].is_signer ==> asset_balance_ledger_init_error(
            program_id,
            a,
            bump,
        ) == Some(IncognitusError::MissingRequiredSigner),
        a.len() >= 4 && a[0].is_signer && !valid_market_config(program_id, a[2]) ==> arena_init_error(
            program_id,
            a,
            bump,
            kind,
        ) == market_config_error(program_id, a[2]) && slab_init_error(program_id, a, bump, kind, index)
            == market_config_error(program_id, a[2]),
        a.len() >= 6 && a[0].is_signer && a[3].is_signer && !valid_market_config(program_id, a[2])
            ==> asset_order_status_init_error(program_id, a, bump) == market_config_error(program_id, a[2]),
        a.len() >= 4 && a[0].is_signer && valid_market_config(program_id, a[2]) && (kind == 0x01 || kind
            == 0x02 || kind == 0x03) ==> (arena_init_error(program_id, a, bump, kind) == if a[1].address@
            != derived_address(seq![arena_allocator::SEED_PREFIX@, a[2].address@, seq![kind]], bump, program_id) {
            Some(IncognitusError::InvalidPda)
        } else if a[1].data@.len() > 0 {
            Some(IncognitusError::AlreadyInitialized)
        } else {
            None
        }),
        a.len() >= 5 && a[0].is_signer ==> (market_config_init_error(program_id, a, bump) == if a[1].address@
            != derived_address(seq![market_config::SEED_PREFIX@, a[2].address@, a[3].address@], bump, program_id) {
            Some(IncognitusError::InvalidPda)
        } else if a[1].data@.len() > 0 {
            Some(IncognitusError::AlreadyInitialized)
        } else {
            None
        }),
{
}

} // verus!
