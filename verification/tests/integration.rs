//! Whole instructions at the level of the library: decode the instruction
//! data, run the account checks, and, where the program would create the
//! account, lay it out the way the program does after the creation call.
use incognitus::program::account::Account;
use incognitus::program::error::IncognitusError;
use incognitus::program::instructions::{
    close, initialize, ACCOUNT_TYPE_ARENA_ALLOCATOR, ACCOUNT_TYPE_ASSET_BALANCE_LEDGER,
    ACCOUNT_TYPE_MARKET_CONFIG, ACCOUNT_TYPE_SLAB_ALLOCATOR, IX_ALLOCATE, IX_CLOSE, IX_INITIALIZE,
};
use incognitus::program::processor::{decode_instruction, Instruction};
use incognitus::program::state::{
    arena_allocator, asset_balance_ledger, asset_order_status, market_config, read_discriminator,
    slab_allocator, write_discriminator, CLOSING_DISCRIMINATOR, INITIAL_ACCOUNT_SIZE,
};
use pinocchio::Address;

fn program_id() -> [u8; 32] {
    [
        0x01, 0x02, 0x03, 0x04, 0x05, 0x06, 0x07, 0x08, 0x09, 0x0A, 0x0B, 0x0C, 0x0D, 0x0E, 0x0F,
        0x10, 0x11, 0x12, 0x13, 0x14, 0x15, 0x16, 0x17, 0x18, 0x19, 0x1A, 0x1B, 0x1C, 0x1D, 0x1E,
        0x1F, 0x20,
    ]
}

fn key(n: u8) -> [u8; 32] {
    [n; 32]
}

fn pda<const N: usize>(seeds: &[&[u8]; N], bump: u8) -> [u8; 32] {
    Address::derive_address(seeds, Some(bump), &Address::new_from_array(program_id())).to_bytes()
}

fn account(address: [u8; 32], is_signer: bool, lamports: u64, owner: [u8; 32], data: Vec<u8>) -> Account {
    Account { address, owner, is_signer, lamports, data }
}

fn system_program() -> Account {
    account([0u8; 32], false, 1, [0u8; 32], Vec::new())
}

fn payer() -> Account {
    account(key(0xEE), true, 10_000_000_000, [0u8; 32], Vec::new())
}

fn initialized(disc: u32, len: usize) -> Vec<u8> {
    let mut data = vec![0u8; len];
    write_discriminator(&mut data, disc);
    data
}

/// Runs an initialize instruction; on success the new account is created
/// with the planned size, owned by the program, and laid out.
fn run_initialize(accounts: &mut Vec<Account>, data: &[u8]) -> Result<(), IncognitusError> {
    let pid = program_id();
    let ix = decode_instruction(data)?;
    let (plan, layout): (initialize::CreateAccountPlan, u32) = match ix {
        Instruction::InitializeMarketConfig { bump } => {
            (initialize::initialize_market_config(&pid, accounts, bump)?, market_config::DISCRIMINATOR)
        }
        Instruction::InitializeAssetOrderStatus { bump } => (
            initialize::initialize_asset_order_status(&pid, accounts, bump)?,
            asset_order_status::DISCRIMINATOR,
        ),
        Instruction::InitializeAssetBalanceLedger { bump } => (
            initialize::initialize_asset_balance_ledger(&pid, accounts, bump)?,
            asset_balance_ledger::DISCRIMINATOR,
        ),
        Instruction::InitializeArenaAllocator { bump, arena_type } => (
            initialize::initialize_arena_allocator(&pid, accounts, bump, arena_type)?,
            arena_allocator::DISCRIMINATOR,
        ),
        Instruction::InitializeSlabAllocator { bump, slab_type, slab_index } => (
            initialize::initialize_slab_allocator(&pid, accounts, bump, slab_type, slab_index)?,
            slab_allocator::DISCRIMINATOR,
        ),
        _ => return Err(IncognitusError::InvalidInstruction),
    };
    let target = &mut accounts[1];
    target.data = vec![0u8; plan.space as usize];
    target.owner = pid;
    if layout == arena_allocator::DISCRIMINATOR {
        initialize::write_arena_allocator_header(&mut target.data);
    } else if layout == slab_allocator::DISCRIMINATOR {
        initialize::write_slab_allocator_header(&mut target.data);
    } else {
        write_discriminator(&mut target.data, layout);
    }
    Ok(())
}

fn word(data: &[u8], at: usize) -> u32 {
    u32::from_le_bytes([data[at], data[at + 1], data[at + 2], data[at + 3]])
}

fn market_config_setup() -> (Vec<Account>, [u8; 32]) {
    let base_mint = key(0x31);
    let quote_mint = key(0x32);
    let mc_key = pda(&[&market_config::SEED_PREFIX, &base_mint, &quote_mint], 255);
    let accounts = vec![
        payer(),
        account(mc_key, true, 0, [0u8; 32], Vec::new()),
        account(base_mint, false, 0, [0u8; 32], Vec::new()),
        account(quote_mint, false, 0, [0u8; 32], Vec::new()),
        system_program(),
    ];
    (accounts, mc_key)
}

#[test]
fn initialize_market_config_success() {
    let (mut accounts, _) = market_config_setup();
    let ix_data = vec![IX_INITIALIZE, ACCOUNT_TYPE_MARKET_CONFIG, 255];
    assert_eq!(run_initialize(&mut accounts, &ix_data), Ok(()));
    let mc = &accounts[1];
    assert_eq!(mc.data.len(), market_config::MIN_DATA_LEN);
    assert_eq!(read_discriminator(&mc.data), market_config::DISCRIMINATOR);
    assert_eq!(mc.owner, program_id());
}

#[test]
fn initialize_market_config_wrong_pda_fails() {
    let (mut accounts, _) = market_config_setup();
    let wrong_bump = 255u8.wrapping_sub(1);
    let ix_data = vec![IX_INITIALIZE, ACCOUNT_TYPE_MARKET_CONFIG, wrong_bump];
    assert_eq!(run_initialize(&mut accounts, &ix_data), Err(IncognitusError::InvalidPda));
}

#[test]
fn initialize_market_config_already_initialized_fails() {
    let (mut accounts, _) = market_config_setup();
    let pid = program_id();
    accounts[1].data = initialized(market_config::DISCRIMINATOR, market_config::MIN_DATA_LEN);
    accounts[1].owner = pid;
    let ix_data = vec![IX_INITIALIZE, ACCOUNT_TYPE_MARKET_CONFIG, 255];
    assert_eq!(run_initialize(&mut accounts, &ix_data), Err(IncognitusError::AlreadyInitialized));
}

#[test]
fn initialize_asset_balance_ledger_success() {
    let owner = key(0x41);
    let ledger_key = pda(&[&asset_balance_ledger::SEED_PREFIX, &owner], 254);
    let mut accounts = vec![
        payer(),
        account(ledger_key, true, 0, [0u8; 32], Vec::new()),
        account(owner, true, 0, [0u8; 32], Vec::new()),
        system_program(),
    ];
    let ix_data = vec![IX_INITIALIZE, ACCOUNT_TYPE_ASSET_BALANCE_LEDGER, 254];
    assert_eq!(run_initialize(&mut accounts, &ix_data), Ok(()));
    assert_eq!(accounts[1].data.len(), asset_balance_ledger::MIN_DATA_LEN);
    assert_eq!(read_discriminator(&accounts[1].data), asset_balance_ledger::DISCRIMINATOR);
}

fn market_config_account(mc_key: [u8; 32]) -> Account {
    let pid = program_id();
    account(
        mc_key,
        false,
        1_000_000,
        pid,
        initialized(market_config::DISCRIMINATOR, market_config::MIN_DATA_LEN),
    )
}

#[test]
fn initialize_arena_allocator_success() {
    let mc_key = pda(&[&market_config::SEED_PREFIX, &key(0x31), &key(0x32)], 255);
    let arena_type = arena_allocator::ARENA_TYPE_AGGREGATE;
    let arena_key = pda(&[&arena_allocator::SEED_PREFIX, &mc_key, &[arena_type]], 253);
    let mut accounts = vec![
        payer(),
        account(arena_key, true, 0, [0u8; 32], Vec::new()),
        market_config_account(mc_key),
        system_program(),
    ];
    let ix_data = vec![IX_INITIALIZE, ACCOUNT_TYPE_ARENA_ALLOCATOR, 253, arena_type];
    assert_eq!(run_initialize(&mut accounts, &ix_data), Ok(()));
    let data = &accounts[1].data;

    assert_eq!(data.len(), INITIAL_ACCOUNT_SIZE as usize);
    assert_eq!(read_discriminator(data), arena_allocator::DISCRIMINATOR);
    assert_eq!(word(data, 4), arena_allocator::HEADER_SIZE as u32);
    assert_eq!(word(data, 8), arena_allocator::HEADER_SIZE as u32);
    assert_eq!(word(data, 12), (INITIAL_ACCOUNT_SIZE as u32) - (arena_allocator::HEADER_SIZE as u32));
}

#[test]
fn initialize_arena_invalid_type_fails() {
    let mc_key = pda(&[&market_config::SEED_PREFIX, &[1; 32], &[2; 32]], 255);
    let arena_key = key(0x51);
    let mut accounts = vec![
        payer(),
        account(arena_key, true, 0, [0u8; 32], Vec::new()),
        market_config_account(mc_key),
        system_program(),
    ];
    let ix_data = vec![IX_INITIALIZE, ACCOUNT_TYPE_ARENA_ALLOCATOR, 0, 0xFF];
    assert_eq!(run_initialize(&mut accounts, &ix_data), Err(IncognitusError::InvalidInstruction));
}

#[test]
fn initialize_slab_allocator_success() {
    let mc_key = pda(&[&market_config::SEED_PREFIX, &[1; 32], &[2; 32]], 255);
    let slab_type = slab_allocator::SLAB_TYPE_PRICE_TREE;
    let slab_index = 0u8;
    let slab_key = pda(&[&slab_allocator::SEED_PREFIX, &mc_key, &[slab_type], &[slab_index]], 252);
    let mut accounts = vec![
        payer(),
        account(slab_key, true, 0, [0u8; 32], Vec::new()),
        market_config_account(mc_key),
        system_program(),
    ];
    let ix_data = vec![IX_INITIALIZE, ACCOUNT_TYPE_SLAB_ALLOCATOR, 252, slab_type, slab_index];
    assert_eq!(run_initialize(&mut accounts, &ix_data), Ok(()));
    let data = &accounts[1].data;
    let total_size = INITIAL_ACCOUNT_SIZE as u32;

    assert_eq!(data.len(), INITIAL_ACCOUNT_SIZE as usize);
    assert_eq!(read_discriminator(data), slab_allocator::DISCRIMINATOR);

    let expected_head = total_size - slab_allocator::STACK_NODE_SIZE as u32;
    assert_eq!(word(data, 4), 0);
    assert_eq!(word(data, 8), expected_head);
    assert_eq!(word(data, 12), total_size);
    assert_eq!(word(data, 16), 0);
    assert_eq!(word(data, 20), 0x0000_00FF);

    let hn = expected_head as usize;
    assert_eq!(word(data, hn), slab_allocator::HEADER_SIZE as u32);
    assert_eq!(word(data, hn + 8), 0);
}

fn close_accounts(authority_signs: bool, target_lamports: u64, target_owner: [u8; 32], data: Vec<u8>, dest_lamports: u64) -> Vec<Account> {
    vec![
        account(key(0x61), authority_signs, 0, [0u8; 32], Vec::new()),
        account(key(0x62), false, target_lamports, target_owner, data),
        account(key(0x63), false, dest_lamports, [0u8; 32], Vec::new()),
    ]
}

#[test]
fn close_small_account_single_tx() {
    let pid = program_id();
    let target_lamports = 1_000_000u64;
    let dest_lamports = 500_000u64;
    let data = initialized(market_config::DISCRIMINATOR, market_config::MIN_DATA_LEN);
    let mut accounts = close_accounts(true, target_lamports, pid, data, dest_lamports);
    let ix_data = vec![IX_CLOSE, ACCOUNT_TYPE_MARKET_CONFIG];
    assert_eq!(close::process(&pid, &mut accounts, &ix_data), Ok(()));
    assert_eq!(accounts[1].lamports, 0);
    assert!(accounts[1].data.iter().all(|&b| b == 0));
    assert_eq!(accounts[2].lamports, dest_lamports + target_lamports);
}

#[test]
fn close_large_account_multi_tx() {
    let pid = program_id();
    let data_len = 20_000usize;
    let target_lamports = 5_000_000u64;
    let mut data = initialized(arena_allocator::DISCRIMINATOR, data_len);
    for b in data[4..].iter_mut() {
        *b = 0xAB;
    }
    let mut accounts = close_accounts(true, target_lamports, pid, data, 100_000);
    let ix_data = vec![IX_CLOSE, ACCOUNT_TYPE_ARENA_ALLOCATOR];

    assert_eq!(close::process(&pid, &mut accounts, &ix_data), Ok(()));
    assert_eq!(read_discriminator(&accounts[1].data), CLOSING_DISCRIMINATOR);
    assert_eq!(word(&accounts[1].data, 4), 8 + 8192);
    assert_eq!(accounts[1].lamports, target_lamports);

    assert_eq!(close::process(&pid, &mut accounts, &ix_data), Ok(()));
    assert_eq!(word(&accounts[1].data, 4), 8200 + 8192);
    assert_eq!(accounts[1].lamports, target_lamports);

    assert_eq!(close::process(&pid, &mut accounts, &ix_data), Ok(()));
    assert_eq!(accounts[1].lamports, 0);
    assert!(accounts[1].data.iter().all(|&b| b == 0));
}

#[test]
fn close_wrong_discriminator_fails() {
    let pid = program_id();
    let data = initialized(slab_allocator::DISCRIMINATOR, 100);
    let mut accounts = close_accounts(true, 1_000_000, pid, data, 0);
    assert_eq!(
        close::process(&pid, &mut accounts, &[IX_CLOSE, ACCOUNT_TYPE_MARKET_CONFIG]),
        Err(IncognitusError::InvalidDiscriminator)
    );
}

#[test]
fn close_missing_signer_fails() {
    let pid = program_id();
    let data = initialized(market_config::DISCRIMINATOR, 100);
    let mut accounts = close_accounts(false, 1_000_000, pid, data, 0);
    assert_eq!(
        close::process(&pid, &mut accounts, &[IX_CLOSE, ACCOUNT_TYPE_MARKET_CONFIG]),
        Err(IncognitusError::MissingRequiredSigner)
    );
}

#[test]
fn close_wrong_owner_fails() {
    let pid = program_id();
    let wrong_owner = key(0x71);
    let data = initialized(market_config::DISCRIMINATOR, 100);
    let mut accounts = close_accounts(true, 1_000_000, wrong_owner, data, 0);
    assert_eq!(
        close::process(&pid, &mut accounts, &[IX_CLOSE, ACCOUNT_TYPE_MARKET_CONFIG]),
        Err(IncognitusError::InvalidOwner)
    );
}

#[test]
fn empty_instruction_data_fails() {
    assert_eq!(decode_instruction(&[]), Err(IncognitusError::InstructionDataTooShort));
}

#[test]
fn invalid_instruction_discriminator_fails() {
    assert_eq!(decode_instruction(&[0xFF]), Err(IncognitusError::InvalidInstruction));
}

#[test]
fn initialize_too_few_accounts_fails() {
    let mut accounts = vec![payer(), account(key(0x81), false, 0, [0u8; 32], Vec::new())];
    assert_eq!(
        run_initialize(&mut accounts, &[IX_INITIALIZE, ACCOUNT_TYPE_MARKET_CONFIG, 0]),
        Err(IncognitusError::WrongNumberOfAccounts)
    );
}

#[test]
fn initialize_truncated_data_fails() {
    let mut accounts = Vec::new();
    assert_eq!(
        run_initialize(&mut accounts, &[IX_INITIALIZE, ACCOUNT_TYPE_MARKET_CONFIG]),
        Err(IncognitusError::InstructionDataTooShort)
    );
}

#[test]
fn initialize_arena_truncated_data_fails() {
    let mut accounts = Vec::new();
    assert_eq!(
        run_initialize(&mut accounts, &[IX_INITIALIZE, ACCOUNT_TYPE_ARENA_ALLOCATOR, 0]),
        Err(IncognitusError::InstructionDataTooShort)
    );
}

#[test]
fn initialize_slab_truncated_data_fails() {
    let mut accounts = Vec::new();
    assert_eq!(
        run_initialize(&mut accounts, &[IX_INITIALIZE, ACCOUNT_TYPE_SLAB_ALLOCATOR, 0, 0x10]),
        Err(IncognitusError::InstructionDataTooShort)
    );
}

#[test]
fn allocate_invalid_type_fails() {
    assert_eq!(
        decode_instruction(&[IX_ALLOCATE, ACCOUNT_TYPE_MARKET_CONFIG]),
        Err(IncognitusError::InvalidInstruction)
    );
}
