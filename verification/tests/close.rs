//! Close: chunked zeroing over several calls, then the lamports move.
use incognitus::program::account::Account;
use incognitus::program::error::IncognitusError;
use incognitus::program::instructions::allocate::allocate_arena_or_slab;
use incognitus::program::instructions::close::{
    check_close_target, close_data, close_lamports, close_program_account, process, ZERO_CHUNK_SIZE,
};
use incognitus::program::instructions::{ACCOUNT_TYPE_SLAB_ALLOCATOR, IX_CLOSE};
use incognitus::program::state::{
    market_config, slab_allocator, write_discriminator, CLOSING_DISCRIMINATOR,
};

const PROGRAM: [u8; 32] = [7u8; 32];

fn word(data: &[u8], at: usize) -> u32 {
    u32::from_le_bytes([data[at], data[at + 1], data[at + 2], data[at + 3]])
}

fn accounts(disc: u32, len: usize) -> Vec<Account> {
    let mut data = vec![0x5Au8; len];
    write_discriminator(&mut data, disc);
    vec![
        Account { address: [9u8; 32], owner: [0u8; 32], is_signer: true, lamports: 10, data: Vec::new() },
        Account { address: [1u8; 32], owner: PROGRAM, is_signer: false, lamports: 700, data },
        Account { address: [2u8; 32], owner: [0u8; 32], is_signer: false, lamports: 300, data: Vec::new() },
    ]
}

#[test]
fn chunk_size_is_8k() {
    assert_eq!(ZERO_CHUNK_SIZE, 8192);
}

#[test]
fn small_account_closes_in_one_call() {
    let mut a = accounts(market_config::DISCRIMINATOR, 324);
    assert_eq!(close_program_account(&PROGRAM, &mut a, market_config::DISCRIMINATOR), Ok(()));
    assert!(a[1].data.iter().all(|b| *b == 0));
    assert_eq!(a[1].data.len(), 324);
    assert_eq!(a[1].lamports, 0);
    assert_eq!(a[2].lamports, 1000);
    assert_eq!(a[0].lamports, 10);
}

#[test]
fn large_account_closes_over_several_calls() {
    let len = 20480;
    let mut a = accounts(slab_allocator::DISCRIMINATOR, len);
    // First call: marked closing, [8, 8200) zeroed, close index 8200.
    assert_eq!(close_program_account(&PROGRAM, &mut a, slab_allocator::DISCRIMINATOR), Ok(()));
    assert_eq!(word(&a[1].data, 0), CLOSING_DISCRIMINATOR);
    assert_eq!(word(&a[1].data, 4), 8 + 8192);
    assert!(a[1].data[8..8200].iter().all(|b| *b == 0));
    assert_eq!(a[1].data[8200], 0x5A);
    assert_eq!(a[1].lamports, 700);
    // Second call: continues from the close index.
    assert_eq!(close_program_account(&PROGRAM, &mut a, slab_allocator::DISCRIMINATOR), Ok(()));
    assert_eq!(word(&a[1].data, 4), 8 + 2 * 8192);
    assert_eq!(a[1].lamports, 700);
    assert_eq!(a[2].lamports, 300);
    // Third call reaches the end: all zero, lamports moved.
    assert_eq!(close_program_account(&PROGRAM, &mut a, slab_allocator::DISCRIMINATOR), Ok(()));
    assert!(a[1].data.iter().all(|b| *b == 0));
    assert_eq!(a[1].lamports, 0);
    assert_eq!(a[2].lamports, 1000);
}

#[test]
fn chunk_that_ends_exactly_at_the_end_finishes() {
    let mut a = accounts(market_config::DISCRIMINATOR, 8 + 8192);
    assert_eq!(close_program_account(&PROGRAM, &mut a, market_config::DISCRIMINATOR), Ok(()));
    assert!(a[1].data.iter().all(|b| *b == 0));
    assert_eq!(a[1].lamports, 0);
}

#[test]
fn close_checks() {
    let a = accounts(market_config::DISCRIMINATOR, 324);
    let mut short = accounts(market_config::DISCRIMINATOR, 324);
    short.truncate(2);
    assert_eq!(
        close_program_account(&PROGRAM, &mut short, market_config::DISCRIMINATOR),
        Err(IncognitusError::WrongNumberOfAccounts)
    );
    let mut b = accounts(market_config::DISCRIMINATOR, 324);
    b[0].is_signer = false;
    assert_eq!(
        close_program_account(&PROGRAM, &mut b, market_config::DISCRIMINATOR),
        Err(IncognitusError::MissingRequiredSigner)
    );
    let mut b = accounts(market_config::DISCRIMINATOR, 324);
    b[1].owner = [3u8; 32];
    assert_eq!(
        close_program_account(&PROGRAM, &mut b, market_config::DISCRIMINATOR),
        Err(IncognitusError::InvalidOwner)
    );
    let mut b = accounts(market_config::DISCRIMINATOR, 7);
    assert_eq!(
        close_program_account(&PROGRAM, &mut b, market_config::DISCRIMINATOR),
        Err(IncognitusError::InvalidDataLength)
    );
    let mut b = accounts(market_config::DISCRIMINATOR, 324);
    assert_eq!(
        close_program_account(&PROGRAM, &mut b, slab_allocator::DISCRIMINATOR),
        Err(IncognitusError::InvalidDiscriminator)
    );
    assert_eq!(b[1].data, a[1].data);
    assert_eq!(b[1].lamports, 700);
}

#[test]
fn process_decodes_then_closes() {
    let mut a = accounts(slab_allocator::DISCRIMINATOR, 100);
    assert_eq!(process(&PROGRAM, &mut a, &[IX_CLOSE]), Err(IncognitusError::InstructionDataTooShort));
    assert_eq!(process(&PROGRAM, &mut a, &[IX_CLOSE, 9]), Err(IncognitusError::InvalidInstruction));
    assert_eq!(word(&a[1].data, 0), slab_allocator::DISCRIMINATOR);
    assert_eq!(process(&PROGRAM, &mut a, &[IX_CLOSE, ACCOUNT_TYPE_SLAB_ALLOCATOR]), Ok(()));
    assert!(a[1].data.iter().all(|b| *b == 0));
    assert_eq!(a[2].lamports, 1000);
}

#[test]
fn closing_account_is_refused_for_reuse() {
    let mut a = accounts(slab_allocator::DISCRIMINATOR, 20480);
    assert_eq!(close_program_account(&PROGRAM, &mut a, slab_allocator::DISCRIMINATOR), Ok(()));
    assert_eq!(
        allocate_arena_or_slab(&PROGRAM, &a, slab_allocator::DISCRIMINATOR).err(),
        Some(IncognitusError::InvalidDiscriminator)
    );
    // Once it is marked closing, a close call of any type continues it.
    assert_eq!(close_program_account(&PROGRAM, &mut a, market_config::DISCRIMINATOR), Ok(()));
    assert_eq!(word(&a[1].data, 4), 8 + 2 * 8192);
}

#[test]
fn close_in_place_steps() {
    let mut data = vec![0x5Au8; 20000];
    data[0..4].copy_from_slice(&slab_allocator::DISCRIMINATOR.to_le_bytes());
    assert_eq!(check_close_target(&PROGRAM, true, &PROGRAM, &data, slab_allocator::DISCRIMINATOR), Ok(()));
    assert_eq!(
        check_close_target(&PROGRAM, true, &PROGRAM, &data, market_config::DISCRIMINATOR),
        Err(IncognitusError::InvalidDiscriminator)
    );
    assert_eq!(
        check_close_target(&PROGRAM, false, &PROGRAM, &data, slab_allocator::DISCRIMINATOR),
        Err(IncognitusError::MissingRequiredSigner)
    );
    assert_eq!(
        check_close_target(&PROGRAM, true, &[1u8; 32], &data, slab_allocator::DISCRIMINATOR),
        Err(IncognitusError::InvalidOwner)
    );
    assert_eq!(
        check_close_target(&PROGRAM, true, &PROGRAM, &data[..7], slab_allocator::DISCRIMINATOR),
        Err(IncognitusError::InvalidDataLength)
    );
    assert!(!close_data(&mut data, slab_allocator::DISCRIMINATOR));
    assert_eq!(word(&data, 4), 8200);
    assert!(!close_data(&mut data, slab_allocator::DISCRIMINATOR));
    assert!(close_data(&mut data, slab_allocator::DISCRIMINATOR));
    assert!(data.iter().all(|b| *b == 0));
    assert_eq!(close_lamports(700, 300), (0, 1000));
}
