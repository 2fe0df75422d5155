//! Instruction tags, wire format and decoding.
use incognitus::program::error::IncognitusError;
use incognitus::program::instructions::{
    ACCOUNT_TYPE_ARENA_ALLOCATOR, ACCOUNT_TYPE_ASSET_BALANCE_LEDGER,
    ACCOUNT_TYPE_ASSET_ORDER_STATUS, ACCOUNT_TYPE_MARKET_CONFIG, ACCOUNT_TYPE_SLAB_ALLOCATOR,
    IX_ALLOCATE, IX_CLOSE, IX_INITIALIZE,
};
use incognitus::program::processor::{decode_instruction, Instruction};
use incognitus::program::state::{
    arena_allocator, asset_balance_ledger, asset_order_status, market_config, slab_allocator,
};

#[test]
fn instruction_discriminators_sequential() {
    assert_eq!(IX_INITIALIZE, 0x00);
    assert_eq!(IX_ALLOCATE, 0x01);
    assert_eq!(IX_CLOSE, 0x02);
}

#[test]
fn instruction_discriminators_unique() {
    let discs = [IX_INITIALIZE, IX_ALLOCATE, IX_CLOSE];
    for i in 0..discs.len() {
        for j in (i + 1)..discs.len() {
            assert_ne!(discs[i], discs[j]);
        }
    }
}

#[test]
fn account_type_tags_sequential() {
    assert_eq!(ACCOUNT_TYPE_MARKET_CONFIG, 0x00);
    assert_eq!(ACCOUNT_TYPE_ASSET_ORDER_STATUS, 0x01);
    assert_eq!(ACCOUNT_TYPE_ASSET_BALANCE_LEDGER, 0x02);
    assert_eq!(ACCOUNT_TYPE_ARENA_ALLOCATOR, 0x03);
    assert_eq!(ACCOUNT_TYPE_SLAB_ALLOCATOR, 0x04);
}

#[test]
fn account_type_tags_unique() {
    let tags = [
        ACCOUNT_TYPE_MARKET_CONFIG,
        ACCOUNT_TYPE_ASSET_ORDER_STATUS,
        ACCOUNT_TYPE_ASSET_BALANCE_LEDGER,
        ACCOUNT_TYPE_ARENA_ALLOCATOR,
        ACCOUNT_TYPE_SLAB_ALLOCATOR,
    ];
    for i in 0..tags.len() {
        for j in (i + 1)..tags.len() {
            assert_ne!(tags[i], tags[j]);
        }
    }
}

#[test]
fn initialize_market_config_wire_format() {
    let bump = 254u8;
    let data = [IX_INITIALIZE, ACCOUNT_TYPE_MARKET_CONFIG, bump];

    assert_eq!(data[0], 0x00);
    assert_eq!(data[1], 0x00);
    assert_eq!(data[2], 254);
    assert_eq!(data.len(), 3);
    assert_eq!(decode_instruction(&data), Ok(Instruction::InitializeMarketConfig { bump: 254 }));
}

#[test]
fn initialize_arena_wire_format() {
    let bump = 255u8;
    let arena_type = 0x02u8;
    let data = [IX_INITIALIZE, ACCOUNT_TYPE_ARENA_ALLOCATOR, bump, arena_type];

    assert_eq!(data.len(), 4);
    assert_eq!(data[3], 0x02);
    assert_eq!(
        decode_instruction(&data),
        Ok(Instruction::InitializeArenaAllocator { bump: 255, arena_type: 0x02 })
    );
}

#[test]
fn initialize_slab_wire_format() {
    let bump = 253u8;
    let slab_type = 0x10u8;
    let slab_index = 0u8;
    let data = [IX_INITIALIZE, ACCOUNT_TYPE_SLAB_ALLOCATOR, bump, slab_type, slab_index];

    assert_eq!(data.len(), 5);
    assert_eq!(data[3], 0x10);
    assert_eq!(data[4], 0);
    assert_eq!(
        decode_instruction(&data),
        Ok(Instruction::InitializeSlabAllocator { bump: 253, slab_type: 0x10, slab_index: 0 })
    );
}

#[test]
fn allocate_wire_format() {
    let data = [IX_ALLOCATE, ACCOUNT_TYPE_ARENA_ALLOCATOR];

    assert_eq!(data.len(), 2);
    assert_eq!(data[0], 0x01);
    assert_eq!(
        decode_instruction(&data),
        Ok(Instruction::AllocateArenaOrSlab { expected_discriminator: arena_allocator::DISCRIMINATOR })
    );
}

#[test]
fn close_wire_format() {
    let data = [IX_CLOSE, ACCOUNT_TYPE_SLAB_ALLOCATOR];

    assert_eq!(data.len(), 2);
    assert_eq!(data[0], 0x02);
    assert_eq!(
        decode_instruction(&data),
        Ok(Instruction::Close { expected_discriminator: slab_allocator::DISCRIMINATOR })
    );
}

#[test]
fn decode_empty_data_is_too_short() {
    assert_eq!(decode_instruction(&[]), Err(IncognitusError::InstructionDataTooShort));
}

#[test]
fn decode_unknown_instruction_tag_is_invalid() {
    assert_eq!(decode_instruction(&[0x03, 0x00, 0x00]), Err(IncognitusError::InvalidInstruction));
    assert_eq!(decode_instruction(&[0xFF]), Err(IncognitusError::InvalidInstruction));
}

#[test]
fn decode_initialize_lengths() {
    assert_eq!(decode_instruction(&[IX_INITIALIZE]), Err(IncognitusError::InstructionDataTooShort));
    assert_eq!(
        decode_instruction(&[IX_INITIALIZE, ACCOUNT_TYPE_MARKET_CONFIG]),
        Err(IncognitusError::InstructionDataTooShort)
    );
    // Arena needs its type byte, slab its type and index bytes.
    assert_eq!(
        decode_instruction(&[IX_INITIALIZE, ACCOUNT_TYPE_ARENA_ALLOCATOR, 1]),
        Err(IncognitusError::InstructionDataTooShort)
    );
    assert_eq!(
        decode_instruction(&[IX_INITIALIZE, ACCOUNT_TYPE_SLAB_ALLOCATOR, 1, 0x10]),
        Err(IncognitusError::InstructionDataTooShort)
    );
    // An unknown account type is refused once the bump is there.
    assert_eq!(
        decode_instruction(&[IX_INITIALIZE, 0x05, 1]),
        Err(IncognitusError::InvalidInstruction)
    );
    assert_eq!(
        decode_instruction(&[IX_INITIALIZE, ACCOUNT_TYPE_ASSET_ORDER_STATUS, 7, 9, 9]),
        Ok(Instruction::InitializeAssetOrderStatus { bump: 7 })
    );
    assert_eq!(
        decode_instruction(&[IX_INITIALIZE, ACCOUNT_TYPE_ASSET_BALANCE_LEDGER, 8]),
        Ok(Instruction::InitializeAssetBalanceLedger { bump: 8 })
    );
}

#[test]
fn decode_allocate_account_types() {
    assert_eq!(decode_instruction(&[IX_ALLOCATE]), Err(IncognitusError::InstructionDataTooShort));
    assert_eq!(
        decode_instruction(&[IX_ALLOCATE, ACCOUNT_TYPE_ASSET_BALANCE_LEDGER]),
        Ok(Instruction::AllocateAssetBalanceLedger)
    );
    assert_eq!(
        decode_instruction(&[IX_ALLOCATE, ACCOUNT_TYPE_SLAB_ALLOCATOR]),
        Ok(Instruction::AllocateArenaOrSlab { expected_discriminator: slab_allocator::DISCRIMINATOR })
    );
    // Fixed-size accounts do not grow.
    assert_eq!(
        decode_instruction(&[IX_ALLOCATE, ACCOUNT_TYPE_MARKET_CONFIG]),
        Err(IncognitusError::InvalidInstruction)
    );
    assert_eq!(
        decode_instruction(&[IX_ALLOCATE, ACCOUNT_TYPE_ASSET_ORDER_STATUS]),
        Err(IncognitusError::InvalidInstruction)
    );
}

#[test]
fn decode_close_account_types() {
    assert_eq!(decode_instruction(&[IX_CLOSE]), Err(IncognitusError::InstructionDataTooShort));
    let expected = [
        market_config::DISCRIMINATOR,
        asset_order_status::DISCRIMINATOR,
        asset_balance_ledger::DISCRIMINATOR,
        arena_allocator::DISCRIMINATOR,
        slab_allocator::DISCRIMINATOR,
    ];
    for (t, disc) in expected.iter().enumerate() {
        assert_eq!(
            decode_instruction(&[IX_CLOSE, t as u8]),
            Ok(Instruction::Close { expected_discriminator: *disc })
        );
    }
    assert_eq!(decode_instruction(&[IX_CLOSE, 0x05]), Err(IncognitusError::InvalidInstruction));
}
