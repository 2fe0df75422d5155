//! The instruction router: what a piece of instruction data asks for.
//!
//! The first byte selects the instruction (0x00 initialize, 0x01 allocate,
//! 0x02 close) and the second the account type; initialize also carries a
//! bump seed and, for arena and slab accounts, their type bytes.
use vstd::prelude::*;
use crate::program::error::IncognitusError;
use crate::program::instructions::{allocate, close, initialize, IX_ALLOCATE, IX_CLOSE, IX_INITIALIZE};
use crate::program::state::{
    arena_allocator, asset_balance_ledger, asset_order_status, market_config, slab_allocator,
};

verus! {

/// A decoded instruction, with the values that its handler takes.
#[derive(Clone, Copy, Debug, PartialEq, Eq, Structural)]
pub enum Instruction {
    InitializeMarketConfig { bump: u8 },
    InitializeAssetOrderStatus { bump: u8 },
    InitializeAssetBalanceLedger { bump: u8 },
    InitializeArenaAllocator { bump: u8, arena_type: u8 },
    InitializeSlabAllocator { bump: u8, slab_type: u8, slab_index: u8 },
    AllocateAssetBalanceLedger,
    AllocateArenaOrSlab { expected_discriminator: u32 },
    Close { expected_discriminator: u32 },
}

/// The instruction that `data` encodes, or the error it is refused with:
/// empty data is too short, and an unknown first byte is invalid.
pub open spec fn decoded(data: Seq<u8>) -> Result<Instruction, IncognitusError> {
    if data.len() == 0 {
        Err(IncognitusError::InstructionDataTooShort)
    } else if data[0] == IX_INITIALIZE {
        initialize::decoded(data)
    } else if data[0] == IX_ALLOCATE {
        allocate::decoded(data)
    } else if data[0] == IX_CLOSE {
        close::decoded(data)
    } else {
        Err(IncognitusError::InvalidInstruction)
    }
}

/// Routes instruction data to its instruction.
pub fn decode_instruction(instruction_data: &[u8]) -> (r: Result<Instruction, IncognitusError>)
    ensures
        r == decoded(instruction_data@),
{
    if instruction_data.len() == 0 {
        return Err(IncognitusError::InstructionDataTooShort);
    }
    let tag = instruction_data[0];
    if tag == IX_INITIALIZE {
        initialize::decode(instruction_data)
    } else if tag == IX_ALLOCATE {
        allocate::decode(instruction_data)
    } else if tag == IX_CLOSE {
        close::decode(instruction_data)
    } else {
        Err(IncognitusError::InvalidInstruction)
    }
}

// ── laws ─────────────────────────────────────────────────────────────────────

/// Decoding initialize data (first byte 0x00): the account type at [1]
/// selects the instruction, the bump is byte [2], an arena's type byte
/// [3], and a slab's type and index bytes [3] and [4]; data too short for
/// its account type is refused as too short, and an unknown account type
/// as invalid.
pub proof fn law_decode_initialize(data: Seq<u8>)
    requires
        data.len() >= 1,
        data[0] == 0x00,
    ensures
        data.len() < 3 ==> decoded(data) == Err::<Instruction, IncognitusError>(
            IncognitusError::InstructionDataTooShort,
        ),
        data.len() >= 3 && data[1] == 0x00 ==> decoded(data) == Ok::<Instruction, IncognitusError>(
            Instruction::InitializeMarketConfig { bump: data[2] },
        ),
        data.len() >= 3 && data[1] == 0x01 ==> decoded(data) == Ok::<Instruction, IncognitusError>(
            Instruction::InitializeAssetOrderStatus { bump: data[2] },
        ),
        data.len() >= 3 && data[1] == 0x02 ==> decoded(data) == Ok::<Instruction, IncognitusError>(
            Instruction::InitializeAssetBalanceLedger { bump: data[2] },
        ),
        data.len() == 3 && data[1] == 0x03 ==> decoded(data) == Err::<Instruction, IncognitusError>(
            IncognitusError::InstructionDataTooShort,
        ),
        data.len() >= 4 && data[1] == 0x03 ==> decoded(data) == Ok::<Instruction, IncognitusError>(
            Instruction::InitializeArenaAllocator { bump: data[2], arena_type: data[3] },
        ),
        (data.len() == 3 || data.len() == 4) && data[1] == 0x04 ==> decoded(data) == Err::<
            Instruction,
            IncognitusError,
        >(IncognitusError::InstructionDataTooShort),
        data.len() >= 5 && data[1] == 0x04 ==> decoded(data) == Ok::<Instruction, IncognitusError>(
            Instruction::InitializeSlabAllocator { bump: data[2], slab_type: data[3], slab_index: data[4] },
        ),
        data.len() >= 3 && data[1] > 0x04 ==> decoded(data) == Err::<Instruction, IncognitusError>(
            IncognitusError::InvalidInstruction,
        ),
{
}

/// Decoding allocate data (first byte 0x01): only the asset balance ledger
/// (0x02), the arena (0x03) and the slab (0x04) grow, the last two with the
/// discriminator that the account must carry; the fixed-size accounts and
/// unknown types are invalid.
pub proof fn law_decode_allocate(data: Seq<u8>)
    requires
        data.len() >= 1,
        data[0] == 0x01,
    ensures
        data.len() < 2 ==> decoded(data) == Err::<Instruction, IncognitusError>(
            IncognitusError::InstructionDataTooShort,
        ),
        data.len() >= 2 && data[1] == 0x02 ==> decoded(data) == Ok::<Instruction, IncognitusError>(
            Instruction::AllocateAssetBalanceLedger,
        ),
        data.len() >= 2 && data[1] == 0x03 ==> decoded(data) == Ok::<Instruction, IncognitusError>(
            Instruction::AllocateArenaOrSlab { expected_discriminator: arena_allocator::DISCRIMINATOR },
        ),
        data.len() >= 2 && data[1] == 0x04 ==> decoded(data) == Ok::<Instruction, IncognitusError>(
            Instruction::AllocateArenaOrSlab { expected_discriminator: slab_allocator::DISCRIMINATOR },
        ),
        data.len() >= 2 && (data[1] < 0x02 || data[1] > 0x04) ==> decoded(data) == Err::<
            Instruction,
            IncognitusError,
        >(IncognitusError::InvalidInstruction),
{
}

/// Decoding close data (first byte 0x02): each of the five account types
/// closes with the discriminator that its accounts carry; unknown types are
/// invalid.
pub proof fn law_decode_close(data: Seq<u8>)
    requires
        data.len() >= 1,
        data[0] == 0x02,
    ensures
        data.len() < 2 ==> decoded(data) == Err::<Instruction, IncognitusError>(
            IncognitusError::InstructionDataTooShort,
        ),
        data.len() >= 2 && data[1] == 0x00 ==> decoded(data) == Ok::<Instruction, IncognitusError>(
            Instruction::Close { expected_discriminator: market_config::DISCRIMINATOR },
        ),
        data.len() >= 2 && data[1] == 0x01 ==> decoded(data) == Ok::<Instruction, IncognitusError>(
            Instruction::Close { expected_discriminator: asset_order_status::DISCRIMINATOR },
        ),
        data.len() >= 2 && data[1] == 0x02 ==> decoded(data) == Ok::<Instruction, IncognitusError>(
            Instruction::Close { expected_discriminator: asset_balance_ledger::DISCRIMINATOR },
        ),
        data.len() >= 2 && data[1] == 0x03 ==> decoded(data) == Ok::<Instruction, IncognitusError>(
            Instruction::Close { expected_discriminator: arena_allocator::DISCRIMINATOR },
        ),
        data.len() >= 2 && data[1] == 0x04 ==> decoded(data) == Ok::<Instruction, IncognitusError>(
            Instruction::Close { expected_discriminator: slab_allocator::DISCRIMINATOR },
        ),
        data.len() >= 2 && data[1] > 0x04 ==> decoded(data) == Err::<Instruction, IncognitusError>(
            IncognitusError::InvalidInstruction,
        ),
{
}

/// Empty data is too short, and a first byte other than 0x00, 0x01 and
/// 0x02 names no instruction.
pub proof fn law_decode_tag(data: Seq<u8>)
    ensures
        data.len() == 0 ==> decoded(data) == Err::<Instruction, IncognitusError>(
            IncognitusError::InstructionDataTooShort,
        ),
        data.len() >= 1 && data[0] > 0x02 ==> decoded(data) == Err::<Instruction, IncognitusError>(
            IncognitusError::InvalidInstruction,
        ),
{
}

} // verus!
