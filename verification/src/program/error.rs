//! The program's error codes (custom range 0x100–0x1FF).
use vstd::prelude::*;

verus! {

/// Custom program errors.
#[derive(Clone, Copy, Debug, PartialEq, Eq, Structural)]
pub enum IncognitusError {
    /// Account discriminator mismatch.
    InvalidDiscriminator,
    /// Account is not owned by this program.
    InvalidOwner,
    /// Account is not a signer.
    MissingRequiredSigner,
    /// Account is not writable.
    AccountNotWritable,
    /// PDA derivation mismatch.
    InvalidPda,
    /// Account already initialized (it already holds data).
    AlreadyInitialized,
    /// Account not initialized (too short to hold a discriminator).
    NotInitialized,
    /// Invalid account data length.
    InvalidDataLength,
    /// Close operation: account has non-zero close index remaining.
    CloseNotComplete,
    /// Close operation: closing discriminator already set.
    AlreadyClosing,
    /// Provided system program is incorrect.
    InvalidSystemProgram,
    /// Provided rent sysvar is incorrect.
    InvalidRentSysvar,
    /// Allocate: new size exceeds maximum (10 MiB).
    ExceedsMaxAccountSize,
    /// Allocate: new size is not aligned to the 10 KiB increment.
    InvalidAllocateSize,
    /// Instruction data too short.
    InstructionDataTooShort,
    /// Invalid instruction or account-type tag.
    InvalidInstruction,
    /// Wrong number of accounts provided.
    WrongNumberOfAccounts,
}

/// The numeric code of each error.
pub open spec fn error_code(e: IncognitusError) -> u32 {
    match e {
        IncognitusError::InvalidDiscriminator => 0x100,
        IncognitusError::InvalidOwner => 0x101,
        IncognitusError::MissingRequiredSigner => 0x102,
        IncognitusError::AccountNotWritable => 0x103,
        IncognitusError::InvalidPda => 0x104,
        IncognitusError::AlreadyInitialized => 0x105,
        IncognitusError::NotInitialized => 0x106,
        IncognitusError::InvalidDataLength => 0x107,
        IncognitusError::CloseNotComplete => 0x108,
        IncognitusError::AlreadyClosing => 0x109,
        IncognitusError::InvalidSystemProgram => 0x10A,
        IncognitusError::InvalidRentSysvar => 0x10B,
        IncognitusError::ExceedsMaxAccountSize => 0x10C,
        IncognitusError::InvalidAllocateSize => 0x10D,
        IncognitusError::InstructionDataTooShort => 0x10E,
        IncognitusError::InvalidInstruction => 0x10F,
        IncognitusError::WrongNumberOfAccounts => 0x110,
    }
}

impl IncognitusError {
    /// The numeric code carried in a custom program error.
    pub fn code(&self) -> (r: u32)
        ensures
            r == error_code(*self),
            0x100 <= r <= 0x1FF,
    {
        match self {
            IncognitusError::InvalidDiscriminator => 0x100,
            IncognitusError::InvalidOwner => 0x101,
            IncognitusError::MissingRequiredSigner => 0x102,
            IncognitusError::AccountNotWritable => 0x103,
            IncognitusError::InvalidPda => 0x104,
            IncognitusError::AlreadyInitialized => 0x105,
            IncognitusError::NotInitialized => 0x106,
            IncognitusError::InvalidDataLength => 0x107,
            IncognitusError::CloseNotComplete => 0x108,
            IncognitusError::AlreadyClosing => 0x109,
            IncognitusError::InvalidSystemProgram => 0x10A,
            IncognitusError::InvalidRentSysvar => 0x10B,
            IncognitusError::ExceedsMaxAccountSize => 0x10C,
            IncognitusError::InvalidAllocateSize => 0x10D,
            IncognitusError::InstructionDataTooShort => 0x10E,
            IncognitusError::InvalidInstruction => 0x10F,
            IncognitusError::WrongNumberOfAccounts => 0x110,
        }
    }
}

/// Distinct errors have distinct codes, all in the custom range.
pub proof fn law_error_codes_distinct(a: IncognitusError, b: IncognitusError)
    ensures
        0x100 <= error_code(a) <= 0x1FF,
        a != b ==> error_code(a) != error_code(b),
{
}

} // verus!
