//! Error codes.
use incognitus::program::error::IncognitusError;

fn all_errors() -> [IncognitusError; 17] {
    [
        IncognitusError::InvalidDiscriminator,
        IncognitusError::InvalidOwner,
        IncognitusError::MissingRequiredSigner,
        IncognitusError::AccountNotWritable,
        IncognitusError::InvalidPda,
        IncognitusError::AlreadyInitialized,
        IncognitusError::NotInitialized,
        IncognitusError::InvalidDataLength,
        IncognitusError::CloseNotComplete,
        IncognitusError::AlreadyClosing,
        IncognitusError::InvalidSystemProgram,
        IncognitusError::InvalidRentSysvar,
        IncognitusError::ExceedsMaxAccountSize,
        IncognitusError::InvalidAllocateSize,
        IncognitusError::InstructionDataTooShort,
        IncognitusError::InvalidInstruction,
        IncognitusError::WrongNumberOfAccounts,
    ]
}

#[test]
fn error_codes_match_expected_values() {
    assert_eq!(IncognitusError::InvalidDiscriminator.code(), 0x100);
    assert_eq!(IncognitusError::InvalidOwner.code(), 0x101);
    assert_eq!(IncognitusError::MissingRequiredSigner.code(), 0x102);
    assert_eq!(IncognitusError::AccountNotWritable.code(), 0x103);
    assert_eq!(IncognitusError::InvalidPda.code(), 0x104);
    assert_eq!(IncognitusError::AlreadyInitialized.code(), 0x105);
    assert_eq!(IncognitusError::NotInitialized.code(), 0x106);
    assert_eq!(IncognitusError::InvalidDataLength.code(), 0x107);
    assert_eq!(IncognitusError::CloseNotComplete.code(), 0x108);
    assert_eq!(IncognitusError::AlreadyClosing.code(), 0x109);
    assert_eq!(IncognitusError::InvalidSystemProgram.code(), 0x10A);
    assert_eq!(IncognitusError::InvalidRentSysvar.code(), 0x10B);
    assert_eq!(IncognitusError::ExceedsMaxAccountSize.code(), 0x10C);
    assert_eq!(IncognitusError::InvalidAllocateSize.code(), 0x10D);
    assert_eq!(IncognitusError::InstructionDataTooShort.code(), 0x10E);
    assert_eq!(IncognitusError::InvalidInstruction.code(), 0x10F);
    assert_eq!(IncognitusError::WrongNumberOfAccounts.code(), 0x110);
}

#[test]
fn error_codes_in_custom_range() {
    for e in all_errors() {
        let code = e.code();
        assert!(
            code >= 0x100 && code <= 0x1FF,
            "error code {:#06X} outside allowed range",
            code,
        );
    }
}

#[test]
fn error_codes_are_unique() {
    let codes: Vec<u32> = all_errors().iter().map(|e| e.code()).collect();
    for i in 0..codes.len() {
        for j in (i + 1)..codes.len() {
            assert_ne!(
                codes[i], codes[j],
                "error codes at index {} and {} collide: {:#06X}",
                i, j, codes[i],
            );
        }
    }
}
