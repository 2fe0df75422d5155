//! Close: zeroes a program account in chunks over as many calls as its
//! size needs, then hands its lamports to a destination account.
//!
//! Instruction data: [0] tag 0x02, [1] account type.  Accounts: [0]
//! authority (signer), [1] the account to close (owned by the program),
//! [2] destination of the lamports.
//!
//! The first call marks the account with `CLOSING_DISCRIMINATOR` and keeps
//! the offset of the next byte to zero (the close index) at [4..8]; every
//! call zeroes up to `ZERO_CHUNK_SIZE` bytes from the close index.  The call
//! that reaches the end also zeroes the first eight bytes and moves all
//! lamports to the destination.
use vstd::prelude::*;
use crate::le::{le_u32, lemma_put_u32, put_u32, read_u32, write_u32};
use crate::program::account::{same_address, Account};
use crate::program::error::IncognitusError;
use crate::program::instructions::{
    ACCOUNT_TYPE_ARENA_ALLOCATOR, ACCOUNT_TYPE_ASSET_BALANCE_LEDGER,
    ACCOUNT_TYPE_ASSET_ORDER_STATUS, ACCOUNT_TYPE_MARKET_CONFIG, ACCOUNT_TYPE_SLAB_ALLOCATOR,
};
use crate::program::processor::Instruction;
use crate::program::state::{
    arena_allocator, asset_balance_ledger, asset_order_status, market_config, read_discriminator,
    slab_allocator, write_discriminator, CLOSING_DISCRIMINATOR,
};

verus! {

/// Bytes zeroed per call.
pub const ZERO_CHUNK_SIZE: usize = 8192;

/// The first failing check on the target of a close call, given whether
/// the authority signed, the target's owner and its data.
pub open spec fn close_target_error(
    program_id: Seq<u8>,
    authority_signed: bool,
    owner: Seq<u8>,
    data: Seq<u8>,
    expected_discriminator: u32,
) -> Option<IncognitusError> {
    if !authority_signed {
        Some(IncognitusError::MissingRequiredSigner)
    } else if owner != program_id {
        Some(IncognitusError::InvalidOwner)
    } else if data.len() < 8 {
        Some(IncognitusError::InvalidDataLength)
    } else if le_u32(data, 0) != CLOSING_DISCRIMINATOR && le_u32(data, 0) != expected_discriminator {
        Some(IncognitusError::InvalidDiscriminator)
    } else {
        None
    }
}

/// The first failing check of a close call.
pub open spec fn close_check_error(program_id: Seq<u8>, a: Seq<Account>, expected_discriminator: u32) -> Option<IncognitusError> {
    if a.len() < 3 {
        Some(IncognitusError::WrongNumberOfAccounts)
    } else {
        close_target_error(program_id, a[0].is_signer, a[1].owner@, a[1].data@, expected_discriminator)
    }
}

/// The checks of a close call on its target (see `close_target_error`),
/// reading the target's data in place.
pub fn check_close_target(
    program_id: &[u8; 32],
    authority_signed: bool,
    target_owner: &[u8; 32],
    target_data: &[u8],
    expected_discriminator: u32,
) -> (r: Result<(), IncognitusError>)
    ensures
        r is Err <==> close_target_error(program_id@, authority_signed, target_owner@, target_data@, expected_discriminator) is Some,
        r matches Err(e) ==> close_target_error(program_id@, authority_signed, target_owner@, target_data@, expected_discriminator) == Some(e),
{
    if !authority_signed {
        return Err(IncognitusError::MissingRequiredSigner);
    }
    if !same_address(target_owner, program_id) {
        return Err(IncognitusError::InvalidOwner);
    }
    if target_data.len() < 8 {
        return Err(IncognitusError::InvalidDataLength);
    }
    let disc = read_discriminator(target_data);
    if disc != CLOSING_DISCRIMINATOR && disc != expected_discriminator {
        return Err(IncognitusError::InvalidDiscriminator);
    }
    Ok(())
}

/// `s` with the bytes of `[lo, hi)` set to zero.
pub open spec fn zeroed(s: Seq<u8>, lo: int, hi: int) -> Seq<u8> {
    Seq::new(s.len(), |i: int| if lo <= i < hi {
        0u8
    } else {
        s[i]
    })
}

/// The data as the zeroing of one call starts: unchanged when the account
/// is already closing, otherwise marked closing with close index 8.
pub open spec fn close_start_data(d: Seq<u8>) -> Seq<u8> {
    if le_u32(d, 0) == CLOSING_DISCRIMINATOR {
        d
    } else {
        put_u32(put_u32(d, 0, CLOSING_DISCRIMINATOR), 4, 8)
    }
}

/// The close index from which one call zeroes.
pub open spec fn close_start_index(d: Seq<u8>) -> int {
    if le_u32(d, 0) == CLOSING_DISCRIMINATOR {
        le_u32(d, 4) as int
    } else {
        8
    }
}

/// Where the zeroing of one call stops.
pub open spec fn close_end_index(d: Seq<u8>) -> int {
    let ci = close_start_index(d);
    if ci + ZERO_CHUNK_SIZE < d.len() {
        ci + ZERO_CHUNK_SIZE
    } else {
        d.len() as int
    }
}

/// The data after one call: the chunk zeroed and the close index advanced,
/// or, when the chunk reaches the end, the first eight bytes zeroed too.
pub open spec fn close_step_data(d: Seq<u8>) -> Seq<u8> {
    let d2 = zeroed(close_start_data(d), close_start_index(d), close_end_index(d));
    if close_end_index(d) < d.len() {
        put_u32(d2, 4, close_end_index(d) as u32)
    } else {
        zeroed(d2, 0, 8)
    }
}

/// Whether one call finishes the close.
pub open spec fn close_finishes(d: Seq<u8>) -> bool {
    close_end_index(d) >= d.len()
}

/// Sets the bytes of `[lo, hi)` of `data` to zero.
fn zero_bytes(data: &mut [u8], lo: usize, hi: usize)
    requires
        hi <= old(data)@.len(),
    ensures
        final(data)@ == zeroed(old(data)@, lo as int, hi as int),
{
    let mut i = lo;
    while i < hi
        invariant
            hi <= data@.len(),
            data@.len() == old(data)@.len(),
            lo <= i || hi <= i,
            forall|k: int| 0 <= k < data@.len() ==> data@[k] == (if lo <= k < i && k < hi {
                0u8
            } else {
                old(data)@[k]
            }),
        decreases hi - i,
    {
        data[i] = 0;
        i = i + 1;
    }
    assert(data@ =~= zeroed(old(data)@, lo as int, hi as int));
}

/// One close step on the target's data in place, for data that passed the
/// checks (`close_target_error`): marks it closing on the first call,
/// zeroes the next chunk, and says whether the close is finished (see
/// `close_step_data`).
pub fn close_data(data: &mut [u8], expected_discriminator: u32) -> (r: bool)
    requires
        8 <= old(data)@.len() <= u32::MAX,
        le_u32(old(data)@, 0) == CLOSING_DISCRIMINATOR || le_u32(old(data)@, 0) == expected_discriminator,
    ensures
        final(data)@ == close_step_data(old(data)@),
        r == close_finishes(old(data)@),
{
    let data_len = data.len();
    let disc = read_discriminator(data);
    let close_index: usize;
    if disc == CLOSING_DISCRIMINATOR {
        close_index = read_u32(data, 4) as usize;
    } else {
        write_discriminator(data, CLOSING_DISCRIMINATOR);
        close_index = 8;
        write_u32(data, 4, close_index as u32);
    }
    let zero_end = if close_index > data_len || data_len - close_index <= ZERO_CHUNK_SIZE {
        data_len
    } else {
        close_index + ZERO_CHUNK_SIZE
    };
    zero_bytes(data, close_index, zero_end);
    if zero_end < data_len {
        write_u32(data, 4, zero_end as u32);
        return false;
    }
    zero_bytes(data, 0, 8);
    true
}

/// The lamports of the target and of the destination once a close has
/// finished: all of them moved to the destination.
pub fn close_lamports(target: u64, destination: u64) -> (r: (u64, u64))
    requires
        target + destination <= u64::MAX,
    ensures
        r == (0u64, (destination + target) as u64),
{
    (0, destination + target)
}

/// What one close call (`close_program_account`) does, from the accounts
/// `a` before the call to the result `r` and the accounts `b` after it:
/// the first failing check leaves the accounts as they were; otherwise the
/// target's data steps on (`close_step_data`), every other account but the
/// destination is left alone, and the call that finishes moves all of the
/// target's lamports to the destination.
pub open spec fn close_outcome(
    program_id: Seq<u8>,
    a: Seq<Account>,
    expected_discriminator: u32,
    r: Result<(), IncognitusError>,
    b: Seq<Account>,
) -> bool {
    match close_check_error(program_id, a, expected_discriminator) {
        Some(e) => r == Err::<(), IncognitusError>(e) && b == a,
        None => {
            let d = a[1].data@;
            &&& r is Ok
            &&& b.len() == a.len()
            &&& forall|i: int| 0 <= i < a.len() && i != 1 && i != 2 ==> b[i] == a[i]
            &&& b[1].data@ == close_step_data(d)
            &&& b[1].address == a[1].address && b[1].owner == a[1].owner && b[1].is_signer == a[1].is_signer
            &&& b[2].address == a[2].address && b[2].owner == a[2].owner && b[2].is_signer == a[2].is_signer
            &&& b[2].data == a[2].data
            &&& if close_finishes(d) {
                &&& b[1].lamports == 0
                &&& b[2].lamports == a[2].lamports + a[1].lamports
            } else {
                &&& b[1].lamports == a[1].lamports
                &&& b[2].lamports == a[2].lamports
            }
        },
    }
}

/// One close call on `accounts[1]`; see the module documentation.
pub fn close_program_account(program_id: &[u8; 32], accounts: &mut Vec<Account>, expected_discriminator: u32) -> (r: Result<(), IncognitusError>)
    requires
        old(accounts)@.len() >= 3 ==> old(accounts)@[1].lamports + old(accounts)@[2].lamports <= u64::MAX,
        old(accounts)@.len() >= 2 ==> old(accounts)@[1].data@.len() <= u32::MAX,
    ensures
        close_outcome(program_id@, old(accounts)@, expected_discriminator, r, final(accounts)@),
{
    if accounts.len() < 3 {
        return Err(IncognitusError::WrongNumberOfAccounts);
    }
    match check_close_target(
        program_id,
        accounts[0].is_signer,
        &accounts[1].owner,
        accounts[1].data.as_slice(),
        expected_discriminator,
    ) {
        Err(e) => return Err(e),
        Ok(()) => {},
    }
    let mut data: Vec<u8> = Vec::new();
    std::mem::swap(&mut data, &mut accounts[1].data);
    let finished = close_data(data.as_mut_slice(), expected_discriminator);
    std::mem::swap(&mut data, &mut accounts[1].data);
    if finished {
        let (target, destination) = close_lamports(accounts[1].lamports, accounts[2].lamports);
        accounts[1].lamports = target;
        accounts[2].lamports = destination;
    }
    Ok(())
}

/// The discriminator that an account of type `account_type` carries, for
/// the five account types that can be closed.
pub open spec fn close_target(account_type: u8) -> Option<u32> {
    if account_type == ACCOUNT_TYPE_MARKET_CONFIG {
        Some(market_config::DISCRIMINATOR)
    } else if account_type == ACCOUNT_TYPE_ASSET_ORDER_STATUS {
        Some(asset_order_status::DISCRIMINATOR)
    } else if account_type == ACCOUNT_TYPE_ASSET_BALANCE_LEDGER {
        Some(asset_balance_ledger::DISCRIMINATOR)
    } else if account_type == ACCOUNT_TYPE_ARENA_ALLOCATOR {
        Some(arena_allocator::DISCRIMINATOR)
    } else if account_type == ACCOUNT_TYPE_SLAB_ALLOCATOR {
        Some(slab_allocator::DISCRIMINATOR)
    } else {
        None
    }
}

/// The discriminator of a closable account type (see `close_target`).
pub fn close_discriminator(account_type: u8) -> (r: Option<u32>)
    ensures
        r == close_target(account_type),
{
    if account_type == ACCOUNT_TYPE_MARKET_CONFIG {
        Some(market_config::DISCRIMINATOR)
    } else if account_type == ACCOUNT_TYPE_ASSET_ORDER_STATUS {
        Some(asset_order_status::DISCRIMINATOR)
    } else if account_type == ACCOUNT_TYPE_ASSET_BALANCE_LEDGER {
        Some(asset_balance_ledger::DISCRIMINATOR)
    } else if account_type == ACCOUNT_TYPE_ARENA_ALLOCATOR {
        Some(arena_allocator::DISCRIMINATOR)
    } else if account_type == ACCOUNT_TYPE_SLAB_ALLOCATOR {
        Some(slab_allocator::DISCRIMINATOR)
    } else {
        None
    }
}

/// The close instruction that `data` encodes: the account type at [1].
pub open spec fn decoded(data: Seq<u8>) -> Result<Instruction, IncognitusError> {
    if data.len() < 2 {
        Err(IncognitusError::InstructionDataTooShort)
    } else {
        match close_target(data[1]) {
            Some(disc) => Ok(Instruction::Close { expected_discriminator: disc }),
            None => Err(IncognitusError::InvalidInstruction),
        }
    }
}

/// Decodes close instruction data (see `decoded`).
pub fn decode(instruction_data: &[u8]) -> (r: Result<Instruction, IncognitusError>)
    ensures
        r == decoded(instruction_data@),
{
    if instruction_data.len() < 2 {
        return Err(IncognitusError::InstructionDataTooShort);
    }
    match close_discriminator(instruction_data[1]) {
        Some(disc) => Ok(Instruction::Close { expected_discriminator: disc }),
        None => Err(IncognitusError::InvalidInstruction),
    }
}

/// The close instruction: decodes the account type and makes one close
/// call on `accounts[1]` (see `close_program_account`).  Data that is too
/// short or names no closable type leaves the accounts as they were.
pub fn process(program_id: &[u8; 32], accounts: &mut Vec<Account>, instruction_data: &[u8]) -> (r: Result<(), IncognitusError>)
    requires
        old(accounts)@.len() >= 3 ==> old(accounts)@[1].lamports + old(accounts)@[2].lamports <= u64::MAX,
        old(accounts)@.len() >= 2 ==> old(accounts)@[1].data@.len() <= u32::MAX,
    ensures
        match decoded(instruction_data@) {
            Err(e) => r == Err::<(), IncognitusError>(e) && final(accounts)@ == old(accounts)@,
            Ok(ix) => ix matches Instruction::Close { expected_discriminator } && close_outcome(
                program_id@,
                old(accounts)@,
                expected_discriminator,
                r,
                final(accounts)@,
            ),
        },
{
    match decode(instruction_data) {
        Err(e) => Err(e),
        Ok(Instruction::Close { expected_discriminator }) => close_program_account(program_id, accounts, expected_discriminator),
        Ok(_) => Err(IncognitusError::InvalidInstruction),
    }
}

// ── laws ─────────────────────────────────────────────────────────────────────

/// An account part-way through its close: marked closing, with a close
/// index in `[8, len]` and every byte of `[8, close index)` zero.
pub open spec fn closing_wf(d: Seq<u8>) -> bool {
    &&& d.len() >= 8
    &&& le_u32(d, 0) == CLOSING_DISCRIMINATOR
    &&& 8 <= le_u32(d, 4) <= d.len()
    &&& forall|i: int| 8 <= i < le_u32(d, 4) ==> d[i] == 0
}

/// The data after `n` successive close calls.
pub open spec fn close_iter(d: Seq<u8>, n: nat) -> Seq<u8>
    decreases n,
{
    if n == 0 {
        d
    } else {
        close_step_data(close_iter(d, (n - 1) as nat))
    }
}

/// One close call, on an account of the expected type or one part-way
/// through its close, either leaves it part-way through its close with the
/// close index one chunk further on, or finishes with every byte zero.
pub proof fn law_close_step(d: Seq<u8>, expected_discriminator: u32)
    requires
        8 <= d.len() <= u32::MAX,
        expected_discriminator != CLOSING_DISCRIMINATOR,
        le_u32(d, 0) == expected_discriminator || closing_wf(d),
    ensures
        close_step_data(d).len() == d.len(),
        !close_finishes(d) ==> closing_wf(close_step_data(d)) && le_u32(close_step_data(d), 4)
            == close_start_index(d) + ZERO_CHUNK_SIZE,
        close_finishes(d) ==> forall|i: int| 0 <= i < d.len() ==> close_step_data(d)[i] == 0,
{
    let s0 = close_start_data(d);
    let ci = close_start_index(d);
    let end = close_end_index(d);
    if le_u32(d, 0) == CLOSING_DISCRIMINATOR {
        assert(s0 == d);
    } else {
        let s1 = put_u32(d, 0, CLOSING_DISCRIMINATOR);
        lemma_put_u32(d, 0, CLOSING_DISCRIMINATOR);
        lemma_put_u32(s1, 4, 8);
        assert(le_u32(s0, 0) == le_u32(s1, 0));
    }
    assert(s0.len() == d.len());
    assert(le_u32(s0, 0) == CLOSING_DISCRIMINATOR);
    assert(8 <= ci);
    assert(forall|i: int| 8 <= i < ci ==> s0[i] == 0);
    let d2 = zeroed(s0, ci, end);
    assert(forall|i: int| 8 <= i < end ==> d2[i] == 0);
    if end < d.len() {
        let st = put_u32(d2, 4, end as u32);
        lemma_put_u32(d2, 4, end as u32);
        assert(le_u32(st, 0) == le_u32(d2, 0));
        assert(le_u32(d2, 0) == le_u32(s0, 0));
        assert forall|i: int| 8 <= i < end implies st[i] == 0 by {
            assert(st[i] == d2[i]);
        }
    }
}

/// A close that starts on an account of the expected type moves through
/// the data one chunk per call: while no call has finished, call `k` (from
/// zero) zeroes from byte `8 + k * ZERO_CHUNK_SIZE`; the call that finishes
/// is the first whose chunk reaches the end of the data, and it leaves every
/// byte zero.
pub proof fn law_close_completes(d: Seq<u8>, expected_discriminator: u32, k: nat)
    requires
        8 <= d.len() <= u32::MAX,
        expected_discriminator != CLOSING_DISCRIMINATOR,
        le_u32(d, 0) == expected_discriminator,
        k == 0 || 8 + ZERO_CHUNK_SIZE * k < d.len(),
    ensures
        close_iter(d, k).len() == d.len(),
        close_start_index(close_iter(d, k)) == 8 + ZERO_CHUNK_SIZE * k,
        k > 0 ==> closing_wf(close_iter(d, k)),
        close_finishes(close_iter(d, k)) <==> d.len() <= 8 + ZERO_CHUNK_SIZE * (k + 1),
        close_finishes(close_iter(d, k)) ==> forall|i: int|
            0 <= i < d.len() ==> #[trigger] close_iter(d, k + 1)[i] == 0,
    decreases k,
{
    if k == 0 {
        law_close_step(d, expected_discriminator);
    } else {
        let k1 = (k - 1) as nat;
        law_close_completes(d, expected_discriminator, k1);
        let p = close_iter(d, k1);
        law_close_step(p, expected_discriminator);
        assert(close_iter(d, k) == close_step_data(p));
        law_close_step(close_iter(d, k), expected_discriminator);
    }
}

/// An account that a close call has gone over no longer carries any of the
/// five account discriminators: it is marked closing, or, once the close
/// has finished, all zero.  So no check that asks for an account type
/// accepts it again.
pub proof fn law_close_blocks_reuse(d: Seq<u8>, expected_discriminator: u32, disc: u32)
    requires
        8 <= d.len() <= u32::MAX,
        expected_discriminator != CLOSING_DISCRIMINATOR,
        le_u32(d, 0) == expected_discriminator || closing_wf(d),
        disc == market_config::DISCRIMINATOR || disc == asset_order_status::DISCRIMINATOR || disc
            == asset_balance_ledger::DISCRIMINATOR || disc == arena_allocator::DISCRIMINATOR || disc
            == slab_allocator::DISCRIMINATOR,
    ensures
        le_u32(close_step_data(d), 0) != disc,
{
    law_close_step(d, expected_discriminator);
    let st = close_step_data(d);
    if close_finishes(d) {
        assert(st[0] == 0 && st[1] == 0 && st[2] == 0 && st[3] == 0);
    }
}

/// A close call goes ahead exactly when there are three accounts, the
/// authority signed, and the target is owned by the program, holds at least
/// eight bytes, and carries the expected discriminator or is already
/// closing; the refusals come in that order.
pub proof fn law_close_checks(program_id: Seq<u8>, a: Seq<Account>, expected_discriminator: u32)
    ensures
        close_check_error(program_id, a, expected_discriminator) is None <==> (a.len() >= 3
            && a[0].is_signer && a[1].owner@ == program_id && a[1].data@.len() >= 8 && (le_u32(
            a[1].data@,
            0,
        ) == 0xFFFF_FFFF || le_u32(a[1].data@, 0) == expected_discriminator)),
        a.len() < 3 ==> close_check_error(program_id, a, expected_discriminator) == Some(
            IncognitusError::WrongNumberOfAccounts,
        ),
        a.len() >= 3 && !a[0].is_signer ==> close_check_error(program_id, a, expected_discriminator)
            == Some(IncognitusError::MissingRequiredSigner),
        a.len() >= 3 && a[0].is_signer && a[1].owner@ != program_id ==> close_check_error(
            program_id,
            a,
            expected_discriminator,
        ) == Some(IncognitusError::InvalidOwner),
        a.len() >= 3 && a[0].is_signer && a[1].owner@ == program_id && a[1].data@.len() < 8
            ==> close_check_error(program_id, a, expected_discriminator) == Some(
            IncognitusError::InvalidDataLength,
        ),
{
}

/// A close call on a target of the expected type always reports success
/// and leaves the target marked closing or, on the last call, all zero with
/// its lamports moved: the first call starts zeroing at byte 8, and no
/// call zeroes more than 8192 bytes of the data.
pub proof fn law_close_first_call(d: Seq<u8>, expected_discriminator: u32)
    requires
        8 <= d.len() <= u32::MAX,
        expected_discriminator != 0xFFFF_FFFF,
        le_u32(d, 0) == expected_discriminator,
    ensures
        close_start_index(d) == 8,
        close_end_index(d) == if d.len() <= 8 + 8192 { d.len() as int } else { 8200int },
        !close_finishes(d) ==> le_u32(close_step_data(d), 0) == 0xFFFF_FFFF && le_u32(
            close_step_data(d),
            4,
        ) == 8 + 8192 && forall|i: int|
            8 + 8192 <= i < d.len() ==> #[trigger] close_step_data(d)[i] == d[i],
{
    law_close_step(d, expected_discriminator);
    if !close_finishes(d) {
        let s0 = close_start_data(d);
        let s1 = put_u32(d, 0, CLOSING_DISCRIMINATOR);
        lemma_put_u32(d, 0, CLOSING_DISCRIMINATOR);
        lemma_put_u32(s1, 4, 8);
        let d2 = zeroed(s0, 8, 8200int);
        lemma_put_u32(d2, 4, (8 + 8192) as u32);
        assert forall|i: int| 8 + 8192 <= i < d.len() implies #[trigger] close_step_data(d)[i] == d[i] by {
            assert(close_step_data(d)[i] == d2[i]);
            assert(s0[i] == s1[i]);
        }
    }
}

} // verus!
