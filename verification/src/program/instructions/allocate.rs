//! Allocate: grows an account.  Arena and slab accounts grow by 10 KiB up to
//! 10 MiB, an asset balance ledger by one 56-byte asset entry.
//!
//! Instruction data: [0] tag 0x01, [1] account type.  Accounts: [0] payer
//! (signer), [1] the account to grow (owned by the program), [2] system
//! program.
//!
//! The caller tops up the rent (`rent_transfer_amount` of the minimum
//! balances for the current and the new length), resizes the account to
//! `new_len`, and then lets `grow_slab_data` or `grow_arena_data` update
//! the layout.
use vstd::prelude::*;
use crate::le::{le_u32, lemma_put_u32, lemma_put_u32_apart, put_u32, read_u32, words4, write_u32};
use crate::slab_allocator::{head_node_addr, header_at};
use crate::program::account::{same_address, Account};
use crate::program::error::IncognitusError;
use crate::program::instructions::{
    ACCOUNT_TYPE_ARENA_ALLOCATOR, ACCOUNT_TYPE_ASSET_BALANCE_LEDGER, ACCOUNT_TYPE_SLAB_ALLOCATOR,
};
use crate::program::processor::Instruction;
use crate::program::state::{
    arena_allocator, asset_balance_ledger, read_discriminator, slab_allocator,
    ALLOCATE_INCREMENT, MAX_ACCOUNT_SIZE,
};

verus! {

/// The allocate instruction that `data` encodes: the account type at [1]
/// picks the ledger growth or the arena or slab growth (with the
/// discriminator that the account must carry).
pub open spec fn decoded(data: Seq<u8>) -> Result<Instruction, IncognitusError> {
    if data.len() < 2 {
        Err(IncognitusError::InstructionDataTooShort)
    } else if data[1] == ACCOUNT_TYPE_ASSET_BALANCE_LEDGER {
        Ok(Instruction::AllocateAssetBalanceLedger)
    } else if data[1] == ACCOUNT_TYPE_ARENA_ALLOCATOR {
        Ok(Instruction::AllocateArenaOrSlab { expected_discriminator: arena_allocator::DISCRIMINATOR })
    } else if data[1] == ACCOUNT_TYPE_SLAB_ALLOCATOR {
        Ok(Instruction::AllocateArenaOrSlab { expected_discriminator: slab_allocator::DISCRIMINATOR })
    } else {
        Err(IncognitusError::InvalidInstruction)
    }
}

/// Decodes allocate instruction data (see `decoded`).
pub fn decode(instruction_data: &[u8]) -> (r: Result<Instruction, IncognitusError>)
    ensures
        r == decoded(instruction_data@),
{
    if instruction_data.len() < 2 {
        return Err(IncognitusError::InstructionDataTooShort);
    }
    let account_type = instruction_data[1];
    if account_type == ACCOUNT_TYPE_ASSET_BALANCE_LEDGER {
        Ok(Instruction::AllocateAssetBalanceLedger)
    } else if account_type == ACCOUNT_TYPE_ARENA_ALLOCATOR {
        Ok(Instruction::AllocateArenaOrSlab { expected_discriminator: arena_allocator::DISCRIMINATOR })
    } else if account_type == ACCOUNT_TYPE_SLAB_ALLOCATOR {
        Ok(Instruction::AllocateArenaOrSlab { expected_discriminator: slab_allocator::DISCRIMINATOR })
    } else {
        Err(IncognitusError::InvalidInstruction)
    }
}

/// The current and the new data length of the account to grow.
pub struct GrowPlan {
    pub current_len: u64,
    pub new_len: u64,
}

/// The checks of an allocate call on its target, given whether the payer
/// signed, the target's owner and its data.
pub open spec fn grow_target_error(
    program_id: Seq<u8>,
    payer_signed: bool,
    owner: Seq<u8>,
    data: Seq<u8>,
    expected_discriminator: u32,
) -> Option<IncognitusError> {
    if !payer_signed {
        Some(IncognitusError::MissingRequiredSigner)
    } else if owner != program_id {
        Some(IncognitusError::InvalidOwner)
    } else if data.len() < 4 {
        Some(IncognitusError::NotInitialized)
    } else if le_u32(data, 0) != expected_discriminator {
        Some(IncognitusError::InvalidDiscriminator)
    } else {
        None
    }
}

/// The account checks shared by every allocate variant.
pub open spec fn grow_check_error(program_id: Seq<u8>, a: Seq<Account>, expected_discriminator: u32) -> Option<IncognitusError> {
    if a.len() < 3 {
        Some(IncognitusError::WrongNumberOfAccounts)
    } else {
        grow_target_error(program_id, a[0].is_signer, a[1].owner@, a[1].data@, expected_discriminator)
    }
}

/// The checks of an allocate call on its target (see `grow_target_error`),
/// reading the target's data in place.
pub fn check_grow_target(
    program_id: &[u8; 32],
    payer_signed: bool,
    target_owner: &[u8; 32],
    target_data: &[u8],
    expected_discriminator: u32,
) -> (r: Result<(), IncognitusError>)
    ensures
        r is Err <==> grow_target_error(program_id@, payer_signed, target_owner@, target_data@, expected_discriminator) is Some,
        r matches Err(e) ==> grow_target_error(program_id@, payer_signed, target_owner@, target_data@, expected_discriminator) == Some(e),
{
    if !payer_signed {
        return Err(IncognitusError::MissingRequiredSigner);
    }
    if !same_address(target_owner, program_id) {
        return Err(IncognitusError::InvalidOwner);
    }
    if target_data.len() < 4 {
        return Err(IncognitusError::NotInitialized);
    }
    let disc = read_discriminator(target_data);
    if disc != expected_discriminator {
        return Err(IncognitusError::InvalidDiscriminator);
    }
    Ok(())
}

/// The growth of an asset balance ledger of `current_len` bytes: one asset
/// entry more.
pub fn ledger_growth(current_len: usize) -> (r: GrowPlan)
    requires
        current_len + asset_balance_ledger::ASSET_ENTRY_SIZE <= usize::MAX,
    ensures
        r.current_len == current_len,
        r.new_len == current_len + asset_balance_ledger::ASSET_ENTRY_SIZE,
{
    let new_len = current_len + asset_balance_ledger::ASSET_ENTRY_SIZE;
    GrowPlan { current_len: current_len as u64, new_len: new_len as u64 }
}

/// The growth of an arena or slab of `current_len` bytes: one 10 KiB
/// increment, refused past 10 MiB.
pub fn arena_or_slab_growth(current_len: u64) -> (r: Result<GrowPlan, IncognitusError>)
    ensures
        current_len + ALLOCATE_INCREMENT > MAX_ACCOUNT_SIZE ==> r == Err::<GrowPlan, IncognitusError>(
            IncognitusError::ExceedsMaxAccountSize,
        ),
        current_len + ALLOCATE_INCREMENT <= MAX_ACCOUNT_SIZE ==> (r matches Ok(p) && p.current_len
            == current_len && p.new_len == current_len + ALLOCATE_INCREMENT),
{
    if current_len > MAX_ACCOUNT_SIZE - ALLOCATE_INCREMENT {
        return Err(IncognitusError::ExceedsMaxAccountSize);
    }
    Ok(GrowPlan { current_len, new_len: current_len + ALLOCATE_INCREMENT })
}

/// Checks an asset balance ledger and gives its growth by one asset entry.
pub fn allocate_asset_balance_ledger(program_id: &[u8; 32], accounts: &[Account]) -> (r: Result<GrowPlan, IncognitusError>)
    requires
        accounts@.len() >= 2 ==> accounts@[1].data@.len() + asset_balance_ledger::ASSET_ENTRY_SIZE <= usize::MAX,
    ensures
        r is Err <==> grow_check_error(program_id@, accounts@, asset_balance_ledger::DISCRIMINATOR) is Some,
        r matches Err(e) ==> grow_check_error(program_id@, accounts@, asset_balance_ledger::DISCRIMINATOR) == Some(e),
        r matches Ok(p) ==> p.current_len == accounts@[1].data@.len() && p.new_len == accounts@[1].data@.len()
            + asset_balance_ledger::ASSET_ENTRY_SIZE,
{
    if accounts.len() < 3 {
        return Err(IncognitusError::WrongNumberOfAccounts);
    }
    match check_grow_target(
        program_id,
        accounts[0].is_signer,
        &accounts[1].owner,
        accounts[1].data.as_slice(),
        asset_balance_ledger::DISCRIMINATOR,
    ) {
        Err(e) => return Err(e),
        Ok(()) => {},
    }
    Ok(ledger_growth(accounts[1].data.len()))
}

/// Checks an arena or slab account (by its expected discriminator) and gives
/// its growth by one 10 KiB increment; growing past 10 MiB is refused.
pub fn allocate_arena_or_slab(program_id: &[u8; 32], accounts: &[Account], expected_discriminator: u32) -> (r: Result<GrowPlan, IncognitusError>)
    ensures
        grow_check_error(program_id@, accounts@, expected_discriminator) is Some ==> r == Err::<GrowPlan, IncognitusError>(
            grow_check_error(program_id@, accounts@, expected_discriminator)->0,
        ),
        grow_check_error(program_id@, accounts@, expected_discriminator) is None ==> {
            let len = accounts@[1].data@.len();
            if len + ALLOCATE_INCREMENT > MAX_ACCOUNT_SIZE {
                r == Err::<GrowPlan, IncognitusError>(IncognitusError::ExceedsMaxAccountSize)
            } else {
                r matches Ok(p) && p.current_len == len && p.new_len == len + ALLOCATE_INCREMENT
            }
        },
{
    if accounts.len() < 3 {
        return Err(IncognitusError::WrongNumberOfAccounts);
    }
    match check_grow_target(
        program_id,
        accounts[0].is_signer,
        &accounts[1].owner,
        accounts[1].data.as_slice(),
        expected_discriminator,
    ) {
        Err(e) => return Err(e),
        Ok(()) => {},
    }
    arena_or_slab_growth(accounts[1].data.len() as u64)
}

/// The rent-exempt minimum balance of `data_len` bytes of data at a rate of
/// `lamports_per_byte`: the data plus 128 bytes of account overhead, at the
/// rate; none for data over 10 MiB or a rate over 1_759_197_129_867.
pub open spec fn minimum_balance(lamports_per_byte: u64, data_len: int) -> Option<u64> {
    if data_len > 10485760 || lamports_per_byte > 1_759_197_129_867 {
        None
    } else {
        Some(((128 + data_len) * lamports_per_byte) as u64)
    }
}

/// Calls `Rent::from_bytes` on the rate's bytes and then
/// `Rent::try_minimum_balance(data_len)` (pinocchio 0.12).  The contract
/// claims what that source computes: `None` (its error) for data over
/// `MAX_PERMITTED_DATA_LENGTH` (10 MiB) or a rate over
/// `MAX_LAMPORTS_PER_BYTE`, and otherwise `(ACCOUNT_STORAGE_OVERHEAD (128)
/// + data_len) * lamports_per_byte`, which then fits in a `u64`.
#[verifier::external_body]
fn rent_minimum_balance(lamports_per_byte: u64, data_len: usize) -> (r: Option<u64>)
    ensures
        r == minimum_balance(lamports_per_byte, data_len as int),
{
    match pinocchio::sysvars::rent::Rent::from_bytes(&lamports_per_byte.to_ne_bytes()) {
        Ok(rent) => rent.try_minimum_balance(data_len).ok(),
        Err(_) => None,
    }
}

/// The lamports to transfer before growing an account from `current_len`
/// to `new_len` bytes at a rent rate of `lamports_per_byte`: the rise of the
/// rent-exempt minimum, or 0 when it does not rise; `None` when either
/// minimum cannot be computed (see `minimum_balance`).
pub fn rent_top_up(lamports_per_byte: u64, current_len: usize, new_len: usize) -> (r: Option<u64>)
    ensures
        r == match (minimum_balance(lamports_per_byte, current_len as int), minimum_balance(lamports_per_byte, new_len as int)) {
            (Some(c), Some(n)) => Some(if n > c { (n - c) as u64 } else { 0u64 }),
            _ => None,
        },
{
    let current_rent = match rent_minimum_balance(lamports_per_byte, current_len) {
        Some(v) => v,
        None => return None,
    };
    let new_rent = match rent_minimum_balance(lamports_per_byte, new_len) {
        Some(v) => v,
        None => return None,
    };
    match rent_transfer_amount(current_rent, new_rent) {
        Some(v) => Some(v),
        None => Some(0),
    }
}

/// The lamports to transfer before a resize: the rise of the rent-exempt
/// minimum, or nothing when it does not rise.
pub fn rent_transfer_amount(current_rent: u64, new_rent: u64) -> (r: Option<u64>)
    ensures
        new_rent > current_rent ==> r == Some((new_rent - current_rent) as u64),
        new_rent <= current_rent ==> r is None,
{
    let rent_diff = new_rent.saturating_sub(current_rent);
    if rent_diff > 0 {
        Some(rent_diff)
    } else {
        None
    }
}

/// Updates a grown arena's capacity: the new length minus the header.
pub fn grow_arena_data(data: &mut [u8], new_len: u64)
    requires
        old(data)@.len() >= arena_allocator::HEADER_SIZE,
        arena_allocator::HEADER_SIZE <= new_len <= MAX_ACCOUNT_SIZE,
    ensures
        final(data)@ == put_u32(old(data)@, 12, (new_len - arena_allocator::HEADER_SIZE) as u32),
{
    let new_capacity = (new_len as u32) - (arena_allocator::HEADER_SIZE as u32);
    write_u32(data, 12, new_capacity);
}

/// The inputs on which `grow_slab_data` is defined: the recorded old size
/// and the new length both leave room for a head node in the data.
pub open spec fn slab_grow_defined(d: Seq<u8>, new_len: int) -> bool {
    let old_size = le_u32(d, 12) as int;
    &&& d.len() == new_len
    &&& 24 <= new_len <= MAX_ACCOUNT_SIZE
    &&& 16 <= old_size
    &&& old_size <= new_len
}

/// The data after a slab grew to `new_len` bytes: the allocated size is
/// updated, the old head node becomes a tail node that leads to the new
/// head node in the last 16 bytes, the new head node takes over the next
/// sequential slot and saves the old head node's address as its insert-side
/// stack pointer, the stack pointer moves to the new head node, the stack
/// is marked fragmented, and a slab that reached 10 MiB stops growing.
pub open spec fn slab_grown(d: Seq<u8>, new_len: int) -> Seq<u8> {
    let old_size = le_u32(d, 12) as int;
    let new_size = new_len as u32;
    let d1 = put_u32(d, 12, new_size);
    let old_head = old_size - 16;
    let new_head = new_len - 16;
    let old_next_seq = le_u32(d1, old_head);
    let d2 = put_u32(d1, old_head, 0xFFFF_FFFF);
    let d3 = put_u32(d2, old_head + 4, new_head as u32);
    let d4 = put_u32(d3, old_head + 8, 0xFFFF_FFFF);
    let d5 = put_u32(d4, old_head + 12, 0xFFFF_FFFF);
    let d6 = put_u32(d5, new_head, old_next_seq);
    let d7 = put_u32(d6, new_head + 4, 0);
    let d8 = put_u32(d7, new_head + 8, 0);
    let d9 = put_u32(d8, new_head + 12, old_head as u32);
    let d10 = put_u32(d9, 8, new_head as u32);
    let d11 = put_u32(d10, 20, le_u32(d10, 20) | 0x00FF_0000);
    if new_len == MAX_ACCOUNT_SIZE {
        put_u32(d11, 20, le_u32(d11, 20) & !0x0000_00FFu32)
    } else {
        d11
    }
}

/// Updates a grown slab's header and stack nodes (see `slab_grown`).
#[verifier::rlimit(50)]
pub fn grow_slab_data(data: &mut [u8], new_len: u64)
    requires
        slab_grow_defined(old(data)@, new_len as int),
    ensures
        final(data)@ == slab_grown(old(data)@, new_len as int),
{
    let ghost d0 = data@;
    let old_size = read_u32(data, 12);
    let new_size = new_len as u32;
    write_u32(data, 12, new_size);
    let old_head_addr = (old_size - slab_allocator::STACK_NODE_SIZE as u32) as usize;
    let new_head_addr = (new_size - slab_allocator::STACK_NODE_SIZE as u32) as usize;
    let old_next_seq = read_u32(data, old_head_addr);
    write_u32(data, old_head_addr, 0xFFFF_FFFF);
    write_u32(data, old_head_addr + 4, new_head_addr as u32);
    write_u32(data, old_head_addr + 8, 0xFFFF_FFFF);
    write_u32(data, old_head_addr + 12, 0xFFFF_FFFF);
    write_u32(data, new_head_addr, old_next_seq);
    write_u32(data, new_head_addr + 4, 0);
    write_u32(data, new_head_addr + 8, 0);
    write_u32(data, new_head_addr + 12, old_head_addr as u32);
    write_u32(data, 8, new_head_addr as u32);
    let flags = read_u32(data, 20);
    write_u32(data, 20, flags | 0x00FF_0000);
    if new_len == MAX_ACCOUNT_SIZE {
        let flags = read_u32(data, 20);
        write_u32(data, 20, flags & !0x0000_00FFu32);
    }
}


/// Whether byte `i` lies outside the words that growing a slab writes: the
/// stack pointer and allocated size (bytes 8..16), the flags (20..24), the
/// old head node and the new one.
pub open spec fn grow_untouched(i: int, old_head: int, new_head: int) -> bool {
    &&& !(8 <= i < 16)
    &&& !(20 <= i < 24)
    &&& !(old_head <= i < old_head + 16)
    &&& !(new_head <= i < new_head + 16)
}

/// The flags word after a slab grew to `new_len` from flags `f`: the stack
/// marked fragmented, and the still-growing flag cleared at 10 MiB.
pub open spec fn grown_flags(f: u32, new_len: int) -> u32 {
    if new_len == MAX_ACCOUNT_SIZE {
        (f | 0x00FF_0000u32) & !0x0000_00FFu32
    } else {
        f | 0x00FF_0000u32
    }
}

/// The slab after growing, field by field: allocated size `new_len`, stack
/// pointer on the new head node in the last 16 bytes, flags as
/// `grown_flags`, the old head node turned into a tail node that leads to
/// the new one, the new head node holding the old next sequential slot and
/// the old head node's address, and every other byte as it was.
#[verifier::rlimit(80)]
pub proof fn law_slab_grown_fields(d: Seq<u8>, new_len: int)
    requires
        slab_grow_defined(d, new_len),
        40 <= le_u32(d, 12),
        le_u32(d, 12) + 16 <= new_len,
    ensures
        ({
            let g = slab_grown(d, new_len);
            let old_head = le_u32(d, 12) - 16;
            let new_head = new_len - 16;
            &&& g.len() == d.len()
            &&& le_u32(g, 12) == new_len
            &&& le_u32(g, 8) == new_head
            &&& le_u32(g, 20) == grown_flags(le_u32(d, 20), new_len)
            &&& words4(g, old_head) == seq![0xFFFF_FFFFu32, new_head as u32, 0xFFFF_FFFFu32, 0xFFFF_FFFFu32]
            &&& words4(g, new_head) == seq![le_u32(d, old_head), 0u32, 0u32, old_head as u32]
            &&& forall|i: int|
                0 <= i < d.len() && grow_untouched(i, old_head, new_head) ==> #[trigger] g[i] == d[i]
        }),
{
    let old_size = le_u32(d, 12) as int;
    let new_size = new_len as u32;
    let oh = old_size - 16;
    let nh = new_len - 16;
    let d1 = put_u32(d, 12, new_size);
    lemma_put_u32(d, 12, new_size);
    lemma_put_u32_apart(d, 12, new_size, oh);
    let ns = le_u32(d1, oh);
    let d2 = put_u32(d1, oh, 0xFFFF_FFFF);
    let d3 = put_u32(d2, oh + 4, nh as u32);
    let d4 = put_u32(d3, oh + 8, 0xFFFF_FFFF);
    let d5 = put_u32(d4, oh + 12, 0xFFFF_FFFF);
    let d6 = put_u32(d5, nh, ns);
    let d7 = put_u32(d6, nh + 4, 0);
    let d8 = put_u32(d7, nh + 8, 0);
    let d9 = put_u32(d8, nh + 12, oh as u32);
    let d10 = put_u32(d9, 8, nh as u32);
    lemma_put_u32(d1, oh, 0xFFFF_FFFF);
    lemma_put_u32(d2, oh + 4, nh as u32);
    lemma_put_u32(d3, oh + 8, 0xFFFF_FFFF);
    lemma_put_u32(d4, oh + 12, 0xFFFF_FFFF);
    lemma_put_u32(d5, nh, ns);
    lemma_put_u32(d6, nh + 4, 0);
    lemma_put_u32(d7, nh + 8, 0);
    lemma_put_u32(d8, nh + 12, oh as u32);
    lemma_put_u32(d9, 8, nh as u32);
    let f = le_u32(d, 20);
    let f1 = f | 0x00FF_0000u32;
    let d11 = put_u32(d10, 20, f1);
    lemma_put_u32(d10, 20, f1);
    assert(le_u32(d10, 20) == f) by {
        assert(d10[20] == d[20] && d10[21] == d[21] && d10[22] == d[22] && d10[23] == d[23]);
    }
    assert(le_u32(d11, 12) == new_size) by {
        assert(d11[12] == d1[12] && d11[13] == d1[13] && d11[14] == d1[14] && d11[15] == d1[15]);
    }
    assert(le_u32(d11, 8) == nh) by {
        assert(d11[8] == d10[8] && d11[9] == d10[9] && d11[10] == d10[10] && d11[11] == d10[11]);
    }
    assert(words4(d11, oh) == seq![0xFFFF_FFFFu32, nh as u32, 0xFFFF_FFFFu32, 0xFFFF_FFFFu32]) by {
        assert forall|k: int| oh <= k < oh + 4 implies d11[k] == d2[k] by {}
        assert forall|k: int| oh + 4 <= k < oh + 8 implies d11[k] == d3[k] by {}
        assert forall|k: int| oh + 8 <= k < oh + 12 implies d11[k] == d4[k] by {}
        assert forall|k: int| oh + 12 <= k < oh + 16 implies d11[k] == d5[k] by {}
        assert(le_u32(d11, oh) == le_u32(d2, oh));
        assert(le_u32(d11, oh + 4) == le_u32(d3, oh + 4));
        assert(le_u32(d11, oh + 8) == le_u32(d4, oh + 8));
        assert(le_u32(d11, oh + 12) == le_u32(d5, oh + 12));
    }
    assert(words4(d11, nh) == seq![ns, 0u32, 0u32, oh as u32]) by {
        assert forall|k: int| nh <= k < nh + 4 implies d11[k] == d6[k] by {}
        assert forall|k: int| nh + 4 <= k < nh + 8 implies d11[k] == d7[k] by {}
        assert forall|k: int| nh + 8 <= k < nh + 12 implies d11[k] == d8[k] by {}
        assert forall|k: int| nh + 12 <= k < nh + 16 implies d11[k] == d9[k] by {}
        assert(le_u32(d11, nh) == le_u32(d6, nh));
        assert(le_u32(d11, nh + 4) == le_u32(d7, nh + 4));
        assert(le_u32(d11, nh + 8) == le_u32(d8, nh + 8));
        assert(le_u32(d11, nh + 12) == le_u32(d9, nh + 12));
    }
    assert(le_u32(d, oh) == ns);
    if new_len == MAX_ACCOUNT_SIZE {
        let f2 = f1 & !0x0000_00FFu32;
        lemma_put_u32(d11, 20, f2);
        lemma_put_u32_apart(d11, 20, f2, 12);
        lemma_put_u32_apart(d11, 20, f2, 8);
        lemma_put_u32_apart(d11, 20, f2, oh);
        lemma_put_u32_apart(d11, 20, f2, oh + 4);
        lemma_put_u32_apart(d11, 20, f2, oh + 8);
        lemma_put_u32_apart(d11, 20, f2, oh + 12);
        lemma_put_u32_apart(d11, 20, f2, nh);
        lemma_put_u32_apart(d11, 20, f2, nh + 4);
        lemma_put_u32_apart(d11, 20, f2, nh + 8);
        lemma_put_u32_apart(d11, 20, f2, nh + 12);
    }
}

/// Growing a slab keeps the place where inserts go on: the stack pointer
/// moves to the new head node in the last 16 bytes, which takes over the
/// old head node's next sequential slot and keeps the old head node's
/// address; the old head node becomes a tail node that leads to the new
/// one; and the nodes below the old head node are left as they were.
pub proof fn law_grow_keeps_next_slot(d: Seq<u8>, new_len: int)
    requires
        slab_grow_defined(d, new_len),
        40 <= le_u32(d, 12),
        le_u32(d, 12) + 16 <= new_len,
    ensures
        ({
            let g = slab_grown(d, new_len);
            let old_head = le_u32(d, 12) - 16;
            let new_head = new_len - 16;
            &&& g.len() == d.len()
            &&& header_at(g).allocator_size == new_len
            &&& header_at(g).stack_pointer == new_head
            &&& head_node_addr(g) == new_head
            &&& le_u32(g, new_head) == le_u32(d, old_head)
            &&& le_u32(g, new_head + 12) == old_head
            &&& words4(g, old_head) == seq![0xFFFF_FFFFu32, new_head as u32, 0xFFFF_FFFFu32, 0xFFFF_FFFFu32]
            &&& forall|i: int| 24 <= i < old_head ==> g[i] == d[i]
        }),
{
    law_slab_grown_fields(d, new_len);
    let g = slab_grown(d, new_len);
    let old_head = le_u32(d, 12) - 16;
    let new_head = new_len - 16;
    assert(words4(g, new_head)[0] == le_u32(g, new_head));
    assert(words4(g, new_head)[3] == le_u32(g, new_head + 12));
    assert forall|i: int| 24 <= i < old_head implies g[i] == d[i] by {
        assert(grow_untouched(i, old_head, new_head));
    }
}

/// Growing a slab marks its stack fragmented and never sets the
/// still-growing flag: the flag is kept as it was, and cleared when the
/// slab reaches 10 MiB.
pub proof fn law_grow_still_growing(d: Seq<u8>, new_len: int)
    requires
        slab_grow_defined(d, new_len),
        40 <= le_u32(d, 12),
        le_u32(d, 12) + 16 <= new_len,
    ensures
        le_u32(slab_grown(d, new_len), 20) & 0x0000_00FFu32 == (if new_len == MAX_ACCOUNT_SIZE {
            0u32
        } else {
            le_u32(d, 20) & 0x0000_00FFu32
        }),
        le_u32(slab_grown(d, new_len), 20) & 0x00FF_0000u32 == 0x00FF_0000u32,
{
    law_slab_grown_fields(d, new_len);
    let f = le_u32(d, 20);
    assert((f | 0x00FF_0000u32) & 0x0000_00FFu32 == f & 0x0000_00FFu32 && (f | 0x00FF_0000u32)
        & 0x00FF_0000u32 == 0x00FF_0000u32 && ((f | 0x00FF_0000u32) & !0x0000_00FFu32) & 0x0000_00FFu32
        == 0 && ((f | 0x00FF_0000u32) & !0x0000_00FFu32) & 0x00FF_0000u32 == 0x00FF_0000u32)
        by (bit_vector);
}

/// An account is grown exactly when there are three accounts, the payer
/// signed, and the target is owned by the program and carries the expected
/// discriminator; the refusals come in that order, a target too short for
/// a discriminator counting as not initialized.
pub proof fn law_grow_checks(program_id: Seq<u8>, a: Seq<Account>, expected_discriminator: u32)
    ensures
        grow_check_error(program_id, a, expected_discriminator) is None <==> (a.len() >= 3
            && a[0].is_signer && a[1].owner@ == program_id && a[1].data@.len() >= 4 && le_u32(
            a[1].data@,
            0,
        ) == expected_discriminator),
        a.len() < 3 ==> grow_check_error(program_id, a, expected_discriminator) == Some(
            IncognitusError::WrongNumberOfAccounts,
        ),
        a.len() >= 3 && !a[0].is_signer ==> grow_check_error(program_id, a, expected_discriminator)
            == Some(IncognitusError::MissingRequiredSigner),
        a.len() >= 3 && a[0].is_signer && a[1].owner@ != program_id ==> grow_check_error(
            program_id,
            a,
            expected_discriminator,
        ) == Some(IncognitusError::InvalidOwner),
        a.len() >= 3 && a[0].is_signer && a[1].owner@ == program_id && a[1].data@.len() < 4
            ==> grow_check_error(program_id, a, expected_discriminator) == Some(
            IncognitusError::NotInitialized,
        ),
        a.len() >= 3 && a[0].is_signer && a[1].owner@ == program_id && a[1].data@.len() >= 4 && le_u32(
            a[1].data@,
            0,
        ) != expected_discriminator ==> grow_check_error(program_id, a, expected_discriminator) == Some(
            IncognitusError::InvalidDiscriminator,
        ),
{
}

/// The rent top-up for a growth is the rate times the added bytes, and
/// nothing when the account does not grow.
pub proof fn law_rent_top_up(lamports_per_byte: u64, current_len: int, new_len: int)
    requires
        0 <= current_len <= new_len <= 10485760,
        lamports_per_byte <= 1_759_197_129_867,
    ensures
        minimum_balance(lamports_per_byte, current_len) is Some,
        minimum_balance(lamports_per_byte, new_len) is Some,
        minimum_balance(lamports_per_byte, new_len)->0 - minimum_balance(lamports_per_byte, current_len)->0
            == (new_len - current_len) * lamports_per_byte,
{
    let r = lamports_per_byte as int;
    assert((128 + new_len) * r <= (128 + 10485760) * 1_759_197_129_867) by (nonlinear_arith)
        requires
            0 <= new_len <= 10485760,
            0 <= r <= 1_759_197_129_867,
    ;
    assert((128 + current_len) * r <= (128 + new_len) * r) by (nonlinear_arith)
        requires
            0 <= current_len <= new_len,
            0 <= r,
    ;
    assert((128 + new_len) * r - (128 + current_len) * r == (new_len - current_len) * r)
        by (nonlinear_arith);
}

} // verus!
