//! What holds of the memory management unit across several accesses.

use vstd::prelude::*;
use crate::mmu::{quarter, window_offset, MmuView, BANK_SIZE};

verus! {

/// Every address lies in one of the four quarters, at a place inside the
/// first window of a bank.
pub proof fn lemma_address_in_range(address: u16)
    ensures
        0 <= quarter(address) < 4,
        0 <= window_offset(address) < 0x4000,
        0x4000 * quarter(address) + window_offset(address) == address,
{
}

/// A byte written through a register that selects a bank of the pool is the
/// byte read back, as long as the register is left alone.
pub proof fn lemma_read_after_write(mmu: MmuView, address: u16, value: u8)
    requires
        mmu.wf(),
        mmu.mapped(address),
    ensures
        mmu.write(address, value).read(address) == value,
        mmu.write(address, value).wf(),
{
    lemma_address_in_range(address);
    let bank: int = mmu.selected(address);
    assert(mmu.banks[bank].len() == BANK_SIZE);
    let after = mmu.write(address, value);
    assert forall|i: int| 0 <= i < after.banks.len() implies (#[trigger] after.banks[i]).len()
        == BANK_SIZE by {
        assert(mmu.banks[i].len() == BANK_SIZE);
    }
}

/// Through a register that selects no bank of the pool a read returns 0 and
/// a write changes no bank; so a byte other than 0 is not read back.
pub proof fn lemma_unmapped_access(mmu: MmuView, address: u16, value: u8)
    requires
        mmu.wf(),
        !mmu.mapped(address),
    ensures
        mmu.read(address) == 0,
        mmu.write(address, value) == mmu,
        value != 0 ==> mmu.write(address, value).read(address) != value,
{
}

/// A write changes only the byte at its own place in the selected bank:
/// every address that is mapped elsewhere reads what it read before.
pub proof fn lemma_write_leaves_the_rest(mmu: MmuView, address: u16, value: u8, other: u16)
    requires
        mmu.wf(),
        mmu.selected(other) != mmu.selected(address) || window_offset(other) != window_offset(
            address,
        ),
    ensures
        mmu.write(address, value).read(other) == mmu.read(other),
{
    lemma_address_in_range(address);
    lemma_address_in_range(other);
    if mmu.mapped(address) {
        assert(mmu.banks[mmu.selected(address)].len() == BANK_SIZE);
    }
}

/// Once the register of its quarter selects another bank, an address reads
/// that bank, whatever was written before.
pub proof fn lemma_read_follows_register(mmu: MmuView, address: u16, bank: u8)
    requires
        mmu.wf(),
    ensures
        (bank as int) < mmu.banks.len() ==> mmu.select(quarter(address), bank).read(address)
            == mmu.banks[bank as int][window_offset(address)],
        (bank as int) >= mmu.banks.len() ==> mmu.select(quarter(address), bank).read(address) == 0,
{
    lemma_address_in_range(address);
}

} // verus!
