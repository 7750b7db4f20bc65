//! The banked memory management unit: four bank registers map the quarters
//! of the sixteen-bit address space onto the first window of a bank each.

use vstd::prelude::*;

verus! {

/// Bytes in one bank.
pub const BANK_SIZE: usize = 0x10000;

/// Bytes in one quarter of the address space: the window of a bank that the
/// unit reaches.
pub const WINDOW_SIZE: usize = 0x4000;

/// The register that selects the bank behind one quarter of the address
/// space. It is itself a port: the guest reads and writes it.
#[derive(Clone, Copy, Debug, PartialEq, Eq, Structural)]
pub struct MMUBankRegister {
    pub bank: u8,
}

impl MMUBankRegister {
    /// Returns the selected bank.
    pub fn read_in(&self) -> (bank: u8)
        ensures
            bank == self.bank,
    {
        self.bank
    }

    /// Selects another bank.
    pub fn write_out(&mut self, bank: u8)
        ensures
            final(self).bank == bank,
    {
        self.bank = bank;
    }
}

/// Why an image was not loaded into a bank.
#[derive(Clone, Copy, Debug, PartialEq, Eq, Structural)]
pub enum LoadError {
    /// The pool has no bank of that number.
    InvalidBank,
    /// The image is longer than a bank.
    TooLarge,
    /// No image was loaded into bank 0, where the guest starts.
    MissingBankZero,
}

/// The pool of banks.
pub struct Memory {
    pub banks: Vec<Vec<u8>>,
}

impl View for Memory {
    type V = Seq<Seq<u8>>;

    open spec fn view(&self) -> Seq<Seq<u8>> {
        Seq::new(self.banks@.len(), |i: int| self.banks@[i]@)
    }
}

/// Every bank of the pool has the full size.
pub open spec fn banks_wf(banks: Seq<Seq<u8>>) -> bool {
    forall|i: int| 0 <= i < banks.len() ==> (#[trigger] banks[i]).len() == BANK_SIZE
}

/// The bank with `image` laid over its first bytes.
pub open spec fn overlaid(bank: Seq<u8>, image: Seq<u8>) -> Seq<u8> {
    Seq::new(
        bank.len(),
        |k: int|
            if k < image.len() {
                image[k]
            } else {
                bank[k]
            },
    )
}

/// What loading `image` into the bank of number `bank` gives.
pub open spec fn loaded(banks: Seq<Seq<u8>>, bank: int, image: Seq<u8>) -> Result<
    Seq<Seq<u8>>,
    LoadError,
> {
    if bank < 0 || bank >= banks.len() {
        Err(LoadError::InvalidBank)
    } else if image.len() > BANK_SIZE {
        Err(LoadError::TooLarge)
    } else {
        Ok(banks.update(bank, overlaid(banks[bank], image)))
    }
}

/// The result of a load together with the banks that it left behind.
pub open spec fn load_outcome(result: Result<(), LoadError>, banks: Seq<Seq<u8>>) -> Result<
    Seq<Seq<u8>>,
    LoadError,
> {
    match result {
        Ok(_) => Ok(banks),
        Err(error) => Err(error),
    }
}

impl Memory {
    /// Every bank of the pool has the full size.
    pub open spec fn wf(&self) -> bool {
        banks_wf(self@)
    }

    /// A pool of `num_banks` banks, every byte zero.
    pub fn new(num_banks: u8) -> (memory: Memory)
        ensures
            memory.wf(),
            memory@ == Seq::new(
                num_banks as nat,
                |i: int| Seq::new(BANK_SIZE as nat, |k: int| 0u8),
            ),
    {
        let mut banks: Vec<Vec<u8>> = Vec::new();
        let mut i: u8 = 0;
        while i < num_banks
            invariant
                i <= num_banks,
                banks@.len() == i,
                forall|n: int|
                    0 <= n < i ==> (#[trigger] banks@[n])@ == Seq::new(
                        BANK_SIZE as nat,
                        |k: int| 0u8,
                    ),
            decreases num_banks - i,
        {
            let bank: Vec<u8> = vec![0u8; BANK_SIZE];
            assert(bank@ =~= Seq::new(BANK_SIZE as nat, |k: int| 0u8));
            banks.push(bank);
            i += 1;
        }
        let memory = Memory { banks };
        assert(memory@ =~= Seq::new(
            num_banks as nat,
            |i: int| Seq::new(BANK_SIZE as nat, |k: int| 0u8),
        ));
        memory
    }

    /// Number of banks in the pool.
    pub fn len(&self) -> (count: usize)
        ensures
            count == self@.len(),
    {
        self.banks.len()
    }

    /// Lays `image` over the first bytes of a bank. Fails, and changes
    /// nothing, where the pool has no such bank or the image is longer than a bank.
    pub fn load(&mut self, bank: usize, image: &[u8]) -> (result: Result<(), LoadError>)
        requires
            old(self).wf(),
        ensures
            final(self).wf(),
            load_outcome(result, final(self)@) == loaded(old(self)@, bank as int, image@),
            result is Err ==> final(self)@ == old(self)@,
    {
        if bank >= self.banks.len() {
            return Err(LoadError::InvalidBank);
        }
        if image.len() > BANK_SIZE {
            return Err(LoadError::TooLarge);
        }
        assert(old(self)@[bank as int].len() == BANK_SIZE);
        let mut i: usize = 0;
        while i < image.len()
            invariant
                i <= image@.len() <= BANK_SIZE,
                bank < self.banks@.len() == old(self).banks@.len(),
                self.banks@[bank as int]@.len() == BANK_SIZE,
                forall|n: int|
                    0 <= n < self.banks@.len() && n != bank ==> self.banks@[n] == old(
                        self,
                    ).banks@[n],
                forall|k: int|
                    0 <= k < BANK_SIZE ==> self.banks@[bank as int]@[k] == if k < i {
                        image@[k]
                    } else {
                        old(self).banks@[bank as int]@[k]
                    },
            decreases image@.len() - i,
        {
            self.banks[bank][i] = image[i];
            i += 1;
        }
        assert(self.banks@[bank as int]@ =~= overlaid(old(self)@[bank as int], image@));
        assert(self@ =~= old(self)@.update(bank as int, overlaid(old(self)@[bank as int], image@)));
        assert forall|n: int| 0 <= n < self@.len() implies (#[trigger] self@[n]).len()
            == BANK_SIZE by {
            if n != bank {
                assert(old(self)@[n].len() == BANK_SIZE);
            }
        }
        Ok(())
    }
}

/// The quarter of the address space in which an address lies.
pub open spec fn quarter(address: u16) -> int {
    address as int / WINDOW_SIZE as int
}

/// The place of an address inside its quarter.
pub open spec fn window_offset(address: u16) -> int {
    address as int % WINDOW_SIZE as int
}

/// The unit: four bank registers over a pool of banks.
pub struct MMU {
    pub bank_registers: [MMUBankRegister; 4],
    pub memory: Memory,
}

/// What a unit holds, as plain values.
pub struct MmuView {
    pub registers: Seq<MMUBankRegister>,
    pub banks: Seq<Seq<u8>>,
}

impl View for MMU {
    type V = MmuView;

    open spec fn view(&self) -> MmuView {
        MmuView { registers: self.bank_registers@, banks: self.memory@ }
    }
}

impl MmuView {
    /// There are four registers, and every bank has the full size.
    pub open spec fn wf(self) -> bool {
        self.registers.len() == 4 && banks_wf(self.banks)
    }

    /// The bank that the register of the address's quarter selects.
    pub open spec fn selected(self, address: u16) -> int {
        self.registers[quarter(address)].bank as int
    }

    /// Whether the selected bank is one of the pool.
    pub open spec fn mapped(self, address: u16) -> bool {
        self.selected(address) < self.banks.len()
    }

    /// The byte that a read of `address` returns.
    pub open spec fn read(self, address: u16) -> u8 {
        if self.mapped(address) {
            self.banks[self.selected(address)][window_offset(address)]
        } else {
            0
        }
    }

    /// The unit after a write of `value` to `address`.
    pub open spec fn write(self, address: u16, value: u8) -> MmuView {
        if self.mapped(address) {
            MmuView {
                banks: self.banks.update(
                    self.selected(address),
                    self.banks[self.selected(address)].update(window_offset(address), value),
                ),
                ..self
            }
        } else {
            self
        }
    }

    /// The unit after the guest has written `bank` to the register of a quarter.
    pub open spec fn select(self, register: int, bank: u8) -> MmuView {
        MmuView { registers: self.registers.update(register, MMUBankRegister { bank }), ..self }
    }
}

/// Four registers that select bank 0.
pub open spec fn zeroed_registers() -> Seq<MMUBankRegister> {
    Seq::new(4, |i: int| MMUBankRegister { bank: 0 })
}

/// Splits an address into its quarter and its place inside the quarter.
fn resolve(address: u16) -> (place: (usize, usize))
    ensures
        place.0 == quarter(address),
        place.1 == window_offset(address),
        place.0 < 4,
        place.1 < WINDOW_SIZE,
{
    let selector: u16 = address >> 14;
    let offset: u16 = address & 0x3FFF;
    assert(selector == address / 0x4000 && offset == address % 0x4000 && selector < 4 && offset
        < 0x4000) by (bit_vector)
        requires
            selector == address >> 14,
            offset == address & 0x3FFF,
    ;
    (selector as usize, offset as usize)
}

impl MMU {
    /// A unit over `memory` with every register selecting bank 0.
    pub fn new(memory: Memory) -> (mmu: MMU)
        requires
            memory.wf(),
        ensures
            mmu@.wf(),
            mmu@.banks == memory@,
            mmu@.registers == zeroed_registers(),
    {
        let mmu = MMU { bank_registers: [MMUBankRegister { bank: 0 };4], memory };
        assert(mmu@.registers =~= zeroed_registers());
        mmu
    }

    /// Reads the byte behind `address`: 0 where the selected bank is none of the pool.
    pub fn read_byte(&self, address: u16) -> (byte: u8)
        requires
            self@.wf(),
        ensures
            byte == self@.read(address),
    {
        let (selector, offset) = resolve(address);
        let bank_num: usize = self.bank_registers[selector].bank as usize;
        if bank_num >= self.memory.banks.len() {
            0
        } else {
            assert(self@.banks[bank_num as int].len() == BANK_SIZE);
            self.memory.banks[bank_num][offset]
        }
    }

    /// Writes `value` behind `address`; does nothing where the selected bank
    /// is none of the pool.
    pub fn write_byte(&mut self, address: u16, value: u8)
        requires
            old(self)@.wf(),
        ensures
            final(self)@.wf(),
            final(self)@ == old(self)@.write(address, value),
    {
        let (selector, offset) = resolve(address);
        let bank_num: usize = self.bank_registers[selector].bank as usize;
        if bank_num < self.memory.banks.len() {
            assert(self@.banks[bank_num as int].len() == BANK_SIZE);
            self.memory.banks[bank_num][offset] = value;
            assert(self@.banks =~= old(self)@.write(address, value).banks);
            assert forall|n: int| 0 <= n < self@.banks.len() implies (#[trigger] self@.banks[n]).len()
                == BANK_SIZE by {
                assert(old(self)@.banks[n].len() == BANK_SIZE);
            }
        }
    }
}

/// The pool while it is filled at startup. It remembers whether bank 0,
/// where the guest starts, has received an image.
pub struct Loader {
    pub memory: Memory,
    pub bank_zero: bool,
}

impl Loader {
    /// A pool of `num_banks` zeroed banks, none of them loaded.
    pub fn new(num_banks: u8) -> (loader: Loader)
        ensures
            loader.memory.wf(),
            !loader.bank_zero,
            loader.memory@ == Seq::new(
                num_banks as nat,
                |i: int| Seq::new(BANK_SIZE as nat, |k: int| 0u8),
            ),
    {
        Loader { memory: Memory::new(num_banks), bank_zero: false }
    }

    /// Loads an image as `Memory::load` does, and notes a load of bank 0.
    pub fn load(&mut self, bank: usize, image: &[u8]) -> (result: Result<(), LoadError>)
        requires
            old(self).memory.wf(),
        ensures
            final(self).memory.wf(),
            load_outcome(result, final(self).memory@) == loaded(
                old(self).memory@,
                bank as int,
                image@,
            ),
            result is Err ==> final(self).memory@ == old(self).memory@,
            final(self).bank_zero == (old(self).bank_zero || (result is Ok && bank == 0)),
    {
        let result = self.memory.load(bank, image);
        if result.is_ok() && bank == 0 {
            self.bank_zero = true;
        }
        result
    }

    /// Ends the startup: the unit over the pool, if bank 0 was loaded.
    pub fn finish(self) -> (result: Result<MMU, LoadError>)
        requires
            self.memory.wf(),
        ensures
            result is Ok <==> self.bank_zero,
            result is Ok ==> result->Ok_0@.wf() && result->Ok_0@.banks == self.memory@
                && result->Ok_0@.registers == zeroed_registers(),
            result is Err ==> result->Err_0 == LoadError::MissingBankZero,
    {
        if self.bank_zero {
            Ok(MMU::new(self.memory))
        } else {
            Err(LoadError::MissingBankZero)
        }
    }
}

} // verus!
