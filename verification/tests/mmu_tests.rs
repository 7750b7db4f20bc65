use z80_peripherals::mmu::{LoadError, MMUBankRegister, Memory, BANK_SIZE, MMU};

fn two_banks() -> MMU {
    let mut memory = Memory::new(2);
    let mut first = vec![0u8; 0x1235];
    first[0x1234] = 0xAB;
    let mut second = vec![0u8; 0x1235];
    second[0x1234] = 0xCD;
    assert_eq!(memory.load(0, &first), Ok(()));
    assert_eq!(memory.load(1, &second), Ok(()));
    MMU::new(memory)
}

#[test]
fn memory_new_is_zeroed() {
    let memory = Memory::new(3);
    assert_eq!(memory.len(), 3);
    for bank in memory.banks.iter() {
        assert_eq!(bank.len(), BANK_SIZE);
        assert!(bank.iter().all(|byte| *byte == 0));
    }
    assert_eq!(Memory::new(0).len(), 0);
    assert_eq!(Memory::new(255).len(), 255);
}

#[test]
fn registers_start_at_zero() {
    let mmu = MMU::new(Memory::new(1));
    for register in mmu.bank_registers.iter() {
        assert_eq!(register.read_in(), 0);
    }
}

#[test]
fn bank_register_reads_back() {
    let mut register = MMUBankRegister { bank: 0 };
    register.write_out(7);
    assert_eq!(register.read_in(), 7);
    register.write_out(255);
    assert_eq!(register.read_in(), 255);
}

#[test]
fn translation_follows_register() {
    let mut mmu = two_banks();
    assert_eq!(mmu.read_byte(0x1234), 0xAB);
    mmu.bank_registers[0].write_out(1);
    assert_eq!(mmu.read_byte(0x1234), 0xCD);
    mmu.bank_registers[0].write_out(5);
    assert_eq!(mmu.read_byte(0x1234), 0x00);
    mmu.write_byte(0x1234, 0xFF);
    assert_eq!(mmu.read_byte(0x1234), 0x00);
    assert_eq!(mmu.memory.banks[0][0x1234], 0xAB);
    assert_eq!(mmu.memory.banks[1][0x1234], 0xCD);
    mmu.bank_registers[0].write_out(0);
    assert_eq!(mmu.read_byte(0x1234), 0xAB);
}

#[test]
fn write_then_read_when_mapped() {
    let mut mmu = two_banks();
    mmu.bank_registers[2].write_out(1);
    mmu.write_byte(0x8000 + 0x0042, 0x5A);
    assert_eq!(mmu.read_byte(0x8042), 0x5A);
    assert_eq!(mmu.memory.banks[1][0x0042], 0x5A);
    assert_eq!(mmu.memory.banks[0][0x0042], 0x00);
    assert_eq!(mmu.memory.banks[1][0x8042], 0x00);
}

#[test]
fn quarters_alias_one_window() {
    let mut mmu = two_banks();
    mmu.write_byte(0x0010, 0x11);
    assert_eq!(mmu.read_byte(0x4010), 0x11);
    assert_eq!(mmu.read_byte(0x8010), 0x11);
    assert_eq!(mmu.read_byte(0xC010), 0x11);
    mmu.write_byte(0xFFFF, 0x22);
    assert_eq!(mmu.read_byte(0x3FFF), 0x22);
    assert_eq!(mmu.memory.banks[0][0x3FFF], 0x22);
    assert_eq!(mmu.memory.banks[0][0xFFFF], 0x00);
}

#[test]
fn unmapped_write_changes_no_bank() {
    let mut mmu = two_banks();
    mmu.bank_registers[1].write_out(2);
    let before: Vec<Vec<u8>> = mmu.memory.banks.clone();
    mmu.write_byte(0x4000, 0x77);
    assert_eq!(mmu.memory.banks, before);
    assert_eq!(mmu.read_byte(0x4000), 0);
}

#[test]
fn load_rejects_bad_bank_and_long_image() {
    let mut memory = Memory::new(2);
    assert_eq!(memory.load(2, &[1, 2, 3]), Err(LoadError::InvalidBank));
    let long = vec![1u8; BANK_SIZE + 1];
    assert_eq!(memory.load(0, &long), Err(LoadError::TooLarge));
    assert_eq!(memory.load(7, &long), Err(LoadError::InvalidBank));
    assert!(memory.banks[0].iter().all(|byte| *byte == 0));
    let full = vec![9u8; BANK_SIZE];
    assert_eq!(memory.load(1, &full), Ok(()));
    assert!(memory.banks[1].iter().all(|byte| *byte == 9));
    assert_eq!(memory.load(1, &[4, 5]), Ok(()));
    assert_eq!(&memory.banks[1][0..3], &[4, 5, 9]);
}
