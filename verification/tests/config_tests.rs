use z80_peripherals::config::{
    parse_bank_count, parse_load_request, parse_number, ConfigError, LoadRequest,
};
use z80_peripherals::lifecycle::{
    bank_register_port, decide, Decision, MMU_PORT, STDIO_CONTROL_PORT, STDIO_DATA_PORT,
};
use z80_peripherals::mmu::{LoadError, Loader};

#[test]
fn numbers_are_runs_of_digits() {
    assert_eq!(parse_number(b"0"), Ok(0));
    assert_eq!(parse_number(b"007"), Ok(7));
    assert_eq!(parse_number(b"65536"), Ok(65536));
    assert_eq!(parse_number(b""), Err(ConfigError::NotANumber));
    assert_eq!(parse_number(b"12a"), Err(ConfigError::NotANumber));
    assert_eq!(parse_number(b"-1"), Err(ConfigError::NotANumber));
    assert_eq!(parse_number(b" 1"), Err(ConfigError::NotANumber));
    assert_eq!(parse_number(b"9999999999999999999999999x"), Err(ConfigError::NotANumber));
}

#[test]
fn numbers_stop_at_the_machine_word() {
    let max = format!("{}", usize::MAX);
    assert_eq!(parse_number(max.as_bytes()), Ok(usize::MAX));
    let mut beyond = max.clone().into_bytes();
    let last = beyond.len() - 1;
    beyond[last] += 1;
    assert_eq!(parse_number(&beyond), Err(ConfigError::NumberTooLarge));
    let longer = format!("{}0", usize::MAX);
    assert_eq!(parse_number(longer.as_bytes()), Err(ConfigError::NumberTooLarge));
}

#[test]
fn bank_count_is_between_1_and_255() {
    assert_eq!(parse_bank_count(b"1"), Ok(1));
    assert_eq!(parse_bank_count(b"255"), Ok(255));
    assert_eq!(parse_bank_count(b"0"), Err(ConfigError::BankCountOutOfRange));
    assert_eq!(parse_bank_count(b"256"), Err(ConfigError::BankCountOutOfRange));
    assert_eq!(
        parse_bank_count(b"99999999999999999999999999"),
        Err(ConfigError::BankCountOutOfRange)
    );
    assert_eq!(parse_bank_count(b"two"), Err(ConfigError::NotANumber));
}

#[test]
fn load_request_defaults_to_bank_zero() {
    assert_eq!(
        parse_load_request(b"rom.bin"),
        Ok(LoadRequest { bank: 0, path_start: 0, path_end: 7 })
    );
    assert_eq!(parse_load_request(b""), Ok(LoadRequest { bank: 0, path_start: 0, path_end: 0 }));
}

#[test]
fn load_request_with_bank() {
    let text = b"12=images/rom.bin";
    let request = parse_load_request(text).unwrap();
    assert_eq!(request.bank, 12);
    assert_eq!(&text[request.path_start..request.path_end], b"images/rom.bin");
    let twice = b"3=a=b";
    let request = parse_load_request(twice).unwrap();
    assert_eq!(request.bank, 3);
    assert_eq!(&twice[request.path_start..request.path_end], b"a");
    assert_eq!(parse_load_request(b"1="), Ok(LoadRequest { bank: 1, path_start: 2, path_end: 2 }));
}

#[test]
fn load_request_with_bad_bank() {
    assert_eq!(parse_load_request(b"x=rom.bin"), Err(ConfigError::NotANumber));
    assert_eq!(parse_load_request(b"=rom.bin"), Err(ConfigError::NotANumber));
    assert_eq!(
        parse_load_request(b"99999999999999999999999999=rom.bin"),
        Err(ConfigError::NumberTooLarge)
    );
}

#[test]
fn shutdown_comes_first() {
    assert_eq!(decide(true, true), Decision::Exit);
    assert_eq!(decide(true, false), Decision::Exit);
    assert_eq!(decide(false, true), Decision::Work);
    assert_eq!(decide(false, false), Decision::Wait);
}

#[test]
fn port_map() {
    assert_eq!(MMU_PORT, 0);
    assert_eq!(bank_register_port(0), 0);
    assert_eq!(bank_register_port(1), 1);
    assert_eq!(bank_register_port(2), 2);
    assert_eq!(bank_register_port(3), 3);
    assert_eq!(STDIO_CONTROL_PORT, 4);
    assert_eq!(STDIO_DATA_PORT, 5);
}

#[test]
fn loader_needs_bank_zero() {
    let mut loader = Loader::new(2);
    assert_eq!(loader.load(1, &[1, 2, 3]), Ok(()));
    assert!(!loader.bank_zero);
    assert_eq!(loader.finish().err(), Some(LoadError::MissingBankZero));

    let mut loader = Loader::new(2);
    assert_eq!(loader.load(0, &[0xC3, 0x00, 0x01]), Ok(()));
    assert!(loader.bank_zero);
    assert_eq!(loader.load(2, &[1]), Err(LoadError::InvalidBank));
    assert!(loader.bank_zero);
    let mmu = loader.finish().unwrap();
    assert_eq!(mmu.read_byte(0), 0xC3);
    assert_eq!(mmu.read_byte(2), 0x01);
    assert_eq!(mmu.read_byte(3), 0x00);
}

#[test]
fn failed_load_of_bank_zero_does_not_count() {
    let mut loader = Loader::new(1);
    assert_eq!(loader.load(0, &vec![0u8; 0x10001]), Err(LoadError::TooLarge));
    assert!(!loader.bank_zero);
    assert_eq!(loader.finish().err(), Some(LoadError::MissingBankZero));
}
