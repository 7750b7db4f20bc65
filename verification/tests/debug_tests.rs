use z80_peripherals::debug::DebugDevice;
use z80_peripherals::flags::{holds, low_byte, lower, raise};

#[test]
fn debug_device_reads_zero() {
    let device = DebugDevice::new();
    assert_eq!(device.read_in(), 0);
}

#[test]
fn debug_device_formats_upper_case_hex() {
    let mut device = DebugDevice::new();
    assert_eq!(device.write_out(0xAB), *b"AB");
    assert_eq!(device.write_out(0x00), *b"00");
    assert_eq!(device.write_out(0x9F), *b"9F");
    assert_eq!(device.write_out(0xFF), *b"FF");
    for byte in 0..=255u8 {
        let digits = device.write_out(byte);
        assert_eq!(format!("{:02X}", byte).as_bytes(), &digits[..]);
    }
}

#[test]
fn flag_operations() {
    assert_eq!(raise(0x20, 0x10), 0x30);
    assert_eq!(lower(0x30, 0x10), 0x20);
    assert_eq!(lower(0x20, 0x10), 0x20);
    assert!(holds(0x30, 0x10));
    assert!(!holds(0x20, 0x10));
    assert_eq!(low_byte(0x1234), 0x34);
    assert_eq!(low_byte(0xFF), 0xFF);
}
