use z80_peripherals::stdio_dev::{
    StdioDevice, BUF_LENGTH, STATUS_READY_READ, STATUS_READY_WRITE,
};

#[test]
fn new_device_is_idle() {
    let mut device = StdioDevice::new();
    assert_eq!(device.status, 0);
    assert_eq!(device.get_control_port().read_in(), 0);
    assert!(device.read_buffer.is_empty());
    assert!(device.writer_state.buffer.is_empty());
    assert!(!device.get_writer().have_data());
}

#[test]
fn stdio_echo() {
    let mut device = StdioDevice::new();
    device.get_reader().accept(b"Hi");
    assert_eq!(device.get_control_port().read_in() & 1, 1);
    assert_eq!(device.get_data_port().read_in(), 0x48);
    assert_eq!(device.get_control_port().read_in() & 1, 1);
    assert_eq!(device.get_data_port().read_in(), 0x69);
    assert_eq!(device.get_control_port().read_in() & 1, 0);
    assert_eq!(device.get_data_port().read_in(), 0);
    assert!(device.read_buffer.is_empty());
}

#[test]
fn stdio_write() {
    let mut device = StdioDevice::new();
    let mut out: Vec<u8> = Vec::new();
    device.get_writer().start();
    for byte in [0x41u8, 0x42, 0x43] {
        assert_eq!(device.get_control_port().read_in() & 2, 2);
        assert!(device.get_data_port().write_out(byte));
        assert_eq!(device.get_control_port().read_in() & 2, 0);
        assert!(device.get_writer().have_data());
        loop {
            let chunk = device.get_writer().next_chunk();
            out.extend_from_slice(&chunk);
            device.get_writer().commit(chunk.len());
            if chunk.is_empty() {
                break;
            }
        }
        device.get_writer().finish();
        assert!(!device.get_writer().have_data());
    }
    assert_eq!(out, b"ABC".to_vec());
    assert_eq!(device.status & STATUS_READY_WRITE, STATUS_READY_WRITE);
}

#[test]
fn write_is_dropped_when_not_ready() {
    let mut device = StdioDevice::new();
    assert!(!device.get_data_port().write_out(0x41));
    assert!(device.writer_state.buffer.is_empty());
    assert!(!device.writer_state.have_data);
    device.get_writer().start();
    assert!(device.get_data_port().write_out(0x42));
    assert!(!device.get_data_port().write_out(0x43));
    assert_eq!(device.writer_state.buffer, vec![0x42]);
}

#[test]
fn control_port_ignores_writes() {
    let mut device = StdioDevice::new();
    device.get_writer().start();
    let mut port = device.get_control_port();
    port.write_out(0xFF);
    assert_eq!(port.read_in(), 2);
}

#[test]
fn reader_appends_in_order() {
    let mut device = StdioDevice::new();
    device.get_reader().accept(&[1, 2]);
    device.get_reader().accept(&[]);
    device.get_reader().accept(&[3]);
    assert_eq!(device.status & STATUS_READY_READ, STATUS_READY_READ);
    let mut seen = Vec::new();
    while device.get_control_port().read_in() & 1 != 0 {
        seen.push(device.get_data_port().read_in());
    }
    assert_eq!(seen, vec![1, 2, 3]);
}

#[test]
fn empty_read_raises_nothing() {
    let mut device = StdioDevice::new();
    device.get_reader().accept(&[]);
    assert_eq!(device.status, 0);
}

#[test]
fn drain_takes_chunks_of_buf_length() {
    let mut device = StdioDevice::new();
    let bytes: Vec<u8> = (0..600u32).map(|n| (n % 251) as u8).collect();
    device.writer_state.buffer = bytes.clone();
    let first = device.get_writer().next_chunk();
    assert_eq!(first.len(), BUF_LENGTH);
    assert_eq!(first, bytes[..256].to_vec());
    assert_eq!(device.writer_state.buffer.len(), 600);
    device.get_writer().commit(first.len());
    let second = device.get_writer().next_chunk();
    assert_eq!(second, bytes[256..512].to_vec());
    device.get_writer().commit(second.len());
    let third = device.get_writer().next_chunk();
    assert_eq!(third, bytes[512..].to_vec());
    device.get_writer().commit(third.len());
    assert!(device.get_writer().next_chunk().is_empty());
    assert!(device.writer_state.buffer.is_empty());
}

#[test]
fn commit_past_the_end_empties_the_buffer() {
    let mut device = StdioDevice::new();
    device.writer_state.buffer = vec![1, 2, 3];
    device.get_writer().commit(2);
    assert_eq!(device.writer_state.buffer, vec![3]);
    device.get_writer().commit(5);
    assert!(device.writer_state.buffer.is_empty());
}
