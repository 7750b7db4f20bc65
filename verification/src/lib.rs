//! Peripherals of a banked Z80 microcomputer: a memory management unit, a
//! buffered character device and a CP/M disk controller, each written as a
//! sequential state machine whose transitions carry verified contracts.

pub mod flags;
pub mod disk;
pub mod disk_laws;
pub mod stdio_dev;
pub mod stdio_laws;
pub mod mmu;
pub mod mmu_laws;
pub mod debug;
pub mod lifecycle;
pub mod config;
