//! The debug device: a write-only port that reports each byte as two
//! upper-case hexadecimal digits.

use vstd::prelude::*;

verus! {

/// The upper-case hexadecimal digit of a value below sixteen, in ASCII.
pub open spec fn hex_digit(nibble: int) -> u8 {
    if nibble < 10 {
        (0x30 + nibble) as u8
    } else {
        (0x41 + nibble - 10) as u8
    }
}

/// The two digits of a byte, the high one first.
pub open spec fn hex_digits(byte: u8) -> Seq<u8> {
    seq![hex_digit(byte as int / 16), hex_digit(byte as int % 16)]
}

/// Computes the digit of a value below sixteen.
fn digit(nibble: u8) -> (character: u8)
    requires
        nibble < 16,
    ensures
        character == hex_digit(nibble as int),
{
    if nibble < 10 {
        0x30 + nibble
    } else {
        0x41 + (nibble - 10)
    }
}

/// The debug port. It holds no state.
#[derive(Clone, Copy, Debug, PartialEq, Eq, Structural)]
pub struct DebugDevice {}

impl DebugDevice {
    pub fn new() -> (device: DebugDevice)
        ensures
            device == (DebugDevice {  }),
    {
        DebugDevice {  }
    }

    /// Always 0: nothing can be read from this port.
    pub fn read_in(&self) -> (byte: u8)
        ensures
            byte == 0,
    {
        0
    }

    /// Returns the two digits that the host prints for `byte`.
    pub fn write_out(&mut self, byte: u8) -> (digits: [u8; 2])
        ensures
            digits@ == hex_digits(byte),
    {
        let digits: [u8; 2] = [digit(byte / 16), digit(byte % 16)];
        assert(digits@ =~= hex_digits(byte));
        digits
    }
}

} // verus!
