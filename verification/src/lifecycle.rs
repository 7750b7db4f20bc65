//! The life of the devices' workers: where the ports are installed, and what
//! a worker does each time it looks up from its work.

use vstd::prelude::*;

verus! {

/// Port number on which the first quarter's bank register is installed; the registers of the
/// other three quarters follow it.
pub const MMU_PORT: u8 = 0;

/// Port number on which the character device's status word is installed.
pub const STDIO_CONTROL_PORT: u8 = 4;

/// Port number on which the character device's byte streams are installed.
pub const STDIO_DATA_PORT: u8 = 5;

/// Where the bank register of a quarter is installed.
pub fn bank_register_port(quarter: u8) -> (port: u8)
    requires
        quarter < 4,
    ensures
        port == MMU_PORT + quarter,
{
    MMU_PORT + quarter
}

/// What a worker does next.
#[derive(Clone, Copy, Debug, PartialEq, Eq, Structural)]
pub enum Decision {
    /// Leave the loop: the supervisor has asked every worker to end.
    Exit,
    /// Take up the work that waits.
    Work,
    /// Go back to sleep until the condition is signalled.
    Wait,
}

/// The decision of a worker that finds the shutdown flag and its wake flag
/// as given: shutdown comes first, then waiting work.
pub open spec fn decision(shutdown: bool, woken: bool) -> Decision {
    if shutdown {
        Decision::Exit
    } else if woken {
        Decision::Work
    } else {
        Decision::Wait
    }
}

/// Decides what a worker does next. Once the shutdown flag is set the answer
/// is `Exit`, whether or not work waits, so that a worker that is woken for
/// shutdown ends without touching its device.
pub fn decide(shutdown: bool, woken: bool) -> (next: Decision)
    ensures
        next == decision(shutdown, woken),
        shutdown ==> next == Decision::Exit,
{
    if shutdown {
        Decision::Exit
    } else if woken {
        Decision::Work
    } else {
        Decision::Wait
    }
}

} // verus!
