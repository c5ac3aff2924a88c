//! Timer 1 of the console: the fixed addresses of its three hardware
//! registers. Each register is a 16-bit memory-mapped word; the marker
//! types below name the addresses so a memory-mapped I/O layer can load
//! and store them.

use vstd::prelude::*;

verus! {

/// Address of the timer 1 mode register, used to configure the timer.
pub const MODE_ADDRESS: u32 = 0x1F80_1114;

/// Address of the timer 1 counter register, the timer's current value.
pub const CNT_ADDRESS: u32 = 0x1F80_1110;

/// Address of the timer 1 target register, the value the timer counts to.
pub const TGT_ADDRESS: u32 = 0x1F80_1118;

/// Timer 1 mode register. Used to configure timer 1.
pub struct MODE;

/// Timer 1 counter register. Contains the timer's current value.
pub struct CNT;

/// Timer 1 target register. Contains the timer's target value.
pub struct TGT;

impl MODE {
    /// The fixed bus address this register answers to.
    pub fn address(&self) -> (a: u32)
        ensures
            a == MODE_ADDRESS,
    {
        MODE_ADDRESS
    }
}

impl CNT {
    /// The fixed bus address this register answers to.
    pub fn address(&self) -> (a: u32)
        ensures
            a == CNT_ADDRESS,
    {
        CNT_ADDRESS
    }
}

impl TGT {
    /// The fixed bus address this register answers to.
    pub fn address(&self) -> (a: u32)
        ensures
            a == TGT_ADDRESS,
    {
        TGT_ADDRESS
    }
}

} // verus!
