//! Message-signalled interrupts.
use vstd::prelude::*;

use crate::interrupt::{ConfigurableInterrupt, MaskableInterrupt};

verus! {

/// Configuration of a message-signalled interrupt: the message and where it
/// goes.
#[derive(Copy, Clone, Debug, Eq, PartialEq, Structural)]
pub struct MsiIrqConfig {
    /// High 32 bits of the message address.
    pub high_addr: u32,
    /// Low 32 bits of the message address.
    pub low_addr: u32,
    /// The message data.
    pub data: u32,
    /// Identifier of the device that sends the message.
    pub devid: u32,
}

impl MsiIrqConfig {
    /// The configuration with all fields zero.
    pub fn new() -> (r: Self)
        ensures
            r == (MsiIrqConfig { high_addr: 0, low_addr: 0, data: 0, devid: 0 }),
    {
        MsiIrqConfig { high_addr: 0, low_addr: 0, data: 0, devid: 0 }
    }
}

/// A message-signalled interrupt.
pub trait MsiInterrupt: ConfigurableInterrupt<Cfg = MsiIrqConfig> + MaskableInterrupt {

}

impl<T> MsiInterrupt for T where T: ConfigurableInterrupt<Cfg = MsiIrqConfig> + MaskableInterrupt {

}

} // verus!
