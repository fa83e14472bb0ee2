//! Pin-based interrupts of PCI devices.
use vstd::prelude::*;

use crate::interrupt::ConfigurableInterrupt;

verus! {

/// The interrupt pin of a PCI function.
#[derive(Copy, Clone, Debug, Eq, PartialEq, Structural)]
pub enum IntXPin {
    /// INTA#.
    IntA,
    /// INTB#.
    IntB,
    /// INTC#.
    IntC,
    /// INTD#.
    IntD,
}

impl IntXPin {
    /// The value of the pin in the PCI interrupt pin register.
    pub fn value(&self) -> (r: u8)
        ensures
            r == match self {
                IntXPin::IntA => 1u8,
                IntXPin::IntB => 2u8,
                IntXPin::IntC => 3u8,
                IntXPin::IntD => 4u8,
            },
    {
        match self {
            IntXPin::IntA => 1,
            IntXPin::IntB => 2,
            IntXPin::IntC => 3,
            IntXPin::IntD => 4,
        }
    }
}

/// Configuration of a pin-based interrupt.
#[derive(Copy, Clone, Debug, Eq, PartialEq, Structural)]
pub struct LegacyIrqConfig {
    /// Interrupt line, if routed.
    pub interrupt_line: Option<u32>,
    /// Interrupt pin, if used.
    pub interrupt_pin: Option<IntXPin>,
}

impl LegacyIrqConfig {
    /// A configuration with no line and no pin.
    pub fn new() -> (r: Self)
        ensures
            r.interrupt_line is None,
            r.interrupt_pin is None,
    {
        LegacyIrqConfig { interrupt_line: None, interrupt_pin: None }
    }
}

/// A pin-based interrupt.
pub trait LegacyInterrupt: ConfigurableInterrupt<Cfg = LegacyIrqConfig> {

}

impl<T> LegacyInterrupt for T where T: ConfigurableInterrupt<Cfg = LegacyIrqConfig> {

}

} // verus!
