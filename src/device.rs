//! Devices addressed by guest physical address, whatever the bus.
use vstd::prelude::*;

verus! {

/// How a device was reached.
#[derive(Debug, Copy, Clone, PartialEq, Eq, Structural)]
pub enum IoType {
    /// Through the port I/O bus.
    Pio,
    /// Through the MMIO bus.
    Mmio,
    /// Through MMIO that maps real device memory.
    PhysicalMmio,
}

/// A device that serves reads and writes at guest physical addresses.
pub trait Device: Send {
    /// The name of the device.
    fn name(&self) -> String;

    /// Reads `data.len()` bytes at guest address `addr`.
    fn read(&self, addr: u64, data: &mut [u8], io_type: IoType);

    /// Writes `data` at guest address `addr`.
    fn write(&self, addr: u64, data: &[u8], io_type: IoType);
}

} // verus!
