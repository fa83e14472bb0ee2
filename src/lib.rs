//! Device model core: address buses, I/O dispatch, resources and interrupts.
use vstd::prelude::*;

pub mod allocator;
pub mod bus;
pub mod device;
pub mod device_manager;
pub mod interrupt;
pub mod resources;

use bus::{MmioAddress, MmioAddressOffset, PioAddress, PioAddressOffset};
use std::sync::{Arc, Mutex, MutexGuard};

verus! {

/// A device on the port I/O bus.
///
/// Accesses cannot fail: like the hardware it emulates, a device answers
/// every access, and swallows what it cannot handle.
pub trait DevicePio: Send + Sync {
    /// Reads `data.len()` bytes at `offset` within the range based at `base`.
    fn pio_read(&self, base: PioAddress, offset: PioAddressOffset, data: &mut [u8]);

    /// Writes `data` at `offset` within the range based at `base`.
    fn pio_write(&self, base: PioAddress, offset: PioAddressOffset, data: &[u8]);
}

/// A device on the MMIO bus.
///
/// Accesses cannot fail: like the hardware it emulates, a device answers
/// every access, and swallows what it cannot handle.
pub trait DeviceMmio: Send + Sync {
    /// Reads `data.len()` bytes at `offset` within the range based at `base`.
    fn mmio_read(&self, base: MmioAddress, offset: MmioAddressOffset, data: &mut [u8]);

    /// Writes `data` at `offset` within the range based at `base`.
    fn mmio_write(&self, base: MmioAddress, offset: MmioAddressOffset, data: &[u8]);
}

/// A port I/O device that needs exclusive access; `Mutex` makes it a
/// `DevicePio`.
pub trait MutDevicePio {
    /// Reads `data.len()` bytes at `offset` within the range based at `base`.
    fn pio_read(&mut self, base: PioAddress, offset: PioAddressOffset, data: &mut [u8]);

    /// Writes `data` at `offset` within the range based at `base`.
    fn pio_write(&mut self, base: PioAddress, offset: PioAddressOffset, data: &[u8]);
}

/// An MMIO device that needs exclusive access; `Mutex` makes it a
/// `DeviceMmio`.
pub trait MutDeviceMmio {
    /// Reads `data.len()` bytes at `offset` within the range based at `base`.
    fn mmio_read(&mut self, base: MmioAddress, offset: MmioAddressOffset, data: &mut [u8]);

    /// Writes `data` at `offset` within the range based at `base`.
    fn mmio_write(&mut self, base: MmioAddress, offset: MmioAddressOffset, data: &[u8]);
}

impl<T: DeviceMmio + ?Sized> DeviceMmio for Arc<T> {
    fn mmio_read(&self, base: MmioAddress, offset: MmioAddressOffset, data: &mut [u8]) {
        (**self).mmio_read(base, offset, data);
    }

    fn mmio_write(&self, base: MmioAddress, offset: MmioAddressOffset, data: &[u8]) {
        (**self).mmio_write(base, offset, data);
    }
}

impl<T: DevicePio + ?Sized> DevicePio for Arc<T> {
    fn pio_read(&self, base: PioAddress, offset: PioAddressOffset, data: &mut [u8]) {
        (**self).pio_read(base, offset, data);
    }

    fn pio_write(&self, base: PioAddress, offset: PioAddressOffset, data: &[u8]) {
        (**self).pio_write(base, offset, data);
    }
}

/// std's `Mutex`, carried opaque: the library only locks it.
#[verifier::external_type_specification]
#[verifier::external_body]
#[verifier::reject_recursive_types(T)]
pub struct ExMutex<T: ?Sized>(Mutex<T>);

/// std's `MutexGuard`, carried opaque: it unlocks when dropped.
#[verifier::external_type_specification]
#[verifier::external_body]
#[verifier::reject_recursive_types(T)]
pub struct ExMutexGuard<'a, T: ?Sized + 'a>(MutexGuard<'a, T>);

/// Relies on std's `MutexGuard` as `DerefMut`: the locked value.
pub assume_specification<'a, 'b, T: ?Sized>[ <MutexGuard<'a, T> as core::ops::DerefMut>::deref_mut ](
    guard: &'b mut MutexGuard<'a, T>,
) -> &'b mut T;

/// Relies on std's `Mutex::lock`: waits until the lock is held; a lock that a
/// panic poisoned is taken all the same.
#[verifier::external_body]
fn lock<T: ?Sized>(m: &Mutex<T>) -> MutexGuard<'_, T> {
    match m.lock() {
        Ok(guard) => guard,
        Err(poisoned) => poisoned.into_inner(),
    }
}

impl<T: MutDevicePio + Send + ?Sized> DevicePio for Mutex<T> {
    fn pio_read(&self, base: PioAddress, offset: PioAddressOffset, data: &mut [u8]) {
        let mut guard = lock(self);
        guard.pio_read(base, offset, data);
    }

    fn pio_write(&self, base: PioAddress, offset: PioAddressOffset, data: &[u8]) {
        let mut guard = lock(self);
        guard.pio_write(base, offset, data);
    }
}

impl<T: MutDeviceMmio + Send + ?Sized> DeviceMmio for Mutex<T> {
    fn mmio_read(&self, base: MmioAddress, offset: MmioAddressOffset, data: &mut [u8]) {
        let mut guard = lock(self);
        guard.mmio_read(base, offset, data);
    }

    fn mmio_write(&self, base: MmioAddress, offset: MmioAddressOffset, data: &[u8]) {
        let mut guard = lock(self);
        guard.mmio_write(base, offset, data);
    }
}

} // verus!
