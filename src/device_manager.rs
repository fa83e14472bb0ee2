//! The I/O manager: one MMIO bus and one port I/O bus, with dispatch of
//! guest accesses to the devices on them.
use vstd::prelude::*;

use std::sync::Arc;

use crate::bus::{
    self, access_result, covers, entries_wf, holds_addr, lemma_holder_unique, lemma_lookup_unique,
    lookup, overlaps_any, with_range, without_addr, BusAddress, BusEntries, BusManager, BusRange,
    MmioAddress, MmioBus, MmioRange, PioAddress, PioBus, PioRange,
};
use crate::resources::Resource;
use crate::{DeviceMmio, DevicePio};

verus! {

/// Errors of the I/O manager.
#[derive(Debug, PartialEq, Eq, Structural, Clone, Copy)]
pub enum Error {
    /// A bus refused the operation.
    Bus(bus::Error),
}

impl Error {
    /// The message of the error.
    pub fn to_string(&self) -> (r: String)
        ensures
            r@ == match self {
                Error::Bus(_) => "device_manager: bus error"@,
            },
    {
        match self {
            Error::Bus(_) => String::from_str("device_manager: bus error"),
        }
    }

    /// The bus error beneath this one.
    pub fn source(&self) -> (r: Option<bus::Error>)
        ensures
            match self {
                Error::Bus(e) => r == Some(*e),
            },
    {
        match self {
            Error::Bus(e) => Some(*e),
        }
    }
}

/// Relies on std's `Arc::clone`: the clone is another handle to the same
/// value.
#[verifier::external_body]
fn share<T: ?Sized>(a: &Arc<T>) -> (r: Arc<T>)
    ensures
        r == *a,
{
    a.clone()
}

/// The outcome of registering a device on the ranges `items`, one after the
/// other, on a bus with entries `s`: the entries after, and the first error.
///
/// An item is a (base, size) pair, or `None` for a resource of another kind.
/// Registration stops at the first failure; what was registered before it
/// stays.
pub open spec fn register_all<A: BusAddress, D>(
    s: BusEntries<A, D>,
    items: Seq<Option<(A, A::V)>>,
    device: D,
) -> (BusEntries<A, D>, Option<bus::Error>)
    decreases items.len(),
{
    if items.len() == 0 {
        (s, None)
    } else {
        let (t, e) = register_all(s, items.drop_last(), device);
        if e is Some {
            (t, e)
        } else {
            match items.last() {
                None => (t, None),
                Some((base, size)) => if !(A::spec_offset(size) >= 1 && base.spec_value()
                    + A::spec_offset(size) - 1 <= A::spec_max()) {
                    (t, Some(bus::Error::InvalidRange))
                } else if overlaps_any(t, BusRange::spec_new(base, size)) {
                    (t, Some(bus::Error::DeviceOverlap))
                } else {
                    (with_range(t, BusRange::spec_new(base, size), device), None)
                },
            }
        }
    }
}

/// The MMIO range that a resource names, if it names one.
pub open spec fn mmio_item(r: Resource) -> Option<(MmioAddress, u64)> {
    match r {
        Resource::MmioAddressRange { base, size } => Some((MmioAddress(base), size)),
        _ => None,
    }
}

/// The port I/O range that a resource names, if it names one.
pub open spec fn pio_item(r: Resource) -> Option<(PioAddress, u16)> {
    match r {
        Resource::PioAddressRange { base, size } => Some((PioAddress(base), size)),
        _ => None,
    }
}

/// The MMIO ranges that `res` names, in order.
pub open spec fn mmio_items(res: Seq<Resource>) -> Seq<Option<(MmioAddress, u64)>> {
    res.map_values(|r: Resource| mmio_item(r))
}

/// The port I/O ranges that `res` names, in order.
pub open spec fn pio_items(res: Seq<Resource>) -> Seq<Option<(PioAddress, u16)>> {
    res.map_values(|r: Resource| pio_item(r))
}

/// The outcome of deregistering at the base of each range that `res` names:
/// the port I/O entries and MMIO entries after, and how many ranges went.
pub open spec fn deregister_all<P, M>(
    pio: BusEntries<PioAddress, P>,
    mmio: BusEntries<MmioAddress, M>,
    res: Seq<Resource>,
) -> (BusEntries<PioAddress, P>, BusEntries<MmioAddress, M>, nat)
    decreases res.len(),
{
    if res.len() == 0 {
        (pio, mmio, 0)
    } else {
        let (p, m, n) = deregister_all(pio, mmio, res.drop_last());
        match res.last() {
            Resource::PioAddressRange { base, .. } => if holds_addr(p, base as int) {
                (without_addr(p, base as int), m, n + 1)
            } else {
                (p, m, n)
            },
            Resource::MmioAddressRange { base, .. } => if holds_addr(m, base as int) {
                (p, without_addr(m, base as int), n + 1)
            } else {
                (p, m, n)
            },
            _ => (p, m, n),
        }
    }
}

/// The outcome of a registration, as the manager reports it.
pub open spec fn registered(e: Option<bus::Error>) -> Result<(), Error> {
    match e {
        None => Ok(()),
        Some(err) => Err(Error::Bus(err)),
    }
}

/// Dispatch of port I/O accesses to the devices of a bus.
pub trait PioManager {
    /// Device type of the bus.
    type D: DevicePio;

    /// The entries of the port I/O bus.
    spec fn pio_entries(&self) -> BusEntries<PioAddress, Self::D>;

    /// The range that holds `addr`, with its device.
    fn pio_device(&self, addr: PioAddress) -> (r: Option<(&PioRange, &Self::D)>)
        requires
            entries_wf(self.pio_entries()),
        ensures
            match r {
                Some((range, device)) => lookup(self.pio_entries(), addr.spec_value()) == Some(
                    (*range, *device),
                ),
                None => lookup(self.pio_entries(), addr.spec_value()) is None,
            },
    ;

    /// Reads into `data` from the device whose range holds the whole access,
    /// at the offset of `addr` from the base of that range.
    fn pio_read(&self, addr: PioAddress, data: &mut [u8]) -> (r: Result<(), bus::Error>)
        requires
            entries_wf(self.pio_entries()),
        ensures
            r == access_result(self.pio_entries(), addr.spec_value(), old(data)@.len() as usize),
    ;

    /// Writes `data` to the device whose range holds the whole access, at the
    /// offset of `addr` from the base of that range.
    fn pio_write(&self, addr: PioAddress, data: &[u8]) -> (r: Result<(), bus::Error>)
        requires
            entries_wf(self.pio_entries()),
        ensures
            r == access_result(self.pio_entries(), addr.spec_value(), data@.len() as usize),
    ;

    /// Registers `device` on `range`, unless it overlaps a registered range.
    fn register_pio(&mut self, range: PioRange, device: Self::D) -> (r: Result<(), bus::Error>)
        requires
            entries_wf(old(self).pio_entries()),
        ensures
            entries_wf(final(self).pio_entries()),
            r is Ok <==> !overlaps_any(old(self).pio_entries(), range),
            match r {
                Ok(()) => final(self).pio_entries() == with_range(
                    old(self).pio_entries(),
                    range,
                    device,
                ),
                Err(e) => e == bus::Error::DeviceOverlap && final(self).pio_entries() == old(
                    self,
                ).pio_entries(),
            },
    ;

    /// Removes the range that holds `addr`, with its device.
    fn deregister_pio(&mut self, addr: PioAddress) -> (r: Option<(PioRange, Self::D)>)
        requires
            entries_wf(old(self).pio_entries()),
        ensures
            entries_wf(final(self).pio_entries()),
            r == lookup(old(self).pio_entries(), addr.spec_value()),
            final(self).pio_entries() == without_addr(old(self).pio_entries(), addr.spec_value()),
    ;
}

/// Dispatch of MMIO accesses to the devices of a bus.
pub trait MmioManager {
    /// Device type of the bus.
    type D: DeviceMmio;

    /// The entries of the MMIO bus.
    spec fn mmio_entries(&self) -> BusEntries<MmioAddress, Self::D>;

    /// The range that holds `addr`, with its device.
    fn mmio_device(&self, addr: MmioAddress) -> (r: Option<(&MmioRange, &Self::D)>)
        requires
            entries_wf(self.mmio_entries()),
        ensures
            match r {
                Some((range, device)) => lookup(self.mmio_entries(), addr.spec_value()) == Some(
                    (*range, *device),
                ),
                None => lookup(self.mmio_entries(), addr.spec_value()) is None,
            },
    ;

    /// Reads into `data` from the device whose range holds the whole access,
    /// at the offset of `addr` from the base of that range.
    fn mmio_read(&self, addr: MmioAddress, data: &mut [u8]) -> (r: Result<(), bus::Error>)
        requires
            entries_wf(self.mmio_entries()),
        ensures
            r == access_result(self.mmio_entries(), addr.spec_value(), old(data)@.len() as usize),
    ;

    /// Writes `data` to the device whose range holds the whole access, at the
    /// offset of `addr` from the base of that range.
    fn mmio_write(&self, addr: MmioAddress, data: &[u8]) -> (r: Result<(), bus::Error>)
        requires
            entries_wf(self.mmio_entries()),
        ensures
            r == access_result(self.mmio_entries(), addr.spec_value(), data@.len() as usize),
    ;

    /// Registers `device` on `range`, unless it overlaps a registered range.
    fn register_mmio(&mut self, range: MmioRange, device: Self::D) -> (r: Result<(), bus::Error>)
        requires
            entries_wf(old(self).mmio_entries()),
        ensures
            entries_wf(final(self).mmio_entries()),
            r is Ok <==> !overlaps_any(old(self).mmio_entries(), range),
            match r {
                Ok(()) => final(self).mmio_entries() == with_range(
                    old(self).mmio_entries(),
                    range,
                    device,
                ),
                Err(e) => e == bus::Error::DeviceOverlap && final(self).mmio_entries() == old(
                    self,
                ).mmio_entries(),
            },
    ;

    /// Removes the range that holds `addr`, with its device.
    fn deregister_mmio(&mut self, addr: MmioAddress) -> (r: Option<(MmioRange, Self::D)>)
        requires
            entries_wf(old(self).mmio_entries()),
        ensures
            entries_wf(final(self).mmio_entries()),
            r == lookup(old(self).mmio_entries(), addr.spec_value()),
            final(self).mmio_entries() == without_addr(
                old(self).mmio_entries(),
                addr.spec_value(),
            ),
    ;
}

/// One MMIO bus and one port I/O bus of shared device handles.
///
/// The handles are `Arc<dyn DevicePio>` and `Arc<dyn DeviceMmio>` unless the
/// manager is made for one device type.
pub struct IoManager<P: DevicePio + ?Sized = dyn DevicePio, M: DeviceMmio + ?Sized = dyn DeviceMmio> {
    pio_bus: PioBus<Arc<P>>,
    mmio_bus: MmioBus<Arc<M>>,
}

impl<P: DevicePio + ?Sized, M: DeviceMmio + ?Sized> IoManager<P, M> {
    /// Both buses are well formed.
    pub open spec fn wf(&self) -> bool {
        entries_wf(self.pio_entries()) && entries_wf(self.mmio_entries())
    }

    /// A manager with two empty buses.
    pub fn new() -> (r: Self)
        ensures
            r.wf(),
            r.pio_entries().len() == 0,
            r.mmio_entries().len() == 0,
    {
        IoManager { pio_bus: PioBus::new(), mmio_bus: MmioBus::new() }
    }
}

impl<P: DevicePio + ?Sized, M: DeviceMmio + ?Sized> Default for IoManager<P, M> {
    fn default() -> (r: Self)
        ensures
            r.wf(),
            r.pio_entries().len() == 0,
            r.mmio_entries().len() == 0,
    {
        Self::new()
    }
}

impl<P: DevicePio + ?Sized, M: DeviceMmio + ?Sized> BusManager<PioAddress> for IoManager<P, M> {
    type D = Arc<P>;

    fn bus(&self) -> &PioBus<Arc<P>> {
        &self.pio_bus
    }

    fn bus_mut(&mut self) -> &mut PioBus<Arc<P>> {
        &mut self.pio_bus
    }
}

impl<P: DevicePio + ?Sized, M: DeviceMmio + ?Sized> BusManager<MmioAddress> for IoManager<P, M> {
    type D = Arc<M>;

    fn bus(&self) -> &MmioBus<Arc<M>> {
        &self.mmio_bus
    }

    fn bus_mut(&mut self) -> &mut MmioBus<Arc<M>> {
        &mut self.mmio_bus
    }
}

impl<P: DevicePio + ?Sized, M: DeviceMmio + ?Sized> PioManager for IoManager<P, M> {
    type D = Arc<P>;

    closed spec fn pio_entries(&self) -> BusEntries<PioAddress, Arc<P>> {
        self.pio_bus@
    }

    fn pio_device(&self, addr: PioAddress) -> (r: Option<(&PioRange, &Arc<P>)>) {
        self.pio_bus.device(addr)
    }

    fn pio_read(&self, addr: PioAddress, data: &mut [u8]) -> (r: Result<(), bus::Error>) {
        let len = data.len();
        match self.pio_bus.check_access(addr, len) {
            Ok((range, device)) => {
                proof {
                    lemma_lookup_unique(self.pio_bus@, addr.spec_value());
                }
                let base = range.base();
                device.pio_read(base, addr.offset_from(base), data);
                Ok(())
            },
            Err(e) => Err(e),
        }
    }

    fn pio_write(&self, addr: PioAddress, data: &[u8]) -> (r: Result<(), bus::Error>) {
        match self.pio_bus.check_access(addr, data.len()) {
            Ok((range, device)) => {
                proof {
                    lemma_lookup_unique(self.pio_bus@, addr.spec_value());
                }
                let base = range.base();
                device.pio_write(base, addr.offset_from(base), data);
                Ok(())
            },
            Err(e) => Err(e),
        }
    }

    fn register_pio(&mut self, range: PioRange, device: Arc<P>) -> (r: Result<(), bus::Error>) {
        self.pio_bus.register(range, device)
    }

    fn deregister_pio(&mut self, addr: PioAddress) -> (r: Option<(PioRange, Arc<P>)>) {
        self.pio_bus.deregister(addr)
    }
}

impl<P: DevicePio + ?Sized, M: DeviceMmio + ?Sized> MmioManager for IoManager<P, M> {
    type D = Arc<M>;

    closed spec fn mmio_entries(&self) -> BusEntries<MmioAddress, Arc<M>> {
        self.mmio_bus@
    }

    fn mmio_device(&self, addr: MmioAddress) -> (r: Option<(&MmioRange, &Arc<M>)>) {
        self.mmio_bus.device(addr)
    }

    fn mmio_read(&self, addr: MmioAddress, data: &mut [u8]) -> (r: Result<(), bus::Error>) {
        let len = data.len();
        match self.mmio_bus.check_access(addr, len) {
            Ok((range, device)) => {
                proof {
                    lemma_lookup_unique(self.mmio_bus@, addr.spec_value());
                }
                let base = range.base();
                device.mmio_read(base, addr.offset_from(base), data);
                Ok(())
            },
            Err(e) => Err(e),
        }
    }

    fn mmio_write(&self, addr: MmioAddress, data: &[u8]) -> (r: Result<(), bus::Error>) {
        match self.mmio_bus.check_access(addr, data.len()) {
            Ok((range, device)) => {
                proof {
                    lemma_lookup_unique(self.mmio_bus@, addr.spec_value());
                }
                let base = range.base();
                device.mmio_write(base, addr.offset_from(base), data);
                Ok(())
            },
            Err(e) => Err(e),
        }
    }

    fn register_mmio(&mut self, range: MmioRange, device: Arc<M>) -> (r: Result<(), bus::Error>) {
        self.mmio_bus.register(range, device)
    }

    fn deregister_mmio(&mut self, addr: MmioAddress) -> (r: Option<(MmioRange, Arc<M>)>) {
        self.mmio_bus.deregister(addr)
    }
}

/// Once a registration has failed, later items change nothing.
proof fn lemma_register_all_stops<A: BusAddress, D>(
    s: BusEntries<A, D>,
    items: Seq<Option<(A, A::V)>>,
    j: int,
    device: D,
)
    requires
        0 <= j <= items.len(),
        register_all(s, items.take(j), device).1 is Some,
    ensures
        register_all(s, items, device) == register_all(s, items.take(j), device),
    decreases items.len(),
{
    if items.len() == j {
        assert(items.take(j) == items);
    } else {
        assert(items.drop_last().take(j) == items.take(j));
        lemma_register_all_stops(s, items.drop_last(), j, device);
    }
}

impl<P: DevicePio + ?Sized, M: DeviceMmio + ?Sized> IoManager<P, M> {
    /// Registers `device` on each Mmio range of `resources`, in order; other
    /// resources are skipped.
    ///
    /// Stops at the first range that is malformed (`InvalidRange`) or
    /// overlaps a registered one (`DeviceOverlap`); the ranges registered
    /// before it stay registered.
    pub fn register_mmio_resources(&mut self, device: Arc<M>, resources: &[Resource]) -> (r: Result<
        (),
        Error,
    >)
        requires
            old(self).wf(),
        ensures
            final(self).wf(),
            final(self).pio_entries() == old(self).pio_entries(),
            final(self).mmio_entries() == register_all(
                old(self).mmio_entries(),
                mmio_items(resources@),
                device,
            ).0,
            r == registered(register_all(old(self).mmio_entries(), mmio_items(resources@), device).1),
    {
        let ghost initial = self.mmio_bus@;
        let ghost items = mmio_items(resources@);
        let mut i: usize = 0;
        assert(items.take(0) == Seq::<Option<(MmioAddress, <MmioAddress as BusAddress>::V)>>::empty());
        while i < resources.len()
            invariant
                self.wf(),
                self.pio_bus@ == old(self).pio_bus@,
                initial == old(self).mmio_bus@,
                items == mmio_items(resources@),
                i <= resources@.len(),
                register_all(initial, items.take(i as int), device) == (self.mmio_bus@, None::<bus::Error>),
            decreases resources@.len() - i,
        {
            proof {
                assert(items.take(i + 1).drop_last() == items.take(i as int));
                assert(items.take(i + 1).last() == mmio_item(resources@[i as int]));
            }
            if let Resource::MmioAddressRange { base, size } = &resources[i] {
                match MmioRange::new(MmioAddress(*base), *size) {
                    Ok(range) => {
                        match self.mmio_bus.register(range, share(&device)) {
                            Ok(()) => {},
                            Err(e) => {
                                proof {
                                    lemma_register_all_stops(initial, items, i + 1, device);
                                }
                                return Err(Error::Bus(e));
                            },
                        }
                    },
                    Err(_) => {
                        proof {
                            lemma_register_all_stops(initial, items, i + 1, device);
                        }
                        return Err(Error::Bus(bus::Error::InvalidRange));
                    },
                }
            }
            i = i + 1;
        }
        assert(items.take(i as int) == items);
        Ok(())
    }

    /// Registers `device` on each Pio range of `resources`, in order; other
    /// resources are skipped.
    ///
    /// Stops at the first range that is malformed (`InvalidRange`) or
    /// overlaps a registered one (`DeviceOverlap`); the ranges registered
    /// before it stay registered.
    pub fn register_pio_resources(&mut self, device: Arc<P>, resources: &[Resource]) -> (r: Result<
        (),
        Error,
    >)
        requires
            old(self).wf(),
        ensures
            final(self).wf(),
            final(self).mmio_entries() == old(self).mmio_entries(),
            final(self).pio_entries() == register_all(
                old(self).pio_entries(),
                pio_items(resources@),
                device,
            ).0,
            r == registered(register_all(old(self).pio_entries(), pio_items(resources@), device).1),
    {
        let ghost initial = self.pio_bus@;
        let ghost items = pio_items(resources@);
        let mut i: usize = 0;
        assert(items.take(0) == Seq::<Option<(PioAddress, <PioAddress as BusAddress>::V)>>::empty());
        while i < resources.len()
            invariant
                self.wf(),
                self.mmio_bus@ == old(self).mmio_bus@,
                initial == old(self).pio_bus@,
                items == pio_items(resources@),
                i <= resources@.len(),
                register_all(initial, items.take(i as int), device) == (self.pio_bus@, None::<bus::Error>),
            decreases resources@.len() - i,
        {
            proof {
                assert(items.take(i + 1).drop_last() == items.take(i as int));
                assert(items.take(i + 1).last() == pio_item(resources@[i as int]));
            }
            if let Resource::PioAddressRange { base, size } = &resources[i] {
                match PioRange::new(PioAddress(*base), *size) {
                    Ok(range) => {
                        match self.pio_bus.register(range, share(&device)) {
                            Ok(()) => {},
                            Err(e) => {
                                proof {
                                    lemma_register_all_stops(initial, items, i + 1, device);
                                }
                                return Err(Error::Bus(e));
                            },
                        }
                    },
                    Err(_) => {
                        proof {
                            lemma_register_all_stops(initial, items, i + 1, device);
                        }
                        return Err(Error::Bus(bus::Error::InvalidRange));
                    },
                }
            }
            i = i + 1;
        }
        assert(items.take(i as int) == items);
        Ok(())
    }

    /// Deregisters, for each address range of `resources`, the range that
    /// holds its base; the number of ranges removed.
    pub fn deregister_resources(&mut self, resources: &[Resource]) -> (r: usize)
        requires
            old(self).wf(),
        ensures
            final(self).wf(),
            (final(self).pio_entries(), final(self).mmio_entries(), r as nat) == deregister_all(
                old(self).pio_entries(),
                old(self).mmio_entries(),
                resources@,
            ),
    {
        let ghost pio_initial = self.pio_bus@;
        let ghost mmio_initial = self.mmio_bus@;
        let mut count: usize = 0;
        let mut i: usize = 0;
        assert(resources@.take(0) == Seq::<Resource>::empty());
        while i < resources.len()
            invariant
                self.wf(),
                pio_initial == old(self).pio_bus@,
                mmio_initial == old(self).mmio_bus@,
                i <= resources@.len(),
                count <= i,
                deregister_all(pio_initial, mmio_initial, resources@.take(i as int)) == (
                    self.pio_bus@,
                    self.mmio_bus@,
                    count as nat,
                ),
            decreases resources@.len() - i,
        {
            proof {
                assert(resources@.take(i + 1).drop_last() == resources@.take(i as int));
            }
            match &resources[i] {
                Resource::PioAddressRange { base, .. } => {
                    if self.pio_bus.deregister(PioAddress(*base)).is_some() {
                        count = count + 1;
                    }
                },
                Resource::MmioAddressRange { base, .. } => {
                    if self.mmio_bus.deregister(MmioAddress(*base)).is_some() {
                        count = count + 1;
                    }
                },
                _ => {},
            }
            i = i + 1;
        }
        assert(resources@.take(i as int) == resources@);
        count
    }
}

impl<D: DevicePio + DeviceMmio + ?Sized> IoManager<D, D> {
    /// Registers `device` on every MMIO range of `resources`, then on every
    /// port I/O range; the first failure ends the work and is returned.
    pub fn register_resources(&mut self, device: Arc<D>, resources: &[Resource]) -> (r: Result<
        (),
        Error,
    >)
        requires
            old(self).wf(),
        ensures
            final(self).wf(),
            ({
                let (m, em) = register_all(
                    old(self).mmio_entries(),
                    mmio_items(resources@),
                    device,
                );
                let (p, ep) = register_all(old(self).pio_entries(), pio_items(resources@), device);
                &&& final(self).mmio_entries() == m
                &&& em is Some ==> r == registered(em) && final(self).pio_entries() == old(
                    self,
                ).pio_entries()
                &&& em is None ==> r == registered(ep) && final(self).pio_entries() == p
            }),
    {
        self.register_mmio_resources(share(&device), resources)?;
        self.register_pio_resources(device, resources)
    }
}

} // verus!
