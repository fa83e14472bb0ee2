//! Resources handed to a device: address ranges, interrupts, memory slots.
use vstd::prelude::*;

verus! {

/// What a device asks of the allocator, one variant per kind of resource.
#[derive(Debug, Clone, Copy)]
pub enum ResourceConstraint {
    /// A range of port I/O addresses.
    PioAddress {
        /// Bounds, inclusive, that the range must lie within.
        range: Option<(u16, u16)>,
        /// Alignment of the base.
        align: u16,
        /// Size of the range.
        size: u16,
    },
    /// A range of MMIO addresses.
    MmioAddress {
        /// Bounds, inclusive, that the range must lie within.
        range: Option<(u64, u64)>,
        /// Alignment of the base.
        align: u64,
        /// Size of the range.
        size: u64,
    },
    /// A legacy interrupt line.
    LegacyIrq {
        /// The line asked for, if any.
        irq: Option<u32>,
    },
    /// A block of PCI MSI interrupts.
    PciMsiIrq {
        /// Number of interrupts.
        size: u32,
    },
    /// A block of PCI MSI-X interrupts.
    PciMsixIrq {
        /// Number of interrupts.
        size: u32,
    },
    /// A block of generic MSI interrupts.
    GenericIrq {
        /// Number of interrupts.
        size: u32,
    },
    /// Hypervisor memory slots.
    KvmMemSlot {
        /// The first slot asked for, if any.
        slot: Option<u32>,
        /// Number of slots.
        size: u32,
    },
}

impl ResourceConstraint {
    /// A port I/O range of `size` addresses, anywhere, byte aligned.
    pub fn new_pio(size: u16) -> (r: Self)
        ensures
            r == (ResourceConstraint::PioAddress { range: None, align: 1, size }),
    {
        ResourceConstraint::PioAddress { range: None, align: 0x1, size }
    }

    /// A port I/O range of `size` addresses within `range`, aligned to `align`.
    pub fn pio_with_constraints(size: u16, range: Option<(u16, u16)>, align: u16) -> (r: Self)
        ensures
            r == (ResourceConstraint::PioAddress { range, align, size }),
    {
        ResourceConstraint::PioAddress { range, align, size }
    }

    /// An MMIO range of `size` addresses, anywhere, page aligned.
    pub fn new_mmio(size: u64) -> (r: Self)
        ensures
            r == (ResourceConstraint::MmioAddress { range: None, align: 0x1000, size }),
    {
        ResourceConstraint::MmioAddress { range: None, align: 0x1000, size }
    }

    /// An MMIO range of `size` addresses within `range`, aligned to `align`.
    pub fn mmio_with_constraints(size: u64, range: Option<(u64, u64)>, align: u64) -> (r: Self)
        ensures
            r == (ResourceConstraint::MmioAddress { range, align, size }),
    {
        ResourceConstraint::MmioAddress { range, align, size }
    }

    /// A legacy interrupt line, `irq` if given.
    pub fn new_legacy_irq(irq: Option<u32>) -> (r: Self)
        ensures
            r == (ResourceConstraint::LegacyIrq { irq }),
    {
        ResourceConstraint::LegacyIrq { irq }
    }

    /// `size` hypervisor memory slots, from `slot` if given.
    pub fn new_kvm_mem_slot(size: u32, slot: Option<u32>) -> (r: Self)
        ensures
            r == (ResourceConstraint::KvmMemSlot { slot, size }),
    {
        ResourceConstraint::KvmMemSlot { slot, size }
    }
}

/// Kind of a block of message-signalled interrupts.
#[derive(Clone, Copy, Debug, PartialEq, Eq, Structural)]
pub enum MsiIrqType {
    /// PCI MSI.
    PciMsi,
    /// PCI MSI-X.
    PciMsix,
    /// MSI outside PCI.
    GenericMsi,
}

/// One resource allocated to a device.
#[derive(Clone, Debug)]
pub enum Resource {
    /// A range of port I/O addresses.
    PioAddressRange {
        /// First address.
        base: u16,
        /// Number of addresses.
        size: u16,
    },
    /// A range of MMIO addresses.
    MmioAddressRange {
        /// First address.
        base: u64,
        /// Number of addresses.
        size: u64,
    },
    /// A legacy interrupt line.
    LegacyIrq(u32),
    /// A block of message-signalled interrupts.
    MsiIrq {
        /// Kind of the block.
        ty: MsiIrqType,
        /// First interrupt.
        base: u32,
        /// Number of interrupts.
        size: u32,
    },
    /// A network MAC address.
    MacAddresss(String),
    /// A hypervisor memory slot.
    KvmMemSlot(u32),
}

/// The port I/O ranges of `s`, in order, as (base, size).
pub open spec fn pio_ranges(s: Seq<Resource>) -> Seq<(u16, u16)>
    decreases s.len(),
{
    if s.len() == 0 {
        Seq::empty()
    } else {
        let rest = pio_ranges(s.drop_last());
        match s.last() {
            Resource::PioAddressRange { base, size } => rest.push((base, size)),
            _ => rest,
        }
    }
}

/// The MMIO ranges of `s`, in order, as (base, size).
pub open spec fn mmio_ranges(s: Seq<Resource>) -> Seq<(u64, u64)>
    decreases s.len(),
{
    if s.len() == 0 {
        Seq::empty()
    } else {
        let rest = mmio_ranges(s.drop_last());
        match s.last() {
            Resource::MmioAddressRange { base, size } => rest.push((base, size)),
            _ => rest,
        }
    }
}

/// The memory slots of `s`, in order.
pub open spec fn mem_slots(s: Seq<Resource>) -> Seq<u32>
    decreases s.len(),
{
    if s.len() == 0 {
        Seq::empty()
    } else {
        let rest = mem_slots(s.drop_last());
        match s.last() {
            Resource::KvmMemSlot(slot) => rest.push(slot),
            _ => rest,
        }
    }
}

/// Whether `r` is a legacy interrupt line.
pub open spec fn is_legacy_irq(r: Resource) -> bool {
    r is LegacyIrq
}

/// Whether `r` is a block of message-signalled interrupts of kind `ty`.
pub open spec fn is_msi_of(r: Resource, ty: MsiIrqType) -> bool {
    match r {
        Resource::MsiIrq { ty: t, .. } => t == ty,
        _ => false,
    }
}

/// Whether `r` is a MAC address.
pub open spec fn is_mac(r: Resource) -> bool {
    r is MacAddresss
}

/// The resources of one device, in the order they were appended.
#[derive(Clone, Debug)]
pub struct DeviceResources(Vec<Resource>);

impl View for DeviceResources {
    type V = Seq<Resource>;

    closed spec fn view(&self) -> Seq<Resource> {
        self.0@
    }
}

impl DeviceResources {
    /// No resources.
    pub fn new() -> (r: Self)
        ensures
            r@ == Seq::<Resource>::empty(),
    {
        DeviceResources(Vec::new())
    }

    /// Appends `entry`; duplicates are kept.
    pub fn append(&mut self, entry: Resource)
        ensures
            final(self)@ == old(self)@.push(entry),
    {
        self.0.push(entry);
    }

    /// The port I/O ranges, in order, as (base, size).
    pub fn get_pio_address_ranges(&self) -> (r: Vec<(u16, u16)>)
        ensures
            r@ == pio_ranges(self@),
    {
        let mut vec = Vec::new();
        let mut i: usize = 0;
        while i < self.0.len()
            invariant
                i <= self.0@.len(),
                vec@ == pio_ranges(self.0@.take(i as int)),
            decreases self.0@.len() - i,
        {
            assert(self.0@.take(i + 1).drop_last() == self.0@.take(i as int));
            if let Resource::PioAddressRange { base, size } = &self.0[i] {
                vec.push((*base, *size));
            }
            i = i + 1;
        }
        assert(self.0@.take(i as int) == self.0@);
        vec
    }

    /// The MMIO ranges, in order, as (base, size).
    pub fn get_mmio_address_ranges(&self) -> (r: Vec<(u64, u64)>)
        ensures
            r@ == mmio_ranges(self@),
    {
        let mut vec = Vec::new();
        let mut i: usize = 0;
        while i < self.0.len()
            invariant
                i <= self.0@.len(),
                vec@ == mmio_ranges(self.0@.take(i as int)),
            decreases self.0@.len() - i,
        {
            assert(self.0@.take(i + 1).drop_last() == self.0@.take(i as int));
            if let Resource::MmioAddressRange { base, size } = &self.0[i] {
                vec.push((*base, *size));
            }
            i = i + 1;
        }
        assert(self.0@.take(i as int) == self.0@);
        vec
    }

    /// The first legacy interrupt line, if any.
    pub fn get_legacy_irq(&self) -> (r: Option<u32>)
        ensures
            match r {
                Some(irq) => exists|i: int|
                    0 <= i < self@.len() && self@[i] == Resource::LegacyIrq(irq) && forall|k: int|
                        0 <= k < i ==> !is_legacy_irq(#[trigger] self@[k]),
                None => forall|k: int| 0 <= k < self@.len() ==> !is_legacy_irq(#[trigger] self@[k]),
            },
    {
        let mut i: usize = 0;
        while i < self.0.len()
            invariant
                i <= self.0@.len(),
                forall|k: int| 0 <= k < i ==> !is_legacy_irq(#[trigger] self.0@[k]),
            decreases self.0@.len() - i,
        {
            if let Resource::LegacyIrq(irq) = &self.0[i] {
                assert(self@[i as int] == Resource::LegacyIrq(*irq));
                return Some(*irq);
            }
            i = i + 1;
        }
        None
    }

    /// The PCI MSI block, as (base, size), if any.
    pub fn get_pci_msi_irqs(&self) -> (r: Option<(u32, u32)>)
        ensures
            r == first_msi(self@, MsiIrqType::PciMsi),
    {
        self.get_msi_irqs(MsiIrqType::PciMsi)
    }

    /// The PCI MSI-X block, as (base, size), if any.
    pub fn get_pci_msix_irqs(&self) -> (r: Option<(u32, u32)>)
        ensures
            r == first_msi(self@, MsiIrqType::PciMsix),
    {
        self.get_msi_irqs(MsiIrqType::PciMsix)
    }

    /// The generic MSI block, as (base, size), if any.
    pub fn get_generic_msi_irqs(&self) -> (r: Option<(u32, u32)>)
        ensures
            r == first_msi(self@, MsiIrqType::GenericMsi),
    {
        self.get_msi_irqs(MsiIrqType::GenericMsi)
    }

    /// The first block of message-signalled interrupts of kind `ty`.
    fn get_msi_irqs(&self, ty: MsiIrqType) -> (r: Option<(u32, u32)>)
        ensures
            r == first_msi(self@, ty),
    {
        let mut i: usize = 0;
        assert(self.0@.skip(0) == self.0@);
        while i < self.0.len()
            invariant
                i <= self.0@.len(),
                forall|k: int| 0 <= k < i ==> !is_msi_of(#[trigger] self.0@[k], ty),
                first_msi(self.0@, ty) == first_msi(self.0@.skip(i as int), ty),
            decreases self.0@.len() - i,
        {
            proof {
                lemma_first_msi_step(self.0@.skip(i as int), ty);
                assert(self.0@.skip(i as int).drop_first() == self.0@.skip(i + 1));
            }
            if let Resource::MsiIrq { ty: msi_type, base, size } = &self.0[i] {
                if ty == *msi_type {
                    return Some((*base, *size));
                }
            }
            i = i + 1;
        }
        None
    }

    /// The memory slots, in order.
    pub fn get_kvm_mem_slots(&self) -> (r: Vec<u32>)
        ensures
            r@ == mem_slots(self@),
    {
        let mut vec = Vec::new();
        let mut i: usize = 0;
        while i < self.0.len()
            invariant
                i <= self.0@.len(),
                vec@ == mem_slots(self.0@.take(i as int)),
            decreases self.0@.len() - i,
        {
            assert(self.0@.take(i + 1).drop_last() == self.0@.take(i as int));
            if let Resource::KvmMemSlot(index) = &self.0[i] {
                vec.push(*index);
            }
            i = i + 1;
        }
        assert(self.0@.take(i as int) == self.0@);
        vec
    }

    /// The first MAC address, if any.
    pub fn get_mac_address(&self) -> (r: Option<String>)
        ensures
            match r {
                Some(mac) => exists|i: int|
                    0 <= i < self@.len() && self@[i] == Resource::MacAddresss(mac) && forall|k: int|
                        0 <= k < i ==> !is_mac(#[trigger] self@[k]),
                None => forall|k: int| 0 <= k < self@.len() ==> !is_mac(#[trigger] self@[k]),
            },
    {
        let mut i: usize = 0;
        while i < self.0.len()
            invariant
                i <= self.0@.len(),
                forall|k: int| 0 <= k < i ==> !is_mac(#[trigger] self.0@[k]),
            decreases self.0@.len() - i,
        {
            if let Resource::MacAddresss(addr) = &self.0[i] {
                let mac = addr.clone();
                assert(self@[i as int] == Resource::MacAddresss(mac));
                return Some(mac);
            }
            i = i + 1;
        }
        None
    }

    /// All resources, in order.
    pub fn get_all_resources(&self) -> (r: &[Resource])
        ensures
            r@ == self@,
    {
        self.0.as_slice()
    }
}

/// The first block of kind `ty` in `s`, as (base, size).
pub open spec fn first_msi(s: Seq<Resource>, ty: MsiIrqType) -> Option<(u32, u32)>
    decreases s.len(),
{
    if s.len() == 0 {
        None
    } else {
        match s[0] {
            Resource::MsiIrq { ty: t, base, size } => if t == ty {
                Some((base, size))
            } else {
                first_msi(s.drop_first(), ty)
            },
            _ => first_msi(s.drop_first(), ty),
        }
    }
}

proof fn lemma_first_msi_step(s: Seq<Resource>, ty: MsiIrqType)
    requires
        s.len() > 0,
    ensures
        !is_msi_of(s[0], ty) ==> first_msi(s, ty) == first_msi(s.drop_first(), ty),
{
}

} // verus!
