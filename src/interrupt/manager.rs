//! The interrupt manager of a virtual machine: the routing table and the
//! interrupt source groups made from it.
use vstd::prelude::*;

use std::collections::HashMap;

use crate::interrupt::group::{
    InterruptIndex, InterruptSourceType, LegacyIrq, PciMsiIrq, DEFAULT_MAX_MSI_IRQS_PER_DEVICE,
};
use crate::interrupt::routing::{insert_all, legacy_routes, KvmIrqRouting, MAX_IRQS, MAX_LEGACY_IRQS};
use crate::interrupt::{Error, Result};

verus! {

broadcast use vstd::std_specs::hash::group_hash_axioms;

/// An interrupt source group, of either kind.
pub enum InterruptGroup {
    /// One legacy interrupt line.
    Legacy(LegacyIrq),
    /// A block of PCI message-signalled interrupts.
    PciMsi(PciMsiIrq),
}

impl InterruptGroup {
    /// The first interrupt of the group.
    pub open spec fn spec_base(&self) -> u32 {
        match self {
            InterruptGroup::Legacy(g) => g.spec_base(),
            InterruptGroup::PciMsi(g) => g.spec_base(),
        }
    }

    /// The kind of the group.
    pub open spec fn spec_type(&self) -> InterruptSourceType {
        match self {
            InterruptGroup::Legacy(_) => InterruptSourceType::LegacyIrq,
            InterruptGroup::PciMsi(_) => InterruptSourceType::PciMsiIrq,
        }
    }

    /// The first interrupt of the group.
    pub fn base(&self) -> (r: InterruptIndex)
        ensures
            r == self.spec_base(),
    {
        match self {
            InterruptGroup::Legacy(g) => g.base(),
            InterruptGroup::PciMsi(g) => g.base(),
        }
    }

    /// The kind of the group.
    pub fn interrupt_type(&self) -> (r: InterruptSourceType)
        ensures
            r == self.spec_type(),
    {
        match self {
            InterruptGroup::Legacy(g) => g.interrupt_type(),
            InterruptGroup::PciMsi(g) => g.interrupt_type(),
        }
    }
}

/// The routing table of a virtual machine, the groups made from it, by first
/// interrupt, and the cap on the size of new MSI groups.
pub struct KvmIrqManager {
    routes: KvmIrqRouting,
    groups: HashMap<InterruptIndex, InterruptSourceType>,
    max_msi_irqs: InterruptIndex,
}

impl KvmIrqManager {
    /// The routing table.
    pub closed spec fn spec_routing(&self) -> KvmIrqRouting {
        self.routes
    }

    /// The kind of each group, by first interrupt.
    pub closed spec fn spec_groups(&self) -> Map<InterruptIndex, InterruptSourceType> {
        self.groups@
    }

    /// The cap on the size of new MSI groups.
    pub closed spec fn spec_max_msi_irqs(&self) -> InterruptIndex {
        self.max_msi_irqs
    }

    /// The routing table is well formed.
    pub open spec fn wf(&self) -> bool {
        self.spec_routing().wf()
    }

    /// A manager with an empty table, no group, and the default cap.
    pub fn new() -> (r: Self)
        ensures
            r.wf(),
            r.spec_routing()@ == Map::<u64, crate::interrupt::routing::RoutingEntry>::empty(),
            r.spec_groups() == Map::<InterruptIndex, InterruptSourceType>::empty(),
            r.spec_max_msi_irqs() == DEFAULT_MAX_MSI_IRQS_PER_DEVICE,
    {
        KvmIrqManager {
            routes: KvmIrqRouting::new(),
            groups: HashMap::new(),
            max_msi_irqs: DEFAULT_MAX_MSI_IRQS_PER_DEVICE,
        }
    }

    /// Installs the default routes of the legacy interrupt lines; the owner
    /// then commits the table.
    pub fn initialize(&mut self) -> (r: Result<()>)
        requires
            old(self).wf(),
        ensures
            r is Ok,
            final(self).wf(),
            final(self).spec_routing()@ == insert_all(old(self).spec_routing()@, legacy_routes()),
            final(self).spec_groups() == old(self).spec_groups(),
            final(self).spec_max_msi_irqs() == old(self).spec_max_msi_irqs(),
    {
        self.routes.initialize()
    }

    /// The routing table.
    pub fn routing(&self) -> (r: &KvmIrqRouting)
        ensures
            *r == self.spec_routing(),
    {
        &self.routes
    }

    /// The routing table, for a group to change.
    pub fn routing_mut(&mut self) -> (r: &mut KvmIrqRouting)
        ensures
            *r == old(self).spec_routing(),
            final(self).spec_routing() == *final(r),
            final(self).spec_groups() == old(self).spec_groups(),
            final(self).spec_max_msi_irqs() == old(self).spec_max_msi_irqs(),
    {
        &mut self.routes
    }

    /// Makes a group of kind `ty` of `count` sources from interrupt `base`
    /// and records it; `InvalidConfiguration`, with nothing recorded, where
    /// the group would not be valid: a legacy group is one legacy line, an
    /// MSI group holds 1 to the cap of sources, ending at or below `MAX_IRQS`.
    pub fn create_group(&mut self, ty: InterruptSourceType, base: InterruptIndex, count: u32) -> (r:
        Result<InterruptGroup>)
        ensures
            final(self).spec_routing() == old(self).spec_routing(),
            final(self).spec_max_msi_irqs() == old(self).spec_max_msi_irqs(),
            r is Ok <==> match ty {
                InterruptSourceType::LegacyIrq => count == 1 && base < MAX_LEGACY_IRQS,
                InterruptSourceType::PciMsiIrq => 1 <= count <= old(self).spec_max_msi_irqs()
                    && base + count <= MAX_IRQS,
            },
            match r {
                Ok(g) => {
                    &&& g.spec_base() == base
                    &&& g.spec_type() == ty
                    &&& final(self).spec_groups() == old(self).spec_groups().insert(base, ty)
                    &&& match g {
                        InterruptGroup::Legacy(l) => l.spec_status() == 0,
                        InterruptGroup::PciMsi(m) => m.wf() && m.spec_count() == count,
                    }
                },
                Err(e) => e == Error::InvalidConfiguration && final(self).spec_groups() == old(
                    self,
                ).spec_groups(),
            },
    {
        let group = match ty {
            InterruptSourceType::LegacyIrq => InterruptGroup::Legacy(LegacyIrq::new(base, count)?),
            InterruptSourceType::PciMsiIrq => InterruptGroup::PciMsi(
                PciMsiIrq::new(base, count, self.max_msi_irqs)?,
            ),
        };
        self.groups.insert(base, ty);
        Ok(group)
    }

    /// Forgets the group whose first interrupt is `base`. The owner disables
    /// the group first: this does not.
    pub fn destroy_group(&mut self, base: InterruptIndex) -> (r: Result<()>)
        ensures
            r is Ok,
            final(self).spec_routing() == old(self).spec_routing(),
            final(self).spec_max_msi_irqs() == old(self).spec_max_msi_irqs(),
            final(self).spec_groups() == old(self).spec_groups().remove(base),
    {
        self.groups.remove(&base);
        Ok(())
    }

    /// Sets the cap on the size of MSI groups made from now on.
    pub fn set_max_msi_irqs(&mut self, max_msi_irqs: InterruptIndex)
        ensures
            final(self).spec_routing() == old(self).spec_routing(),
            final(self).spec_groups() == old(self).spec_groups(),
            final(self).spec_max_msi_irqs() == max_msi_irqs,
    {
        self.max_msi_irqs = max_msi_irqs;
    }
}

} // verus!
