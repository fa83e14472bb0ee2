//! Groups of interrupt sources of one device: a legacy line, or a block of
//! message-signalled interrupts.
//!
//! A group decides; its owner acts. Where an operation succeeds, the owner
//! then does what the hypervisor side needs: on `enable`, register the
//! trigger notifier of each source for its interrupt; on `disable`,
//! unregister them first; on a `trigger` that asks for it, write 1 to the
//! notifier of the source; after any change of the routing table, commit it.
use vstd::prelude::*;

use crate::interrupt::legacy::LegacyIrqConfig;
use crate::interrupt::msi::MsiIrqConfig;
use crate::interrupt::routing::{
    add_check, insert_all, msi_route, remove_all, route_key, KvmIrqRouting, RoutingEntry,
    MAX_IRQS, MAX_LEGACY_IRQS,
};
use crate::interrupt::{Error, Result};

verus! {

/// Index of a source within its group, or number of an interrupt.
pub type InterruptIndex = u32;

/// The cap on the size of an MSI group that a manager starts with.
pub const DEFAULT_MAX_MSI_IRQS_PER_DEVICE: u32 = 128;

/// Kind of an interrupt source group.
#[derive(Clone, Copy, Debug, PartialEq, Eq, Structural)]
pub enum InterruptSourceType {
    /// One legacy interrupt line.
    LegacyIrq,
    /// A block of PCI message-signalled interrupts.
    PciMsiIrq,
}

/// Configuration of one source of a group.
#[derive(Clone, Copy, Debug, PartialEq, Eq, Structural)]
pub enum InterruptSourceConfig {
    /// For a legacy line.
    LegacyIrq(LegacyIrqConfig),
    /// For a message-signalled interrupt.
    MsiIrq(MsiIrqConfig),
}

/// A legacy interrupt line, with the status word of its edge flags.
pub struct LegacyIrq {
    base: InterruptIndex,
    status: u32,
}

impl LegacyIrq {
    /// The interrupt line.
    pub closed spec fn spec_base(&self) -> u32 {
        self.base
    }

    /// The status word.
    pub closed spec fn spec_status(&self) -> u32 {
        self.status
    }

    /// The group of line `base`, status clear; `InvalidConfiguration` unless
    /// `count` is 1 and `base` is a legacy line.
    pub fn new(base: InterruptIndex, count: InterruptIndex) -> (r: Result<Self>)
        ensures
            r is Ok <==> count == 1 && base < MAX_LEGACY_IRQS,
            match r {
                Ok(g) => g.spec_base() == base && g.spec_status() == 0,
                Err(e) => e == Error::InvalidConfiguration,
            },
    {
        if count != 1 {
            return Err(Error::InvalidConfiguration);
        }
        if base >= MAX_LEGACY_IRQS {
            return Err(Error::InvalidConfiguration);
        }
        Ok(LegacyIrq { base, status: 0 })
    }

    /// The kind of the group.
    pub fn interrupt_type(&self) -> (r: InterruptSourceType)
        ensures
            r == InterruptSourceType::LegacyIrq,
    {
        InterruptSourceType::LegacyIrq
    }

    /// The number of sources: one.
    pub fn len(&self) -> (r: InterruptIndex)
        ensures
            r == 1,
    {
        1
    }

    /// The interrupt line.
    pub fn base(&self) -> (r: InterruptIndex)
        ensures
            r == self.spec_base(),
    {
        self.base
    }

    /// The status word of source `index`; 0 for any other index.
    pub fn flags(&self, index: InterruptIndex) -> (r: u32)
        ensures
            r == if index == 0 {
                self.spec_status()
            } else {
                0
            },
    {
        if index == 0 {
            self.status
        } else {
            0
        }
    }

    /// Checks the configurations for `enable`: one, for a legacy line.
    ///
    /// On success the owner registers the trigger notifier for the line.
    pub fn enable(&self, configs: &[InterruptSourceConfig]) -> (r: Result<()>)
        ensures
            r is Ok <==> configs@.len() == 1 && configs@[0] is LegacyIrq,
            r is Err ==> r == Err::<(), Error>(Error::InvalidConfiguration),
    {
        if configs.len() != 1 {
            return Err(Error::InvalidConfiguration);
        }
        match configs[0] {
            InterruptSourceConfig::LegacyIrq(_) => Ok(()),
            InterruptSourceConfig::MsiIrq(_) => Err(Error::InvalidConfiguration),
        }
    }

    /// Nothing to check for `disable`: the owner unregisters the notifier.
    pub fn disable(&self) -> (r: Result<()>)
        ensures
            r is Ok,
    {
        Ok(())
    }

    /// Checks an update of source `index`: index 0, a legacy configuration.
    pub fn update(&self, index: InterruptIndex, config: &InterruptSourceConfig) -> (r: Result<()>)
        ensures
            r is Ok <==> index == 0 && *config is LegacyIrq,
            r is Err ==> r == Err::<(), Error>(Error::InvalidConfiguration),
    {
        if index != 0 {
            return Err(Error::InvalidConfiguration);
        }
        match config {
            InterruptSourceConfig::LegacyIrq(_) => Ok(()),
            InterruptSourceConfig::MsiIrq(_) => Err(Error::InvalidConfiguration),
        }
    }

    /// Raises source `index`: sets `flags` in the status word. On success the
    /// owner writes 1 to the trigger notifier.
    pub fn trigger(&mut self, index: InterruptIndex, flags: u32) -> (r: Result<()>)
        ensures
            r is Ok <==> index == 0,
            r is Err ==> r == Err::<(), Error>(Error::InvalidConfiguration),
            final(self).spec_base() == old(self).spec_base(),
            final(self).spec_status() == if index == 0 {
                old(self).spec_status() | flags
            } else {
                old(self).spec_status()
            },
    {
        if index != 0 {
            return Err(Error::InvalidConfiguration);
        }
        self.status = self.status | flags;
        Ok(())
    }

    /// Acknowledges source `index`: clears `flags` in the status word.
    pub fn ack(&mut self, index: InterruptIndex, flags: u32) -> (r: Result<()>)
        ensures
            r is Ok <==> index == 0,
            r is Err ==> r == Err::<(), Error>(Error::InvalidConfiguration),
            final(self).spec_base() == old(self).spec_base(),
            final(self).spec_status() == if index == 0 {
                old(self).spec_status() & !flags
            } else {
                old(self).spec_status()
            },
    {
        if index != 0 {
            return Err(Error::InvalidConfiguration);
        }
        self.status = self.status & !flags;
        Ok(())
    }

    /// Masking is for message-signalled interrupts only.
    pub fn mask(&self, index: InterruptIndex) -> (r: Result<()>)
        ensures
            r == Err::<(), Error>(Error::OperationNotSupported),
    {
        Err(Error::OperationNotSupported)
    }

    /// Masking is for message-signalled interrupts only.
    pub fn unmask(&self, index: InterruptIndex) -> (r: Result<bool>)
        ensures
            r == Err::<bool, Error>(Error::OperationNotSupported),
    {
        Err(Error::OperationNotSupported)
    }
}

/// Raising edge flags and then acknowledging the same flags gives back the
/// status word as it was, where none of those flags was set before.
pub proof fn lemma_trigger_ack(status: u32, flags: u32)
    requires
        status & flags == 0,
    ensures
        (status | flags) & !flags == status,
{
    assert((status | flags) & !flags == status) by (bit_vector)
        requires
            status & flags == 0,
    ;
}

/// The routes of a block of message-signalled interrupts from `base`, one
/// per configuration.
pub open spec fn msi_routes(base: u32, configs: Seq<MsiIrqConfig>) -> Seq<RoutingEntry> {
    Seq::new(configs.len(), |i: int| msi_route((base + i) as u32, configs[i]))
}

/// The MSI configurations that `configs` hold, where all are for MSI.
pub open spec fn msi_configs(configs: Seq<InterruptSourceConfig>) -> Seq<MsiIrqConfig> {
    Seq::new(
        configs.len(),
        |i: int|
            match configs[i] {
                InterruptSourceConfig::MsiIrq(c) => c,
                InterruptSourceConfig::LegacyIrq(_) => MsiIrqConfig {
                    high_addr: 0,
                    low_addr: 0,
                    data: 0,
                    devid: 0,
                },
            },
    )
}

/// Whether every configuration of `configs` is for MSI.
pub open spec fn all_msi(configs: Seq<InterruptSourceConfig>) -> bool {
    forall|i: int| 0 <= i < configs.len() ==> (#[trigger] configs[i]) is MsiIrq
}

/// A block of PCI message-signalled interrupts: `count` sources from
/// interrupt `base`, each with its message, its mask bit and its pending
/// bit.
pub struct PciMsiIrq {
    base: InterruptIndex,
    count: InterruptIndex,
    configs: Vec<MsiIrqConfig>,
    masked: Vec<bool>,
    pending: Vec<bool>,
}

impl PciMsiIrq {
    /// The first interrupt.
    pub closed spec fn spec_base(&self) -> u32 {
        self.base
    }

    /// The number of sources.
    pub closed spec fn spec_count(&self) -> u32 {
        self.count
    }

    /// The message of each source.
    pub closed spec fn spec_configs(&self) -> Seq<MsiIrqConfig> {
        self.configs@
    }

    /// The mask bit of each source.
    pub closed spec fn spec_masked(&self) -> Seq<bool> {
        self.masked@
    }

    /// The pending bit of each source.
    pub closed spec fn spec_pending(&self) -> Seq<bool> {
        self.pending@
    }

    /// The group holds one message, mask bit and pending bit per source, and
    /// its interrupts lie below `MAX_IRQS`.
    pub open spec fn wf(&self) -> bool {
        &&& 1 <= self.spec_count()
        &&& self.spec_base() + self.spec_count() <= MAX_IRQS
        &&& self.spec_configs().len() == self.spec_count()
        &&& self.spec_masked().len() == self.spec_count()
        &&& self.spec_pending().len() == self.spec_count()
    }

    /// The block of `count` sources from `base`, messages zero, unmasked and
    /// not pending; `InvalidConfiguration` unless `count` is between 1 and
    /// `max_msi_irqs` and the block ends at or below `MAX_IRQS`.
    pub fn new(base: InterruptIndex, count: InterruptIndex, max_msi_irqs: InterruptIndex) -> (r:
        Result<Self>)
        ensures
            r is Ok <==> 1 <= count <= max_msi_irqs && base + count <= MAX_IRQS,
            match r {
                Ok(g) => {
                    &&& g.wf()
                    &&& g.spec_base() == base
                    &&& g.spec_count() == count
                    &&& forall|i: int|
                        0 <= i < count ==> (#[trigger] g.spec_configs()[i]) == (MsiIrqConfig {
                            high_addr: 0,
                            low_addr: 0,
                            data: 0,
                            devid: 0,
                        }) && !g.spec_masked()[i] && !g.spec_pending()[i]
                },
                Err(e) => e == Error::InvalidConfiguration,
            },
    {
        if count == 0 || count > max_msi_irqs || base >= MAX_IRQS || count > MAX_IRQS - base {
            return Err(Error::InvalidConfiguration);
        }
        let mut configs: Vec<MsiIrqConfig> = Vec::new();
        let mut masked: Vec<bool> = Vec::new();
        let mut pending: Vec<bool> = Vec::new();
        let mut i: u32 = 0;
        while i < count
            invariant
                i <= count,
                configs@.len() == i,
                masked@.len() == i,
                pending@.len() == i,
                forall|k: int|
                    0 <= k < i ==> (#[trigger] configs@[k]) == (MsiIrqConfig {
                        high_addr: 0,
                        low_addr: 0,
                        data: 0,
                        devid: 0,
                    }) && !masked@[k] && !pending@[k],
            decreases count - i,
        {
            configs.push(MsiIrqConfig::new());
            masked.push(false);
            pending.push(false);
            i = i + 1;
        }
        Ok(PciMsiIrq { base, count, configs, masked, pending })
    }

    /// The kind of the group.
    pub fn interrupt_type(&self) -> (r: InterruptSourceType)
        ensures
            r == InterruptSourceType::PciMsiIrq,
    {
        InterruptSourceType::PciMsiIrq
    }

    /// The number of sources.
    pub fn len(&self) -> (r: InterruptIndex)
        ensures
            r == self.spec_count(),
    {
        self.count
    }

    /// The first interrupt.
    pub fn base(&self) -> (r: InterruptIndex)
        ensures
            r == self.spec_base(),
    {
        self.base
    }

    /// The message of source `index`, if there is such a source.
    pub fn config(&self, index: InterruptIndex) -> (r: Option<MsiIrqConfig>)
        requires
            self.wf(),
        ensures
            r == if index < self.spec_count() {
                Some(self.spec_configs()[index as int])
            } else {
                None::<MsiIrqConfig>
            },
    {
        if index >= self.count {
            return None;
        }
        Some(self.configs[index as usize])
    }

    /// The routes of the sources, from their messages.
    fn routes(&self) -> (r: Vec<RoutingEntry>)
        requires
            self.wf(),
        ensures
            r@ == msi_routes(self.spec_base(), self.spec_configs()),
    {
        let mut entries: Vec<RoutingEntry> = Vec::new();
        let mut i: u32 = 0;
        while i < self.count
            invariant
                self.wf(),
                i <= self.spec_count(),
                entries@ == msi_routes(self.spec_base(), self.spec_configs()).take(i as int),
            decreases self.spec_count() - i,
        {
            entries.push(RoutingEntry::msi(self.base + i, &self.configs[i as usize]));
            assert(entries@ =~= msi_routes(self.spec_base(), self.spec_configs()).take(i + 1));
            i = i + 1;
        }
        assert(msi_routes(self.spec_base(), self.spec_configs()).take(i as int) =~= msi_routes(
            self.spec_base(),
            self.spec_configs(),
        ));
        entries
    }

    /// Installs a route for each source, from `configs`, one per source and
    /// all for MSI (else `InvalidConfiguration`), and keeps the messages.
    ///
    /// The routes are added to `routing` as `KvmIrqRouting::add` does, and its
    /// errors are passed on with the group and the table unchanged. On success
    /// the owner commits the table and registers each trigger notifier.
    pub fn enable(&mut self, configs: &[InterruptSourceConfig], routing: &mut KvmIrqRouting) -> (r:
        Result<()>)
        requires
            old(self).wf(),
            old(routing).wf(),
        ensures
            final(self).wf(),
            final(routing).wf(),
            final(self).spec_base() == old(self).spec_base(),
            final(self).spec_count() == old(self).spec_count(),
            final(self).spec_masked() == old(self).spec_masked(),
            final(self).spec_pending() == old(self).spec_pending(),
            ({
                let routes = msi_routes(old(self).spec_base(), msi_configs(configs@));
                &&& (configs@.len() != old(self).spec_count() || !all_msi(configs@)) ==> r
                    == Err::<(), Error>(Error::InvalidConfiguration) && *final(routing) == *old(
                    routing,
                ) && final(self).spec_configs() == old(self).spec_configs()
                &&& (configs@.len() == old(self).spec_count() && all_msi(configs@)) ==> {
                    &&& r == add_check(old(routing)@, routes)
                    &&& r is Ok ==> final(routing)@ == insert_all(old(routing)@, routes)
                        && final(self).spec_configs() == msi_configs(configs@)
                    &&& r is Err ==> final(routing)@ == old(routing)@ && final(self).spec_configs()
                        == old(self).spec_configs()
                }
            }),
    {
        if configs.len() != self.count as usize {
            return Err(Error::InvalidConfiguration);
        }
        let mut msi: Vec<MsiIrqConfig> = Vec::new();
        let mut entries: Vec<RoutingEntry> = Vec::new();
        let mut i: usize = 0;
        while i < configs.len()
            invariant
                self.wf(),
                *self == *old(self),
                *routing == *old(routing),
                routing.wf(),
                configs@.len() == self.spec_count(),
                i <= configs@.len(),
                forall|k: int| 0 <= k < i ==> (#[trigger] configs@[k]) is MsiIrq,
                msi@ == msi_configs(configs@).take(i as int),
                entries@ == msi_routes(self.spec_base(), msi_configs(configs@)).take(i as int),
            decreases configs@.len() - i,
        {
            match &configs[i] {
                InterruptSourceConfig::MsiIrq(cfg) => {
                    msi.push(*cfg);
                    entries.push(RoutingEntry::msi(self.base + i as u32, cfg));
                },
                InterruptSourceConfig::LegacyIrq(_) => {
                    return Err(Error::InvalidConfiguration);
                },
            }
            assert(msi@ =~= msi_configs(configs@).take(i + 1));
            assert(entries@ =~= msi_routes(self.spec_base(), msi_configs(configs@)).take(i + 1));
            i = i + 1;
        }
        assert(msi@ =~= msi_configs(configs@));
        assert(entries@ =~= msi_routes(self.spec_base(), msi_configs(configs@)));
        routing.add(entries.as_slice())?;
        self.configs = msi;
        Ok(())
    }

    /// Removes the routes of the sources from `routing`; the owner has
    /// unregistered the trigger notifiers first, and commits the table after.
    pub fn disable(&self, routing: &mut KvmIrqRouting) -> (r: Result<()>)
        requires
            self.wf(),
            old(routing).wf(),
        ensures
            r is Ok,
            final(routing).wf(),
            final(routing)@ == remove_all(
                old(routing)@,
                msi_routes(self.spec_base(), self.spec_configs()),
            ),
    {
        let entries = self.routes();
        routing.remove(entries.as_slice())
    }

    /// Replaces the message of source `index` with that of `config` and the
    /// route of the source with one for the new message.
    ///
    /// `InvalidConfiguration`, with nothing changed, where there is no such
    /// source or `config` is not for MSI; `NotFound`, with the message
    /// replaced but the table unchanged, where the source has no route.
    pub fn update(
        &mut self,
        index: InterruptIndex,
        config: &InterruptSourceConfig,
        routing: &mut KvmIrqRouting,
    ) -> (r: Result<()>)
        requires
            old(self).wf(),
            old(routing).wf(),
        ensures
            final(self).wf(),
            final(routing).wf(),
            final(self).spec_base() == old(self).spec_base(),
            final(self).spec_count() == old(self).spec_count(),
            final(self).spec_masked() == old(self).spec_masked(),
            final(self).spec_pending() == old(self).spec_pending(),
            (index >= old(self).spec_count() || *config is LegacyIrq) ==> r == Err::<(), Error>(
                Error::InvalidConfiguration,
            ) && *final(self) == *old(self) && *final(routing) == *old(routing),
            (index < old(self).spec_count() && *config is MsiIrq) ==> {
                let cfg = old(self).spec_configs()[index as int];
                let new_cfg = match *config {
                    InterruptSourceConfig::MsiIrq(c) => MsiIrqConfig {
                        high_addr: c.high_addr,
                        low_addr: c.low_addr,
                        data: c.data,
                        devid: cfg.devid,
                    },
                    InterruptSourceConfig::LegacyIrq(_) => cfg,
                };
                let entry = msi_route((old(self).spec_base() + index) as u32, new_cfg);
                &&& final(self).spec_configs() == old(self).spec_configs().update(
                    index as int,
                    new_cfg,
                )
                &&& r is Ok <==> old(routing)@.contains_key(route_key(entry))
                &&& r is Ok ==> final(routing)@ == old(routing)@.insert(route_key(entry), entry)
                &&& r is Err ==> r == Err::<(), Error>(Error::NotFound) && final(routing)@ == old(
                    routing,
                )@
            },
    {
        if index >= self.count {
            return Err(Error::InvalidConfiguration);
        }
        match config {
            InterruptSourceConfig::MsiIrq(cfg) => {
                let old_cfg = self.configs[index as usize];
                let new_cfg = MsiIrqConfig {
                    high_addr: cfg.high_addr,
                    low_addr: cfg.low_addr,
                    data: cfg.data,
                    devid: old_cfg.devid,
                };
                self.configs.set(index as usize, new_cfg);
                let entry = RoutingEntry::msi(self.base + index, &new_cfg);
                routing.modify(&entry)
            },
            InterruptSourceConfig::LegacyIrq(_) => Err(Error::InvalidConfiguration),
        }
    }

    /// Raises source `index`; `flags` must be 0 (else `InvalidConfiguration`).
    ///
    /// Returns whether the owner is to write 1 to the trigger notifier of the
    /// source: not while the source is masked, which marks it pending instead.
    pub fn trigger(&mut self, index: InterruptIndex, flags: u32) -> (r: Result<bool>)
        requires
            old(self).wf(),
        ensures
            final(self).wf(),
            final(self).spec_base() == old(self).spec_base(),
            final(self).spec_count() == old(self).spec_count(),
            final(self).spec_configs() == old(self).spec_configs(),
            final(self).spec_masked() == old(self).spec_masked(),
            (index >= old(self).spec_count() || flags != 0) ==> r == Err::<bool, Error>(
                Error::InvalidConfiguration,
            ) && final(self).spec_pending() == old(self).spec_pending(),
            (index < old(self).spec_count() && flags == 0) ==> {
                &&& r == Ok::<bool, Error>(!old(self).spec_masked()[index as int])
                &&& final(self).spec_pending() == if old(self).spec_masked()[index as int] {
                    old(self).spec_pending().update(index as int, true)
                } else {
                    old(self).spec_pending()
                }
            },
    {
        if index >= self.count || flags != 0 {
            return Err(Error::InvalidConfiguration);
        }
        if self.masked[index as usize] {
            self.pending.set(index as usize, true);
            return Ok(false);
        }
        Ok(true)
    }

    /// Acknowledges source `index`; `flags` must be 0 (else
    /// `InvalidConfiguration`). Nothing else to do.
    pub fn ack(&self, index: InterruptIndex, flags: u32) -> (r: Result<()>)
        ensures
            r is Ok <==> index < self.spec_count() && flags == 0,
            r is Err ==> r == Err::<(), Error>(Error::InvalidConfiguration),
    {
        if index >= self.count || flags != 0 {
            return Err(Error::InvalidConfiguration);
        }
        Ok(())
    }

    /// Masks source `index` (else `InvalidConfiguration`).
    pub fn mask(&mut self, index: InterruptIndex) -> (r: Result<()>)
        requires
            old(self).wf(),
        ensures
            final(self).wf(),
            r is Ok <==> index < old(self).spec_count(),
            r is Err ==> r == Err::<(), Error>(Error::InvalidConfiguration) && *final(self) == *old(
                self,
            ),
            final(self).spec_base() == old(self).spec_base(),
            final(self).spec_count() == old(self).spec_count(),
            final(self).spec_configs() == old(self).spec_configs(),
            final(self).spec_pending() == old(self).spec_pending(),
            r is Ok ==> final(self).spec_masked() == old(self).spec_masked().update(
                index as int,
                true,
            ),
    {
        if index >= self.count {
            return Err(Error::InvalidConfiguration);
        }
        self.masked.set(index as usize, true);
        Ok(())
    }

    /// Unmasks source `index` (else `InvalidConfiguration`); returns whether
    /// it was pending, in which case the owner is to write 1 to its trigger
    /// notifier now. The pending bit is cleared.
    pub fn unmask(&mut self, index: InterruptIndex) -> (r: Result<bool>)
        requires
            old(self).wf(),
        ensures
            final(self).wf(),
            final(self).spec_base() == old(self).spec_base(),
            final(self).spec_count() == old(self).spec_count(),
            final(self).spec_configs() == old(self).spec_configs(),
            index >= old(self).spec_count() ==> r == Err::<bool, Error>(
                Error::InvalidConfiguration,
            ) && *final(self) == *old(self),
            index < old(self).spec_count() ==> {
                &&& r == Ok::<bool, Error>(old(self).spec_pending()[index as int])
                &&& final(self).spec_masked() == old(self).spec_masked().update(index as int, false)
                &&& final(self).spec_pending() == old(self).spec_pending().update(
                    index as int,
                    false,
                )
            },
    {
        if index >= self.count {
            return Err(Error::InvalidConfiguration);
        }
        let was_pending = self.pending[index as usize];
        self.masked.set(index as usize, false);
        self.pending.set(index as usize, false);
        Ok(was_pending)
    }

    /// Whether source `index` was raised while masked and is waiting (else
    /// `InvalidConfiguration`).
    pub fn pending(&self, index: InterruptIndex) -> (r: Result<bool>)
        requires
            self.wf(),
        ensures
            index >= self.spec_count() ==> r == Err::<bool, Error>(Error::InvalidConfiguration),
            index < self.spec_count() ==> r == Ok::<bool, Error>(
                self.spec_pending()[index as int],
            ),
    {
        if index >= self.count {
            return Err(Error::InvalidConfiguration);
        }
        Ok(self.pending[index as usize])
    }
}

} // verus!
