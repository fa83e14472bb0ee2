//! A system allocator: the identifier allocators of a virtual machine.
use vstd::prelude::*;

use crate::allocator::id::IdAllocator;
use crate::allocator::resource::{self, ResourceAllocator};

verus! {

/// Errors of the system allocator.
#[derive(Debug, PartialEq, Eq, Structural, Clone, Copy)]
pub enum Error {
    /// An allocator of that kind is installed already.
    AllocatorExist,
    /// No allocator of that kind is installed.
    AllocatorNotExist,
    /// The identifier allocator refused.
    IdAllocateError(resource::Error),
    /// The address allocator refused.
    AddressAllocateError(resource::Error),
    /// A port I/O address must be given.
    InvalidPortIoAddress,
}

/// A request for an identifier.
#[derive(Debug, Clone, Copy)]
pub struct IdAllocateParameters {
    /// The identifier asked for, if any.
    pub resource: Option<u32>,
}

/// The identifier allocators of a virtual machine: one for device instance
/// identifiers, one for interrupt numbers; each installed once.
pub struct DefaultSystemAllocator {
    device_id: Option<IdAllocator>,
    irq: Option<IdAllocator>,
}

impl DefaultSystemAllocator {
    /// The allocator of device identifiers, if installed.
    pub closed spec fn spec_device_id(&self) -> Option<IdAllocator> {
        self.device_id
    }

    /// The allocator of interrupt numbers, if installed.
    pub closed spec fn spec_irq(&self) -> Option<IdAllocator> {
        self.irq
    }

    /// Whether a device identifier allocator is installed.
    pub open spec fn has_device_id(&self) -> bool {
        self.spec_device_id() is Some
    }

    /// Whether an interrupt number allocator is installed.
    pub open spec fn has_irq(&self) -> bool {
        self.spec_irq() is Some
    }

    /// Each installed allocator is consistent.
    pub closed spec fn wf(&self) -> bool {
        &&& (self.device_id matches Some(a) ==> a.wf())
        &&& (self.irq matches Some(a) ==> a.wf())
    }

    /// No allocator installed.
    pub fn new() -> (r: Self)
        ensures
            r.wf(),
            !r.has_device_id(),
            !r.has_irq(),
    {
        DefaultSystemAllocator { device_id: None, irq: None }
    }

    /// Installs the allocator of device identifiers; `AllocatorExist` where
    /// one is installed.
    pub fn insert_device_id(&mut self, allocator: IdAllocator) -> (r: Result<(), Error>)
        requires
            old(self).wf(),
            allocator.wf(),
        ensures
            final(self).wf(),
            r is Ok <==> !old(self).has_device_id(),
            r is Err ==> r == Err::<(), Error>(Error::AllocatorExist),
            final(self).has_device_id(),
            final(self).has_irq() == old(self).has_irq(),
    {
        if self.device_id.is_some() {
            return Err(Error::AllocatorExist);
        }
        self.device_id = Some(allocator);
        Ok(())
    }

    /// Installs the allocator of interrupt numbers; `AllocatorExist` where
    /// one is installed.
    pub fn insert_irq(&mut self, allocator: IdAllocator) -> (r: Result<(), Error>)
        requires
            old(self).wf(),
            allocator.wf(),
        ensures
            final(self).wf(),
            r is Ok <==> !old(self).has_irq(),
            r is Err ==> r == Err::<(), Error>(Error::AllocatorExist),
            final(self).has_irq(),
            final(self).has_device_id() == old(self).has_device_id(),
    {
        if self.irq.is_some() {
            return Err(Error::AllocatorExist);
        }
        self.irq = Some(allocator);
        Ok(())
    }

    /// A device identifier, as the installed allocator gives it;
    /// `AllocatorNotExist` where none is installed.
    pub fn allocate_device_id(&mut self, params: IdAllocateParameters) -> (r: Result<u32, Error>)
        requires
            old(self).wf(),
        ensures
            final(self).wf(),
            final(self).spec_irq() == old(self).spec_irq(),
            old(self).spec_device_id() matches Some(a) ==> match r {
                Ok(v) => {
                    &&& final(self).spec_device_id() matches Some(b) && b.spec_start() == a.spec_start()
                        && b.spec_end() == a.spec_end() && forall|w: u32|
                        b.spec_used().contains(w) <==> (a.spec_used().contains(w) || w == v)
                    &&& !a.spec_used().contains(v)
                    &&& a.spec_start() <= v
                    &&& (params.resource matches Some(res) ==> v == res)
                },
                Err(e) => {
                    &&& e is IdAllocateError
                    &&& final(self).spec_device_id() matches Some(b) && b.spec_used() == a.spec_used()
                },
            },
            !old(self).has_device_id() ==> r == Err::<u32, Error>(Error::AllocatorNotExist),
            final(self).has_device_id() == old(self).has_device_id(),
            final(self).has_irq() == old(self).has_irq(),
    {
        match &mut self.device_id {
            Some(allocator) => match allocator.allocate(params.resource, 1) {
                Ok(id) => Ok(id),
                Err(e) => Err(Error::IdAllocateError(e)),
            },
            None => Err(Error::AllocatorNotExist),
        }
    }

    /// An interrupt number, as the installed allocator gives it;
    /// `AllocatorNotExist` where none is installed.
    pub fn allocate_irq(&mut self, params: IdAllocateParameters) -> (r: Result<u32, Error>)
        requires
            old(self).wf(),
        ensures
            final(self).wf(),
            final(self).spec_device_id() == old(self).spec_device_id(),
            old(self).spec_irq() matches Some(a) ==> match r {
                Ok(v) => {
                    &&& final(self).spec_irq() matches Some(b) && b.spec_start() == a.spec_start()
                        && b.spec_end() == a.spec_end() && forall|w: u32|
                        b.spec_used().contains(w) <==> (a.spec_used().contains(w) || w == v)
                    &&& !a.spec_used().contains(v)
                    &&& a.spec_start() <= v
                    &&& (params.resource matches Some(res) ==> v == res)
                },
                Err(e) => {
                    &&& e is IdAllocateError
                    &&& final(self).spec_irq() matches Some(b) && b.spec_used() == a.spec_used()
                },
            },
            !old(self).has_irq() ==> r == Err::<u32, Error>(Error::AllocatorNotExist),
            final(self).has_device_id() == old(self).has_device_id(),
            final(self).has_irq() == old(self).has_irq(),
    {
        match &mut self.irq {
            Some(allocator) => match allocator.allocate(params.resource, 1) {
                Ok(id) => Ok(id),
                Err(e) => Err(Error::IdAllocateError(e)),
            },
            None => Err(Error::AllocatorNotExist),
        }
    }
}

} // verus!
