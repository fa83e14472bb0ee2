//! What resource allocators have in common.
use vstd::prelude::*;

verus! {

/// Errors of resource allocation.
#[derive(Debug, PartialEq, Eq, Structural, Clone, Copy)]
pub enum Error {
    /// The resource asked for lies outside the allocator's range.
    OutofScope,
    /// No resource is left.
    Overflow,
    /// The resource overlaps one allocated already.
    Overlap,
    /// The resource is allocated already.
    Duplicated,
    /// The address is not aligned as asked.
    UnalignedAddress,
    /// The size asked for is not one the allocator serves.
    SizeInvalid,
}

impl Error {
    /// The message of the error.
    pub fn to_string(&self) -> (r: String)
        ensures
            r@ == match self {
                Error::OutofScope => "Resource being allocated is out of scope"@,
                Error::Overflow => "Resource being allocated is overflow"@,
                Error::Overlap => "Resource being allocated has overlap"@,
                Error::Duplicated => "Resource being allocated is duplicated"@,
                Error::UnalignedAddress => "Resource being allocated is unaligned"@,
                Error::SizeInvalid => "Resource allocation request size is invalid"@,
            },
    {
        match self {
            Error::OutofScope => String::from_str("Resource being allocated is out of scope"),
            Error::Overflow => String::from_str("Resource being allocated is overflow"),
            Error::Overlap => String::from_str("Resource being allocated has overlap"),
            Error::Duplicated => String::from_str("Resource being allocated is duplicated"),
            Error::UnalignedAddress => String::from_str("Resource being allocated is unaligned"),
            Error::SizeInvalid => String::from_str("Resource allocation request size is invalid"),
        }
    }
}

/// A kind of resource that can be allocated.
pub trait Resource {

}

/// The size of a request for resources.
pub trait ResourceSize {

}

/// An allocator of resources of type `T`, by requests of size `S`.
pub trait ResourceAllocator<T: Resource, S: ResourceSize> {
    /// The state of the allocator is consistent.
    spec fn wf(&self) -> bool;

    /// Allocates `resource` where given, else any free resource.
    fn allocate(&mut self, resource: Option<T>, size: S) -> (r: Result<T, Error>)
        requires
            old(self).wf(),
        ensures
            final(self).wf(),
    ;

    /// Releases `resource`.
    fn free(&mut self, resource: T, size: S)
        requires
            old(self).wf(),
        ensures
            final(self).wf(),
    ;
}

} // verus!
