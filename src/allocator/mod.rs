//! Allocation of numbered resources: device identifiers and interrupt
//! numbers.
pub mod id;
pub mod resource;
pub mod system;

pub use id::IdAllocator;
pub use resource::{Error as ResourceAllocatorError, Resource, ResourceAllocator, ResourceSize};
pub use system::{DefaultSystemAllocator, Error, IdAllocateParameters};
