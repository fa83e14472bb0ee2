//! Interrupt sources, groups of them, and the routing of interrupts to the
//! guest.
use vstd::prelude::*;

pub mod group;
pub mod legacy;
pub mod manager;
pub mod msi;
pub mod routing;

use std::sync::Arc;

verus! {

/// Errors of interrupt operations.
#[derive(Debug, PartialEq, Eq, Structural, Clone, Copy)]
pub enum Error {
    /// The operation is not supported by this kind of interrupt.
    OperationNotSupported,
    /// A configuration, index or flag word does not suit the interrupt.
    InvalidConfiguration,
    /// The state of the interrupt could not be changed.
    InterruptNotChanged,
    /// The interrupt could not be raised.
    InterruptNotTriggered,
    /// The interrupt could not be allocated.
    InterruptAllocationError,
    /// The interrupt could not be released.
    InterruptFreeError,
    /// No route has the key of the entry.
    NotFound,
    /// A route with the key of the entry exists already.
    Duplicate,
    /// The hypervisor refused the operation, with this error number.
    BackendFailure(i32),
}

impl Error {
    /// The message of the error.
    pub fn to_string(&self) -> (r: String)
        ensures
            r@ == match self {
                Error::OperationNotSupported => "Interrupt error: operation not supported"@,
                Error::InvalidConfiguration => "Interrupt error: invalid configuration"@,
                Error::InterruptNotChanged => "Interrupt error: the interrupt state could not be changed"@,
                Error::InterruptNotTriggered => "Interrupt error: the interrupt could not be triggered"@,
                Error::InterruptAllocationError => "Interrupt error: the interrupt could not be allocated"@,
                Error::InterruptFreeError => "Interrupt error: the interrupt could not be released"@,
                Error::NotFound => "Interrupt error: no such route"@,
                Error::Duplicate => "Interrupt error: the route exists already"@,
                Error::BackendFailure(_) => "Interrupt error: the hypervisor refused"@,
            },
    {
        match self {
            Error::OperationNotSupported => String::from_str("Interrupt error: operation not supported"),
            Error::InvalidConfiguration => String::from_str("Interrupt error: invalid configuration"),
            Error::InterruptNotChanged => String::from_str(
                "Interrupt error: the interrupt state could not be changed",
            ),
            Error::InterruptNotTriggered => String::from_str(
                "Interrupt error: the interrupt could not be triggered",
            ),
            Error::InterruptAllocationError => String::from_str(
                "Interrupt error: the interrupt could not be allocated",
            ),
            Error::InterruptFreeError => String::from_str(
                "Interrupt error: the interrupt could not be released",
            ),
            Error::NotFound => String::from_str("Interrupt error: no such route"),
            Error::Duplicate => String::from_str("Interrupt error: the route exists already"),
            Error::BackendFailure(_) => String::from_str("Interrupt error: the hypervisor refused"),
        }
    }
}

/// Result of interrupt operations.
pub type Result<T> = std::result::Result<T, Error>;

/// An edge-triggered interrupt.
pub trait EdgeInterrupt {
    /// Raises the interrupt once.
    fn trigger(&self) -> Result<()>;
}

/// A level-triggered interrupt.
pub trait LevelInterrupt {
    /// Asserts the line.
    fn assert_line(&self) -> Result<()>;

    /// Deasserts the line.
    fn clear(&self) -> Result<()>;
}

/// Tells whether a device still has an interrupt pending.
pub trait InterruptStatusChecker {
    /// Whether the interrupt is still pending.
    fn is_active(&self) -> bool;
}

/// An interrupt that can be switched on and off.
pub trait Interrupt {
    /// Switches the interrupt on; by default not supported.
    fn enable(&self) -> Result<()> {
        Err(Error::OperationNotSupported)
    }

    /// Switches the interrupt off; by default not supported.
    fn disable(&self) -> Result<()> {
        Err(Error::OperationNotSupported)
    }
}

/// An interrupt with a configuration.
pub trait ConfigurableInterrupt: Interrupt {
    /// Configuration type.
    type Cfg;

    /// Replaces the configuration.
    fn update(&self, config: &Self::Cfg) -> Result<()>;

    /// The configuration.
    fn get_config(&self) -> Result<Self::Cfg>;
}

/// An interrupt that can be masked.
pub trait MaskableInterrupt: Interrupt {
    /// Masks the interrupt.
    fn mask(&self) -> Result<()>;

    /// Unmasks the interrupt.
    fn unmask(&self) -> Result<()>;
}

/// An interrupt raised again while its device reports it pending.
pub trait AutoRetriggerInterrupt: Interrupt {
    /// Sets what tells whether the interrupt is still pending.
    fn set_status_checker(&self, status_checker: Arc<dyn InterruptStatusChecker>) -> Result<()>;
}

/// An interrupt raised through a notifier.
pub trait AsRefTriggerNotifier {
    /// Notifier type.
    type NotifierType;

    /// The notifier that raises the interrupt.
    fn trigger_notifier(&self) -> &Self::NotifierType;
}

/// An interrupt whose acknowledgement is signalled through a notifier.
pub trait AsRefResampleNotifier {
    /// Notifier type.
    type NotifierType;

    /// The notifier signalled when the guest acknowledges the interrupt.
    fn resample_notifier(&self) -> &Self::NotifierType;
}

/// A collection of related interrupts of one device.
pub trait InterruptSourceGroup: Send {
    /// Type of the interrupts.
    type InterruptType: Interrupt;

    /// Handle to one interrupt of the group.
    type InterruptWrapper: core::ops::Deref<Target = Self::InterruptType>;

    /// Whether the group holds no interrupt.
    fn is_empty(&self) -> bool;

    /// Number of interrupts in the group.
    fn len(&self) -> usize;

    /// Switches all interrupts of the group on.
    fn enable(&self) -> Result<()>;

    /// Switches all interrupts of the group off.
    fn disable(&self) -> Result<()>;

    /// The interrupt at `index`, if any.
    fn get(&self, index: usize) -> Option<Self::InterruptWrapper>;

    /// Allocates `size` interrupts to the group.
    fn allocate_interrupts(&mut self, size: usize) -> Result<()>;

    /// Releases the interrupts of the group.
    fn free_interrupts(&mut self) -> Result<()>;
}

} // verus!
