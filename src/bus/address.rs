//! Typed bus addresses: 64-bit MMIO addresses and 16-bit port I/O addresses.
use vstd::prelude::*;

verus! {

/// An address on one bus, together with the offset type of that bus.
///
/// All arithmetic is checked: an address never wraps around the width of its
/// bus. The spec functions give the address and its offsets as numbers, so
/// that code generic over the bus can state its contracts over integers.
pub trait BusAddress: Copy + Sized + core::fmt::Debug {
    /// Offset type, of the same width as the address.
    type V: Copy + core::fmt::Debug;

    /// The address as a number.
    spec fn spec_value(&self) -> int;

    /// An offset as a number.
    spec fn spec_offset(v: Self::V) -> int;

    /// The largest address of the bus (and the largest offset).
    spec fn spec_max() -> int;

    proof fn lemma_value_bounded(&self)
        ensures
            0 <= self.spec_value() <= Self::spec_max(),
    ;

    proof fn lemma_offset_bounded(v: Self::V)
        ensures
            0 <= Self::spec_offset(v) <= Self::spec_max(),
    ;

    proof fn lemma_max_bounded()
        ensures
            0 < Self::spec_max() <= u64::MAX,
    ;

    /// The address as an offset from address zero.
    fn value(&self) -> (r: Self::V)
        ensures
            Self::spec_offset(r) == self.spec_value(),
    ;

    /// `self + value`, or `None` where the sum does not fit the bus.
    fn checked_add(&self, value: Self::V) -> (r: Option<Self>)
        ensures
            match r {
                Some(a) => {
                    &&& self.spec_value() + Self::spec_offset(value) <= Self::spec_max()
                    &&& a.spec_value() == self.spec_value() + Self::spec_offset(value)
                },
                None => self.spec_value() + Self::spec_offset(value) > Self::spec_max(),
            },
    ;

    /// `self + value`, for a sum that fits the bus.
    fn add_offset(&self, value: Self::V) -> (r: Self)
        requires
            self.spec_value() + Self::spec_offset(value) <= Self::spec_max(),
        ensures
            r.spec_value() == self.spec_value() + Self::spec_offset(value),
    ;

    /// `self - base`, for a base not above `self`.
    fn offset_from(&self, base: Self) -> (r: Self::V)
        requires
            base.spec_value() <= self.spec_value(),
        ensures
            Self::spec_offset(r) == self.spec_value() - base.spec_value(),
    ;

    /// The address widened to 64 bits.
    fn as_u64(&self) -> (r: u64)
        ensures
            r == self.spec_value(),
    ;

    /// An offset widened to 64 bits.
    fn offset_as_u64(v: Self::V) -> (r: u64)
        ensures
            r == Self::spec_offset(v),
    ;

    /// A number that fits the bus, as an offset.
    fn offset_from_u64(v: u64) -> (r: Self::V)
        requires
            v <= Self::spec_max(),
        ensures
            Self::spec_offset(r) == v,
    ;

    /// An access length as an offset, or `None` where it does not fit.
    fn offset_from_usize(len: usize) -> (r: Option<Self::V>)
        ensures
            match r {
                Some(v) => len <= Self::spec_max() && Self::spec_offset(v) == len,
                None => len > Self::spec_max(),
            },
    ;

    /// The largest address of the bus, widened to 64 bits.
    fn max_u64() -> (r: u64)
        ensures
            r == Self::spec_max(),
    ;
}

/// Offset on the MMIO bus.
pub type MmioAddressOffset = u64;

/// An address on the MMIO bus.
#[derive(Clone, Copy, Debug, PartialEq, Eq, Structural, PartialOrd, Ord)]
pub struct MmioAddress(pub MmioAddressOffset);

/// Offset on the port I/O bus.
pub type PioAddressOffset = u16;

/// An address on the port I/O bus.
#[derive(Clone, Copy, Debug, PartialEq, Eq, Structural, PartialOrd, Ord)]
pub struct PioAddress(pub PioAddressOffset);

impl BusAddress for MmioAddress {
    type V = MmioAddressOffset;

    open spec fn spec_value(&self) -> int {
        self.0 as int
    }

    open spec fn spec_offset(v: u64) -> int {
        v as int
    }

    open spec fn spec_max() -> int {
        u64::MAX as int
    }

    proof fn lemma_value_bounded(&self) {
    }

    proof fn lemma_offset_bounded(v: u64) {
    }

    proof fn lemma_max_bounded() {
    }

    fn value(&self) -> (r: u64) {
        self.0
    }

    fn checked_add(&self, value: u64) -> (r: Option<Self>) {
        match self.0.checked_add(value) {
            Some(v) => Some(MmioAddress(v)),
            None => None,
        }
    }

    fn add_offset(&self, value: u64) -> (r: Self) {
        MmioAddress(self.0 + value)
    }

    fn offset_from(&self, base: Self) -> (r: u64) {
        self.0 - base.0
    }

    fn as_u64(&self) -> (r: u64) {
        self.0
    }

    fn offset_as_u64(v: u64) -> (r: u64) {
        v
    }

    fn offset_from_u64(v: u64) -> (r: u64) {
        v
    }

    fn offset_from_usize(len: usize) -> (r: Option<u64>) {
        if len as u128 <= u64::MAX as u128 {
            Some(len as u64)
        } else {
            None
        }
    }

    fn max_u64() -> (r: u64) {
        u64::MAX
    }
}

impl BusAddress for PioAddress {
    type V = PioAddressOffset;

    open spec fn spec_value(&self) -> int {
        self.0 as int
    }

    open spec fn spec_offset(v: u16) -> int {
        v as int
    }

    open spec fn spec_max() -> int {
        u16::MAX as int
    }

    proof fn lemma_value_bounded(&self) {
    }

    proof fn lemma_offset_bounded(v: u16) {
    }

    proof fn lemma_max_bounded() {
    }

    fn value(&self) -> (r: u16) {
        self.0
    }

    fn checked_add(&self, value: u16) -> (r: Option<Self>) {
        match self.0.checked_add(value) {
            Some(v) => Some(PioAddress(v)),
            None => None,
        }
    }

    fn add_offset(&self, value: u16) -> (r: Self) {
        PioAddress(self.0 + value)
    }

    fn offset_from(&self, base: Self) -> (r: u16) {
        self.0 - base.0
    }

    fn as_u64(&self) -> (r: u64) {
        self.0 as u64
    }

    fn offset_as_u64(v: u16) -> (r: u64) {
        v as u64
    }

    fn offset_from_u64(v: u64) -> (r: u16) {
        v as u16
    }

    fn offset_from_usize(len: usize) -> (r: Option<u16>) {
        if len <= u16::MAX as usize {
            Some(len as u16)
        } else {
            None
        }
    }

    fn max_u64() -> (r: u64) {
        u16::MAX as u64
    }
}

} // verus!
