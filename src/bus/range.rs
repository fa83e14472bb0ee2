//! Half-open address ranges on one bus.
use vstd::prelude::*;

use crate::bus::{BusAddress, Error, MmioAddress, PioAddress};

verus! {

/// The range `[base, base + size)` on the bus of `A`.
///
/// A range is never empty and never runs past the last address of its bus.
///
/// Ranges compare (`==`, `partial_cmp`, `cmp`) by their base alone, whatever
/// their sizes: a unit range at an address then serves as a search key for
/// the range that starts at or before it. Do not hand ranges to code that
/// expects an order over base and size together.
#[derive(Copy, Debug)]
pub struct BusRange<A: BusAddress> {
    base: A,
    size: A::V,
}

impl<A: BusAddress> BusRange<A> {
    #[verifier::type_invariant]
    closed spec fn inv(&self) -> bool {
        &&& self.spec_size() >= 1
        &&& self.spec_last() <= A::spec_max()
    }

    /// The first address of the range.
    pub closed spec fn spec_base_addr(&self) -> A {
        self.base
    }

    /// The size of the range, as an offset.
    pub closed spec fn spec_size_offset(&self) -> A::V {
        self.size
    }

    /// The range with the given fields, whether well formed or not.
    pub closed spec fn spec_new(base: A, size: A::V) -> BusRange<A> {
        BusRange { base, size }
    }

    /// The first address of the range, as a number.
    pub open spec fn spec_base(&self) -> int {
        self.spec_base_addr().spec_value()
    }

    /// The number of addresses in the range.
    pub open spec fn spec_size(&self) -> int {
        A::spec_offset(self.spec_size_offset())
    }

    /// The last address of the range, as a number.
    pub open spec fn spec_last(&self) -> int {
        self.spec_base() + self.spec_size() - 1
    }

    /// Whether address `a` lies in the range.
    pub open spec fn spec_contains(&self, a: int) -> bool {
        self.spec_base() <= a <= self.spec_last()
    }

    /// Whether the two ranges share an address.
    pub open spec fn spec_overlaps(&self, other: &BusRange<A>) -> bool {
        self.spec_base() <= other.spec_last() && other.spec_base() <= self.spec_last()
    }

    /// The range `[base, base + size)`; `InvalidRange` where `size` is zero or
    /// the range would run past the last address of the bus.
    pub fn new(base: A, size: A::V) -> (r: Result<Self, Error>)
        ensures
            match r {
                Ok(range) => {
                    &&& range == BusRange::spec_new(base, size)
                    &&& range.spec_base_addr() == base
                    &&& range.spec_size_offset() == size
                },
                Err(e) => e == Error::InvalidRange,
            },
            r is Ok <==> (A::spec_offset(size) >= 1 && base.spec_value() + A::spec_offset(size)
                - 1 <= A::spec_max()),
    {
        let s = A::offset_as_u64(size);
        if s == 0 {
            return Err(Error::InvalidRange);
        }
        let b = base.as_u64();
        proof {
            base.lemma_value_bounded();
            A::lemma_max_bounded();
        }
        if s - 1 > A::max_u64() - b {
            return Err(Error::InvalidRange);
        }
        Ok(BusRange { base, size })
    }

    /// The range that holds `base` alone.
    pub fn unit(base: A) -> (r: Self)
        ensures
            r.spec_base_addr() == base,
            r.spec_size() == 1,
    {
        proof {
            base.lemma_value_bounded();
            A::lemma_max_bounded();
        }
        BusRange { base, size: A::offset_from_u64(1) }
    }

    /// The first address of the range.
    pub fn base(&self) -> (r: A)
        ensures
            r == self.spec_base_addr(),
    {
        self.base
    }

    /// The size of the range.
    pub fn size(&self) -> (r: A::V)
        ensures
            r == self.spec_size_offset(),
    {
        self.size
    }

    /// The last address of the range, `base + size - 1`.
    pub fn last(&self) -> (r: A)
        ensures
            r.spec_value() == self.spec_last(),
            self.spec_size() >= 1,
            0 <= self.spec_base() <= self.spec_last() <= A::spec_max(),
    {
        proof {
            use_type_invariant(self);
            A::lemma_offset_bounded(self.size);
            self.base.lemma_value_bounded();
        }
        let s = A::offset_as_u64(self.size);
        self.base.add_offset(A::offset_from_u64(s - 1))
    }

    /// Whether the two ranges share an address.
    pub fn overlaps(&self, other: &BusRange<A>) -> (r: bool)
        ensures
            r == self.spec_overlaps(other),
    {
        !(self.base.as_u64() > other.last().as_u64() || self.last().as_u64()
            < other.base.as_u64())
    }

    /// Order of the two ranges by base alone.
    pub fn cmp(&self, other: &BusRange<A>) -> (r: core::cmp::Ordering)
        ensures
            r == range_order(self.spec_base(), other.spec_base()),
    {
        let a = self.base.as_u64();
        let b = other.base.as_u64();
        if a < b {
            core::cmp::Ordering::Less
        } else if a == b {
            core::cmp::Ordering::Equal
        } else {
            core::cmp::Ordering::Greater
        }
    }
}

/// The order of two bases.
pub open spec fn range_order(a: int, b: int) -> core::cmp::Ordering {
    if a < b {
        core::cmp::Ordering::Less
    } else if a == b {
        core::cmp::Ordering::Equal
    } else {
        core::cmp::Ordering::Greater
    }
}

impl<A: BusAddress> Clone for BusRange<A> {
    fn clone(&self) -> (r: Self)
        ensures
            r == *self,
    {
        *self
    }
}

impl<A: BusAddress> PartialEq for BusRange<A> {
    fn eq(&self, other: &BusRange<A>) -> (r: bool) {
        self.base.as_u64() == other.base.as_u64()
    }
}

impl<A: BusAddress> vstd::std_specs::cmp::PartialEqSpecImpl for BusRange<A> {
    open spec fn obeys_eq_spec() -> bool {
        true
    }

    open spec fn eq_spec(&self, other: &BusRange<A>) -> bool {
        self.spec_base() == other.spec_base()
    }
}

impl<A: BusAddress> Eq for BusRange<A> {
}

impl<A: BusAddress> PartialOrd for BusRange<A> {
    fn partial_cmp(&self, other: &BusRange<A>) -> (r: Option<core::cmp::Ordering>) {
        Some(self.cmp(other))
    }
}

impl<A: BusAddress> vstd::std_specs::cmp::PartialOrdSpecImpl for BusRange<A> {
    open spec fn obeys_partial_cmp_spec() -> bool {
        true
    }

    open spec fn partial_cmp_spec(&self, other: &BusRange<A>) -> Option<core::cmp::Ordering> {
        Some(range_order(self.spec_base(), other.spec_base()))
    }
}

/// A range on the MMIO bus.
pub type MmioRange = BusRange<MmioAddress>;

/// A range on the port I/O bus.
pub type PioRange = BusRange<PioAddress>;

} // verus!
