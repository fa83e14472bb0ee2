//! Buses that map address ranges to devices.
use vstd::prelude::*;

mod address;
mod range;

pub use address::{BusAddress, MmioAddress, MmioAddressOffset, PioAddress, PioAddressOffset};
pub use range::{range_order, BusRange, MmioRange, PioRange};

verus! {

/// Errors of bus operations.
#[derive(Debug, PartialEq, Eq, Structural, Clone, Copy)]
pub enum Error {
    /// No registered range covers the access.
    DeviceNotFound,
    /// The range overlaps a range already registered.
    DeviceOverlap,
    /// The access length does not fit the offset type of the bus.
    InvalidAccessLength(usize),
    /// The range is empty or runs past the last address of the bus.
    InvalidRange,
}

} // verus!

verus! {

/// Entries of a bus: each range with its device.
pub type BusEntries<A, D> = Seq<(BusRange<A>, D)>;

/// Every range of `s` is well formed, and each ends before the next begins.
pub open spec fn entries_wf<A: BusAddress, D>(s: BusEntries<A, D>) -> bool {
    &&& forall|i: int|
        0 <= i < s.len() ==> {
            &&& (#[trigger] s[i]).0.spec_size() >= 1
            &&& 0 <= s[i].0.spec_base()
            &&& s[i].0.spec_last() <= A::spec_max()
        }
    &&& forall|i: int, j: int|
        0 <= i < j < s.len() ==> (#[trigger] s[i]).0.spec_last() < (#[trigger] s[j]).0.spec_base()
}

/// Whether some entry of `s` holds address `a`.
pub open spec fn holds_addr<A: BusAddress, D>(s: BusEntries<A, D>, a: int) -> bool {
    exists|i: int| 0 <= i < s.len() && (#[trigger] s[i]).0.spec_contains(a)
}

/// The index of the entry of `s` that holds address `a`, if any.
pub open spec fn find_index<A: BusAddress, D>(s: BusEntries<A, D>, a: int) -> int {
    if holds_addr(s, a) {
        choose|i: int| 0 <= i < s.len() && (#[trigger] s[i]).0.spec_contains(a)
    } else {
        -1
    }
}

/// The entry of `s` that holds address `a`, if any.
pub open spec fn lookup<A: BusAddress, D>(s: BusEntries<A, D>, a: int) -> Option<(BusRange<A>, D)> {
    if holds_addr(s, a) {
        Some(s[find_index(s, a)])
    } else {
        None
    }
}

/// `s` without the entry that holds address `a`; `s` itself where none does.
pub open spec fn without_addr<A: BusAddress, D>(s: BusEntries<A, D>, a: int) -> BusEntries<A, D> {
    if holds_addr(s, a) {
        s.remove(find_index(s, a))
    } else {
        s
    }
}

/// Whether `range` overlaps some entry of `s`.
pub open spec fn overlaps_any<A: BusAddress, D>(s: BusEntries<A, D>, range: BusRange<A>) -> bool {
    exists|i: int| 0 <= i < s.len() && range.spec_overlaps(&(#[trigger] s[i]).0)
}

/// Whether `p` splits `s` into the entries based below `b` and the others.
pub open spec fn is_split<A: BusAddress, D>(s: BusEntries<A, D>, b: int, p: int) -> bool {
    &&& 0 <= p <= s.len()
    &&& forall|k: int| 0 <= k < p ==> (#[trigger] s[k]).0.spec_base() < b
    &&& forall|k: int| p <= k < s.len() ==> (#[trigger] s[k]).0.spec_base() >= b
}

/// The place at which a range based at `b` goes into the ordered `s`.
pub open spec fn insert_pos<A: BusAddress, D>(s: BusEntries<A, D>, b: int) -> int {
    choose|p: int| is_split(s, b, p)
}

/// `s` with `range` and `device` registered in order of base.
pub open spec fn with_range<A: BusAddress, D>(
    s: BusEntries<A, D>,
    range: BusRange<A>,
    device: D,
) -> BusEntries<A, D> {
    s.insert(insert_pos(s, range.spec_base()), (range, device))
}

/// Whether the access of `len` bytes at `a` lies within `range`.
pub open spec fn covers<A: BusAddress>(range: BusRange<A>, a: int, len: int) -> bool {
    range.spec_base() <= a && a + len - 1 <= range.spec_last()
}

/// Whether some entry of `s` covers the access of `len` bytes at `a`.
pub open spec fn covered<A: BusAddress, D>(s: BusEntries<A, D>, a: int, len: int) -> bool {
    exists|i: int| 0 <= i < s.len() && covers((#[trigger] s[i]).0, a, len)
}

/// In well-formed entries at most one entry holds an address.
pub proof fn lemma_holder_unique<A: BusAddress, D>(s: BusEntries<A, D>, a: int, i: int, j: int)
    requires
        entries_wf(s),
        0 <= i < s.len(),
        0 <= j < s.len(),
        s[i].0.spec_contains(a),
        s[j].0.spec_contains(a),
    ensures
        i == j,
{
    if i < j {
        assert(s[i].0.spec_last() < s[j].0.spec_base());
    } else if j < i {
        assert(s[j].0.spec_last() < s[i].0.spec_base());
    }
}

/// Any split point of ordered entries is the insertion place.
proof fn lemma_split_unique<A: BusAddress, D>(s: BusEntries<A, D>, b: int, p: int)
    requires
        is_split(s, b, p),
    ensures
        insert_pos(s, b) == p,
{
    let q = insert_pos(s, b);
    assert(is_split(s, b, q));
    if q < p {
        assert(s[q].0.spec_base() < b);
    } else if p < q {
        assert(s[p].0.spec_base() < b);
    }
}

/// Ranges registered on one bus never overlap: the entries of every bus
/// that `new`, `register` and `deregister` produce are well formed, and
/// in well-formed entries no two ranges share an address.
pub proof fn lemma_ranges_disjoint<A: BusAddress, D>(s: BusEntries<A, D>, i: int, j: int)
    requires
        entries_wf(s),
        0 <= i < s.len(),
        0 <= j < s.len(),
        i != j,
    ensures
        !s[i].0.spec_overlaps(&s[j].0),
{
    if i < j {
        assert(s[i].0.spec_last() < s[j].0.spec_base());
    } else {
        assert(s[j].0.spec_last() < s[i].0.spec_base());
    }
}

/// The lookup of an address gives the one range that holds it, or nothing
/// where no range does.
pub proof fn lemma_lookup_unique<A: BusAddress, D>(s: BusEntries<A, D>, a: int)
    requires
        entries_wf(s),
    ensures
        match lookup(s, a) {
            Some(e) => {
                &&& e.0.spec_contains(a)
                &&& forall|i: int|
                    0 <= i < s.len() && (#[trigger] s[i]).0.spec_contains(a) ==> s[i] == e
            },
            None => forall|i: int| 0 <= i < s.len() ==> !(#[trigger] s[i]).0.spec_contains(a),
        },
{
    if holds_addr(s, a) {
        let k = find_index(s, a);
        assert forall|i: int| 0 <= i < s.len() && (#[trigger] s[i]).0.spec_contains(a) implies s[i]
            == s[k] by {
            lemma_holder_unique(s, a, i, k);
        }
    }
}

/// Registering a range and then deregistering any address within it gives
/// back the bus as it was, and the deregistration hands back that range and
/// its device.
pub proof fn lemma_register_deregister<A: BusAddress, D>(
    s: BusEntries<A, D>,
    range: BusRange<A>,
    device: D,
    a: int,
)
    requires
        entries_wf(s),
        range.spec_size() >= 1,
        range.spec_last() <= A::spec_max(),
        !overlaps_any(s, range),
        range.spec_contains(a),
    ensures
        entries_wf(with_range(s, range, device)),
        lookup(with_range(s, range, device), a) == Some((range, device)),
        without_addr(with_range(s, range, device), a) == s,
{
    lemma_insert_wf(s, range, device);
    let t = with_range(s, range, device);
    let p = insert_pos(s, range.spec_base());
    assert(t[p] == (range, device));
    assert(holds_addr(t, a));
    lemma_holder_unique(t, a, find_index(t, a), p);
    assert(t.remove(p) =~= s);
}

/// Deregistering an address that no range holds leaves the bus as it was
/// and hands back nothing.
pub proof fn lemma_deregister_absent<A: BusAddress, D>(s: BusEntries<A, D>, a: int)
    requires
        !holds_addr(s, a),
    ensures
        without_addr(s, a) == s,
        lookup(s, a) is None,
{
}

/// Ordered entries have an insertion place for every base, and a range that
/// overlaps none of them keeps them well formed there.
proof fn lemma_insert_wf<A: BusAddress, D>(s: BusEntries<A, D>, range: BusRange<A>, device: D)
    requires
        entries_wf(s),
        range.spec_size() >= 1,
        range.spec_last() <= A::spec_max(),
        !overlaps_any(s, range),
    ensures
        is_split(s, range.spec_base(), insert_pos(s, range.spec_base())),
        entries_wf(with_range(s, range, device)),
{
    let b = range.spec_base();
    range.spec_base_addr().lemma_value_bounded();
    let p = lemma_split_exists(s, b);
    lemma_split_unique(s, b, p);
    let t = with_range(s, range, device);
    assert forall|i: int, j: int| 0 <= i < j < t.len() implies (#[trigger] t[i]).0.spec_last() < (
    #[trigger] t[j]).0.spec_base() by {
        if i == p {
            assert(!range.spec_overlaps(&s[j - 1].0));
        } else if j == p {
            assert(!range.spec_overlaps(&s[i].0));
        } else if i < p && p < j {
            assert(s[i].0.spec_last() < s[j - 1].0.spec_base());
        } else if p < i {
            assert(s[i - 1].0.spec_last() < s[j - 1].0.spec_base());
        } else {
            assert(s[i].0.spec_last() < s[j].0.spec_base());
        }
    }
}

/// Ordered entries split at every base.
proof fn lemma_split_exists<A: BusAddress, D>(s: BusEntries<A, D>, b: int) -> (p: int)
    requires
        entries_wf(s),
    ensures
        is_split(s, b, p),
    decreases s.len(),
{
    if s.len() == 0 {
        0
    } else if s.last().0.spec_base() < b {
        s.len() as int
    } else {
        let q = lemma_split_exists(s.drop_last(), b);
        assert forall|k: int| q <= k < s.len() implies (#[trigger] s[k]).0.spec_base() >= b by {
            if k < s.len() - 1 {
                assert(s.drop_last()[k] == s[k]);
                assert(s[k].0.spec_base() >= b);
            }
        }
        assert forall|k: int| 0 <= k < q implies (#[trigger] s[k]).0.spec_base() < b by {
            assert(s.drop_last()[k] == s[k]);
        }
        q
    }
}

} // verus!

verus! {

/// A bus: disjoint address ranges, each mapped to a device.
///
/// The entries are kept in order of base, so that the range holding an
/// address is found by a binary search.
pub struct Bus<A: BusAddress, D> {
    devices: Vec<(BusRange<A>, D)>,
}

impl<A: BusAddress, D> View for Bus<A, D> {
    type V = BusEntries<A, D>;

    closed spec fn view(&self) -> BusEntries<A, D> {
        self.devices@
    }
}

impl<A: BusAddress, D> Default for Bus<A, D> {
    fn default() -> (r: Self)
        ensures
            r.wf(),
            r@.len() == 0,
    {
        Bus { devices: Vec::new() }
    }
}

impl<A: BusAddress, D> Bus<A, D> {
    /// The bus is well formed: its entries are ordered and disjoint.
    pub open spec fn wf(&self) -> bool {
        entries_wf(self@)
    }

    /// An empty bus.
    pub fn new() -> (r: Self)
        ensures
            r.wf(),
            r@.len() == 0,
    {
        Bus { devices: Vec::new() }
    }

    /// The number of registered ranges.
    pub fn len(&self) -> (r: usize)
        ensures
            r == self@.len(),
    {
        self.devices.len()
    }

    /// Whether no range is registered.
    pub fn is_empty(&self) -> (r: bool)
        ensures
            r == (self@.len() == 0),
    {
        self.devices.len() == 0
    }

    /// The index of the entry that holds address `a`, by binary search.
    fn find(&self, a: u64) -> (r: Option<usize>)
        requires
            self.wf(),
        ensures
            match r {
                Some(i) => i < self@.len() && self@[i as int].0.spec_contains(a as int),
                None => !holds_addr(self@, a as int),
            },
    {
        let mut lo: usize = 0;
        let mut hi: usize = self.devices.len();
        while lo < hi
            invariant
                0 <= lo <= hi <= self.devices@.len(),
                entries_wf(self.devices@),
                forall|k: int| 0 <= k < lo ==> (#[trigger] self.devices@[k]).0.spec_base() <= a,
                forall|k: int|
                    hi <= k < self.devices@.len() ==> (#[trigger] self.devices@[k]).0.spec_base()
                        > a,
            decreases hi - lo,
        {
            let mid = lo + (hi - lo) / 2;
            if self.devices[mid].0.base().as_u64() <= a {
                proof {
                    assert forall|k: int| 0 <= k < mid + 1 implies (
                    #[trigger] self.devices@[k]).0.spec_base() <= a by {
                        if k < mid {
                            assert(self.devices@[k].0.spec_last() < self.devices@[mid as int].0.spec_base());
                        }
                    }
                }
                lo = mid + 1;
            } else {
                hi = mid;
            }
        }
        if lo == 0 {
            proof {
                assert forall|k: int| 0 <= k < self@.len() implies !(
                #[trigger] self@[k]).0.spec_contains(a as int) by {
                    assert(self.devices@[k].0.spec_base() > a);
                }
            }
            return None;
        }
        let last = self.devices[lo - 1].0.last();
        if last.as_u64() >= a {
            Some(lo - 1)
        } else {
            proof {
                assert forall|k: int| 0 <= k < self@.len() implies !(
                #[trigger] self@[k]).0.spec_contains(a as int) by {
                    if k < lo - 1 {
                        assert(self.devices@[k].0.spec_last() < self.devices@[lo - 1].0.spec_base());
                    } else if k >= lo {
                        assert(self.devices@[k].0.spec_base() > a);
                    }
                }
            }
            None
        }
    }

    /// The range that holds `addr`, with its device; `None` where no range
    /// holds it.
    pub fn device(&self, addr: A) -> (r: Option<(&BusRange<A>, &D)>)
        requires
            self.wf(),
        ensures
            match r {
                Some((range, device)) => lookup(self@, addr.spec_value()) == Some((*range, *device)),
                None => lookup(self@, addr.spec_value()) is None,
            },
    {
        match self.find(addr.as_u64()) {
            Some(i) => {
                proof {
                    lemma_holder_unique(self@, addr.spec_value(), i as int, find_index(self@, addr.spec_value()));
                }
                let e = &self.devices[i];
                Some((&e.0, &e.1))
            },
            None => None,
        }
    }

    /// As `device`, with the device borrowed mutably.
    pub fn device_mut(&mut self, addr: A) -> (r: Option<(&BusRange<A>, &mut D)>)
        requires
            old(self).wf(),
        ensures
            match r {
                Some((range, device)) => {
                    &&& lookup(old(self)@, addr.spec_value()) == Some((*range, *device))
                    &&& final(self)@ == old(self)@.update(
                        find_index(old(self)@, addr.spec_value()),
                        (*range, *final(device)),
                    )
                },
                None => {
                    &&& lookup(old(self)@, addr.spec_value()) is None
                    &&& final(self)@ == old(self)@
                },
            },
    {
        match self.find(addr.as_u64()) {
            Some(i) => {
                proof {
                    lemma_holder_unique(self@, addr.spec_value(), i as int, find_index(self@, addr.spec_value()));
                }
                let e = &mut self.devices[i];
                Some((&e.0, &mut e.1))
            },
            None => None,
        }
    }

    /// Registers `device` on `range`; `DeviceOverlap`, with the bus
    /// unchanged, where the range overlaps one already registered.
    ///
    /// Every registered range is checked: an order by base alone cannot tell
    /// that one range lies within another.
    pub fn register(&mut self, range: BusRange<A>, device: D) -> (r: Result<(), Error>)
        requires
            old(self).wf(),
        ensures
            final(self).wf(),
            r is Ok <==> !overlaps_any(old(self)@, range),
            match r {
                Ok(()) => final(self)@ == with_range(old(self)@, range, device),
                Err(e) => e == Error::DeviceOverlap && final(self)@ == old(self)@,
            },
    {
        let ghost s = self@;
        let b = range.base().as_u64();
        // The last address is not needed here, only the bounds its call proves.
        let _ = range.last();
        let mut p: usize = 0;
        let mut i: usize = 0;
        while i < self.devices.len()
            invariant
                self.devices@ == s,
                entries_wf(s),
                0 <= p <= i <= s.len(),
                b == range.spec_base(),
                forall|k: int| 0 <= k < i ==> !range.spec_overlaps(&(#[trigger] s[k]).0),
                forall|k: int| 0 <= k < p ==> (#[trigger] s[k]).0.spec_base() < b,
                forall|k: int| p <= k < i ==> (#[trigger] s[k]).0.spec_base() >= b,
            decreases s.len() - i,
        {
            let r = &self.devices[i].0;
            if range.overlaps(r) {
                return Err(Error::DeviceOverlap);
            }
            if r.base().as_u64() < b {
                proof {
                    assert forall|k: int| 0 <= k < i + 1 implies (#[trigger] s[k]).0.spec_base() < b by {
                        if k < i {
                            assert(s[k].0.spec_last() < s[i as int].0.spec_base());
                        }
                    }
                }
                p = i + 1;
            }
            i = i + 1;
        }
        proof {
            lemma_split_unique(s, b as int, p as int);
            lemma_insert_wf(s, range, device);
        }
        self.devices.insert(p, (range, device));
        Ok(())
    }

    /// Removes the range that holds `addr` and hands it back with its device;
    /// `None`, with the bus unchanged, where no range holds `addr`.
    pub fn deregister(&mut self, addr: A) -> (r: Option<(BusRange<A>, D)>)
        requires
            old(self).wf(),
        ensures
            final(self).wf(),
            r == lookup(old(self)@, addr.spec_value()),
            final(self)@ == without_addr(old(self)@, addr.spec_value()),
    {
        match self.find(addr.as_u64()) {
            Some(i) => {
                proof {
                    lemma_holder_unique(self@, addr.spec_value(), i as int, find_index(self@, addr.spec_value()));
                }
                let ghost s = self@;
                let e = self.devices.remove(i);
                proof {
                    assert forall|x: int, y: int| 0 <= x < y < self@.len() implies (
                    #[trigger] self@[x]).0.spec_last() < (#[trigger] self@[y]).0.spec_base() by {
                        let xo = if x < i { x } else { x + 1 };
                        let yo = if y < i { y } else { y + 1 };
                        assert(self@[x] == s[xo]);
                        assert(self@[y] == s[yo]);
                    }
                }
                Some(e)
            },
            None => None,
        }
    }

    /// The range that holds the whole access of `len` bytes at `addr`, with
    /// its device.
    ///
    /// `InvalidAccessLength(len)` where `len` does not fit the offset type of
    /// the bus, `InvalidRange` where the access is empty or runs past the last
    /// address of the bus, and `DeviceNotFound` where no single range holds it.
    pub fn check_access(&self, addr: A, len: usize) -> (r: Result<(&BusRange<A>, &D), Error>)
        requires
            self.wf(),
        ensures
            len > A::spec_max() ==> r == Err::<(&BusRange<A>, &D), Error>(
                Error::InvalidAccessLength(len),
            ),
            len <= A::spec_max() && (len == 0 || addr.spec_value() + len - 1 > A::spec_max())
                ==> r == Err::<(&BusRange<A>, &D), Error>(Error::InvalidRange),
            len <= A::spec_max() && len >= 1 && addr.spec_value() + len - 1 <= A::spec_max()
                ==> match r {
                Ok((range, device)) => {
                    &&& covers(*range, addr.spec_value(), len as int)
                    &&& lookup(self@, addr.spec_value()) == Some((*range, *device))
                },
                Err(e) => e == Error::DeviceNotFound && !covered(
                    self@,
                    addr.spec_value(),
                    len as int,
                ),
            },
            r is Ok ==> covered(self@, addr.spec_value(), len as int) && len >= 1,
    {
        let size = match A::offset_from_usize(len) {
            Some(v) => v,
            None => return Err(Error::InvalidAccessLength(len)),
        };
        let access = match BusRange::new(addr, size) {
            Ok(a) => a,
            Err(_) => return Err(Error::InvalidRange),
        };
        let access_last = access.last();
        match self.device(addr) {
            Some((range, device)) => {
                proof {
                    lemma_lookup_unique(self@, addr.spec_value());
                }
                if range.last().as_u64() >= access_last.as_u64() {
                    Ok((range, device))
                } else {
                    proof {
                        assert forall|i: int| 0 <= i < self@.len() implies !covers(
                            (#[trigger] self@[i]).0,
                            addr.spec_value(),
                            len as int,
                        ) by {
                            if self@[i].0.spec_contains(addr.spec_value()) {
                                assert(self@[i] == (*range, *device));
                            }
                        }
                    }
                    Err(Error::DeviceNotFound)
                }
            },
            None => {
                proof {
                    lemma_lookup_unique(self@, addr.spec_value());
                    assert forall|i: int| 0 <= i < self@.len() implies !covers(
                        (#[trigger] self@[i]).0,
                        addr.spec_value(),
                        len as int,
                    ) by {
                        assert(!self@[i].0.spec_contains(addr.spec_value()));
                    }
                }
                Err(Error::DeviceNotFound)
            },
        }
    }
}

} // verus!

verus! {

/// The outcome of an access of `len` bytes at `a` on a bus with entries `s`.
pub open spec fn access_result<A: BusAddress, D>(s: BusEntries<A, D>, a: int, len: usize) -> Result<
    (),
    Error,
> {
    if len > A::spec_max() {
        Err(Error::InvalidAccessLength(len))
    } else if len == 0 || a + len - 1 > A::spec_max() {
        Err(Error::InvalidRange)
    } else if covered(s, a, len as int) {
        Ok(())
    } else {
        Err(Error::DeviceNotFound)
    }
}

/// An access succeeds exactly where it has a length that fits the bus and
/// lies wholly within one registered range.
pub proof fn lemma_access_ok<A: BusAddress, D>(s: BusEntries<A, D>, a: int, len: usize)
    requires
        entries_wf(s),
        0 <= a <= A::spec_max(),
        len >= 1,
    ensures
        access_result(s, a, len) is Ok <==> (len <= A::spec_max() && exists|i: int|
            0 <= i < s.len() && covers((#[trigger] s[i]).0, a, len as int)),
{
    if exists|i: int| 0 <= i < s.len() && covers((#[trigger] s[i]).0, a, len as int) {
        let i = choose|i: int| 0 <= i < s.len() && covers((#[trigger] s[i]).0, a, len as int);
        assert(s[i].0.spec_last() <= A::spec_max());
    }
}

/// A holder of one bus.
pub trait BusManager<A: BusAddress> {
    /// Device type of the bus.
    type D;

    /// The bus.
    fn bus(&self) -> &Bus<A, Self::D>;

    /// The bus, for changes.
    fn bus_mut(&mut self) -> &mut Bus<A, Self::D>;
}

/// Bus of MMIO devices.
pub type MmioBus<D> = Bus<MmioAddress, D>;

/// Bus of port I/O devices.
pub type PioBus<D> = Bus<PioAddress, D>;

} // verus!
