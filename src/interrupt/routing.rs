//! The interrupt routing table of a virtual machine.
//!
//! The table maps the key of each route to the route. Every change is
//! followed by a commit of the whole table to the hypervisor, which replaces
//! the routing it had: `entries` gives what to commit.
use vstd::prelude::*;

use crate::interrupt::msi::MsiIrqConfig;
use crate::interrupt::{Error, Result};

verus! {

/// Route kind: a pin of an interrupt controller.
pub const KVM_IRQ_ROUTING_IRQCHIP: u32 = 1;

/// Route kind: a message-signalled interrupt.
pub const KVM_IRQ_ROUTING_MSI: u32 = 2;

/// Controller: the master programmable interrupt controller.
pub const KVM_IRQCHIP_PIC_MASTER: u32 = 0;

/// Controller: the slave programmable interrupt controller.
pub const KVM_IRQCHIP_PIC_SLAVE: u32 = 1;

/// Controller: the I/O APIC.
pub const KVM_IRQCHIP_IOAPIC: u32 = 2;

/// Number of global system interrupts a route may name.
pub const MAX_IRQS: u32 = 1024;

/// Number of legacy interrupt lines.
pub const MAX_LEGACY_IRQS: u32 = 24;

/// Where a route delivers its interrupt.
#[derive(Clone, Copy, Debug, PartialEq, Eq, Structural)]
pub enum RouteTarget {
    /// A pin of an interrupt controller.
    Irqchip {
        /// The controller.
        irqchip: u32,
        /// The pin of the controller.
        pin: u32,
    },
    /// A message written to an address.
    Msi {
        /// Low 32 bits of the message address.
        address_lo: u32,
        /// High 32 bits of the message address.
        address_hi: u32,
        /// The message data.
        data: u32,
        /// Identifier of the sending device.
        devid: u32,
    },
}

/// One route: a global system interrupt and where it goes.
#[derive(Clone, Copy, Debug, PartialEq, Eq, Structural)]
pub struct RoutingEntry {
    /// The global system interrupt.
    pub gsi: u32,
    /// Flags of the route.
    pub flags: u32,
    /// Where the interrupt goes.
    pub target: RouteTarget,
}

impl RoutingEntry {
    /// The kind of the route.
    pub open spec fn spec_kind(&self) -> u32 {
        match self.target {
            RouteTarget::Irqchip { .. } => KVM_IRQ_ROUTING_IRQCHIP,
            RouteTarget::Msi { .. } => KVM_IRQ_ROUTING_MSI,
        }
    }

    /// The kind of the route.
    pub fn kind(&self) -> (r: u32)
        ensures
            r == self.spec_kind(),
    {
        match self.target {
            RouteTarget::Irqchip { .. } => KVM_IRQ_ROUTING_IRQCHIP,
            RouteTarget::Msi { .. } => KVM_IRQ_ROUTING_MSI,
        }
    }

    /// The route of `gsi` to pin `pin` of controller `irqchip`.
    pub fn irqchip(gsi: u32, irqchip: u32, pin: u32) -> (r: Self)
        ensures
            r == irqchip_route(gsi, irqchip, pin),
    {
        RoutingEntry { gsi, flags: 0, target: RouteTarget::Irqchip { irqchip, pin } }
    }

    /// The route of `gsi` to the message of `config`.
    pub fn msi(gsi: u32, config: &MsiIrqConfig) -> (r: Self)
        ensures
            r == msi_route(gsi, *config),
    {
        RoutingEntry {
            gsi,
            flags: 0,
            target: RouteTarget::Msi {
                address_lo: config.low_addr,
                address_hi: config.high_addr,
                data: config.data,
                devid: 0,
            },
        }
    }
}

/// The route of `gsi` to pin `pin` of controller `irqchip`.
pub open spec fn irqchip_route(gsi: u32, irqchip: u32, pin: u32) -> RoutingEntry {
    RoutingEntry { gsi, flags: 0, target: RouteTarget::Irqchip { irqchip, pin } }
}

/// The route of `gsi` to the message of `config`.
pub open spec fn msi_route(gsi: u32, config: MsiIrqConfig) -> RoutingEntry {
    RoutingEntry {
        gsi,
        flags: 0,
        target: RouteTarget::Msi {
            address_lo: config.low_addr,
            address_hi: config.high_addr,
            data: config.data,
            devid: 0,
        },
    }
}

/// The key of a route: controller, kind and interrupt. Pin routes of
/// different controllers may share an interrupt number.
pub open spec fn route_key(e: RoutingEntry) -> u64 {
    let chip: u32 = match e.target {
        RouteTarget::Irqchip { irqchip, .. } => irqchip,
        RouteTarget::Msi { .. } => 0,
    };
    ((chip as u64) << 48u64 | (e.spec_kind() as u64) << 32u64) | (e.gsi as u64)
}

/// The key of a route.
pub fn hash_key(entry: &RoutingEntry) -> (r: u64)
    ensures
        r == route_key(*entry),
{
    let chip: u32 = match entry.target {
        RouteTarget::Irqchip { irqchip, .. } => irqchip,
        RouteTarget::Msi { .. } => 0,
    };
    ((chip as u64) << 48u64 | (entry.kind() as u64) << 32u64) | (entry.gsi as u64)
}

/// The table that the routes `s` make, a later route replacing an earlier
/// one of the same key.
pub open spec fn routes_map(s: Seq<RoutingEntry>) -> Map<u64, RoutingEntry>
    decreases s.len(),
{
    if s.len() == 0 {
        Map::empty()
    } else {
        routes_map(s.drop_last()).insert(route_key(s.last()), s.last())
    }
}

/// No two routes of `s` share a key.
pub open spec fn keys_distinct(s: Seq<RoutingEntry>) -> bool {
    forall|i: int, j: int|
        0 <= i < j < s.len() ==> route_key(#[trigger] s[i]) != route_key(#[trigger] s[j])
}

/// The table `m` with the routes `es` added, one after the other.
pub open spec fn insert_all(m: Map<u64, RoutingEntry>, es: Seq<RoutingEntry>) -> Map<
    u64,
    RoutingEntry,
>
    decreases es.len(),
{
    if es.len() == 0 {
        m
    } else {
        insert_all(m, es.drop_last()).insert(route_key(es.last()), es.last())
    }
}

/// The table `m` without the keys of the routes `es`.
pub open spec fn remove_all(m: Map<u64, RoutingEntry>, es: Seq<RoutingEntry>) -> Map<
    u64,
    RoutingEntry,
>
    decreases es.len(),
{
    if es.len() == 0 {
        m
    } else {
        remove_all(m, es.drop_last()).remove(route_key(es.last()))
    }
}

/// The keys of the routes `es`.
pub open spec fn key_set(es: Seq<RoutingEntry>) -> Set<u64> {
    Set::new(|k: u64| exists|i: int| 0 <= i < es.len() && route_key(#[trigger] es[i]) == k)
}

/// The outcome of the checks that `add` makes on the routes `es` against the
/// table `m`: the first route with an interrupt out of range or a key in use
/// fails.
pub open spec fn add_check(m: Map<u64, RoutingEntry>, es: Seq<RoutingEntry>) -> Result<()>
    decreases es.len(),
{
    if es.len() == 0 {
        Ok(())
    } else if es[0].gsi >= MAX_IRQS {
        Err(Error::InvalidConfiguration)
    } else if m.contains_key(route_key(es[0])) {
        Err(Error::Duplicate)
    } else {
        add_check(m, es.drop_first())
    }
}

/// Default routes of the master controller: lines 0 to 7 but the cascade
/// line 2, each on its own pin.
pub open spec fn master_routes() -> Seq<RoutingEntry> {
    Seq::new(
        7,
        |j: int|
            {
                let i = (if j < 2 {
                    j
                } else {
                    j + 1
                }) as u32;
                irqchip_route(i, KVM_IRQCHIP_PIC_MASTER, i)
            },
    )
}

/// Default routes of the slave controller: lines 8 to 15 on its pins 0 to 7.
pub open spec fn slave_routes() -> Seq<RoutingEntry> {
    Seq::new(8, |j: int| irqchip_route((j + 8) as u32, KVM_IRQCHIP_PIC_SLAVE, j as u32))
}

/// Default routes of the I/O APIC: lines 0 to 23 but line 2, each on its own
/// pin but the timer's line 0, which goes to pin 2.
pub open spec fn ioapic_routes() -> Seq<RoutingEntry> {
    Seq::new(
        23,
        |j: int|
            {
                let i = (if j < 2 {
                    j
                } else {
                    j + 1
                }) as u32;
                irqchip_route(
                    i,
                    KVM_IRQCHIP_IOAPIC,
                    if i == 0 {
                        2
                    } else {
                        i
                    },
                )
            },
    )
}

/// The default routes of the legacy interrupt lines.
pub open spec fn legacy_routes() -> Seq<RoutingEntry> {
    master_routes() + slave_routes() + ioapic_routes()
}

proof fn lemma_map_contains(s: Seq<RoutingEntry>, k: u64)
    ensures
        routes_map(s).contains_key(k) <==> exists|i: int|
            0 <= i < s.len() && route_key(#[trigger] s[i]) == k,
    decreases s.len(),
{
    if s.len() > 0 {
        let t = s.drop_last();
        lemma_map_contains(t, k);
        if exists|i: int| 0 <= i < t.len() && route_key(#[trigger] t[i]) == k {
            let i = choose|i: int| 0 <= i < t.len() && route_key(#[trigger] t[i]) == k;
            assert(s[i] == t[i]);
        }
        if exists|i: int| 0 <= i < s.len() && route_key(#[trigger] s[i]) == k {
            let i = choose|i: int| 0 <= i < s.len() && route_key(#[trigger] s[i]) == k;
            if i < s.len() - 1 {
                assert(s[i] == t[i]);
            }
        }
    }
}

proof fn lemma_map_get(s: Seq<RoutingEntry>, i: int)
    requires
        keys_distinct(s),
        0 <= i < s.len(),
    ensures
        routes_map(s).contains_key(route_key(s[i])),
        routes_map(s)[route_key(s[i])] == s[i],
    decreases s.len(),
{
    if i < s.len() - 1 {
        let t = s.drop_last();
        assert(t[i] == s[i]);
        assert(route_key(s[i]) != route_key(s[s.len() - 1]));
        lemma_map_get(t, i);
    }
}

proof fn lemma_map_update(s: Seq<RoutingEntry>, i: int, e: RoutingEntry)
    requires
        keys_distinct(s),
        0 <= i < s.len(),
        route_key(e) == route_key(s[i]),
    ensures
        routes_map(s.update(i, e)) == routes_map(s).insert(route_key(e), e),
        keys_distinct(s.update(i, e)),
    decreases s.len(),
{
    let u = s.update(i, e);
    let t = s.drop_last();
    if i == s.len() - 1 {
        assert(u.drop_last() == t);
        assert(routes_map(u) =~= routes_map(s).insert(route_key(e), e));
    } else {
        assert(u.drop_last() == t.update(i, e));
        assert(route_key(s[i]) != route_key(s[s.len() - 1]));
        lemma_map_update(t, i, e);
        assert(routes_map(u) =~= routes_map(s).insert(route_key(e), e));
    }
    assert forall|x: int, y: int| 0 <= x < y < u.len() implies route_key(#[trigger] u[x])
        != route_key(#[trigger] u[y]) by {
        assert(route_key(u[x]) == route_key(s[x]));
        assert(route_key(u[y]) == route_key(s[y]));
    }
}

proof fn lemma_map_remove(s: Seq<RoutingEntry>, i: int)
    requires
        keys_distinct(s),
        0 <= i < s.len(),
    ensures
        routes_map(s.remove(i)) == routes_map(s).remove(route_key(s[i])),
        keys_distinct(s.remove(i)),
    decreases s.len(),
{
    let u = s.remove(i);
    let t = s.drop_last();
    let kl = route_key(s[s.len() - 1]);
    if i == s.len() - 1 {
        assert(u == t);
        lemma_map_contains(t, kl);
        if routes_map(t).contains_key(kl) {
            let j = choose|j: int| 0 <= j < t.len() && route_key(#[trigger] t[j]) == kl;
            assert(t[j] == s[j]);
        }
        assert(routes_map(u) =~= routes_map(s).remove(route_key(s[i])));
    } else {
        assert(u.drop_last() == t.remove(i));
        assert(u.last() == s.last());
        assert(route_key(s[i]) != kl);
        lemma_map_remove(t, i);
        assert(routes_map(u) =~= routes_map(s).remove(route_key(s[i])));
    }
    assert forall|x: int, y: int| 0 <= x < y < u.len() implies route_key(#[trigger] u[x])
        != route_key(#[trigger] u[y]) by {
        let xo = if x < i {
            x
        } else {
            x + 1
        };
        let yo = if y < i {
            y
        } else {
            y + 1
        };
        assert(u[x] == s[xo]);
        assert(u[y] == s[yo]);
    }
}

proof fn lemma_key_set_step(es: Seq<RoutingEntry>)
    requires
        es.len() > 0,
    ensures
        key_set(es) == key_set(es.drop_last()).insert(route_key(es.last())),
{
    let t = es.drop_last();
    assert forall|k: u64| key_set(es).contains(k) implies key_set(t).insert(
        route_key(es.last()),
    ).contains(k) by {
        let i = choose|i: int| 0 <= i < es.len() && route_key(#[trigger] es[i]) == k;
        if i < es.len() - 1 {
            assert(t[i] == es[i]);
        }
    }
    assert forall|k: u64| key_set(t).insert(route_key(es.last())).contains(k) implies key_set(
        es,
    ).contains(k) by {
        if k != route_key(es.last()) {
            let i = choose|i: int| 0 <= i < t.len() && route_key(#[trigger] t[i]) == k;
            assert(t[i] == es[i]);
        } else {
            assert(route_key(es[es.len() - 1]) == k);
        }
    }
    assert(key_set(es) =~= key_set(t).insert(route_key(es.last())));
}

proof fn lemma_remove_all_keys(m: Map<u64, RoutingEntry>, es: Seq<RoutingEntry>)
    ensures
        remove_all(m, es) == m.remove_keys(key_set(es)),
    decreases es.len(),
{
    if es.len() == 0 {
        assert(key_set(es) =~= Set::empty());
        assert(m.remove_keys(key_set(es)) =~= m);
    } else {
        lemma_remove_all_keys(m, es.drop_last());
        lemma_key_set_step(es);
        assert(remove_all(m, es) =~= m.remove_keys(key_set(es)));
    }
}

proof fn lemma_insert_all_hidden(
    m: Map<u64, RoutingEntry>,
    es: Seq<RoutingEntry>,
    keys: Set<u64>,
)
    requires
        key_set(es).subset_of(keys),
    ensures
        insert_all(m, es).remove_keys(keys) == m.remove_keys(keys),
    decreases es.len(),
{
    if es.len() > 0 {
        lemma_key_set_step(es);
        lemma_insert_all_hidden(m, es.drop_last(), keys);
        assert(insert_all(m, es).remove_keys(keys) =~= m.remove_keys(keys));
    }
}

/// Adding routes to a table, where `add` accepts them, and then removing the
/// same routes gives back the table as it was.
pub proof fn lemma_add_remove(m: Map<u64, RoutingEntry>, es: Seq<RoutingEntry>)
    requires
        add_check(m, es) is Ok,
    ensures
        remove_all(insert_all(m, es), es) == m,
{
    lemma_add_check_ok(m, es);
    lemma_remove_all_keys(insert_all(m, es), es);
    lemma_insert_all_hidden(m, es, key_set(es));
    assert(m.remove_keys(key_set(es)) =~= m);
}

/// A successful check of `add` leaves out every key that the table holds.
proof fn lemma_add_check_ok(m: Map<u64, RoutingEntry>, es: Seq<RoutingEntry>)
    requires
        add_check(m, es) is Ok,
    ensures
        forall|i: int|
            0 <= i < es.len() ==> !m.contains_key(route_key(#[trigger] es[i])) && es[i].gsi
                < MAX_IRQS,
    decreases es.len(),
{
    if es.len() > 0 {
        lemma_add_check_ok(m, es.drop_first());
        assert forall|i: int| 0 <= i < es.len() implies !m.contains_key(
            route_key(#[trigger] es[i]),
        ) && es[i].gsi < MAX_IRQS by {
            if i > 0 {
                assert(es[i] == es.drop_first()[i - 1]);
            }
        }
    }
}

/// The routing table of a virtual machine: at most one route per key.
pub struct KvmIrqRouting {
    routes: Vec<RoutingEntry>,
}

impl View for KvmIrqRouting {
    type V = Map<u64, RoutingEntry>;

    closed spec fn view(&self) -> Map<u64, RoutingEntry> {
        routes_map(self.routes@)
    }
}

impl KvmIrqRouting {
    /// No two routes of the table share a key.
    pub closed spec fn wf(&self) -> bool {
        keys_distinct(self.routes@)
    }

    /// An empty table.
    pub fn new() -> (r: Self)
        ensures
            r.wf(),
            r@ == Map::<u64, RoutingEntry>::empty(),
    {
        KvmIrqRouting { routes: Vec::new() }
    }

    /// The number of routes.
    pub fn len(&self) -> (r: usize)
        requires
            self.wf(),
        ensures
            r == self@.len(),
    {
        proof {
                        lemma_map_len(self.routes@);
        }
        self.routes.len()
    }

    /// Whether the table holds a route of key `key`.
    pub fn contains_key(&self, key: u64) -> (r: bool)
        requires
            self.wf(),
        ensures
            r == self@.contains_key(key),
    {
        proof {
            lemma_map_contains(self.routes@, key);
        }
        self.find(key).is_some()
    }

    /// The index of the route of key `key`.
    fn find(&self, key: u64) -> (r: Option<usize>)
        requires
            self.wf(),
        ensures
            match r {
                Some(i) => i < self.routes@.len() && route_key(self.routes@[i as int]) == key,
                None => !self@.contains_key(key),
            },
    {
        let mut i: usize = 0;
        while i < self.routes.len()
            invariant
                i <= self.routes@.len(),
                forall|k: int| 0 <= k < i ==> route_key(#[trigger] self.routes@[k]) != key,
            decreases self.routes@.len() - i,
        {
            if hash_key(&self.routes[i]) == key {
                return Some(i);
            }
            i = i + 1;
        }
        proof {
            lemma_map_contains(self.routes@, key);
        }
        None
    }

    /// Puts `entry` in the table, in place of any route of its key.
    fn insert_entry(&mut self, entry: RoutingEntry)
        requires
            old(self).wf(),
        ensures
            final(self).wf(),
            final(self)@ == old(self)@.insert(route_key(entry), entry),
    {
        proof {
                    }
        match self.find(hash_key(&entry)) {
            Some(i) => {
                proof {
                    lemma_map_update(self.routes@, i as int, entry);
                }
                self.routes.set(i, entry);
            },
            None => {
                let ghost s = self.routes@;
                proof {
                    lemma_map_contains(s, route_key(entry));
                }
                self.routes.push(entry);
                assert(self.routes@.drop_last() == s);
            },
        }
    }

    /// Takes the route of key `key` out of the table.
    fn remove_key(&mut self, key: u64)
        requires
            old(self).wf(),
        ensures
            final(self).wf(),
            final(self)@ == old(self)@.remove(key),
    {
        proof {
                    }
        match self.find(key) {
            Some(i) => {
                proof {
                    lemma_map_remove(self.routes@, i as int);
                }
                self.routes.remove(i);
            },
            None => {
                assert(self@.remove(key) =~= self@);
            },
        }
    }

    /// Installs the default routes of the legacy interrupt lines, in place of
    /// any routes of their keys.
    pub fn initialize(&mut self) -> (r: Result<()>)
        requires
            old(self).wf(),
        ensures
            final(self).wf(),
            r is Ok,
            final(self)@ == insert_all(old(self)@, legacy_routes()),
    {
        let defaults = default_legacy_routes();
        let mut i: usize = 0;
        assert(defaults@.take(0) == Seq::<RoutingEntry>::empty());
        while i < defaults.len()
            invariant
                i <= defaults@.len(),
                defaults@ == legacy_routes(),
                self.wf(),
                self@ == insert_all(old(self)@, defaults@.take(i as int)),
            decreases defaults@.len() - i,
        {
            assert(defaults@.take(i + 1).drop_last() == defaults@.take(i as int));
            self.insert_entry(defaults[i]);
            i = i + 1;
        }
        assert(defaults@.take(i as int) == defaults@);
        Ok(())
    }

    /// Adds the routes `entries` to the table.
    ///
    /// Fails, with the table unchanged, at the first route whose interrupt is
    /// not below `MAX_IRQS` (`InvalidConfiguration`) or whose key the table
    /// holds (`Duplicate`).
    pub fn add(&mut self, entries: &[RoutingEntry]) -> (r: Result<()>)
        requires
            old(self).wf(),
        ensures
            final(self).wf(),
            r == add_check(old(self)@, entries@),
            r is Ok ==> final(self)@ == insert_all(old(self)@, entries@),
            r is Err ==> final(self)@ == old(self)@,
    {
        let mut i: usize = 0;
        assert(entries@.skip(0) == entries@);
        while i < entries.len()
            invariant
                i <= entries@.len(),
                self.wf(),
                self == old(self),
                add_check(self@, entries@) == add_check(self@, entries@.skip(i as int)),
            decreases entries@.len() - i,
        {
            assert(entries@.skip(i as int).drop_first() == entries@.skip(i + 1));
            assert(entries@.skip(i as int)[0] == entries@[i as int]);
            if entries[i].gsi >= MAX_IRQS {
                return Err(Error::InvalidConfiguration);
            }
            if self.contains_key(hash_key(&entries[i])) {
                return Err(Error::Duplicate);
            }
            i = i + 1;
        }
        let mut j: usize = 0;
        assert(entries@.take(0) == Seq::<RoutingEntry>::empty());
        while j < entries.len()
            invariant
                j <= entries@.len(),
                self.wf(),
                self@ == insert_all(old(self)@, entries@.take(j as int)),
            decreases entries@.len() - j,
        {
            assert(entries@.take(j + 1).drop_last() == entries@.take(j as int));
            self.insert_entry(entries[j]);
            j = j + 1;
        }
        assert(entries@.take(j as int) == entries@);
        Ok(())
    }

    /// Removes the routes of the keys of `entries`; keys the table does not
    /// hold are passed over.
    pub fn remove(&mut self, entries: &[RoutingEntry]) -> (r: Result<()>)
        requires
            old(self).wf(),
        ensures
            final(self).wf(),
            r is Ok,
            final(self)@ == remove_all(old(self)@, entries@),
    {
        let mut j: usize = 0;
        assert(entries@.take(0) == Seq::<RoutingEntry>::empty());
        while j < entries.len()
            invariant
                j <= entries@.len(),
                self.wf(),
                self@ == remove_all(old(self)@, entries@.take(j as int)),
            decreases entries@.len() - j,
        {
            assert(entries@.take(j + 1).drop_last() == entries@.take(j as int));
            self.remove_key(hash_key(&entries[j]));
            j = j + 1;
        }
        assert(entries@.take(j as int) == entries@);
        Ok(())
    }

    /// Replaces the route of the key of `entry` by `entry`; `NotFound`, with
    /// the table unchanged, where the table holds no route of that key.
    pub fn modify(&mut self, entry: &RoutingEntry) -> (r: Result<()>)
        requires
            old(self).wf(),
        ensures
            final(self).wf(),
            r is Ok <==> old(self)@.contains_key(route_key(*entry)),
            r is Ok ==> final(self)@ == old(self)@.insert(route_key(*entry), *entry),
            r is Err ==> r == Err::<(), Error>(Error::NotFound) && final(self)@ == old(self)@,
    {
        if !self.contains_key(hash_key(entry)) {
            return Err(Error::NotFound);
        }
        self.insert_entry(*entry);
        Ok(())
    }

    /// The routes of the table, one per key, in no particular order: what a
    /// commit hands to the hypervisor.
    pub fn entries(&self) -> (r: Vec<RoutingEntry>)
        requires
            self.wf(),
        ensures
            r@.len() == self@.len(),
            keys_distinct(r@),
            forall|i: int|
                0 <= i < r@.len() ==> self@.contains_key(route_key(#[trigger] r@[i]))
                    && self@[route_key(r@[i])] == r@[i],
            routes_map(r@) == self@,
    {
        proof {
                        lemma_map_len(self.routes@);
            assert forall|i: int| 0 <= i < self.routes@.len() implies self@.contains_key(
                route_key(#[trigger] self.routes@[i]),
            ) && self@[route_key(self.routes@[i])] == self.routes@[i] by {
                lemma_map_get(self.routes@, i);
            }
        }
        self.routes.clone()
    }
}

/// The table that routes of distinct keys make has one entry per route.
proof fn lemma_map_len(s: Seq<RoutingEntry>)
    requires
        keys_distinct(s),
    ensures
        routes_map(s).len() == s.len(),
        routes_map(s).dom().finite(),
    decreases s.len(),
{
    if s.len() > 0 {
        let t = s.drop_last();
        lemma_map_len(t);
        lemma_map_contains(t, route_key(s.last()));
        if routes_map(t).contains_key(route_key(s.last())) {
            let j = choose|j: int| 0 <= j < t.len() && route_key(#[trigger] t[j]) == route_key(s.last());
            assert(t[j] == s[j]);
        }
    }
}

/// The default routes of the legacy interrupt lines.
fn default_legacy_routes() -> (r: Vec<RoutingEntry>)
    ensures
        r@ == legacy_routes(),
{
    let mut v: Vec<RoutingEntry> = Vec::new();
    let mut i: u32 = 0;
    while i < 8
        invariant
            i <= 8,
            v@ == master_routes().take(if i <= 2 { i as int } else { i as int - 1 }),
        decreases 8 - i,
    {
        if i != 2 {
            let ghost n: int = v@.len() as int;
            assert(master_routes()[n] == irqchip_route(i, KVM_IRQCHIP_PIC_MASTER, i));
            v.push(RoutingEntry::irqchip(i, KVM_IRQCHIP_PIC_MASTER, i));
            assert(v@ =~= master_routes().take(n + 1));
        }
        i = i + 1;
    }
    assert(master_routes().take(7) == master_routes());
    let mut i: u32 = 8;
    while i < 16
        invariant
            8 <= i <= 16,
            v@ == master_routes() + slave_routes().take(i as int - 8),
        decreases 16 - i,
    {
        assert(slave_routes()[i - 8] == irqchip_route(i, KVM_IRQCHIP_PIC_SLAVE, (i - 8) as u32));
        v.push(RoutingEntry::irqchip(i, KVM_IRQCHIP_PIC_SLAVE, i - 8));
        assert(v@ =~= master_routes() + slave_routes().take(i as int - 7));
        i = i + 1;
    }
    assert(slave_routes().take(8) == slave_routes());
    let mut i: u32 = 0;
    while i < MAX_LEGACY_IRQS
        invariant
            i <= MAX_LEGACY_IRQS,
            v@ == master_routes() + slave_routes() + ioapic_routes().take(
                if i <= 2 { i as int } else { i as int - 1 },
            ),
        decreases MAX_LEGACY_IRQS - i,
    {
        if i == 0 {
            assert(ioapic_routes()[0] == irqchip_route(0, KVM_IRQCHIP_IOAPIC, 2));
            v.push(RoutingEntry::irqchip(i, KVM_IRQCHIP_IOAPIC, 2));
            assert(v@ =~= master_routes() + slave_routes() + ioapic_routes().take(1));
        } else if i != 2 {
            let ghost n: int = if i < 2 { i as int } else { i as int - 1 };
            assert(ioapic_routes()[n] == irqchip_route(i, KVM_IRQCHIP_IOAPIC, i));
            v.push(RoutingEntry::irqchip(i, KVM_IRQCHIP_IOAPIC, i));
            assert(v@ =~= master_routes() + slave_routes() + ioapic_routes().take(n + 1));
        }
        i = i + 1;
    }
    assert(ioapic_routes().take(23) == ioapic_routes());
    v
}

} // verus!
