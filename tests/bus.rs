use std::cmp::Ordering;
use std::convert::TryFrom;
use std::fmt::Debug;

use vm_device::bus::{
    Bus, BusAddress, BusRange, Error, MmioAddress, MmioRange, PioAddress, PioRange,
};

fn check_bus_address_ops<A>(addr_zero: A, max_value: A::V)
where
    A: BusAddress + Debug + PartialOrd + PartialEq,
    A::V: Debug + PartialEq + From<u8>,
{
    let value = A::V::from(5);
    let addr = addr_zero.add_offset(value);

    assert!(addr_zero < addr);
    assert_eq!(addr.offset_from(addr_zero), value);

    assert_eq!(addr.value(), value);
    assert_eq!(addr_zero.checked_add(value).unwrap(), addr);

    let addr_max = addr_zero.checked_add(max_value).unwrap();
    assert!(addr_max.checked_add(A::V::from(1)).is_none());
}

#[test]
fn test_address_ops() {
    check_bus_address_ops(MmioAddress(0), std::u64::MAX);
    check_bus_address_ops(PioAddress(0), std::u16::MAX);
}

#[test]
fn test_bus_range() {
    let base_zero = MmioAddress(0);
    let value = 5;

    assert_eq!(BusRange::new(base_zero, 0), Err(Error::InvalidRange));

    assert!(BusRange::new(base_zero, std::u64::MAX).is_ok());
    assert!(BusRange::new(MmioAddress(1), std::u64::MAX).is_ok());
    assert_eq!(
        BusRange::new(MmioAddress(2), std::u64::MAX),
        Err(Error::InvalidRange)
    );

    {
        let range = BusRange::new(base_zero, value).unwrap();
        assert_eq!(range.base(), base_zero);
        assert_eq!(range.size(), value);
        assert_eq!(range.last(), MmioAddress(value - 1));
        assert!(range.base() < range.last());
    }

    {
        let range = BusRange::unit(base_zero);
        assert_eq!(range.base(), base_zero);
        assert_eq!(range.last(), range.base());
    }

    {
        let range = BusRange::new(MmioAddress(10), 10).unwrap();

        let overlaps = |base_value, len_value| {
            range.overlaps(&BusRange::new(MmioAddress(base_value), len_value).unwrap())
        };

        assert!(!overlaps(0, 5));
        assert!(!overlaps(0, 10));
        assert!(!overlaps(5, 5));

        assert!(overlaps(0, 11));
        assert!(overlaps(5, 6));
        assert!(overlaps(5, 10));
        assert!(overlaps(11, 15));
        assert!(overlaps(5, 35));
        assert!(overlaps(19, 1));
        assert!(overlaps(19, 10));

        assert!(!overlaps(20, 1));
        assert!(!overlaps(30, 10));
    }

    {
        let base = MmioAddress(10);
        let len = 10;

        let range = BusRange::new(base, len).unwrap();

        assert_eq!(range.cmp(&range), range.partial_cmp(&range).unwrap());
        assert_eq!(range.cmp(&range), Ordering::Equal);

        {
            let other = BusRange::new(base, len + 1).unwrap();

            assert_eq!(range, other);

            assert_eq!(range.cmp(&other), range.partial_cmp(&other).unwrap());
            assert_eq!(range.cmp(&other), Ordering::Equal);
        }

        {
            let other = BusRange::unit(base.checked_add(1).unwrap());

            assert_ne!(range, other);

            assert_eq!(range.cmp(&other), range.partial_cmp(&other).unwrap());
            assert_eq!(range.cmp(&other), Ordering::Less);
        }
    }
}

#[test]
fn test_bus() {
    let base = MmioAddress(10);
    let base_prev = MmioAddress(base.value().checked_sub(1).unwrap());
    let len = 10;
    let range = MmioRange::new(base, len).unwrap();
    let range_next = range.last().checked_add(1).unwrap();

    let mut bus = Bus::new();
    let device = 1u8;

    assert_eq!(bus.len(), 0);

    bus.register(range, device).unwrap();
    assert_eq!(bus.len(), 1);

    assert!(bus.device(base_prev).is_none());
    assert!(bus.device_mut(base_prev).is_none());
    assert!(bus.device(range_next).is_none());
    assert!(bus.device_mut(range_next).is_none());

    for offset in 0..len {
        let addr = base.checked_add(offset).unwrap();

        {
            let (r, d) = bus.device(addr).unwrap();
            assert_eq!(range, *r);
            assert_eq!(device, *d);
        }

        {
            let (r, d) = bus.device_mut(addr).unwrap();
            assert_eq!(range, *r);
            assert_eq!(device, *d);
        }

        for start_offset in 0..offset {
            let start_addr = base.checked_add(start_offset).unwrap();

            let (r, d) = bus
                .check_access(start_addr, usize::try_from(offset - start_offset).unwrap())
                .unwrap();
            assert_eq!(range, *r);
            assert_eq!(device, *d);
        }
    }

    assert_eq!(bus.register(range, device), Err(Error::DeviceOverlap));

    {
        let range2 = MmioRange::new(MmioAddress(1), 10).unwrap();
        assert_eq!(bus.register(range2, device), Err(Error::DeviceOverlap));
        assert_eq!(
            bus.check_access(range2.base(), usize::try_from(range2.size()).unwrap()),
            Err(Error::DeviceNotFound)
        );
    }

    {
        let range2 = MmioRange::new(range.last(), 10).unwrap();
        assert_eq!(bus.register(range2, device), Err(Error::DeviceOverlap));
        assert_eq!(
            bus.check_access(range2.base(), usize::try_from(range2.size()).unwrap()),
            Err(Error::DeviceNotFound)
        );
    }

    {
        let range2 = MmioRange::new(MmioAddress(1), range.last().value() + 100).unwrap();
        assert_eq!(bus.register(range2, device), Err(Error::DeviceOverlap));
        assert_eq!(
            bus.check_access(range2.base(), usize::try_from(range2.size()).unwrap()),
            Err(Error::DeviceNotFound)
        );
    }

    {
        let range2 = MmioRange::new(range.last().checked_add(1).unwrap(), 5).unwrap();

        assert_eq!(
            bus.check_access(range2.base(), usize::try_from(range2.size()).unwrap()),
            Err(Error::DeviceNotFound)
        );

        for offset in 0..range2.size() {
            let device2 = device + 1;
            assert!(bus.register(range2, device2).is_ok());
            assert_eq!(bus.len(), 2);

            let addr = range2.base().checked_add(offset).unwrap();
            let (r, d) = bus.deregister(addr).unwrap();
            assert_eq!(bus.len(), 1);
            assert_eq!(r, range2);
            assert_eq!(d, device2);

            assert!(bus.deregister(addr).is_none());
            assert_eq!(bus.len(), 1);
        }

        assert!(bus.register(range2, device).is_ok());
        assert_eq!(bus.len(), 2);

        assert_eq!(
            bus.check_access(range.base(), usize::try_from(range.size() + 1).unwrap()),
            Err(Error::DeviceNotFound)
        );
    }

    let pio_base = PioAddress(10);
    let pio_len = 10;
    let pio_range = PioRange::new(pio_base, pio_len).unwrap();
    let mut pio_bus = Bus::new();
    let pio_device = 1u8;
    pio_bus.register(pio_range, pio_device).unwrap();
    assert_eq!(
        pio_bus.check_access(pio_base, usize::MAX),
        Err(Error::InvalidAccessLength(usize::MAX))
    );
}

#[test]
fn register_lookup_and_access() {
    let mut bus = Bus::new();
    let r = MmioRange::new(MmioAddress(10), 10).unwrap();
    bus.register(r, "d1").unwrap();

    let (range, d) = bus.device(MmioAddress(10)).unwrap();
    assert_eq!(range.base(), MmioAddress(10));
    assert_eq!(range.size(), 10);
    assert_eq!(*d, "d1");
    let (range, d) = bus.device(MmioAddress(19)).unwrap();
    assert_eq!(range.base(), MmioAddress(10));
    assert_eq!(*d, "d1");
    assert!(bus.device(MmioAddress(20)).is_none());
    assert!(bus.device(MmioAddress(9)).is_none());

    let (range, d) = bus.check_access(MmioAddress(10), 10).unwrap();
    assert_eq!(range.base(), MmioAddress(10));
    assert_eq!(*d, "d1");
    assert_eq!(
        bus.check_access(MmioAddress(10), 11).err(),
        Some(Error::DeviceNotFound)
    );
}

#[test]
fn overlap_rejection() {
    let mut bus = Bus::new();
    bus.register(MmioRange::new(MmioAddress(10), 10).unwrap(), "d1")
        .unwrap();

    assert_eq!(
        bus.register(MmioRange::new(MmioAddress(15), 10).unwrap(), "d2"),
        Err(Error::DeviceOverlap)
    );
    assert_eq!(
        bus.register(MmioRange::new(MmioAddress(5), 6).unwrap(), "d2"),
        Err(Error::DeviceOverlap)
    );
    assert_eq!(
        bus.register(MmioRange::new(MmioAddress(1), 199).unwrap(), "d2"),
        Err(Error::DeviceOverlap)
    );
    assert_eq!(bus.len(), 1);
    assert!(bus
        .register(MmioRange::new(MmioAddress(20), 5).unwrap(), "d2")
        .is_ok());
    assert_eq!(bus.len(), 2);
}

#[test]
fn pio_access_length_too_large() {
    let mut bus = Bus::new();
    bus.register(PioRange::new(PioAddress(0x40), 4).unwrap(), 7u32)
        .unwrap();
    assert_eq!(
        bus.check_access(PioAddress(0x40), 0x1_0000_0000).err(),
        Some(Error::InvalidAccessLength(0x1_0000_0000))
    );
    assert_eq!(
        bus.check_access(PioAddress(0x40), 0x1_0000).err(),
        Some(Error::InvalidAccessLength(0x1_0000))
    );
    assert!(bus.check_access(PioAddress(0x40), 4).is_ok());
    assert_eq!(
        bus.check_access(PioAddress(0x40), 5).err(),
        Some(Error::DeviceNotFound)
    );
}

#[test]
fn access_zero_length_and_past_the_end() {
    let mut bus = Bus::new();
    bus.register(PioRange::new(PioAddress(0xfff0), 0x10).unwrap(), 1u8)
        .unwrap();
    assert_eq!(
        bus.check_access(PioAddress(0xfff0), 0).err(),
        Some(Error::InvalidRange)
    );
    assert_eq!(
        bus.check_access(PioAddress(0xfff8), 9).err(),
        Some(Error::InvalidRange)
    );
    assert!(bus.check_access(PioAddress(0xfff8), 8).is_ok());
}

#[test]
fn registered_ranges_stay_disjoint() {
    let mut bus = Bus::new();
    let bases_and_sizes = [(100u64, 10u64), (0, 50), (40, 70), (50, 50), (200, 1), (110, 90)];
    for (b, s) in bases_and_sizes.iter() {
        let _ = bus.register(MmioRange::new(MmioAddress(*b), *s).unwrap(), *b);
    }
    // (0,50), (50,50), (100,10), (110,90), (200,1) went in; (40,70) did not.
    assert_eq!(bus.len(), 5);
    for a in 0u64..=201 {
        let holders = bases_and_sizes
            .iter()
            .filter(|(b, s)| *b != 40 && *b <= a && a < *b + *s)
            .count();
        assert!(holders <= 1);
        match bus.device(MmioAddress(a)) {
            Some((r, _)) => {
                assert_eq!(holders, 1);
                assert!(r.base().value() <= a && a <= r.last().value());
            }
            None => assert_eq!(holders, 0),
        }
    }
}

#[test]
fn register_then_deregister_restores_bus() {
    let mut bus = Bus::new();
    bus.register(MmioRange::new(MmioAddress(0x1000), 0x100).unwrap(), 'a')
        .unwrap();
    bus.register(MmioRange::new(MmioAddress(0x3000), 0x100).unwrap(), 'c')
        .unwrap();
    let r = MmioRange::new(MmioAddress(0x2000), 0x100).unwrap();
    bus.register(r, 'b').unwrap();
    let (got_range, got_device) = bus.deregister(MmioAddress(0x20ff)).unwrap();
    assert_eq!(got_range.base(), MmioAddress(0x2000));
    assert_eq!(got_range.size(), 0x100);
    assert_eq!(got_device, 'b');
    assert_eq!(bus.len(), 2);
    assert_eq!(*bus.device(MmioAddress(0x1000)).unwrap().1, 'a');
    assert_eq!(*bus.device(MmioAddress(0x30ff)).unwrap().1, 'c');
    assert!(bus.device(MmioAddress(0x2000)).is_none());
}

#[test]
fn deregister_without_device_is_noop() {
    let mut bus = Bus::new();
    bus.register(PioRange::new(PioAddress(0x10), 0x10).unwrap(), 3u8)
        .unwrap();
    assert!(bus.deregister(PioAddress(0x20)).is_none());
    assert!(bus.deregister(PioAddress(0x0f)).is_none());
    assert_eq!(bus.len(), 1);
    assert!(bus.device(PioAddress(0x1f)).is_some());
}

#[test]
fn device_mut_changes_the_device() {
    let mut bus = Bus::new();
    bus.register(MmioRange::new(MmioAddress(0), 4).unwrap(), 1u32)
        .unwrap();
    *bus.device_mut(MmioAddress(3)).unwrap().1 = 9;
    assert_eq!(*bus.device(MmioAddress(0)).unwrap().1, 9);
}

#[test]
fn default_bus_is_empty() {
    let bus: Bus<PioAddress, u8> = Default::default();
    assert!(bus.is_empty());
    assert!(bus.device(PioAddress(0)).is_none());
}
