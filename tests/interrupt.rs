use vm_device::interrupt::group::{InterruptSourceConfig, InterruptSourceType, LegacyIrq, PciMsiIrq};
use vm_device::interrupt::legacy::{IntXPin, LegacyIrqConfig};
use vm_device::interrupt::manager::{InterruptGroup, KvmIrqManager};
use vm_device::interrupt::msi::MsiIrqConfig;
use vm_device::interrupt::routing::{
    hash_key, KvmIrqRouting, RoutingEntry, KVM_IRQCHIP_IOAPIC, KVM_IRQCHIP_PIC_MASTER,
    KVM_IRQCHIP_PIC_SLAVE, MAX_IRQS,
};
use vm_device::interrupt::Error;

const MASTER_PIC: usize = 7;
const SLAVE_PIC: usize = 8;
const IOAPIC: usize = 23;

fn create_irq_group(manager: &mut KvmIrqManager) -> InterruptGroup {
    let base = 0;
    let count = 1;

    manager
        .create_group(InterruptSourceType::LegacyIrq, base, count)
        .unwrap()
}

fn create_msi_group(manager: &mut KvmIrqManager) -> InterruptGroup {
    let base = 168;
    let count = 32;

    manager
        .create_group(InterruptSourceType::PciMsiIrq, base, count)
        .unwrap()
}

#[test]
fn test_create_kvmirqmanager() {
    let mut manager = KvmIrqManager::new();
    assert!(manager.initialize().is_ok());
}

#[test]
fn test_kvmirqmanager_opt() {
    let mut manager = KvmIrqManager::new();
    assert!(manager.initialize().is_ok());
    let group = create_irq_group(&mut manager);
    assert!(manager.destroy_group(group.base()).is_ok());
    let group = create_msi_group(&mut manager);
    assert!(manager.destroy_group(group.base()).is_ok());
}

#[test]
fn test_irqrouting_initialize_legacy() {
    let mut routing = KvmIrqRouting::new();
    assert!(routing.initialize().is_ok());
    assert_eq!(routing.len(), MASTER_PIC + SLAVE_PIC + IOAPIC);
    assert_eq!(routing.entries().len(), MASTER_PIC + SLAVE_PIC + IOAPIC);
}

#[test]
fn test_routing_opt() {
    let mut routing = KvmIrqRouting::new();
    assert!(routing.initialize().is_ok());

    let mut entry = RoutingEntry::irqchip(8, 0, 3);

    let entrys = vec![entry];

    assert!(routing.modify(&entry).is_err());
    assert!(routing.add(&entrys).is_ok());
    entry = RoutingEntry::irqchip(8, 0, 4);
    assert!(routing.modify(&entry).is_ok());
    assert!(routing.remove(&entrys).is_ok());
    assert!(routing.modify(&entry).is_err());
}

#[test]
fn test_routing_commit() {
    let mut routing = KvmIrqRouting::new();
    assert!(routing.initialize().is_ok());

    let entry = RoutingEntry::irqchip(8, 0, 3);
    assert!(routing.add(&[entry]).is_ok());
    let committed = routing.entries();
    assert_eq!(committed.len(), MASTER_PIC + SLAVE_PIC + IOAPIC + 1);
    assert!(committed.contains(&entry));
}

#[test]
fn test_has_key() {
    let gsi = 4;
    let entry = RoutingEntry::irqchip(gsi, KVM_IRQCHIP_PIC_MASTER, gsi);
    assert_eq!(hash_key(&entry), 0x0001_0000_0004);
}

#[test]
fn test_msi_interrupt_group() {
    let mut routing = KvmIrqRouting::new();
    assert!(routing.initialize().is_ok());

    let base = 168;
    let count = 32;
    let mut group = PciMsiIrq::new(base, count, 32).unwrap();
    let mut msi_fds = Vec::with_capacity(count as usize);

    match group.interrupt_type() {
        InterruptSourceType::PciMsiIrq => {}
        _ => {
            panic!();
        }
    }

    for _ in 0..count {
        let msi_source_config = MsiIrqConfig {
            high_addr: 0x1234,
            low_addr: 0x5678,
            data: 0x9876,
            devid: 0,
        };
        msi_fds.push(InterruptSourceConfig::MsiIrq(msi_source_config));
    }

    assert!(group.enable(&msi_fds, &mut routing).is_ok());
    assert_eq!(group.len(), count);
    assert_eq!(group.base(), base);

    for i in 0..count {
        let msi_source_config = MsiIrqConfig {
            high_addr: i + 0x1234,
            low_addr: i + 0x5678,
            data: i + 0x9876,
            devid: 0,
        };
        assert!(group.trigger(i, 0x168).is_err());
        assert!(group.trigger(i, 0).is_ok());
        assert!(group.ack(i, 0x168).is_err());
        assert!(group.ack(i, 0).is_ok());
        assert!(group
            .update(0, &InterruptSourceConfig::MsiIrq(msi_source_config), &mut routing)
            .is_ok());
    }
    assert!(group.trigger(33, 0x168).is_err());
    assert!(group.ack(33, 0x168).is_err());
    assert!(group.disable(&mut routing).is_ok());

    assert!(PciMsiIrq::new(base, 33, 32).is_err());
    assert!(PciMsiIrq::new(1100, 1, 32).is_err());
}

#[test]
fn legacy_group_trigger_and_ack() {
    let mut manager = KvmIrqManager::new();
    let group = manager
        .create_group(InterruptSourceType::LegacyIrq, 5, 1)
        .unwrap();
    let mut irq = match group {
        InterruptGroup::Legacy(g) => g,
        InterruptGroup::PciMsi(_) => panic!("not a legacy group"),
    };
    let config = InterruptSourceConfig::LegacyIrq(LegacyIrqConfig {
        interrupt_line: None,
        interrupt_pin: None,
    });
    assert!(irq.enable(&[config]).is_ok());
    assert!(irq.trigger(0, 0x3).is_ok());
    assert_eq!(irq.flags(0) & 0x3, 0x3);
    assert!(irq.ack(0, 0x2).is_ok());
    assert_eq!(irq.flags(0) & 0x2, 0);
    assert_eq!(irq.flags(0) & 0x1, 0x1);
    assert_eq!(irq.flags(1), 0);
}

#[test]
fn legacy_trigger_then_ack_restores_status() {
    let mut irq = LegacyIrq::new(3, 1).unwrap();
    assert!(irq.trigger(0, 0x10).is_ok());
    let before = irq.flags(0);
    assert!(irq.trigger(0, 0x6).is_ok());
    assert!(irq.ack(0, 0x6).is_ok());
    assert_eq!(irq.flags(0), before);
}

#[test]
fn legacy_group_errors() {
    assert_eq!(LegacyIrq::new(24, 1).err(), Some(Error::InvalidConfiguration));
    assert_eq!(LegacyIrq::new(3, 2).err(), Some(Error::InvalidConfiguration));
    let mut irq = LegacyIrq::new(23, 1).unwrap();
    assert_eq!(irq.trigger(1, 1), Err(Error::InvalidConfiguration));
    assert_eq!(irq.ack(1, 1), Err(Error::InvalidConfiguration));
    assert_eq!(irq.enable(&[]), Err(Error::InvalidConfiguration));
    let msi = InterruptSourceConfig::MsiIrq(MsiIrqConfig::new());
    assert_eq!(irq.enable(&[msi]), Err(Error::InvalidConfiguration));
    assert_eq!(irq.update(0, &msi), Err(Error::InvalidConfiguration));
    assert_eq!(irq.mask(0), Err(Error::OperationNotSupported));
    assert_eq!(irq.unmask(0), Err(Error::OperationNotSupported));
    assert_eq!(IntXPin::IntC.value(), 3);
}

#[test]
fn routing_modify_requires_existence() {
    let mut routing = KvmIrqRouting::new();
    let cfg = MsiIrqConfig { high_addr: 1, low_addr: 2, data: 3, devid: 0 };
    let entry = RoutingEntry::msi(40, &cfg);
    assert_eq!(routing.modify(&entry), Err(Error::NotFound));
    assert!(routing.add(&[entry]).is_ok());
    assert!(routing.modify(&entry).is_ok());
    assert!(routing.remove(&[entry]).is_ok());
    assert_eq!(routing.modify(&entry), Err(Error::NotFound));
}

#[test]
fn routing_add_then_remove_restores_table() {
    let mut routing = KvmIrqRouting::new();
    assert!(routing.initialize().is_ok());
    let mut before = routing.entries();
    before.sort_by_key(|e| hash_key(e));
    let cfg = MsiIrqConfig::new();
    let added = [RoutingEntry::msi(100, &cfg), RoutingEntry::msi(101, &cfg)];
    assert!(routing.add(&added).is_ok());
    assert_eq!(routing.len(), before.len() + 2);
    assert!(routing.remove(&added).is_ok());
    let mut after = routing.entries();
    after.sort_by_key(|e| hash_key(e));
    assert_eq!(after, before);
}

#[test]
fn routing_add_errors() {
    let mut routing = KvmIrqRouting::new();
    assert!(routing.initialize().is_ok());
    let cfg = MsiIrqConfig::new();
    assert_eq!(
        routing.add(&[RoutingEntry::msi(MAX_IRQS, &cfg)]),
        Err(Error::InvalidConfiguration)
    );
    assert_eq!(
        routing.add(&[RoutingEntry::irqchip(4, KVM_IRQCHIP_PIC_MASTER, 4)]),
        Err(Error::Duplicate)
    );
    assert_eq!(routing.len(), MASTER_PIC + SLAVE_PIC + IOAPIC);
}

#[test]
fn msi_group_masking() {
    let mut routing = KvmIrqRouting::new();
    let mut group = PciMsiIrq::new(64, 2, 128).unwrap();
    let configs = [
        InterruptSourceConfig::MsiIrq(MsiIrqConfig::new()),
        InterruptSourceConfig::MsiIrq(MsiIrqConfig::new()),
    ];
    assert_eq!(group.enable(&configs[..1], &mut routing), Err(Error::InvalidConfiguration));
    assert!(group.enable(&configs, &mut routing).is_ok());
    assert_eq!(routing.len(), 2);
    assert!(group.mask(1).is_ok());
    assert_eq!(group.trigger(1, 0), Ok(false));
    assert_eq!(group.pending(1), Ok(true));
    assert_eq!(group.trigger(0, 0), Ok(true));
    assert_eq!(group.unmask(1), Ok(true));
    assert_eq!(group.pending(1), Ok(false));
    assert_eq!(group.mask(2), Err(Error::InvalidConfiguration));
    assert!(group.disable(&mut routing).is_ok());
    assert_eq!(routing.len(), 0);
}

#[test]
fn manager_validates_groups() {
    let mut manager = KvmIrqManager::new();
    assert!(manager
        .create_group(InterruptSourceType::PciMsiIrq, 0, 129)
        .is_err());
    manager.set_max_msi_irqs(256);
    assert!(manager
        .create_group(InterruptSourceType::PciMsiIrq, 0, 129)
        .is_ok());
    assert!(manager
        .create_group(InterruptSourceType::PciMsiIrq, 1000, 25)
        .is_err());
    assert!(manager
        .create_group(InterruptSourceType::LegacyIrq, 24, 1)
        .is_err());
    let g = manager
        .create_group(InterruptSourceType::LegacyIrq, 23, 1)
        .unwrap();
    assert_eq!(g.base(), 23);
    assert_eq!(g.interrupt_type(), InterruptSourceType::LegacyIrq);
}

#[test]
fn default_legacy_routes() {
    let mut routing = KvmIrqRouting::new();
    assert!(routing.initialize().is_ok());
    let entries = routing.entries();
    assert!(entries.contains(&RoutingEntry::irqchip(0, KVM_IRQCHIP_IOAPIC, 2)));
    assert!(!entries.contains(&RoutingEntry::irqchip(2, KVM_IRQCHIP_IOAPIC, 2)));
    assert!(entries.contains(&RoutingEntry::irqchip(23, KVM_IRQCHIP_IOAPIC, 23)));
    assert!(entries.contains(&RoutingEntry::irqchip(1, KVM_IRQCHIP_PIC_MASTER, 1)));
    assert!(!entries.contains(&RoutingEntry::irqchip(2, KVM_IRQCHIP_PIC_MASTER, 2)));
    assert!(entries.contains(&RoutingEntry::irqchip(15, KVM_IRQCHIP_PIC_SLAVE, 7)));
    assert!(routing.contains_key(hash_key(&RoutingEntry::irqchip(8, KVM_IRQCHIP_PIC_SLAVE, 0))));
    // Installing again changes nothing.
    assert!(routing.initialize().is_ok());
    assert_eq!(routing.len(), MASTER_PIC + SLAVE_PIC + IOAPIC);
}

#[test]
fn interrupt_error_messages() {
    assert_eq!(
        Error::OperationNotSupported.to_string(),
        "Interrupt error: operation not supported"
    );
    assert_eq!(
        Error::InvalidConfiguration.to_string(),
        "Interrupt error: invalid configuration"
    );
    assert_eq!(Error::NotFound.to_string(), "Interrupt error: no such route");
}

#[test]
fn msi_update_replaces_route() {
    let mut routing = KvmIrqRouting::new();
    let mut group = PciMsiIrq::new(200, 1, 128).unwrap();
    let cfg = MsiIrqConfig { high_addr: 0, low_addr: 0xfee0_0000, data: 0x41, devid: 7 };
    assert_eq!(
        group.update(0, &InterruptSourceConfig::MsiIrq(cfg), &mut routing),
        Err(Error::NotFound)
    );
    assert!(group
        .enable(&[InterruptSourceConfig::MsiIrq(MsiIrqConfig::new())], &mut routing)
        .is_ok());
    assert!(group
        .update(0, &InterruptSourceConfig::MsiIrq(cfg), &mut routing)
        .is_ok());
    let stored = group.config(0).unwrap();
    assert_eq!(stored.low_addr, 0xfee0_0000);
    assert_eq!(stored.data, 0x41);
    assert_eq!(routing.entries(), vec![RoutingEntry::msi(200, &stored)]);
    assert_eq!(
        group.update(1, &InterruptSourceConfig::MsiIrq(cfg), &mut routing),
        Err(Error::InvalidConfiguration)
    );
}
