use vm_device::resources::{DeviceResources, MsiIrqType, Resource, ResourceConstraint};

const PIO_ADDRESS_SIZE: u16 = 5;
const PIO_ADDRESS_BASE: u16 = 0;
const MMIO_ADDRESS_SIZE: u64 = 0x8765_4321;
const MMIO_ADDRESS_BASE: u64 = 0x1234_5678;
const LEGACY_IRQ: u32 = 0x168;
const PCI_MSI_IRQ_SIZE: u32 = 0x8888;
const PCI_MSI_IRQ_BASE: u32 = 0x6666;
const PCI_MSIX_IRQ_SIZE: u32 = 0x16666;
const PCI_MSIX_IRQ_BASE: u32 = 0x8888;
const GENERIC_MSI_IRQS_SIZE: u32 = 0x16888;
const GENERIC_MSI_IRQS_BASE: u32 = 0x16688;
const MAC_ADDRESS: &str = "00:08:63:66:86:88";
const KVM_SLOT_ID: u32 = 0x0100;

fn get_device_resource() -> DeviceResources {
    let entry = Resource::PioAddressRange {
        base: PIO_ADDRESS_BASE,
        size: PIO_ADDRESS_SIZE,
    };
    let mut resource = DeviceResources::new();
    resource.append(entry);
    let entry = Resource::MmioAddressRange {
        base: MMIO_ADDRESS_BASE,
        size: MMIO_ADDRESS_SIZE,
    };
    resource.append(entry);
    let entry = Resource::LegacyIrq(LEGACY_IRQ);
    resource.append(entry);
    let entry = Resource::MsiIrq {
        ty: MsiIrqType::PciMsi,
        base: PCI_MSI_IRQ_BASE,
        size: PCI_MSI_IRQ_SIZE,
    };
    resource.append(entry);
    let entry = Resource::MsiIrq {
        ty: MsiIrqType::PciMsix,
        base: PCI_MSIX_IRQ_BASE,
        size: PCI_MSIX_IRQ_SIZE,
    };
    resource.append(entry);
    let entry = Resource::MsiIrq {
        ty: MsiIrqType::GenericMsi,
        base: GENERIC_MSI_IRQS_BASE,
        size: GENERIC_MSI_IRQS_SIZE,
    };
    resource.append(entry);
    let entry = Resource::MacAddresss(MAC_ADDRESS.to_string());
    resource.append(entry);

    resource.append(Resource::KvmMemSlot(KVM_SLOT_ID));

    resource
}

#[test]
fn get_pio_address_ranges() {
    let resources = get_device_resource();
    assert!(
        resources.get_pio_address_ranges()[0].0 == PIO_ADDRESS_BASE
            && resources.get_pio_address_ranges()[0].1 == PIO_ADDRESS_SIZE
    );
}

#[test]
fn test_get_mmio_address_ranges() {
    let resources = get_device_resource();
    assert!(
        resources.get_mmio_address_ranges()[0].0 == MMIO_ADDRESS_BASE
            && resources.get_mmio_address_ranges()[0].1 == MMIO_ADDRESS_SIZE
    );
}

#[test]
fn test_get_legacy_irq() {
    let resources = get_device_resource();
    assert!(resources.get_legacy_irq().unwrap() == LEGACY_IRQ);
}

#[test]
fn test_get_pci_msi_irqs() {
    let resources = get_device_resource();
    assert!(
        resources.get_pci_msi_irqs().unwrap().0 == PCI_MSI_IRQ_BASE
            && resources.get_pci_msi_irqs().unwrap().1 == PCI_MSI_IRQ_SIZE
    );
}

#[test]
fn test_pci_msix_irqs() {
    let resources = get_device_resource();
    assert!(
        resources.get_pci_msix_irqs().unwrap().0 == PCI_MSIX_IRQ_BASE
            && resources.get_pci_msix_irqs().unwrap().1 == PCI_MSIX_IRQ_SIZE
    );
}

#[test]
fn test_get_generic_msi_irqs() {
    let resources = get_device_resource();
    assert!(
        resources.get_generic_msi_irqs().unwrap().0 == GENERIC_MSI_IRQS_BASE
            && resources.get_generic_msi_irqs().unwrap().1 == GENERIC_MSI_IRQS_SIZE
    );
}

#[test]
fn test_get_mac_address() {
    let resources = get_device_resource();
    assert_eq!(resources.get_mac_address().unwrap(), MAC_ADDRESS);
}

#[test]
fn test_get_kvm_slot() {
    let resources = get_device_resource();
    assert_eq!(resources.get_kvm_mem_slots(), vec![KVM_SLOT_ID]);
}

#[test]
fn test_get_all_resources() {
    let resources = get_device_resource();
    assert_eq!(resources.get_all_resources().len(), 8);
}

#[test]
fn test_resource_constraint() {
    if let ResourceConstraint::PioAddress { range, align, size } = ResourceConstraint::new_pio(2) {
        assert_eq!(range, None);
        assert_eq!(align, 1);
        assert_eq!(size, 2);
    } else {
        panic!("Pio resource constraint is invalid.");
    }

    if let ResourceConstraint::PioAddress { range, align, size } =
        ResourceConstraint::pio_with_constraints(2, Some((15, 16)), 2)
    {
        assert_eq!(range, Some((15, 16)));
        assert_eq!(align, 2);
        assert_eq!(size, 2);
    } else {
        panic!("Pio resource constraint is invalid.");
    }

    if let ResourceConstraint::MmioAddress { range, align, size } =
        ResourceConstraint::new_mmio(0x2000)
    {
        assert_eq!(range, None);
        assert_eq!(align, 0x1000);
        assert_eq!(size, 0x2000);
    } else {
        panic!("Mmio resource constraint is invalid.");
    }

    if let ResourceConstraint::MmioAddress { range, align, size } =
        ResourceConstraint::mmio_with_constraints(0x2000, Some((0x0, 0x2000)), 0x2000)
    {
        assert_eq!(range, Some((0x0, 0x2000)));
        assert_eq!(align, 0x2000);
        assert_eq!(size, 0x2000);
    } else {
        panic!("Mmio resource constraint is invalid.");
    }

    if let ResourceConstraint::LegacyIrq { irq } = ResourceConstraint::new_legacy_irq(Some(0x123)) {
        assert_eq!(irq, Some(0x123));
    } else {
        panic!("IRQ resource constraint is invalid.");
    }

    if let ResourceConstraint::KvmMemSlot { slot, size } =
        ResourceConstraint::new_kvm_mem_slot(0x1000, Some(0x2000))
    {
        assert_eq!(slot, Some(0x2000));
        assert_eq!(size, 0x1000);
    } else {
        panic!("KVM slot resource constraint is invalid.");
    }
}

#[test]
fn queries_keep_order_and_take_the_first() {
    let mut res = DeviceResources::new();
    res.append(Resource::PioAddressRange { base: 1, size: 2 });
    res.append(Resource::LegacyIrq(5));
    res.append(Resource::PioAddressRange { base: 3, size: 4 });
    res.append(Resource::LegacyIrq(6));
    res.append(Resource::KvmMemSlot(9));
    res.append(Resource::KvmMemSlot(8));
    res.append(Resource::MacAddresss("a".to_string()));
    res.append(Resource::MacAddresss("b".to_string()));
    res.append(Resource::MsiIrq { ty: MsiIrqType::PciMsix, base: 1, size: 1 });
    res.append(Resource::MsiIrq { ty: MsiIrqType::PciMsix, base: 2, size: 2 });
    assert_eq!(res.get_pio_address_ranges(), vec![(1, 2), (3, 4)]);
    assert_eq!(res.get_legacy_irq(), Some(5));
    assert_eq!(res.get_kvm_mem_slots(), vec![9, 8]);
    assert_eq!(res.get_mac_address(), Some("a".to_string()));
    assert_eq!(res.get_pci_msix_irqs(), Some((1, 1)));
    assert_eq!(res.get_pci_msi_irqs(), None);
    assert!(res.get_mmio_address_ranges().is_empty());
}

#[test]
fn empty_resources_answer_nothing() {
    let res = DeviceResources::new();
    assert!(res.get_pio_address_ranges().is_empty());
    assert_eq!(res.get_legacy_irq(), None);
    assert_eq!(res.get_generic_msi_irqs(), None);
    assert_eq!(res.get_mac_address(), None);
    assert_eq!(res.get_all_resources().len(), 0);
}
