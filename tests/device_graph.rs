use panda::acpi::AcpiDeviceAddress;
use panda::device::{init, Device, DeviceChildrenIterator, DeviceId, DeviceManager, PS2_KEYBOARD_HID};
use panda::pci::{
    DeviceKind, PciConfigRegion, PciDeviceAddress, PciDeviceKind, PciDeviceRegister, PciStorageSubclassKind,
};

fn path(text: &str) -> AcpiDeviceAddress {
    AcpiDeviceAddress::new(text.to_string())
}

fn hw(slot: u8) -> PciDeviceAddress {
    PciDeviceAddress::new(0xE000_0000, 0, 0, slot, 0)
}

#[test]
fn new_manager_is_empty() {
    let devices = init();
    assert_eq!(devices.len(), 0);
    assert!(devices.all_devices().is_empty());
    assert!(devices.get(DeviceId::new(0)).is_none());
}

#[test]
fn identities_increase_from_zero() {
    let mut devices = DeviceManager::new();
    let a = devices.register(Some(path("\\_SB_")), None, None, None);
    let b = devices.register(None, Some(hw(1)), None, None);
    assert_eq!(a.id(), DeviceId::new(0));
    assert_eq!(b.id(), DeviceId::new(1));
    assert_eq!(devices.get(DeviceId::new(1)).unwrap().pci_address(), Some(hw(1)));
}

#[test]
fn same_firmware_address_twice_keeps_one_identity() {
    let mut devices = DeviceManager::new();
    let first = devices.register(Some(path("\\_SB_.PCI0.LID0")), None, None, None);
    let second = devices.register(Some(path("\\_SB_.PCI0.LID0")), None, None, None);
    assert_eq!(first.id(), second.id());
    assert_eq!(devices.len(), 1);
}

#[test]
fn same_hardware_address_twice_keeps_one_identity() {
    let mut devices = DeviceManager::new();
    let first = devices.add_pci_device(hw(3), None);
    let second = devices.add_pci_device(hw(3), Some(DeviceId::new(7)));
    assert_eq!(first, second);
    assert_eq!(devices.len(), 1);
    // A known record keeps its parent, even where it has none.
    assert_eq!(devices.get(first).unwrap().parent_id(), None);
}

#[test]
fn hardware_then_firmware_merges() {
    let mut devices = DeviceManager::new();
    let by_pci = devices.add_pci_device(hw(2), None);
    let regions = vec![PciConfigRegion { segment: 0, base_address: 0xE000_0000 }];
    let by_acpi =
        devices.add_acpi_device(path("\\_SB_.PCI0.LID0"), None, None, Some(0x0002_0000), &regions, None, None);
    assert_eq!(by_pci, by_acpi);
    assert_eq!(devices.len(), 1);
    let record = devices.get(by_pci).unwrap();
    assert_eq!(record.pci_address(), Some(hw(2)));
    assert!(record.acpi_address().as_ref().unwrap() == &path("\\_SB_.PCI0.LID0"));
}

#[test]
fn firmware_then_hardware_merges() {
    let mut devices = DeviceManager::new();
    let regions = vec![PciConfigRegion { segment: 0, base_address: 0xE000_0000 }];
    let by_acpi =
        devices.add_acpi_device(path("\\_SB_.PCI0.LID0"), None, None, Some(0x0002_0000), &regions, None, None);
    let by_pci = devices.add_pci_device(hw(2), None);
    assert_eq!(by_pci, by_acpi);
    assert_eq!(devices.len(), 1);
    let record = devices.get(by_pci).unwrap();
    assert_eq!(record.pci_address(), Some(hw(2)));
    assert!(record.acpi_address().is_some());
}

#[test]
fn unresolved_firmware_device_stays_firmware_only() {
    let mut devices = DeviceManager::new();
    let regions = vec![PciConfigRegion { segment: 0, base_address: 0xE000_0000 }];
    let id = devices.add_acpi_device(path("\\_SB_.PWRB"), None, None, None, &regions, None, None);
    let record = devices.get(id).unwrap();
    assert_eq!(record.pci_address(), None);
    assert!(record.acpi_address().is_some());
}

#[test]
fn parent_found_through_firmware_path() {
    let mut devices = DeviceManager::new();
    let bus = devices.register(Some(path("\\_SB_.PCI0")), Some(hw(0)), None, None);
    let lid = devices.register(Some(path("\\_SB_.PCI0.LID0")), None, None, Some(path("\\_SB_.PCI0")));
    assert_eq!(lid.parent_id(), Some(bus.id()));
    let orphan = devices.register(Some(path("\\_SB_.FOO_.BAR_")), None, None, Some(path("\\_SB_.FOO_")));
    assert_eq!(orphan.parent_id(), None);
    let chosen = devices.register(Some(path("\\_SB_.PCI0.LID1")), None, Some(DeviceId::new(9)), Some(path("\\_SB_.PCI0")));
    assert_eq!(chosen.parent_id(), Some(DeviceId::new(9)));
}

#[test]
fn conflicting_addresses_never_share_an_identity() {
    let mut devices = DeviceManager::new();
    let a = devices.register(Some(path("\\_SB_.A___")), Some(hw(1)), None, None);
    let b = devices.register(Some(path("\\_SB_.B___")), Some(hw(2)), None, None);
    // A path already known with another record's PCI address: the path wins,
    // and the PCI address stays with its own record.
    let c = devices.register(Some(path("\\_SB_.A___")), Some(hw(2)), None, None);
    assert_eq!(c.id(), a.id());
    assert_eq!(c.pci_address(), Some(hw(1)));
    let all = devices.all_devices();
    assert_eq!(all.len(), 2);
    assert_eq!(all[1].id(), b.id());
    assert_eq!(all[1].pci_address(), Some(hw(2)));
    assert_ne!(all[0].pci_address(), all[1].pci_address());
}

#[test]
fn find_by_either_address() {
    let mut devices = DeviceManager::new();
    let d = devices.register(Some(path("\\_SB_.PCI0.GFX0")), Some(hw(2)), None, None);
    assert_eq!(devices.find_by_pci_address(&hw(2)).unwrap().id(), d.id());
    assert_eq!(devices.find_by_acpi_address(&path("\\_SB_.PCI0.GFX0")).unwrap().id(), d.id());
    assert!(devices.find_by_pci_address(&hw(3)).is_none());
    assert!(devices.find_by_acpi_address(&path("\\_SB_.PCI0.GFX1")).is_none());
}

fn record(acpi: Option<&str>, pci: Option<PciDeviceAddress>) -> Device {
    Device { id: DeviceId::new(0), parent_id: None, acpi_address: acpi.map(path), pci_address: pci }
}

#[test]
fn root_bridge_classifies_as_bus() {
    assert_eq!(record(Some("\\_SB_.PCI0"), Some(hw(0))).kind(None, Some((0x8086, 0x06, 0x00))), DeviceKind::PciBus);
}

#[test]
fn keyboard_classifies_by_hid() {
    assert_eq!(record(Some("\\_SB_.PCI0.SF8_.KBD_"), None).kind(Some(PS2_KEYBOARD_HID), None), DeviceKind::PcKeyboard);
    assert_eq!(record(Some("\\_SB_.PCI0.SF8_.KBD_"), None).kind(Some(0x1234), None), DeviceKind::Unknown);
}

#[test]
fn pci_function_classifies_by_codes() {
    assert_eq!(
        record(None, Some(hw(4))).kind(None, Some((0x144D, 0x01, 0x08))),
        DeviceKind::PciDevice(PciDeviceKind::Storage(PciStorageSubclassKind::NVMem))
    );
    assert_eq!(record(None, Some(hw(4))).kind(None, Some((0xFFFF, 0x01, 0x08))), DeviceKind::Invalid);
    assert_eq!(record(None, Some(hw(4))).kind(None, Some((0x144D, 0x42, 0x00))), DeviceKind::Unknown);
    assert_eq!(record(Some("\\_SB_.LNKA"), None).kind(None, None), DeviceKind::Unknown);
}

#[test]
fn root_bus_children_start_at_slot_one() {
    let bus = record(Some("\\_SB_.PCI0"), Some(hw(0)));
    let mut children = bus.children(DeviceKind::PciBus);
    assert_eq!(children, DeviceChildrenIterator::PCI { parent_pci_address: hw(0), next_slot: 1 });
    assert_eq!(children.next_read(), Some((hw(1), PciDeviceRegister::VendorID)));
    assert_eq!(children.advance(0xFFFF), None);
    assert_eq!(children.next_read(), Some((hw(2), PciDeviceRegister::VendorID)));
    assert_eq!(children.advance(0x8086), Some(hw(2)));
    let mut count = 2;
    while children.next_read().is_some() {
        children.advance(0xFFFF);
        count += 1;
    }
    assert_eq!(count, 255);
}

#[test]
fn other_devices_have_no_children() {
    let d = record(None, Some(hw(3)));
    let children = d.children(DeviceKind::PciDevice(PciDeviceKind::Network));
    assert_eq!(children, DeviceChildrenIterator::Empty);
    assert_eq!(children.next_read(), None);
    let bus_without_address = record(Some("\\_SB_.PCI0"), None);
    assert_eq!(bus_without_address.children(DeviceKind::PciBus), DeviceChildrenIterator::Empty);
}

#[test]
fn path_of_a_taken_pci_address_is_not_indexed() {
    let mut devices = DeviceManager::new();
    let first = devices.register(Some(path("\\_SB_.PCI0.SAT0")), Some(hw(5)), None, None);
    // A second path that resolves to the same function lands on the
    // record that holds the function, which keeps its own path.
    let second = devices.register(Some(path("\\_SB_.PCI0.SAT1")), Some(hw(5)), None, None);
    assert_eq!(second.id(), first.id());
    assert!(second.acpi_address().as_ref().unwrap() == &path("\\_SB_.PCI0.SAT0"));
    assert!(devices.find_by_acpi_address(&path("\\_SB_.PCI0.SAT1")).is_none());
    assert_eq!(devices.len(), 1);
}
