use std::collections::HashMap;

use panda::device::{DeviceId, DeviceManager};
use panda::pci::{discover, PciBusDiscovery, PciBusIterator, PciConfigRegion, PciDeviceAddress, PciDeviceRegister};

/// A synthetic configuration space: each present function's Vendor-ID,
/// Header-Type and Secondary-Bus-Number, keyed by bus, slot, function.
struct FakeSpace {
    functions: HashMap<(u8, u8, u8), (u16, u8, u8)>,
    reads: Vec<(u8, u8, u8, PciDeviceRegister)>,
}

impl FakeSpace {
    fn new() -> Self {
        FakeSpace { functions: HashMap::new(), reads: Vec::new() }
    }

    fn add(&mut self, bus: u8, slot: u8, function: u8, vendor: u16, header: u8, secondary: u8) {
        self.functions.insert((bus, slot, function), (vendor, header, secondary));
    }

    fn read(&mut self, address: PciDeviceAddress, register: PciDeviceRegister) -> u16 {
        self.reads.push((address.bus, address.slot, address.function, register));
        let entry = self.functions.get(&(address.bus, address.slot, address.function)).copied();
        match (entry, register) {
            (Some((vendor, _, _)), PciDeviceRegister::VendorID) => vendor,
            (Some((_, header, _)), PciDeviceRegister::HeaderType) => header as u16,
            (Some((_, _, secondary)), PciDeviceRegister::SecondaryBusNumber) => secondary as u16,
            (None, PciDeviceRegister::VendorID) => 0xFFFF,
            _ => 0xFF,
        }
    }
}

fn walk_bus(space: &mut FakeSpace, bus: u8) -> Vec<PciDeviceAddress> {
    let mut walk = PciBusIterator::new(0xE000_0000, 0, bus);
    let mut found = Vec::new();
    while let Some((address, register)) = walk.next_read() {
        let value = space.read(address, register);
        if let Some(a) = walk.advance(value) {
            found.push(a);
        }
    }
    found
}

fn run(space: &mut FakeSpace, discovery: &mut PciBusDiscovery, devices: &mut DeviceManager) {
    while let Some((address, register)) = discovery.next_read() {
        let value = space.read(address, register);
        discovery.advance(devices, value);
    }
}

#[test]
fn walk_reports_valid_functions_in_order() {
    let mut space = FakeSpace::new();
    space.add(0, 0, 0, 0x8086, 0x00, 0);
    space.add(0, 3, 0, 0x1234, 0x80, 0);
    space.add(0, 3, 2, 0x1234, 0x00, 0);
    space.add(0, 3, 7, 0x1234, 0x00, 0);
    space.add(0, 255, 0, 0x1AF4, 0x00, 0);
    let found = walk_bus(&mut space, 0);
    let expected: Vec<PciDeviceAddress> = vec![
        PciDeviceAddress::new(0xE000_0000, 0, 0, 0, 0),
        PciDeviceAddress::new(0xE000_0000, 0, 0, 3, 0),
        PciDeviceAddress::new(0xE000_0000, 0, 0, 3, 2),
        PciDeviceAddress::new(0xE000_0000, 0, 0, 3, 7),
        PciDeviceAddress::new(0xE000_0000, 0, 0, 255, 0),
    ];
    assert_eq!(found, expected);
}

#[test]
fn single_function_slot_is_not_probed_further() {
    let mut space = FakeSpace::new();
    space.add(0, 1, 0, 0x8086, 0x00, 0);
    space.add(0, 1, 1, 0x8086, 0x00, 0);
    let found = walk_bus(&mut space, 0);
    assert_eq!(found, vec![PciDeviceAddress::new(0xE000_0000, 0, 0, 1, 0)]);
    assert!(!space.reads.iter().any(|r| r.1 == 1 && r.2 == 1));
}

#[test]
fn absent_slot_is_skipped() {
    let mut space = FakeSpace::new();
    // Function 0 is absent though a later function would answer.
    space.add(0, 4, 1, 0x8086, 0x80, 0);
    let found = walk_bus(&mut space, 0);
    assert!(found.is_empty());
    assert!(!space.reads.iter().any(|r| r.1 == 4 && r.2 != 0));
    assert!(!space.reads.iter().any(|r| r.1 == 4 && r.3 == PciDeviceRegister::HeaderType));
}

#[test]
fn absent_function_zero_step() {
    let mut walk = PciBusIterator::new(0, 0, 0);
    assert_eq!(walk.advance(0xFFFF), None);
    assert_eq!(walk.slot, 1);
    assert_eq!(walk.function, 0);
    assert_eq!(walk.next_read(), Some((PciDeviceAddress::new(0, 0, 0, 1, 0), PciDeviceRegister::VendorID)));
}

#[test]
fn walk_ends_after_last_slot() {
    let mut space = FakeSpace::new();
    let found = walk_bus(&mut space, 5);
    assert!(found.is_empty());
    assert_eq!(space.reads.len(), 256);
}

#[test]
fn bridge_children_get_bridge_as_parent() {
    let mut space = FakeSpace::new();
    space.add(0, 0, 0, 0x8086, 0x00, 0);
    space.add(0, 2, 0, 0x8086, 0x01, 3);
    space.add(3, 1, 0, 0x1AF4, 0x00, 0);
    let mut devices = DeviceManager::new();
    let mut discovery = PciBusDiscovery::new(0xE000_0000, 0, 0, None);
    run(&mut space, &mut discovery, &mut devices);
    let all = devices.all_devices();
    assert_eq!(all.len(), 3);
    let bridge = devices.find_by_pci_address(&PciDeviceAddress::new(0xE000_0000, 0, 0, 2, 0)).unwrap();
    let child = devices.find_by_pci_address(&PciDeviceAddress::new(0xE000_0000, 0, 3, 1, 0)).unwrap();
    assert_eq!(child.parent_id(), Some(bridge.id()));
    assert_eq!(bridge.parent_id(), None);
}

#[test]
fn bridge_loop_is_walked_once() {
    let mut space = FakeSpace::new();
    space.add(0, 1, 0, 0x8086, 0x01, 1);
    space.add(1, 1, 0, 0x8086, 0x01, 0);
    let mut devices = DeviceManager::new();
    let mut discovery = PciBusDiscovery::new(0xE000_0000, 0, 0, None);
    run(&mut space, &mut discovery, &mut devices);
    assert_eq!(devices.len(), 2);
    let second = devices.find_by_pci_address(&PciDeviceAddress::new(0xE000_0000, 0, 1, 1, 0)).unwrap();
    assert_eq!(second.parent_id(), Some(DeviceId::new(0)));
}

#[test]
fn discover_starts_bus_zero_of_each_region() {
    let regions = vec![
        PciConfigRegion { segment: 0, base_address: 0xE000_0000 },
        PciConfigRegion { segment: 1, base_address: 0xD000_0000 },
    ];
    let mut walks = discover(&regions);
    assert_eq!(walks.len(), 2);
    assert_eq!(
        walks[1].next_read(),
        Some((PciDeviceAddress::new(0xD000_0000, 1, 0, 0, 0), PciDeviceRegister::VendorID))
    );
}
