use panda::acpi::{pci_address_for_acpi_address, AcpiDeviceAddress};
use panda::pci::{PciConfigRegion, PciDeviceAddress};

fn segment_zero() -> Vec<PciConfigRegion> {
    vec![PciConfigRegion { segment: 0, base_address: 0xE000_0000 }]
}

#[test]
fn lid_resolves_from_adr() {
    let resolved = pci_address_for_acpi_address(None, None, Some(0x0002_0000), &segment_zero());
    assert_eq!(resolved, Some(PciDeviceAddress::new(0xE000_0000, 0, 0, 2, 0)));
}

#[test]
fn adr_splits_into_slot_and_function() {
    let resolved = pci_address_for_acpi_address(None, Some(4), Some(0x001F_0003), &segment_zero());
    assert_eq!(resolved, Some(PciDeviceAddress::new(0xE000_0000, 0, 4, 0x1F, 3)));
}

#[test]
fn missing_adr_leaves_device_firmware_only() {
    assert_eq!(pci_address_for_acpi_address(Some(0), Some(0), None, &segment_zero()), None);
}

#[test]
fn segment_without_region_fails() {
    assert_eq!(pci_address_for_acpi_address(Some(1), None, Some(0x0002_0000), &segment_zero()), None);
}

#[test]
fn segment_object_selects_region() {
    let regions = vec![
        PciConfigRegion { segment: 0, base_address: 0xE000_0000 },
        PciConfigRegion { segment: 1, base_address: 0xD000_0000 },
    ];
    assert_eq!(
        pci_address_for_acpi_address(Some(1), Some(0x20), Some(0x0003_0001), &regions),
        Some(PciDeviceAddress::new(0xD000_0000, 1, 0x20, 3, 1))
    );
}

#[test]
fn root_bridge_path_is_recognised() {
    assert!(AcpiDeviceAddress::new("\\_SB_.PCI0".to_string()).is_pci_root());
    assert!(!AcpiDeviceAddress::new("\\_SB_.PCI0.LID0".to_string()).is_pci_root());
    assert!(!AcpiDeviceAddress::new("\\_SB_".to_string()).is_pci_root());
}

#[test]
fn firmware_addresses_compare_by_text() {
    let a = AcpiDeviceAddress::new("\\_SB_.PCI0.LID0".to_string());
    let b = AcpiDeviceAddress::new("\\_SB_.PCI0.LID0".to_string());
    let c = AcpiDeviceAddress::new("\\_SB_.PCI0.LID1".to_string());
    assert!(a == b);
    assert!(a != c);
    assert_eq!(a.as_str(), "\\_SB_.PCI0.LID0");
    assert_eq!(a.clone().to_text(), "\\_SB_.PCI0.LID0".to_string());
}
