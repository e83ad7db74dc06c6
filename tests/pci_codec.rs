use panda::pic::{Irq, PIC_1_OFFSET, PIC_2_OFFSET};
use panda::pci::device_address::{MULTIFUNCTION_BIT, NO_DEVICE_VENDOR_ID};
use panda::pci::{
    base_address_for_segment, PciConfigRegion, PciDeviceAddress, PciDeviceKind, PciDeviceRegister,
    PciDisplaySubclassKind, PciError, PciHeaderType, PciStorageSubclassKind,
};

#[test]
fn vendor_id_read_as_four_bytes_is_refused() {
    let address = PciDeviceAddress::new(0xE000_0000, 0, 0, 2, 0);
    assert_eq!(
        address.register_address(PciDeviceRegister::VendorID, 4),
        Err(PciError::RegisterWidthMismatch)
    );
    assert_eq!(address.register_address(PciDeviceRegister::VendorID, 2), Ok(0xE001_0000));
}

#[test]
fn one_byte_register_read_as_two_is_refused() {
    let address = PciDeviceAddress::new(0, 0, 0, 0, 0);
    assert_eq!(
        address.register_address(PciDeviceRegister::HeaderType, 2),
        Err(PciError::RegisterWidthMismatch)
    );
    assert_eq!(address.register_address(PciDeviceRegister::HeaderType, 1), Ok(0x0E));
}

#[test]
fn physical_address_follows_ecam_layout() {
    let address = PciDeviceAddress::new(0xE000_0000, 0, 1, 2, 3);
    assert_eq!(
        address.physical_address(PciDeviceRegister::HeaderType),
        0xE000_0000 + (1 << 20) + (2 << 15) + (3 << 12) + 0x0E
    );
    assert_eq!(
        address.physical_address(PciDeviceRegister::SecondaryBusNumber),
        0xE000_0000 + (1 << 20) + (2 << 15) + (3 << 12) + 0x19
    );
}

#[test]
fn shared_offsets_differ_by_layout() {
    assert_eq!(PciDeviceRegister::BaseRegister2.offset(), 0x18);
    assert_eq!(PciDeviceRegister::PrimaryBusNumber.offset(), 0x18);
    assert_eq!(PciDeviceRegister::BaseRegister2.width(), 4);
    assert_eq!(PciDeviceRegister::PrimaryBusNumber.width(), 1);
    assert_eq!(PciDeviceRegister::DeviceID.layout(), (0x02, 2));
    assert_eq!(PciDeviceRegister::ClassCode.layout(), (0x0B, 1));
    assert_eq!(PciDeviceRegister::Subclass.layout(), (0x0A, 1));
}

#[test]
fn slot_root_is_function_zero() {
    let address = PciDeviceAddress::new(0x1000, 1, 2, 3, 4);
    assert_eq!(address.slot_root(), PciDeviceAddress::new(0x1000, 1, 2, 3, 0));
}

#[test]
fn vendor_sentinel_means_no_device() {
    assert!(!PciDeviceAddress::is_valid_device(NO_DEVICE_VENDOR_ID));
    assert!(PciDeviceAddress::is_valid_device(0x8086));
}

#[test]
fn header_type_decodes_layout_bits() {
    assert_eq!(PciDeviceAddress::header_type(0x00), Ok(PciHeaderType::Standard));
    assert_eq!(PciDeviceAddress::header_type(0x80), Ok(PciHeaderType::Standard));
    assert_eq!(PciDeviceAddress::header_type(0x01), Ok(PciHeaderType::PciToPciBridge));
    assert_eq!(PciDeviceAddress::header_type(0x81), Ok(PciHeaderType::PciToPciBridge));
    assert_eq!(PciDeviceAddress::header_type(0x02), Ok(PciHeaderType::PciToCardbusBridge));
    assert_eq!(PciDeviceAddress::header_type(0x05), Err(PciError::UnsupportedHeaderType));
    assert_eq!(PciDeviceAddress::header_type(0x7F), Err(PciError::UnsupportedHeaderType));
}

#[test]
fn multifunction_is_bit_seven() {
    assert!(PciDeviceAddress::is_multifunction(MULTIFUNCTION_BIT));
    assert!(PciDeviceAddress::is_multifunction(0x81));
    assert!(!PciDeviceAddress::is_multifunction(0x01));
    assert!(!PciDeviceAddress::is_multifunction(0x7F));
}

#[test]
fn storage_nvm_classifies() {
    assert_eq!(
        PciDeviceAddress::kind(0x01, 0x08),
        Some(PciDeviceKind::Storage(PciStorageSubclassKind::NVMem))
    );
}

#[test]
fn class_table_samples() {
    assert_eq!(
        PciDeviceAddress::kind(0x01, 0x06),
        Some(PciDeviceKind::Storage(PciStorageSubclassKind::SerialATA))
    );
    assert_eq!(
        PciDeviceAddress::kind(0x01, 0x80),
        Some(PciDeviceKind::Storage(PciStorageSubclassKind::Other))
    );
    assert_eq!(
        PciDeviceAddress::kind(0x03, 0x00),
        Some(PciDeviceKind::Display(PciDisplaySubclassKind::VGA))
    );
    assert_eq!(
        PciDeviceAddress::kind(0x03, 0x02),
        Some(PciDeviceKind::Display(PciDisplaySubclassKind::ThreeD))
    );
    assert_eq!(PciDeviceAddress::kind(0x02, 0x00), Some(PciDeviceKind::Network));
    assert_eq!(PciDeviceAddress::kind(0x06, 0x04), Some(PciDeviceKind::Bridge));
    assert_eq!(PciDeviceAddress::kind(0x0C, 0x03), Some(PciDeviceKind::SerialBusController));
    assert_eq!(PciDeviceAddress::kind(0x0D, 0x11), Some(PciDeviceKind::Wireless));
}

#[test]
fn codes_outside_the_table_are_unknown() {
    assert_eq!(PciDeviceAddress::kind(0x00, 0x00), None);
    assert_eq!(PciDeviceAddress::kind(0x01, 0x09), None);
    assert_eq!(PciDeviceAddress::kind(0x03, 0x03), None);
    assert_eq!(PciDeviceAddress::kind(0x0E, 0x00), None);
    assert_eq!(PciDeviceAddress::kind(0xFF, 0xFF), None);
}

#[test]
fn segment_base_is_first_matching_region() {
    let regions = vec![
        PciConfigRegion { segment: 1, base_address: 0x1000 },
        PciConfigRegion { segment: 0, base_address: 0xE000_0000 },
        PciConfigRegion { segment: 0, base_address: 0xF000_0000 },
    ];
    assert_eq!(base_address_for_segment(&regions, 0), Some(0xE000_0000));
    assert_eq!(base_address_for_segment(&regions, 1), Some(0x1000));
    assert_eq!(base_address_for_segment(&regions, 2), None);
    assert_eq!(base_address_for_segment(&Vec::new(), 0), None);
}

#[test]
fn irq_lines_map_past_the_pic_offset() {
    assert_eq!(Irq::Timer.vector(), 0);
    assert_eq!(Irq::Keyboard.vector(), 1);
    assert_eq!(Irq::Timer.interrupt_id(), 0x20);
    assert_eq!(Irq::Keyboard.interrupt_id(), 0x21);
    assert_eq!(PIC_1_OFFSET, 0x20);
    assert_eq!(PIC_2_OFFSET, 0x28);
}
