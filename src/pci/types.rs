//! The device taxonomy and the class/subclass lookup table.
use vstd::prelude::*;

verus! {

/// What a device is, as far as the kernel can tell.
#[derive(Debug, Clone, Copy, PartialEq, Eq, Structural)]
pub enum DeviceKind {
    /// No evidence matched a known kind.
    Unknown,
    /// A hardware address was given but nothing answers there.
    Invalid,
    /// The root PCI host bridge of the firmware namespace.
    PciBus,
    /// A PCI function, classified by its class and subclass codes.
    PciDevice(PciDeviceKind),
    /// A PS/2-compatible keyboard controller.
    PcKeyboard,
}

#[derive(Debug, Clone, Copy, PartialEq, Eq, Structural)]
pub enum PciDeviceKind {
    Storage(PciStorageSubclassKind),
    Network,
    Display(PciDisplaySubclassKind),
    Multimedia,
    Memory,
    Bridge,
    SimpleComms,
    BasePeripheral,
    Input,
    Dock,
    Processor,
    SerialBusController,
    Wireless,
}

#[derive(Debug, Clone, Copy, PartialEq, Eq, Structural)]
pub enum PciStorageSubclassKind {
    SCSI,
    IDE,
    Floppy,
    IPI,
    RAID,
    ATA,
    SerialATA,
    SerialAttachedSCSI,
    NVMem,
    Other,
}

#[derive(Debug, Clone, Copy, PartialEq, Eq, Structural)]
pub enum PciDisplaySubclassKind {
    /// VGA-compatible controller.
    VGA,
    XGA,
    ThreeD,
    Other,
}

/// The storage subclass table; `None` for a code outside it.
pub open spec fn storage_subclass_of(subclass: u8) -> Option<PciStorageSubclassKind> {
    if subclass == 0x00 {
        Some(PciStorageSubclassKind::SCSI)
    } else if subclass == 0x01 {
        Some(PciStorageSubclassKind::IDE)
    } else if subclass == 0x02 {
        Some(PciStorageSubclassKind::Floppy)
    } else if subclass == 0x03 {
        Some(PciStorageSubclassKind::IPI)
    } else if subclass == 0x04 {
        Some(PciStorageSubclassKind::RAID)
    } else if subclass == 0x05 {
        Some(PciStorageSubclassKind::ATA)
    } else if subclass == 0x06 {
        Some(PciStorageSubclassKind::SerialATA)
    } else if subclass == 0x07 {
        Some(PciStorageSubclassKind::SerialAttachedSCSI)
    } else if subclass == 0x08 {
        Some(PciStorageSubclassKind::NVMem)
    } else if subclass == 0x80 {
        Some(PciStorageSubclassKind::Other)
    } else {
        None
    }
}

/// The display subclass table; `None` for a code outside it.
pub open spec fn display_subclass_of(subclass: u8) -> Option<PciDisplaySubclassKind> {
    if subclass == 0x00 {
        Some(PciDisplaySubclassKind::VGA)
    } else if subclass == 0x01 {
        Some(PciDisplaySubclassKind::XGA)
    } else if subclass == 0x02 {
        Some(PciDisplaySubclassKind::ThreeD)
    } else if subclass == 0x80 {
        Some(PciDisplaySubclassKind::Other)
    } else {
        None
    }
}

/// The two-level (class, subclass) table; `None` for a combination outside it.
pub open spec fn pci_kind_of(class: u8, subclass: u8) -> Option<PciDeviceKind> {
    if class == 0x01 {
        match storage_subclass_of(subclass) {
            Some(s) => Some(PciDeviceKind::Storage(s)),
            None => None,
        }
    } else if class == 0x02 {
        Some(PciDeviceKind::Network)
    } else if class == 0x03 {
        match display_subclass_of(subclass) {
            Some(d) => Some(PciDeviceKind::Display(d)),
            None => None,
        }
    } else if class == 0x04 {
        Some(PciDeviceKind::Multimedia)
    } else if class == 0x05 {
        Some(PciDeviceKind::Memory)
    } else if class == 0x06 {
        Some(PciDeviceKind::Bridge)
    } else if class == 0x07 {
        Some(PciDeviceKind::SimpleComms)
    } else if class == 0x08 {
        Some(PciDeviceKind::BasePeripheral)
    } else if class == 0x09 {
        Some(PciDeviceKind::Input)
    } else if class == 0x0A {
        Some(PciDeviceKind::Dock)
    } else if class == 0x0B {
        Some(PciDeviceKind::Processor)
    } else if class == 0x0C {
        Some(PciDeviceKind::SerialBusController)
    } else if class == 0x0D {
        Some(PciDeviceKind::Wireless)
    } else {
        None
    }
}

impl PciStorageSubclassKind {
    pub fn from_code(subclass: u8) -> (r: Option<PciStorageSubclassKind>)
        ensures
            r == storage_subclass_of(subclass),
    {
        match subclass {
            0x00 => Some(PciStorageSubclassKind::SCSI),
            0x01 => Some(PciStorageSubclassKind::IDE),
            0x02 => Some(PciStorageSubclassKind::Floppy),
            0x03 => Some(PciStorageSubclassKind::IPI),
            0x04 => Some(PciStorageSubclassKind::RAID),
            0x05 => Some(PciStorageSubclassKind::ATA),
            0x06 => Some(PciStorageSubclassKind::SerialATA),
            0x07 => Some(PciStorageSubclassKind::SerialAttachedSCSI),
            0x08 => Some(PciStorageSubclassKind::NVMem),
            0x80 => Some(PciStorageSubclassKind::Other),
            _ => None,
        }
    }
}

impl PciDisplaySubclassKind {
    pub fn from_code(subclass: u8) -> (r: Option<PciDisplaySubclassKind>)
        ensures
            r == display_subclass_of(subclass),
    {
        match subclass {
            0x00 => Some(PciDisplaySubclassKind::VGA),
            0x01 => Some(PciDisplaySubclassKind::XGA),
            0x02 => Some(PciDisplaySubclassKind::ThreeD),
            0x80 => Some(PciDisplaySubclassKind::Other),
            _ => None,
        }
    }
}

impl PciDeviceKind {
    /// Looks a (class, subclass) pair up in the table. A pair outside the
    /// table gives `None`, so that classification never stops enumeration.
    pub fn from_codes(class: u8, subclass: u8) -> (r: Option<PciDeviceKind>)
        ensures
            r == pci_kind_of(class, subclass),
    {
        match class {
            0x01 => match PciStorageSubclassKind::from_code(subclass) {
                Some(s) => Some(PciDeviceKind::Storage(s)),
                None => None,
            },
            0x02 => Some(PciDeviceKind::Network),
            0x03 => match PciDisplaySubclassKind::from_code(subclass) {
                Some(d) => Some(PciDeviceKind::Display(d)),
                None => None,
            },
            0x04 => Some(PciDeviceKind::Multimedia),
            0x05 => Some(PciDeviceKind::Memory),
            0x06 => Some(PciDeviceKind::Bridge),
            0x07 => Some(PciDeviceKind::SimpleComms),
            0x08 => Some(PciDeviceKind::BasePeripheral),
            0x09 => Some(PciDeviceKind::Input),
            0x0A => Some(PciDeviceKind::Dock),
            0x0B => Some(PciDeviceKind::Processor),
            0x0C => Some(PciDeviceKind::SerialBusController),
            0x0D => Some(PciDeviceKind::Wireless),
            _ => None,
        }
    }
}

} // verus!
