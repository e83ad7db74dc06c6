//! Addresses of PCI functions and the layout of their configuration header.
use vstd::prelude::*;

use super::types::{pci_kind_of, PciDeviceKind};

verus! {

/// The two kinds of bridge a header can describe.
#[derive(Debug, Clone, Copy, PartialEq, Eq, Structural)]
pub enum PciBridgeType {
    PciToPciBridge,
    PciToCardbusBridge,
}

/// The named registers of the configuration header. Several offsets are
/// shared by the standard and the bridge layout with different meanings;
/// the caller picks the layout that matches the device's header type.
#[derive(Debug, Clone, Copy, PartialEq, Eq, Structural)]
pub enum PciDeviceRegister {
    // Common header, all layouts.
    VendorID,
    DeviceID,
    Command,
    Status,
    RevisionID,
    ProgIF,
    Subclass,
    ClassCode,
    CacheLineSize,
    LatencyTimer,
    HeaderType,
    BuiltInSelfTest,

    // Type 0: standard header.
    BaseRegister0,
    BaseRegister1,
    BaseRegister2,
    BaseRegister3,
    BaseRegister4,
    BaseRegister5,
    CardbusCISPointer,
    SubsystemVendorID,
    SubsystemID,
    ExpansionROMBaseAddress,
    CapabilitiesPointer,
    InterruptLine,
    InterruptPIN,
    MinGrant,
    MaxLatency,

    // Type 1: PCI-to-PCI bridge header. Base registers 0 and 1, the
    // capabilities pointer and the interrupt line and pin sit where the
    // standard header has them.
    PrimaryBusNumber,
    SecondaryBusNumber,
    SubordinateBusNumber,
    SecondaryLatencyTimer,
    IOBase,
    IOLimit,
    SecondaryStatus,
    MemoryBase,
    MemoryLimit,
    PrefetchableMemoryBase,
    PrefetchableMemoryLimit,
    PrefetchableBaseUpper32Bits,
    PrefetchableLimitUpper32Bits,
    IOBaseUpper16Bits,
    IOLimitUpper16Bits,
    BridgeExpansionROMBaseAddress,
    BridgeControl,
}

/// Byte offset and byte width of each register.
pub open spec fn register_layout(register: PciDeviceRegister) -> (u8, u8) {
    match register {
        PciDeviceRegister::VendorID => (0x00, 2),
        PciDeviceRegister::DeviceID => (0x02, 2),
        PciDeviceRegister::Command => (0x04, 2),
        PciDeviceRegister::Status => (0x06, 2),
        PciDeviceRegister::RevisionID => (0x08, 1),
        PciDeviceRegister::ProgIF => (0x09, 1),
        PciDeviceRegister::Subclass => (0x0A, 1),
        PciDeviceRegister::ClassCode => (0x0B, 1),
        PciDeviceRegister::CacheLineSize => (0x0C, 1),
        PciDeviceRegister::LatencyTimer => (0x0D, 1),
        PciDeviceRegister::HeaderType => (0x0E, 1),
        PciDeviceRegister::BuiltInSelfTest => (0x0F, 1),
        PciDeviceRegister::BaseRegister0 => (0x10, 4),
        PciDeviceRegister::BaseRegister1 => (0x14, 4),
        PciDeviceRegister::BaseRegister2 => (0x18, 4),
        PciDeviceRegister::BaseRegister3 => (0x1C, 4),
        PciDeviceRegister::BaseRegister4 => (0x20, 4),
        PciDeviceRegister::BaseRegister5 => (0x24, 4),
        PciDeviceRegister::CardbusCISPointer => (0x28, 4),
        PciDeviceRegister::SubsystemVendorID => (0x2C, 2),
        PciDeviceRegister::SubsystemID => (0x2E, 2),
        PciDeviceRegister::ExpansionROMBaseAddress => (0x30, 4),
        PciDeviceRegister::CapabilitiesPointer => (0x34, 1),
        PciDeviceRegister::InterruptLine => (0x3C, 1),
        PciDeviceRegister::InterruptPIN => (0x3D, 1),
        PciDeviceRegister::MinGrant => (0x3E, 1),
        PciDeviceRegister::MaxLatency => (0x3F, 1),
        PciDeviceRegister::PrimaryBusNumber => (0x18, 1),
        PciDeviceRegister::SecondaryBusNumber => (0x19, 1),
        PciDeviceRegister::SubordinateBusNumber => (0x1A, 1),
        PciDeviceRegister::SecondaryLatencyTimer => (0x1B, 1),
        PciDeviceRegister::IOBase => (0x1C, 1),
        PciDeviceRegister::IOLimit => (0x1D, 1),
        PciDeviceRegister::SecondaryStatus => (0x1E, 2),
        PciDeviceRegister::MemoryBase => (0x20, 2),
        PciDeviceRegister::MemoryLimit => (0x22, 2),
        PciDeviceRegister::PrefetchableMemoryBase => (0x24, 2),
        PciDeviceRegister::PrefetchableMemoryLimit => (0x26, 2),
        PciDeviceRegister::PrefetchableBaseUpper32Bits => (0x28, 4),
        PciDeviceRegister::PrefetchableLimitUpper32Bits => (0x2C, 4),
        PciDeviceRegister::IOBaseUpper16Bits => (0x30, 2),
        PciDeviceRegister::IOLimitUpper16Bits => (0x32, 2),
        PciDeviceRegister::BridgeExpansionROMBaseAddress => (0x38, 4),
        PciDeviceRegister::BridgeControl => (0x3E, 2),
    }
}

impl PciDeviceRegister {
    pub open spec fn spec_offset(self) -> u8 {
        register_layout(self).0
    }

    pub open spec fn spec_width(self) -> u8 {
        register_layout(self).1
    }

    /// Offset and width, looked up in the layout table.
    pub fn layout(&self) -> (r: (u8, u8))
        ensures
            r == register_layout(*self),
    {
        match self {
            PciDeviceRegister::VendorID => (0x00, 2),
            PciDeviceRegister::DeviceID => (0x02, 2),
            PciDeviceRegister::Command => (0x04, 2),
            PciDeviceRegister::Status => (0x06, 2),
            PciDeviceRegister::RevisionID => (0x08, 1),
            PciDeviceRegister::ProgIF => (0x09, 1),
            PciDeviceRegister::Subclass => (0x0A, 1),
            PciDeviceRegister::ClassCode => (0x0B, 1),
            PciDeviceRegister::CacheLineSize => (0x0C, 1),
            PciDeviceRegister::LatencyTimer => (0x0D, 1),
            PciDeviceRegister::HeaderType => (0x0E, 1),
            PciDeviceRegister::BuiltInSelfTest => (0x0F, 1),
            PciDeviceRegister::BaseRegister0 => (0x10, 4),
            PciDeviceRegister::BaseRegister1 => (0x14, 4),
            PciDeviceRegister::BaseRegister2 => (0x18, 4),
            PciDeviceRegister::BaseRegister3 => (0x1C, 4),
            PciDeviceRegister::BaseRegister4 => (0x20, 4),
            PciDeviceRegister::BaseRegister5 => (0x24, 4),
            PciDeviceRegister::CardbusCISPointer => (0x28, 4),
            PciDeviceRegister::SubsystemVendorID => (0x2C, 2),
            PciDeviceRegister::SubsystemID => (0x2E, 2),
            PciDeviceRegister::ExpansionROMBaseAddress => (0x30, 4),
            PciDeviceRegister::CapabilitiesPointer => (0x34, 1),
            PciDeviceRegister::InterruptLine => (0x3C, 1),
            PciDeviceRegister::InterruptPIN => (0x3D, 1),
            PciDeviceRegister::MinGrant => (0x3E, 1),
            PciDeviceRegister::MaxLatency => (0x3F, 1),
            PciDeviceRegister::PrimaryBusNumber => (0x18, 1),
            PciDeviceRegister::SecondaryBusNumber => (0x19, 1),
            PciDeviceRegister::SubordinateBusNumber => (0x1A, 1),
            PciDeviceRegister::SecondaryLatencyTimer => (0x1B, 1),
            PciDeviceRegister::IOBase => (0x1C, 1),
            PciDeviceRegister::IOLimit => (0x1D, 1),
            PciDeviceRegister::SecondaryStatus => (0x1E, 2),
            PciDeviceRegister::MemoryBase => (0x20, 2),
            PciDeviceRegister::MemoryLimit => (0x22, 2),
            PciDeviceRegister::PrefetchableMemoryBase => (0x24, 2),
            PciDeviceRegister::PrefetchableMemoryLimit => (0x26, 2),
            PciDeviceRegister::PrefetchableBaseUpper32Bits => (0x28, 4),
            PciDeviceRegister::PrefetchableLimitUpper32Bits => (0x2C, 4),
            PciDeviceRegister::IOBaseUpper16Bits => (0x30, 2),
            PciDeviceRegister::IOLimitUpper16Bits => (0x32, 2),
            PciDeviceRegister::BridgeExpansionROMBaseAddress => (0x38, 4),
            PciDeviceRegister::BridgeControl => (0x3E, 2),
        }
    }

    /// Byte offset of the register within the function's configuration space.
    pub fn offset(&self) -> (r: u8)
        ensures
            r == self.spec_offset(),
            r < 0x40,
    {
        self.layout().0
    }

    /// Width of the register in bytes.
    pub fn width(&self) -> (r: u8)
        ensures
            r == self.spec_width(),
            r == 1 || r == 2 || r == 4,
    {
        self.layout().1
    }
}

/// Layout of the configuration header, from the low bits of Header-Type.
#[derive(Debug, Clone, Copy, PartialEq, Eq, Structural)]
pub enum PciHeaderType {
    Standard,
    PciToPciBridge,
    PciToCardbusBridge,
}

/// Failures of the configuration-space codec.
#[derive(Debug, Clone, Copy, PartialEq, Eq, Structural)]
pub enum PciError {
    /// A register was read with a width other than its declared one.
    RegisterWidthMismatch,
    /// The layout bits of Header-Type name no known layout.
    UnsupportedHeaderType,
}

/// The Vendor-ID that configuration space reads where no device answers.
pub const NO_DEVICE_VENDOR_ID: u16 = 0xFFFF;

/// Header-Type bit that marks a device with more than one function.
pub const MULTIFUNCTION_BIT: u8 = 0x80;

/// Header-Type bits that select the header layout.
pub const HEADER_LAYOUT_MASK: u8 = 0x7F;

/// The header layout that a Header-Type value names, if any.
pub open spec fn header_type_of(header_type: u8) -> Option<PciHeaderType> {
    let layout = header_type & HEADER_LAYOUT_MASK;
    if layout == 0 {
        Some(PciHeaderType::Standard)
    } else if layout == 1 {
        Some(PciHeaderType::PciToPciBridge)
    } else if layout == 2 {
        Some(PciHeaderType::PciToCardbusBridge)
    } else {
        None
    }
}

/// Location of one PCI function in configuration space. The base address
/// of the segment's memory-mapped configuration region is carried along;
/// segment, bus, slot and function are the function's logical identity.
#[derive(Debug, Clone, Copy, PartialEq, Eq, Structural, Hash)]
pub struct PciDeviceAddress {
    pub base_address: u64,
    pub segment: u16,
    pub bus: u8,
    pub slot: u8,
    pub function: u8,
}

/// Physical address of a register under the enhanced configuration
/// access mechanism.
pub open spec fn physical_address_of(address: PciDeviceAddress, register: PciDeviceRegister) -> int {
    address.base_address + address.bus * 0x10_0000 + address.slot * 0x8000 + address.function * 0x1000
        + register.spec_offset()
}

impl PciDeviceAddress {
    pub fn new(base_address: u64, segment: u16, bus: u8, slot: u8, function: u8) -> (r: Self)
        ensures
            r == (PciDeviceAddress { base_address, segment, bus, slot, function }),
    {
        PciDeviceAddress { base_address, segment, bus, slot, function }
    }

    /// The same slot's function 0.
    pub fn slot_root(&self) -> (r: PciDeviceAddress)
        ensures
            r == (PciDeviceAddress { function: 0, ..*self }),
    {
        PciDeviceAddress::new(self.base_address, self.segment, self.bus, self.slot, 0)
    }

    /// The address as a tuple of its five fields, in lineage order.
    pub open spec fn key(self) -> (u64, u16, u8, u8, u8) {
        (self.base_address, self.segment, self.bus, self.slot, self.function)
    }

    /// Physical address of `register` of this function:
    /// `base + (bus << 20) + (slot << 15) + (function << 12) + offset`.
    pub fn physical_address(&self, register: PciDeviceRegister) -> (r: u64)
        requires
            physical_address_of(*self, register) <= u64::MAX,
        ensures
            r == physical_address_of(*self, register),
    {
        let bus = (self.bus as u64) * 0x10_0000;
        let slot = (self.slot as u64) * 0x8000;
        let function = (self.function as u64) * 0x1000;
        self.base_address + bus + slot + function + (register.offset() as u64)
    }

    /// Whether the physical address of `register` of this function fits in
    /// 64 bits.
    pub fn is_addressable(&self, register: PciDeviceRegister) -> (r: bool)
        ensures
            r == (physical_address_of(*self, register) <= u64::MAX),
    {
        let within = (self.bus as u64) * 0x10_0000 + (self.slot as u64) * 0x8000 + (self.function as u64) * 0x1000
            + (register.offset() as u64);
        self.base_address <= u64::MAX - within
    }

    /// Physical address at which `register` is read `width` bytes wide.
    /// A width other than the register's own is a programming error and
    /// is refused rather than truncated.
    pub fn register_address(&self, register: PciDeviceRegister, width: usize) -> (r: Result<u64, PciError>)
        requires
            physical_address_of(*self, register) <= u64::MAX,
        ensures
            width == register.spec_width() ==> r == Ok::<u64, PciError>(physical_address_of(*self, register) as u64),
            width != register.spec_width() ==> r == Err::<u64, PciError>(PciError::RegisterWidthMismatch),
    {
        if width != register.width() as usize {
            return Err(PciError::RegisterWidthMismatch);
        }
        Ok(self.physical_address(register))
    }

    /// Whether a function answers, from its Vendor-ID register.
    pub fn is_valid_device(vendor_id: u16) -> (r: bool)
        ensures
            r == (vendor_id != NO_DEVICE_VENDOR_ID),
    {
        vendor_id != NO_DEVICE_VENDOR_ID
    }

    /// The header layout named by a Header-Type register value.
    pub fn header_type(header_type: u8) -> (r: Result<PciHeaderType, PciError>)
        ensures
            header_type_of(header_type) matches Some(t) ==> r == Ok::<PciHeaderType, PciError>(t),
            header_type_of(header_type) is None ==> r == Err::<PciHeaderType, PciError>(PciError::UnsupportedHeaderType),
    {
        let layout = header_type & HEADER_LAYOUT_MASK;
        if layout == 0 {
            Ok(PciHeaderType::Standard)
        } else if layout == 1 {
            Ok(PciHeaderType::PciToPciBridge)
        } else if layout == 2 {
            Ok(PciHeaderType::PciToCardbusBridge)
        } else {
            Err(PciError::UnsupportedHeaderType)
        }
    }

    /// Whether a Header-Type value read at function 0 marks the slot as
    /// multifunction (bit 7).
    pub fn is_multifunction(header_type: u8) -> (r: bool)
        ensures
            r == (header_type & MULTIFUNCTION_BIT != 0),
    {
        header_type & MULTIFUNCTION_BIT != 0
    }

    /// The device kind named by the Class-Code and Subclass registers.
    pub fn kind(class_code: u8, subclass: u8) -> (r: Option<PciDeviceKind>)
        ensures
            r == pci_kind_of(class_code, subclass),
    {
        PciDeviceKind::from_codes(class_code, subclass)
    }
}

} // verus!
