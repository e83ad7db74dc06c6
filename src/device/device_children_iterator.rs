//! The children a device enumerates: for the root PCI bus, the function 0
//! of each slot from 1 up; for any other device, none.
use vstd::prelude::*;

use crate::pci::{PciDeviceAddress, PciDeviceRegister};
use crate::pci::device_address::NO_DEVICE_VENDOR_ID;

verus! {

/// A scan of the slots below a device. As with the bus walker, the caller
/// reads the register named by `next_read` and hands its value back.
#[derive(Debug, Clone, Copy, PartialEq, Eq, Structural)]
pub enum DeviceChildrenIterator {
    /// A device with no children to enumerate.
    Empty,
    /// The slots of `parent_pci_address`'s bus, from `next_slot` up to 255.
    PCI { parent_pci_address: PciDeviceAddress, next_slot: u16 },
}

impl DeviceChildrenIterator {
    /// The address probed for a slot: function 0 of that slot on the
    /// parent's bus.
    pub open spec fn probe_address(parent: PciDeviceAddress, slot: u16) -> PciDeviceAddress {
        PciDeviceAddress {
            base_address: parent.base_address,
            segment: parent.segment,
            bus: parent.bus,
            slot: slot as u8,
            function: 0,
        }
    }

    pub open spec fn is_done(self) -> bool {
        match self {
            DeviceChildrenIterator::Empty => true,
            DeviceChildrenIterator::PCI { next_slot, .. } => next_slot > 0xFF,
        }
    }

    /// The Vendor-ID register to read next, or `None` when the scan is over.
    pub fn next_read(&self) -> (r: Option<(PciDeviceAddress, PciDeviceRegister)>)
        ensures
            self.is_done() ==> r is None,
            *self matches DeviceChildrenIterator::PCI { parent_pci_address, next_slot } ==> (next_slot <= 0xFF
                ==> r == Some((Self::probe_address(parent_pci_address, next_slot), PciDeviceRegister::VendorID))),
    {
        match self {
            DeviceChildrenIterator::Empty => None,
            DeviceChildrenIterator::PCI { parent_pci_address, next_slot } => {
                if *next_slot > 0xFF {
                    None
                } else {
                    let address = PciDeviceAddress::new(
                        parent_pci_address.base_address,
                        parent_pci_address.segment,
                        parent_pci_address.bus,
                        *next_slot as u8,
                        0,
                    );
                    Some((address, PciDeviceRegister::VendorID))
                }
            },
        }
    }

    /// Takes the Vendor-ID read at the probed slot and moves to the next
    /// slot; returns the probed address where a device answered.
    pub fn advance(&mut self, vendor_id: u16) -> (r: Option<PciDeviceAddress>)
        requires
            !old(self).is_done(),
        ensures
            *old(self) matches DeviceChildrenIterator::PCI { parent_pci_address, next_slot } ==> {
                &&& *final(self) == DeviceChildrenIterator::PCI {
                    parent_pci_address,
                    next_slot: (next_slot + 1) as u16,
                }
                &&& vendor_id == NO_DEVICE_VENDOR_ID ==> r is None
                &&& vendor_id != NO_DEVICE_VENDOR_ID ==> r == Some(
                    Self::probe_address(parent_pci_address, next_slot),
                )
            },
    {
        match self {
            DeviceChildrenIterator::Empty => None,
            DeviceChildrenIterator::PCI { parent_pci_address, next_slot } => {
                let address = PciDeviceAddress::new(
                    parent_pci_address.base_address,
                    parent_pci_address.segment,
                    parent_pci_address.bus,
                    *next_slot as u8,
                    0,
                );
                *next_slot = *next_slot + 1;
                if PciDeviceAddress::is_valid_device(vendor_id) {
                    Some(address)
                } else {
                    None
                }
            },
        }
    }
}

} // verus!
