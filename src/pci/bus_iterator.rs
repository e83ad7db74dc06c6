//! The walk over one PCI bus. Reading configuration space is left to the
//! caller: the walker names the register it needs next and is handed the
//! value read there, so that every decision of the walk is made here.
use vstd::prelude::*;

use super::device_address::{PciDeviceAddress, PciDeviceRegister, MULTIFUNCTION_BIT, NO_DEVICE_VENDOR_ID};

verus! {

/// Number of slots on a bus that the walk visits.
pub const SLOTS_PER_BUS: u16 = 256;

/// Highest function number of a slot.
pub const MAX_FUNCTION: u8 = 7;

/// Walks the valid functions of one bus: slot by slot from 0, probing
/// function 0 first. A slot whose function 0 is absent is skipped whole;
/// functions 1 to 7 are probed only where function 0's Header-Type has
/// the multifunction bit set.
#[derive(Debug, Clone, Copy, PartialEq, Eq, Structural)]
pub struct PciBusIterator {
    pub base_address: u64,
    pub segment: u16,
    pub bus: u8,
    /// The slot being probed; `SLOTS_PER_BUS` once the walk is over.
    pub slot: u16,
    /// The function being probed.
    pub function: u8,
    /// Whether the Header-Type of function 0 is awaited, rather than a
    /// Vendor-ID.
    pub reading_header: bool,
}

impl PciBusIterator {
    pub open spec fn wf(self) -> bool {
        &&& self.slot <= SLOTS_PER_BUS
        &&& self.function <= MAX_FUNCTION
        &&& self.reading_header ==> self.function == 0
    }

    pub open spec fn is_done(self) -> bool {
        self.slot >= SLOTS_PER_BUS
    }

    /// How far the walk has come: every step moves it forward, and it
    /// stays below `SLOTS_PER_BUS * 16 + 16`, so a walk takes at most that
    /// many steps.
    pub open spec fn position(self) -> int {
        self.slot * 16 + self.function * 2 + if self.reading_header {
            1int
        } else {
            0int
        }
    }

    /// The address being probed.
    pub open spec fn spec_current(self) -> PciDeviceAddress {
        PciDeviceAddress {
            base_address: self.base_address,
            segment: self.segment,
            bus: self.bus,
            slot: self.slot as u8,
            function: self.function,
        }
    }

    /// The same walk moved on to function 0 of the next slot.
    pub open spec fn next_slot(self) -> PciBusIterator {
        PciBusIterator { slot: (self.slot + 1) as u16, function: 0, reading_header: false, ..self }
    }

    /// One step of the walk: the walk after the value `value` was read at
    /// the register `next_read` named, and the address it reports, if any.
    pub open spec fn step(self, value: u16) -> (PciBusIterator, Option<PciDeviceAddress>) {
        if self.reading_header {
            if value & (MULTIFUNCTION_BIT as u16) != 0 {
                (PciBusIterator { function: 1, reading_header: false, ..self }, None)
            } else {
                (self.next_slot(), None)
            }
        } else if self.function == 0 {
            if value == NO_DEVICE_VENDOR_ID {
                (self.next_slot(), None)
            } else {
                (PciBusIterator { reading_header: true, ..self }, Some(self.spec_current()))
            }
        } else {
            let next = if self.function < MAX_FUNCTION {
                PciBusIterator { function: (self.function + 1) as u8, ..self }
            } else {
                self.next_slot()
            };
            if value == NO_DEVICE_VENDOR_ID {
                (next, None)
            } else {
                (next, Some(self.spec_current()))
            }
        }
    }

    /// A walk of bus `bus` that has not begun.
    pub open spec fn new_spec(base_address: u64, segment: u16, bus: u8) -> PciBusIterator {
        PciBusIterator { base_address, segment, bus, slot: 0, function: 0, reading_header: false }
    }

    /// A walk of bus `bus` that has not begun.
    pub fn new(base_address: u64, segment: u16, bus: u8) -> (r: Self)
        ensures
            r == Self::new_spec(base_address, segment, bus),
            r.wf(),
    {
        PciBusIterator { base_address, segment, bus, slot: 0, function: 0, reading_header: false }
    }

    /// The address being probed.
    pub fn current(&self) -> (r: PciDeviceAddress)
        requires
            self.wf(),
            !self.is_done(),
        ensures
            r == self.spec_current(),
    {
        PciDeviceAddress::new(self.base_address, self.segment, self.bus, self.slot as u8, self.function)
    }

    /// The register whose value the walk needs next, or `None` once every
    /// slot has been visited.
    pub fn next_read(&self) -> (r: Option<(PciDeviceAddress, PciDeviceRegister)>)
        requires
            self.wf(),
        ensures
            self.is_done() ==> r is None,
            !self.is_done() && self.reading_header ==> r == Some(
                (self.spec_current(), PciDeviceRegister::HeaderType),
            ),
            !self.is_done() && !self.reading_header ==> r == Some(
                (self.spec_current(), PciDeviceRegister::VendorID),
            ),
    {
        if self.slot >= SLOTS_PER_BUS {
            None
        } else if self.reading_header {
            Some((self.current(), PciDeviceRegister::HeaderType))
        } else {
            Some((self.current(), PciDeviceRegister::VendorID))
        }
    }

    /// Takes the value read at the register `next_read` named (widened to
    /// 16 bits) and moves the walk on. Returns the probed address where it
    /// turned out to be a valid function.
    ///
    /// A function 0 that reads Vendor-ID 0xFFFF is not reported, and the
    /// walk goes straight to the next slot, so that none of the slot's
    /// other functions is probed.
    pub fn advance(&mut self, value: u16) -> (r: Option<PciDeviceAddress>)
        requires
            old(self).wf(),
            !old(self).is_done(),
        ensures
            final(self).wf(),
            (*final(self), r) == old(self).step(value),
            old(self).position() < final(self).position() < SLOTS_PER_BUS * 16 + 16,
    {
        let current = self.current();
        if self.reading_header {
            if value & (MULTIFUNCTION_BIT as u16) != 0 {
                self.function = 1;
            } else {
                self.slot = self.slot + 1;
                self.function = 0;
            }
            self.reading_header = false;
            None
        } else if self.function == 0 {
            if PciDeviceAddress::is_valid_device(value) {
                self.reading_header = true;
                Some(current)
            } else {
                self.slot = self.slot + 1;
                None
            }
        } else {
            if self.function < MAX_FUNCTION {
                self.function = self.function + 1;
            } else {
                self.slot = self.slot + 1;
                self.function = 0;
            }
            if PciDeviceAddress::is_valid_device(value) {
                Some(current)
            } else {
                None
            }
        }
    }
}

/// A slot whose function 0 reads Vendor-ID 0xFFFF is passed over whole:
/// nothing is reported for it and the next register read is function 0's
/// Vendor-ID of the following slot, so functions 1 to 7 are never probed.
pub proof fn lemma_absent_slot_skipped(walk: PciBusIterator)
    requires
        walk.wf(),
        !walk.is_done(),
        !walk.reading_header,
        walk.function == 0,
    ensures
        walk.step(NO_DEVICE_VENDOR_ID).1 is None,
        walk.step(NO_DEVICE_VENDOR_ID).0.slot == walk.slot + 1,
        walk.step(NO_DEVICE_VENDOR_ID).0.function == 0,
        !walk.step(NO_DEVICE_VENDOR_ID).0.reading_header,
{
}

} // verus!
