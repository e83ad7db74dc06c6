//! PCI configuration space: addresses, register layout and enumeration.
use vstd::prelude::*;

pub mod types;
pub mod device_address;
pub mod bus_iterator;
pub mod discovery;

use crate::device::DeviceId;

pub use bus_iterator::PciBusIterator;
pub use discovery::{PciBusDiscovery, PendingRead};
pub use types::{DeviceKind, PciDeviceKind, PciDisplaySubclassKind, PciStorageSubclassKind};
pub use device_address::{
    PciBridgeType, PciDeviceAddress, PciDeviceRegister, PciError, PciHeaderType,
};


verus! {

/// One memory-mapped configuration region of the firmware's region table:
/// the base address that serves a PCI segment group.
#[derive(Debug, Clone, Copy, PartialEq, Eq, Structural)]
pub struct PciConfigRegion {
    pub segment: u16,
    pub base_address: u64,
}

/// The base address that the first region for `segment` gives, if any.
pub open spec fn base_address_of(regions: Seq<PciConfigRegion>, segment: u16) -> Option<u64> {
    if exists|i: int| 0 <= i < regions.len() && regions[i].segment == segment {
        let i = choose|i: int|
            0 <= i < regions.len() && regions[i].segment == segment && forall|j: int|
                0 <= j < i ==> regions[j].segment != segment;
        Some(regions[i].base_address)
    } else {
        None
    }
}

/// The base address registered for `segment`: that of the first region
/// for it, or `None` where no region serves it.
pub fn base_address_for_segment(regions: &Vec<PciConfigRegion>, segment: u16) -> (r: Option<u64>)
    ensures
        r matches Some(b) ==> exists|i: int|
            0 <= i < regions@.len() && regions@[i].segment == segment && regions@[i].base_address == b
                && forall|j: int| 0 <= j < i ==> regions@[j].segment != segment,
        r is None <==> forall|i: int| 0 <= i < regions@.len() ==> regions@[i].segment != segment,
{
    let mut k: usize = 0;
    while k < regions.len()
        invariant
            k <= regions@.len(),
            forall|j: int| 0 <= j < k ==> regions@[j].segment != segment,
        decreases regions@.len() - k,
    {
        if regions[k].segment == segment {
            return Some(regions[k].base_address);
        }
        k = k + 1;
    }
    None
}

/// The first-match characterisation of a lookup result agrees with
/// `base_address_of`.
pub(crate) proof fn lemma_base_address_of(regions: Seq<PciConfigRegion>, segment: u16, r: Option<u64>)
    requires
        r matches Some(b) ==> exists|i: int|
            0 <= i < regions.len() && regions[i].segment == segment && regions[i].base_address == b
                && forall|j: int| 0 <= j < i ==> regions[j].segment != segment,
        r is None <==> forall|i: int| 0 <= i < regions.len() ==> regions[i].segment != segment,
    ensures
        r == base_address_of(regions, segment),
{
    if let Some(b) = r {
        let i = choose|i: int|
            0 <= i < regions.len() && regions[i].segment == segment && regions[i].base_address == b
                && forall|j: int| 0 <= j < i ==> regions[j].segment != segment;
        let k = choose|k: int|
            0 <= k < regions.len() && regions[k].segment == segment && forall|j: int|
                0 <= j < k ==> regions[j].segment != segment;
        assert(k == i) by {
            if k < i {
                assert(regions[k].segment != segment);
            } else if i < k {
                assert(regions[i].segment != segment);
            }
        }
    }
}

/// Discoveries of bus 0 of every configuration region, with no parent:
/// the start of the PCI scan.
pub fn discover(regions: &Vec<PciConfigRegion>) -> (r: Vec<PciBusDiscovery>)
    ensures
        r@.len() == regions@.len(),
        forall|i: int|
            0 <= i < r@.len() ==> {
                let d = #[trigger] r@[i];
                &&& d.wf()
                &&& d.base_address == regions@[i].base_address
                &&& d.segment == regions@[i].segment
                &&& d.stack@ == seq![
                    (PciBusIterator::new_spec(regions@[i].base_address, regions@[i].segment, 0), None::<DeviceId>),
                ]
                &&& d.pending is None
            },
{
    let mut out: Vec<PciBusDiscovery> = Vec::new();
    let mut i: usize = 0;
    while i < regions.len()
        invariant
            i <= regions@.len(),
            out@.len() == i,
            forall|j: int|
                0 <= j < i ==> {
                    let d = #[trigger] out@[j];
                    &&& d.wf()
                    &&& d.base_address == regions@[j].base_address
                    &&& d.segment == regions@[j].segment
                    &&& d.stack@ == seq![
                        (PciBusIterator::new_spec(regions@[j].base_address, regions@[j].segment, 0), None::<DeviceId>),
                    ]
                    &&& d.pending is None
                },
        decreases regions@.len() - i,
    {
        let region = regions[i];
        out.push(discover_pci_bus(region.base_address, region.segment, 0, None));
        i = i + 1;
    }
    out
}

/// The discovery of bus `bus` whose functions are registered under `parent`.
pub fn discover_pci_bus(base_address: u64, segment: u16, bus: u8, parent: Option<DeviceId>) -> (r: PciBusDiscovery)
    ensures
        r.wf(),
        r.base_address == base_address,
        r.segment == segment,
        r.stack@ == seq![(PciBusIterator::new_spec(base_address, segment, bus), parent)],
        r.pending is None,
        forall|b: int| 0 <= b < discovery::BUS_COUNT ==> r.visited@[b] == (b == bus),
{
    PciBusDiscovery::new(base_address, segment, bus, parent)
}

} // verus!
