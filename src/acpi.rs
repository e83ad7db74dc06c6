//! Firmware-namespace addresses and their resolution to PCI addresses.
use vstd::prelude::*;

use crate::pci::{base_address_for_segment, base_address_of, PciConfigRegion, PciDeviceAddress};

verus! {

/// An absolute, canonical path into the firmware namespace, such as
/// `\_SB_.PCI0.LID0`. Two addresses are the same device location exactly
/// when their text is the same.
#[derive(Debug, Hash)]
pub struct AcpiDeviceAddress {
    path: String,
}

impl View for AcpiDeviceAddress {
    type V = Seq<char>;

    closed spec fn view(&self) -> Seq<char> {
        self.path@
    }
}

/// The canonical path of the namespace's root PCI host bridge.
pub open spec fn pci_root_path() -> Seq<char> {
    seq!['\\', '_', 'S', 'B', '_', '.', 'P', 'C', 'I', '0']
}

impl AcpiDeviceAddress {
    /// The address whose text is `path`.
    pub closed spec fn from_path(path: String) -> AcpiDeviceAddress {
        AcpiDeviceAddress { path }
    }

    /// Wraps the canonical text of a namespace path.
    pub fn new(path: String) -> (r: AcpiDeviceAddress)
        ensures
            r@ == path@,
            r == Self::from_path(path),
    {
        AcpiDeviceAddress { path }
    }

    /// The canonical text.
    pub fn as_str(&self) -> (r: &str)
        ensures
            r@ == self@,
    {
        self.path.as_str()
    }

    /// The text, borrowed.
    pub fn as_string(&self) -> (r: &String)
        ensures
            r@ == self@,
    {
        &self.path
    }

    /// The text as an owned string.
    pub fn to_text(&self) -> (r: String)
        ensures
            r@ == self@,
            Self::from_path(r) == *self,
    {
        self.path.clone()
    }

    /// Whether this is the root PCI host bridge, `\_SB_.PCI0`.
    pub fn is_pci_root(&self) -> (r: bool)
        ensures
            r == (self@ == pci_root_path()),
    {
        let root = "\\_SB_.PCI0".to_owned();
        proof {
            reveal_strlit("\\_SB_.PCI0");
            assert(root@ =~= pci_root_path());
        }
        self.path == root
    }
}

impl Clone for AcpiDeviceAddress {
    fn clone(&self) -> (r: Self)
        ensures
            r == *self,
    {
        AcpiDeviceAddress { path: self.path.clone() }
    }
}

impl PartialEq for AcpiDeviceAddress {
    fn eq(&self, other: &AcpiDeviceAddress) -> (r: bool) {
        self.path == other.path
    }
}

impl vstd::std_specs::cmp::PartialEqSpecImpl for AcpiDeviceAddress {
    open spec fn obeys_eq_spec() -> bool {
        true
    }

    open spec fn eq_spec(&self, other: &AcpiDeviceAddress) -> bool {
        self@ == other@
    }
}

impl Eq for AcpiDeviceAddress {
}

/// The PCI address that firmware objects give for a device: `_SEG`
/// (segment, 0 when absent), `_BBN` (bus, 0 when absent) and `_ADR`
/// (slot in bits 16 to 31, function in bits 0 to 7). Fails without `_ADR`
/// or without a configuration region for the segment.
pub open spec fn resolved_address(
    seg: Option<u64>,
    bbn: Option<u64>,
    adr: Option<u64>,
    regions: Seq<PciConfigRegion>,
) -> Option<PciDeviceAddress> {
    let segment = match seg {
        Some(s) => (s % 0x1_0000) as u16,
        None => 0u16,
    };
    let bus = match bbn {
        Some(b) => (b % 0x100) as u8,
        None => 0u8,
    };
    match (adr, base_address_of(regions, segment)) {
        (Some(a), Some(base)) => Some(
            PciDeviceAddress {
                base_address: base,
                segment,
                bus,
                slot: ((a / 0x1_0000) % 0x100) as u8,
                function: (a % 0x100) as u8,
            },
        ),
        _ => None,
    }
}

/// Resolves a firmware device to its PCI address from the integer
/// values of its `_SEG`, `_BBN` and `_ADR` objects, each `None` where the
/// object is absent, and the configuration region table.
pub fn pci_address_for_acpi_address(
    seg: Option<u64>,
    bbn: Option<u64>,
    adr: Option<u64>,
    regions: &Vec<PciConfigRegion>,
) -> (r: Option<PciDeviceAddress>)
    ensures
        r == resolved_address(seg, bbn, adr, regions@),
{
    let segment: u16 = match seg {
        Some(s) => (s % 0x1_0000) as u16,
        None => 0,
    };
    let bus: u8 = match bbn {
        Some(b) => (b % 0x100) as u8,
        None => 0,
    };
    let a = match adr {
        Some(a) => a,
        None => return None,
    };
    let base = base_address_for_segment(regions, segment);
    proof {
        crate::pci::lemma_base_address_of(regions@, segment, base);
    }
    match base {
        Some(base) => Some(
            PciDeviceAddress::new(base, segment, bus, ((a / 0x1_0000) % 0x100) as u8, (a % 0x100) as u8),
        ),
        None => None,
    }
}

} // verus!
