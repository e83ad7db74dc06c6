//! Device records and the manager that merges discoveries into one graph.
use vstd::prelude::*;

mod index;
pub mod laws;
pub mod device_children_iterator;

use crate::acpi::{pci_address_for_acpi_address, pci_root_path, resolved_address, AcpiDeviceAddress};
use crate::pci::device_address::NO_DEVICE_VENDOR_ID;
use crate::pci::types::pci_kind_of;
use crate::pci::{DeviceKind, PciConfigRegion, PciDeviceAddress};
pub use device_children_iterator::DeviceChildrenIterator;
use index::{
    acpi_index_contents, acpi_index_get, acpi_index_insert, acpi_index_new, acpi_map_contents, acpi_map_get,
    acpi_map_insert, acpi_map_new, id_set_contains, id_set_contents, id_set_insert, id_set_new,
    parent_map_contents, parent_map_get, parent_map_insert, parent_map_new, pci_index_contents, pci_index_get,
    pci_index_insert, pci_index_new, pci_map_contents, pci_map_get, pci_map_insert, pci_map_new, PciKey,
};

verus! {

/// The identity of one physical device: assigned once, at its first
/// discovery, in increasing order, and never reused.
#[derive(Debug, Clone, Copy, PartialEq, Eq, Structural, Hash, PartialOrd, Ord)]
pub struct DeviceId(pub u64);

impl DeviceId {
    pub fn new(id: u64) -> (r: DeviceId)
        ensures
            r == DeviceId(id),
    {
        DeviceId(id)
    }

    /// The number behind the identity.
    pub fn value(&self) -> (r: u64)
        ensures
            r == self.0,
    {
        self.0
    }
}

/// What the kernel knows of one device: its identity, its parent in the
/// topology if any, and the addresses it was found at. A registered
/// record carries at least one of the two addresses.
#[derive(Debug)]
pub struct Device {
    pub id: DeviceId,
    pub parent_id: Option<DeviceId>,
    pub acpi_address: Option<AcpiDeviceAddress>,
    pub pci_address: Option<PciDeviceAddress>,
}

impl Clone for Device {
    fn clone(&self) -> (r: Self)
        ensures
            r == *self,
    {
        let acpi_address = match &self.acpi_address {
            Some(a) => Some(a.clone()),
            None => None,
        };
        Device { id: self.id, parent_id: self.parent_id, acpi_address, pci_address: self.pci_address }
    }
}

impl Device {
    pub fn id(&self) -> (r: DeviceId)
        ensures
            r == self.id,
    {
        self.id
    }

    pub fn parent_id(&self) -> (r: Option<DeviceId>)
        ensures
            r == self.parent_id,
    {
        self.parent_id
    }

    pub fn acpi_address(&self) -> (r: &Option<AcpiDeviceAddress>)
        ensures
            *r == self.acpi_address,
    {
        &self.acpi_address
    }

    pub fn pci_address(&self) -> (r: Option<PciDeviceAddress>)
        ensures
            r == self.pci_address,
    {
        self.pci_address
    }
}

/// `_HID` of a PS/2-compatible keyboard controller (EISA id PNP0303).
pub const PS2_KEYBOARD_HID: u64 = 0x303D041;

/// What a record is, from its addresses, the integer value of its `_HID`
/// firmware object (if any) and, for a record with a PCI address, the
/// Vendor-ID, Class-Code and Subclass registers read there.
pub open spec fn device_kind_of(d: Device, hid: Option<u64>, registers: Option<(u16, u8, u8)>) -> DeviceKind {
    if d.acpi_address matches Some(a) && a@ == pci_root_path() {
        DeviceKind::PciBus
    } else if d.acpi_address is Some && hid == Some(PS2_KEYBOARD_HID) {
        DeviceKind::PcKeyboard
    } else if d.pci_address is Some {
        match registers {
            Some((vendor_id, class_code, subclass)) => if vendor_id == NO_DEVICE_VENDOR_ID {
                DeviceKind::Invalid
            } else {
                match pci_kind_of(class_code, subclass) {
                    Some(k) => DeviceKind::PciDevice(k),
                    None => DeviceKind::Unknown,
                }
            },
            None => DeviceKind::Unknown,
        }
    } else {
        DeviceKind::Unknown
    }
}

impl Device {
    /// Classifies the record: the root PCI bus by its firmware path, a
    /// keyboard by its `_HID`, a PCI function by its registers. Evidence
    /// that matches nothing known gives `Unknown`; a PCI address where no
    /// device answers gives `Invalid`.
    pub fn kind(&self, hid: Option<u64>, registers: Option<(u16, u8, u8)>) -> (r: DeviceKind)
        ensures
            r == device_kind_of(*self, hid, registers),
    {
        if let Some(a) = &self.acpi_address {
            if a.is_pci_root() {
                return DeviceKind::PciBus;
            }
            if let Some(h) = hid {
                if h == PS2_KEYBOARD_HID {
                    return DeviceKind::PcKeyboard;
                }
            }
        }
        if self.pci_address.is_some() {
            match registers {
                Some((vendor_id, class_code, subclass)) => {
                    if !PciDeviceAddress::is_valid_device(vendor_id) {
                        DeviceKind::Invalid
                    } else {
                        match PciDeviceAddress::kind(class_code, subclass) {
                            Some(k) => DeviceKind::PciDevice(k),
                            None => DeviceKind::Unknown,
                        }
                    }
                },
                None => DeviceKind::Unknown,
            }
        } else {
            DeviceKind::Unknown
        }
    }

    /// The children scan of a record of kind `kind`: a root PCI bus with a
    /// PCI address scans its bus from slot 1 (slot 0 is the bridge's own
    /// host function); every other record has none.
    pub fn children(&self, kind: DeviceKind) -> (r: DeviceChildrenIterator)
        ensures
            kind == DeviceKind::PciBus && self.pci_address is Some ==> r == (DeviceChildrenIterator::PCI {
                parent_pci_address: self.pci_address.unwrap(),
                next_slot: 1,
            }),
            kind != DeviceKind::PciBus || self.pci_address is None ==> r == DeviceChildrenIterator::Empty,
    {
        match kind {
            DeviceKind::PciBus => match self.pci_address {
                Some(parent_pci_address) => DeviceChildrenIterator::PCI { parent_pci_address, next_slot: 1 },
                None => DeviceChildrenIterator::Empty,
            },
            _ => DeviceChildrenIterator::Empty,
        }
    }
}

/// Whether record `d` sits at firmware path `path`.
pub open spec fn at_acpi_path(d: Device, path: Seq<char>) -> bool {
    d.acpi_address matches Some(a) && a@ == path
}

/// Whether record `d` sits at PCI address `a`.
pub open spec fn at_pci_address(d: Device, a: PciDeviceAddress) -> bool {
    d.pci_address == Some(a)
}

/// The records of a consistent device graph: identities are positions,
/// every record has an address, and no address belongs to two records.
pub open spec fn records_wf(rs: Seq<Device>) -> bool {
    &&& rs.len() < u64::MAX
    &&& forall|i: int| 0 <= i < rs.len() ==> (#[trigger] rs[i]).id == DeviceId(i as u64)
    &&& forall|i: int|
        0 <= i < rs.len() ==> (#[trigger] rs[i]).acpi_address is Some || rs[i].pci_address is Some
    &&& forall|i: int, j: int|
        0 <= i < rs.len() && 0 <= j < rs.len() && i != j && (#[trigger] rs[i]).acpi_address is Some
            && (#[trigger] rs[j]).acpi_address is Some ==> rs[i].acpi_address.unwrap()@
            != rs[j].acpi_address.unwrap()@
    &&& forall|i: int, j: int|
        0 <= i < rs.len() && 0 <= j < rs.len() && i != j && (#[trigger] rs[i]).pci_address is Some
            && (#[trigger] rs[j]).pci_address is Some ==> rs[i].pci_address != rs[j].pci_address
}

/// The record that holds firmware path `path`, if any.
pub open spec fn acpi_holder(rs: Seq<Device>, path: Seq<char>) -> Option<int> {
    if exists|i: int| 0 <= i < rs.len() && at_acpi_path(#[trigger] rs[i], path) {
        Some(choose|i: int| 0 <= i < rs.len() && at_acpi_path(#[trigger] rs[i], path))
    } else {
        None
    }
}

/// The record that holds PCI address `a`, if any.
pub open spec fn pci_holder(rs: Seq<Device>, a: PciDeviceAddress) -> Option<int> {
    if exists|i: int| 0 <= i < rs.len() && at_pci_address(#[trigger] rs[i], a) {
        Some(choose|i: int| 0 <= i < rs.len() && at_pci_address(#[trigger] rs[i], a))
    } else {
        None
    }
}

/// The record a registration lands on: the holder of its firmware path,
/// else the holder of its PCI address, else none (a new record).
pub open spec fn register_target(
    rs: Seq<Device>,
    acpi: Option<AcpiDeviceAddress>,
    pci: Option<PciDeviceAddress>,
) -> Option<int> {
    let by_acpi = match acpi {
        Some(a) => acpi_holder(rs, a@),
        None => None,
    };
    if by_acpi is Some {
        by_acpi
    } else {
        match pci {
            Some(p) => pci_holder(rs, p),
            None => None,
        }
    }
}

/// The parent a registration proposes: the one suggested, else the
/// identity already registered at the firmware parent path.
pub open spec fn proposed_parent(
    rs: Seq<Device>,
    suggested: Option<DeviceId>,
    acpi_parent: Option<AcpiDeviceAddress>,
) -> Option<DeviceId> {
    match suggested {
        Some(p) => Some(p),
        None => match acpi_parent {
            Some(a) => match acpi_holder(rs, a@) {
                Some(i) => Some(DeviceId(i as u64)),
                None => None,
            },
            None => None,
        },
    }
}

/// Record `d` after a registration landed on it: each missing address is
/// filled in from the registration, where no other record holds that
/// address; nothing already known is replaced, and the parent stays.
pub open spec fn merged_record(
    rs: Seq<Device>,
    d: Device,
    acpi: Option<AcpiDeviceAddress>,
    pci: Option<PciDeviceAddress>,
) -> Device {
    Device {
        id: d.id,
        parent_id: d.parent_id,
        acpi_address: match acpi {
            Some(a) => if d.acpi_address is None && acpi_holder(rs, a@) is None {
                Some(a)
            } else {
                d.acpi_address
            },
            None => d.acpi_address,
        },
        pci_address: match pci {
            Some(p) => if d.pci_address is None && pci_holder(rs, p) is None {
                Some(p)
            } else {
                d.pci_address
            },
            None => d.pci_address,
        },
    }
}

/// The record a registration returns.
pub open spec fn registered_record(
    rs: Seq<Device>,
    acpi: Option<AcpiDeviceAddress>,
    pci: Option<PciDeviceAddress>,
    suggested: Option<DeviceId>,
    acpi_parent: Option<AcpiDeviceAddress>,
) -> Device {
    let parent = proposed_parent(rs, suggested, acpi_parent);
    match register_target(rs, acpi, pci) {
        Some(i) => merged_record(rs, rs[i], acpi, pci),
        None => Device { id: DeviceId(rs.len() as u64), parent_id: parent, acpi_address: acpi, pci_address: pci },
    }
}

/// The records after a registration.
pub open spec fn registered_records(
    rs: Seq<Device>,
    acpi: Option<AcpiDeviceAddress>,
    pci: Option<PciDeviceAddress>,
    suggested: Option<DeviceId>,
    acpi_parent: Option<AcpiDeviceAddress>,
) -> Seq<Device> {
    let d = registered_record(rs, acpi, pci, suggested, acpi_parent);
    match register_target(rs, acpi, pci) {
        Some(i) => rs.update(i, d),
        None => rs.push(d),
    }
}

/// Owns the device graph: the set of identities, each identity's parent
/// and addresses, and the two indexes from PCI address and from firmware
/// path back to identity. Identities are handed out from `next_id` up.
pub struct DeviceManager {
    devices: hashbrown::HashSet<u64>,
    next_id: u64,
    parent_id: hashbrown::HashMap<u64, u64>,
    pci_addresses: hashbrown::HashMap<u64, PciDeviceAddress>,
    id_by_pci_address: hashbrown::HashMap<PciKey, u64>,
    acpi_addresses: hashbrown::HashMap<u64, String>,
    id_by_acpi_address: hashbrown::HashMap<String, u64>,
}

impl View for DeviceManager {
    type V = Seq<Device>;

    /// The records, in order of identity.
    closed spec fn view(&self) -> Seq<Device> {
        Seq::new(self.next_id as nat, |i: int| self.record(i as u64))
    }
}

impl DeviceManager {
    /// The record of identity `k`, assembled from the per-identity maps.
    closed spec fn record(&self, k: u64) -> Device {
        let parents = parent_map_contents(self.parent_id);
        let pcis = pci_map_contents(self.pci_addresses);
        let acpis = acpi_map_contents(self.acpi_addresses);
        Device {
            id: DeviceId(k),
            parent_id: if parents.dom().contains(k) {
                Some(DeviceId(parents[k]))
            } else {
                None
            },
            acpi_address: if acpis.dom().contains(k) {
                Some(AcpiDeviceAddress::from_path(acpis[k]))
            } else {
                None
            },
            pci_address: if pcis.dom().contains(k) {
                Some(pcis[k])
            } else {
                None
            },
        }
    }

    /// The identity set is exactly the identities handed out, and the
    /// per-identity maps speak only of those.
    closed spec fn store_wf(&self) -> bool {
        &&& forall|k: u64| id_set_contents(self.devices).contains(k) <==> k < self.next_id
        &&& forall|k: u64| parent_map_contents(self.parent_id).dom().contains(k) ==> k < self.next_id
        &&& forall|k: u64| pci_map_contents(self.pci_addresses).dom().contains(k) ==> k < self.next_id
        &&& forall|k: u64| acpi_map_contents(self.acpi_addresses).dom().contains(k) ==> k < self.next_id
    }

    /// The records are consistent and the indexes hold exactly the
    /// addresses of the records.
    pub closed spec fn wf(&self) -> bool {
        let rs = self@;
        let pci = pci_index_contents(self.id_by_pci_address);
        let acpi = acpi_index_contents(self.id_by_acpi_address);
        &&& self.store_wf()
        &&& records_wf(rs)
        &&& forall|k: PciKey|
            pci.dom().contains(k) ==> {
                let i = #[trigger] pci[k];
                &&& i < rs.len()
                &&& rs[i as int].pci_address matches Some(p) && p.key() == k
            }
        &&& forall|i: int|
            0 <= i < rs.len() ==> ((#[trigger] rs[i]).pci_address matches Some(p) ==> pci.dom().contains(
                p.key(),
            ) && pci[p.key()] == i)
        &&& forall|s: Seq<char>|
            acpi.dom().contains(s) ==> {
                let i = #[trigger] acpi[s];
                &&& i < rs.len()
                &&& rs[i as int].acpi_address matches Some(a) && a@ == s
            }
        &&& forall|i: int|
            0 <= i < rs.len() ==> ((#[trigger] rs[i]).acpi_address matches Some(a) ==> acpi.dom().contains(
                a@,
            ) && acpi[a@] == i)
    }

    /// A manager with no devices.
    pub fn new() -> (r: DeviceManager)
        ensures
            r.wf(),
            r@ == Seq::<Device>::empty(),
            records_wf(r@),
    {
        let r = DeviceManager {
            devices: id_set_new(),
            next_id: 0,
            parent_id: parent_map_new(),
            pci_addresses: pci_map_new(),
            id_by_pci_address: pci_index_new(),
            acpi_addresses: acpi_map_new(),
            id_by_acpi_address: acpi_index_new(),
        };
        assert(r@ =~= Seq::<Device>::empty());
        r
    }

    proof fn lemma_acpi_index(&self, s: Seq<char>)
        requires
            self.wf(),
        ensures
            acpi_index_contents(self.id_by_acpi_address).dom().contains(s) ==> acpi_holder(self@, s)
                == Some(acpi_index_contents(self.id_by_acpi_address)[s] as int),
            !acpi_index_contents(self.id_by_acpi_address).dom().contains(s) ==> acpi_holder(self@, s) is None,
    {
        let rs = self@;
        let acpi = acpi_index_contents(self.id_by_acpi_address);
        if acpi.dom().contains(s) {
            let i = acpi[s] as int;
            assert(at_acpi_path(rs[i], s));
            let j = choose|j: int| 0 <= j < rs.len() && at_acpi_path(#[trigger] rs[j], s);
            if j != i {
                assert(rs[j].acpi_address is Some && rs[i].acpi_address is Some);
            }
        } else {
            assert forall|i: int| 0 <= i < rs.len() implies !at_acpi_path(#[trigger] rs[i], s) by {
                if at_acpi_path(rs[i], s) {
                    assert(acpi.dom().contains(rs[i].acpi_address.unwrap()@));
                }
            }
        }
    }

    proof fn lemma_pci_index(&self, p: PciDeviceAddress)
        requires
            self.wf(),
        ensures
            pci_index_contents(self.id_by_pci_address).dom().contains(p.key()) ==> pci_holder(self@, p)
                == Some(pci_index_contents(self.id_by_pci_address)[p.key()] as int),
            !pci_index_contents(self.id_by_pci_address).dom().contains(p.key()) ==> pci_holder(self@, p) is None,
    {
        let rs = self@;
        let pci = pci_index_contents(self.id_by_pci_address);
        if pci.dom().contains(p.key()) {
            let i = pci[p.key()] as int;
            assert(at_pci_address(rs[i], p));
            let j = choose|j: int| 0 <= j < rs.len() && at_pci_address(#[trigger] rs[j], p);
            if j != i {
                assert(rs[j].pci_address is Some && rs[i].pci_address is Some);
            }
        } else {
            assert forall|i: int| 0 <= i < rs.len() implies !at_pci_address(#[trigger] rs[i], p) by {
                if at_pci_address(rs[i], p) {
                    assert(pci.dom().contains(rs[i].pci_address.unwrap().key()));
                }
            }
        }
    }

    /// Number of registered devices.
    pub fn len(&self) -> (r: u64)
        ensures
            r == self@.len(),
    {
        self.next_id
    }

    /// The record of identity `k`.
    fn record_at(&self, k: u64) -> (r: Device)
        requires
            self.wf(),
            k < self@.len(),
        ensures
            r == self@[k as int],
    {
        let parent_id = match parent_map_get(&self.parent_id, k) {
            Some(p) => Some(DeviceId(p)),
            None => None,
        };
        let acpi_address = match acpi_map_get(&self.acpi_addresses, k) {
            Some(path) => Some(AcpiDeviceAddress::new(path)),
            None => None,
        };
        let pci_address = pci_map_get(&self.pci_addresses, k);
        Device { id: DeviceId(k), parent_id, acpi_address, pci_address }
    }

    fn lookup_acpi(&self, a: &AcpiDeviceAddress) -> (r: Option<u64>)
        requires
            self.wf(),
        ensures
            r matches Some(i) ==> acpi_holder(self@, a@) == Some(i as int),
            r is None ==> acpi_holder(self@, a@) is None,
            r matches Some(i) ==> i < self@.len(),
    {
        proof {
            self.lemma_acpi_index(a@);
        }
        acpi_index_get(&self.id_by_acpi_address, a.as_string())
    }

    fn lookup_pci(&self, p: &PciDeviceAddress) -> (r: Option<u64>)
        requires
            self.wf(),
        ensures
            r matches Some(i) ==> pci_holder(self@, *p) == Some(i as int),
            r is None ==> pci_holder(self@, *p) is None,
            r matches Some(i) ==> i < self@.len(),
    {
        proof {
            self.lemma_pci_index(*p);
        }
        let key: PciKey = (p.base_address, p.segment, p.bus, p.slot, p.function);
        pci_index_get(&self.id_by_pci_address, &key)
    }

    /// The record with identity `id`, if one was assigned.
    pub fn get(&self, id: DeviceId) -> (r: Option<Device>)
        requires
            self.wf(),
        ensures
            id.0 < self@.len() ==> r == Some(self@[id.0 as int]),
            id.0 >= self@.len() ==> r is None,
            r matches Some(d) ==> d.id == id,
    {
        if id_set_contains(&self.devices, id.0) {
            Some(self.record_at(id.0))
        } else {
            None
        }
    }

    /// The record registered at firmware path `a`, if any.
    pub fn find_by_acpi_address(&self, a: &AcpiDeviceAddress) -> (r: Option<Device>)
        requires
            self.wf(),
        ensures
            acpi_holder(self@, a@) matches Some(i) ==> r == Some(self@[i]),
            acpi_holder(self@, a@) is None ==> r is None,
    {
        match self.lookup_acpi(a) {
            Some(i) => Some(self.record_at(i)),
            None => None,
        }
    }

    /// The record registered at PCI address `p`, if any.
    pub fn find_by_pci_address(&self, p: &PciDeviceAddress) -> (r: Option<Device>)
        requires
            self.wf(),
        ensures
            pci_holder(self@, *p) matches Some(i) ==> r == Some(self@[i]),
            pci_holder(self@, *p) is None ==> r is None,
    {
        match self.lookup_pci(p) {
            Some(i) => Some(self.record_at(i)),
            None => None,
        }
    }

    /// Registers one discovery of a device, at a firmware path, a PCI
    /// address or both. The firmware path is looked up first, then the PCI
    /// address; where either is known the existing record is reused and
    /// completed, so its identity never changes. Otherwise a new record
    /// takes the next identity, above every earlier one, and as parent
    /// `suggested_parent`, or else the device registered at `acpi_parent`,
    /// the firmware path's parent. A reused record keeps its parent.
    pub fn register(
        &mut self,
        acpi_address: Option<AcpiDeviceAddress>,
        pci_address: Option<PciDeviceAddress>,
        suggested_parent: Option<DeviceId>,
        acpi_parent: Option<AcpiDeviceAddress>,
    ) -> (r: Device)
        requires
            old(self).wf(),
            acpi_address is Some || pci_address is Some,
            old(self)@.len() + 1 < u64::MAX,
        ensures
            final(self).wf(),
            final(self)@ == registered_records(
                old(self)@,
                acpi_address,
                pci_address,
                suggested_parent,
                acpi_parent,
            ),
            r == registered_record(old(self)@, acpi_address, pci_address, suggested_parent, acpi_parent),
            records_wf(final(self)@),
            register_target(old(self)@, acpi_address, pci_address) is None ==> r.id == DeviceId(
                old(self)@.len() as u64,
            ) && final(self)@.len() == old(self)@.len() + 1,
            register_target(old(self)@, acpi_address, pci_address) is Some ==> final(self)@.len()
                == old(self)@.len(),
    {
        let ghost rs = self@;
        proof {
            laws::lemma_register_preserves_wf(rs, acpi_address, pci_address, suggested_parent, acpi_parent);
        }
        let ghost pci0 = pci_index_contents(self.id_by_pci_address);
        let ghost acpi0 = acpi_index_contents(self.id_by_acpi_address);
        let by_acpi = match &acpi_address {
            Some(a) => self.lookup_acpi(a),
            None => None,
        };
        let by_pci = match &pci_address {
            Some(p) => self.lookup_pci(p),
            None => None,
        };
        proof {
            if let Some(ref a) = acpi_address {
                self.lemma_acpi_index(a@);
            }
            if let Some(p) = pci_address {
                self.lemma_pci_index(p);
            }
        }
        let target = if by_acpi.is_some() {
            by_acpi
        } else {
            by_pci
        };
        match target {
            Some(i) => {
                let d = self.record_at(i);
                let fill_acpi = acpi_address.is_some() && d.acpi_address.is_none() && by_acpi.is_none();
                let fill_pci = pci_address.is_some() && d.pci_address.is_none() && by_pci.is_none();
                let parent_id = d.parent_id;
                let acpi_new = if fill_acpi {
                    acpi_address
                } else {
                    d.acpi_address
                };
                let pci_new = if fill_pci {
                    pci_address
                } else {
                    d.pci_address
                };
                let ghost old_self = *self;
                if fill_acpi {
                    if let Some(a) = &acpi_new {
                        acpi_map_insert(&mut self.acpi_addresses, i, a.to_text());
                        acpi_index_insert(&mut self.id_by_acpi_address, a.to_text(), i);
                    }
                }
                if fill_pci {
                    if let Some(p) = pci_new {
                        pci_map_insert(&mut self.pci_addresses, i, p);
                        let key: PciKey = (p.base_address, p.segment, p.bus, p.slot, p.function);
                        pci_index_insert(&mut self.id_by_pci_address, key, i);
                    }
                }
                let rec = Device { id: d.id, parent_id, acpi_address: acpi_new, pci_address: pci_new };
                proof {
                    assert forall|j: int| 0 <= j < rs.len() implies #[trigger] self@[j] == rs.update(
                        i as int,
                        rec,
                    )[j] by {
                        assert(self@[j] == self.record(j as u64));
                        assert(rs[j] == old_self.record(j as u64));
                    }
                    assert(self@ =~= rs.update(i as int, rec));
                    let rs1 = self@;
                    assert(rs1 == rs.update(i as int, rec));
                    assert(rec == registered_record(rs, acpi_address, pci_address, suggested_parent, acpi_parent));
                    assert(self.store_wf());
                    self.lemma_merge_wf(rs, pci0, acpi0, i as int);
                }
                rec
            },
            None => {
                let parent: Option<DeviceId> = match suggested_parent {
                    Some(p) => Some(p),
                    None => match &acpi_parent {
                        Some(a) => match self.lookup_acpi(a) {
                            Some(i) => Some(DeviceId(i)),
                            None => None,
                        },
                        None => None,
                    },
                };
                let n = self.next_id;
                let id = DeviceId(n);
                let ghost old_self = *self;
                id_set_insert(&mut self.devices, n);
                if let Some(p) = parent {
                    parent_map_insert(&mut self.parent_id, n, p.0);
                }
                if let Some(a) = &acpi_address {
                    acpi_map_insert(&mut self.acpi_addresses, n, a.to_text());
                    acpi_index_insert(&mut self.id_by_acpi_address, a.to_text(), n);
                }
                if let Some(p) = pci_address {
                    pci_map_insert(&mut self.pci_addresses, n, p);
                    let key: PciKey = (p.base_address, p.segment, p.bus, p.slot, p.function);
                    pci_index_insert(&mut self.id_by_pci_address, key, n);
                }
                self.next_id = n + 1;
                let rec = Device { id, parent_id: parent, acpi_address, pci_address };
                proof {
                    assert forall|j: int| 0 <= j < rs.len() + 1 implies #[trigger] self@[j] == rs.push(rec)[j] by {
                        assert(self@[j] == self.record(j as u64));
                        if j < rs.len() {
                            assert(rs[j] == old_self.record(j as u64));
                        }
                    }
                    assert(self@ =~= rs.push(rec));
                    assert(self.store_wf());
                    self.lemma_push_wf(rs, pci0, acpi0);
                }
                rec
            },
        }
    }

    /// Registers a function found by a PCI scan, under `parent_id`.
    pub fn add_pci_device(&mut self, pci_address: PciDeviceAddress, parent_id: Option<DeviceId>) -> (r: DeviceId)
        requires
            old(self).wf(),
            old(self)@.len() + 1 < u64::MAX,
        ensures
            final(self).wf(),
            final(self)@ == registered_records(old(self)@, None, Some(pci_address), parent_id, None),
            r == registered_record(old(self)@, None, Some(pci_address), parent_id, None).id,
            records_wf(final(self)@),
            pci_holder(old(self)@, pci_address) matches Some(i) ==> r == DeviceId(i as u64) && final(self)@
                == old(self)@,
            pci_holder(old(self)@, pci_address) is None ==> r == DeviceId(old(self)@.len() as u64)
                && final(self)@.len() == old(self)@.len() + 1,
    {
        proof {
            laws::lemma_pci_holder(self@, pci_address);
            if let Some(i) = pci_holder(self@, pci_address) {
                assert(merged_record(self@, self@[i], None, Some(pci_address)) == self@[i]);
                assert(self@.update(i, self@[i]) =~= self@);
            }
        }
        self.register(None, Some(pci_address), parent_id, None).id
    }

    /// Registers a device of the firmware namespace. Its PCI address is
    /// resolved from the integer values of its `_SEG`, `_BBN` and `_ADR`
    /// objects (each `None` where absent) and the configuration regions;
    /// where that fails the device stays firmware-only. `acpi_parent` is
    /// the parent path of `acpi_address`, through which a parent already
    /// registered is found when `parent_id` is `None`.
    pub fn add_acpi_device(
        &mut self,
        acpi_address: AcpiDeviceAddress,
        seg: Option<u64>,
        bbn: Option<u64>,
        adr: Option<u64>,
        regions: &Vec<PciConfigRegion>,
        parent_id: Option<DeviceId>,
        acpi_parent: Option<AcpiDeviceAddress>,
    ) -> (r: DeviceId)
        requires
            old(self).wf(),
            old(self)@.len() + 1 < u64::MAX,
        ensures
            final(self).wf(),
            final(self)@ == registered_records(
                old(self)@,
                Some(acpi_address),
                resolved_address(seg, bbn, adr, regions@),
                parent_id,
                acpi_parent,
            ),
            r == registered_record(
                old(self)@,
                Some(acpi_address),
                resolved_address(seg, bbn, adr, regions@),
                parent_id,
                acpi_parent,
            ).id,
            records_wf(final(self)@),
            acpi_holder(old(self)@, acpi_address@) matches Some(i) ==> r == DeviceId(i as u64)
                && final(self)@.len() == old(self)@.len(),
            acpi_holder(old(self)@, acpi_address@) is None && (resolved_address(seg, bbn, adr, regions@) is None
                || pci_holder(old(self)@, resolved_address(seg, bbn, adr, regions@).unwrap()) is None)
                ==> r == DeviceId(old(self)@.len() as u64) && final(self)@.len() == old(self)@.len() + 1,
    {
        proof {
            laws::lemma_acpi_holder(self@, acpi_address@);
        }
        let pci_address = pci_address_for_acpi_address(seg, bbn, adr, regions);
        self.register(Some(acpi_address), pci_address, parent_id, acpi_parent).id
    }

    proof fn lemma_merge_wf(
        &self,
        rs: Seq<Device>,
        pci0: Map<PciKey, u64>,
        acpi0: Map<Seq<char>, u64>,
        i: int,
    )
        requires
            0 <= i < rs.len(),
            records_wf(rs),
            self.store_wf(),
            records_wf(self@),
            self@ == rs.update(i, self@[i]),
            ({
                let d = rs[i];
                let m = self@[i];
                &&& m.id == d.id
                &&& d.acpi_address is Some ==> m.acpi_address == d.acpi_address
                &&& d.pci_address is Some ==> m.pci_address == d.pci_address
                &&& m.acpi_address != d.acpi_address ==> (m.acpi_address matches Some(a)
                    && acpi_holder(rs, a@) is None
                    && acpi_index_contents(self.id_by_acpi_address) == acpi0.insert(a@, i as u64))
                &&& m.acpi_address == d.acpi_address ==> acpi_index_contents(self.id_by_acpi_address) == acpi0
                &&& m.pci_address != d.pci_address ==> (m.pci_address matches Some(p)
                    && pci_holder(rs, p) is None
                    && pci_index_contents(self.id_by_pci_address) == pci0.insert(p.key(), i as u64))
                &&& m.pci_address == d.pci_address ==> pci_index_contents(self.id_by_pci_address) == pci0
            }),
            forall|k: PciKey|
                pci0.dom().contains(k) ==> {
                    let j = #[trigger] pci0[k];
                    &&& j < rs.len()
                    &&& rs[j as int].pci_address matches Some(p) && p.key() == k
                },
            forall|j: int|
                0 <= j < rs.len() ==> ((#[trigger] rs[j]).pci_address matches Some(p) ==> pci0.dom().contains(
                    p.key(),
                ) && pci0[p.key()] == j),
            forall|s: Seq<char>|
                acpi0.dom().contains(s) ==> {
                    let j = #[trigger] acpi0[s];
                    &&& j < rs.len()
                    &&& rs[j as int].acpi_address matches Some(a) && a@ == s
                },
            forall|j: int|
                0 <= j < rs.len() ==> ((#[trigger] rs[j]).acpi_address matches Some(a) ==> acpi0.dom().contains(
                    a@,
                ) && acpi0[a@] == j),
        ensures
            self.wf(),
    {
        let rs1 = self@;
        let d = rs[i];
        let m = rs1[i];
        let pci = pci_index_contents(self.id_by_pci_address);
        let acpi = acpi_index_contents(self.id_by_acpi_address);
        if m.acpi_address != d.acpi_address {
            let a = m.acpi_address.unwrap();
            assert forall|j: int| 0 <= j < rs.len() implies !at_acpi_path(#[trigger] rs[j], a@) by {}
        }
        if m.pci_address != d.pci_address {
            let p = m.pci_address.unwrap();
            assert forall|j: int| 0 <= j < rs.len() implies !at_pci_address(#[trigger] rs[j], p) by {}
        }
        assert forall|k: PciKey| pci.dom().contains(k) implies {
            let j = #[trigger] pci[k];
            &&& j < rs1.len()
            &&& rs1[j as int].pci_address matches Some(p) && p.key() == k
        } by {
            if m.pci_address != d.pci_address && k == m.pci_address.unwrap().key() {
            } else {
                let j = pci0[k];
                if j as int == i {
                    assert(rs[i].pci_address is Some);
                }
            }
        }
        assert forall|j: int|
            0 <= j < rs1.len() implies ((#[trigger] rs1[j]).pci_address matches Some(p) ==> pci.dom().contains(
            p.key(),
        ) && pci[p.key()] == j) by {
            if j != i {
                assert(rs1[j] == rs[j]);
                if let Some(p) = rs[j].pci_address {
                    if m.pci_address != d.pci_address {
                        assert(!at_pci_address(rs[j], m.pci_address.unwrap()));
                    }
                }
            }
        }
        assert forall|s: Seq<char>| acpi.dom().contains(s) implies {
            let j = #[trigger] acpi[s];
            &&& j < rs1.len()
            &&& rs1[j as int].acpi_address matches Some(a) && a@ == s
        } by {
            if m.acpi_address != d.acpi_address && s == m.acpi_address.unwrap()@ {
            } else {
                let j = acpi0[s];
                if j as int == i {
                    assert(rs[i].acpi_address is Some);
                }
            }
        }
        assert forall|j: int|
            0 <= j < rs1.len() implies ((#[trigger] rs1[j]).acpi_address matches Some(a) ==> acpi.dom().contains(
            a@,
        ) && acpi[a@] == j) by {
            if j != i {
                assert(rs1[j] == rs[j]);
                if let Some(a) = rs[j].acpi_address {
                    if m.acpi_address != d.acpi_address {
                        assert(!at_acpi_path(rs[j], m.acpi_address.unwrap()@));
                    }
                }
            }
        }
    }

    proof fn lemma_push_wf(&self, rs: Seq<Device>, pci0: Map<PciKey, u64>, acpi0: Map<Seq<char>, u64>)
        requires
            records_wf(rs),
            self.store_wf(),
            records_wf(self@),
            self@ == rs.push(self@[rs.len() as int]),
            ({
                let n = rs.len();
                let m = self@[n as int];
                &&& m.id == DeviceId(n as u64)
                &&& m.acpi_address is Some || m.pci_address is Some
                &&& m.acpi_address matches Some(a) ==> acpi_holder(rs, a@) is None
                    && acpi_index_contents(self.id_by_acpi_address) == acpi0.insert(a@, n as u64)
                &&& m.acpi_address is None ==> acpi_index_contents(self.id_by_acpi_address) == acpi0
                &&& m.pci_address matches Some(p) ==> pci_holder(rs, p) is None
                    && pci_index_contents(self.id_by_pci_address) == pci0.insert(p.key(), n as u64)
                &&& m.pci_address is None ==> pci_index_contents(self.id_by_pci_address) == pci0
            }),
            forall|k: PciKey|
                pci0.dom().contains(k) ==> {
                    let j = #[trigger] pci0[k];
                    &&& j < rs.len()
                    &&& rs[j as int].pci_address matches Some(p) && p.key() == k
                },
            forall|j: int|
                0 <= j < rs.len() ==> ((#[trigger] rs[j]).pci_address matches Some(p) ==> pci0.dom().contains(
                    p.key(),
                ) && pci0[p.key()] == j),
            forall|s: Seq<char>|
                acpi0.dom().contains(s) ==> {
                    let j = #[trigger] acpi0[s];
                    &&& j < rs.len()
                    &&& rs[j as int].acpi_address matches Some(a) && a@ == s
                },
            forall|j: int|
                0 <= j < rs.len() ==> ((#[trigger] rs[j]).acpi_address matches Some(a) ==> acpi0.dom().contains(
                    a@,
                ) && acpi0[a@] == j),
        ensures
            self.wf(),
    {
        let rs1 = self@;
        let n = rs.len() as int;
        let m = rs1[n];
        let pci = pci_index_contents(self.id_by_pci_address);
        let acpi = acpi_index_contents(self.id_by_acpi_address);
        if let Some(a) = m.acpi_address {
            assert forall|j: int| 0 <= j < rs.len() implies !at_acpi_path(#[trigger] rs[j], a@) by {}
        }
        if let Some(p) = m.pci_address {
            assert forall|j: int| 0 <= j < rs.len() implies !at_pci_address(#[trigger] rs[j], p) by {}
        }
        assert forall|k: PciKey| pci.dom().contains(k) implies {
            let j = #[trigger] pci[k];
            &&& j < rs1.len()
            &&& rs1[j as int].pci_address matches Some(p) && p.key() == k
        } by {
            if m.pci_address is Some && k == m.pci_address.unwrap().key() {
            } else {
                assert(pci0.dom().contains(k));
                assert(rs1[pci0[k] as int] == rs[pci0[k] as int]);
            }
        }
        assert forall|j: int|
            0 <= j < rs1.len() implies ((#[trigger] rs1[j]).pci_address matches Some(p) ==> pci.dom().contains(
            p.key(),
        ) && pci[p.key()] == j) by {
            if j != n {
                assert(rs1[j] == rs[j]);
                if let Some(p) = rs[j].pci_address {
                    if let Some(q) = m.pci_address {
                        assert(!at_pci_address(rs[j], q));
                    }
                }
            }
        }
        assert forall|s: Seq<char>| acpi.dom().contains(s) implies {
            let j = #[trigger] acpi[s];
            &&& j < rs1.len()
            &&& rs1[j as int].acpi_address matches Some(a) && a@ == s
        } by {
            if m.acpi_address is Some && s == m.acpi_address.unwrap()@ {
            } else {
                assert(acpi0.dom().contains(s));
                assert(rs1[acpi0[s] as int] == rs[acpi0[s] as int]);
            }
        }
        assert forall|j: int|
            0 <= j < rs1.len() implies ((#[trigger] rs1[j]).acpi_address matches Some(a) ==> acpi.dom().contains(
            a@,
        ) && acpi[a@] == j) by {
            if j != n {
                assert(rs1[j] == rs[j]);
                if let Some(a) = rs[j].acpi_address {
                    if let Some(b) = m.acpi_address {
                        assert(!at_acpi_path(rs[j], b@));
                    }
                }
            }
        }
    }

    /// Every record, in order of identity.
    pub fn all_devices(&self) -> (r: Vec<Device>)
        requires
            self.wf(),
        ensures
            r@ == self@,
    {
        let mut out: Vec<Device> = Vec::new();
        let mut i: u64 = 0;
        while i < self.next_id
            invariant
                self.wf(),
                i <= self@.len(),
                out@ == self@.subrange(0, i as int),
            decreases self@.len() - i,
        {
            out.push(self.record_at(i));
            i = i + 1;
            assert(out@ =~= self@.subrange(0, i as int));
        }
        assert(out@ =~= self@);
        out
    }
}

/// A new, empty device graph.
pub fn init() -> (r: DeviceManager)
    ensures
        r.wf(),
        r@ == Seq::<Device>::empty(),
{
    DeviceManager::new()
}

/// The records of a well-formed manager are consistent: identities are
/// positions, every record has an address, and no address is shared. The
/// laws of `laws` apply to them.
pub proof fn lemma_manager_records_wf(devices: &DeviceManager)
    requires
        devices.wf(),
    ensures
        records_wf(devices@),
{
}

/// In a consistent device graph no two identities share a firmware path
/// and no two identities share a PCI address. Every graph built from
/// `DeviceManager::new` by registrations is consistent.
pub proof fn lemma_addresses_unique(devices: &DeviceManager)
    requires
        devices.wf(),
    ensures
        forall|i: int, j: int|
            0 <= i < devices@.len() && 0 <= j < devices@.len() && i != j && (#[trigger] devices@[i]).acpi_address is Some
                && (#[trigger] devices@[j]).acpi_address is Some ==> devices@[i].acpi_address.unwrap()@
                != devices@[j].acpi_address.unwrap()@,
        forall|i: int, j: int|
            0 <= i < devices@.len() && 0 <= j < devices@.len() && i != j && (#[trigger] devices@[i]).pci_address is Some
                && (#[trigger] devices@[j]).pci_address is Some ==> devices@[i].pci_address
                != devices@[j].pci_address,
{
}

} // verus!
