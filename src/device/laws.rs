//! What holds of registration for every input: it keeps the graph
//! consistent, repeating it assigns no new identity, and the order in
//! which the two views of a device arrive does not matter.
use vstd::prelude::*;

use super::{
    acpi_holder, at_acpi_path, at_pci_address, pci_holder, records_wf,
    register_target, registered_record, registered_records, Device, DeviceId,
};
use crate::acpi::AcpiDeviceAddress;
use crate::pci::PciDeviceAddress;

verus! {

pub(crate) proof fn lemma_acpi_holder(rs: Seq<Device>, s: Seq<char>)
    requires
        records_wf(rs),
    ensures
        acpi_holder(rs, s) matches Some(i) ==> 0 <= i < rs.len() && at_acpi_path(rs[i], s),
        acpi_holder(rs, s) is None ==> forall|j: int| 0 <= j < rs.len() ==> !at_acpi_path(#[trigger] rs[j], s),
        forall|j: int| 0 <= j < rs.len() && at_acpi_path(#[trigger] rs[j], s) ==> acpi_holder(rs, s) == Some(j),
{
    if exists|i: int| 0 <= i < rs.len() && at_acpi_path(#[trigger] rs[i], s) {
        let i = choose|i: int| 0 <= i < rs.len() && at_acpi_path(#[trigger] rs[i], s);
        assert forall|j: int| 0 <= j < rs.len() && at_acpi_path(#[trigger] rs[j], s) implies j == i by {
            if j != i {
                assert(rs[i].acpi_address is Some && rs[j].acpi_address is Some);
            }
        }
    }
}

pub(crate) proof fn lemma_pci_holder(rs: Seq<Device>, p: PciDeviceAddress)
    requires
        records_wf(rs),
    ensures
        pci_holder(rs, p) matches Some(i) ==> 0 <= i < rs.len() && at_pci_address(rs[i], p),
        pci_holder(rs, p) is None ==> forall|j: int| 0 <= j < rs.len() ==> !at_pci_address(#[trigger] rs[j], p),
        forall|j: int| 0 <= j < rs.len() && at_pci_address(#[trigger] rs[j], p) ==> pci_holder(rs, p) == Some(j),
{
    if exists|i: int| 0 <= i < rs.len() && at_pci_address(#[trigger] rs[i], p) {
        let i = choose|i: int| 0 <= i < rs.len() && at_pci_address(#[trigger] rs[i], p);
        assert forall|j: int| 0 <= j < rs.len() && at_pci_address(#[trigger] rs[j], p) implies j == i by {
            if j != i {
                assert(rs[i].pci_address is Some && rs[j].pci_address is Some);
            }
        }
    }
}

proof fn lemma_target(rs: Seq<Device>, acpi: Option<AcpiDeviceAddress>, pci: Option<PciDeviceAddress>)
    requires
        records_wf(rs),
    ensures
        register_target(rs, acpi, pci) matches Some(i) ==> 0 <= i < rs.len(),
        acpi matches Some(a) ==> {
            &&& acpi_holder(rs, a@) matches Some(i) ==> 0 <= i < rs.len() && at_acpi_path(rs[i], a@)
            &&& acpi_holder(rs, a@) is None ==> forall|j: int|
                0 <= j < rs.len() ==> !at_acpi_path(#[trigger] rs[j], a@)
        },
        pci matches Some(p) ==> {
            &&& pci_holder(rs, p) matches Some(i) ==> 0 <= i < rs.len() && at_pci_address(rs[i], p)
            &&& pci_holder(rs, p) is None ==> forall|j: int|
                0 <= j < rs.len() ==> !at_pci_address(#[trigger] rs[j], p)
        },
{
    if let Some(a) = acpi {
        lemma_acpi_holder(rs, a@);
    }
    if let Some(p) = pci {
        lemma_pci_holder(rs, p);
    }
}

/// Registration keeps the device graph consistent: identities stay the
/// positions of their records, every record keeps an address, and no
/// firmware path or PCI address comes to belong to two identities.
pub proof fn lemma_register_preserves_wf(
    rs: Seq<Device>,
    acpi: Option<AcpiDeviceAddress>,
    pci: Option<PciDeviceAddress>,
    suggested: Option<DeviceId>,
    acpi_parent: Option<AcpiDeviceAddress>,
)
    requires
        records_wf(rs),
        acpi is Some || pci is Some,
        rs.len() + 1 < u64::MAX,
    ensures
        records_wf(registered_records(rs, acpi, pci, suggested, acpi_parent)),
{
    lemma_target(rs, acpi, pci);
    let rs1 = registered_records(rs, acpi, pci, suggested, acpi_parent);
    let m = registered_record(rs, acpi, pci, suggested, acpi_parent);
    match register_target(rs, acpi, pci) {
        Some(i) => {
            let d = rs[i];
            assert(rs1 == rs.update(i, m));
            assert forall|j: int, l: int|
                0 <= j < rs1.len() && 0 <= l < rs1.len() && j != l && (#[trigger] rs1[j]).acpi_address is Some
                    && (#[trigger] rs1[l]).acpi_address is Some implies rs1[j].acpi_address.unwrap()@
                != rs1[l].acpi_address.unwrap()@ by {
                if j != i && l != i {
                } else if j == i && m.acpi_address != d.acpi_address {
                    assert(!at_acpi_path(rs[l], m.acpi_address.unwrap()@));
                } else if l == i && m.acpi_address != d.acpi_address {
                    assert(!at_acpi_path(rs[j], m.acpi_address.unwrap()@));
                }
            }
            assert forall|j: int, l: int|
                0 <= j < rs1.len() && 0 <= l < rs1.len() && j != l && (#[trigger] rs1[j]).pci_address is Some
                    && (#[trigger] rs1[l]).pci_address is Some implies rs1[j].pci_address
                != rs1[l].pci_address by {
                if j != i && l != i {
                } else if j == i && m.pci_address != d.pci_address {
                    assert(!at_pci_address(rs[l], m.pci_address.unwrap()));
                } else if l == i && m.pci_address != d.pci_address {
                    assert(!at_pci_address(rs[j], m.pci_address.unwrap()));
                }
            }
            assert forall|j: int| 0 <= j < rs1.len() implies (#[trigger] rs1[j]).id == DeviceId(j as u64) by {}
            assert forall|j: int|
                0 <= j < rs1.len() implies (#[trigger] rs1[j]).acpi_address is Some
                || rs1[j].pci_address is Some by {}
        },
        None => {
            let n = rs.len() as int;
            assert(rs1 == rs.push(m));
            assert forall|j: int, l: int|
                0 <= j < rs1.len() && 0 <= l < rs1.len() && j != l && (#[trigger] rs1[j]).acpi_address is Some
                    && (#[trigger] rs1[l]).acpi_address is Some implies rs1[j].acpi_address.unwrap()@
                != rs1[l].acpi_address.unwrap()@ by {
                if j != n && l != n {
                } else if j == n {
                    assert(!at_acpi_path(rs[l], m.acpi_address.unwrap()@));
                } else {
                    assert(!at_acpi_path(rs[j], m.acpi_address.unwrap()@));
                }
            }
            assert forall|j: int, l: int|
                0 <= j < rs1.len() && 0 <= l < rs1.len() && j != l && (#[trigger] rs1[j]).pci_address is Some
                    && (#[trigger] rs1[l]).pci_address is Some implies rs1[j].pci_address
                != rs1[l].pci_address by {
                if j != n && l != n {
                } else if j == n {
                    assert(!at_pci_address(rs[l], m.pci_address.unwrap()));
                } else {
                    assert(!at_pci_address(rs[j], m.pci_address.unwrap()));
                }
            }
            assert forall|j: int| 0 <= j < rs1.len() implies (#[trigger] rs1[j]).id == DeviceId(j as u64) by {}
            assert forall|j: int|
                0 <= j < rs1.len() implies (#[trigger] rs1[j]).acpi_address is Some
                || rs1[j].pci_address is Some by {}
        },
    }
}

/// Registering the same discovery twice assigns no second identity: the
/// second registration lands on the record the first one returned and
/// changes nothing.
pub proof fn lemma_register_idempotent(
    rs: Seq<Device>,
    acpi: Option<AcpiDeviceAddress>,
    pci: Option<PciDeviceAddress>,
    suggested: Option<DeviceId>,
    acpi_parent: Option<AcpiDeviceAddress>,
)
    requires
        records_wf(rs),
        acpi is Some || pci is Some,
        rs.len() + 2 < u64::MAX,
    ensures
        ({
            let rs1 = registered_records(rs, acpi, pci, suggested, acpi_parent);
            let d1 = registered_record(rs, acpi, pci, suggested, acpi_parent);
            &&& registered_records(rs1, acpi, pci, suggested, acpi_parent) == rs1
            &&& registered_record(rs1, acpi, pci, suggested, acpi_parent) == d1
        }),
{
    let rs1 = registered_records(rs, acpi, pci, suggested, acpi_parent);
    let d1 = registered_record(rs, acpi, pci, suggested, acpi_parent);
    lemma_register_preserves_wf(rs, acpi, pci, suggested, acpi_parent);
    lemma_target(rs, acpi, pci);
    lemma_target(rs1, acpi, pci);
    let target = register_target(rs, acpi, pci);
    let i: int = match target {
        Some(i) => i,
        None => rs.len() as int,
    };
    if target is Some {
        assert(rs1 == rs.update(i, d1));
    } else {
        assert(rs1 == rs.push(d1));
    }
    assert(rs1[i] == d1);
    assert(d1.id == DeviceId(i as u64));
    // The first registration's firmware path, if it now sits anywhere, sits at `i`.
    if let Some(a) = acpi {
        lemma_acpi_holder(rs1, a@);
        assert forall|j: int| 0 <= j < rs1.len() && j != i implies !at_acpi_path(#[trigger] rs1[j], a@)
            || acpi_holder(rs, a@) == Some(j) by {
            if at_acpi_path(rs1[j], a@) {
                assert(rs1[j] == rs[j]);
                lemma_acpi_holder(rs, a@);
            }
        }
    }
    if let Some(p) = pci {
        lemma_pci_holder(rs1, p);
        lemma_pci_holder(rs, p);
        assert forall|j: int| 0 <= j < rs1.len() && j != i implies !at_pci_address(#[trigger] rs1[j], p)
            || pci_holder(rs, p) == Some(j) by {
            if at_pci_address(rs1[j], p) {
                assert(rs1[j] == rs[j]);
            }
        }
    }
    assert(register_target(rs1, acpi, pci) == Some(i));
    if let Some(a) = acpi {
        if rs1[i].acpi_address is None {
            assert(target is Some);
            lemma_acpi_holder(rs, a@);
            assert(acpi_holder(rs, a@) is Some);
            let x = acpi_holder(rs, a@).unwrap();
            assert(x != i);
            assert(rs1[x] == rs[x]);
            assert(at_acpi_path(rs1[x], a@));
        }
    }
    if let Some(p) = pci {
        if rs1[i].pci_address is None {
            assert(target is Some);
            assert(pci_holder(rs, p) is Some);
            let x = pci_holder(rs, p).unwrap();
            assert(x != i);
            assert(rs1[x] == rs[x]);
            assert(at_pci_address(rs1[x], p));
        }
    }
    assert(super::merged_record(rs1, rs1[i], acpi, pci) == d1);
    assert(rs1.update(i, d1) =~= rs1);
}

/// A registration whose firmware path, or else whose PCI address, is
/// already registered adds no record and returns the identity registered
/// there.
pub proof fn lemma_known_address_reused(
    rs: Seq<Device>,
    acpi: Option<AcpiDeviceAddress>,
    pci: Option<PciDeviceAddress>,
    suggested: Option<DeviceId>,
    acpi_parent: Option<AcpiDeviceAddress>,
)
    requires
        records_wf(rs),
    ensures
        acpi matches Some(a) ==> (acpi_holder(rs, a@) matches Some(i) ==> {
            &&& registered_records(rs, acpi, pci, suggested, acpi_parent).len() == rs.len()
            &&& registered_record(rs, acpi, pci, suggested, acpi_parent).id == rs[i].id
        }),
        pci matches Some(p) ==> (pci_holder(rs, p) matches Some(i) ==> {
            &&& registered_records(rs, acpi, pci, suggested, acpi_parent).len() == rs.len()
            &&& register_target(rs, acpi, pci) is Some
        }),
{
    lemma_target(rs, acpi, pci);
}

/// Discovering a device first by its PCI address `h` and then by a
/// firmware path `f` that resolves to `h` gives the same record as the
/// other order: the identity the first discovery assigned, with both
/// addresses filled in, and one record added in all.
pub proof fn lemma_order_independent(
    rs: Seq<Device>,
    f: AcpiDeviceAddress,
    h: PciDeviceAddress,
    pci_suggested: Option<DeviceId>,
    pci_acpi_parent: Option<AcpiDeviceAddress>,
    acpi_suggested: Option<DeviceId>,
    acpi_parent: Option<AcpiDeviceAddress>,
)
    requires
        records_wf(rs),
        rs.len() + 2 < u64::MAX,
        acpi_holder(rs, f@) is None,
        pci_holder(rs, h) is None,
    ensures
        ({
            let a1 = registered_records(rs, None, Some(h), pci_suggested, pci_acpi_parent);
            let a2 = registered_records(a1, Some(f), Some(h), acpi_suggested, acpi_parent);
            let da = registered_record(a1, Some(f), Some(h), acpi_suggested, acpi_parent);
            let b1 = registered_records(rs, Some(f), Some(h), acpi_suggested, acpi_parent);
            let b2 = registered_records(b1, None, Some(h), pci_suggested, pci_acpi_parent);
            let db = registered_record(b1, None, Some(h), pci_suggested, pci_acpi_parent);
            &&& da.id == DeviceId(rs.len() as u64) && db.id == da.id
            &&& da.acpi_address == Some(f) && db.acpi_address == Some(f)
            &&& da.pci_address == Some(h) && db.pci_address == Some(h)
            &&& a2.len() == rs.len() + 1 && b2.len() == rs.len() + 1
            &&& a2[rs.len() as int] == da && b2[rs.len() as int] == db
        }),
{
    let n = rs.len() as int;
    let a1 = registered_records(rs, None, Some(h), pci_suggested, pci_acpi_parent);
    let b1 = registered_records(rs, Some(f), Some(h), acpi_suggested, acpi_parent);
    lemma_target(rs, Some(f), Some(h));
    lemma_register_preserves_wf(rs, None, Some(h), pci_suggested, pci_acpi_parent);
    lemma_register_preserves_wf(rs, Some(f), Some(h), acpi_suggested, acpi_parent);
    assert(register_target(rs, None, Some(h)) is None);
    assert(register_target(rs, Some(f), Some(h)) is None);
    assert(a1[n].pci_address == Some(h) && a1[n].acpi_address is None);
    assert(b1[n].pci_address == Some(h) && b1[n].acpi_address == Some(f));
    lemma_acpi_holder(a1, f@);
    lemma_pci_holder(a1, h);
    lemma_pci_holder(b1, h);
    assert forall|j: int| 0 <= j < a1.len() implies !at_acpi_path(#[trigger] a1[j], f@) by {
        if j < n {
            assert(a1[j] == rs[j]);
        }
    }
    assert(at_pci_address(a1[n], h));
    assert(at_pci_address(b1[n], h));
    assert(register_target(a1, Some(f), Some(h)) == Some(n));
    assert(register_target(b1, None, Some(h)) == Some(n));
}

} // verus!
