//! The hashbrown collections of the device manager: the set of
//! identities, the per-identity parent and addresses, and the two indexes
//! from PCI address and from firmware path back to identity.
use vstd::prelude::*;

use crate::pci::PciDeviceAddress;

verus! {

#[verifier::external_type_specification]
#[verifier::external_body]
#[verifier::reject_recursive_types(K)]
#[verifier::reject_recursive_types(V)]
#[verifier::reject_recursive_types(S)]
pub struct ExHashMap<K, V, S>(hashbrown::HashMap<K, V, S>);

#[verifier::external_type_specification]
#[verifier::external_body]
pub struct ExDefaultHashBuilder(hashbrown::hash_map::DefaultHashBuilder);

#[verifier::external_type_specification]
#[verifier::external_body]
#[verifier::reject_recursive_types(T)]
#[verifier::reject_recursive_types(S)]
pub struct ExHashSet<T, S>(hashbrown::HashSet<T, S>);

/// A PCI address as a key: base, segment, bus, slot, function.
pub type PciKey = (u64, u16, u8, u8, u8);

/// What a PCI-address index holds.
pub uninterp spec fn pci_index_contents(m: hashbrown::HashMap<PciKey, u64>) -> Map<PciKey, u64>;

/// What a firmware-path index holds, keyed by the path's text.
pub uninterp spec fn acpi_index_contents(m: hashbrown::HashMap<String, u64>) -> Map<Seq<char>, u64>;

/// Relies on hashbrown's `HashMap::new`: a new map holds nothing.
#[verifier::external_body]
pub(crate) fn pci_index_new() -> (r: hashbrown::HashMap<PciKey, u64>)
    ensures
        pci_index_contents(r) =~= Map::empty(),
{
    hashbrown::HashMap::new()
}

/// Relies on hashbrown's `HashMap::get`: the value stored under the key,
/// compared by the tuple's own equality.
#[verifier::external_body]
pub(crate) fn pci_index_get(m: &hashbrown::HashMap<PciKey, u64>, k: &PciKey) -> (r: Option<u64>)
    ensures
        pci_index_contents(*m).dom().contains(*k) ==> r == Some(pci_index_contents(*m)[*k]),
        !pci_index_contents(*m).dom().contains(*k) ==> r is None,
{
    m.get(k).copied()
}

/// Relies on hashbrown's `HashMap::insert`: the key now maps to the value,
/// every other entry stays.
#[verifier::external_body]
pub(crate) fn pci_index_insert(m: &mut hashbrown::HashMap<PciKey, u64>, k: PciKey, v: u64)
    ensures
        pci_index_contents(*final(m)) == pci_index_contents(*old(m)).insert(k, v),
{
    m.insert(k, v);
}

/// Relies on hashbrown's `HashMap::new`: a new map holds nothing.
#[verifier::external_body]
pub(crate) fn acpi_index_new() -> (r: hashbrown::HashMap<String, u64>)
    ensures
        acpi_index_contents(r) =~= Map::empty(),
{
    hashbrown::HashMap::new()
}

/// Relies on hashbrown's `HashMap::get`: the value stored under the key,
/// compared by `String` equality, which is equality of the text.
#[verifier::external_body]
pub(crate) fn acpi_index_get(m: &hashbrown::HashMap<String, u64>, k: &String) -> (r: Option<u64>)
    ensures
        acpi_index_contents(*m).dom().contains(k@) ==> r == Some(acpi_index_contents(*m)[k@]),
        !acpi_index_contents(*m).dom().contains(k@) ==> r is None,
{
    m.get(k).copied()
}

/// Relies on hashbrown's `HashMap::insert`: the key's text now maps to the
/// value, every other entry stays.
#[verifier::external_body]
pub(crate) fn acpi_index_insert(m: &mut hashbrown::HashMap<String, u64>, k: String, v: u64)
    ensures
        acpi_index_contents(*final(m)) == acpi_index_contents(*old(m)).insert(k@, v),
{
    m.insert(k, v);
}

/// What the set of identities holds.
pub uninterp spec fn id_set_contents(s: hashbrown::HashSet<u64>) -> Set<u64>;

/// What the parent map holds: identity to parent identity.
pub uninterp spec fn parent_map_contents(m: hashbrown::HashMap<u64, u64>) -> Map<u64, u64>;

/// What the identity-to-PCI-address map holds.
pub uninterp spec fn pci_map_contents(m: hashbrown::HashMap<u64, PciDeviceAddress>) -> Map<u64, PciDeviceAddress>;

/// What the identity-to-firmware-path map holds.
pub uninterp spec fn acpi_map_contents(m: hashbrown::HashMap<u64, String>) -> Map<u64, String>;

/// Relies on hashbrown's `HashSet::new`: a new set holds nothing.
#[verifier::external_body]
pub(crate) fn id_set_new() -> (r: hashbrown::HashSet<u64>)
    ensures
        id_set_contents(r) =~= Set::empty(),
{
    hashbrown::HashSet::new()
}

/// Relies on hashbrown's `HashSet::contains`: membership by `u64` equality.
#[verifier::external_body]
pub(crate) fn id_set_contains(s: &hashbrown::HashSet<u64>, k: u64) -> (r: bool)
    ensures
        r == id_set_contents(*s).contains(k),
{
    s.contains(&k)
}

/// Relies on hashbrown's `HashSet::insert`: the value is in the set
/// afterwards, and so is everything that was.
#[verifier::external_body]
pub(crate) fn id_set_insert(s: &mut hashbrown::HashSet<u64>, k: u64)
    ensures
        id_set_contents(*final(s)) == id_set_contents(*old(s)).insert(k),
{
    s.insert(k);
}

/// Relies on hashbrown's `HashMap::new`: a new map holds nothing.
#[verifier::external_body]
pub(crate) fn parent_map_new() -> (r: hashbrown::HashMap<u64, u64>)
    ensures
        parent_map_contents(r) =~= Map::empty(),
{
    hashbrown::HashMap::new()
}

/// Relies on hashbrown's `HashMap::get`: the value stored under the key.
#[verifier::external_body]
pub(crate) fn parent_map_get(m: &hashbrown::HashMap<u64, u64>, k: u64) -> (r: Option<u64>)
    ensures
        parent_map_contents(*m).dom().contains(k) ==> r == Some(parent_map_contents(*m)[k]),
        !parent_map_contents(*m).dom().contains(k) ==> r is None,
{
    m.get(&k).copied()
}

/// Relies on hashbrown's `HashMap::insert`: the key now maps to the value,
/// every other entry stays.
#[verifier::external_body]
pub(crate) fn parent_map_insert(m: &mut hashbrown::HashMap<u64, u64>, k: u64, v: u64)
    ensures
        parent_map_contents(*final(m)) == parent_map_contents(*old(m)).insert(k, v),
{
    m.insert(k, v);
}

/// Relies on hashbrown's `HashMap::new`: a new map holds nothing.
#[verifier::external_body]
pub(crate) fn pci_map_new() -> (r: hashbrown::HashMap<u64, PciDeviceAddress>)
    ensures
        pci_map_contents(r) =~= Map::empty(),
{
    hashbrown::HashMap::new()
}

/// Relies on hashbrown's `HashMap::get`: the value stored under the key,
/// copied out.
#[verifier::external_body]
pub(crate) fn pci_map_get(m: &hashbrown::HashMap<u64, PciDeviceAddress>, k: u64) -> (r: Option<PciDeviceAddress>)
    ensures
        pci_map_contents(*m).dom().contains(k) ==> r == Some(pci_map_contents(*m)[k]),
        !pci_map_contents(*m).dom().contains(k) ==> r is None,
{
    m.get(&k).copied()
}

/// Relies on hashbrown's `HashMap::insert`: the key now maps to the value,
/// every other entry stays.
#[verifier::external_body]
pub(crate) fn pci_map_insert(m: &mut hashbrown::HashMap<u64, PciDeviceAddress>, k: u64, v: PciDeviceAddress)
    ensures
        pci_map_contents(*final(m)) == pci_map_contents(*old(m)).insert(k, v),
{
    m.insert(k, v);
}

/// Relies on hashbrown's `HashMap::new`: a new map holds nothing.
#[verifier::external_body]
pub(crate) fn acpi_map_new() -> (r: hashbrown::HashMap<u64, String>)
    ensures
        acpi_map_contents(r) =~= Map::empty(),
{
    hashbrown::HashMap::new()
}

/// Relies on hashbrown's `HashMap::get`: the value stored under the key,
/// cloned out (a `String` clone is equal to its source).
#[verifier::external_body]
pub(crate) fn acpi_map_get(m: &hashbrown::HashMap<u64, String>, k: u64) -> (r: Option<String>)
    ensures
        acpi_map_contents(*m).dom().contains(k) ==> r == Some(acpi_map_contents(*m)[k]),
        !acpi_map_contents(*m).dom().contains(k) ==> r is None,
{
    m.get(&k).cloned()
}

/// Relies on hashbrown's `HashMap::insert`: the key now maps to the value,
/// every other entry stays.
#[verifier::external_body]
pub(crate) fn acpi_map_insert(m: &mut hashbrown::HashMap<u64, String>, k: u64, v: String)
    ensures
        acpi_map_contents(*final(m)) == acpi_map_contents(*old(m)).insert(k, v),
{
    m.insert(k, v);
}

} // verus!
