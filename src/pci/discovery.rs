//! Discovery of the PCI functions below a bus, through bridges, with each
//! function registered in the device manager.
use vstd::prelude::*;

use super::bus_iterator::{PciBusIterator, SLOTS_PER_BUS};
use super::device_address::{header_type_of, PciDeviceAddress, PciDeviceRegister, PciHeaderType};
use crate::device::{registered_record, registered_records, Device, DeviceId, DeviceManager};

verus! {

/// Number of bus numbers, and so the deepest the walk can nest.
pub const BUS_COUNT: usize = 256;

/// Number of buses not yet walked.
pub open spec fn unvisited(visited: Seq<bool>) -> nat
    decreases visited.len(),
{
    if visited.len() == 0 {
        0
    } else {
        unvisited(visited.drop_last()) + if visited.last() {
            0nat
        } else {
            1nat
        }
    }
}

/// Steps left to the walks of a stack, each at most
/// `SLOTS_PER_BUS * 16 + 16` less its position.
pub open spec fn walks_left(stack: Seq<(PciBusIterator, Option<DeviceId>)>) -> int
    decreases stack.len(),
{
    if stack.len() == 0 {
        0
    } else {
        walks_left(stack.drop_last()) + (SLOTS_PER_BUS * 16 + 16 - stack.last().0.position())
    }
}

proof fn lemma_unvisited_update(visited: Seq<bool>, b: int)
    requires
        0 <= b < visited.len(),
        !visited[b],
    ensures
        unvisited(visited.update(b, true)) + 1 == unvisited(visited),
    decreases visited.len(),
{
    let v1 = visited.update(b, true);
    if b == visited.len() - 1 {
        assert(v1.drop_last() =~= visited.drop_last());
    } else {
        assert(v1.drop_last() =~= visited.drop_last().update(b, true));
        lemma_unvisited_update(visited.drop_last(), b);
    }
}

proof fn lemma_walks_left_nonnegative(stack: Seq<(PciBusIterator, Option<DeviceId>)>)
    requires
        forall|i: int| 0 <= i < stack.len() ==> (#[trigger] stack[i]).0.wf(),
    ensures
        walks_left(stack) >= 0,
    decreases stack.len(),
{
    if stack.len() > 0 {
        assert(stack.last().0.wf());
        lemma_walks_left_nonnegative(stack.drop_last());
    }
}

/// A register read that a discovery awaits for a function it has found.
#[derive(Debug, Clone, Copy, PartialEq, Eq, Structural)]
pub enum PendingRead {
    /// The Header-Type of a found function, to tell whether it is a bridge.
    HeaderType(PciDeviceAddress, DeviceId),
    /// The Secondary-Bus-Number of a found PCI-to-PCI bridge.
    SecondaryBus(PciDeviceAddress, DeviceId),
}

/// The recursive discovery of a bus, kept as an explicit stack of bus
/// walks, each with the identity its functions are registered under. The
/// caller reads the register that `next_read` names and hands the value to
/// `advance`. A bridge's secondary bus is walked next, under the bridge's
/// identity; a bus number already walked is not walked again, so the walk
/// ends even where bridges name each other.
#[derive(Debug)]
pub struct PciBusDiscovery {
    pub base_address: u64,
    pub segment: u16,
    pub stack: Vec<(PciBusIterator, Option<DeviceId>)>,
    pub pending: Option<PendingRead>,
    pub visited: Vec<bool>,
}

impl PciBusDiscovery {
    pub open spec fn wf(&self) -> bool {
        &&& self.visited@.len() == BUS_COUNT
        &&& self.stack@.len() <= BUS_COUNT
        &&& forall|i: int|
            0 <= i < self.stack@.len() ==> {
                let w = (#[trigger] self.stack@[i]).0;
                &&& w.wf()
                &&& w.base_address == self.base_address
                &&& w.segment == self.segment
            }
    }

    /// The work left: buses not yet walked first, then three times the
    /// steps left to the walks on the stack plus the reads awaited for the
    /// function last found. Every `advance` lowers it, so a discovery ends.
    pub open spec fn work_left(&self) -> (nat, int) {
        (unvisited(self.visited@), 3 * walks_left(self.stack@) + match self.pending {
            Some(PendingRead::HeaderType(..)) => 2int,
            Some(PendingRead::SecondaryBus(..)) => 1int,
            None => 0int,
        })
    }

    /// Whether `self` has less work left than `other`.
    pub open spec fn less_work_than(&self, other: &PciBusDiscovery) -> bool {
        ||| self.work_left().0 < other.work_left().0
        ||| (self.work_left().0 == other.work_left().0 && self.work_left().1 < other.work_left().1)
    }

    /// Whether a register read is awaited.
    pub open spec fn is_ready(&self) -> bool {
        self.pending is Some || (self.stack@.len() > 0 && !self.stack@.last().0.is_done())
    }

    /// The register read that the discovery awaits, if any.
    pub open spec fn spec_next_read(&self) -> Option<(PciDeviceAddress, PciDeviceRegister)> {
        match self.pending {
            Some(PendingRead::HeaderType(a, _)) => Some((a, PciDeviceRegister::HeaderType)),
            Some(PendingRead::SecondaryBus(a, _)) => Some((a, PciDeviceRegister::SecondaryBusNumber)),
            None => if self.stack@.len() > 0 && !self.stack@.last().0.is_done() {
                let w = self.stack@.last().0;
                Some((w.spec_current(), if w.reading_header {
                    PciDeviceRegister::HeaderType
                } else {
                    PciDeviceRegister::VendorID
                }))
            } else {
                None
            },
        }
    }

    /// A discovery of bus `bus` of the segment whose configuration region
    /// starts at `base_address`, registering what it finds under `parent`.
    pub fn new(base_address: u64, segment: u16, bus: u8, parent: Option<DeviceId>) -> (r: PciBusDiscovery)
        ensures
            r.wf(),
            r.base_address == base_address,
            r.segment == segment,
            r.stack@ == seq![(PciBusIterator::new_spec(base_address, segment, bus), parent)],
            r.pending is None,
            forall|b: int| 0 <= b < BUS_COUNT ==> r.visited@[b] == (b == bus),
    {
        let mut visited: Vec<bool> = Vec::new();
        let mut b: usize = 0;
        while b < BUS_COUNT
            invariant
                b <= BUS_COUNT,
                visited@.len() == b,
                forall|i: int| 0 <= i < b ==> visited@[i] == (i == bus),
            decreases BUS_COUNT - b,
        {
            visited.push(b == bus as usize);
            b = b + 1;
        }
        let mut stack: Vec<(PciBusIterator, Option<DeviceId>)> = Vec::new();
        stack.push((PciBusIterator::new(base_address, segment, bus), parent));
        PciBusDiscovery { base_address, segment, stack, pending: None, visited }
    }

    /// Drops the walks that are over from the top of the stack and names
    /// the register whose value the discovery needs next; `None` once
    /// every bus has been walked.
    pub fn next_read(&mut self) -> (r: Option<(PciDeviceAddress, PciDeviceRegister)>)
        requires
            old(self).wf(),
        ensures
            final(self).wf(),
            final(self).base_address == old(self).base_address,
            final(self).segment == old(self).segment,
            final(self).pending == old(self).pending,
            final(self).visited == old(self).visited,
            final(self).stack@.len() <= old(self).stack@.len(),
            final(self).stack@ == old(self).stack@.subrange(0, final(self).stack@.len() as int),
            forall|i: int|
                final(self).stack@.len() <= i < old(self).stack@.len() ==> (#[trigger] old(self).stack@[i]).0.is_done(),
            r == final(self).spec_next_read(),
            r is Some <==> final(self).is_ready(),
            final(self).pending is None ==> (final(self).stack@.len() == 0
                || !final(self).stack@.last().0.is_done()),
            final(self).work_left().0 == old(self).work_left().0,
            final(self).work_left().1 <= old(self).work_left().1,
    {
        if self.pending.is_none() {
            while self.stack.len() > 0 && self.stack[self.stack.len() - 1].0.slot >= 256
                invariant
                    self.wf(),
                    self.base_address == old(self).base_address,
                    self.segment == old(self).segment,
                    self.pending == old(self).pending,
                    self.visited == old(self).visited,
                    self.stack@.len() <= old(self).stack@.len(),
                    self.stack@ == old(self).stack@.subrange(0, self.stack@.len() as int),
                    forall|i: int|
                        self.stack@.len() <= i < old(self).stack@.len() ==> (#[trigger] old(self).stack@[i]).0.is_done(),
                    walks_left(self.stack@) <= walks_left(old(self).stack@),
                decreases self.stack@.len(),
            {
                let ghost before = self.stack@;
                self.stack.pop();
                proof {
                    assert(self.stack@ =~= before.drop_last());
                    assert(before.last().0.wf());
                }
            }
        }
        match &self.pending {
            Some(PendingRead::HeaderType(a, _)) => Some((*a, PciDeviceRegister::HeaderType)),
            Some(PendingRead::SecondaryBus(a, _)) => Some((*a, PciDeviceRegister::SecondaryBusNumber)),
            None => {
                if self.stack.len() > 0 {
                    self.stack[self.stack.len() - 1].0.next_read()
                } else {
                    None
                }
            },
        }
    }

    /// Takes the value read at the register `next_read` named (widened to
    /// 16 bits) and moves the discovery on:
    /// - a Header-Type that names a PCI-to-PCI bridge asks next for the
    ///   bridge's Secondary-Bus-Number; any other value ends the function;
    /// - a Secondary-Bus-Number starts a walk of that bus under the
    ///   bridge's identity, unless the bus was walked already;
    /// - otherwise the value steps the walk on top of the stack, and a
    ///   function it reports is registered under the walk's parent and
    ///   returned, its Header-Type to be read next.
    pub fn advance(&mut self, devices: &mut DeviceManager, value: u16) -> (r: Option<Device>)
        requires
            old(self).wf(),
            old(self).is_ready(),
            old(devices).wf(),
            old(devices)@.len() + 1 < u64::MAX,
        ensures
            final(self).wf(),
            final(devices).wf(),
            final(self).base_address == old(self).base_address,
            final(self).segment == old(self).segment,
            final(self).less_work_than(old(self)),
            final(self).work_left().1 >= 0,
            old(self).pending matches Some(PendingRead::HeaderType(a, id)) ==> ({
                &&& r is None
                &&& final(devices)@ == old(devices)@
                &&& final(self).stack@ == old(self).stack@
                &&& final(self).visited@ == old(self).visited@
                &&& header_type_of((value % 0x100) as u8) == Some(PciHeaderType::PciToPciBridge)
                    ==> final(self).pending == Some(PendingRead::SecondaryBus(a, id))
                &&& header_type_of((value % 0x100) as u8) != Some(PciHeaderType::PciToPciBridge)
                    ==> final(self).pending is None
            }),
            old(self).pending matches Some(PendingRead::SecondaryBus(a, id)) ==> ({
                let bus = (value % 0x100) as u8;
                let fresh = !old(self).visited@[bus as int] && old(self).stack@.len() < BUS_COUNT;
                &&& r is None
                &&& final(devices)@ == old(devices)@
                &&& final(self).pending is None
                &&& fresh ==> final(self).stack@ == old(self).stack@.push(
                    (PciBusIterator::new_spec(old(self).base_address, old(self).segment, bus), Some(id)),
                )
                &&& fresh ==> final(self).visited@ == old(self).visited@.update(bus as int, true)
                &&& !fresh ==> final(self).stack@ == old(self).stack@
                &&& !fresh ==> final(self).visited@ == old(self).visited@
            }),
            old(self).pending is None ==> ({
                let top = old(self).stack@.len() - 1;
                let (walk, parent) = old(self).stack@[top];
                let (walk2, found) = walk.step(value);
                &&& final(self).stack@ == old(self).stack@.update(top, (walk2, parent))
                &&& final(self).visited@ == old(self).visited@
                &&& found is None ==> r is None && final(devices)@ == old(devices)@ && final(self).pending is None
                &&& found matches Some(a) ==> final(devices)@ == registered_records(
                    old(devices)@,
                    None,
                    Some(a),
                    parent,
                    None,
                ) && r == Some(registered_record(old(devices)@, None, Some(a), parent, None))
                    && final(self).pending == Some(PendingRead::HeaderType(a, r.unwrap().id))
            }),
    {
        match self.pending {
            Some(PendingRead::HeaderType(a, id)) => {
                let header = (value % 0x100) as u8;
                let bridge = match PciDeviceAddress::header_type(header) {
                    Ok(PciHeaderType::PciToPciBridge) => true,
                    _ => false,
                };
                self.pending = if bridge {
                    Some(PendingRead::SecondaryBus(a, id))
                } else {
                    None
                };
                proof {
                    lemma_walks_left_nonnegative(self.stack@);
                }
                None
            },
            Some(PendingRead::SecondaryBus(_, id)) => {
                let bus = (value % 0x100) as u8;
                self.pending = None;
                let ghost visited0 = self.visited@;
                let ghost stack0 = self.stack@;
                if !self.visited[bus as usize] && self.stack.len() < BUS_COUNT {
                    self.visited.set(bus as usize, true);
                    self.stack.push((PciBusIterator::new(self.base_address, self.segment, bus), Some(id)));
                    proof {
                        lemma_unvisited_update(visited0, bus as int);
                        assert(self.stack@.drop_last() =~= stack0);
                    }
                }
                proof {
                    lemma_walks_left_nonnegative(self.stack@);
                }
                None
            },
            None => {
                let top = self.stack.len() - 1;
                let (mut walk, parent) = self.stack[top];
                let ghost stack0 = self.stack@;
                let found = walk.advance(value);
                self.stack.set(top, (walk, parent));
                proof {
                    assert(self.stack@.drop_last() =~= stack0.drop_last());
                    lemma_walks_left_nonnegative(self.stack@);
                }
                match found {
                    Some(a) => {
                        let rec = devices.register(None, Some(a), parent, None);
                        self.pending = Some(PendingRead::HeaderType(a, rec.id));
                        Some(rec)
                    },
                    None => None,
                }
            },
        }
    }
}

} // verus!
