//! Numbering of the hardware interrupt lines behind the two chained PICs.
use vstd::prelude::*;

verus! {

/// First interrupt vector of the primary PIC.
pub const PIC_1_OFFSET: u8 = 0x20;

/// First interrupt vector of the secondary PIC.
pub const PIC_2_OFFSET: u8 = PIC_1_OFFSET + 8;

/// The interrupt lines the kernel handles.
#[derive(Debug, Clone, Copy, PartialEq, Eq, Structural)]
pub enum Irq {
    Timer,
    Keyboard,
}

impl Irq {
    /// The line number on the primary PIC.
    pub open spec fn spec_vector(self) -> u8 {
        match self {
            Irq::Timer => 0,
            Irq::Keyboard => 1,
        }
    }

    /// The line number on the primary PIC.
    pub fn vector(&self) -> (r: u8)
        ensures
            r == self.spec_vector(),
    {
        match self {
            Irq::Timer => 0,
            Irq::Keyboard => 1,
        }
    }

    /// The CPU interrupt vector the line is remapped to.
    pub fn interrupt_id(&self) -> (r: u8)
        ensures
            r == PIC_1_OFFSET + self.spec_vector(),
    {
        PIC_1_OFFSET + self.vector()
    }
}

} // verus!
