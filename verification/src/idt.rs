//! The interrupt vectors the kernel installs. Building and loading the
//! descriptor table is hardware plumbing outside this crate; the numbers the
//! scheduler and drivers agree on live here.

use vstd::prelude::*;

verus! {

/// Vector the first controller's lines start at.
pub const PIC_1_OFFSET: u8 = 32;

/// Vector the second controller's lines start at.
pub const PIC_2_OFFSET: u8 = 40;

/// The interrupt lines the kernel handles beyond the CPU exceptions: the
/// timer and keyboard lines of the controller, and the software syscall
/// vector.
#[derive(Debug, Clone, Copy, PartialEq, Eq, Structural)]
pub enum InterruptIndex {
    Timer,
    Keyboard,
    System,
}

impl InterruptIndex {
    /// The vector number: the timer on the controller's first line, the
    /// keyboard on its second, the syscall gate at 0x80.
    pub fn as_u8(self) -> (v: u8)
        ensures
            self is Timer ==> v == PIC_1_OFFSET,
            self is Keyboard ==> v == PIC_1_OFFSET + 1,
            self is System ==> v == 0x80,
    {
        match self {
            InterruptIndex::Timer => 32,
            InterruptIndex::Keyboard => 33,
            InterruptIndex::System => 0x80,
        }
    }

    /// The vector number as a table index.
    pub fn as_usize(self) -> (v: usize)
        ensures
            self is Timer ==> v == PIC_1_OFFSET,
            self is Keyboard ==> v == PIC_1_OFFSET + 1,
            self is System ==> v == 0x80,
    {
        self.as_u8() as usize
    }
}

} // verus!
