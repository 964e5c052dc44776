//! The register file: eight 8-bit general registers, two 16-bit general
//! registers and six 16-bit special registers. All start at zero.

use vstd::prelude::*;

verus! {

/// The machine's register file. 8-bit general registers never hold values
/// above 255 by construction of their type; 16-bit registers wrap modulo
/// 65536 on arithmetic (enforced by the ALU, not by this struct).
#[derive(Debug, Clone, Copy, PartialEq, Eq, Structural)]
pub struct Registers {
    /// 8-bit general registers.
    pub r0: u8,
    pub r1: u8,
    pub r2: u8,
    pub r3: u8,
    pub r4: u8,
    pub r5: u8,
    pub r6: u8,
    pub r7: u8,
    /// 16-bit general registers.
    pub l0: u16,
    pub l1: u16,
    /// Instruction counter: byte offset of the next instruction to fetch.
    pub ic: u16,
    /// Flags register: equal / greater / less bits set by equality ops.
    pub fg: u16,
    /// Control (call-return) register.
    pub cr: u16,
    /// Stack pointer: next free byte of the stack region.
    pub sp: u16,
    /// Variable pointer: base address for variable-region addressing.
    pub vp: u16,
    /// Zero / scratch register.
    pub zr: u16,
}

impl Default for Registers {
    /// A fresh register file, all registers zero.
    fn default() -> (r: Registers)
        ensures
            r == Registers::zeroed(),
    {
        Registers {
            r0: 0,
            r1: 0,
            r2: 0,
            r3: 0,
            r4: 0,
            r5: 0,
            r6: 0,
            r7: 0,
            l0: 0,
            l1: 0,
            ic: 0,
            fg: 0,
            cr: 0,
            sp: 0,
            vp: 0,
            zr: 0,
        }
    }
}

impl Registers {
    /// The all-zero register file.
    pub open spec fn zeroed() -> Registers {
        Registers {
            r0: 0,
            r1: 0,
            r2: 0,
            r3: 0,
            r4: 0,
            r5: 0,
            r6: 0,
            r7: 0,
            l0: 0,
            l1: 0,
            ic: 0,
            fg: 0,
            cr: 0,
            sp: 0,
            vp: 0,
            zr: 0,
        }
    }
}

} // verus!
