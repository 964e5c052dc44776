//! The virtual machine core: register file access, the unified 64 KiB
//! memory with its stack and variable regions, the instruction stream,
//! and the fetch-decode-execute engine.

use vstd::prelude::*;

use crate::isa::AluArg;
use crate::isa::AluOp;
use crate::isa::Decoded;
use crate::isa::SYSCALL_OPCODE;
use crate::isa::spec_decode;
use crate::isa::spec_word;
use crate::registers::Registers;

verus! {

/// Total size of the unified addressable memory: one byte for every
/// 16-bit address.
pub const MEM_SIZE: usize = 65536;

/// First address of the variable region; the stack region is everything
/// below it.
pub const VAR_BASE: u16 = 32768;

/// A fatal run-time error: decoding reached a reserved or unimplemented
/// bit pattern, the instruction counter ran past the end of the stream,
/// an operation mixed 8-bit and 16-bit operands, or a syscall trap named
/// an unknown call number.
#[derive(Debug, Clone, Copy, PartialEq, Eq, Structural)]
pub enum VmError {
    /// The instruction counter, or an operand read, ran past the end of
    /// the instruction stream without a clean halt.
    InstructionOverrun,
    /// The opcode byte holds a reserved bit pattern.
    ReservedOpcode(u8),
    /// The opcode byte names an operation that the machine declares but
    /// does not implement (swap, return-from-interrupt).
    UnimplementedOpcode(u8),
    /// An arithmetic, logic or comparison operation was given one 8-bit
    /// and one 16-bit operand.
    WidthMismatch,
    /// A syscall trap was reached with an unknown call number.
    UnknownSyscall(u8),
}

/// A width-polymorphic value: either an 8-bit or a 16-bit unsigned
/// integer. Binary arithmetic, logic and comparison require both sides
/// to carry the same width.
#[derive(Debug, Clone, Copy, PartialEq, Eq, Structural)]
pub enum RegEither {
    Left(u8),
    Right(u16),
}

impl RegEither {
    /// The value seen as 8 bits; a 16-bit value is truncated.
    pub open spec fn spec_as_u8(self) -> u8 {
        match self {
            RegEither::Left(v) => v,
            RegEither::Right(v) => (v % 256) as u8,
        }
    }

    /// The value seen as 16 bits; an 8-bit value is zero-extended.
    pub open spec fn spec_as_u16(self) -> u16 {
        match self {
            RegEither::Left(v) => v as u16,
            RegEither::Right(v) => v,
        }
    }

    pub fn as_u8(self) -> (r: u8)
        ensures
            r == self.spec_as_u8(),
    {
        match self {
            RegEither::Left(v) => v,
            RegEither::Right(v) => (v % 256) as u8,
        }
    }

    pub fn as_u16(self) -> (r: u16)
        ensures
            r == self.spec_as_u16(),
    {
        match self {
            RegEither::Left(v) => v as u16,
            RegEither::Right(v) => v,
        }
    }
}

/// One of the sixteen architectural registers, as named by a 4-bit
/// selector in an instruction's operand byte.
#[derive(Debug, Clone, Copy, PartialEq, Eq, Structural)]
pub enum Register {
    Ic,
    Fg,
    Cr,
    Sp,
    Vp,
    Zr,
    R0,
    R1,
    R2,
    R3,
    R4,
    R5,
    R6,
    R7,
    L0,
    L1,
}

/// A register together with a value read from it or destined for it.
#[derive(Debug, Clone, Copy, PartialEq, Eq, Structural)]
pub struct RegisterValue {
    pub value: RegEither,
    pub register: Register,
}

impl RegisterValue {
    pub fn new(value: RegEither, register: Register) -> (r: RegisterValue)
        ensures
            r.value == value,
            r.register == register,
    {
        RegisterValue { value, register }
    }
}

/// The register named by a 4-bit selector code.
pub open spec fn spec_register_name(sel: u8) -> Register
    recommends
        sel < 16,
{
    if sel == 0 {
        Register::R0
    } else if sel == 1 {
        Register::R1
    } else if sel == 2 {
        Register::R2
    } else if sel == 3 {
        Register::R3
    } else if sel == 4 {
        Register::R4
    } else if sel == 5 {
        Register::R5
    } else if sel == 6 {
        Register::R6
    } else if sel == 7 {
        Register::R7
    } else if sel == 8 {
        Register::Vp
    } else if sel == 9 {
        Register::L0
    } else if sel == 10 {
        Register::L1
    } else if sel == 11 {
        Register::Ic
    } else if sel == 12 {
        Register::Fg
    } else if sel == 13 {
        Register::Cr
    } else if sel == 14 {
        Register::Sp
    } else {
        Register::Zr
    }
}

/// The width-tagged value held by a register: 8-bit general registers
/// yield 8-bit values, every other register yields a 16-bit value.
pub open spec fn spec_register_val(regs: Registers, name: Register) -> RegEither {
    match name {
        Register::R0 => RegEither::Left(regs.r0),
        Register::R1 => RegEither::Left(regs.r1),
        Register::R2 => RegEither::Left(regs.r2),
        Register::R3 => RegEither::Left(regs.r3),
        Register::R4 => RegEither::Left(regs.r4),
        Register::R5 => RegEither::Left(regs.r5),
        Register::R6 => RegEither::Left(regs.r6),
        Register::R7 => RegEither::Left(regs.r7),
        Register::Vp => RegEither::Right(regs.vp),
        Register::L0 => RegEither::Right(regs.l0),
        Register::L1 => RegEither::Right(regs.l1),
        Register::Ic => RegEither::Right(regs.ic),
        Register::Fg => RegEither::Right(regs.fg),
        Register::Cr => RegEither::Right(regs.cr),
        Register::Sp => RegEither::Right(regs.sp),
        Register::Zr => RegEither::Right(regs.zr),
    }
}

/// The register file after storing `value` into the named register:
/// an 8-bit register takes the value truncated to 8 bits, a 16-bit
/// register takes it zero-extended to 16 bits.
pub open spec fn spec_register_save(regs: Registers, name: Register, value: RegEither) -> Registers {
    match name {
        Register::R0 => Registers { r0: value.spec_as_u8(), ..regs },
        Register::R1 => Registers { r1: value.spec_as_u8(), ..regs },
        Register::R2 => Registers { r2: value.spec_as_u8(), ..regs },
        Register::R3 => Registers { r3: value.spec_as_u8(), ..regs },
        Register::R4 => Registers { r4: value.spec_as_u8(), ..regs },
        Register::R5 => Registers { r5: value.spec_as_u8(), ..regs },
        Register::R6 => Registers { r6: value.spec_as_u8(), ..regs },
        Register::R7 => Registers { r7: value.spec_as_u8(), ..regs },
        Register::L0 => Registers { l0: value.spec_as_u16(), ..regs },
        Register::L1 => Registers { l1: value.spec_as_u16(), ..regs },
        Register::Ic => Registers { ic: value.spec_as_u16(), ..regs },
        Register::Fg => Registers { fg: value.spec_as_u16(), ..regs },
        Register::Cr => Registers { cr: value.spec_as_u16(), ..regs },
        Register::Sp => Registers { sp: value.spec_as_u16(), ..regs },
        Register::Vp => Registers { vp: value.spec_as_u16(), ..regs },
        Register::Zr => Registers { zr: value.spec_as_u16(), ..regs },
    }
}

/// The unified 64 KiB memory: the stack region is the lower half, the
/// variable region the upper half, both aliasing one byte array.
#[derive(Debug)]
pub struct Stack {
    memory: Vec<u8>,
}

impl View for Stack {
    type V = Seq<u8>;

    closed spec fn view(&self) -> Seq<u8> {
        self.memory@
    }
}

impl Stack {
    /// Well-formed memory holds exactly one byte per 16-bit address.
    pub open spec fn wf(&self) -> bool {
        self@.len() == MEM_SIZE
    }

    /// The memory from the given address to the top of the space.
    pub fn from_sp(&self, sp: u16) -> (r: &[u8])
        requires
            self.wf(),
        ensures
            r@ == self@.subrange(sp as int, MEM_SIZE as int),
    {
        vstd::slice::slice_subrange(self.memory.as_slice(), sp as usize, MEM_SIZE)
    }

    /// The whole 64 KiB memory.
    pub fn memory(&self) -> (r: &Vec<u8>)
        ensures
            r@ == self@,
    {
        &self.memory
    }

    /// The whole 64 KiB memory, writable.
    pub fn memory_mut(&mut self) -> (r: &mut Vec<u8>)
        ensures
            r@ == old(self)@,
            final(self)@ == final(r)@,
    {
        &mut self.memory
    }

    /// The stack region: the lower half of memory.
    pub fn stack(&self) -> (r: &[u8])
        requires
            self.wf(),
        ensures
            r@ == self@.subrange(0, VAR_BASE as int),
    {
        vstd::slice::slice_subrange(self.memory.as_slice(), 0, VAR_BASE as usize)
    }

    /// The variable region: the upper half of memory.
    pub fn variable(&self) -> (r: &[u8])
        requires
            self.wf(),
        ensures
            r@ == self@.subrange(VAR_BASE as int, MEM_SIZE as int),
    {
        vstd::slice::slice_subrange(self.memory.as_slice(), VAR_BASE as usize, MEM_SIZE)
    }

    /// Write one byte at an absolute address.
    pub fn save_value(&mut self, addr: u16, value: u8)
        requires
            old(self).wf(),
        ensures
            final(self)@ == old(self)@.update(addr as int, value),
            final(self).wf(),
    {
        self.memory[addr as usize] = value;
    }

    /// Write a 16-bit value, little-endian, at an absolute address; the
    /// high byte lands at the next address, wrapping at the top of the
    /// space.
    pub fn save_value_16(&mut self, addr: u16, value: u16)
        requires
            old(self).wf(),
        ensures
            final(self)@ == old(self)@.update(addr as int, (value % 256) as u8).update(
                addr.wrapping_add(1) as int,
                (value / 256) as u8,
            ),
            final(self).wf(),
    {
        let li: u8 = (value % 256) as u8;
        let mi: u8 = (value / 256) as u8;
        self.memory[addr as usize] = li;
        let next: u16 = addr.wrapping_add(1);
        self.memory[next as usize] = mi;
    }

    /// Read one byte at an absolute address.
    pub fn load_value(&mut self, addr: u16) -> (r: u8)
        requires
            old(self).wf(),
        ensures
            final(self)@ == old(self)@,
            r == old(self)@[addr as int],
    {
        self.memory[addr as usize]
    }

    /// Read a 16-bit little-endian value at an absolute address; the
    /// high byte comes from the next address, wrapping at the top of
    /// the space.
    pub fn load_value_16(&mut self, addr: u16) -> (r: u16)
        requires
            old(self).wf(),
        ensures
            final(self)@ == old(self)@,
            r == old(self)@[addr as int] + old(self)@[addr.wrapping_add(1) as int] * 256,
    {
        let li: u8 = self.memory[addr as usize];
        let next: u16 = addr.wrapping_add(1);
        let mi: u8 = self.memory[next as usize];
        li as u16 + mi as u16 * 256
    }
}

impl Default for Stack {
    /// A fresh memory, all bytes zero.
    fn default() -> (r: Stack)
        ensures
            r.wf(),
            r@ == Seq::new(MEM_SIZE as nat, |i: int| 0u8),
    {
        let memory: Vec<u8> = vec![0u8; MEM_SIZE];
        proof {
            assert(memory@ =~= Seq::new(MEM_SIZE as nat, |i: int| 0u8));
        }
        Stack { memory }
    }
}

/// The immutable, linearly addressed instruction byte stream; the
/// instruction counter indexes into it.
#[derive(Debug, Default)]
pub struct Instructions {
    /// Linear encoded instruction bytes.
    pub instructions: Vec<u8>,
}

impl Instructions {
    /// Length of the stream in bytes.
    pub fn size(&self) -> (r: usize)
        ensures
            r == self.instructions@.len(),
    {
        self.instructions.len()
    }

    /// The byte at a stream offset.
    pub fn get(&self, idx: u16) -> (r: u8)
        requires
            idx < self.instructions@.len(),
        ensures
            r == self.instructions@[idx as int],
    {
        self.instructions[idx as usize]
    }
}

/// 8-bit addition wrapping modulo 256.
pub open spec fn spec_wadd8(a: u8, b: u8) -> u8 {
    if a + b > 255 {
        (a + b - 256) as u8
    } else {
        (a + b) as u8
    }
}

/// 8-bit subtraction wrapping modulo 256.
pub open spec fn spec_wsub8(a: u8, b: u8) -> u8 {
    if a - b < 0 {
        (a - b + 256) as u8
    } else {
        (a - b) as u8
    }
}

/// 16-bit addition wrapping modulo 65536.
pub open spec fn spec_wadd16(a: u16, b: u16) -> u16 {
    if a + b > 65535 {
        (a + b - 65536) as u16
    } else {
        (a + b) as u16
    }
}

/// 16-bit subtraction wrapping modulo 65536.
pub open spec fn spec_wsub16(a: u16, b: u16) -> u16 {
    if a - b < 0 {
        (a - b + 65536) as u16
    } else {
        (a - b) as u16
    }
}

/// A binary ALU operation on two width-polymorphic values. Addition and
/// subtraction wrap within the operand width; mixing an 8-bit and a
/// 16-bit operand is a fatal width mismatch.
pub open spec fn spec_alu_binary(op: AluOp, a: RegEither, b: RegEither) -> Result<
    RegEither,
    VmError,
> {
    match (a, b) {
        (RegEither::Left(x), RegEither::Left(y)) => Ok(
            RegEither::Left(
                match op {
                    AluOp::Add => spec_wadd8(x, y),
                    AluOp::Subtract => spec_wsub8(x, y),
                    AluOp::And => x & y,
                    AluOp::Or => x | y,
                    AluOp::Xor => x ^ y,
                    _ => x,
                },
            ),
        ),
        (RegEither::Right(x), RegEither::Right(y)) => Ok(
            RegEither::Right(
                match op {
                    AluOp::Add => spec_wadd16(x, y),
                    AluOp::Subtract => spec_wsub16(x, y),
                    AluOp::And => x & y,
                    AluOp::Or => x | y,
                    AluOp::Xor => x ^ y,
                    _ => x,
                },
            ),
        ),
        _ => Err(VmError::WidthMismatch),
    }
}

/// The flags value an equality operation produces: exactly one of the
/// equal (bit 0), greater-than (bit 1) and less-than (bit 2) bits set,
/// all other bits cleared. Comparing mixed widths is a fatal error.
pub open spec fn spec_eq_flags(a: RegEither, b: RegEither) -> Result<u16, VmError> {
    match (a, b) {
        (RegEither::Left(x), RegEither::Left(y)) => Ok(
            if x == y {
                1u16
            } else if x > y {
                2u16
            } else {
                4u16
            },
        ),
        (RegEither::Right(x), RegEither::Right(y)) => Ok(
            if x == y {
                1u16
            } else if x > y {
                2u16
            } else {
                4u16
            },
        ),
        _ => Err(VmError::WidthMismatch),
    }
}

/// Increment a width-polymorphic value by one, wrapping within its
/// width.
pub open spec fn spec_incr(a: RegEither) -> RegEither {
    match a {
        RegEither::Left(x) => RegEither::Left(spec_wadd8(x, 1)),
        RegEither::Right(x) => RegEither::Right(spec_wadd16(x, 1)),
    }
}

/// Decrement a width-polymorphic value by one, wrapping within its
/// width.
pub open spec fn spec_decr(a: RegEither) -> RegEither {
    match a {
        RegEither::Left(x) => RegEither::Left(spec_wsub8(x, 1)),
        RegEither::Right(x) => RegEither::Right(spec_wsub16(x, 1)),
    }
}

/// Bitwise complement of a width-polymorphic value.
pub open spec fn spec_not(a: RegEither) -> RegEither {
    match a {
        RegEither::Left(x) => RegEither::Left(!x),
        RegEither::Right(x) => RegEither::Right(!x),
    }
}

/// A snapshot of the whole machine: register file, unified memory, and
/// the instruction stream.
pub struct VmSnap {
    pub regs: Registers,
    pub mem: Seq<u8>,
    pub code: Seq<u8>,
}

/// Write a 16-bit value little-endian into memory, the high byte at the
/// next address, wrapping at the top of the space.
pub open spec fn spec_mem_write16(mem: Seq<u8>, addr: u16, v: u16) -> Seq<u8> {
    mem.update(addr as int, (v % 256) as u8).update(spec_wadd16(addr, 1) as int, (v / 256) as u8)
}

/// Read a 16-bit little-endian value from memory, the high byte from
/// the next address, wrapping at the top of the space.
pub open spec fn spec_mem_read16(mem: Seq<u8>, addr: u16) -> u16 {
    spec_word(mem[addr as int], mem[spec_wadd16(addr, 1) as int])
}

/// The register file with the instruction counter advanced past an
/// instruction of `used` bytes.
pub open spec fn spec_advance(regs: Registers, used: int) -> Registers
    recommends
        0 <= used <= 5,
{
    Registers { ic: spec_wadd16(regs.ic, used as u16), ..regs }
}

/// Execute one decoded instruction of `used` bytes against a machine
/// snapshot: the next snapshot and whether the syscall bridge was
/// trapped, or the fatal error the operation produces.
pub open spec fn spec_apply(s: VmSnap, d: Decoded, used: int) -> Result<(VmSnap, bool), VmError> {
    let regs = s.regs;
    match d {
        Decoded::Alu { op, dst, src } => {
            let name = spec_register_name(dst);
            let a = spec_register_val(regs, name);
            let b = match src {
                AluArg::Reg(sel) => spec_register_val(regs, spec_register_name(sel)),
                AluArg::Imm8(i) => RegEither::Left(i),
                AluArg::Imm16(i) => RegEither::Right(i),
            };
            match op {
                AluOp::Equality => match spec_eq_flags(a, b) {
                    Err(e) => Err(e),
                    Ok(fg) => {
                        // The comparison writes the flags first; the
                        // destination register is then written back with
                        // its unchanged value.
                        let regs1 = spec_register_save(Registers { fg, ..regs }, name, a);
                        Ok((VmSnap { regs: spec_advance(regs1, used), ..s }, false))
                    },
                },
                AluOp::Not => {
                    let regs1 = spec_register_save(regs, name, spec_not(a));
                    Ok((VmSnap { regs: spec_advance(regs1, used), ..s }, false))
                },
                AluOp::Increment => {
                    let regs1 = spec_register_save(regs, name, spec_incr(a));
                    Ok((VmSnap { regs: spec_advance(regs1, used), ..s }, false))
                },
                AluOp::Decrement => {
                    let regs1 = spec_register_save(regs, name, spec_decr(a));
                    Ok((VmSnap { regs: spec_advance(regs1, used), ..s }, false))
                },
                _ => match spec_alu_binary(op, a, b) {
                    Err(e) => Err(e),
                    Ok(v) => {
                        let regs1 = spec_register_save(regs, name, v);
                        Ok((VmSnap { regs: spec_advance(regs1, used), ..s }, false))
                    },
                },
            }
        },
        Decoded::StoreReg { dst, src } => {
            let v = spec_register_val(regs, spec_register_name(src));
            let regs1 = spec_register_save(regs, spec_register_name(dst), v);
            Ok((VmSnap { regs: spec_advance(regs1, used), ..s }, false))
        },
        Decoded::StoreImm8 { dst, imm } => {
            let regs1 = spec_register_save(regs, spec_register_name(dst), RegEither::Left(imm));
            Ok((VmSnap { regs: spec_advance(regs1, used), ..s }, false))
        },
        Decoded::StoreImm16 { dst, imm } => {
            let regs1 = spec_register_save(regs, spec_register_name(dst), RegEither::Right(imm));
            Ok((VmSnap { regs: spec_advance(regs1, used), ..s }, false))
        },
        Decoded::StoreMemReg { addr, src } => {
            let v = spec_register_val(regs, spec_register_name(src));
            let mem1 = match v {
                RegEither::Left(x) => s.mem.update(addr as int, x),
                RegEither::Right(x) => spec_mem_write16(s.mem, addr, x),
            };
            Ok((VmSnap { regs: spec_advance(regs, used), mem: mem1, ..s }, false))
        },
        Decoded::StoreMemImm8 { addr, imm } => {
            Ok(
                (
                    VmSnap {
                        regs: spec_advance(regs, used),
                        mem: s.mem.update(addr as int, imm),
                        ..s
                    },
                    false,
                ),
            )
        },
        Decoded::StoreMemImm16 { addr, imm } => {
            Ok(
                (
                    VmSnap {
                        regs: spec_advance(regs, used),
                        mem: spec_mem_write16(s.mem, addr, imm),
                        ..s
                    },
                    false,
                ),
            )
        },
        Decoded::LoadMem8 { addr, dst } => {
            let v = RegEither::Left(s.mem[addr as int]);
            let regs1 = spec_register_save(regs, spec_register_name(dst), v);
            Ok((VmSnap { regs: spec_advance(regs1, used), ..s }, false))
        },
        Decoded::LoadMem16 { addr, dst } => {
            let v = RegEither::Right(spec_mem_read16(s.mem, addr));
            let regs1 = spec_register_save(regs, spec_register_name(dst), v);
            Ok((VmSnap { regs: spec_advance(regs1, used), ..s }, false))
        },
        Decoded::PushReg { src } => {
            let v = spec_register_val(regs, spec_register_name(src));
            Ok((spec_push(s, v, used), false))
        },
        Decoded::PushImm8 { imm } => Ok((spec_push(s, RegEither::Left(imm), used), false)),
        Decoded::PushImm16 { imm } => Ok((spec_push(s, RegEither::Right(imm), used), false)),
        Decoded::Pop8 { dst } => {
            let sp1 = spec_wsub16(regs.sp, 1);
            let v = RegEither::Left(s.mem[sp1 as int]);
            let regs1 = spec_register_save(
                Registers { sp: sp1, ..regs },
                spec_register_name(dst),
                v,
            );
            Ok((VmSnap { regs: spec_advance(regs1, used), ..s }, false))
        },
        Decoded::Pop16 { dst } => {
            let sp1 = spec_wsub16(regs.sp, 2);
            let v = RegEither::Right(spec_mem_read16(s.mem, sp1));
            let regs1 = spec_register_save(
                Registers { sp: sp1, ..regs },
                spec_register_name(dst),
                v,
            );
            Ok((VmSnap { regs: spec_advance(regs1, used), ..s }, false))
        },
        Decoded::LoadVarReg { src } => {
            // The variable pointer is reset to the region base before
            // the operand register is read, so a selector naming the
            // variable pointer reads the base.
            let regs1 = Registers { vp: VAR_BASE, ..regs };
            let off = spec_register_val(regs1, spec_register_name(src)).spec_as_u16();
            let regs2 = Registers { vp: spec_wadd16(VAR_BASE, off), ..regs1 };
            Ok((VmSnap { regs: spec_advance(regs2, used), ..s }, false))
        },
        Decoded::LoadVarImm8 { imm } => {
            let regs2 = Registers { vp: spec_wadd16(VAR_BASE, imm as u16), ..regs };
            Ok((VmSnap { regs: spec_advance(regs2, used), ..s }, false))
        },
        Decoded::LoadVarImm16 { imm } => {
            let regs2 = Registers { vp: spec_wadd16(VAR_BASE, imm), ..regs };
            Ok((VmSnap { regs: spec_advance(regs2, used), ..s }, false))
        },
        Decoded::UnloadVar => {
            Ok(
                (
                    VmSnap { regs: spec_advance(Registers { vp: VAR_BASE, ..regs }, used), ..s },
                    false,
                ),
            )
        },
        Decoded::Jump { addr } => {
            Ok((VmSnap { regs: Registers { ic: addr, ..regs }, ..s }, false))
        },
        Decoded::BranchEq { addr } => Ok((spec_branch(s, regs.fg % 2 == 1, addr, used), false)),
        Decoded::BranchNe { addr } => Ok((spec_branch(s, regs.fg % 2 == 0, addr, used), false)),
        Decoded::BranchGt { addr } => Ok(
            (spec_branch(s, (regs.fg / 2) % 2 == 1, addr, used), false),
        ),
        Decoded::BranchLt { addr } => Ok(
            (spec_branch(s, (regs.fg / 4) % 2 == 1, addr, used), false),
        ),
        Decoded::Call { addr } => {
            // Push the address just past this 3-byte instruction, then
            // jump to the target.
            let ret = (regs.ic + 3) as u16;
            let mem1 = spec_mem_write16(s.mem, regs.sp, ret);
            let regs1 = Registers { sp: spec_wadd16(regs.sp, 2), ic: addr, ..regs };
            Ok((VmSnap { regs: regs1, mem: mem1, ..s }, false))
        },
        Decoded::Ret => {
            let sp1 = spec_wsub16(regs.sp, 2);
            let target = spec_mem_read16(s.mem, sp1);
            Ok((VmSnap { regs: Registers { sp: sp1, ic: target, ..regs }, ..s }, false))
        },
        Decoded::SyscallTrap => {
            Ok((VmSnap { regs: spec_advance(regs, used), ..s }, true))
        },
    }
}

/// Push a width-polymorphic value at the stack pointer and advance the
/// pointer by the value's width.
pub open spec fn spec_push(s: VmSnap, v: RegEither, used: int) -> VmSnap {
    match v {
        RegEither::Left(x) => VmSnap {
            regs: spec_advance(
                Registers { sp: spec_wadd16(s.regs.sp, 1), ..s.regs },
                used,
            ),
            mem: s.mem.update(s.regs.sp as int, x),
            ..s
        },
        RegEither::Right(x) => VmSnap {
            regs: spec_advance(
                Registers { sp: spec_wadd16(s.regs.sp, 2), ..s.regs },
                used,
            ),
            mem: spec_mem_write16(s.mem, s.regs.sp, x),
            ..s
        },
    }
}

/// A conditional branch: the instruction counter becomes the target
/// when the condition holds and advances past the 3-byte instruction
/// otherwise.
pub open spec fn spec_branch(s: VmSnap, taken: bool, addr: u16, used: int) -> VmSnap {
    if taken {
        VmSnap { regs: Registers { ic: addr, ..s.regs }, ..s }
    } else {
        VmSnap { regs: spec_advance(s.regs, used), ..s }
    }
}

/// One fetch-decode-execute step of the machine: decode the instruction
/// at the instruction counter and execute it.
pub open spec fn spec_step(s: VmSnap) -> Result<(VmSnap, bool), VmError>
    recommends
        s.regs.ic < s.code.len(),
        s.code.len() <= 65535,
        s.mem.len() == MEM_SIZE,
{
    match spec_decode(s.code, s.regs.ic as int) {
        Err(e) => Err(e),
        Ok((d, used)) => spec_apply(s, d, used),
    }
}

/// What one machine step reported: an ordinary instruction ran, or the
/// reserved call encoding trapped to the syscall bridge.
#[derive(Debug, Clone, Copy, PartialEq, Eq, Structural)]
pub enum StepEvent {
    Ran,
    Syscall,
}

/// Why a run stopped without a fatal error: the instruction counter
/// reached the end of the stream, a syscall trap wants the bridge, or
/// the step budget ran out first.
#[derive(Debug, Clone, Copy, PartialEq, Eq, Structural)]
pub enum RunExit {
    Halted,
    SyscallRequest,
    StepLimit,
}

/// The virtual machine: register file, unified memory, and the
/// instruction stream it executes.
#[derive(Debug, Default)]
pub struct Vm {
    pub registers: Registers,
    pub stack: Stack,
    pub instructions: Instructions,
}

impl Vm {
    /// The machine as a snapshot of plain values.
    pub open spec fn snap(self) -> VmSnap {
        VmSnap {
            regs: self.registers,
            mem: self.stack@,
            code: self.instructions.instructions@,
        }
    }

    /// A runnable machine: full-size memory, and a stream short enough
    /// for the 16-bit instruction counter to index every byte and the
    /// one-past-the-end halt position.
    pub open spec fn wf(self) -> bool {
        &&& self.stack.wf()
        &&& self.instructions.instructions@.len() <= 65535
    }

    /// Pop one byte: the stack pointer moves down first, then the byte
    /// at the new position is read.
    fn stack_pop(&mut self) -> (r: u8)
        requires
            old(self).stack.wf(),
        ensures
            final(self).registers == (Registers {
                sp: spec_wsub16(old(self).registers.sp, 1),
                ..old(self).registers
            }),
            r == old(self).stack@[spec_wsub16(old(self).registers.sp, 1) as int],
            final(self).stack@ == old(self).stack@,
            final(self).instructions == old(self).instructions,
    {
        self.registers.sp = self.registers.sp.wrapping_sub(1);
        self.stack.load_value(self.registers.sp)
    }

    /// Pop a 16-bit little-endian value.
    fn stack_pop_16b(&mut self) -> (r: u16)
        requires
            old(self).stack.wf(),
        ensures
            final(self).registers == (Registers {
                sp: spec_wsub16(old(self).registers.sp, 2),
                ..old(self).registers
            }),
            r == spec_mem_read16(old(self).stack@, spec_wsub16(old(self).registers.sp, 2)),
            final(self).stack@ == old(self).stack@,
            final(self).instructions == old(self).instructions,
    {
        self.registers.sp = self.registers.sp.wrapping_sub(2);
        self.stack.load_value_16(self.registers.sp)
    }

    /// Push one byte at the stack pointer, then move the pointer up.
    fn stack_push(&mut self, val: u8)
        requires
            old(self).stack.wf(),
        ensures
            final(self).registers == (Registers {
                sp: spec_wadd16(old(self).registers.sp, 1),
                ..old(self).registers
            }),
            final(self).stack@ == old(self).stack@.update(old(self).registers.sp as int, val),
            final(self).stack.wf(),
            final(self).instructions == old(self).instructions,
    {
        self.stack.save_value(self.registers.sp, val);
        self.registers.sp = self.registers.sp.wrapping_add(1);
    }

    /// Push a 16-bit value little-endian, then move the pointer up by
    /// two.
    fn stack_push_16b(&mut self, val: u16)
        requires
            old(self).stack.wf(),
        ensures
            final(self).registers == (Registers {
                sp: spec_wadd16(old(self).registers.sp, 2),
                ..old(self).registers
            }),
            final(self).stack@ == spec_mem_write16(old(self).stack@, old(self).registers.sp, val),
            final(self).stack.wf(),
            final(self).instructions == old(self).instructions,
    {
        self.stack.save_value_16(self.registers.sp, val);
        self.registers.sp = self.registers.sp.wrapping_add(2);
    }

    /// Read the register named by a 4-bit selector, together with its
    /// width-tagged value.
    fn register_val(&self, reg: u8) -> (r: RegisterValue)
        requires
            reg < 16,
        ensures
            r.register == spec_register_name(reg),
            r.value == spec_register_val(self.registers, r.register),
    {
        match reg {
            0 => RegisterValue::new(RegEither::Left(self.registers.r0), Register::R0),
            1 => RegisterValue::new(RegEither::Left(self.registers.r1), Register::R1),
            2 => RegisterValue::new(RegEither::Left(self.registers.r2), Register::R2),
            3 => RegisterValue::new(RegEither::Left(self.registers.r3), Register::R3),
            4 => RegisterValue::new(RegEither::Left(self.registers.r4), Register::R4),
            5 => RegisterValue::new(RegEither::Left(self.registers.r5), Register::R5),
            6 => RegisterValue::new(RegEither::Left(self.registers.r6), Register::R6),
            7 => RegisterValue::new(RegEither::Left(self.registers.r7), Register::R7),
            8 => RegisterValue::new(RegEither::Right(self.registers.vp), Register::Vp),
            9 => RegisterValue::new(RegEither::Right(self.registers.l0), Register::L0),
            10 => RegisterValue::new(RegEither::Right(self.registers.l1), Register::L1),
            11 => RegisterValue::new(RegEither::Right(self.registers.ic), Register::Ic),
            12 => RegisterValue::new(RegEither::Right(self.registers.fg), Register::Fg),
            13 => RegisterValue::new(RegEither::Right(self.registers.cr), Register::Cr),
            14 => RegisterValue::new(RegEither::Right(self.registers.sp), Register::Sp),
            _ => RegisterValue::new(RegEither::Right(self.registers.zr), Register::Zr),
        }
    }

    /// Store a width-tagged value into its register: 8-bit registers
    /// take the value truncated, 16-bit registers zero-extended.
    fn register_save(&mut self, reg: RegisterValue)
        ensures
            final(self).registers == spec_register_save(
                old(self).registers,
                reg.register,
                reg.value,
            ),
            final(self).stack == old(self).stack,
            final(self).instructions == old(self).instructions,
    {
        match reg.register {
            Register::R0 => self.registers.r0 = reg.value.as_u8(),
            Register::R1 => self.registers.r1 = reg.value.as_u8(),
            Register::R2 => self.registers.r2 = reg.value.as_u8(),
            Register::R3 => self.registers.r3 = reg.value.as_u8(),
            Register::R4 => self.registers.r4 = reg.value.as_u8(),
            Register::R5 => self.registers.r5 = reg.value.as_u8(),
            Register::R6 => self.registers.r6 = reg.value.as_u8(),
            Register::R7 => self.registers.r7 = reg.value.as_u8(),
            Register::L0 => self.registers.l0 = reg.value.as_u16(),
            Register::L1 => self.registers.l1 = reg.value.as_u16(),
            Register::Ic => self.registers.ic = reg.value.as_u16(),
            Register::Fg => self.registers.fg = reg.value.as_u16(),
            Register::Cr => self.registers.cr = reg.value.as_u16(),
            Register::Sp => self.registers.sp = reg.value.as_u16(),
            Register::Vp => self.registers.vp = reg.value.as_u16(),
            Register::Zr => self.registers.zr = reg.value.as_u16(),
        }
    }

    /// The one-byte immediate at a stream offset.
    fn immediate_instr(&self, ic: u16) -> (r: u8)
        requires
            ic < self.instructions.instructions@.len(),
        ensures
            r == self.instructions.instructions@[ic as int],
    {
        self.instructions.get(ic)
    }

    /// The 16-bit little-endian immediate at a stream offset.
    fn immediate_instr_16b(&self, ic: u16) -> (r: u16)
        requires
            ic + 1 < self.instructions.instructions@.len(),
            self.instructions.instructions@.len() <= 65536,
        ensures
            r == crate::isa::spec_le16(self.instructions.instructions@, ic as int),
    {
        let lo = self.instructions.get(ic);
        let hi = self.instructions.get(ic + 1);
        lo as u16 + hi as u16 * 256
    }

    /// Decode and execute one ALU/equality family instruction: binary
    /// arithmetic/logic, unary not, equality flags, or
    /// increment/decrement, on registers or an immediate. Returns the
    /// number of bytes the instruction occupied.
    #[verifier::rlimit(60)]
    #[verifier::spinoff_prover]
    fn decode_alu_instr(&mut self, instr: u8) -> (r: Result<u16, VmError>)
        requires
            old(self).wf(),
            old(self).registers.ic < old(self).instructions.instructions@.len(),
            instr == old(self).instructions.instructions@[old(self).registers.ic as int],
            instr / 64 == 0,
        ensures
            final(self).wf(),
            final(self).instructions == old(self).instructions,
            (match r {
                Ok(used) => spec_step(old(self).snap()) == Ok::<(VmSnap, bool), VmError>(
                    (final(self).snap(), false),
                ),
                Err(e) => spec_step(old(self).snap()) == Err::<(VmSnap, bool), VmError>(e)
                    && final(self).snap() == old(self).snap(),
            }),
    {
        let pc = self.registers.ic;
        let len = self.instructions.size();
        let sub = (instr / 8) % 8;
        let src_bit = (instr / 4) % 2;
        let wide = (instr / 2) % 2 == 1;
        let used: u16 = if src_bit == 0 || sub == 7 {
            2
        } else if wide {
            4
        } else {
            3
        };
        if pc as usize + used as usize > len {
            return Err(VmError::InstructionOverrun);
        }
        let rp = self.instructions.get(pc + 1);
        let a = self.decode_register(rp);
        let b: RegEither = if src_bit == 0 || sub == 7 {
            self.decode_registers(rp).1.value
        } else if wide {
            RegEither::Right(self.immediate_instr_16b(pc + 2))
        } else {
            RegEither::Left(self.immediate_instr(pc + 2))
        };
        let result: RegEither = if sub == 6 {
            // Equality writes the flags and then writes the first
            // operand register back unchanged.
            match (a.value, b) {
                (RegEither::Left(x), RegEither::Left(y)) => {
                    self.registers.fg = if x == y {
                        1
                    } else if x > y {
                        2
                    } else {
                        4
                    };
                },
                (RegEither::Right(x), RegEither::Right(y)) => {
                    self.registers.fg = if x == y {
                        1
                    } else if x > y {
                        2
                    } else {
                        4
                    };
                },
                _ => {
                    return Err(VmError::WidthMismatch);
                },
            }
            a.value
        } else if sub == 5 {
            match a.value {
                RegEither::Left(x) => RegEither::Left(!x),
                RegEither::Right(x) => RegEither::Right(!x),
            }
        } else if sub == 7 {
            // The source bit selects increment or decrement by one.
            if src_bit == 0 {
                match a.value {
                    RegEither::Left(x) => RegEither::Left(x.wrapping_add(1)),
                    RegEither::Right(x) => RegEither::Right(x.wrapping_add(1)),
                }
            } else {
                match a.value {
                    RegEither::Left(x) => RegEither::Left(x.wrapping_sub(1)),
                    RegEither::Right(x) => RegEither::Right(x.wrapping_sub(1)),
                }
            }
        } else {
            match (a.value, b) {
                (RegEither::Left(x), RegEither::Left(y)) => RegEither::Left(
                    if sub == 0 {
                        x.wrapping_add(y)
                    } else if sub == 1 {
                        x.wrapping_sub(y)
                    } else if sub == 2 {
                        x & y
                    } else if sub == 3 {
                        x | y
                    } else {
                        x ^ y
                    },
                ),
                (RegEither::Right(x), RegEither::Right(y)) => RegEither::Right(
                    if sub == 0 {
                        x.wrapping_add(y)
                    } else if sub == 1 {
                        x.wrapping_sub(y)
                    } else if sub == 2 {
                        x & y
                    } else if sub == 3 {
                        x | y
                    } else {
                        x ^ y
                    },
                ),
                _ => {
                    return Err(VmError::WidthMismatch);
                },
            }
        };
        self.register_save(RegisterValue { value: result, register: a.register });
        self.registers.ic = self.registers.ic.wrapping_add(used);
        Ok(used)
    }

    /// Decode and execute one load/store family instruction: move a
    /// value between a register, an immediate and/or an absolute memory
    /// address. Returns the number of bytes the instruction occupied.
    #[verifier::rlimit(60)]
    #[verifier::spinoff_prover]
    fn decode_load_store_instr(&mut self, instr: u8) -> (r: Result<u16, VmError>)
        requires
            old(self).wf(),
            old(self).registers.ic < old(self).instructions.instructions@.len(),
            instr == old(self).instructions.instructions@[old(self).registers.ic as int],
            instr / 64 == 1,
        ensures
            final(self).wf(),
            final(self).instructions == old(self).instructions,
            (match r {
                Ok(used) => spec_step(old(self).snap()) == Ok::<(VmSnap, bool), VmError>(
                    (final(self).snap(), false),
                ),
                Err(e) => spec_step(old(self).snap()) == Err::<(VmSnap, bool), VmError>(e)
                    && final(self).snap() == old(self).snap(),
            }),
    {
        let pc = self.registers.ic;
        let len = self.instructions.size();
        let kind = (instr / 16) % 4;
        if kind == 0 {
            // Store: source form in bits 1-2, target selected by the
            // memory-target bit.
            let memtarget = (instr / 8) % 2 == 1;
            let srcform = (instr / 2) % 4;
            let used: u16 = if memtarget {
                if srcform == 3 {
                    5
                } else {
                    4
                }
            } else {
                if srcform <= 1 {
                    2
                } else if srcform == 2 {
                    3
                } else {
                    4
                }
            };
            if pc as usize + used as usize > len {
                return Err(VmError::InstructionOverrun);
            }
            if memtarget {
                let addr = self.immediate_instr_16b(pc + 1);
                if srcform <= 1 {
                    // The source register byte sits after the two
                    // address bytes; its low nibble names the register.
                    let rv = self.decode_register(self.instructions.get(pc + 3));
                    match rv.value {
                        RegEither::Left(x) => self.stack.save_value(addr, x),
                        RegEither::Right(x) => self.stack.save_value_16(addr, x),
                    }
                } else if srcform == 2 {
                    let imm = self.immediate_instr(pc + 3);
                    self.stack.save_value(addr, imm);
                } else {
                    let imm = self.immediate_instr_16b(pc + 3);
                    self.stack.save_value_16(addr, imm);
                }
            } else {
                let rp = self.instructions.get(pc + 1);
                let target = self.decode_register(rp);
                let v: RegEither = if srcform <= 1 {
                    self.decode_registers(rp).1.value
                } else if srcform == 2 {
                    RegEither::Left(self.immediate_instr(pc + 2))
                } else {
                    RegEither::Right(self.immediate_instr_16b(pc + 2))
                };
                self.register_save(RegisterValue { value: v, register: target.register });
            }
            self.registers.ic = self.registers.ic.wrapping_add(used);
            Ok(used)
        } else if kind == 1 {
            // Load: a 2-byte absolute address, then the target
            // register; only registers can be loaded into.
            if pc as usize + 4 > len {
                return Err(VmError::InstructionOverrun);
            }
            let low = instr % 16;
            if low != 8 && low != 10 {
                return Err(VmError::ReservedOpcode(instr));
            }
            let addr = self.immediate_instr_16b(pc + 1);
            let target = self.decode_register(self.instructions.get(pc + 3));
            let v: RegEither = if low == 8 {
                RegEither::Left(self.stack.load_value(addr))
            } else {
                RegEither::Right(self.stack.load_value_16(addr))
            };
            self.register_save(RegisterValue { value: v, register: target.register });
            self.registers.ic = self.registers.ic.wrapping_add(4);
            Ok(4)
        } else if kind == 3 {
            Err(VmError::UnimplementedOpcode(instr))
        } else {
            Err(VmError::ReservedOpcode(instr))
        }
    }

    /// Decode and execute one stack/variable family instruction: push,
    /// pop, load-variable or unload-variable. Returns the number of
    /// bytes the instruction occupied.
    #[verifier::rlimit(60)]
    #[verifier::spinoff_prover]
    fn decode_stack_instr(&mut self, instr: u8) -> (r: Result<u16, VmError>)
        requires
            old(self).wf(),
            old(self).registers.ic < old(self).instructions.instructions@.len(),
            instr == old(self).instructions.instructions@[old(self).registers.ic as int],
            instr / 64 == 2,
        ensures
            final(self).wf(),
            final(self).instructions == old(self).instructions,
            (match r {
                Ok(used) => spec_step(old(self).snap()) == Ok::<(VmSnap, bool), VmError>(
                    (final(self).snap(), false),
                ),
                Err(e) => spec_step(old(self).snap()) == Err::<(VmSnap, bool), VmError>(e)
                    && final(self).snap() == old(self).snap(),
            }),
    {
        let pc = self.registers.ic;
        let len = self.instructions.size();
        let kind = (instr / 16) % 4;
        let form = (instr / 4) % 4;
        if kind == 3 {
            // Unload-variable: reset the variable pointer to the base
            // of the variable region.
            self.registers.vp = VAR_BASE;
            self.registers.ic = self.registers.ic.wrapping_add(1);
            Ok(1)
        } else if kind == 0 || kind == 2 {
            let used: u16 = if form == 3 {
                3
            } else {
                2
            };
            if pc as usize + used as usize > len {
                return Err(VmError::InstructionOverrun);
            }
            if kind == 0 {
                // Push a register's value or an immediate; the stack
                // pointer advances by the value's width.
                let value: RegEither = if form <= 1 {
                    self.decode_register(self.instructions.get(pc + 1)).value
                } else if form == 2 {
                    RegEither::Left(self.immediate_instr(pc + 1))
                } else {
                    RegEither::Right(self.immediate_instr_16b(pc + 1))
                };
                match value {
                    RegEither::Left(v) => self.stack_push(v),
                    RegEither::Right(v) => self.stack_push_16b(v),
                }
            } else {
                // Load-variable: reset the variable pointer to the
                // region base, then offset it by the operand.
                self.registers.vp = VAR_BASE;
                let off: u16 = if form <= 1 {
                    self.decode_register(self.instructions.get(pc + 1)).value.as_u16()
                } else if form == 2 {
                    self.immediate_instr(pc + 1) as u16
                } else {
                    self.immediate_instr_16b(pc + 1)
                };
                self.registers.vp = self.registers.vp.wrapping_add(off);
            }
            self.registers.ic = self.registers.ic.wrapping_add(used);
            Ok(used)
        } else {
            // Pop into a register: the width bit picks one or two
            // bytes.
            if pc as usize + 2 > len {
                return Err(VmError::InstructionOverrun);
            }
            let target = self.decode_register(self.instructions.get(pc + 1));
            let popped: RegEither = if (instr / 4) % 2 == 0 {
                RegEither::Left(self.stack_pop())
            } else {
                RegEither::Right(self.stack_pop_16b())
            };
            self.register_save(RegisterValue { value: popped, register: target.register });
            self.registers.ic = self.registers.ic.wrapping_add(2);
            Ok(2)
        }
    }

    /// Decode and execute one branch/call family instruction: a jump,
    /// a conditional branch on the flags, a call, a return, or the
    /// reserved syscall trap. Returns whether a jump was taken and the
    /// number of bytes the instruction occupied.
    #[verifier::rlimit(60)]
    #[verifier::spinoff_prover]
    fn decode_branch_instr(&mut self, instr: u8) -> (r: Result<(bool, u16), VmError>)
        requires
            old(self).wf(),
            old(self).registers.ic < old(self).instructions.instructions@.len(),
            instr == old(self).instructions.instructions@[old(self).registers.ic as int],
            instr / 64 == 3,
        ensures
            final(self).wf(),
            final(self).instructions == old(self).instructions,
            (match r {
                Ok(out) => spec_step(old(self).snap()) == Ok::<(VmSnap, bool), VmError>(
                    (final(self).snap(), instr == SYSCALL_OPCODE),
                ),
                Err(e) => spec_step(old(self).snap()) == Err::<(VmSnap, bool), VmError>(e)
                    && final(self).snap() == old(self).snap(),
            }),
    {
        let pc = self.registers.ic;
        let len = self.instructions.size();
        let sub = (instr / 8) % 8;
        if sub <= 4 {
            // Jump and the four conditional branches; the 2-byte target
            // is present even when the branch is not taken.
            if pc as usize + 3 > len {
                return Err(VmError::InstructionOverrun);
            }
            let address = self.immediate_instr_16b(pc + 1);
            let taken: bool = if sub == 0 {
                true
            } else if sub == 1 {
                self.registers.fg % 2 == 1
            } else if sub == 2 {
                self.registers.fg % 2 == 0
            } else if sub == 3 {
                (self.registers.fg / 2) % 2 == 1
            } else {
                (self.registers.fg / 4) % 2 == 1
            };
            if taken {
                self.registers.ic = address;
            } else {
                self.registers.ic = self.registers.ic.wrapping_add(3);
            }
            Ok((taken, 3))
        } else if sub == 5 {
            if instr % 8 == 7 {
                // The reserved call encoding: trap to the syscall
                // bridge instead of calling; one byte, no push.
                self.registers.ic = self.registers.ic.wrapping_add(1);
                Ok((false, 1))
            } else {
                // Call: push the address past this instruction, then
                // jump to the target.
                if pc as usize + 3 > len {
                    return Err(VmError::InstructionOverrun);
                }
                let address = self.immediate_instr_16b(pc + 1);
                self.stack_push_16b(pc + 3);
                self.registers.ic = address;
                Ok((true, 3))
            }
        } else if sub == 6 {
            // Return: pop the return address into the instruction
            // counter.
            let target = self.stack_pop_16b();
            self.registers.ic = target;
            Ok((true, 1))
        } else {
            Err(VmError::UnimplementedOpcode(instr))
        }
    }

    /// Fetch the byte at the instruction counter, dispatch on its top
    /// two bits to the family decoder, and advance the counter as the
    /// decoder directed.
    fn decode_next_instr(&mut self) -> (r: Result<StepEvent, VmError>)
        requires
            old(self).wf(),
            old(self).registers.ic < old(self).instructions.instructions@.len(),
        ensures
            final(self).wf(),
            final(self).instructions == old(self).instructions,
            (match r {
                Ok(ev) => spec_step(old(self).snap()) == Ok::<(VmSnap, bool), VmError>(
                    (final(self).snap(), ev == StepEvent::Syscall),
                ),
                Err(e) => spec_step(old(self).snap()) == Err::<(VmSnap, bool), VmError>(e)
                    && final(self).snap() == old(self).snap(),
            }),
    {
        let instr = self.instructions.get(self.registers.ic);
        let family = instr / 64;
        if family == 0 {
            match self.decode_alu_instr(instr) {
                Ok(_) => Ok(StepEvent::Ran),
                Err(e) => Err(e),
            }
        } else if family == 1 {
            match self.decode_load_store_instr(instr) {
                Ok(_) => Ok(StepEvent::Ran),
                Err(e) => Err(e),
            }
        } else if family == 2 {
            match self.decode_stack_instr(instr) {
                Ok(_) => Ok(StepEvent::Ran),
                Err(e) => Err(e),
            }
        } else {
            match self.decode_branch_instr(instr) {
                Ok(_) => Ok(
                    if instr == SYSCALL_OPCODE {
                        StepEvent::Syscall
                    } else {
                        StepEvent::Ran
                    },
                ),
                Err(e) => Err(e),
            }
        }
    }

    /// Run the fetch-decode-execute loop until the instruction counter
    /// lands exactly on the end of the stream (a clean halt), a syscall
    /// trap asks for the bridge, a fatal error occurs, or `max_steps`
    /// instructions have executed.
    #[verifier::loop_isolation(false)]
    pub fn run(&mut self, max_steps: u64) -> (r: Result<RunExit, VmError>)
        requires
            old(self).wf(),
        ensures
            final(self).wf(),
            final(self).instructions == old(self).instructions,
            (match r {
                Ok(RunExit::Halted) => exists|n: nat|
                    n <= max_steps && spec_steps(old(self).snap(), n) == Some(final(self).snap())
                        && final(self).registers.ic == final(self).instructions.instructions@.len(),
                Ok(RunExit::SyscallRequest) => exists|n: nat, m: VmSnap|
                    n < max_steps && spec_steps(old(self).snap(), n) == Some(m)
                        && m.regs.ic < m.code.len() && spec_step(m) == Ok::<(VmSnap, bool), VmError>(
                        (final(self).snap(), true),
                    ),
                Ok(RunExit::StepLimit) => spec_steps(old(self).snap(), max_steps as nat) == Some(
                    final(self).snap(),
                ),
                Err(e) => exists|n: nat|
                    n <= max_steps && spec_steps(old(self).snap(), n) == Some(final(self).snap())
                        && ((final(self).registers.ic > final(self).instructions.instructions@.len()
                        && e == VmError::InstructionOverrun) || (final(self).registers.ic < final(self).instructions.instructions@.len()
                        && spec_step(final(self).snap()) == Err::<(VmSnap, bool), VmError>(e))),
            }),
    {
        let ghost start = self.snap();
        let mut count: u64 = 0;
        loop
            invariant
                self.wf(),
                self.instructions == old(self).instructions,
                count <= max_steps,
                spec_steps(start, count as nat) == Some(self.snap()),
            decreases max_steps - count,
        {
            let ic = self.registers.ic;
            let size = self.instructions.size();
            // Landing exactly on the end of the stream is a clean halt;
            // running past it is fatal.
            if ic as usize == size {
                return Ok(RunExit::Halted);
            }
            if ic as usize > size {
                return Err(VmError::InstructionOverrun);
            }
            if count == max_steps {
                return Ok(RunExit::StepLimit);
            }
            match self.decode_next_instr() {
                Err(e) => {
                    return Err(e);
                },
                Ok(StepEvent::Syscall) => {
                    return Ok(RunExit::SyscallRequest);
                },
                Ok(StepEvent::Ran) => {},
            }
            count = count + 1;
            proof {
                assert(spec_steps(start, count as nat) == Some(self.snap()));
            }
        }
    }

    /// The register selected by the low nibble of an operand byte.
    fn decode_register(&self, regs: u8) -> (r: RegisterValue)
        ensures
            r.register == spec_register_name(regs % 16),
            r.value == spec_register_val(self.registers, r.register),
    {
        self.register_val(regs % 16)
    }

    /// Both registers of a register-pair byte: low nibble first.
    fn decode_registers(&self, regs: u8) -> (r: (RegisterValue, RegisterValue))
        ensures
            r.0.register == spec_register_name(regs % 16),
            r.0.value == spec_register_val(self.registers, r.0.register),
            r.1.register == spec_register_name(regs / 16),
            r.1.value == spec_register_val(self.registers, r.1.register),
    {
        (self.register_val(regs % 16), self.register_val(regs / 16))
    }
}

/// Flags idempotence: running the same equality comparison twice in a
/// row leaves the flags register exactly as the first run set it,
/// provided the operands are registers the comparison itself does not
/// change (the flags register, which it writes, and the instruction
/// counter, which advances, are the two it does).
pub proof fn lemma_flags_idempotent(s: VmSnap, dst: u8, src: AluArg, used: int)
    requires
        dst < 16,
        spec_register_name(dst) != Register::Fg,
        spec_register_name(dst) != Register::Ic,
        (src matches AluArg::Reg(sel) ==> sel < 16 && spec_register_name(sel) != Register::Fg
            && spec_register_name(sel) != Register::Ic),
        0 <= used <= 5,
        spec_apply(s, Decoded::Alu { op: AluOp::Equality, dst, src }, used) is Ok,
    ensures
        ({
            let d = Decoded::Alu { op: AluOp::Equality, dst, src };
            let s1 = spec_apply(s, d, used)->Ok_0.0;
            let r2 = spec_apply(s1, d, used);
            r2 is Ok && r2->Ok_0.0.regs.fg == s1.regs.fg
        }),
{
    let d = Decoded::Alu { op: AluOp::Equality, dst, src };
    let name = spec_register_name(dst);
    let a = spec_register_val(s.regs, name);
    let s1 = spec_apply(s, d, used)->Ok_0.0;
    // The first run changes only the flags and the instruction
    // counter: the write-back stores the destination's own old value.
    assert(spec_register_val(s1.regs, name) == a);
    match src {
        AluArg::Reg(sel) => {
            assert(spec_register_val(s1.regs, spec_register_name(sel)) == spec_register_val(
                s.regs,
                spec_register_name(sel),
            ));
        },
        _ => {},
    }
}

/// Width isolation, 8-bit side: arithmetic on an 8-bit register never
/// touches any 16-bit register, and an overflowing 8-bit add wraps
/// modulo 256.
pub proof fn lemma_width_isolation_8(s: VmSnap, dst: u8, src: AluArg, used: int)
    requires
        dst < 8,
        0 <= used <= 5,
        spec_apply(s, Decoded::Alu { op: AluOp::Add, dst, src }, used) is Ok,
    ensures
        ({
            let r = spec_apply(s, Decoded::Alu { op: AluOp::Add, dst, src }, used);
            let regs1 = r->Ok_0.0.regs;
            &&& regs1.l0 == s.regs.l0
            &&& regs1.l1 == s.regs.l1
            &&& regs1.sp == s.regs.sp
            &&& regs1.vp == s.regs.vp
            &&& regs1.fg == s.regs.fg
            &&& regs1.cr == s.regs.cr
            &&& regs1.zr == s.regs.zr
            &&& spec_register_val(regs1, spec_register_name(dst)).spec_as_u8() as int == (
            spec_register_val(s.regs, spec_register_name(dst)).spec_as_u8() + spec_alu_src_u8(
                s.regs,
                src,
            )) % 256
        }),
{
    let a = spec_register_val(s.regs, spec_register_name(dst)).spec_as_u8();
    let b = spec_alu_src_u8(s.regs, src);
    assert(spec_wadd8(a, b) as int == (a + b) % 256) by {
        if a + b > 255 {
            assert((a + b) % 256 == a + b - 256);
        } else {
            assert((a + b) % 256 == a + b);
        }
    };
}

/// Width isolation, 16-bit side: arithmetic on a 16-bit general
/// register never touches any 8-bit register, and an overflowing
/// 16-bit add wraps modulo 65536.
pub proof fn lemma_width_isolation_16(s: VmSnap, dst: u8, src: AluArg, used: int)
    requires
        dst == 9 || dst == 10,
        0 <= used <= 5,
        spec_apply(s, Decoded::Alu { op: AluOp::Add, dst, src }, used) is Ok,
    ensures
        ({
            let r = spec_apply(s, Decoded::Alu { op: AluOp::Add, dst, src }, used);
            let regs1 = r->Ok_0.0.regs;
            &&& regs1.r0 == s.regs.r0
            &&& regs1.r1 == s.regs.r1
            &&& regs1.r2 == s.regs.r2
            &&& regs1.r3 == s.regs.r3
            &&& regs1.r4 == s.regs.r4
            &&& regs1.r5 == s.regs.r5
            &&& regs1.r6 == s.regs.r6
            &&& regs1.r7 == s.regs.r7
            &&& spec_register_val(regs1, spec_register_name(dst)).spec_as_u16() as int == (
            spec_register_val(s.regs, spec_register_name(dst)).spec_as_u16() + spec_alu_src_u16(
                s.regs,
                src,
            )) % 65536
        }),
{
    let a = spec_register_val(s.regs, spec_register_name(dst)).spec_as_u16();
    let b = spec_alu_src_u16(s.regs, src);
    assert(spec_wadd16(a, b) as int == (a + b) % 65536) by {
        if a + b > 65535 {
            assert((a + b) % 65536 == a + b - 65536);
        } else {
            assert((a + b) % 65536 == a + b);
        }
    };
}

/// The 8-bit value an ALU source operand denotes.
pub open spec fn spec_alu_src_u8(regs: Registers, src: AluArg) -> u8 {
    match src {
        AluArg::Reg(sel) => spec_register_val(regs, spec_register_name(sel)).spec_as_u8(),
        AluArg::Imm8(i) => i,
        AluArg::Imm16(i) => (i % 256) as u8,
    }
}

/// The 16-bit value an ALU source operand denotes.
pub open spec fn spec_alu_src_u16(regs: Registers, src: AluArg) -> u16 {
    match src {
        AluArg::Reg(sel) => spec_register_val(regs, spec_register_name(sel)).spec_as_u16(),
        AluArg::Imm8(i) => i as u16,
        AluArg::Imm16(i) => i,
    }
}

/// The machine after `n` ordinary steps (none of them a halt, a fault
/// or a syscall trap), if it runs that far.
pub open spec fn spec_steps(s: VmSnap, n: nat) -> Option<VmSnap>
    decreases n,
{
    if n == 0 {
        Some(s)
    } else {
        match spec_steps(s, (n - 1) as nat) {
            None => None,
            Some(m) => {
                if m.regs.ic < m.code.len() {
                    match spec_step(m) {
                        Ok((m2, sys)) => if !sys {
                            Some(m2)
                        } else {
                            None
                        },
                        Err(_) => None,
                    }
                } else {
                    None
                }
            },
        }
    }
}

} // verus!
