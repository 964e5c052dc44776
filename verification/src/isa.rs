//! The instruction set's bit-level layout, shared by the assembler's
//! encode path and the virtual machine's decode path.
//!
//! The first byte of every instruction selects its family in the top two
//! bits: `00` ALU/equality, `01` load/store, `10` stack/variable, `11`
//! branch/call. The remaining bits select, per family, a sub-operation
//! and flags for operand width, operand source and memory targeting.
//! Operand bytes follow in a fixed order: a register-pair byte packs two
//! 4-bit selectors (low nibble first operand, high nibble second), and
//! immediates and addresses are little-endian.

use vstd::prelude::*;

use crate::vm::VmError;

verus! {

/// The ALU/equality family's sub-operation.
#[derive(Debug, Clone, Copy, PartialEq, Eq, Structural)]
pub enum ALUType {
    Add,
    Subtract,
    And,
    Or,
    Xor,
    Not,
    Equality,
    IncrDecr,
}

/// The ALU operand source; for the increment/decrement sub-operation
/// the same bit selects the function instead.
#[derive(Debug, Clone, Copy, PartialEq, Eq, Structural)]
pub enum ALUSrc {
    Register,
    Immediate,
    Increment,
    Decrement,
}

/// The load/store family's sub-operation.
#[derive(Debug, Clone, Copy, PartialEq, Eq, Structural)]
pub enum LoadStoreType {
    Load,
    Store,
    Swap,
}

/// The branch/call family's sub-operation.
#[derive(Debug, Clone, Copy, PartialEq, Eq, Structural)]
pub enum BranchCall {
    Jump,
    BranchEq,
    BranchNe,
    BranchGt,
    BranchLt,
    Call,
    Ret,
}

/// The opcode byte reserved for the syscall trap: the call
/// sub-operation with all-ones selector bits.
pub const SYSCALL_OPCODE: u8 = 239;

/// A 16-bit value from its little-endian bytes.
pub open spec fn spec_word(lo: u8, hi: u8) -> u16 {
    (lo + hi * 256) as u16
}

/// The 16-bit little-endian value at offset `p` of `code`.
pub open spec fn spec_le16(code: Seq<u8>, p: int) -> u16
    recommends
        0 <= p,
        p + 2 <= code.len(),
{
    spec_word(code[p], code[p + 1])
}

/// Recombining a word's little-endian bytes gives the word back.
pub proof fn lemma_word_roundtrip(w: u16)
    ensures
        spec_word((w % 256) as u8, (w / 256) as u8) == w,
{
    vstd::arithmetic::div_mod::lemma_fundamental_div_mod(w as int, 256);
}

/// The fields of a register-pair byte are its two nibbles.
pub proof fn lemma_regpair_fields(lo: u8, hi: u8)
    requires
        lo < 16,
        hi < 16,
    ensures
        (lo + hi * 16) < 256,
        ((lo + hi * 16) as u8) % 16 == lo,
        ((lo + hi * 16) as u8) / 16 == hi,
{
    assert((lo + hi * 16) < 256 && (lo + hi * 16) % 16 == lo && (lo + hi * 16) / 16 == hi)
        by (nonlinear_arith)
        requires
            lo < 16,
            hi < 16,
    ;
}

/// The ALU/equality opcode byte: sub-operation in bits 3-5, source (or
/// increment/decrement function) in bit 2, width in bit 1, and a spare
/// low bit.
pub open spec fn spec_alu_opcode(tt: ALUType, source: ALUSrc, is_16b: bool, noop: bool) -> u8 {
    (spec_alu_sub(tt) * 8 + spec_alu_src_bit(source) * 4 + (if is_16b {
        2u8
    } else {
        0u8
    }) + (if noop {
        1u8
    } else {
        0u8
    })) as u8
}

/// The 3-bit ALU sub-operation code.
pub open spec fn spec_alu_sub(tt: ALUType) -> u8 {
    match tt {
        ALUType::Add => 0,
        ALUType::Subtract => 1,
        ALUType::And => 2,
        ALUType::Or => 3,
        ALUType::Xor => 4,
        ALUType::Not => 5,
        ALUType::Equality => 6,
        ALUType::IncrDecr => 7,
    }
}

/// The ALU source bit: set for an immediate source, and for the
/// decrement function of increment/decrement.
pub open spec fn spec_alu_src_bit(source: ALUSrc) -> u8 {
    match source {
        ALUSrc::Immediate => 1,
        ALUSrc::Decrement => 1,
        ALUSrc::Register => 0,
        ALUSrc::Increment => 0,
    }
}

/// Encode an ALU/equality opcode byte.
pub fn compile_alu_equality(tt: ALUType, source: ALUSrc, is_16b: bool, noop: bool) -> (r: u8)
    ensures
        r == spec_alu_opcode(tt, source, is_16b, noop),
{
    let sub: u8 = match tt {
        ALUType::Add => 0,
        ALUType::Subtract => 1,
        ALUType::And => 2,
        ALUType::Or => 3,
        ALUType::Xor => 4,
        ALUType::Not => 5,
        ALUType::Equality => 6,
        ALUType::IncrDecr => 7,
    };
    let src: u8 = match source {
        ALUSrc::Immediate => 1,
        ALUSrc::Decrement => 1,
        ALUSrc::Register => 0,
        ALUSrc::Increment => 0,
    };
    sub * 8 + src * 4 + (if is_16b { 2 } else { 0 }) + (if noop { 1 } else { 0 })
}

/// The load/store opcode byte: family `01` in the top bits, the
/// sub-operation in bits 4-5, then memory-target, immediate, width and
/// control-register flags.
pub open spec fn spec_load_store_opcode(
    tt: LoadStoreType,
    is_memtarget: bool,
    is_immediate: bool,
    is_16b: bool,
    is_cr: bool,
) -> u8 {
    (64 + spec_load_store_sub(tt) * 16 + (if is_memtarget {
        8u8
    } else {
        0u8
    }) + (if is_immediate {
        4u8
    } else {
        0u8
    }) + (if is_16b {
        2u8
    } else {
        0u8
    }) + (if is_cr {
        1u8
    } else {
        0u8
    })) as u8
}

/// The 2-bit load/store sub-operation code.
pub open spec fn spec_load_store_sub(tt: LoadStoreType) -> u8 {
    match tt {
        LoadStoreType::Store => 0,
        LoadStoreType::Load => 1,
        LoadStoreType::Swap => 3,
    }
}

/// Encode a load/store opcode byte.
pub fn compile_load_store(
    tt: LoadStoreType,
    is_memtarget: bool,
    is_immediate: bool,
    is_16b: bool,
    is_cr: bool,
) -> (r: u8)
    ensures
        r == spec_load_store_opcode(tt, is_memtarget, is_immediate, is_16b, is_cr),
{
    let sub: u8 = match tt {
        LoadStoreType::Store => 0,
        LoadStoreType::Load => 1,
        LoadStoreType::Swap => 3,
    };
    64 + sub * 16 + (if is_memtarget { 8 } else { 0 }) + (if is_immediate { 4 } else { 0 }) + (
    if is_16b {
        2
    } else {
        0
    }) + (if is_cr { 1 } else { 0 })
}

/// The branch/call opcode byte: family `11` in the top bits and the
/// sub-operation in bits 3-5.
pub open spec fn spec_branch_opcode(tt: BranchCall) -> u8 {
    (192 + spec_branch_sub(tt) * 8) as u8
}

/// The 3-bit branch/call sub-operation code.
pub open spec fn spec_branch_sub(tt: BranchCall) -> u8 {
    match tt {
        BranchCall::Jump => 0,
        BranchCall::BranchEq => 1,
        BranchCall::BranchNe => 2,
        BranchCall::BranchGt => 3,
        BranchCall::BranchLt => 4,
        BranchCall::Call => 5,
        BranchCall::Ret => 6,
    }
}

/// Encode a branch/call opcode byte.
pub fn compile_branch_opcode(tt: BranchCall) -> (r: u8)
    ensures
        r == spec_branch_opcode(tt),
{
    let sub: u8 = match tt {
        BranchCall::Jump => 0,
        BranchCall::BranchEq => 1,
        BranchCall::BranchNe => 2,
        BranchCall::BranchGt => 3,
        BranchCall::BranchLt => 4,
        BranchCall::Call => 5,
        BranchCall::Ret => 6,
    };
    192 + sub * 8
}

/// The ALU operation named by an opcode byte, with the
/// increment/decrement function already split out.
#[derive(Debug, Clone, Copy, PartialEq, Eq, Structural)]
pub enum AluOp {
    Add,
    Subtract,
    And,
    Or,
    Xor,
    Not,
    Equality,
    Increment,
    Decrement,
}

/// An ALU second operand as decoded from the byte stream.
#[derive(Debug, Clone, Copy, PartialEq, Eq, Structural)]
pub enum AluArg {
    /// A register selector from the high nibble of the register-pair
    /// byte.
    Reg(u8),
    /// An 8-bit immediate.
    Imm8(u8),
    /// A 16-bit immediate.
    Imm16(u16),
}

/// One decoded instruction: the opcode family, sub-operation and all
/// operand values re-derived from the byte stream.
#[derive(Debug, Clone, Copy, PartialEq, Eq, Structural)]
pub enum Decoded {
    /// ALU/equality on the register selected by `dst` and the operand
    /// `src`.
    Alu { op: AluOp, dst: u8, src: AluArg },
    /// Store a register's value into a register.
    StoreReg { dst: u8, src: u8 },
    /// Store an 8-bit immediate into a register.
    StoreImm8 { dst: u8, imm: u8 },
    /// Store a 16-bit immediate into a register.
    StoreImm16 { dst: u8, imm: u16 },
    /// Store a register's value at a memory address.
    StoreMemReg { addr: u16, src: u8 },
    /// Store an 8-bit immediate at a memory address.
    StoreMemImm8 { addr: u16, imm: u8 },
    /// Store a 16-bit immediate at a memory address.
    StoreMemImm16 { addr: u16, imm: u16 },
    /// Load the byte at a memory address into a register.
    LoadMem8 { addr: u16, dst: u8 },
    /// Load the 16-bit value at a memory address into a register.
    LoadMem16 { addr: u16, dst: u8 },
    /// Push a register's value onto the stack.
    PushReg { src: u8 },
    /// Push an 8-bit immediate onto the stack.
    PushImm8 { imm: u8 },
    /// Push a 16-bit immediate onto the stack.
    PushImm16 { imm: u16 },
    /// Pop one byte into a register.
    Pop8 { dst: u8 },
    /// Pop a 16-bit value into a register.
    Pop16 { dst: u8 },
    /// Point the variable pointer at the variable region plus a
    /// register's value.
    LoadVarReg { src: u8 },
    /// Point the variable pointer at the variable region plus an 8-bit
    /// immediate.
    LoadVarImm8 { imm: u8 },
    /// Point the variable pointer at the variable region plus a 16-bit
    /// immediate.
    LoadVarImm16 { imm: u16 },
    /// Reset the variable pointer to the variable region's base.
    UnloadVar,
    /// Unconditional jump.
    Jump { addr: u16 },
    /// Branch if the equal flag is set.
    BranchEq { addr: u16 },
    /// Branch if the equal flag is clear.
    BranchNe { addr: u16 },
    /// Branch if the greater-than flag is set.
    BranchGt { addr: u16 },
    /// Branch if the less-than flag is set.
    BranchLt { addr: u16 },
    /// Push the return address and jump.
    Call { addr: u16 },
    /// Pop the return address into the instruction counter.
    Ret,
    /// Hand control to the syscall bridge.
    SyscallTrap,
}

/// Decode the instruction that starts at offset `pos` of `code`:
/// the decoded form and the number of bytes it occupies, or the fatal
/// error the bit pattern or a truncated stream produces.
pub open spec fn spec_decode(code: Seq<u8>, pos: int) -> Result<(Decoded, int), VmError>
    recommends
        0 <= pos < code.len(),
{
    let b = code[pos];
    let family = b / 64;
    if family == 0 {
        spec_decode_alu(code, pos, b)
    } else if family == 1 {
        spec_decode_load_store(code, pos, b)
    } else if family == 2 {
        spec_decode_stack(code, pos, b)
    } else {
        spec_decode_branch(code, pos, b)
    }
}

/// Decode an ALU/equality family instruction.
pub open spec fn spec_decode_alu(code: Seq<u8>, pos: int, b: u8) -> Result<(Decoded, int), VmError> {
    let sub = (b / 8) % 8;
    let src_bit = (b / 4) % 2;
    let wide = (b / 2) % 2 == 1;
    if src_bit == 0 || sub == 7 {
        // Both operands live in one register-pair byte; for
        // increment/decrement the source bit picks the function.
        if pos + 2 > code.len() {
            Err(VmError::InstructionOverrun)
        } else {
            let rp = code[pos + 1];
            let op = spec_alu_op(sub, src_bit);
            Ok((Decoded::Alu { op, dst: rp % 16, src: AluArg::Reg(rp / 16) }, 2))
        }
    } else {
        // Register-pair byte, then an immediate of the selected width.
        if wide {
            if pos + 4 > code.len() {
                Err(VmError::InstructionOverrun)
            } else {
                let rp = code[pos + 1];
                let imm = spec_le16(code, pos + 2);
                Ok((Decoded::Alu { op: spec_alu_op(sub, src_bit), dst: rp % 16, src: AluArg::Imm16(imm) }, 4))
            }
        } else {
            if pos + 3 > code.len() {
                Err(VmError::InstructionOverrun)
            } else {
                let rp = code[pos + 1];
                let imm = code[pos + 2];
                Ok((Decoded::Alu { op: spec_alu_op(sub, src_bit), dst: rp % 16, src: AluArg::Imm8(imm) }, 3))
            }
        }
    }
}

/// The ALU operation selected by the 3-bit sub-operation code and the
/// source/function bit.
pub open spec fn spec_alu_op(sub: u8, src_bit: u8) -> AluOp
    recommends
        sub < 8,
{
    if sub == 0 {
        AluOp::Add
    } else if sub == 1 {
        AluOp::Subtract
    } else if sub == 2 {
        AluOp::And
    } else if sub == 3 {
        AluOp::Or
    } else if sub == 4 {
        AluOp::Xor
    } else if sub == 5 {
        AluOp::Not
    } else if sub == 6 {
        AluOp::Equality
    } else if src_bit == 0 {
        AluOp::Increment
    } else {
        AluOp::Decrement
    }
}

/// Decode a load/store family instruction.
pub open spec fn spec_decode_load_store(code: Seq<u8>, pos: int, b: u8) -> Result<
    (Decoded, int),
    VmError,
> {
    let kind = (b / 16) % 4;
    if kind == 0 {
        // Store: the source form is two bits (register 8/16-bit,
        // immediate 8-bit, immediate 16-bit), the target is a register
        // or, with the memory-target bit, a 2-byte absolute address.
        let memtarget = (b / 8) % 2 == 1;
        let srcform = (b / 2) % 4;
        if memtarget {
            if srcform <= 1 {
                if pos + 4 > code.len() {
                    Err(VmError::InstructionOverrun)
                } else {
                    Ok(
                        (
                            Decoded::StoreMemReg {
                                addr: spec_le16(code, pos + 1),
                                src: code[pos + 3] % 16,
                            },
                            4,
                        ),
                    )
                }
            } else if srcform == 2 {
                if pos + 4 > code.len() {
                    Err(VmError::InstructionOverrun)
                } else {
                    Ok(
                        (
                            Decoded::StoreMemImm8 {
                                addr: spec_le16(code, pos + 1),
                                imm: code[pos + 3],
                            },
                            4,
                        ),
                    )
                }
            } else {
                if pos + 5 > code.len() {
                    Err(VmError::InstructionOverrun)
                } else {
                    Ok(
                        (
                            Decoded::StoreMemImm16 {
                                addr: spec_le16(code, pos + 1),
                                imm: spec_le16(code, pos + 3),
                            },
                            5,
                        ),
                    )
                }
            }
        } else {
            if srcform <= 1 {
                if pos + 2 > code.len() {
                    Err(VmError::InstructionOverrun)
                } else {
                    let rp = code[pos + 1];
                    Ok((Decoded::StoreReg { dst: rp % 16, src: rp / 16 }, 2))
                }
            } else if srcform == 2 {
                if pos + 3 > code.len() {
                    Err(VmError::InstructionOverrun)
                } else {
                    Ok((Decoded::StoreImm8 { dst: code[pos + 1] % 16, imm: code[pos + 2] }, 3))
                }
            } else {
                if pos + 4 > code.len() {
                    Err(VmError::InstructionOverrun)
                } else {
                    Ok(
                        (
                            Decoded::StoreImm16 {
                                dst: code[pos + 1] % 16,
                                imm: spec_le16(code, pos + 2),
                            },
                            4,
                        ),
                    )
                }
            }
        }
    } else if kind == 1 {
        // Load: a 2-byte absolute address, then the target register.
        if pos + 4 > code.len() {
            Err(VmError::InstructionOverrun)
        } else {
            let low = b % 16;
            if low == 8 {
                Ok((Decoded::LoadMem8 { addr: spec_le16(code, pos + 1), dst: code[pos + 3] % 16 }, 4))
            } else if low == 10 {
                Ok(
                    (
                        Decoded::LoadMem16 { addr: spec_le16(code, pos + 1), dst: code[pos + 3] % 16 },
                        4,
                    ),
                )
            } else {
                Err(VmError::ReservedOpcode(b))
            }
        }
    } else if kind == 3 {
        Err(VmError::UnimplementedOpcode(b))
    } else {
        Err(VmError::ReservedOpcode(b))
    }
}

/// Decode a stack/variable family instruction.
pub open spec fn spec_decode_stack(code: Seq<u8>, pos: int, b: u8) -> Result<
    (Decoded, int),
    VmError,
> {
    let kind = (b / 16) % 4;
    let form = (b / 4) % 4;
    if kind == 3 {
        Ok((Decoded::UnloadVar, 1))
    } else if kind == 0 || kind == 2 {
        // Push and load-variable share their operand forms: a register
        // selector, an 8-bit immediate, or a 16-bit immediate.
        if form == 3 {
            if pos + 3 > code.len() {
                Err(VmError::InstructionOverrun)
            } else {
                let imm = spec_le16(code, pos + 1);
                Ok(
                    (
                        if kind == 0 {
                            Decoded::PushImm16 { imm }
                        } else {
                            Decoded::LoadVarImm16 { imm }
                        },
                        3,
                    ),
                )
            }
        } else {
            if pos + 2 > code.len() {
                Err(VmError::InstructionOverrun)
            } else {
                let operand = code[pos + 1];
                Ok(
                    (
                        if form <= 1 {
                            if kind == 0 {
                                Decoded::PushReg { src: operand % 16 }
                            } else {
                                Decoded::LoadVarReg { src: operand % 16 }
                            }
                        } else {
                            if kind == 0 {
                                Decoded::PushImm8 { imm: operand }
                            } else {
                                Decoded::LoadVarImm8 { imm: operand }
                            }
                        },
                        2,
                    ),
                )
            }
        }
    } else {
        // Pop: always a register target, 8- or 16-bit by the width bit.
        if pos + 2 > code.len() {
            Err(VmError::InstructionOverrun)
        } else {
            let dst = code[pos + 1] % 16;
            if (b / 4) % 2 == 0 {
                Ok((Decoded::Pop8 { dst }, 2))
            } else {
                Ok((Decoded::Pop16 { dst }, 2))
            }
        }
    }
}

/// Decode a branch/call family instruction.
pub open spec fn spec_decode_branch(code: Seq<u8>, pos: int, b: u8) -> Result<
    (Decoded, int),
    VmError,
> {
    let sub = (b / 8) % 8;
    if sub <= 4 {
        // Jump and the four conditional branches carry a 2-byte
        // absolute target, present even when the branch is not taken.
        if pos + 3 > code.len() {
            Err(VmError::InstructionOverrun)
        } else {
            let addr = spec_le16(code, pos + 1);
            Ok(
                (
                    if sub == 0 {
                        Decoded::Jump { addr }
                    } else if sub == 1 {
                        Decoded::BranchEq { addr }
                    } else if sub == 2 {
                        Decoded::BranchNe { addr }
                    } else if sub == 3 {
                        Decoded::BranchGt { addr }
                    } else {
                        Decoded::BranchLt { addr }
                    },
                    3,
                ),
            )
        }
    } else if sub == 5 {
        if b % 8 == 7 {
            // The reserved all-ones call encoding traps to the syscall
            // bridge and occupies a single byte.
            Ok((Decoded::SyscallTrap, 1))
        } else {
            if pos + 3 > code.len() {
                Err(VmError::InstructionOverrun)
            } else {
                Ok((Decoded::Call { addr: spec_le16(code, pos + 1) }, 3))
            }
        }
    } else if sub == 6 {
        Ok((Decoded::Ret, 1))
    } else {
        Err(VmError::UnimplementedOpcode(b))
    }
}

} // verus!
