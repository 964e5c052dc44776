//! Typed representation of a parsed program: operands, instructions,
//! variable declarations, and the program tree the assembler consumes.
//! Tokenizing assembly text into these records is an external
//! collaborator's job.

use vstd::prelude::*;

verus! {

/// An instruction that takes no operands.
#[derive(Debug, Clone, Copy, PartialEq, Eq, Structural)]
pub struct Arg0 {}

/// The typed value of one operand: an 8- or 16-bit register, or an 8-
/// or 16-bit immediate.
#[derive(Debug, Clone, Copy, PartialEq, Eq, Structural)]
pub enum RegType {
    /// 8-bit register
    R8(R8Regs),
    /// 8-bit immediate
    I8(u8),
    /// 16-bit register
    R16(R16Regs),
    /// 16-bit immediate
    I16(u16),
}

/// The eight 8-bit general registers.
#[derive(Debug, Clone, Copy, PartialEq, Eq, Structural)]
pub enum R8Regs {
    R0,
    R1,
    R2,
    R3,
    R4,
    R5,
    R6,
    R7,
}

/// The two 16-bit general registers.
#[derive(Debug, Clone, Copy, PartialEq, Eq, Structural)]
pub enum R16Regs {
    L0,
    L1,
}

/// An operand kind: anything that can stand in an instruction's
/// argument position and report its typed value.
pub trait Register: Sized {
    /// The typed value this operand denotes.
    spec fn spec_parse(self) -> RegType;

    /// The typed value this operand denotes.
    fn parse(self) -> (r: RegType)
        ensures
            r == self.spec_parse(),
    ;
}

/// A pair of operands.
#[derive(Debug, Clone, Copy)]
pub struct Arg2<A1: Register, A2: Register> {
    pub arg1: A1,
    pub arg2: A2,
}

/// An 8-bit general register operand.
#[derive(Debug, Clone, Copy, PartialEq, Eq, Structural)]
pub struct R8 {
    pub register: R8Regs,
}

impl Register for R8 {
    open spec fn spec_parse(self) -> RegType {
        RegType::R8(self.register)
    }

    fn parse(self) -> (r: RegType) {
        RegType::R8(self.register)
    }
}

/// An 8-bit immediate operand.
#[derive(Debug, Clone, Copy, PartialEq, Eq, Structural)]
pub struct I8 {
    pub value: u8,
}

impl Register for I8 {
    open spec fn spec_parse(self) -> RegType {
        RegType::I8(self.value)
    }

    fn parse(self) -> (r: RegType) {
        RegType::I8(self.value)
    }
}

/// A 16-bit general register operand.
#[derive(Debug, Clone, Copy, PartialEq, Eq, Structural)]
pub struct R16 {
    pub register: R16Regs,
}

impl Register for R16 {
    open spec fn spec_parse(self) -> RegType {
        RegType::R16(self.register)
    }

    fn parse(self) -> (r: RegType) {
        RegType::R16(self.register)
    }
}

/// A 16-bit immediate operand.
#[derive(Debug, Clone, Copy, PartialEq, Eq, Structural)]
pub struct I16 {
    pub value: u16,
}

impl Register for I16 {
    open spec fn spec_parse(self) -> RegType {
        RegType::I16(self.value)
    }

    fn parse(self) -> (r: RegType) {
        RegType::I16(self.value)
    }
}

/// A 16-bit absolute memory address operand.
#[derive(Debug, Clone, Copy, PartialEq, Eq, Structural)]
pub struct A16 {
    pub value: u16,
}

impl Register for A16 {
    open spec fn spec_parse(self) -> RegType {
        RegType::I16(self.value)
    }

    fn parse(self) -> (r: RegType) {
        RegType::I16(self.value)
    }
}

/// An instruction's payload together with the source line it came from,
/// for error reporting.
#[derive(Debug, Clone)]
pub struct InstrLine<T> {
    instr: T,
    line: usize,
}

impl<T> InstrLine<T> {
    /// The carried payload.
    pub closed spec fn spec_inner(self) -> T {
        self.instr
    }

    /// The source line the payload came from.
    pub closed spec fn spec_line(self) -> usize {
        self.line
    }

    pub fn new(instr: T, line: usize) -> (r: Self)
        ensures
            r.spec_inner() == instr,
            r.spec_line() == line,
    {
        Self { instr, line }
    }

    pub fn inner(&self) -> (r: &T)
        ensures
            *r == self.spec_inner(),
    {
        &self.instr
    }
}

/// One typed instruction of the source program.
#[derive(Debug)]
pub enum Instruction {
    /// Add an 8-bit register into an 8-bit register.
    Add(InstrLine<Arg2<R8, R8>>),
    /// Add an 8-bit immediate into an 8-bit register.
    AddI(InstrLine<Arg2<R8, I8>>),
    /// Compare two 8-bit registers into the flags.
    EqR(InstrLine<Arg2<R8, R8>>),
    /// Compare an 8-bit register with an immediate into the flags.
    EqI(InstrLine<Arg2<R8, I8>>),
    /// Compare two 16-bit registers into the flags.
    EqRL(InstrLine<Arg2<R16, R16>>),
    /// Compare a 16-bit register with an immediate into the flags.
    EqIL(InstrLine<Arg2<R16, I16>>),
    /// Store an 8-bit register into an 8-bit register.
    St(InstrLine<Arg2<R8, R8>>),
    /// Store a 16-bit register into a 16-bit register.
    StL(InstrLine<Arg2<R16, R16>>),
    /// Store an 8-bit immediate into an 8-bit register.
    StI(InstrLine<Arg2<R8, I8>>),
    /// Store a 16-bit immediate into a 16-bit register.
    StIL(InstrLine<Arg2<R16, I16>>),
    /// Store an 8-bit immediate at an absolute memory address.
    Stm(InstrLine<Arg2<A16, I8>>),
    /// Store a 16-bit immediate at an absolute memory address.
    StmL(InstrLine<Arg2<A16, I16>>),
    /// Store an 8-bit register at an absolute memory address.
    Str(InstrLine<Arg2<A16, R8>>),
    /// Store a 16-bit register at an absolute memory address.
    StrL(InstrLine<Arg2<A16, R16>>),
    /// Load the byte at an absolute memory address into a register.
    Ldm(InstrLine<Arg2<A16, R8>>),
    /// Load the 16-bit value at an absolute address into a register.
    LdmL(InstrLine<Arg2<A16, R16>>),
    /// Branch to a label if the equal flag is set.
    Be(InstrLine<String>),
    /// Branch to a label if the equal flag is clear.
    Bne(InstrLine<String>),
    /// Branch to a label if the greater-than flag is set.
    Bgt(InstrLine<String>),
    /// Branch to a label if the less-than flag is set.
    Blt(InstrLine<String>),
    /// Call the code at a label, pushing the return address.
    Call(InstrLine<String>),
    /// Return to the address on top of the stack.
    Ret(InstrLine<Arg0>),
    /// Trap to the syscall bridge.
    Syscall(InstrLine<Arg0>),
    /// Point the variable pointer at a declared variable.
    Sv(InstrLine<String>),
    /// Reset the variable pointer to the variable region's base.
    Uv(InstrLine<Arg0>),
    /// Define a label at the current position; emits no bytes.
    Label(String),
}

/// A declared variable: its name, its size in bytes, and an optional
/// initializer whose length must equal the size.
#[derive(Debug)]
pub struct Variable {
    pub name: String,
    pub size: u16,
    pub bytes: Option<Vec<u8>>,
}

/// A parsed program: variable declarations and instructions, in source
/// order.
#[derive(Debug)]
pub struct ASTTree {
    pub variables: Vec<Variable>,
    pub instructions: Vec<Instruction>,
}

} // verus!
