//! Core of the "smol" small-word instruction set toolchain: the shared
//! bit-level instruction encoding, the assembler that lowers a parsed
//! program into a byte stream with two-pass label resolution, and the
//! virtual machine that fetches, decodes and executes that stream.

pub mod ast;
pub mod compiler;
pub mod isa;
pub mod registers;
pub mod syscall;
pub mod vm;

pub use registers::Registers;
pub use syscall::vm_syscall;
pub use vm::Instructions;
pub use vm::Stack;
pub use vm::Vm;
