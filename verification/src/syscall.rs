//! The syscall bridge's register convention: the call-number register
//! selects the operation and the argument registers supply file
//! descriptor, buffer offset (relative to the variable pointer) and
//! length. The host operation itself is an external collaborator; this
//! module only decides, from the register file, what the program asked
//! for. The host writes its result back into the call-number register.

use vstd::prelude::*;

use crate::registers::Registers;
use crate::vm::VmError;
use crate::vm::spec_wadd16;

verus! {

/// What a trapped program asks of the host: buffer addresses are
/// absolute within the unified memory, already offset from the variable
/// pointer.
#[derive(Debug, Clone, Copy, PartialEq, Eq, Structural)]
pub enum SyscallAction {
    /// Read up to `count` bytes from descriptor `fd` into memory at
    /// `addr`.
    Read { fd: u8, addr: u16, count: u8 },
    /// Write `count` bytes from memory at `addr` to descriptor `fd`.
    Write { fd: u8, addr: u16, count: u8 },
    /// Open the path whose bytes sit in memory at `addr`.
    Open { addr: u16 },
    /// Close descriptor `fd`.
    Close { fd: u8 },
    /// End the program with `status`.
    Exit { status: u8 },
}

/// The action selected by the register file: call number in `r0`
/// (0 read, 1 write, 2 open, 3 close, 60 exit), file descriptor or
/// status in `r1`, buffer offset in `r2` (read/write) or `r1` (open),
/// length in `r3`. Any other call number is a fatal error.
pub open spec fn spec_vm_syscall(regs: Registers) -> Result<SyscallAction, VmError> {
    if regs.r0 == 0 {
        Ok(
            SyscallAction::Read {
                fd: regs.r1,
                addr: spec_wadd16(regs.vp, regs.r2 as u16),
                count: regs.r3,
            },
        )
    } else if regs.r0 == 1 {
        Ok(
            SyscallAction::Write {
                fd: regs.r1,
                addr: spec_wadd16(regs.vp, regs.r2 as u16),
                count: regs.r3,
            },
        )
    } else if regs.r0 == 2 {
        Ok(SyscallAction::Open { addr: spec_wadd16(regs.vp, regs.r1 as u16) })
    } else if regs.r0 == 3 {
        Ok(SyscallAction::Close { fd: regs.r1 })
    } else if regs.r0 == 60 {
        Ok(SyscallAction::Exit { status: regs.r1 })
    } else {
        Err(VmError::UnknownSyscall(regs.r0))
    }
}

/// Decide which host operation a syscall trap asks for. The host
/// performs it and stores the result in `r0`.
pub fn vm_syscall(registers: &Registers) -> (r: Result<SyscallAction, VmError>)
    ensures
        r == spec_vm_syscall(*registers),
{
    if registers.r0 == 0 {
        Ok(
            SyscallAction::Read {
                fd: registers.r1,
                addr: registers.vp.wrapping_add(registers.r2 as u16),
                count: registers.r3,
            },
        )
    } else if registers.r0 == 1 {
        Ok(
            SyscallAction::Write {
                fd: registers.r1,
                addr: registers.vp.wrapping_add(registers.r2 as u16),
                count: registers.r3,
            },
        )
    } else if registers.r0 == 2 {
        Ok(SyscallAction::Open { addr: registers.vp.wrapping_add(registers.r1 as u16) })
    } else if registers.r0 == 3 {
        Ok(SyscallAction::Close { fd: registers.r1 })
    } else if registers.r0 == 60 {
        Ok(SyscallAction::Exit { status: registers.r1 })
    } else {
        Err(VmError::UnknownSyscall(registers.r0))
    }
}

} // verus!
