use smol_core::Vm;
use smol_core::isa::ALUSrc;
use smol_core::isa::ALUType;
use smol_core::isa::BranchCall;
use smol_core::isa::LoadStoreType;
use smol_core::isa::SYSCALL_OPCODE;
use smol_core::isa::compile_alu_equality;
use smol_core::isa::compile_branch_opcode;
use smol_core::isa::compile_load_store;
use smol_core::syscall::SyscallAction;
use smol_core::vm::RunExit;
use smol_core::vm::VmError;
use smol_core::vm_syscall;

#[test]
fn opcode_bytes_match_the_bit_layout() {
    assert_eq!(compile_alu_equality(ALUType::Add, ALUSrc::Register, false, false), 0b00_000_0_0_0);
    assert_eq!(compile_alu_equality(ALUType::Add, ALUSrc::Immediate, false, false), 0b00_000_1_0_0);
    assert_eq!(
        compile_alu_equality(ALUType::Equality, ALUSrc::Register, true, false),
        0b00_110_0_1_0
    );
    assert_eq!(compile_alu_equality(ALUType::IncrDecr, ALUSrc::Decrement, false, false), 0b00_111_1_0_0);
    assert_eq!(compile_load_store(LoadStoreType::Store, false, true, false, false), 0b01_00_0_1_0_0);
    assert_eq!(compile_load_store(LoadStoreType::Load, true, false, true, false), 0b01_01_1_0_1_0);
    assert_eq!(compile_branch_opcode(BranchCall::Jump), 0b11_000_000);
    assert_eq!(compile_branch_opcode(BranchCall::Ret), 0b11_110_000);
    assert_eq!(SYSCALL_OPCODE, 0b11_101_111);
}

#[test]
fn eight_bit_add_wraps_modulo_256() {
    let mut vm = Vm::default();
    vm.registers.r0 = 200;
    vm.instructions.instructions = vec![
        // ADDI r0, 100
        0b00_000_1_0_0,
        0b0000_0000,
        100,
    ];
    vm.run(1000).unwrap();
    assert_eq!(vm.registers.r0, 44);
}

#[test]
fn sixteen_bit_add_wraps_modulo_65536() {
    let mut vm = Vm::default();
    vm.registers.l0 = 65535;
    vm.instructions.instructions = vec![
        // Increment l0 (inc/dec sub-operation, register pair names l0)
        0b00_111_0_0_0,
        0b0000_1001,
    ];
    vm.run(1000).unwrap();
    assert_eq!(vm.registers.l0, 0);
}

#[test]
fn eight_bit_arithmetic_leaves_16_bit_registers_alone() {
    let mut vm = Vm::default();
    vm.registers.r0 = 10;
    vm.registers.l0 = 4242;
    vm.registers.l1 = 17;
    vm.instructions.instructions = vec![
        // ADDI r0, 1
        0b00_000_1_0_0,
        0b0000_0000,
        1,
    ];
    vm.run(1000).unwrap();
    assert_eq!(vm.registers.r0, 11);
    assert_eq!(vm.registers.l0, 4242);
    assert_eq!(vm.registers.l1, 17);
}

#[test]
fn repeated_equality_is_idempotent_on_flags() {
    let mut vm = Vm::default();
    vm.registers.r7 = 50;
    vm.registers.r6 = 51;
    vm.instructions.instructions = vec![
        // EQR r7, r6 twice
        0b00_110_0_0_0,
        0b0110_0111,
        0b00_110_0_0_0,
        0b0110_0111,
    ];
    let mut first = Vm::default();
    first.registers.r7 = 50;
    first.registers.r6 = 51;
    first.instructions.instructions = vec![0b00_110_0_0_0, 0b0110_0111];
    first.run(1000).unwrap();
    vm.run(1000).unwrap();
    assert_eq!(vm.registers.fg, first.registers.fg);
    // 50 < 51: only the less-than bit is set.
    assert_eq!(vm.registers.fg, 0b100);
}

#[test]
fn mixed_width_arithmetic_is_fatal() {
    let mut vm = Vm::default();
    vm.instructions.instructions = vec![
        // ADD with r0 as destination and l0 as source
        0b00_000_0_0_0,
        0b1001_0000,
    ];
    let e = vm.run(1000).unwrap_err();
    assert_eq!(e, VmError::WidthMismatch);
}

#[test]
fn truncated_instruction_is_fatal() {
    let mut vm = Vm::default();
    // An ALU opcode with its register byte missing.
    vm.instructions.instructions = vec![0b00_000_0_0_0];
    let e = vm.run(1000).unwrap_err();
    assert_eq!(e, VmError::InstructionOverrun);
}

#[test]
fn counter_past_the_end_is_fatal() {
    let mut vm = Vm::default();
    vm.instructions.instructions = vec![
        // Jump to 9, far past the end of the 5-byte stream
        0b11_000_000,
        9,
        0,
    ];
    let e = vm.run(1000).unwrap_err();
    assert_eq!(e, VmError::InstructionOverrun);
}

#[test]
fn return_from_interrupt_is_unimplemented() {
    let mut vm = Vm::default();
    vm.instructions.instructions = vec![0b11_111_000];
    let e = vm.run(1000).unwrap_err();
    assert_eq!(e, VmError::UnimplementedOpcode(0b11_111_000));
}

#[test]
fn swap_is_unimplemented() {
    let mut vm = Vm::default();
    vm.instructions.instructions = vec![0b01_11_0_0_0_0];
    let e = vm.run(1000).unwrap_err();
    assert_eq!(e, VmError::UnimplementedOpcode(0b01_11_0_0_0_0));
}

#[test]
fn reserved_load_pattern_is_fatal() {
    let mut vm = Vm::default();
    vm.instructions.instructions = vec![0b01_01_0_0_0_0, 0, 0, 0];
    let e = vm.run(1000).unwrap_err();
    assert_eq!(e, VmError::ReservedOpcode(0b01_01_0_0_0_0));
}

#[test]
fn step_limit_stops_an_endless_loop() {
    let mut vm = Vm::default();
    vm.instructions.instructions = vec![
        // Jump back to the start, forever
        0b11_000_000,
        0,
        0,
    ];
    let r = vm.run(100).unwrap();
    assert_eq!(r, RunExit::StepLimit);
}

#[test]
fn loading_memory_into_registers() {
    let mut vm = Vm::default();
    vm.stack.memory_mut()[512] = 42;
    vm.stack.memory_mut()[513] = 1;
    vm.instructions.instructions = vec![
        // LDM a/16 r/8: load the byte at 512 into r5
        0b01_01_1_0_0_0,
        0,
        2,
        0b0000_0101,
        // LDML a/16 r/16: load the word at 512 into l1
        0b01_01_1_0_1_0,
        0,
        2,
        0b0000_1010,
    ];
    vm.run(1000).unwrap();
    assert_eq!(vm.registers.r5, 42);
    assert_eq!(vm.registers.l1, 256 + 42);
}

#[test]
fn syscall_trap_reaches_the_bridge_exactly_once() {
    let mut vm = Vm::default();
    // Call number 1 (write), fd in r1, offset in r2, length in r3.
    vm.registers.r0 = 1;
    vm.registers.r1 = 1;
    vm.registers.r2 = 4;
    vm.registers.r3 = 12;
    vm.registers.vp = 33000;
    vm.instructions.instructions = vec![SYSCALL_OPCODE];
    let sp_before = vm.registers.sp;
    let exit = vm.run(1000).unwrap();
    // The trap hands control out instead of pushing a return address.
    assert_eq!(exit, RunExit::SyscallRequest);
    assert_eq!(vm.registers.sp, sp_before);
    assert_eq!(vm.registers.ic, 1);
    let action = vm_syscall(&vm.registers).unwrap();
    assert_eq!(action, SyscallAction::Write { fd: 1, addr: 33004, count: 12 });
    // Resuming past the trap halts cleanly and asks nothing further.
    let exit2 = vm.run(1000).unwrap();
    assert_eq!(exit2, RunExit::Halted);
}

#[test]
fn syscall_register_convention() {
    let mut vm = Vm::default();
    vm.registers.vp = 32768;
    vm.registers.r0 = 0;
    vm.registers.r1 = 3;
    vm.registers.r2 = 16;
    vm.registers.r3 = 64;
    assert_eq!(
        vm_syscall(&vm.registers).unwrap(),
        SyscallAction::Read { fd: 3, addr: 32784, count: 64 }
    );
    vm.registers.r0 = 2;
    assert_eq!(vm_syscall(&vm.registers).unwrap(), SyscallAction::Open { addr: 32771 });
    vm.registers.r0 = 3;
    assert_eq!(vm_syscall(&vm.registers).unwrap(), SyscallAction::Close { fd: 3 });
    vm.registers.r0 = 60;
    assert_eq!(vm_syscall(&vm.registers).unwrap(), SyscallAction::Exit { status: 3 });
    vm.registers.r0 = 42;
    assert_eq!(vm_syscall(&vm.registers).unwrap_err(), VmError::UnknownSyscall(42));
}

#[test]
fn stack_regions_share_one_memory() {
    let mut vm = Vm::default();
    vm.stack.save_value(0, 11);
    vm.stack.save_value(32768, 22);
    vm.stack.save_value_16(40000, 513);
    assert_eq!(vm.stack.memory()[0], 11);
    assert_eq!(vm.stack.stack()[0], 11);
    assert_eq!(vm.stack.variable()[0], 22);
    assert_eq!(vm.stack.memory()[32768], 22);
    assert_eq!(vm.stack.load_value(40000), 1);
    assert_eq!(vm.stack.load_value_16(40000), 513);
    assert_eq!(vm.stack.from_sp(40000)[0], 1);
    assert_eq!(vm.stack.memory().len(), 65536);
}
