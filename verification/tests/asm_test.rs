use smol_core::Vm;
use smol_core::ast::A16;
use smol_core::ast::ASTTree;
use smol_core::ast::Arg0;
use smol_core::ast::Arg2;
use smol_core::ast::I16;
use smol_core::ast::I8;
use smol_core::ast::InstrLine;
use smol_core::ast::Instruction;
use smol_core::ast::R16;
use smol_core::ast::R16Regs;
use smol_core::ast::R8;
use smol_core::ast::R8Regs;
use smol_core::ast::Variable;
use smol_core::compiler::AsmError;
use smol_core::compiler::compile_ast;
use smol_core::compiler::program_fits;

fn r8(r: R8Regs) -> R8 {
    R8 { register: r }
}

fn addi(r: R8Regs, v: u8) -> Instruction {
    Instruction::AddI(InstrLine::new(Arg2 { arg1: r8(r), arg2: I8 { value: v } }, 0))
}

fn eqr(a: R8Regs, b: R8Regs) -> Instruction {
    Instruction::EqR(InstrLine::new(Arg2 { arg1: r8(a), arg2: r8(b) }, 0))
}

fn eqil(a: R16Regs, v: u16) -> Instruction {
    Instruction::EqIL(InstrLine::new(
        Arg2 { arg1: R16 { register: a }, arg2: I16 { value: v } },
        0,
    ))
}

fn sti(r: R8Regs, v: u8) -> Instruction {
    Instruction::StI(InstrLine::new(Arg2 { arg1: r8(r), arg2: I8 { value: v } }, 0))
}

fn stm(addr: u16, v: u8) -> Instruction {
    Instruction::Stm(InstrLine::new(
        Arg2 { arg1: A16 { value: addr }, arg2: I8 { value: v } },
        0,
    ))
}

fn be(l: &str) -> Instruction {
    Instruction::Be(InstrLine::new(l.to_owned(), 0))
}

fn label(l: &str) -> Instruction {
    Instruction::Label(l.to_owned())
}

fn tree(instructions: Vec<Instruction>) -> ASTTree {
    ASTTree { variables: Vec::new(), instructions }
}

fn run_program(instructions: Vec<Instruction>) -> Vm {
    let art = compile_ast(tree(instructions)).unwrap();
    let mut vm = Vm::default();
    vm.instructions.instructions = art.instructions;
    vm.registers.ic = art.main_start;
    vm.run(10_000).unwrap();
    vm
}

#[test]
fn two_adds_accumulate() {
    // Assemble `addi r0 5` twice starting from r0 = 0 and execute both.
    let vm = run_program(vec![label("main"), addi(R8Regs::R0, 5), addi(R8Regs::R0, 5)]);
    assert_eq!(vm.registers.r0, 10);
}

#[test]
fn equality_then_branch_lands_on_label() {
    // eqr r7 r6 with equal operands, then a branch-if-equal to a label
    // five bytes after the branch's own offset.
    let art = compile_ast(tree(vec![
        label("main"),
        eqr(R8Regs::R7, R8Regs::R6),
        be("end"),
        label("end"),
    ]))
    .unwrap();
    let mut vm = Vm::default();
    vm.registers.r7 = 50;
    vm.registers.r6 = 50;
    vm.instructions.instructions = art.instructions;
    vm.registers.ic = art.main_start;
    vm.run(10_000).unwrap();
    assert_eq!(vm.registers.ic, 5);
    assert_eq!(vm.registers.fg & 1, 1);
}

#[test]
fn store_immediate_advances_three_bytes() {
    // `sti r1 3` executed alone.
    let vm = run_program(vec![label("main"), sti(R8Regs::R1, 3)]);
    assert_eq!(vm.registers.r1, 3);
    assert_eq!(vm.registers.ic, 3);
}

#[test]
fn store_immediate_to_memory() {
    // `stm 256 25` writes the byte 25 at absolute address 256.
    let vm = run_program(vec![label("main"), stm(256, 25)]);
    assert_eq!(vm.stack.memory()[256], 25);
}

#[test]
fn forward_reference_is_patched_little_endian() {
    // A branch referencing a label that is only defined 10 bytes
    // later, with other instructions in between: the placeholder at
    // the reference site must hold the label's final address.
    let art = compile_ast(tree(vec![
        label("main"),
        be("fwd"),
        sti(R8Regs::R0, 1),
        sti(R8Regs::R1, 2),
        stm(300, 7),
        label("fwd"),
    ]))
    .unwrap();
    // Layout: be = bytes 0-2, sti = 3, sti = 3, stm = 4 -> "fwd" at 13.
    let addr = 13u16.to_le_bytes();
    assert_eq!(art.instructions[1], addr[0]);
    assert_eq!(art.instructions[2], addr[1]);
    assert_eq!(art.instructions.len(), 13);
}

#[test]
fn backward_reference_resolves_immediately() {
    let art = compile_ast(tree(vec![
        label("main"),
        sti(R8Regs::R0, 1),
        label("top"),
        sti(R8Regs::R1, 2),
        be("top"),
    ]))
    .unwrap();
    // "top" sits after the first 3-byte store.
    assert_eq!(art.instructions[7], 3);
    assert_eq!(art.instructions[8], 0);
}

#[test]
fn assembly_is_deterministic() {
    let program = || {
        tree(vec![
            label("main"),
            addi(R8Regs::R0, 5),
            be("end"),
            eqil(R16Regs::L0, 1000),
            label("end"),
        ])
    };
    let a = compile_ast(program()).unwrap();
    let b = compile_ast(program()).unwrap();
    assert_eq!(a.instructions, b.instructions);
    assert_eq!(a.main_start, b.main_start);
    assert_eq!(a.storage.total_size, b.storage.total_size);
}

#[test]
fn sixteen_bit_immediate_equality_round_trips() {
    // A 16-bit immediate comparison must decode its full 2-byte
    // immediate.
    let art = compile_ast(tree(vec![label("main"), eqil(R16Regs::L0, 1000)])).unwrap();
    let mut vm = Vm::default();
    vm.registers.l0 = 1000;
    vm.instructions.instructions = art.instructions;
    vm.registers.ic = art.main_start;
    vm.run(10_000).unwrap();
    assert_eq!(vm.registers.fg, 1);
}

#[test]
fn duplicate_label_is_fatal() {
    let e = compile_ast(tree(vec![label("main"), label("x"), label("x")])).unwrap_err();
    assert!(matches!(e, AsmError::DuplicateLabel { .. }));
}

#[test]
fn unresolved_label_is_fatal() {
    let e = compile_ast(tree(vec![label("main"), be("nowhere")])).unwrap_err();
    assert!(matches!(e, AsmError::UnresolvedLabel { .. }));
}

#[test]
fn missing_main_is_fatal() {
    let e = compile_ast(tree(vec![label("start"), addi(R8Regs::R0, 1)])).unwrap_err();
    assert!(matches!(e, AsmError::MissingMainLabel));
}

#[test]
fn initializer_length_mismatch_is_fatal() {
    let ast = ASTTree {
        variables: vec![Variable { name: "greeting".to_owned(), size: 4, bytes: Some(vec![1, 2]) }],
        instructions: vec![label("main")],
    };
    let e = compile_ast(ast).unwrap_err();
    assert!(matches!(e, AsmError::InitializerSizeMismatch { .. }));
}

#[test]
fn undefined_variable_is_fatal() {
    let ast = ASTTree {
        variables: Vec::new(),
        instructions: vec![label("main"), Instruction::Sv(InstrLine::new("ghost".to_owned(), 0))],
    };
    let e = compile_ast(ast).unwrap_err();
    assert!(matches!(e, AsmError::UndefinedVariable { .. }));
}

#[test]
fn storage_layout_assigns_ascending_offsets() {
    let ast = ASTTree {
        variables: vec![
            Variable { name: "a".to_owned(), size: 4, bytes: None },
            Variable { name: "b".to_owned(), size: 2, bytes: Some(vec![9, 8]) },
            Variable { name: "c".to_owned(), size: 1, bytes: None },
        ],
        instructions: vec![label("main"), Instruction::Sv(InstrLine::new("c".to_owned(), 0))],
    };
    let art = compile_ast(ast).unwrap();
    assert_eq!(art.storage.items.len(), 3);
    assert_eq!(art.storage.items[0].offset, 0);
    assert_eq!(art.storage.items[1].offset, 4);
    assert_eq!(art.storage.items[2].offset, 6);
    // The initialised variable's size carries the high flag bit.
    assert_eq!(art.storage.items[1].size, 2 | 0x8000);
    assert_eq!(art.storage.items[0].size, 4);
    // 4 metadata bytes per variable plus the stored initializer.
    assert_eq!(art.storage.total_size, 14);
    // The sv instruction carries variable "c"'s offset.
    assert_eq!(art.instructions[0], 0b10101100);
    assert_eq!(art.instructions[1], 6);
    assert_eq!(art.instructions[2], 0);
}

#[test]
fn call_and_ret_round_trip() {
    // main calls a subroutine that stores 7 into r3 and returns.
    let art = compile_ast(tree(vec![
        label("sub"),
        sti(R8Regs::R3, 7),
        Instruction::Ret(InstrLine::new(Arg0 {}, 0)),
        label("main"),
        Instruction::Call(InstrLine::new("sub".to_owned(), 0)),
        sti(R8Regs::R4, 9),
    ]))
    .unwrap();
    let mut vm = Vm::default();
    vm.registers.sp = 100;
    vm.instructions.instructions = art.instructions;
    vm.registers.ic = art.main_start;
    vm.run(10_000).unwrap();
    assert_eq!(vm.registers.r3, 7);
    assert_eq!(vm.registers.r4, 9);
    assert_eq!(vm.registers.sp, 100);
}

#[test]
fn program_size_limits_are_checked() {
    let small = tree(vec![label("main"), addi(R8Regs::R0, 1)]);
    assert!(program_fits(&small));
    let oversized = ASTTree {
        variables: vec![
            Variable { name: "a".to_owned(), size: 60000, bytes: None },
            Variable { name: "b".to_owned(), size: 60000, bytes: None },
        ],
        instructions: vec![label("main")],
    };
    assert!(!program_fits(&oversized));
}
