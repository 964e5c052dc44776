//! The assembler: lays declared variables out into a storage
//! descriptor, emits the linear instruction byte stream, and resolves
//! label references by forward-patching. For a fixed input program the
//! byte stream and descriptor are fully deterministic; label addresses
//! are determined by stream position alone.

use vstd::prelude::*;

use crate::ast::ASTTree;
use crate::ast::Instruction;
use crate::ast::R16;
use crate::ast::R16Regs;
use crate::ast::R8;
use crate::ast::R8Regs;
use crate::ast::Variable;
use crate::isa::ALUSrc;
use crate::isa::ALUType;
use crate::isa::BranchCall;
use crate::isa::LoadStoreType;
use crate::isa::SYSCALL_OPCODE;
use crate::isa::compile_alu_equality;
use crate::isa::compile_branch_opcode;
use crate::isa::compile_load_store;
use crate::isa::AluArg;
use crate::isa::AluOp;
use crate::isa::Decoded;
use crate::isa::lemma_regpair_fields;
use crate::isa::lemma_word_roundtrip;
use crate::isa::spec_alu_opcode;
use crate::isa::spec_branch_opcode;
use crate::isa::spec_decode;
use crate::isa::spec_load_store_opcode;
use crate::vm::VmError;

verus! {

/// Why an assembly pass failed; each variant names the offending
/// construct so the caller can fix the source. Assembly either fully
/// succeeds or produces no artifact.
#[derive(Debug)]
pub enum AsmError {
    /// A variable's initializer length differs from its declared size.
    InitializerSizeMismatch { name: String, expected: u16, actual: usize },
    /// A variable-pointer instruction names an undeclared variable.
    UndefinedVariable { name: String },
    /// A label is defined twice.
    DuplicateLabel { name: String },
    /// A branch or call references a label that is never defined.
    UnresolvedLabel { name: String },
    /// No "main" label exists to serve as the entry point.
    MissingMainLabel,
}

/// Per-variable metadata: declared size (with the high bit flagging an
/// initializer), offset within the variable region, and the optional
/// initializer bytes.
#[derive(Debug)]
pub struct StorageItem {
    pub size: u16,
    pub offset: u16,
    pub init_data: Option<Vec<u8>>,
}

/// The storage descriptor: every declared variable in declaration
/// order, and the total bytes the loader must reserve.
#[derive(Debug)]
pub struct Storage {
    pub total_size: u16,
    pub items: Vec<StorageItem>,
}

/// The compiled artifact: storage descriptor, entry address resolved
/// from the "main" label, and the instruction byte stream.
#[derive(Debug)]
pub struct Artifact {
    pub storage: Storage,
    pub main_start: u16,
    pub instructions: Vec<u8>,
}

/// The 4-bit selector code of an 8-bit general register.
pub open spec fn spec_r8_code(r: R8Regs) -> u8 {
    match r {
        R8Regs::R0 => 0,
        R8Regs::R1 => 1,
        R8Regs::R2 => 2,
        R8Regs::R3 => 3,
        R8Regs::R4 => 4,
        R8Regs::R5 => 5,
        R8Regs::R6 => 6,
        R8Regs::R7 => 7,
    }
}

/// The 4-bit selector code of a 16-bit general register.
pub open spec fn spec_r16_code(r: R16Regs) -> u8 {
    match r {
        R16Regs::L0 => 9,
        R16Regs::L1 => 10,
    }
}

/// The selector code of an 8-bit register operand.
pub fn r8_code(r: &R8) -> (c: u8)
    ensures
        c == spec_r8_code(r.register),
{
    match r.register {
        R8Regs::R0 => 0,
        R8Regs::R1 => 1,
        R8Regs::R2 => 2,
        R8Regs::R3 => 3,
        R8Regs::R4 => 4,
        R8Regs::R5 => 5,
        R8Regs::R6 => 6,
        R8Regs::R7 => 7,
    }
}

/// The selector code of a 16-bit register operand.
pub fn r16_code(r: &R16) -> (c: u8)
    ensures
        c == spec_r16_code(r.register),
{
    match r.register {
        R16Regs::L0 => 9,
        R16Regs::L1 => 10,
    }
}

/// A register-pair byte: first operand in the low nibble, second in
/// the high nibble.
pub open spec fn spec_pack(first: u8, second: u8) -> u8
    recommends
        first < 16,
        second < 16,
{
    (first + second * 16) as u8
}

/// The low byte of a little-endian 16-bit value.
pub open spec fn spec_lo(v: u16) -> u8 {
    (v % 256) as u8
}

/// The high byte of a little-endian 16-bit value.
pub open spec fn spec_hi(v: u16) -> u8 {
    (v / 256) as u8
}

/// The number of bytes an instruction occupies in the stream; label
/// definitions occupy none.
pub open spec fn spec_instr_len(i: Instruction) -> int {
    match i {
        Instruction::Add(_) => 2,
        Instruction::AddI(_) => 3,
        Instruction::EqR(_) => 2,
        Instruction::EqI(_) => 3,
        Instruction::EqRL(_) => 2,
        Instruction::EqIL(_) => 4,
        Instruction::St(_) => 2,
        Instruction::StL(_) => 2,
        Instruction::StI(_) => 3,
        Instruction::StIL(_) => 4,
        Instruction::Stm(_) => 4,
        Instruction::StmL(_) => 5,
        Instruction::Str(_) => 4,
        Instruction::StrL(_) => 4,
        Instruction::Ldm(_) => 4,
        Instruction::LdmL(_) => 4,
        Instruction::Be(_) => 3,
        Instruction::Bne(_) => 3,
        Instruction::Bgt(_) => 3,
        Instruction::Blt(_) => 3,
        Instruction::Call(_) => 3,
        Instruction::Ret(_) => 1,
        Instruction::Syscall(_) => 1,
        Instruction::Sv(_) => 3,
        Instruction::Uv(_) => 1,
        Instruction::Label(_) => 0,
    }
}

/// The byte offset at which instruction `k` starts: the sum of the
/// lengths of everything before it.
pub open spec fn spec_offset_of(instrs: Seq<Instruction>, k: int) -> int
    decreases k,
{
    if k <= 0 {
        0
    } else {
        spec_offset_of(instrs, k - 1) + spec_instr_len(instrs[k - 1])
    }
}

/// The label a branch or call instruction references, if it is one.
pub open spec fn spec_branch_label(i: Instruction) -> Option<Seq<char>> {
    match i {
        Instruction::Be(l) => Some(l.spec_inner()@),
        Instruction::Bne(l) => Some(l.spec_inner()@),
        Instruction::Bgt(l) => Some(l.spec_inner()@),
        Instruction::Blt(l) => Some(l.spec_inner()@),
        Instruction::Call(l) => Some(l.spec_inner()@),
        _ => None,
    }
}

/// The label an instruction defines, if it is a definition.
pub open spec fn spec_label_name(i: Instruction) -> Option<Seq<char>> {
    match i {
        Instruction::Label(s) => Some(s@),
        _ => None,
    }
}

/// Whether one of the first `k` instructions defines `name`.
pub open spec fn spec_defined_in(instrs: Seq<Instruction>, k: int, name: Seq<char>) -> bool {
    exists|j: int| 0 <= j < k && j < instrs.len() && spec_label_name(instrs[j]) == Some(name)
}

/// Whether any instruction defines `name`.
pub open spec fn spec_label_defined(instrs: Seq<Instruction>, name: Seq<char>) -> bool {
    spec_defined_in(instrs, instrs.len() as int, name)
}

/// The index of the first definition of `name` at or after `from`, or
/// the program length if there is none.
pub open spec fn spec_first_def(instrs: Seq<Instruction>, name: Seq<char>, from: int) -> int
    decreases instrs.len() - from,
{
    if from < 0 || from >= instrs.len() {
        instrs.len() as int
    } else if spec_label_name(instrs[from]) == Some(name) {
        from
    } else {
        spec_first_def(instrs, name, from + 1)
    }
}

/// The byte address a label resolves to: the stream offset of its
/// first definition.
pub open spec fn spec_label_addr(instrs: Seq<Instruction>, name: Seq<char>) -> int {
    spec_offset_of(instrs, spec_first_def(instrs, name, 0))
}

/// Whether a declared variable named `name` exists.
pub open spec fn spec_var_defined(vars: Seq<Variable>, name: Seq<char>) -> bool {
    exists|j: int| 0 <= j < vars.len() && vars[j].name@ == name
}

/// The index of the first variable named `name` at or after `from`, or
/// the declaration count if there is none.
pub open spec fn spec_first_var(vars: Seq<Variable>, name: Seq<char>, from: int) -> int
    decreases vars.len() - from,
{
    if from < 0 || from >= vars.len() {
        vars.len() as int
    } else if vars[from].name@ == name {
        from
    } else {
        spec_first_var(vars, name, from + 1)
    }
}

/// The variable-region offset of variable `k`: offsets are assigned by
/// a single left-to-right pass in declaration order.
pub open spec fn spec_var_offset(vars: Seq<Variable>, k: int) -> int
    decreases k,
{
    if k <= 0 {
        0
    } else {
        spec_var_offset(vars, k - 1) + vars[k - 1].size
    }
}

/// The offset the named variable resolves to.
pub open spec fn spec_var_addr(vars: Seq<Variable>, name: Seq<char>) -> int {
    spec_var_offset(vars, spec_first_var(vars, name, 0))
}

/// The bytes the persisted descriptor takes after `k` variables: four
/// bytes of metadata (two 16-bit fields) per variable, plus the
/// variable's size again when its initializer must be stored.
pub open spec fn spec_total_size(vars: Seq<Variable>, k: int) -> int
    decreases k,
{
    if k <= 0 {
        0
    } else {
        spec_total_size(vars, k - 1) + 4 + (if vars[k - 1].bytes is Some {
            vars[k - 1].size as int
        } else {
            0
        })
    }
}

/// The size field recorded for a variable: the declared size, with the
/// highest bit set to signal initialised data.
pub open spec fn spec_storage_size(v: Variable) -> u16 {
    if v.bytes is Some {
        v.size | 0x8000
    } else {
        v.size
    }
}

/// Every initializer's length equals its variable's declared size.
pub open spec fn spec_vars_ok(vars: Seq<Variable>) -> bool {
    forall|j: int|
        0 <= j < vars.len() ==> ((#[trigger] vars[j].bytes) matches Some(b) ==> b@.len()
            == vars[j].size)
}

/// No label is defined twice.
pub open spec fn spec_no_dup_labels(instrs: Seq<Instruction>) -> bool {
    spec_nodup_inv(instrs, instrs.len() as int)
}

/// Every referenced label has a definition.
pub open spec fn spec_labels_ok(instrs: Seq<Instruction>) -> bool {
    forall|i: int|
        0 <= i < instrs.len() ==> ((#[trigger] spec_branch_label(instrs[i])) matches Some(name)
            ==> spec_label_defined(instrs, name))
}

/// Every variable-pointer instruction names a declared variable.
pub open spec fn spec_svs_ok(ast: ASTTree) -> bool {
    spec_svs_inv(ast, ast.instructions@.len() as int)
}

/// When assembly succeeds: initializer lengths match, no duplicate
/// labels, every referenced label and variable is defined, and a
/// "main" label exists as the entry point.
pub open spec fn spec_asm_ok(ast: ASTTree) -> bool {
    &&& spec_vars_ok(ast.variables@)
    &&& spec_no_dup_labels(ast.instructions@)
    &&& spec_labels_ok(ast.instructions@)
    &&& spec_svs_ok(ast)
    &&& spec_label_defined(ast.instructions@, "main"@)
}

/// The address operand an instruction is encoded with: branches and
/// calls take their label's address, a variable-pointer load takes its
/// variable's offset, and every other instruction ignores it.
pub open spec fn spec_target_of(ast: ASTTree, i: Instruction) -> u16 {
    match i {
        Instruction::Be(l) => spec_label_addr(ast.instructions@, l.spec_inner()@) as u16,
        Instruction::Bne(l) => spec_label_addr(ast.instructions@, l.spec_inner()@) as u16,
        Instruction::Bgt(l) => spec_label_addr(ast.instructions@, l.spec_inner()@) as u16,
        Instruction::Blt(l) => spec_label_addr(ast.instructions@, l.spec_inner()@) as u16,
        Instruction::Call(l) => spec_label_addr(ast.instructions@, l.spec_inner()@) as u16,
        Instruction::Sv(l) => spec_var_addr(ast.variables@, l.spec_inner()@) as u16,
        _ => 0,
    }
}

/// The bytes one instruction is encoded into, given its resolved
/// address operand.
pub open spec fn spec_encode_instr(i: Instruction, target: u16) -> Seq<u8> {
    match i {
        Instruction::Add(l) => seq![
            spec_alu_opcode(ALUType::Add, ALUSrc::Register, false, false),
            spec_pack(spec_r8_code(l.spec_inner().arg1.register), spec_r8_code(l.spec_inner().arg2.register)),
        ],
        Instruction::AddI(l) => seq![
            spec_alu_opcode(ALUType::Add, ALUSrc::Immediate, false, false),
            spec_r8_code(l.spec_inner().arg1.register),
            l.spec_inner().arg2.value,
        ],
        Instruction::EqR(l) => seq![
            spec_alu_opcode(ALUType::Equality, ALUSrc::Register, false, false),
            spec_pack(spec_r8_code(l.spec_inner().arg1.register), spec_r8_code(l.spec_inner().arg2.register)),
        ],
        Instruction::EqI(l) => seq![
            spec_alu_opcode(ALUType::Equality, ALUSrc::Immediate, false, false),
            spec_r8_code(l.spec_inner().arg1.register),
            l.spec_inner().arg2.value,
        ],
        Instruction::EqRL(l) => seq![
            spec_alu_opcode(ALUType::Equality, ALUSrc::Register, true, false),
            spec_pack(spec_r16_code(l.spec_inner().arg1.register), spec_r16_code(l.spec_inner().arg2.register)),
        ],
        Instruction::EqIL(l) => seq![
            spec_alu_opcode(ALUType::Equality, ALUSrc::Immediate, true, false),
            spec_r16_code(l.spec_inner().arg1.register),
            spec_lo(l.spec_inner().arg2.value),
            spec_hi(l.spec_inner().arg2.value),
        ],
        Instruction::St(l) => seq![
            spec_load_store_opcode(LoadStoreType::Store, false, false, false, false),
            spec_pack(spec_r8_code(l.spec_inner().arg1.register), spec_r8_code(l.spec_inner().arg2.register)),
        ],
        Instruction::StL(l) => seq![
            spec_load_store_opcode(LoadStoreType::Store, false, false, true, false),
            spec_pack(spec_r16_code(l.spec_inner().arg1.register), spec_r16_code(l.spec_inner().arg2.register)),
        ],
        Instruction::StI(l) => seq![
            spec_load_store_opcode(LoadStoreType::Store, false, true, false, false),
            spec_r8_code(l.spec_inner().arg1.register),
            l.spec_inner().arg2.value,
        ],
        Instruction::StIL(l) => seq![
            spec_load_store_opcode(LoadStoreType::Store, false, true, true, false),
            spec_r16_code(l.spec_inner().arg1.register),
            spec_lo(l.spec_inner().arg2.value),
            spec_hi(l.spec_inner().arg2.value),
        ],
        Instruction::Stm(l) => seq![
            spec_load_store_opcode(LoadStoreType::Store, true, true, false, false),
            spec_lo(l.spec_inner().arg1.value),
            spec_hi(l.spec_inner().arg1.value),
            l.spec_inner().arg2.value,
        ],
        Instruction::StmL(l) => seq![
            spec_load_store_opcode(LoadStoreType::Store, true, true, true, false),
            spec_lo(l.spec_inner().arg1.value),
            spec_hi(l.spec_inner().arg1.value),
            spec_lo(l.spec_inner().arg2.value),
            spec_hi(l.spec_inner().arg2.value),
        ],
        Instruction::Str(l) => seq![
            spec_load_store_opcode(LoadStoreType::Store, true, false, false, false),
            spec_lo(l.spec_inner().arg1.value),
            spec_hi(l.spec_inner().arg1.value),
            spec_r8_code(l.spec_inner().arg2.register),
        ],
        Instruction::StrL(l) => seq![
            spec_load_store_opcode(LoadStoreType::Store, true, false, true, false),
            spec_lo(l.spec_inner().arg1.value),
            spec_hi(l.spec_inner().arg1.value),
            spec_r16_code(l.spec_inner().arg2.register),
        ],
        Instruction::Ldm(l) => seq![
            spec_load_store_opcode(LoadStoreType::Load, true, false, false, false),
            spec_lo(l.spec_inner().arg1.value),
            spec_hi(l.spec_inner().arg1.value),
            spec_r8_code(l.spec_inner().arg2.register),
        ],
        Instruction::LdmL(l) => seq![
            spec_load_store_opcode(LoadStoreType::Load, true, false, true, false),
            spec_lo(l.spec_inner().arg1.value),
            spec_hi(l.spec_inner().arg1.value),
            spec_r16_code(l.spec_inner().arg2.register),
        ],
        Instruction::Be(_) => seq![
            spec_branch_opcode(BranchCall::BranchEq),
            spec_lo(target),
            spec_hi(target),
        ],
        Instruction::Bne(_) => seq![
            spec_branch_opcode(BranchCall::BranchNe),
            spec_lo(target),
            spec_hi(target),
        ],
        Instruction::Bgt(_) => seq![
            spec_branch_opcode(BranchCall::BranchGt),
            spec_lo(target),
            spec_hi(target),
        ],
        Instruction::Blt(_) => seq![
            spec_branch_opcode(BranchCall::BranchLt),
            spec_lo(target),
            spec_hi(target),
        ],
        Instruction::Call(_) => seq![
            spec_branch_opcode(BranchCall::Call),
            spec_lo(target),
            spec_hi(target),
        ],
        Instruction::Ret(_) => seq![spec_branch_opcode(BranchCall::Ret)],
        Instruction::Syscall(_) => seq![SYSCALL_OPCODE],
        // Load the variable pointer with a 16-bit immediate offset.
        Instruction::Sv(_) => seq![172u8, spec_lo(target), spec_hi(target)],
        // Reset the variable pointer.
        Instruction::Uv(_) => seq![176u8],
        Instruction::Label(_) => seq![],
    }
}

/// The first `k` instructions' bytes, each encoded with its resolved
/// address operand.
pub open spec fn spec_stream_to(ast: ASTTree, k: int) -> Seq<u8>
    decreases k,
{
    if k <= 0 {
        Seq::empty()
    } else {
        spec_stream_to(ast, k - 1) + spec_encode_instr(
            ast.instructions@[k - 1],
            spec_target_of(ast, ast.instructions@[k - 1]),
        )
    }
}

/// The whole program's byte stream.
pub open spec fn spec_stream(ast: ASTTree) -> Seq<u8> {
    spec_stream_to(ast, ast.instructions@.len() as int)
}

/// Storage grows with every declaration.
proof fn lemma_total_size_monotone(vars: Seq<Variable>, a: int, b: int)
    requires
        0 <= a <= b,
    ensures
        spec_total_size(vars, a) <= spec_total_size(vars, b),
    decreases b - a,
{
    if a < b {
        lemma_total_size_monotone(vars, a, b - 1);
    }
}

/// Offsets are non-negative and grow with every declaration.
proof fn lemma_var_offset_monotone(vars: Seq<Variable>, a: int, b: int)
    requires
        0 <= a <= b,
    ensures
        0 <= spec_var_offset(vars, a) <= spec_var_offset(vars, b),
    decreases b,
{
    if a < b {
        lemma_var_offset_monotone(vars, a, b - 1);
    } else if a == b && a > 0 {
        lemma_var_offset_monotone(vars, a - 1, a - 1);
    }
}

/// A linear search that hits `idx` after seeing no earlier match finds
/// the first matching variable.
proof fn lemma_first_var_is(vars: Seq<Variable>, name: Seq<char>, from: int, idx: int)
    requires
        0 <= from <= idx < vars.len(),
        vars[idx].name@ == name,
        forall|j: int| from <= j < idx ==> vars[j].name@ != name,
    ensures
        spec_first_var(vars, name, from) == idx,
    decreases idx - from,
{
    if from < idx {
        lemma_first_var_is(vars, name, from + 1, idx);
    }
}

/// A linear search that sees no match at all finds nothing.
proof fn lemma_first_var_none(vars: Seq<Variable>, name: Seq<char>, from: int)
    requires
        0 <= from,
        forall|j: int| from <= j < vars.len() ==> vars[j].name@ != name,
    ensures
        spec_first_var(vars, name, from) == vars.len(),
    decreases vars.len() - from,
{
    if from < vars.len() {
        lemma_first_var_none(vars, name, from + 1);
    }
}

/// The bytes of instruction `j` within a stream laid out by the
/// programs' offsets.
pub open spec fn spec_slot(stream: Seq<u8>, instrs: Seq<Instruction>, j: int) -> Seq<u8> {
    stream.subrange(spec_offset_of(instrs, j), spec_offset_of(instrs, j + 1))
}

/// Instruction `j`'s bytes while the first `k` instructions have been
/// processed: a branch whose label has no definition among them still
/// holds the 2-byte zero placeholder (its encoding with target 0).
pub open spec fn spec_enc_now(ast: ASTTree, j: int, k: int) -> Seq<u8> {
    let i = ast.instructions@[j];
    match spec_branch_label(i) {
        Some(name) => if spec_defined_in(ast.instructions@, k, name) {
            spec_encode_instr(i, spec_target_of(ast, i))
        } else {
            spec_encode_instr(i, 0)
        },
        None => spec_encode_instr(i, spec_target_of(ast, i)),
    }
}

/// An instruction's encoding occupies exactly its stream length.
proof fn lemma_encode_len(i: Instruction, target: u16)
    ensures
        spec_encode_instr(i, target).len() == spec_instr_len(i),
{
}

/// A branch or call occupies three bytes, opcode first.
proof fn lemma_branch_shape(i: Instruction, target: u16)
    requires
        spec_branch_label(i) is Some,
    ensures
        spec_instr_len(i) == 3,
        spec_encode_instr(i, target).len() == 3,
        spec_encode_instr(i, target)[0] == spec_encode_instr(i, 0)[0],
        spec_encode_instr(i, target)[1] == spec_lo(target),
        spec_encode_instr(i, target)[2] == spec_hi(target),
        spec_encode_instr(i, 0)[1] == 0,
        spec_encode_instr(i, 0)[2] == 0,
{
}

/// The label bookkeeping the assembler's main pass maintains after
/// processing `k` instructions: every recorded label is defined among
/// them at its stream address, every definition among them is
/// recorded, and no name is recorded twice.
pub open spec fn spec_labels_inv(ast: ASTTree, labels: Seq<(String, u16)>, k: int) -> bool {
    let instrs = ast.instructions@;
    &&& (forall|t: int|
        0 <= t < labels.len() ==> spec_defined_in(instrs, k, (#[trigger] labels[t]).0@)
            && labels[t].1 == spec_label_addr(instrs, labels[t].0@))
    &&& (forall|j: int|
        0 <= j < k && j < instrs.len() ==> ((#[trigger] spec_label_name(instrs[j])) matches Some(
            nm,
        ) ==> (exists|t: int| 0 <= t < labels.len() && (#[trigger] labels[t]).0@ == nm)))
    &&& (forall|t1: int, t2: int|
        0 <= t1 < t2 < labels.len() ==> (#[trigger] labels[t1]).0@ != (#[trigger] labels[t2]).0@)
}

/// The pending-patch bookkeeping after `k` instructions: every entry
/// names a branch among them whose label is still undefined exactly
/// when its flag is clear, every unresolved branch has an entry at its
/// patch site, and patch sites ascend and lie within the stream.
pub open spec fn spec_pend_inv(
    ast: ASTTree,
    pend: Seq<(String, usize, bool)>,
    k: int,
    stream_len: int,
) -> bool {
    let instrs = ast.instructions@;
    &&& (forall|t: int|
        0 <= t < pend.len() ==> ((#[trigger] pend[t]).2 == spec_defined_in(instrs, k, pend[t].0@)
            && exists|j: int|
            0 <= j < k && j < instrs.len() && spec_branch_label(#[trigger] instrs[j]) == Some(
                pend[t].0@,
            ) && pend[t].1 == spec_offset_of(instrs, j) + 1))
    &&& (forall|j: int|
        0 <= j < k && j < instrs.len() ==> ((#[trigger] spec_branch_label(instrs[j])) matches Some(
            nm,
        ) ==> (spec_defined_in(instrs, k, nm) || exists|t: int|
            0 <= t < pend.len() && (#[trigger] pend[t]).1 == spec_offset_of(instrs, j) + 1
                && pend[t].0@ == nm)))
    &&& (forall|t1: int, t2: int|
        0 <= t1 < t2 < pend.len() ==> (#[trigger] pend[t1]).1 + 3 <= (#[trigger] pend[t2]).1)
    &&& (forall|t: int|
        0 <= t < pend.len() ==> 1 <= (#[trigger] pend[t]).1 && pend[t].1 + 2 <= stream_len)
}

/// The emitted bytes after `k` instructions: every processed
/// instruction sits at its offset in its current encoding.
pub open spec fn spec_slots_inv(ast: ASTTree, stream: Seq<u8>, k: int) -> bool {
    forall|j: int|
        0 <= j < k && j < ast.instructions@.len() ==> #[trigger] spec_slot(
            stream,
            ast.instructions@,
            j,
        ) == spec_enc_now(ast, j, k)
}

/// No duplicate label definitions among the first `k` instructions.
pub open spec fn spec_nodup_inv(instrs: Seq<Instruction>, k: int) -> bool {
    forall|i: int, j: int|
        0 <= i < j < k && j < instrs.len() && (#[trigger] spec_label_name(instrs[i])) is Some
            ==> spec_label_name(instrs[i]) != #[trigger] spec_label_name(instrs[j])
}

/// Every variable-pointer load among the first `k` instructions names
/// a declared variable.
pub open spec fn spec_svs_inv(ast: ASTTree, k: int) -> bool {
    forall|i: int|
        0 <= i < k && i < ast.instructions@.len() ==> ((#[trigger] ast.instructions@[i]) matches
            Instruction::Sv(l) ==> spec_var_defined(ast.variables@, l.spec_inner()@))
}

/// Processing a non-label instruction defines nothing new.
proof fn lemma_labels_step_nonlabel(ast: ASTTree, labels: Seq<(String, u16)>, k: int)
    requires
        0 <= k < ast.instructions@.len(),
        spec_label_name(ast.instructions@[k]) is None,
        spec_labels_inv(ast, labels, k),
    ensures
        spec_labels_inv(ast, labels, k + 1),
{
    let instrs = ast.instructions@;
    assert forall|nm: Seq<char>| #[trigger] spec_defined_in(instrs, k + 1, nm) == spec_defined_in(
        instrs,
        k,
        nm,
    ) by {
        lemma_defined_in_unfold(instrs, k, nm);
    }
}

/// Pending entries survive a non-label instruction that pushes
/// nothing: a branch processed here must already have its label
/// defined.
proof fn lemma_pend_step_same(
    ast: ASTTree,
    pend: Seq<(String, usize, bool)>,
    k: int,
    len1: int,
    len2: int,
)
    requires
        0 <= k < ast.instructions@.len(),
        spec_label_name(ast.instructions@[k]) is None,
        spec_pend_inv(ast, pend, k, len1),
        len1 <= len2,
        (spec_branch_label(ast.instructions@[k]) matches Some(nm) ==> spec_defined_in(
            ast.instructions@,
            k,
            nm,
        )),
    ensures
        spec_pend_inv(ast, pend, k + 1, len2),
{
    let instrs = ast.instructions@;
    assert forall|nm: Seq<char>| #[trigger] spec_defined_in(instrs, k + 1, nm) == spec_defined_in(
        instrs,
        k,
        nm,
    ) by {
        lemma_defined_in_unfold(instrs, k, nm);
    }
}

/// Pending entries survive a branch whose label is still undefined;
/// its own patch site joins the list.
proof fn lemma_pend_step_push(
    ast: ASTTree,
    pend: Seq<(String, usize, bool)>,
    e: (String, usize, bool),
    k: int,
)
    requires
        0 <= k < ast.instructions@.len(),
        spec_branch_label(ast.instructions@[k]) == Some(e.0@),
        !spec_defined_in(ast.instructions@, k, e.0@),
        e.1 == spec_offset_of(ast.instructions@, k) + 1,
        e.2 == false,
        spec_pend_inv(ast, pend, k, spec_offset_of(ast.instructions@, k)),
    ensures
        spec_pend_inv(
            ast,
            pend.push(e),
            k + 1,
            spec_offset_of(ast.instructions@, k + 1),
        ),
{
    let instrs = ast.instructions@;
    lemma_branch_shape(instrs[k], 0);
    lemma_offset_monotone(instrs, 0, k);
    assert forall|nm: Seq<char>| #[trigger] spec_defined_in(instrs, k + 1, nm) == spec_defined_in(
        instrs,
        k,
        nm,
    ) by {
        lemma_defined_in_unfold(instrs, k, nm);
    }
    let p2 = pend.push(e);
    assert forall|t: int| 0 <= t < p2.len() implies ((#[trigger] p2[t]).2 == spec_defined_in(
        instrs,
        k + 1,
        p2[t].0@,
    ) && exists|j: int|
        0 <= j < k + 1 && j < instrs.len() && spec_branch_label(#[trigger] instrs[j]) == Some(
            p2[t].0@,
        ) && p2[t].1 == spec_offset_of(instrs, j) + 1) by {
        if t < pend.len() {
            assert(p2[t] == pend[t]);
            let j0 = choose|j: int|
                0 <= j < k && j < instrs.len() && spec_branch_label(#[trigger] instrs[j]) == Some(
                    pend[t].0@,
                ) && pend[t].1 == spec_offset_of(instrs, j) + 1;
            assert(spec_branch_label(instrs[j0]) == Some(p2[t].0@) && p2[t].1 == spec_offset_of(
                instrs,
                j0,
            ) + 1);
        } else {
            assert(p2[t] == e);
            assert(spec_branch_label(instrs[k]) == Some(p2[t].0@) && p2[t].1 == spec_offset_of(
                instrs,
                k,
            ) + 1);
        }
    }
    assert forall|j: int|
        0 <= j < k + 1 && j < instrs.len() && (#[trigger] spec_branch_label(instrs[j])) is Some
            && !spec_defined_in(instrs, k + 1, spec_branch_label(instrs[j])->Some_0) implies (
    exists|t: int|
        0 <= t < p2.len() && (#[trigger] p2[t]).1 == spec_offset_of(instrs, j) + 1 && p2[t].0@
            == spec_branch_label(instrs[j])->Some_0) by {
        let nm = spec_branch_label(instrs[j])->Some_0;
        if j < k {
            let t0 = choose|t: int|
                0 <= t < pend.len() && (#[trigger] pend[t]).1 == spec_offset_of(instrs, j) + 1
                    && pend[t].0@ == nm;
            assert(p2[t0] == pend[t0]);
            assert(0 <= t0 < p2.len() && p2[t0].1 == spec_offset_of(instrs, j) + 1 && p2[t0].0@
                == nm);
        } else {
            assert(p2[pend.len() as int] == e);
            assert(p2[pend.len() as int].1 == spec_offset_of(instrs, j) + 1 && p2[pend.len() as int].0@
                == nm);
        }
    }
}

/// When every pending patch is resolved, every referenced label is
/// defined.
proof fn lemma_labels_ok_from_pend(ast: ASTTree, pend: Seq<(String, usize, bool)>, stream_len: int)
    requires
        spec_pend_inv(ast, pend, ast.instructions@.len() as int, stream_len),
        forall|t: int| 0 <= t < pend.len() ==> (#[trigger] pend[t]).2 == true,
    ensures
        spec_labels_ok(ast.instructions@),
{
    let instrs = ast.instructions@;
    assert forall|i: int|
        0 <= i < instrs.len() && (#[trigger] spec_branch_label(instrs[i])) is Some implies spec_label_defined(
        instrs,
        spec_branch_label(instrs[i])->Some_0,
    ) by {
        let nm = spec_branch_label(instrs[i])->Some_0;
        if !spec_defined_in(instrs, instrs.len() as int, nm) {
            let t0 = choose|t: int|
                0 <= t < pend.len() && (#[trigger] pend[t]).1 == spec_offset_of(instrs, i) + 1
                    && pend[t].0@ == nm;
            assert(pend[t0].2 == spec_defined_in(instrs, instrs.len() as int, nm));
        }
    }
}

/// Instruction offsets are non-negative and never decrease.
proof fn lemma_offset_monotone(instrs: Seq<Instruction>, a: int, b: int)
    requires
        0 <= a <= b,
    ensures
        0 <= spec_offset_of(instrs, a) <= spec_offset_of(instrs, b),
    decreases b,
{
    if a < b {
        lemma_offset_monotone(instrs, a, b - 1);
    } else if a == b && a > 0 {
        lemma_offset_monotone(instrs, a - 1, a - 1);
    }
}

/// A linear scan that hits a definition at `idx` after seeing none
/// finds the first definition.
proof fn lemma_first_def_is(instrs: Seq<Instruction>, name: Seq<char>, from: int, idx: int)
    requires
        0 <= from <= idx < instrs.len(),
        spec_label_name(instrs[idx]) == Some(name),
        forall|j: int| from <= j < idx ==> (#[trigger] spec_label_name(instrs[j])) != Some(name),
    ensures
        spec_first_def(instrs, name, from) == idx,
    decreases idx - from,
{
    if from < idx {
        lemma_first_def_is(instrs, name, from + 1, idx);
    }
}

/// Defining one more instruction defines one more name at most.
proof fn lemma_defined_in_unfold(instrs: Seq<Instruction>, k: int, name: Seq<char>)
    requires
        0 <= k < instrs.len(),
    ensures
        spec_defined_in(instrs, k + 1, name) == (spec_defined_in(instrs, k, name)
            || spec_label_name(instrs[k]) == Some(name)),
{
    if spec_defined_in(instrs, k + 1, name) {
        let j = choose|j: int|
            0 <= j < k + 1 && j < instrs.len() && spec_label_name(instrs[j]) == Some(name);
        if j < k {
            assert(spec_defined_in(instrs, k, name));
        }
    }
    if spec_defined_in(instrs, k, name) {
        assert(spec_defined_in(instrs, k + 1, name));
    }
    if spec_label_name(instrs[k]) == Some(name) {
        assert(spec_defined_in(instrs, k + 1, name));
    }
}

/// An update outside a subrange leaves the subrange unchanged.
proof fn lemma_update_outside_subrange(s: Seq<u8>, q: int, v: u8, a: int, b: int)
    requires
        0 <= a <= b <= s.len(),
        0 <= q < s.len(),
        q < a || q >= b,
    ensures
        s.update(q, v).subrange(a, b) == s.subrange(a, b),
{
    assert(s.update(q, v).subrange(a, b) =~= s.subrange(a, b));
}

/// An update inside a subrange updates the subrange at the shifted
/// position.
proof fn lemma_update_inside_subrange(s: Seq<u8>, q: int, v: u8, a: int, b: int)
    requires
        0 <= a <= q < b <= s.len(),
    ensures
        s.update(q, v).subrange(a, b) == s.subrange(a, b).update(q - a, v),
{
    assert(s.update(q, v).subrange(a, b) =~= s.subrange(a, b).update(q - a, v));
}

/// Appending bytes leaves every complete existing subrange unchanged.
proof fn lemma_append_preserves_subrange(s: Seq<u8>, t: Seq<u8>, a: int, b: int)
    requires
        0 <= a <= b <= s.len(),
    ensures
        (s + t).subrange(a, b) == s.subrange(a, b),
{
    assert((s + t).subrange(a, b) =~= s.subrange(a, b));
}

/// The appended bytes are the subrange that starts at the old length.
proof fn lemma_append_is_subrange(s: Seq<u8>, t: Seq<u8>)
    ensures
        (s + t).subrange(s.len() as int, (s.len() + t.len()) as int) == t,
{
    assert((s + t).subrange(s.len() as int, (s.len() + t.len()) as int) =~= t);
}

/// The address a label list resolves a name to: the first entry whose
/// name matches, scanning from `from`.
pub open spec fn spec_lookup_from(labels: Seq<(String, u16)>, name: Seq<char>, from: int) -> Option<
    u16,
>
    decreases labels.len() - from,
{
    if from < 0 || from >= labels.len() {
        None
    } else if labels[from].0@ == name {
        Some(labels[from].1)
    } else {
        spec_lookup_from(labels, name, from + 1)
    }
}

/// What a successful or failed lookup says about the list.
proof fn lemma_lookup_props(labels: Seq<(String, u16)>, name: Seq<char>, from: int)
    requires
        0 <= from,
    ensures
        (match spec_lookup_from(labels, name, from) {
            Some(a) => exists|t: int|
                from <= t < labels.len() && (#[trigger] labels[t]).0@ == name && labels[t].1 == a,
            None => forall|t: int| from <= t < labels.len() ==> (#[trigger] labels[t]).0@ != name,
        }),
    decreases labels.len() - from,
{
    if from < labels.len() && labels[from].0@ != name {
        lemma_lookup_props(labels, name, from + 1);
    }
}

/// A scan that matches at `idx` after missing everywhere before finds
/// that entry.
proof fn lemma_lookup_is(labels: Seq<(String, u16)>, name: Seq<char>, from: int, idx: int)
    requires
        0 <= from <= idx < labels.len(),
        labels[idx].0@ == name,
        forall|t: int| from <= t < idx ==> (#[trigger] labels[t]).0@ != name,
    ensures
        spec_lookup_from(labels, name, from) == Some(labels[idx].1),
    decreases idx - from,
{
    if from < idx {
        lemma_lookup_is(labels, name, from + 1, idx);
    }
}

/// A scan that misses everywhere finds nothing.
proof fn lemma_lookup_none(labels: Seq<(String, u16)>, name: Seq<char>, from: int)
    requires
        0 <= from,
        forall|t: int| from <= t < labels.len() ==> (#[trigger] labels[t]).0@ != name,
    ensures
        spec_lookup_from(labels, name, from) == None::<u16>,
    decreases labels.len() - from,
{
    if from < labels.len() {
        lemma_lookup_none(labels, name, from + 1);
    }
}

/// A one-byte vector.
fn vec1(a: u8) -> (r: Vec<u8>)
    ensures
        r@ == seq![a],
{
    let mut r: Vec<u8> = Vec::new();
    r.push(a);
    proof {
        assert(r@ =~= seq![a]);
    }
    r
}

/// A two-byte vector.
fn vec2(a: u8, b: u8) -> (r: Vec<u8>)
    ensures
        r@ == seq![a, b],
{
    let mut r: Vec<u8> = Vec::new();
    r.push(a);
    r.push(b);
    proof {
        assert(r@ =~= seq![a, b]);
    }
    r
}

/// A three-byte vector.
fn vec3(a: u8, b: u8, c: u8) -> (r: Vec<u8>)
    ensures
        r@ == seq![a, b, c],
{
    let mut r: Vec<u8> = Vec::new();
    r.push(a);
    r.push(b);
    r.push(c);
    proof {
        assert(r@ =~= seq![a, b, c]);
    }
    r
}

/// A four-byte vector.
fn vec4(a: u8, b: u8, c: u8, d: u8) -> (r: Vec<u8>)
    ensures
        r@ == seq![a, b, c, d],
{
    let mut r: Vec<u8> = Vec::new();
    r.push(a);
    r.push(b);
    r.push(c);
    r.push(d);
    proof {
        assert(r@ =~= seq![a, b, c, d]);
    }
    r
}

/// A five-byte vector.
fn vec5(a: u8, b: u8, c: u8, d: u8, e: u8) -> (r: Vec<u8>)
    ensures
        r@ == seq![a, b, c, d, e],
{
    let mut r: Vec<u8> = Vec::new();
    r.push(a);
    r.push(b);
    r.push(c);
    r.push(d);
    r.push(e);
    proof {
        assert(r@ =~= seq![a, b, c, d, e]);
    }
    r
}

/// A register-pair byte: first operand in the low nibble, second in
/// the high nibble.
fn pack(first: u8, second: u8) -> (r: u8)
    requires
        first < 16,
        second < 16,
    ensures
        r == spec_pack(first, second),
{
    first + second * 16
}

/// A non-defining instruction leaves every earlier slot's encoding
/// unchanged.
proof fn lemma_slots_step(ast: ASTTree, stream: Seq<u8>, k: int)
    requires
        0 <= k < ast.instructions@.len(),
        spec_label_name(ast.instructions@[k]) is None,
        spec_slots_inv(ast, stream, k),
    ensures
        forall|j: int|
            0 <= j < k ==> #[trigger] spec_slot(stream, ast.instructions@, j) == spec_enc_now(
                ast,
                j,
                k + 1,
            ),
{
    let instrs = ast.instructions@;
    assert forall|j: int| 0 <= j < k implies #[trigger] spec_slot(stream, instrs, j)
        == spec_enc_now(ast, j, k + 1) by {
        if spec_branch_label(instrs[j]) is Some {
            lemma_defined_in_unfold(instrs, k, spec_branch_label(instrs[j])->Some_0);
        }
    }
}

/// Patching the two address bytes of branch `j0` rewrites only that
/// slot, and rewrites it at its second and third byte.
proof fn lemma_patch_one(stream: Seq<u8>, instrs: Seq<Instruction>, j0: int, lo: u8, hi: u8)
    requires
        0 <= j0 < instrs.len(),
        spec_instr_len(instrs[j0]) == 3,
        0 <= spec_offset_of(instrs, j0),
        spec_offset_of(instrs, j0) + 3 <= stream.len(),
    ensures
        ({
            let p = spec_offset_of(instrs, j0) + 1;
            let s2 = stream.update(p, lo).update(p + 1, hi);
            &&& s2.len() == stream.len()
            &&& spec_slot(s2, instrs, j0) == spec_slot(stream, instrs, j0).update(1, lo).update(
                2,
                hi,
            )
            &&& (forall|j: int|
                0 <= j < instrs.len() && j != j0 && spec_offset_of(instrs, j + 1) <= stream.len()
                    && 0 <= spec_offset_of(instrs, j) ==> #[trigger] spec_slot(s2, instrs, j)
                    == spec_slot(stream, instrs, j))
        }),
{
    let p = spec_offset_of(instrs, j0) + 1;
    let s2 = stream.update(p, lo).update(p + 1, hi);
    let a0 = spec_offset_of(instrs, j0);
    let b0 = spec_offset_of(instrs, j0 + 1);
    assert(b0 == a0 + 3);
    lemma_update_inside_subrange(stream, p, lo, a0, b0);
    lemma_update_inside_subrange(stream.update(p, lo), p + 1, hi, a0, b0);
    assert(spec_slot(s2, instrs, j0) == spec_slot(stream, instrs, j0).update(1, lo).update(2, hi));
    assert forall|j: int|
        0 <= j < instrs.len() && j != j0 && spec_offset_of(instrs, j + 1) <= stream.len() && 0
            <= spec_offset_of(instrs, j) implies #[trigger] spec_slot(s2, instrs, j) == spec_slot(
        stream,
        instrs,
        j,
    ) by {
        let a = spec_offset_of(instrs, j);
        let b = spec_offset_of(instrs, j + 1);
        if j < j0 {
            lemma_offset_monotone(instrs, j + 1, j0);
            assert(b <= a0);
        } else {
            lemma_offset_monotone(instrs, j0 + 1, j);
            assert(a >= b0);
        }
        if a <= b {
            lemma_update_outside_subrange(stream, p, lo, a, b);
            lemma_update_outside_subrange(stream.update(p, lo), p + 1, hi, a, b);
        } else {
            assert(spec_slot(s2, instrs, j) =~= spec_slot(stream, instrs, j));
        }
    }
}

/// The current encoding of the instruction about to be processed
/// occupies exactly its stream length.
proof fn lemma_enc_now_len(ast: ASTTree, k: int)
    requires
        0 <= k < ast.instructions@.len(),
    ensures
        spec_enc_now(ast, k, k + 1).len() == spec_instr_len(ast.instructions@[k]),
{
    let i = ast.instructions@[k];
    lemma_encode_len(i, spec_target_of(ast, i));
    lemma_encode_len(i, 0);
}

/// Append one instruction's bytes to the stream: the new slot holds
/// them and every earlier slot is untouched.
fn emit(ast: &ASTTree, idx: usize, instructions: &mut Vec<u8>, bytes: Vec<u8>)
    requires
        idx < ast.instructions@.len(),
        old(instructions)@.len() == spec_offset_of(ast.instructions@, idx as int),
        bytes@ == spec_enc_now(*ast, idx as int, idx as int + 1),
        forall|j: int|
            0 <= j < idx ==> #[trigger] spec_slot(old(instructions)@, ast.instructions@, j)
                == spec_enc_now(*ast, j, idx as int + 1),
    ensures
        final(instructions)@ == old(instructions)@ + bytes@,
        final(instructions)@.len() == spec_offset_of(ast.instructions@, idx as int + 1),
        spec_slots_inv(*ast, final(instructions)@, idx as int + 1),
{
    let ghost pre = instructions@;
    let ghost bv = bytes@;
    let mut b = bytes;
    instructions.append(&mut b);
    proof {
        let instrs = ast.instructions@;
        lemma_enc_now_len(*ast, idx as int);
        assert(instructions@ == pre + bv);
        assert forall|j: int|
            0 <= j < idx as int + 1 && j < instrs.len() implies #[trigger] spec_slot(
            instructions@,
            instrs,
            j,
        ) == spec_enc_now(*ast, j, idx as int + 1) by {
            lemma_offset_monotone(instrs, 0, j);
            lemma_offset_monotone(instrs, j, j + 1);
            if j < idx {
                lemma_offset_monotone(instrs, j + 1, idx as int);
                lemma_append_preserves_subrange(
                    pre,
                    bv,
                    spec_offset_of(instrs, j),
                    spec_offset_of(instrs, j + 1),
                );
                assert(spec_slot(instructions@, instrs, j) == spec_slot(pre, instrs, j));
                assert(spec_slot(pre, instrs, j) == spec_enc_now(*ast, j, idx as int + 1));
            } else {
                lemma_append_is_subrange(pre, bv);
                assert(spec_offset_of(instrs, j + 1) == spec_offset_of(instrs, j)
                    + spec_instr_len(instrs[j]));
                assert(bv.len() == spec_instr_len(instrs[j]));
                assert(pre.len() == spec_offset_of(instrs, j));
                assert(spec_slot(instructions@, instrs, j) == bv);
            }
        }
    }
}

/// The address a name resolves to in the label list, if it is there.
fn find_label(labels: &Vec<(String, u16)>, name: &String) -> (r: Option<u16>)
    ensures
        r == spec_lookup_from(labels@, name@, 0),
{
    let m = labels.len();
    let mut t: usize = 0;
    while t < m
        invariant
            m == labels@.len(),
            t <= m,
            forall|u: int| 0 <= u < t ==> (#[trigger] labels@[u]).0@ != name@,
        decreases m - t,
    {
        let entry = &labels[t];
        if entry.0 == *name {
            proof {
                lemma_lookup_is(labels@, name@, 0, t as int);
            }
            return Some(entry.1);
        }
        t = t + 1;
    }
    proof {
        lemma_lookup_none(labels@, name@, 0);
    }
    None
}

/// A fully resolved stream is the concatenation of every
/// instruction's final encoding.
proof fn lemma_stream_assembly(ast: ASTTree, stream: Seq<u8>, k: int)
    requires
        0 <= k <= ast.instructions@.len(),
        stream.len() == spec_offset_of(ast.instructions@, ast.instructions@.len() as int),
        forall|j: int|
            0 <= j < ast.instructions@.len() ==> #[trigger] spec_slot(stream, ast.instructions@, j)
                == spec_encode_instr(
                ast.instructions@[j],
                spec_target_of(ast, ast.instructions@[j]),
            ),
    ensures
        stream.subrange(0, spec_offset_of(ast.instructions@, k)) == spec_stream_to(ast, k),
    decreases k,
{
    let instrs = ast.instructions@;
    lemma_offset_monotone(instrs, k, instrs.len() as int);
    lemma_offset_monotone(instrs, 0, k);
    if k > 0 {
        lemma_stream_assembly(ast, stream, k - 1);
        lemma_offset_monotone(instrs, k - 1, k);
        lemma_encode_len(instrs[k - 1], spec_target_of(ast, instrs[k - 1]));
        assert(stream.subrange(0, spec_offset_of(instrs, k)) =~= stream.subrange(
            0,
            spec_offset_of(instrs, k - 1),
        ) + spec_slot(stream, instrs, k - 1));
    } else {
        assert(stream.subrange(0, 0) =~= Seq::<u8>::empty());
    }
}

/// Encode a branch or call: the opcode byte followed by the label's
/// little-endian address when the label is already known, or a 2-byte
/// zero placeholder otherwise, in which case the patch site (one past
/// the opcode byte) is recorded as pending.
pub fn compile_branch_call(
    tt: BranchCall,
    label: &String,
    label_instrs: &mut Vec<(String, usize, bool)>,
    labels: &Vec<(String, u16)>,
    instr_len: usize,
) -> (r: Vec<u8>)
    requires
        instr_len < usize::MAX,
    ensures
        (match spec_lookup_from(labels@, label@, 0) {
            Some(addr) => r@ == seq![spec_branch_opcode(tt), spec_lo(addr), spec_hi(addr)]
                && final(label_instrs)@ == old(label_instrs)@,
            None => r@ == seq![spec_branch_opcode(tt), 0u8, 0u8]
                && final(label_instrs)@ == old(label_instrs)@.push(final(label_instrs)@.last())
                && final(label_instrs)@.last().0@ == label@
                && final(label_instrs)@.last().1 == instr_len + 1
                && (final(label_instrs)@.last().2 == false),
        }),
{
    let op = compile_branch_opcode(tt);
    let m = labels.len();
    let mut t: usize = 0;
    while t < m
        invariant
            m == labels@.len(),
            t <= m,
            op == spec_branch_opcode(tt),
            forall|u: int| 0 <= u < t ==> (#[trigger] labels@[u]).0@ != label@,
        decreases m - t,
    {
        let entry = &labels[t];
        if entry.0 == *label {
            proof {
                lemma_lookup_is(labels@, label@, 0, t as int);
            }
            let addr = entry.1;
            let r = vec3(op, (addr % 256) as u8, (addr / 256) as u8);
            proof {
                assert(r@ =~= seq![spec_branch_opcode(tt), spec_lo(addr), spec_hi(addr)]);
            }
            return r;
        }
        t = t + 1;
    }
    proof {
        lemma_lookup_none(labels@, label@, 0);
    }
    label_instrs.push((label.clone(), instr_len + 1, false));
    let r = vec3(op, 0, 0);
    proof {
        assert(r@ =~= seq![spec_branch_opcode(tt), 0u8, 0u8]);
    }
    r
}

/// Lay the declared variables out into a storage descriptor: ascending
/// offsets in declaration order, the high size bit flagging initialised
/// data, and the total loader footprint. Fails exactly when some
/// initializer's length differs from its variable's declared size.
pub fn compile_variables(vars: &Vec<Variable>) -> (r: Result<Storage, AsmError>)
    requires
        spec_total_size(vars@, vars@.len() as int) <= 65535,
        spec_var_offset(vars@, vars@.len() as int) <= 65535,
    ensures
        (match r {
            Ok(st) => {
                &&& spec_vars_ok(vars@)
                &&& st.items@.len() == vars@.len()
                &&& st.total_size == spec_total_size(vars@, vars@.len() as int)
                &&& (forall|j: int|
                    0 <= j < vars@.len() ==> {
                        &&& (#[trigger] st.items@[j]).size == spec_storage_size(vars@[j])
                        &&& st.items@[j].offset == spec_var_offset(vars@, j)
                        &&& (st.items@[j].init_data matches Some(b) ==> (vars@[j].bytes matches
                            Some(b0) && b@ == b0@))
                        &&& (st.items@[j].init_data is Some <==> vars@[j].bytes is Some)
                    })
            },
            Err(e) => {
                &&& !spec_vars_ok(vars@)
                &&& (e matches AsmError::InitializerSizeMismatch { name, expected, actual }
                    && exists|j: int|
                    0 <= j < vars@.len() && (#[trigger] vars@[j]).name@ == name@ && vars@[j].size
                        == expected && (vars@[j].bytes matches Some(b) && b@.len() == actual)
                        && actual != expected)
            },
        }),
{
    let n = vars.len();
    let mut items: Vec<StorageItem> = Vec::new();
    let mut total_size: u16 = 0;
    let mut offset: u16 = 0;
    let mut k: usize = 0;
    while k < n
        invariant
            n == vars@.len(),
            k <= n,
            spec_total_size(vars@, n as int) <= 65535,
            spec_var_offset(vars@, n as int) <= 65535,
            items@.len() == k,
            total_size == spec_total_size(vars@, k as int),
            offset == spec_var_offset(vars@, k as int),
            forall|j: int|
                0 <= j < k ==> {
                    &&& (#[trigger] items@[j]).size == spec_storage_size(vars@[j])
                    &&& items@[j].offset == spec_var_offset(vars@, j)
                    &&& (items@[j].init_data matches Some(b) ==> (vars@[j].bytes matches Some(b0)
                        && b@ == b0@))
                    &&& (items@[j].init_data is Some <==> vars@[j].bytes is Some)
                },
            forall|j: int|
                0 <= j < k ==> ((#[trigger] vars@[j].bytes) matches Some(b) ==> b@.len()
                    == vars@[j].size),
        decreases n - k,
    {
        let var = &vars[k];
        let init_data: Option<Vec<u8>> = match &var.bytes {
            Some(data) => {
                if data.len() != var.size as usize {
                    return Err(
                        AsmError::InitializerSizeMismatch {
                            name: var.name.clone(),
                            expected: var.size,
                            actual: data.len(),
                        },
                    );
                }
                Some(vstd::slice::slice_to_vec(data.as_slice()))
            },
            None => None,
        };
        proof {
            lemma_total_size_monotone(vars@, k + 1, n as int);
            lemma_total_size_monotone(vars@, 0, k as int);
            lemma_var_offset_monotone(vars@, k + 1, n as int);
            lemma_var_offset_monotone(vars@, 0, k as int);
        }
        let size_field: u16 = if init_data.is_some() {
            // The highest bit signals initialised data to the loader.
            total_size = total_size + var.size;
            var.size | 0x8000
        } else {
            var.size
        };
        items.push(StorageItem { size: size_field, offset, init_data });
        // Four bytes of loader metadata per variable.
        total_size = total_size + 4;
        offset = offset + var.size;
        k = k + 1;
    }
    Ok(Storage { total_size, items })
}

/// The variable-region offset that a declared variable's name resolves
/// to. Variables and storage items are laid out in the same order, so
/// a name's declaration index is its storage index.
pub fn variable_offset(name: &String, ast: &ASTTree, storage: &Storage) -> (r: Result<
    u16,
    AsmError,
>)
    requires
        storage.items@.len() == ast.variables@.len(),
        forall|j: int|
            0 <= j < ast.variables@.len() ==> (#[trigger] storage.items@[j]).offset
                == spec_var_offset(ast.variables@, j),
    ensures
        (match r {
            Ok(off) => spec_var_defined(ast.variables@, name@) && off == spec_var_addr(
                ast.variables@,
                name@,
            ),
            Err(e) => !spec_var_defined(ast.variables@, name@) && (e matches
                AsmError::UndefinedVariable { name: n2 } && n2@ == name@),
        }),
{
    let n = ast.variables.len();
    let mut idx: usize = 0;
    while idx < n
        invariant
            n == ast.variables@.len(),
            idx <= n,
            storage.items@.len() == ast.variables@.len(),
            forall|j: int|
                0 <= j < ast.variables@.len() ==> (#[trigger] storage.items@[j]).offset
                    == spec_var_offset(ast.variables@, j),
            forall|j: int| 0 <= j < idx ==> (#[trigger] ast.variables@[j]).name@ != name@,
        decreases n - idx,
    {
        let var = &ast.variables[idx];
        if var.name == *name {
            proof {
                lemma_first_var_is(ast.variables@, name@, 0, idx as int);
            }
            return Ok(storage.items[idx].offset);
        }
        idx = idx + 1;
    }
    proof {
        lemma_first_var_none(ast.variables@, name@, 0);
    }
    Err(AsmError::UndefinedVariable { name: name.clone() })
}


/// The number of bytes one instruction occupies in the stream.
pub fn instr_len(i: &Instruction) -> (r: u8)
    ensures
        r as int == spec_instr_len(*i),
{
    match i {
        Instruction::Add(_) => 2,
        Instruction::AddI(_) => 3,
        Instruction::EqR(_) => 2,
        Instruction::EqI(_) => 3,
        Instruction::EqRL(_) => 2,
        Instruction::EqIL(_) => 4,
        Instruction::St(_) => 2,
        Instruction::StL(_) => 2,
        Instruction::StI(_) => 3,
        Instruction::StIL(_) => 4,
        Instruction::Stm(_) => 4,
        Instruction::StmL(_) => 5,
        Instruction::Str(_) => 4,
        Instruction::StrL(_) => 4,
        Instruction::Ldm(_) => 4,
        Instruction::LdmL(_) => 4,
        Instruction::Be(_) => 3,
        Instruction::Bne(_) => 3,
        Instruction::Bgt(_) => 3,
        Instruction::Blt(_) => 3,
        Instruction::Call(_) => 3,
        Instruction::Ret(_) => 1,
        Instruction::Syscall(_) => 1,
        Instruction::Sv(_) => 3,
        Instruction::Uv(_) => 1,
        Instruction::Label(_) => 0,
    }
}

/// Whether a program fits the machine limits the assembler asks for:
/// the storage descriptor's total, the variable offsets and the byte
/// stream must all stay within the 16-bit address space. Unverified
/// callers test this before assembling.
#[verifier::loop_isolation(false)]
pub fn program_fits(ast: &ASTTree) -> (r: bool)
    ensures
        r == (spec_total_size(ast.variables@, ast.variables@.len() as int) <= 65535
            && spec_var_offset(ast.variables@, ast.variables@.len() as int) <= 65535
            && spec_offset_of(ast.instructions@, ast.instructions@.len() as int) <= 65535),
{
    let nv = ast.variables.len();
    let mut total: u32 = 0;
    let mut off: u32 = 0;
    let mut k: usize = 0;
    while k < nv
        invariant
            k <= nv,
            total == spec_total_size(ast.variables@, k as int),
            off == spec_var_offset(ast.variables@, k as int),
            total <= 65535,
            off <= 65535,
        decreases nv - k,
    {
        let v = &ast.variables[k];
        total = total + 4 + (if v.bytes.is_some() {
            v.size as u32
        } else {
            0
        });
        off = off + v.size as u32;
        if total > 65535 {
            proof {
                lemma_total_size_monotone(ast.variables@, k as int + 1, nv as int);
            }
            return false;
        }
        if off > 65535 {
            proof {
                lemma_var_offset_monotone(ast.variables@, k as int + 1, nv as int);
            }
            return false;
        }
        k = k + 1;
    }
    let n = ast.instructions.len();
    let mut stream: u32 = 0;
    let mut i: usize = 0;
    while i < n
        invariant
            i <= n,
            stream == spec_offset_of(ast.instructions@, i as int),
            stream <= 65535,
        decreases n - i,
    {
        stream = stream + instr_len(&ast.instructions[i]) as u32;
        if stream > 65535 {
            proof {
                lemma_offset_monotone(ast.instructions@, i as int + 1, n as int);
            }
            return false;
        }
        i = i + 1;
    }
    true
}

/// Recording a fresh label definition keeps the label list sound.
proof fn lemma_labels_push(ast: ASTTree, labels: Seq<(String, u16)>, e: (String, u16), k: int)
    requires
        0 <= k < ast.instructions@.len(),
        spec_label_name(ast.instructions@[k]) == Some(e.0@),
        !spec_defined_in(ast.instructions@, k, e.0@),
        e.1 == spec_label_addr(ast.instructions@, e.0@),
        spec_labels_inv(ast, labels, k),
        forall|t: int| 0 <= t < labels.len() ==> (#[trigger] labels[t]).0@ != e.0@,
    ensures
        spec_labels_inv(ast, labels.push(e), k + 1),
{
    let instrs = ast.instructions@;
    let l2 = labels.push(e);
    assert(spec_defined_in(instrs, k + 1, e.0@));
    assert forall|t: int| 0 <= t < l2.len() implies spec_defined_in(
        instrs,
        k + 1,
        (#[trigger] l2[t]).0@,
    ) && l2[t].1 == spec_label_addr(instrs, l2[t].0@) by {
        if t < labels.len() {
            assert(l2[t] == labels[t]);
            lemma_defined_in_unfold(instrs, k, labels[t].0@);
        } else {
            assert(l2[t] == e);
        }
    }
    assert forall|j: int|
        0 <= j < k + 1 && j < instrs.len() && (#[trigger] spec_label_name(instrs[j])) is Some
            implies (exists|t: int|
        0 <= t < l2.len() && (#[trigger] l2[t]).0@ == spec_label_name(instrs[j])->Some_0) by {
        let nm = spec_label_name(instrs[j])->Some_0;
        if j < k {
            let t0 = choose|t: int| 0 <= t < labels.len() && (#[trigger] labels[t]).0@ == nm;
            assert(l2[t0] == labels[t0]);
            assert(0 <= t0 < l2.len() && l2[t0].0@ == nm);
        } else {
            assert(l2[labels.len() as int] == e);
            assert(0 <= labels.len() < l2.len() && l2[labels.len() as int].0@ == nm);
        }
    }
    assert forall|t1: int, t2: int| 0 <= t1 < t2 < l2.len() implies (#[trigger] l2[t1]).0@ != (
    #[trigger] l2[t2]).0@ by {
        assert(l2[t1] == labels[t1]);
        if t2 < labels.len() {
            assert(l2[t2] == labels[t2]);
        } else {
            assert(l2[t2] == e);
        }
    }
}

/// What processing one branch or call does to the pending list and its
/// bytes: resolved against a recorded label, or emitted as a zero
/// placeholder with a new pending entry at its patch site.
proof fn lemma_branch_arm(
    ast: ASTTree,
    labels: Seq<(String, u16)>,
    pend_in: Seq<(String, usize, bool)>,
    pend_out: Seq<(String, usize, bool)>,
    bytes: Seq<u8>,
    op: u8,
    k: int,
    stream_len: int,
)
    requires
        0 <= k < ast.instructions@.len(),
        spec_branch_label(ast.instructions@[k]) is Some,
        stream_len == spec_offset_of(ast.instructions@, k),
        spec_labels_inv(ast, labels, k),
        spec_pend_inv(ast, pend_in, k, stream_len),
        op == spec_encode_instr(ast.instructions@[k], 0)[0],
        (match spec_lookup_from(labels, spec_branch_label(ast.instructions@[k])->Some_0, 0) {
            Some(addr) => bytes == seq![op, spec_lo(addr), spec_hi(addr)] && pend_out == pend_in,
            None => bytes == seq![op, 0u8, 0u8] && pend_out == pend_in.push(pend_out.last())
                && pend_out.last().0@ == spec_branch_label(ast.instructions@[k])->Some_0
                && pend_out.last().1 == stream_len + 1 && (pend_out.last().2 == false),
        }),
    ensures
        bytes == spec_enc_now(ast, k, k + 1),
        spec_pend_inv(ast, pend_out, k + 1, spec_offset_of(ast.instructions@, k + 1)),
{
    let instrs = ast.instructions@;
    let nm = spec_branch_label(instrs[k])->Some_0;
    lemma_branch_shape(instrs[k], 0);
    lemma_branch_shape(instrs[k], spec_target_of(ast, instrs[k]));
    lemma_lookup_props(labels, nm, 0);
    match spec_lookup_from(labels, nm, 0) {
        Some(addr) => {
            let t0 = choose|t: int|
                0 <= t < labels.len() && (#[trigger] labels[t]).0@ == nm && labels[t].1 == addr;
            assert(spec_defined_in(instrs, k, nm));
            lemma_defined_in_unfold(instrs, k, nm);
            assert(spec_defined_in(instrs, k + 1, nm));
            assert(addr == spec_label_addr(instrs, nm));
            assert(spec_target_of(ast, instrs[k]) == spec_label_addr(instrs, nm) as u16);
            assert(spec_target_of(ast, instrs[k]) == addr);
            assert(bytes =~= spec_encode_instr(instrs[k], spec_target_of(ast, instrs[k])));
            lemma_pend_step_same(ast, pend_in, k, stream_len, spec_offset_of(instrs, k + 1));
        },
        None => {
            assert(!spec_defined_in(instrs, k, nm)) by {
                if spec_defined_in(instrs, k, nm) {
                    let j0 = choose|j: int|
                        0 <= j < k && j < instrs.len() && spec_label_name(instrs[j]) == Some(nm);
                    assert((spec_label_name(instrs[j0]) matches Some(nm2) ==> exists|t: int|
                        0 <= t < labels.len() && (#[trigger] labels[t]).0@ == nm2));
                    let t0 = choose|t: int|
                        0 <= t < labels.len() && (#[trigger] labels[t]).0@ == nm;
                }
            };
            lemma_defined_in_unfold(instrs, k, nm);
            assert(!spec_defined_in(instrs, k + 1, nm));
            assert(bytes =~= spec_encode_instr(instrs[k], 0));
            lemma_pend_step_push(ast, pend_in, pend_out.last(), k);
            assert(pend_out =~= pend_in.push(pend_out.last()));
        },
    }
}

/// Emit one instruction that is neither a branch, a call, nor a label
/// definition. Fails exactly when a variable-pointer load names an
/// undeclared variable.
#[verifier::rlimit(100)]
#[verifier::spinoff_prover]
fn asm_step_plain(
    ast: &ASTTree,
    idx: usize,
    storage: &Storage,
    instructions: &mut Vec<u8>,
) -> (r: Result<(), AsmError>)
    requires
        idx < ast.instructions@.len(),
        spec_label_name(ast.instructions@[idx as int]) is None,
        spec_branch_label(ast.instructions@[idx as int]) is None,
        old(instructions)@.len() == spec_offset_of(ast.instructions@, idx as int),
        spec_slots_inv(*ast, old(instructions)@, idx as int),
        storage.items@.len() == ast.variables@.len(),
        forall|j: int|
            0 <= j < ast.variables@.len() ==> (#[trigger] storage.items@[j]).offset
                == spec_var_offset(ast.variables@, j),
        spec_var_offset(ast.variables@, ast.variables@.len() as int) <= 65535,
    ensures
        (match r {
            Ok(()) => {
                &&& final(instructions)@.len() == spec_offset_of(
                    ast.instructions@,
                    idx as int + 1,
                )
                &&& spec_slots_inv(*ast, final(instructions)@, idx as int + 1)
                &&& ((ast.instructions@[idx as int]) matches Instruction::Sv(l)
                    ==> spec_var_defined(ast.variables@, l.spec_inner()@))
            },
            Err(e) => {
                &&& final(instructions)@ == old(instructions)@
                &&& (e matches AsmError::UndefinedVariable { name } && !spec_var_defined(
                    ast.variables@,
                    name@,
                ) && (ast.instructions@[idx as int] matches Instruction::Sv(l)
                    && l.spec_inner()@ == name@))
            },
        }),
{
    proof {
        lemma_slots_step(*ast, instructions@, idx as int);
    }
    let instr = &ast.instructions[idx];
    let bytes: Vec<u8> = match instr {
        Instruction::Add(l) => {
            let a = l.inner();
            vec2(
                compile_alu_equality(ALUType::Add, ALUSrc::Register, false, false),
                pack(r8_code(&a.arg1), r8_code(&a.arg2)),
            )
        },
        Instruction::AddI(l) => {
            let a = l.inner();
            vec3(
                compile_alu_equality(ALUType::Add, ALUSrc::Immediate, false, false),
                r8_code(&a.arg1),
                a.arg2.value,
            )
        },
        Instruction::EqR(l) => {
            let a = l.inner();
            vec2(
                compile_alu_equality(ALUType::Equality, ALUSrc::Register, false, false),
                pack(r8_code(&a.arg1), r8_code(&a.arg2)),
            )
        },
        Instruction::EqI(l) => {
            let a = l.inner();
            vec3(
                compile_alu_equality(ALUType::Equality, ALUSrc::Immediate, false, false),
                r8_code(&a.arg1),
                a.arg2.value,
            )
        },
        Instruction::EqRL(l) => {
            let a = l.inner();
            vec2(
                compile_alu_equality(ALUType::Equality, ALUSrc::Register, true, false),
                pack(r16_code(&a.arg1), r16_code(&a.arg2)),
            )
        },
        Instruction::EqIL(l) => {
            let a = l.inner();
            vec4(
                compile_alu_equality(ALUType::Equality, ALUSrc::Immediate, true, false),
                r16_code(&a.arg1),
                (a.arg2.value % 256) as u8,
                (a.arg2.value / 256) as u8,
            )
        },
        Instruction::St(l) => {
            let a = l.inner();
            vec2(
                compile_load_store(LoadStoreType::Store, false, false, false, false),
                pack(r8_code(&a.arg1), r8_code(&a.arg2)),
            )
        },
        Instruction::StL(l) => {
            let a = l.inner();
            vec2(
                compile_load_store(LoadStoreType::Store, false, false, true, false),
                pack(r16_code(&a.arg1), r16_code(&a.arg2)),
            )
        },
        Instruction::StI(l) => {
            let a = l.inner();
            vec3(
                compile_load_store(LoadStoreType::Store, false, true, false, false),
                r8_code(&a.arg1),
                a.arg2.value,
            )
        },
        Instruction::StIL(l) => {
            let a = l.inner();
            vec4(
                compile_load_store(LoadStoreType::Store, false, true, true, false),
                r16_code(&a.arg1),
                (a.arg2.value % 256) as u8,
                (a.arg2.value / 256) as u8,
            )
        },
        Instruction::Stm(l) => {
            let a = l.inner();
            vec4(
                compile_load_store(LoadStoreType::Store, true, true, false, false),
                (a.arg1.value % 256) as u8,
                (a.arg1.value / 256) as u8,
                a.arg2.value,
            )
        },
        Instruction::StmL(l) => {
            let a = l.inner();
            vec5(
                compile_load_store(LoadStoreType::Store, true, true, true, false),
                (a.arg1.value % 256) as u8,
                (a.arg1.value / 256) as u8,
                (a.arg2.value % 256) as u8,
                (a.arg2.value / 256) as u8,
            )
        },
        Instruction::Str(l) => {
            let a = l.inner();
            vec4(
                compile_load_store(LoadStoreType::Store, true, false, false, false),
                (a.arg1.value % 256) as u8,
                (a.arg1.value / 256) as u8,
                r8_code(&a.arg2),
            )
        },
        Instruction::StrL(l) => {
            let a = l.inner();
            vec4(
                compile_load_store(LoadStoreType::Store, true, false, true, false),
                (a.arg1.value % 256) as u8,
                (a.arg1.value / 256) as u8,
                r16_code(&a.arg2),
            )
        },
        Instruction::Ldm(l) => {
            let a = l.inner();
            vec4(
                compile_load_store(LoadStoreType::Load, true, false, false, false),
                (a.arg1.value % 256) as u8,
                (a.arg1.value / 256) as u8,
                r8_code(&a.arg2),
            )
        },
        Instruction::LdmL(l) => {
            let a = l.inner();
            vec4(
                compile_load_store(LoadStoreType::Load, true, false, true, false),
                (a.arg1.value % 256) as u8,
                (a.arg1.value / 256) as u8,
                r16_code(&a.arg2),
            )
        },
        Instruction::Ret(_) => vec1(compile_branch_opcode(BranchCall::Ret)),
        Instruction::Syscall(_) => vec1(SYSCALL_OPCODE),
        Instruction::Sv(l) => {
            let off = match variable_offset(l.inner(), ast, storage) {
                Ok(o) => o,
                Err(e) => {
                    return Err(e);
                },
            };
            // A variable-pointer load with the variable's 16-bit
            // offset.
            vec3(172, (off % 256) as u8, (off / 256) as u8)
        },
        Instruction::Uv(_) => vec1(176),
        // Branches, calls and label definitions are handled elsewhere.
        Instruction::Be(_) => vec1(0),
        Instruction::Bne(_) => vec1(0),
        Instruction::Bgt(_) => vec1(0),
        Instruction::Blt(_) => vec1(0),
        Instruction::Call(_) => vec1(0),
        Instruction::Label(_) => vec1(0),
    };
    proof {
        assert(bytes@ =~= spec_enc_now(*ast, idx as int, idx as int + 1));
    }
    emit(ast, idx, instructions, bytes);
    Ok(())
}

/// Emit one branch or call: resolved immediately when its label is
/// already recorded, or as a placeholder with a pending patch.
#[verifier::rlimit(60)]
#[verifier::spinoff_prover]
fn asm_step_branch(
    ast: &ASTTree,
    idx: usize,
    tt: BranchCall,
    label: &String,
    labels: &Vec<(String, u16)>,
    label_instrs: &mut Vec<(String, usize, bool)>,
    instructions: &mut Vec<u8>,
)
    requires
        idx < ast.instructions@.len(),
        spec_branch_label(ast.instructions@[idx as int]) == Some(label@),
        spec_branch_opcode(tt) == spec_encode_instr(ast.instructions@[idx as int], 0)[0],
        old(instructions)@.len() == spec_offset_of(ast.instructions@, idx as int),
        spec_labels_inv(*ast, labels@, idx as int),
        spec_pend_inv(
            *ast,
            old(label_instrs)@,
            idx as int,
            old(instructions)@.len() as int,
        ),
        spec_slots_inv(*ast, old(instructions)@, idx as int),
        spec_offset_of(ast.instructions@, ast.instructions@.len() as int) <= 65535,
    ensures
        final(instructions)@.len() == spec_offset_of(ast.instructions@, idx as int + 1),
        spec_slots_inv(*ast, final(instructions)@, idx as int + 1),
        spec_labels_inv(*ast, labels@, idx as int + 1),
        spec_pend_inv(
            *ast,
            final(label_instrs)@,
            idx as int + 1,
            final(instructions)@.len() as int,
        ),
{
    proof {
        lemma_offset_monotone(ast.instructions@, idx as int, ast.instructions@.len() as int);
        lemma_branch_shape(ast.instructions@[idx as int], 0);
        lemma_slots_step(*ast, instructions@, idx as int);
        lemma_labels_step_nonlabel(*ast, labels@, idx as int);
    }
    let ghost pend_in = label_instrs@;
    let ghost old_len = instructions@.len();
    let bytes = compile_branch_call(tt, label, label_instrs, labels, instructions.len());
    proof {
        lemma_branch_arm(
            *ast,
            labels@,
            pend_in,
            label_instrs@,
            bytes@,
            spec_branch_opcode(tt),
            idx as int,
            old_len as int,
        );
    }
    emit(ast, idx, instructions, bytes);
}

/// Record a label definition at the current stream position and patch
/// every pending reference to it. Fails exactly when the label already
/// has a definition.
#[verifier::rlimit(100)]
#[verifier::spinoff_prover]
#[verifier::loop_isolation(false)]
fn asm_step_label(
    ast: &ASTTree,
    idx: usize,
    label: &String,
    labels: &mut Vec<(String, u16)>,
    label_instrs: &mut Vec<(String, usize, bool)>,
    instructions: &mut Vec<u8>,
) -> (r: Result<(), AsmError>)
    requires
        idx < ast.instructions@.len(),
        spec_label_name(ast.instructions@[idx as int]) == Some(label@),
        old(instructions)@.len() == spec_offset_of(ast.instructions@, idx as int),
        spec_labels_inv(*ast, old(labels)@, idx as int),
        spec_pend_inv(
            *ast,
            old(label_instrs)@,
            idx as int,
            old(instructions)@.len() as int,
        ),
        spec_slots_inv(*ast, old(instructions)@, idx as int),
        spec_nodup_inv(ast.instructions@, idx as int),
        spec_offset_of(ast.instructions@, ast.instructions@.len() as int) <= 65535,
    ensures
        (match r {
            Ok(()) => {
                &&& final(instructions)@.len() == spec_offset_of(
                    ast.instructions@,
                    idx as int + 1,
                )
                &&& spec_slots_inv(*ast, final(instructions)@, idx as int + 1)
                &&& spec_labels_inv(*ast, final(labels)@, idx as int + 1)
                &&& spec_pend_inv(
                    *ast,
                    final(label_instrs)@,
                    idx as int + 1,
                    final(instructions)@.len() as int,
                )
                &&& spec_nodup_inv(ast.instructions@, idx as int + 1)
            },
            Err(e) => {
                &&& !spec_no_dup_labels(ast.instructions@)
                &&& (e matches AsmError::DuplicateLabel { name } && exists|i: int, j: int|
                    0 <= i < j < ast.instructions@.len() && spec_label_name(
                        #[trigger] ast.instructions@[i],
                    ) == Some(name@) && spec_label_name(#[trigger] ast.instructions@[j]) == Some(
                        name@,
                    ))
            },
        }),
{
    let ghost instrs = ast.instructions@;
    let ghost k = idx as int;
    if find_label(labels, label).is_some() {
        proof {
            lemma_lookup_props(labels@, label@, 0);
            let t0 = choose|t: int| 0 <= t < labels@.len() && (#[trigger] labels@[t]).0@ == label@;
            assert(spec_defined_in(instrs, k, label@));
            let j0 = choose|j: int|
                0 <= j < k && j < instrs.len() && spec_label_name(instrs[j]) == Some(label@);
            assert(spec_label_name(instrs[k]) == Some(label@));
            assert(exists|i: int, j2: int|
                0 <= i < j2 < instrs.len() && spec_label_name(#[trigger] instrs[i]) == Some(label@)
                    && spec_label_name(#[trigger] instrs[j2]) == Some(label@)) by {
                assert(spec_label_name(instrs[j0]) == Some(label@) && spec_label_name(instrs[k])
                    == Some(label@) && 0 <= j0 < k < instrs.len());
            };
            assert(!spec_no_dup_labels(instrs)) by {
                if spec_nodup_inv(instrs, instrs.len() as int) {
                    assert(spec_label_name(instrs[j0]) != spec_label_name(instrs[k]));
                }
            };
        }
        return Err(AsmError::DuplicateLabel { name: label.clone() });
    }
    proof {
        lemma_lookup_props(labels@, label@, 0);
        assert(!spec_defined_in(instrs, k, label@)) by {
            if spec_defined_in(instrs, k, label@) {
                let j0 = choose|j: int|
                    0 <= j < k && j < instrs.len() && spec_label_name(instrs[j]) == Some(label@);
                assert((spec_label_name(instrs[j0]) matches Some(nm2) ==> exists|t: int|
                    0 <= t < labels@.len() && (#[trigger] labels@[t]).0@ == nm2));
                let t0 = choose|t: int|
                    0 <= t < labels@.len() && (#[trigger] labels@[t]).0@ == label@;
            }
        };
        assert forall|j: int| 0 <= j < k implies (#[trigger] spec_label_name(instrs[j])) != Some(
            label@,
        ) by {
            if spec_label_name(instrs[j]) == Some(label@) {
                assert(spec_defined_in(instrs, k, label@));
            }
        };
        lemma_first_def_is(instrs, label@, 0, k);
        lemma_offset_monotone(instrs, 0, k);
        lemma_offset_monotone(instrs, k, instrs.len() as int);
        assert(spec_label_addr(instrs, label@) == spec_offset_of(instrs, k));
    }
    let addr = instructions.len() as u16;
    let lo = (addr % 256) as u8;
    let hi = (addr / 256) as u8;
    let ghost pend0 = label_instrs@;
    let ghost stream0 = instructions@;
    let m = label_instrs.len();
    let mut t: usize = 0;
    while t < m
        invariant
            t <= m,
            m == label_instrs@.len(),
            instructions@.len() == stream0.len(),
            forall|u: int|
                0 <= u < m ==> (#[trigger] label_instrs@[u]).0 == pend0[u].0
                    && label_instrs@[u].1 == pend0[u].1,
            forall|u: int|
                0 <= u < m ==> (#[trigger] label_instrs@[u]).2 == (pend0[u].2 || (u < t
                    && pend0[u].0@ == label@)),
            forall|j: int|
                0 <= j < idx && j < ast.instructions@.len() ==> #[trigger] spec_slot(
                    instructions@,
                    ast.instructions@,
                    j,
                ) == (if spec_branch_label(ast.instructions@[j]) == Some(label@) && (exists|u: int|
                    0 <= u < t && (#[trigger] pend0[u]).1 == spec_offset_of(
                        ast.instructions@,
                        j,
                    ) + 1 && pend0[u].0@ == label@) {
                    spec_enc_now(*ast, j, idx as int + 1)
                } else {
                    spec_enc_now(*ast, j, idx as int)
                }),
        decreases m - t,
    {
        let is_match = label_instrs[t].0 == *label;
        let p = label_instrs[t].1;
        if is_match {
            let ghost s_before = instructions@;
            proof {
                assert((#[trigger] pend0[t as int]).2 == spec_defined_in(
                    instrs,
                    k,
                    pend0[t as int].0@,
                ) && exists|j: int|
                    0 <= j < k && j < instrs.len() && spec_branch_label(#[trigger] instrs[j])
                        == Some(pend0[t as int].0@) && pend0[t as int].1 == spec_offset_of(
                        instrs,
                        j,
                    ) + 1);
            }
            instructions[p] = lo;
            let p1 = p + 1;
            instructions[p1] = hi;
            proof {
                let j0 = choose|j: int|
                    0 <= j < k && j < instrs.len() && spec_branch_label(#[trigger] instrs[j])
                        == Some(pend0[t as int].0@) && pend0[t as int].1 == spec_offset_of(
                        instrs,
                        j,
                    ) + 1;
                lemma_branch_shape(instrs[j0], 0);
                lemma_branch_shape(instrs[j0], spec_target_of(*ast, instrs[j0]));
                lemma_offset_monotone(instrs, 0, j0);
                assert(instructions@ == s_before.update(p as int, lo).update(p as int + 1, hi));
                lemma_patch_one(s_before, instrs, j0, lo, hi);
                assert(spec_label_name(instrs[k]) == Some(label@));
                assert(spec_defined_in(instrs, k + 1, label@));
                assert(spec_target_of(*ast, instrs[j0]) == spec_label_addr(instrs, label@) as u16);
                assert(spec_target_of(*ast, instrs[j0]) == addr);
                assert(spec_slot(s_before, instrs, j0) == spec_enc_now(*ast, j0, k)) by {
                    assert forall|u: int| 0 <= u < t implies (#[trigger] pend0[u]).1 != pend0[t as int].1 by {}
                };
                assert(spec_enc_now(*ast, j0, k) == spec_encode_instr(instrs[j0], 0));
                assert(spec_slot(instructions@, instrs, j0) =~= spec_encode_instr(
                    instrs[j0],
                    spec_target_of(*ast, instrs[j0]),
                ));
                assert(spec_slot(instructions@, instrs, j0) == spec_enc_now(*ast, j0, k + 1));
                assert forall|j: int|
                    0 <= j < idx && j < instrs.len() && j != j0 implies #[trigger] spec_slot(
                    instructions@,
                    instrs,
                    j,
                ) == spec_slot(s_before, instrs, j) by {
                    lemma_offset_monotone(instrs, 0, j);
                    lemma_offset_monotone(instrs, j, j + 1);
                    lemma_offset_monotone(instrs, j + 1, k);
                };
                assert forall|j: int|
                    0 <= j < idx && j < instrs.len() && j != j0 && spec_branch_label(instrs[j])
                        == Some(label@) implies spec_offset_of(instrs, j) + 1 != pend0[t as int].1 by {
                    lemma_branch_shape(instrs[j], 0);
                    if j < j0 {
                        lemma_offset_monotone(instrs, j + 1, j0);
                    } else {
                        lemma_offset_monotone(instrs, j0 + 1, j);
                    }
                };
            }
            let nm_keep = label_instrs[t].0.clone();
            label_instrs[t] = (nm_keep, p, true);
        }
        t = t + 1;
    }
    proof {
        assert(spec_label_name(instrs[k]) == Some(label@));
        assert forall|j: int| 0 <= j < k && j < instrs.len() implies #[trigger] spec_slot(
            instructions@,
            instrs,
            j,
        ) == spec_enc_now(*ast, j, k + 1) by {
            if spec_branch_label(instrs[j]) is Some {
                let nm = spec_branch_label(instrs[j])->Some_0;
                lemma_defined_in_unfold(instrs, k, nm);
                if nm == label@ {
                    let t1 = choose|u: int|
                        0 <= u < pend0.len() && (#[trigger] pend0[u]).1 == spec_offset_of(
                            instrs,
                            j,
                        ) + 1 && pend0[u].0@ == nm;
                    assert(exists|u: int|
                        0 <= u < m && (#[trigger] pend0[u]).1 == spec_offset_of(instrs, j) + 1
                            && pend0[u].0@ == label@);
                }
            }
        };
        assert forall|u: int| 0 <= u < label_instrs@.len() implies ((
        #[trigger] label_instrs@[u]).2 == spec_defined_in(instrs, k + 1, label_instrs@[u].0@)
            && exists|j: int|
            0 <= j < k + 1 && j < instrs.len() && spec_branch_label(#[trigger] instrs[j]) == Some(
                label_instrs@[u].0@,
            ) && label_instrs@[u].1 == spec_offset_of(instrs, j) + 1) by {
            lemma_defined_in_unfold(instrs, k, pend0[u].0@);
            let j0 = choose|j: int|
                0 <= j < k && j < instrs.len() && spec_branch_label(#[trigger] instrs[j]) == Some(
                    pend0[u].0@,
                ) && pend0[u].1 == spec_offset_of(instrs, j) + 1;
            assert(spec_branch_label(instrs[j0]) == Some(label_instrs@[u].0@)
                && label_instrs@[u].1 == spec_offset_of(instrs, j0) + 1);
        };
        assert forall|j: int|
            0 <= j < k + 1 && j < instrs.len() && (#[trigger] spec_branch_label(instrs[j]))
                is Some && !spec_defined_in(
                instrs,
                k + 1,
                spec_branch_label(instrs[j])->Some_0,
            ) implies (exists|u: int|
            0 <= u < label_instrs@.len() && (#[trigger] label_instrs@[u]).1 == spec_offset_of(
                instrs,
                j,
            ) + 1 && label_instrs@[u].0@ == spec_branch_label(instrs[j])->Some_0) by {
            let nm = spec_branch_label(instrs[j])->Some_0;
            lemma_defined_in_unfold(instrs, k, nm);
            let t1 = choose|u: int|
                0 <= u < pend0.len() && (#[trigger] pend0[u]).1 == spec_offset_of(instrs, j) + 1
                    && pend0[u].0@ == nm;
            assert(0 <= t1 < label_instrs@.len() && label_instrs@[t1].1 == spec_offset_of(
                instrs,
                j,
            ) + 1 && label_instrs@[t1].0@ == nm);
        };
    }
    let ghost labels0 = labels@;
    labels.push((label.clone(), addr));
    proof {
        assert(labels@ == labels0.push(labels@.last()));
        assert(labels@.last().0@ == label@ && labels@.last().1 == addr);
        lemma_labels_push(*ast, labels0, labels@.last(), k);
        assert forall|i: int, j: int|
            0 <= i < j < k + 1 && j < instrs.len() && (#[trigger] spec_label_name(instrs[i]))
                is Some implies spec_label_name(instrs[i]) != #[trigger] spec_label_name(
            instrs[j],
        ) by {
            if j == k && spec_label_name(instrs[i]) == Some(label@) {
                assert(spec_defined_in(instrs, k, label@));
            }
        };
        assert(spec_enc_now(*ast, k, k + 1) =~= Seq::<u8>::empty());
    }
    let empty_bytes: Vec<u8> = Vec::new();
    proof {
        assert(empty_bytes@ =~= spec_enc_now(*ast, k, k + 1));
    }
    emit(ast, idx, instructions, empty_bytes);
    Ok(())
}

/// Assemble a parsed program: lay its variables out into a storage
/// descriptor, emit each instruction's bytes in source order, resolve
/// label references by forward-patching the 2-byte placeholders, and
/// resolve the entry address from the "main" label. Assembly succeeds
/// exactly when every initializer length matches its variable's size,
/// no label is defined twice, every referenced label and variable is
/// defined, and "main" exists; the byte stream is then the
/// concatenation of every instruction's encoding with its resolved
/// address operand, so label definition order never changes addresses.
#[verifier::rlimit(100)]
#[verifier::spinoff_prover]
#[verifier::loop_isolation(false)]
pub fn compile_ast(ast: ASTTree) -> (r: Result<Artifact, AsmError>)
    requires
        spec_total_size(ast.variables@, ast.variables@.len() as int) <= 65535,
        spec_var_offset(ast.variables@, ast.variables@.len() as int) <= 65535,
        spec_offset_of(ast.instructions@, ast.instructions@.len() as int) <= 65535,
    ensures
        (match r {
            Ok(art) => {
                &&& spec_asm_ok(ast)
                &&& art.instructions@ == spec_stream(ast)
                &&& art.main_start == spec_label_addr(ast.instructions@, "main"@)
                &&& art.storage.items@.len() == ast.variables@.len()
                &&& art.storage.total_size == spec_total_size(
                    ast.variables@,
                    ast.variables@.len() as int,
                )
                &&& (forall|j: int|
                    0 <= j < ast.variables@.len() ==> {
                        &&& (#[trigger] art.storage.items@[j]).size == spec_storage_size(
                            ast.variables@[j],
                        )
                        &&& art.storage.items@[j].offset == spec_var_offset(ast.variables@, j)
                        &&& (art.storage.items@[j].init_data matches Some(b) ==> (
                        ast.variables@[j].bytes matches Some(b0) && b@ == b0@))
                        &&& (art.storage.items@[j].init_data is Some <==> ast.variables@[j].bytes
                            is Some)
                    })
            },
            Err(e) => {
                &&& !spec_asm_ok(ast)
                &&& (match e {
                    AsmError::InitializerSizeMismatch { name, expected, actual } => exists|j: int|
                        0 <= j < ast.variables@.len() && (#[trigger] ast.variables@[j]).name@
                            == name@ && ast.variables@[j].size == expected && (
                        ast.variables@[j].bytes matches Some(b) && b@.len() == actual) && actual
                            != expected,
                    AsmError::UndefinedVariable { name } => !spec_var_defined(
                        ast.variables@,
                        name@,
                    ) && exists|i: int|
                        0 <= i < ast.instructions@.len() && ((#[trigger] ast.instructions@[i])
                            matches Instruction::Sv(l) && l.spec_inner()@ == name@),
                    AsmError::DuplicateLabel { name } => exists|i: int, j: int|
                        0 <= i < j < ast.instructions@.len() && spec_label_name(
                            #[trigger] ast.instructions@[i],
                        ) == Some(name@) && spec_label_name(#[trigger] ast.instructions@[j])
                            == Some(name@),
                    AsmError::UnresolvedLabel { name } => !spec_label_defined(
                        ast.instructions@,
                        name@,
                    ) && exists|i: int|
                        0 <= i < ast.instructions@.len() && spec_branch_label(
                            #[trigger] ast.instructions@[i],
                        ) == Some(name@),
                    AsmError::MissingMainLabel => !spec_label_defined(ast.instructions@, "main"@),
                })
            },
        }),
{
    let storage = match compile_variables(&ast.variables) {
        Ok(s) => s,
        Err(e) => {
            return Err(e);
        },
    };
    let n = ast.instructions.len();
    let mut labels: Vec<(String, u16)> = Vec::new();
    let mut label_instrs: Vec<(String, usize, bool)> = Vec::new();
    let mut instructions: Vec<u8> = Vec::new();
    let mut idx: usize = 0;
    while idx < n
        invariant
            idx <= n,
            instructions@.len() == spec_offset_of(ast.instructions@, idx as int),
            spec_labels_inv(ast, labels@, idx as int),
            spec_pend_inv(ast, label_instrs@, idx as int, instructions@.len() as int),
            spec_slots_inv(ast, instructions@, idx as int),
            spec_nodup_inv(ast.instructions@, idx as int),
            spec_svs_inv(ast, idx as int),
        decreases n - idx,
    {
        let ghost k = idx as int;
        let instr = &ast.instructions[idx];
        match instr {
            Instruction::Be(l) => {
                asm_step_branch(
                    &ast,
                    idx,
                    BranchCall::BranchEq,
                    l.inner(),
                    &labels,
                    &mut label_instrs,
                    &mut instructions,
                );
            },
            Instruction::Bne(l) => {
                asm_step_branch(
                    &ast,
                    idx,
                    BranchCall::BranchNe,
                    l.inner(),
                    &labels,
                    &mut label_instrs,
                    &mut instructions,
                );
            },
            Instruction::Bgt(l) => {
                asm_step_branch(
                    &ast,
                    idx,
                    BranchCall::BranchGt,
                    l.inner(),
                    &labels,
                    &mut label_instrs,
                    &mut instructions,
                );
            },
            Instruction::Blt(l) => {
                asm_step_branch(
                    &ast,
                    idx,
                    BranchCall::BranchLt,
                    l.inner(),
                    &labels,
                    &mut label_instrs,
                    &mut instructions,
                );
            },
            Instruction::Call(l) => {
                asm_step_branch(
                    &ast,
                    idx,
                    BranchCall::Call,
                    l.inner(),
                    &labels,
                    &mut label_instrs,
                    &mut instructions,
                );
            },
            Instruction::Label(label) => {
                match asm_step_label(
                    &ast,
                    idx,
                    label,
                    &mut labels,
                    &mut label_instrs,
                    &mut instructions,
                ) {
                    Ok(()) => {},
                    Err(e) => {
                        return Err(e);
                    },
                }
            },
            _ => {
                match asm_step_plain(&ast, idx, &storage, &mut instructions) {
                    Ok(()) => {},
                    Err(e) => {
                        proof {
                            assert(!spec_svs_ok(ast)) by {
                                assert((idx as int) < ast.instructions@.len());
                                assert(ast.instructions@[k] matches Instruction::Sv(l2)
                                    && !spec_var_defined(ast.variables@, l2.spec_inner()@));
                            };
                        }
                        return Err(e);
                    },
                }
                proof {
                    lemma_labels_step_nonlabel(ast, labels@, k);
                    lemma_pend_step_same(
                        ast,
                        label_instrs@,
                        k,
                        spec_offset_of(ast.instructions@, k),
                        spec_offset_of(ast.instructions@, k + 1),
                    );
                    lemma_offset_monotone(ast.instructions@, k, k + 1);
                }
            },
        }
        idx = idx + 1;
    }
    // Every pending patch must be resolved: an entry still flagged
    // unresolved names a label that was never defined.
    let m2 = label_instrs.len();
    let mut t2: usize = 0;
    while t2 < m2
        invariant
            t2 <= m2,
            m2 == label_instrs@.len(),
            forall|u: int| 0 <= u < t2 ==> (#[trigger] label_instrs@[u]).2 == true,
        decreases m2 - t2,
    {
        let flagged = label_instrs[t2].2;
        if !flagged {
            proof {
                let instrs = ast.instructions@;
                assert((#[trigger] label_instrs@[t2 as int]).2 == spec_defined_in(
                    instrs,
                    n as int,
                    label_instrs@[t2 as int].0@,
                ) && exists|j: int|
                    0 <= j < n as int && j < instrs.len() && spec_branch_label(
                        #[trigger] instrs[j],
                    ) == Some(label_instrs@[t2 as int].0@) && label_instrs@[t2 as int].1
                        == spec_offset_of(instrs, j) + 1);
                let nm = label_instrs@[t2 as int].0@;
                let j0 = choose|j: int|
                    0 <= j < n as int && j < instrs.len() && spec_branch_label(
                        #[trigger] instrs[j],
                    ) == Some(nm) && label_instrs@[t2 as int].1 == spec_offset_of(instrs, j) + 1;
                assert(!spec_labels_ok(instrs)) by {
                    if spec_labels_ok(instrs) {
                        assert((spec_branch_label(instrs[j0]) matches Some(nm2)
                            ==> spec_label_defined(instrs, nm2)));
                    }
                };
            }
            return Err(AsmError::UnresolvedLabel { name: label_instrs[t2].0.clone() });
        }
        t2 = t2 + 1;
    }
    // The entry point is where "main" was defined.
    let main_str: String = "main".to_owned();
    match find_label(&labels, &main_str) {
        Some(ms) => {
            proof {
                let instrs = ast.instructions@;
                lemma_lookup_props(labels@, "main"@, 0);
                let t0 = choose|t: int|
                    0 <= t < labels@.len() && (#[trigger] labels@[t]).0@ == "main"@
                        && labels@[t].1 == ms;
                assert(spec_label_defined(instrs, "main"@));
                assert(ms == spec_label_addr(instrs, "main"@));
                lemma_labels_ok_from_pend(ast, label_instrs@, instructions@.len() as int);
                assert forall|j: int| 0 <= j < instrs.len() implies #[trigger] spec_slot(
                    instructions@,
                    instrs,
                    j,
                ) == spec_encode_instr(instrs[j], spec_target_of(ast, instrs[j])) by {
                    if spec_branch_label(instrs[j]) is Some {
                        assert((spec_branch_label(instrs[j]) matches Some(nm2)
                            ==> spec_label_defined(instrs, nm2)));
                    }
                };
                lemma_stream_assembly(ast, instructions@, n as int);
                assert(instructions@.subrange(0, spec_offset_of(instrs, n as int))
                    =~= instructions@);
            }
            Ok(Artifact { storage, main_start: ms, instructions })
        },
        None => {
            proof {
                let instrs = ast.instructions@;
                lemma_lookup_props(labels@, "main"@, 0);
                assert(!spec_label_defined(instrs, "main"@)) by {
                    if spec_label_defined(instrs, "main"@) {
                        let j0 = choose|j: int|
                            0 <= j < instrs.len() && j < instrs.len() && spec_label_name(
                                instrs[j],
                            ) == Some("main"@);
                        assert((spec_label_name(instrs[j0]) matches Some(nm2) ==> exists|t: int|
                            0 <= t < labels@.len() && (#[trigger] labels@[t]).0@ == nm2));
                    }
                };
            }
            Err(AsmError::MissingMainLabel)
        },
    }
}

/// The decoded form that one typed instruction's encoding denotes:
/// the same opcode family, sub-operation and operand values, with
/// branch targets and variable offsets already resolved to `target`.
pub open spec fn spec_decoded_of(i: Instruction, target: u16) -> Decoded {
    match i {
        Instruction::Add(l) => Decoded::Alu {
            op: AluOp::Add,
            dst: spec_r8_code(l.spec_inner().arg1.register),
            src: AluArg::Reg(spec_r8_code(l.spec_inner().arg2.register)),
        },
        Instruction::AddI(l) => Decoded::Alu {
            op: AluOp::Add,
            dst: spec_r8_code(l.spec_inner().arg1.register),
            src: AluArg::Imm8(l.spec_inner().arg2.value),
        },
        Instruction::EqR(l) => Decoded::Alu {
            op: AluOp::Equality,
            dst: spec_r8_code(l.spec_inner().arg1.register),
            src: AluArg::Reg(spec_r8_code(l.spec_inner().arg2.register)),
        },
        Instruction::EqI(l) => Decoded::Alu {
            op: AluOp::Equality,
            dst: spec_r8_code(l.spec_inner().arg1.register),
            src: AluArg::Imm8(l.spec_inner().arg2.value),
        },
        Instruction::EqRL(l) => Decoded::Alu {
            op: AluOp::Equality,
            dst: spec_r16_code(l.spec_inner().arg1.register),
            src: AluArg::Reg(spec_r16_code(l.spec_inner().arg2.register)),
        },
        Instruction::EqIL(l) => Decoded::Alu {
            op: AluOp::Equality,
            dst: spec_r16_code(l.spec_inner().arg1.register),
            src: AluArg::Imm16(l.spec_inner().arg2.value),
        },
        Instruction::St(l) => Decoded::StoreReg {
            dst: spec_r8_code(l.spec_inner().arg1.register),
            src: spec_r8_code(l.spec_inner().arg2.register),
        },
        Instruction::StL(l) => Decoded::StoreReg {
            dst: spec_r16_code(l.spec_inner().arg1.register),
            src: spec_r16_code(l.spec_inner().arg2.register),
        },
        Instruction::StI(l) => Decoded::StoreImm8 {
            dst: spec_r8_code(l.spec_inner().arg1.register),
            imm: l.spec_inner().arg2.value,
        },
        Instruction::StIL(l) => Decoded::StoreImm16 {
            dst: spec_r16_code(l.spec_inner().arg1.register),
            imm: l.spec_inner().arg2.value,
        },
        Instruction::Stm(l) => Decoded::StoreMemImm8 {
            addr: l.spec_inner().arg1.value,
            imm: l.spec_inner().arg2.value,
        },
        Instruction::StmL(l) => Decoded::StoreMemImm16 {
            addr: l.spec_inner().arg1.value,
            imm: l.spec_inner().arg2.value,
        },
        Instruction::Str(l) => Decoded::StoreMemReg {
            addr: l.spec_inner().arg1.value,
            src: spec_r8_code(l.spec_inner().arg2.register),
        },
        Instruction::StrL(l) => Decoded::StoreMemReg {
            addr: l.spec_inner().arg1.value,
            src: spec_r16_code(l.spec_inner().arg2.register),
        },
        Instruction::Ldm(l) => Decoded::LoadMem8 {
            addr: l.spec_inner().arg1.value,
            dst: spec_r8_code(l.spec_inner().arg2.register),
        },
        Instruction::LdmL(l) => Decoded::LoadMem16 {
            addr: l.spec_inner().arg1.value,
            dst: spec_r16_code(l.spec_inner().arg2.register),
        },
        Instruction::Be(_) => Decoded::BranchEq { addr: target },
        Instruction::Bne(_) => Decoded::BranchNe { addr: target },
        Instruction::Bgt(_) => Decoded::BranchGt { addr: target },
        Instruction::Blt(_) => Decoded::BranchLt { addr: target },
        Instruction::Call(_) => Decoded::Call { addr: target },
        Instruction::Ret(_) => Decoded::Ret,
        Instruction::Syscall(_) => Decoded::SyscallTrap,
        Instruction::Sv(_) => Decoded::LoadVarImm16 { imm: target },
        Instruction::Uv(_) => Decoded::UnloadVar,
        // A label definition encodes no bytes, so it has no decoded
        // form; this arm only keeps the function total.
        Instruction::Label(_) => Decoded::UnloadVar,
    }
}

/// Round trip: decoding any instruction's encoding, wherever it sits
/// in a byte stream, re-derives the opcode family, the sub-operation
/// and every operand value, and consumes exactly the encoded length.
#[verifier::rlimit(100)]
#[verifier::spinoff_prover]
pub proof fn lemma_encode_decode(i: Instruction, target: u16, code: Seq<u8>, pos: int)
    requires
        !(i matches Instruction::Label(_)),
        0 <= pos,
        pos + spec_instr_len(i) <= code.len(),
        code.subrange(pos, pos + spec_instr_len(i)) == spec_encode_instr(i, target),
    ensures
        spec_decode(code, pos) == Ok::<(Decoded, int), VmError>(
            (spec_decoded_of(i, target), spec_instr_len(i)),
        ),
{
    let enc = spec_encode_instr(i, target);
    let len = spec_instr_len(i);
    lemma_encode_len(i, target);
    assert(code[pos] == enc[0]) by {
        assert(code.subrange(pos, pos + len)[0] == enc[0]);
    };
    if len >= 2 {
        assert(code[pos + 1] == enc[1]) by {
            assert(code.subrange(pos, pos + len)[1] == enc[1]);
        };
    }
    if len >= 3 {
        assert(code[pos + 2] == enc[2]) by {
            assert(code.subrange(pos, pos + len)[2] == enc[2]);
        };
    }
    if len >= 4 {
        assert(code[pos + 3] == enc[3]) by {
            assert(code.subrange(pos, pos + len)[3] == enc[3]);
        };
    }
    if len >= 5 {
        assert(code[pos + 4] == enc[4]) by {
            assert(code.subrange(pos, pos + len)[4] == enc[4]);
        };
    }
    lemma_word_roundtrip(target);
    match i {
        Instruction::Add(l) => {
            lemma_regpair_fields(
                spec_r8_code(l.spec_inner().arg1.register),
                spec_r8_code(l.spec_inner().arg2.register),
            );
        },
        Instruction::EqR(l) => {
            lemma_regpair_fields(
                spec_r8_code(l.spec_inner().arg1.register),
                spec_r8_code(l.spec_inner().arg2.register),
            );
        },
        Instruction::EqRL(l) => {
            lemma_regpair_fields(
                spec_r16_code(l.spec_inner().arg1.register),
                spec_r16_code(l.spec_inner().arg2.register),
            );
        },
        Instruction::EqIL(l) => {
            lemma_word_roundtrip(l.spec_inner().arg2.value);
        },
        Instruction::St(l) => {
            lemma_regpair_fields(
                spec_r8_code(l.spec_inner().arg1.register),
                spec_r8_code(l.spec_inner().arg2.register),
            );
        },
        Instruction::StL(l) => {
            lemma_regpair_fields(
                spec_r16_code(l.spec_inner().arg1.register),
                spec_r16_code(l.spec_inner().arg2.register),
            );
        },
        Instruction::StIL(l) => {
            lemma_word_roundtrip(l.spec_inner().arg2.value);
        },
        Instruction::Stm(l) => {
            lemma_word_roundtrip(l.spec_inner().arg1.value);
        },
        Instruction::StmL(l) => {
            lemma_word_roundtrip(l.spec_inner().arg1.value);
            lemma_word_roundtrip(l.spec_inner().arg2.value);
        },
        Instruction::Str(l) => {
            lemma_word_roundtrip(l.spec_inner().arg1.value);
        },
        Instruction::StrL(l) => {
            lemma_word_roundtrip(l.spec_inner().arg1.value);
        },
        Instruction::Ldm(l) => {
            lemma_word_roundtrip(l.spec_inner().arg1.value);
        },
        Instruction::LdmL(l) => {
            lemma_word_roundtrip(l.spec_inner().arg1.value);
        },
        _ => {},
    }
}

/// The byte stream's length after `k` instructions is their offsets'
/// sum.
proof fn lemma_stream_to_len(ast: ASTTree, k: int)
    requires
        k <= ast.instructions@.len(),
    ensures
        spec_stream_to(ast, k).len() == if k <= 0 {
            0
        } else {
            spec_offset_of(ast.instructions@, k)
        },
    decreases k,
{
    if k > 0 {
        lemma_stream_to_len(ast, k - 1);
        lemma_encode_len(
            ast.instructions@[k - 1],
            spec_target_of(ast, ast.instructions@[k - 1]),
        );
    }
}

/// Within the assembled stream, instruction `j` occupies exactly its
/// slot, encoded with its resolved address operand.
proof fn lemma_stream_to_slot(ast: ASTTree, j: int, k: int)
    requires
        0 <= j < k <= ast.instructions@.len(),
    ensures
        spec_stream_to(ast, k).subrange(
            spec_offset_of(ast.instructions@, j),
            spec_offset_of(ast.instructions@, j + 1),
        ) == spec_encode_instr(ast.instructions@[j], spec_target_of(ast, ast.instructions@[j])),
    decreases k,
{
    let instrs = ast.instructions@;
    let enc = spec_encode_instr(instrs[j], spec_target_of(ast, instrs[j]));
    lemma_stream_to_len(ast, k - 1);
    lemma_stream_to_len(ast, k);
    lemma_encode_len(instrs[k - 1], spec_target_of(ast, instrs[k - 1]));
    lemma_offset_monotone(instrs, 0, j);
    lemma_offset_monotone(instrs, j, j + 1);
    if j == k - 1 {
        lemma_append_is_subrange(
            spec_stream_to(ast, k - 1),
            spec_encode_instr(instrs[k - 1], spec_target_of(ast, instrs[k - 1])),
        );
    } else {
        lemma_stream_to_slot(ast, j, k - 1);
        lemma_offset_monotone(instrs, j + 1, k - 1);
        lemma_append_preserves_subrange(
            spec_stream_to(ast, k - 1),
            spec_encode_instr(instrs[k - 1], spec_target_of(ast, instrs[k - 1])),
            spec_offset_of(instrs, j),
            spec_offset_of(instrs, j + 1),
        );
    }
}

/// Label resolution: in the assembled stream, every branch or call
/// holds, right after its opcode byte, the little-endian address of
/// its label's definition point.
pub proof fn lemma_label_resolution(ast: ASTTree, j: int)
    requires
        0 <= j < ast.instructions@.len(),
        spec_branch_label(ast.instructions@[j]) is Some,
    ensures
        ({
            let instrs = ast.instructions@;
            let addr = spec_label_addr(instrs, spec_branch_label(instrs[j])->Some_0) as u16;
            &&& spec_stream(ast)[spec_offset_of(instrs, j) + 1] == spec_lo(addr)
            &&& spec_stream(ast)[spec_offset_of(instrs, j) + 2] == spec_hi(addr)
        }),
{
    let instrs = ast.instructions@;
    let target = spec_target_of(ast, instrs[j]);
    lemma_stream_to_slot(ast, j, instrs.len() as int);
    lemma_branch_shape(instrs[j], target);
    lemma_offset_monotone(instrs, 0, j);
    lemma_stream_to_len(ast, instrs.len() as int);
    lemma_offset_monotone(instrs, j + 1, instrs.len() as int);
    let slot = spec_stream(ast).subrange(
        spec_offset_of(instrs, j),
        spec_offset_of(instrs, j + 1),
    );
    assert(slot[1] == spec_stream(ast)[spec_offset_of(instrs, j) + 1]);
    assert(slot[2] == spec_stream(ast)[spec_offset_of(instrs, j) + 2]);
}

/// Round trip over a whole assembled program: decoding the byte
/// stream at any instruction's offset re-derives that instruction's
/// opcode family and operand values and consumes exactly its length,
/// so encode and decode are inverses under the shared bit layout.
pub proof fn lemma_program_round_trip(ast: ASTTree, j: int)
    requires
        0 <= j < ast.instructions@.len(),
        !(ast.instructions@[j] matches Instruction::Label(_)),
    ensures
        spec_decode(spec_stream(ast), spec_offset_of(ast.instructions@, j)) == Ok::<
            (Decoded, int),
            VmError,
        >(
            (
                spec_decoded_of(
                    ast.instructions@[j],
                    spec_target_of(ast, ast.instructions@[j]),
                ),
                spec_instr_len(ast.instructions@[j]),
            ),
        ),
{
    let instrs = ast.instructions@;
    let i = instrs[j];
    let target = spec_target_of(ast, i);
    lemma_stream_to_len(ast, instrs.len() as int);
    lemma_stream_to_slot(ast, j, instrs.len() as int);
    lemma_offset_monotone(instrs, 0, j);
    lemma_offset_monotone(instrs, j + 1, instrs.len() as int);
    lemma_encode_decode(i, target, spec_stream(ast), spec_offset_of(instrs, j));
}

/// Determinism: the assembled stream, the storage layout and the label
/// addresses are functions of the program alone, so assembling the
/// same program twice yields byte-identical results.
pub proof fn lemma_assembly_deterministic(a: ASTTree, b: ASTTree)
    requires
        a == b,
    ensures
        spec_stream(a) == spec_stream(b),
        spec_label_addr(a.instructions@, "main"@) == spec_label_addr(b.instructions@, "main"@),
        spec_total_size(a.variables@, a.variables@.len() as int) == spec_total_size(
            b.variables@,
            b.variables@.len() as int,
        ),
{
}

} // verus!
