use vstd::prelude::*;

use crate::opcodes::{Instruction, Opcodes};
use crate::value::{FnModel, Val, ValModel, VMFunction, model_eq, truthy};
use crate::vmstack::Activation;
use crate::vmstate::VMState;

verus! {

/// Why a run stopped abnormally.
#[derive(Debug)]
pub enum VmError {
    /// An operand had the wrong tag for its opcode.
    TypeMismatch,
    /// A register index fell outside the register file, or a window underflowed.
    RegisterBounds,
    /// A literal-pool index fell outside the pool.
    LiteralBounds,
    /// A closure slot index fell outside the closure's slots.
    SlotBounds,
    /// `return` with no activation to return to.
    EmptyStack,
    /// `getglobal` on a key never set.
    UnresolvedGlobal,
    /// Integer overflow or division by zero.
    Arithmetic,
    /// A jump target outside the addressable range.
    JumpBounds,
    /// The test counters are full.
    CounterOverflow,
    /// The program raised an error with this payload.
    UserError(Val),
}

/// What one instruction asks of the host.
#[derive(Debug)]
pub enum Step {
    /// Go on with the next instruction.
    Continue,
    /// Print this value, then go on.
    Print(Val),
    /// The run is over.
    Halt,
}

/// The instruction at the program counter.
pub open spec fn current(s: VMState) -> Instruction {
    s.func.instructions@[s.pc as int]
}

pub open spec fn abs_x(s: VMState, ins: Instruction) -> int {
    s.window + ins.r_x
}

pub open spec fn abs_y(s: VMState, ins: Instruction) -> int {
    s.window + ins.r_y
}

pub open spec fn abs_z(s: VMState, ins: Instruction) -> int {
    s.window + ins.r_z
}

/// The value of register `i` of the file.
pub open spec fn reg_at(s: VMState, i: int) -> ValModel {
    s.registers@[i].model()
}

pub open spec fn vx(s: VMState, ins: Instruction) -> ValModel {
    reg_at(s, abs_x(s, ins))
}

pub open spec fn vy(s: VMState, ins: Instruction) -> ValModel {
    reg_at(s, abs_y(s, ins))
}

pub open spec fn vz(s: VMState, ins: Instruction) -> ValModel {
    reg_at(s, abs_z(s, ins))
}

/// All three operand registers lie inside the register file.
pub open spec fn operands_in_range(s: VMState, ins: Instruction) -> bool {
    &&& abs_x(s, ins) < s.registers@.len()
    &&& abs_y(s, ins) < s.registers@.len()
    &&& abs_z(s, ins) < s.registers@.len()
}

/// The result of an arithmetic opcode, or `None` on overflow or division by zero.
pub open spec fn arith(op: Opcodes, a: i32, b: i32) -> Option<i32> {
    match op {
        Opcodes::Add => a.checked_add(b),
        Opcodes::Subtract => a.checked_sub(b),
        Opcodes::Multiply => a.checked_mul(b),
        _ => a.checked_div(b),
    }
}

/// The result of a comparison opcode.
pub open spec fn compare(op: Opcodes, a: i32, b: i32) -> bool {
    match op {
        Opcodes::Greater => a > b,
        Opcodes::Less => a < b,
        _ => a <= b,
    }
}

/// The result of a type-predicate opcode.
pub open spec fn tag_test(op: Opcodes, v: ValModel) -> bool {
    match op {
        Opcodes::IsNumber => v is Num,
        Opcodes::IsSymbol => v is Str,
        Opcodes::IsBoolean => v is Bool,
        Opcodes::IsNull => v is EmptyList,
        Opcodes::IsNil => v is Nil,
        _ => v is Cons,
    }
}

pub open spec fn callable(v: ValModel) -> bool {
    v is Func || v is Closure
}

/// The function that a callable value runs.
pub open spec fn callee(v: ValModel) -> FnModel {
    match v {
        ValModel::Closure(f, _) => f,
        _ => v->Func_0,
    }
}

/// The literal at a pool index, when it holds a string.
pub open spec fn string_literal(s: VMState, slot: usize) -> bool {
    slot < s.literals@.len() && s.literals@[slot as int].model() is Str
}

/// `i` is the first global entry whose key is value-equal to `k`.
pub open spec fn first_match(g: Seq<(Val, Val)>, k: ValModel, i: int) -> bool {
    &&& 0 <= i < g.len()
    &&& model_eq(g[i].0.model(), k)
    &&& forall|j: int| 0 <= j < i ==> !model_eq(#[trigger] g[j].0.model(), k)
}

/// No global entry has a key value-equal to `k`.
pub open spec fn no_match(g: Seq<(Val, Val)>, k: ValModel) -> bool {
    forall|j: int| 0 <= j < g.len() ==> !model_eq(#[trigger] g[j].0.model(), k)
}

/// The register file after the tail-call compaction: for `k` in `0..n`,
/// register `w + k` is swapped with register `w + k + x`, in order.
pub open spec fn compacted(r: Seq<Val>, w: int, x: int, n: nat) -> Seq<Val>
    decreases n,
{
    if n == 0 {
        r
    } else {
        let p = compacted(r, w, x, (n - 1) as nat);
        let a = w + n - 1;
        let b = w + n - 1 + x;
        p.update(a, p[b]).update(b, p[a])
    }
}

/// Everything but the registers and the program counter is as before.
pub open spec fn keeps(s: VMState, t: VMState) -> bool {
    &&& t.func == s.func
    &&& t.globals == s.globals
    &&& t.literals == s.literals
    &&& t.stack == s.stack
    &&& t.test_suite == s.test_suite
    &&& t.window == s.window
}

/// Register `i` now holds a value whose model is `m`; all others are as before.
pub open spec fn writes(s: VMState, t: VMState, i: int, m: ValModel) -> bool {
    &&& t.registers@.len() == s.registers@.len()
    &&& t.registers@[i].model() == m
    &&& forall|j: int| 0 <= j < s.registers@.len() && j != i ==> t.registers@[j] == s.registers@[j]
}

/// Continue after writing `m` to register `i`.
pub open spec fn writes_next(s: VMState, t: VMState, r: Result<Step, VmError>, i: int, m: ValModel) -> bool {
    &&& r is Ok && r->Ok_0 is Continue
    &&& keeps(s, t)
    &&& t.pc == s.pc + 1
    &&& writes(s, t, i, m)
}

/// Continue at instruction `p`, with nothing else changed.
pub open spec fn jumps(s: VMState, t: VMState, r: Result<Step, VmError>, p: int) -> bool {
    &&& r is Ok && r->Ok_0 is Continue
    &&& keeps(s, t)
    &&& t.registers == s.registers
    &&& t.pc == p
}

/// The step failed with `e` and left the machine as it was.
pub open spec fn fails(s: VMState, t: VMState, r: Result<Step, VmError>, e: VmError) -> bool {
    r == Err::<Step, VmError>(e) && t == s
}

/// Test counters: `t` counted one more test, and one more pass iff `pass`.
pub open spec fn counted(s: VMState, t: VMState, pass: bool) -> bool {
    &&& t.test_suite.spec_tests() == s.test_suite.spec_tests() + 1
    &&& t.test_suite.spec_passed() == s.test_suite.spec_passed() + if pass { 1nat } else { 0nat }
    &&& t.test_suite.expected() == s.test_suite.expected()
    &&& t.test_suite.label() == s.test_suite.label()
}

/// Continue after changing the test counters alone.
pub open spec fn tests_next(s: VMState, t: VMState, r: Result<Step, VmError>, pass: bool) -> bool {
    &&& r is Ok && r->Ok_0 is Continue
    &&& t.func == s.func && t.globals == s.globals && t.literals == s.literals
    &&& t.stack == s.stack && t.window == s.window && t.registers == s.registers
    &&& t.pc == s.pc + 1
    &&& counted(s, t, pass)
}

/// What one instruction `ins`, with its operands in range, does to the machine.
pub open spec fn op_rel(s: VMState, t: VMState, r: Result<Step, VmError>, ins: Instruction) -> bool {
    let x = abs_x(s, ins);
    match ins.opcode {
        Opcodes::Add | Opcodes::Subtract | Opcodes::Multiply | Opcodes::Divide | Opcodes::IDiv => {
            if !(vy(s, ins) is Num && vz(s, ins) is Num) {
                fails(s, t, r, VmError::TypeMismatch)
            } else {
                match arith(ins.opcode, vy(s, ins)->Num_0, vz(s, ins)->Num_0) {
                    Some(n) => writes_next(s, t, r, x, ValModel::Num(n)),
                    None => fails(s, t, r, VmError::Arithmetic),
                }
            }
        },
        Opcodes::Greater | Opcodes::Less | Opcodes::LessEq => {
            if !(vy(s, ins) is Num && vz(s, ins) is Num) {
                fails(s, t, r, VmError::TypeMismatch)
            } else {
                writes_next(s, t, r, x, ValModel::Bool(compare(ins.opcode, vy(s, ins)->Num_0, vz(s, ins)->Num_0)))
            }
        },
        Opcodes::Equal => writes_next(s, t, r, x, ValModel::Bool(model_eq(vy(s, ins), vz(s, ins)))),
        Opcodes::NotEqual => writes_next(s, t, r, x, ValModel::Bool(!model_eq(vy(s, ins), vz(s, ins)))),
        Opcodes::LoadLiteral => {
            if ins.slot < s.literals@.len() {
                writes_next(s, t, r, x, s.literals@[ins.slot as int].model())
            } else {
                fails(s, t, r, VmError::LiteralBounds)
            }
        },
        Opcodes::Print => {
            &&& r is Ok && r->Ok_0 is Print && r->Ok_0->Print_0.model() == vx(s, ins)
            &&& keeps(s, t) && t.registers == s.registers && t.pc == s.pc + 1
        },
        Opcodes::Halt => r == Ok::<Step, VmError>(Step::Halt) && t == s,
        Opcodes::Goto => {
            let p = s.pc + ins.goto;
            if 0 <= p <= usize::MAX {
                jumps(s, t, r, p)
            } else {
                fails(s, t, r, VmError::JumpBounds)
            }
        },
        Opcodes::Not => writes_next(s, t, r, abs_y(s, ins), ValModel::Bool(!truthy(vx(s, ins)))),
        Opcodes::Mov => writes_next(s, t, r, x, vy(s, ins)),
        Opcodes::If => {
            if truthy(vx(s, ins)) {
                jumps(s, t, r, s.pc + 1)
            } else if s.pc + 2 <= usize::MAX {
                jumps(s, t, r, s.pc + 2)
            } else {
                fails(s, t, r, VmError::JumpBounds)
            }
        },
        Opcodes::IsNumber | Opcodes::IsSymbol | Opcodes::IsBoolean | Opcodes::IsNull
        | Opcodes::IsNil | Opcodes::Pair => writes_next(s, t, r, x, ValModel::Bool(tag_test(ins.opcode, vy(s, ins)))),
        Opcodes::Check => {
            if ins.slot >= s.literals@.len() {
                fails(s, t, r, VmError::LiteralBounds)
            } else if !string_literal(s, ins.slot) {
                fails(s, t, r, VmError::TypeMismatch)
            } else {
                &&& r is Ok && r->Ok_0 is Continue
                &&& t.func == s.func && t.globals == s.globals && t.literals == s.literals
                &&& t.stack == s.stack && t.window == s.window && t.registers == s.registers
                &&& t.pc == s.pc + 1
                &&& t.test_suite.expected() == vx(s, ins)
                &&& t.test_suite.label() == s.literals@[ins.slot as int].model()->Str_0
                &&& t.test_suite.spec_tests() == s.test_suite.spec_tests()
                &&& t.test_suite.spec_passed() == s.test_suite.spec_passed()
            }
        },
        Opcodes::Expect => {
            if ins.slot >= s.literals@.len() {
                fails(s, t, r, VmError::LiteralBounds)
            } else if !string_literal(s, ins.slot) {
                fails(s, t, r, VmError::TypeMismatch)
            } else if s.test_suite.spec_tests() >= u32::MAX {
                fails(s, t, r, VmError::CounterOverflow)
            } else {
                tests_next(s, t, r, model_eq(vx(s, ins), s.test_suite.expected()))
            }
        },
        Opcodes::Assert => {
            if ins.slot >= s.literals@.len() {
                fails(s, t, r, VmError::LiteralBounds)
            } else if !string_literal(s, ins.slot) {
                fails(s, t, r, VmError::TypeMismatch)
            } else if s.test_suite.spec_tests() >= u32::MAX {
                fails(s, t, r, VmError::CounterOverflow)
            } else {
                tests_next(s, t, r, truthy(vx(s, ins)))
            }
        },
        Opcodes::SetGlobal => {
            if ins.slot >= s.literals@.len() {
                fails(s, t, r, VmError::LiteralBounds)
            } else {
                let k = s.literals@[ins.slot as int].model();
                &&& r is Ok && r->Ok_0 is Continue
                &&& t.func == s.func && t.literals == s.literals && t.stack == s.stack
                &&& t.test_suite == s.test_suite && t.window == s.window && t.registers == s.registers
                &&& t.pc == s.pc + 1
                &&& if no_match(s.globals@, k) {
                    &&& t.globals@.len() == s.globals@.len() + 1
                    &&& t.globals@.drop_last() == s.globals@
                    &&& t.globals@.last().0.model() == k
                    &&& t.globals@.last().1.model() == vx(s, ins)
                } else {
                    exists|i: int| #[trigger] first_match(s.globals@, k, i)
                        && t.globals@.len() == s.globals@.len()
                        && t.globals@[i].0 == s.globals@[i].0
                        && t.globals@[i].1.model() == vx(s, ins)
                        && forall|j: int| 0 <= j < s.globals@.len() && j != i ==> t.globals@[j] == s.globals@[j]
                }
            }
        },
        Opcodes::GetGlobal => {
            if ins.slot >= s.literals@.len() {
                fails(s, t, r, VmError::LiteralBounds)
            } else {
                let k = s.literals@[ins.slot as int].model();
                if no_match(s.globals@, k) {
                    fails(s, t, r, VmError::UnresolvedGlobal)
                } else {
                    exists|i: int| #[trigger] first_match(s.globals@, k, i)
                        && writes_next(s, t, r, x, s.globals@[i].1.model())
                }
            }
        },
        Opcodes::Call => {
            if !callable(vy(s, ins)) {
                fails(s, t, r, VmError::TypeMismatch)
            } else if s.window + ins.r_z == 0 {
                fails(s, t, r, VmError::RegisterBounds)
            } else {
                &&& r is Ok && r->Ok_0 is Continue
                &&& t.stack@ == s.stack@.push(
                    Activation { dest: x as usize, register_window: s.window, program_counter: (s.pc + 1) as usize, fun: s.func },
                )
                &&& t.func.model() == callee(vy(s, ins))
                &&& t.pc == 0
                &&& t.window == s.window + ins.r_z - 1
                &&& t.registers == s.registers && t.globals == s.globals
                &&& t.literals == s.literals && t.test_suite == s.test_suite
            }
        },
        Opcodes::TailCall => {
            if !callable(vx(s, ins)) {
                fails(s, t, r, VmError::TypeMismatch)
            } else if ins.r_y < ins.r_x {
                fails(s, t, r, VmError::RegisterBounds)
            } else {
                &&& r is Ok && r->Ok_0 is Continue
                &&& t.registers@ == compacted(s.registers@, s.window as int, ins.r_x as int, (ins.r_y - ins.r_x + 1) as nat)
                &&& t.func.model() == callee(vx(s, ins))
                &&& t.pc == 0
                &&& t.window == s.window && t.stack == s.stack && t.globals == s.globals
                &&& t.literals == s.literals && t.test_suite == s.test_suite
            }
        },
        Opcodes::Return => {
            if s.stack@.len() == 0 {
                fails(s, t, r, VmError::EmptyStack)
            } else if s.stack@.last().dest >= s.registers@.len() {
                fails(s, t, r, VmError::RegisterBounds)
            } else {
                let a = s.stack@.last();
                &&& r is Ok && r->Ok_0 is Continue
                &&& t.stack@ == s.stack@.drop_last()
                &&& t.func == a.fun
                &&& t.pc == a.program_counter
                &&& t.window == a.register_window
                &&& writes(s, t, a.dest as int, vx(s, ins))
                &&& t.globals == s.globals && t.literals == s.literals && t.test_suite == s.test_suite
            }
        },
        Opcodes::Cons => writes_next(s, t, r, x, ValModel::Cons(Box::new(vy(s, ins)), Box::new(vz(s, ins)))),
        Opcodes::Car => match vy(s, ins) {
            ValModel::Cons(a, _) => writes_next(s, t, r, x, *a),
            _ => fails(s, t, r, VmError::TypeMismatch),
        },
        Opcodes::Cdr => match vy(s, ins) {
            ValModel::Cons(_, b) => writes_next(s, t, r, x, *b),
            _ => fails(s, t, r, VmError::TypeMismatch),
        },
        Opcodes::MakeClosure => match vy(s, ins) {
            ValModel::Func(f) => writes_next(
                s, t, r, x,
                ValModel::Closure(f, Seq::new(ins.r_z as nat, |i: int| ValModel::Nil)),
            ),
            _ => fails(s, t, r, VmError::TypeMismatch),
        },
        Opcodes::SetClSlot => match vx(s, ins) {
            ValModel::Closure(f, slots) => {
                if ins.r_z < slots.len() {
                    writes_next(s, t, r, x, ValModel::Closure(f, slots.update(ins.r_z as int, vy(s, ins))))
                } else {
                    fails(s, t, r, VmError::SlotBounds)
                }
            },
            _ => fails(s, t, r, VmError::TypeMismatch),
        },
        Opcodes::GetClSlot => match vy(s, ins) {
            ValModel::Closure(_, slots) => {
                if ins.r_z < slots.len() {
                    writes_next(s, t, r, x, slots[ins.r_z as int])
                } else {
                    fails(s, t, r, VmError::SlotBounds)
                }
            },
            _ => fails(s, t, r, VmError::TypeMismatch),
        },
        // these two address register `x` of the file itself, not of the window
        Opcodes::SetCar => match reg_at(s, ins.r_x as int) {
            ValModel::Cons(_, b) => writes_next(s, t, r, ins.r_x as int, ValModel::Cons(Box::new(vy(s, ins)), b)),
            _ => fails(s, t, r, VmError::TypeMismatch),
        },
        Opcodes::SetCdr => match reg_at(s, ins.r_x as int) {
            ValModel::Cons(a, _) => writes_next(s, t, r, ins.r_x as int, ValModel::Cons(a, Box::new(vy(s, ins)))),
            _ => fails(s, t, r, VmError::TypeMismatch),
        },
        Opcodes::Error => {
            &&& r is Err && r->Err_0 is UserError && r->Err_0->UserError_0.model() == vx(s, ins)
            &&& t == s
        },
    }
}

/// One step of the machine from `s` to `t` with outcome `r`.
pub open spec fn step_rel(s: VMState, t: VMState, r: Result<Step, VmError>) -> bool {
    if s.pc >= s.func.instructions@.len() {
        r == Ok::<Step, VmError>(Step::Halt) && t == s
    } else if !operands_in_range(s, current(s)) {
        fails(s, t, r, VmError::RegisterBounds)
    } else {
        op_rel(s, t, r, current(s))
    }
}

/// Writes `v` to register `i`, changing nothing else.
fn set_register(vm: &mut VMState, i: usize, v: Val)
    requires
        i < old(vm).registers@.len(),
    ensures
        final(vm).registers@ == old(vm).registers@.update(i as int, v),
        keeps(*old(vm), *final(vm)),
        final(vm).pc == old(vm).pc,
{
    vm.registers.set(i, v);
}

/// Writes `v` to register `i` and moves to the next instruction.
fn write_next(vm: &mut VMState, i: usize, v: Val) -> (r: Result<Step, VmError>)
    requires
        i < old(vm).registers@.len(),
        old(vm).pc < usize::MAX,
    ensures
        writes_next(*old(vm), *final(vm), r, i as int, v.model()),
{
    set_register(vm, i, v);
    vm.pc = vm.pc + 1;
    Ok(Step::Continue)
}

/// Moves to instruction `p`, changing nothing else.
fn jump(vm: &mut VMState, p: usize) -> (r: Result<Step, VmError>)
    ensures
        jumps(*old(vm), *final(vm), r, p as int),
{
    vm.pc = p;
    Ok(Step::Continue)
}

/// Index of the first global whose key is value-equal to `k`.
fn find_global(g: &Vec<(Val, Val)>, k: &Val) -> (r: Option<usize>)
    ensures
        r is None ==> no_match(g@, k.model()),
        r is Some ==> first_match(g@, k.model(), r->Some_0 as int),
{
    let mut i: usize = 0;
    while i < g.len()
        invariant
            i <= g@.len(),
            forall|j: int| 0 <= j < i ==> !model_eq(#[trigger] g@[j].0.model(), k.model()),
        decreases g@.len() - i,
    {
        if g[i].0.equals(k) {
            return Some(i);
        }
        i += 1;
    }
    None
}

/// Swaps registers `a` and `b`.
fn swap_registers(vm: &mut VMState, a: usize, b: usize)
    requires
        a < old(vm).registers@.len(),
        b < old(vm).registers@.len(),
    ensures
        final(vm).registers@ == old(vm).registers@.update(a as int, old(vm).registers@[b as int]).update(
            b as int,
            old(vm).registers@[a as int],
        ),
        keeps(*old(vm), *final(vm)),
        final(vm).pc == old(vm).pc,
{
    if a == b {
        assert(old(vm).registers@.update(a as int, old(vm).registers@[b as int]).update(b as int, old(vm).registers@[a as int])
            =~= old(vm).registers@);
        return;
    }
    let mut tmp = Val::Nil;
    vm.registers.set_and_swap(a, &mut tmp);
    vm.registers.set_and_swap(b, &mut tmp);
    vm.registers.set_and_swap(a, &mut tmp);
    assert(vm.registers@ =~= old(vm).registers@.update(a as int, old(vm).registers@[b as int]).update(
        b as int,
        old(vm).registers@[a as int],
    ));
}

/// The function that a callable value runs, copied.
fn callee_of(v: &Val) -> (f: VMFunction)
    requires
        callable(v.model()),
    ensures
        f.model() == callee(v.model()),
{
    match v {
        Val::VMFunction(f) => f.duplicate(),
        Val::Closure(f, _) => f.duplicate(),
        _ => VMFunction { arity: 0, nregs: 0, size: 0, instructions: Vec::new() },
    }
}

/// The operands of `ins` were read from `s`, which is about to run `ins`.
pub open spec fn operand_snapshot(s: VMState, ins: Instruction, y: Val, z: Val, xv: Val) -> bool {
    &&& s.pc < s.func.instructions@.len()
    &&& s.pc < usize::MAX
    &&& s.registers@.len() <= usize::MAX
    &&& ins == current(s)
    &&& operands_in_range(s, ins)
    &&& xv.model() == vx(s, ins)
    &&& y.model() == vy(s, ins)
    &&& z.model() == vz(s, ins)
}

/// Executes the instruction at the program counter.
pub fn step(vm: &mut VMState) -> (r: Result<Step, VmError>)
    ensures
        step_rel(*old(vm), *final(vm), r),
{
    if vm.pc >= vm.func.instructions.len() {
        return Ok(Step::Halt);
    }
    let ins = vm.func.instructions[vm.pc];
    let w = vm.window;
    let n = vm.registers.len();
    if ins.r_x >= n || w > n - 1 - ins.r_x || ins.r_y >= n || w > n - 1 - ins.r_y || ins.r_z >= n || w > n - 1 - ins.r_z {
        return Err(VmError::RegisterBounds);
    }
    let y = vm.registers[w + ins.r_y].duplicate();
    let z = vm.registers[w + ins.r_z].duplicate();
    let xv = vm.registers[w + ins.r_x].duplicate();
    match ins.opcode {
        Opcodes::Add | Opcodes::Subtract | Opcodes::Multiply | Opcodes::Divide | Opcodes::IDiv => exec_arith(vm, ins, y, z, xv),
        Opcodes::Greater | Opcodes::Less | Opcodes::LessEq => exec_compare(vm, ins, y, z, xv),
        Opcodes::Equal => exec_equal(vm, ins, y, z, xv),
        Opcodes::NotEqual => exec_not_equal(vm, ins, y, z, xv),
        Opcodes::LoadLiteral => exec_load_literal(vm, ins, y, z, xv),
        Opcodes::Print => exec_print(vm, ins, y, z, xv),
        Opcodes::Halt => exec_halt(vm, ins, y, z, xv),
        Opcodes::Goto => exec_goto(vm, ins, y, z, xv),
        Opcodes::Not => exec_not(vm, ins, y, z, xv),
        Opcodes::Mov => exec_mov(vm, ins, y, z, xv),
        Opcodes::If => exec_if(vm, ins, y, z, xv),
        Opcodes::IsNumber | Opcodes::IsSymbol | Opcodes::IsBoolean | Opcodes::IsNull | Opcodes::IsNil | Opcodes::Pair => exec_tag_test(vm, ins, y, z, xv),
        Opcodes::Check => exec_check(vm, ins, y, z, xv),
        Opcodes::Expect | Opcodes::Assert => exec_count_test(vm, ins, y, z, xv),
        Opcodes::SetGlobal => exec_set_global(vm, ins, y, z, xv),
        Opcodes::GetGlobal => exec_get_global(vm, ins, y, z, xv),
        Opcodes::Call => exec_call(vm, ins, y, z, xv),
        Opcodes::TailCall => exec_tail_call(vm, ins, y, z, xv),
        Opcodes::Return => exec_return(vm, ins, y, z, xv),
        Opcodes::Cons => exec_cons(vm, ins, y, z, xv),
        Opcodes::Car => exec_car(vm, ins, y, z, xv),
        Opcodes::Cdr => exec_cdr(vm, ins, y, z, xv),
        Opcodes::MakeClosure => exec_make_closure(vm, ins, y, z, xv),
        Opcodes::SetClSlot => exec_set_cl_slot(vm, ins, y, z, xv),
        Opcodes::GetClSlot => exec_get_cl_slot(vm, ins, y, z, xv),
        Opcodes::SetCar => exec_set_car(vm, ins, y, z, xv),
        Opcodes::SetCdr => exec_set_cdr(vm, ins, y, z, xv),
        Opcodes::Error => exec_error(vm, ins, y, z, xv),
    }
}

/// Runs `+`, `-`, `*`, `/`, `idiv` with operands already read.
fn exec_arith(vm: &mut VMState, ins: Instruction, y: Val, z: Val, xv: Val) -> (r: Result<Step, VmError>)
    requires
        operand_snapshot(*old(vm), ins, y, z, xv),
        ins.opcode == Opcodes::Add
            || ins.opcode == Opcodes::Subtract
            || ins.opcode == Opcodes::Multiply
            || ins.opcode == Opcodes::Divide
            || ins.opcode == Opcodes::IDiv,
    ensures
        op_rel(*old(vm), *final(vm), r, ins),
{
    let w = vm.window;
    let x = w + ins.r_x;
    if !(matches!(y, Val::Num(_)) && matches!(z, Val::Num(_))) {
        return Err(VmError::TypeMismatch);
    }
    let a = y.as_num();
    let b = z.as_num();
    let res = match ins.opcode {
        Opcodes::Add => a.checked_add(b),
        Opcodes::Subtract => a.checked_sub(b),
        Opcodes::Multiply => a.checked_mul(b),
        _ => a.checked_div(b),
    };
    match res {
        Some(v) => write_next(vm, x, Val::to_num(v)),
        None => Err(VmError::Arithmetic),
    }
}

/// Runs `>`, `<`, `<=` with operands already read.
fn exec_compare(vm: &mut VMState, ins: Instruction, y: Val, z: Val, xv: Val) -> (r: Result<Step, VmError>)
    requires
        operand_snapshot(*old(vm), ins, y, z, xv),
        ins.opcode == Opcodes::Greater
            || ins.opcode == Opcodes::Less
            || ins.opcode == Opcodes::LessEq,
    ensures
        op_rel(*old(vm), *final(vm), r, ins),
{
    let w = vm.window;
    let x = w + ins.r_x;
    if !(matches!(y, Val::Num(_)) && matches!(z, Val::Num(_))) {
        return Err(VmError::TypeMismatch);
    }
    let a = y.as_num();
    let b = z.as_num();
    let res = match ins.opcode {
        Opcodes::Greater => a > b,
        Opcodes::Less => a < b,
        _ => a <= b,
    };
    write_next(vm, x, Val::Bool(res))
}

/// Runs `=` with operands already read.
fn exec_equal(vm: &mut VMState, ins: Instruction, y: Val, z: Val, xv: Val) -> (r: Result<Step, VmError>)
    requires
        operand_snapshot(*old(vm), ins, y, z, xv),
        ins.opcode == Opcodes::Equal,
    ensures
        op_rel(*old(vm), *final(vm), r, ins),
{
    let w = vm.window;
    let x = w + ins.r_x;
    write_next(vm, x, Val::Bool(y.equals(&z)))
    }

/// Runs `!=` with operands already read.
fn exec_not_equal(vm: &mut VMState, ins: Instruction, y: Val, z: Val, xv: Val) -> (r: Result<Step, VmError>)
    requires
        operand_snapshot(*old(vm), ins, y, z, xv),
        ins.opcode == Opcodes::NotEqual,
    ensures
        op_rel(*old(vm), *final(vm), r, ins),
{
    let w = vm.window;
    let x = w + ins.r_x;
    write_next(vm, x, Val::Bool(!y.equals(&z)))
    }

/// Runs `loadliteral` with operands already read.
fn exec_load_literal(vm: &mut VMState, ins: Instruction, y: Val, z: Val, xv: Val) -> (r: Result<Step, VmError>)
    requires
        operand_snapshot(*old(vm), ins, y, z, xv),
        ins.opcode == Opcodes::LoadLiteral,
    ensures
        op_rel(*old(vm), *final(vm), r, ins),
{
    let w = vm.window;
    let x = w + ins.r_x;
    if ins.slot < vm.literals.len() {
        let v = vm.literals[ins.slot].duplicate();
        write_next(vm, x, v)
    } else {
        Err(VmError::LiteralBounds)
    }
}

/// Runs `print` with operands already read.
fn exec_print(vm: &mut VMState, ins: Instruction, y: Val, z: Val, xv: Val) -> (r: Result<Step, VmError>)
    requires
        operand_snapshot(*old(vm), ins, y, z, xv),
        ins.opcode == Opcodes::Print,
    ensures
        op_rel(*old(vm), *final(vm), r, ins),
{
    let pc = vm.pc;
    vm.pc = pc + 1;
    Ok(Step::Print(xv))
}

/// Runs `halt` with operands already read.
fn exec_halt(vm: &mut VMState, ins: Instruction, y: Val, z: Val, xv: Val) -> (r: Result<Step, VmError>)
    requires
        operand_snapshot(*old(vm), ins, y, z, xv),
        ins.opcode == Opcodes::Halt,
    ensures
        op_rel(*old(vm), *final(vm), r, ins),
{
    Ok(Step::Halt)
    }

/// Runs `goto` with operands already read.
fn exec_goto(vm: &mut VMState, ins: Instruction, y: Val, z: Val, xv: Val) -> (r: Result<Step, VmError>)
    requires
        operand_snapshot(*old(vm), ins, y, z, xv),
        ins.opcode == Opcodes::Goto,
    ensures
        op_rel(*old(vm), *final(vm), r, ins),
{
    let pc = vm.pc;
    if ins.goto >= 0 {
        let g = ins.goto as usize;
        if pc > usize::MAX - g {
            Err(VmError::JumpBounds)
        } else {
            jump(vm, pc + g)
        }
    } else {
        let g = (-(ins.goto as i64)) as usize;
        if pc < g {
            Err(VmError::JumpBounds)
        } else {
            jump(vm, pc - g)
        }
    }
}

/// Runs `!` with operands already read.
fn exec_not(vm: &mut VMState, ins: Instruction, y: Val, z: Val, xv: Val) -> (r: Result<Step, VmError>)
    requires
        operand_snapshot(*old(vm), ins, y, z, xv),
        ins.opcode == Opcodes::Not,
    ensures
        op_rel(*old(vm), *final(vm), r, ins),
{
    let w = vm.window;
    write_next(vm, w + ins.r_y, Val::Bool(!xv.as_bool()))
    }

/// Runs `mov` with operands already read.
fn exec_mov(vm: &mut VMState, ins: Instruction, y: Val, z: Val, xv: Val) -> (r: Result<Step, VmError>)
    requires
        operand_snapshot(*old(vm), ins, y, z, xv),
        ins.opcode == Opcodes::Mov,
    ensures
        op_rel(*old(vm), *final(vm), r, ins),
{
    let w = vm.window;
    let x = w + ins.r_x;
    write_next(vm, x, y)
    }

/// Runs `if` with operands already read.
fn exec_if(vm: &mut VMState, ins: Instruction, y: Val, z: Val, xv: Val) -> (r: Result<Step, VmError>)
    requires
        operand_snapshot(*old(vm), ins, y, z, xv),
        ins.opcode == Opcodes::If,
    ensures
        op_rel(*old(vm), *final(vm), r, ins),
{
    let pc = vm.pc;
    if xv.as_bool() {
        jump(vm, pc + 1)
    } else if pc + 1 == usize::MAX {
        Err(VmError::JumpBounds)
    } else {
        jump(vm, pc + 2)
    }
}

/// Runs `number?`, `symbol?`, `boolean?`, `null?`, `nil?`, `pair?` with operands already read.
fn exec_tag_test(vm: &mut VMState, ins: Instruction, y: Val, z: Val, xv: Val) -> (r: Result<Step, VmError>)
    requires
        operand_snapshot(*old(vm), ins, y, z, xv),
        ins.opcode == Opcodes::IsNumber
            || ins.opcode == Opcodes::IsSymbol
            || ins.opcode == Opcodes::IsBoolean
            || ins.opcode == Opcodes::IsNull
            || ins.opcode == Opcodes::IsNil
            || ins.opcode == Opcodes::Pair,
    ensures
        op_rel(*old(vm), *final(vm), r, ins),
{
    let w = vm.window;
    let x = w + ins.r_x;
    let b = match ins.opcode {
        Opcodes::IsNumber => matches!(y, Val::Num(_)),
        Opcodes::IsSymbol => matches!(y, Val::String(_)),
        Opcodes::IsBoolean => matches!(y, Val::Bool(_)),
        Opcodes::IsNull => matches!(y, Val::EmptyList),
        Opcodes::IsNil => matches!(y, Val::Nil),
        _ => matches!(y, Val::Cons(_, _)),
    };
    write_next(vm, x, Val::Bool(b))
}

/// Runs `check` with operands already read.
fn exec_check(vm: &mut VMState, ins: Instruction, y: Val, z: Val, xv: Val) -> (r: Result<Step, VmError>)
    requires
        operand_snapshot(*old(vm), ins, y, z, xv),
        ins.opcode == Opcodes::Check,
    ensures
        op_rel(*old(vm), *final(vm), r, ins),
{
    let pc = vm.pc;
    if ins.slot >= vm.literals.len() {
        Err(VmError::LiteralBounds)
    } else {
        match &vm.literals[ins.slot] {
            Val::String(label) => {
                let label = label.clone();
                vm.test_suite.check(label, xv);
                vm.pc = pc + 1;
                Ok(Step::Continue)
            },
            _ => Err(VmError::TypeMismatch),
        }
    }
}

/// Runs `expect`, `check-assert` with operands already read.
fn exec_count_test(vm: &mut VMState, ins: Instruction, y: Val, z: Val, xv: Val) -> (r: Result<Step, VmError>)
    requires
        operand_snapshot(*old(vm), ins, y, z, xv),
        ins.opcode == Opcodes::Expect
            || ins.opcode == Opcodes::Assert,
    ensures
        op_rel(*old(vm), *final(vm), r, ins),
{
    let pc = vm.pc;
    if ins.slot >= vm.literals.len() {
        Err(VmError::LiteralBounds)
    } else {
        match &vm.literals[ins.slot] {
            Val::String(label) => {
                if vm.test_suite.tests() == u32::MAX {
                    Err(VmError::CounterOverflow)
                } else {
                    let label = label.clone();
                    if ins.opcode == Opcodes::Expect {
                        vm.test_suite.expect(label, xv);
                    } else {
                        vm.test_suite.check_assert(label, xv);
                    }
                    vm.pc = pc + 1;
                    Ok(Step::Continue)
                }
            },
            _ => Err(VmError::TypeMismatch),
        }
    }
}

/// Runs `setglobal` with operands already read.
fn exec_set_global(vm: &mut VMState, ins: Instruction, y: Val, z: Val, xv: Val) -> (r: Result<Step, VmError>)
    requires
        operand_snapshot(*old(vm), ins, y, z, xv),
        ins.opcode == Opcodes::SetGlobal,
    ensures
        op_rel(*old(vm), *final(vm), r, ins),
{
    let pc = vm.pc;
    if ins.slot >= vm.literals.len() {
        Err(VmError::LiteralBounds)
    } else {
        let key = vm.literals[ins.slot].duplicate();
        match find_global(&vm.globals, &key) {
            Some(i) => {
                let mut entry = (Val::Nil, Val::Nil);
                vm.globals.set_and_swap(i, &mut entry);
                let kept = (entry.0, xv);
                vm.globals.set(i, kept);
            },
            None => {
                vm.globals.push((key, xv));
            assert(vm.globals@.drop_last() =~= old(vm).globals@);
            },
        }
        vm.pc = pc + 1;
        Ok(Step::Continue)
    }
}

/// Runs `getglobal` with operands already read.
fn exec_get_global(vm: &mut VMState, ins: Instruction, y: Val, z: Val, xv: Val) -> (r: Result<Step, VmError>)
    requires
        operand_snapshot(*old(vm), ins, y, z, xv),
        ins.opcode == Opcodes::GetGlobal,
    ensures
        op_rel(*old(vm), *final(vm), r, ins),
{
    let w = vm.window;
    let x = w + ins.r_x;
    if ins.slot >= vm.literals.len() {
        Err(VmError::LiteralBounds)
    } else {
        match find_global(&vm.globals, &vm.literals[ins.slot]) {
            Some(i) => {
                let v = vm.globals[i].1.duplicate();
                write_next(vm, x, v)
            },
            None => Err(VmError::UnresolvedGlobal),
        }
    }
}

/// Runs `call` with operands already read.
fn exec_call(vm: &mut VMState, ins: Instruction, y: Val, z: Val, xv: Val) -> (r: Result<Step, VmError>)
    requires
        operand_snapshot(*old(vm), ins, y, z, xv),
        ins.opcode == Opcodes::Call,
    ensures
        op_rel(*old(vm), *final(vm), r, ins),
{
    let w = vm.window;
    let x = w + ins.r_x;
    let pc = vm.pc;
    if !matches!(y, Val::VMFunction(_) | Val::Closure(_, _)) {
        Err(VmError::TypeMismatch)
    } else if w + ins.r_z == 0 {
        Err(VmError::RegisterBounds)
    } else {
        let mut f = callee_of(&y);
        std::mem::swap(&mut vm.func, &mut f);
        let act = Activation { dest: x, register_window: w, program_counter: pc + 1, fun: f };
        vm.stack.push(act);
        vm.window = w + ins.r_z - 1;
        vm.pc = 0;
        Ok(Step::Continue)
    }
}

/// Runs `tailcall` with operands already read.
fn exec_tail_call(vm: &mut VMState, ins: Instruction, y: Val, z: Val, xv: Val) -> (r: Result<Step, VmError>)
    requires
        operand_snapshot(*old(vm), ins, y, z, xv),
        ins.opcode == Opcodes::TailCall,
    ensures
        op_rel(*old(vm), *final(vm), r, ins),
{
    let w = vm.window;
    let n = vm.registers.len();
    let pc = vm.pc;
    if !matches!(xv, Val::VMFunction(_) | Val::Closure(_, _)) {
        Err(VmError::TypeMismatch)
    } else if ins.r_y < ins.r_x {
        Err(VmError::RegisterBounds)
    } else {
        let f = callee_of(&xv);
        let count = ins.r_y - ins.r_x + 1;
        let mut k: usize = 0;
        while k < count
            invariant
                k <= count,
                ins.r_x <= ins.r_y,
                vm.registers@.len() == n,
                count == ins.r_y - ins.r_x + 1,
                w == old(vm).window,
                w + ins.r_y < vm.registers@.len(),
                vm.registers@ == compacted(old(vm).registers@, w as int, ins.r_x as int, k as nat),
                keeps(*old(vm), *vm),
            decreases count - k,
        {
            swap_registers(vm, w + k, w + k + ins.r_x);
            k += 1;
        }
        vm.func = f;
        vm.pc = 0;
        Ok(Step::Continue)
    }
}

/// Runs `return` with operands already read.
fn exec_return(vm: &mut VMState, ins: Instruction, y: Val, z: Val, xv: Val) -> (r: Result<Step, VmError>)
    requires
        operand_snapshot(*old(vm), ins, y, z, xv),
        ins.opcode == Opcodes::Return,
    ensures
        op_rel(*old(vm), *final(vm), r, ins),
{
    let n = vm.registers.len();
    let pc = vm.pc;
    if vm.stack.len() == 0 {
        Err(VmError::EmptyStack)
    } else if vm.stack[vm.stack.len() - 1].dest >= n {
        Err(VmError::RegisterBounds)
    } else {
        let act = vm.stack.pop().unwrap();
        set_register(vm, act.dest, xv);
        vm.func = act.fun;
        vm.pc = act.program_counter;
        vm.window = act.register_window;
        Ok(Step::Continue)
    }
}

/// Runs `cons` with operands already read.
fn exec_cons(vm: &mut VMState, ins: Instruction, y: Val, z: Val, xv: Val) -> (r: Result<Step, VmError>)
    requires
        operand_snapshot(*old(vm), ins, y, z, xv),
        ins.opcode == Opcodes::Cons,
    ensures
        op_rel(*old(vm), *final(vm), r, ins),
{
    let w = vm.window;
    let x = w + ins.r_x;
    write_next(vm, x, Val::Cons(Box::new(y), Box::new(z)))
    }

/// Runs `car` with operands already read.
fn exec_car(vm: &mut VMState, ins: Instruction, y: Val, z: Val, xv: Val) -> (r: Result<Step, VmError>)
    requires
        operand_snapshot(*old(vm), ins, y, z, xv),
        ins.opcode == Opcodes::Car,
    ensures
        op_rel(*old(vm), *final(vm), r, ins),
{
    let w = vm.window;
    let x = w + ins.r_x;
    match y {
        Val::Cons(a, _) => write_next(vm, x, *a),
        _ => Err(VmError::TypeMismatch),
    }
}

/// Runs `cdr` with operands already read.
fn exec_cdr(vm: &mut VMState, ins: Instruction, y: Val, z: Val, xv: Val) -> (r: Result<Step, VmError>)
    requires
        operand_snapshot(*old(vm), ins, y, z, xv),
        ins.opcode == Opcodes::Cdr,
    ensures
        op_rel(*old(vm), *final(vm), r, ins),
{
    let w = vm.window;
    let x = w + ins.r_x;
    match y {
        Val::Cons(_, b) => write_next(vm, x, *b),
        _ => Err(VmError::TypeMismatch),
    }
}

/// Runs `mkclosure` with operands already read.
fn exec_make_closure(vm: &mut VMState, ins: Instruction, y: Val, z: Val, xv: Val) -> (r: Result<Step, VmError>)
    requires
        operand_snapshot(*old(vm), ins, y, z, xv),
        ins.opcode == Opcodes::MakeClosure,
    ensures
        op_rel(*old(vm), *final(vm), r, ins),
{
    let w = vm.window;
    let x = w + ins.r_x;
    match y {
        Val::VMFunction(f) => {
            let mut slots: Vec<Val> = Vec::new();
            let mut k: usize = 0;
            while k < ins.r_z
                invariant
                    k <= ins.r_z,
                    slots@.len() == k,
                    forall|j: int| 0 <= j < k ==> #[trigger] slots@[j].model() == ValModel::Nil,
                decreases ins.r_z - k,
            {
                slots.push(Val::Nil);
                k += 1;
            }
            let c = Val::Closure(f, slots);
            let ghost target = Seq::new(ins.r_z as nat, |i: int| ValModel::Nil);
            assert forall|i: int| 0 <= i < ins.r_z implies c.model()->Closure_1[i] == target[i] by {
                assert(slots@[i].model() == ValModel::Nil);
            }
            assert(c.model()->Closure_1 =~= target);
            write_next(vm, x, c)
        },
        _ => Err(VmError::TypeMismatch),
    }
}

/// Runs `setclslot` with operands already read.
fn exec_set_cl_slot(vm: &mut VMState, ins: Instruction, y: Val, z: Val, xv: Val) -> (r: Result<Step, VmError>)
    requires
        operand_snapshot(*old(vm), ins, y, z, xv),
        ins.opcode == Opcodes::SetClSlot,
    ensures
        op_rel(*old(vm), *final(vm), r, ins),
{
    let w = vm.window;
    let x = w + ins.r_x;
    let ghost xm = xv.model();
    match xv {
        Val::Closure(f, slots) => {
            if ins.r_z < slots.len() {
                let mut slots = slots;
                slots.set(ins.r_z, y);
                let c = Val::Closure(f, slots);
                assert(c.model()->Closure_1 =~= xm->Closure_1.update(ins.r_z as int, y.model()));
                write_next(vm, x, c)
            } else {
                Err(VmError::SlotBounds)
            }
        },
        _ => Err(VmError::TypeMismatch),
    }
}

/// Runs `getclslot` with operands already read.
fn exec_get_cl_slot(vm: &mut VMState, ins: Instruction, y: Val, z: Val, xv: Val) -> (r: Result<Step, VmError>)
    requires
        operand_snapshot(*old(vm), ins, y, z, xv),
        ins.opcode == Opcodes::GetClSlot,
    ensures
        op_rel(*old(vm), *final(vm), r, ins),
{
    let w = vm.window;
    let x = w + ins.r_x;
    match &y {
        Val::Closure(_, slots) => {
            if ins.r_z < slots.len() {
                let v = slots[ins.r_z].duplicate();
                write_next(vm, x, v)
            } else {
                Err(VmError::SlotBounds)
            }
        },
        _ => Err(VmError::TypeMismatch),
    }
}

/// Runs `set-car!` with operands already read.
fn exec_set_car(vm: &mut VMState, ins: Instruction, y: Val, z: Val, xv: Val) -> (r: Result<Step, VmError>)
    requires
        operand_snapshot(*old(vm), ins, y, z, xv),
        ins.opcode == Opcodes::SetCar,
    ensures
        op_rel(*old(vm), *final(vm), r, ins),
{
    let cur = vm.registers[ins.r_x].duplicate();
    match cur {
        Val::Cons(_, b) => write_next(vm, ins.r_x, Val::Cons(Box::new(y), b)),
        _ => Err(VmError::TypeMismatch),
    }
}

/// Runs `set-cdr!` with operands already read.
fn exec_set_cdr(vm: &mut VMState, ins: Instruction, y: Val, z: Val, xv: Val) -> (r: Result<Step, VmError>)
    requires
        operand_snapshot(*old(vm), ins, y, z, xv),
        ins.opcode == Opcodes::SetCdr,
    ensures
        op_rel(*old(vm), *final(vm), r, ins),
{
    let cur = vm.registers[ins.r_x].duplicate();
    match cur {
        Val::Cons(a, _) => write_next(vm, ins.r_x, Val::Cons(a, Box::new(y))),
        _ => Err(VmError::TypeMismatch),
    }
}

/// Runs `error` with operands already read.
fn exec_error(vm: &mut VMState, ins: Instruction, y: Val, z: Val, xv: Val) -> (r: Result<Step, VmError>)
    requires
        operand_snapshot(*old(vm), ins, y, z, xv),
        ins.opcode == Opcodes::Error,
    ensures
        op_rel(*old(vm), *final(vm), r, ins),
{
    Err(VmError::UserError(xv))
    }

} // verus!
