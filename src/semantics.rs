use vstd::prelude::*;

use crate::loader::{body, entry, program};
use crate::opcodes::{Instruction, InstructionParser, Opcodes};
use crate::value::{model_eq, Val, ValModel};
use crate::vmrun::{
    abs_x, callable, compacted, current, first_match, no_match, operands_in_range, step_rel, string_literal, vx, vy, vz,
    writes_next, Step, VmError,
};
use crate::vmstate::VMState;

verus! {

/// The operands of `ins` carry the tags that its opcode reads.
pub open spec fn operands_typed(s: VMState, ins: Instruction) -> bool {
    match ins.opcode {
        Opcodes::Add | Opcodes::Subtract | Opcodes::Multiply | Opcodes::Divide | Opcodes::IDiv
        | Opcodes::Greater | Opcodes::Less | Opcodes::LessEq => vy(s, ins) is Num && vz(s, ins) is Num,
        Opcodes::Check | Opcodes::Expect | Opcodes::Assert => ins.slot < s.literals@.len() ==> string_literal(s, ins.slot),
        Opcodes::Call => callable(vy(s, ins)),
        Opcodes::TailCall => callable(vx(s, ins)),
        Opcodes::Car | Opcodes::Cdr => vy(s, ins) is Cons,
        Opcodes::MakeClosure => vy(s, ins) is Func,
        Opcodes::SetClSlot => vx(s, ins) is Closure,
        Opcodes::GetClSlot => vy(s, ins) is Closure,
        Opcodes::SetCar | Opcodes::SetCdr => s.registers@[ins.r_x as int].model() is Cons,
        _ => true,
    }
}

/// The machine is about to run an instruction whose operands are in range and well tagged.
pub open spec fn well_typed(s: VMState) -> bool {
    s.pc < s.func.instructions@.len() ==> operands_in_range(s, current(s)) && operands_typed(s, current(s))
}

pub open spec fn is_type_mismatch(r: Result<Step, VmError>) -> bool {
    r is Err && r->Err_0 is TypeMismatch
}

/// `states` is a run: each state steps to the next with the matching outcome.
pub open spec fn is_run(states: Seq<VMState>, outcomes: Seq<Result<Step, VmError>>) -> bool {
    &&& states.len() == outcomes.len() + 1
    &&& forall|i: int| 0 <= i < outcomes.len() ==> step_rel(#[trigger] states[i], states[i + 1], outcomes[i])
}

/// A step from a well-typed state never fails with a type mismatch.
pub proof fn well_typed_step(s: VMState, t: VMState, r: Result<Step, VmError>)
    requires
        step_rel(s, t, r),
        well_typed(s),
    ensures
        !is_type_mismatch(r),
{
}

/// A run whose every state is well typed, with all register accesses in range,
/// never fails with a type mismatch.
pub proof fn well_typed_run(states: Seq<VMState>, outcomes: Seq<Result<Step, VmError>>)
    requires
        is_run(states, outcomes),
        forall|i: int| 0 <= i < outcomes.len() ==> well_typed(#[trigger] states[i]),
    ensures
        forall|i: int| 0 <= i < outcomes.len() ==> !is_type_mismatch(#[trigger] outcomes[i]),
{
    assert forall|i: int| 0 <= i < outcomes.len() implies !is_type_mismatch(#[trigger] outcomes[i]) by {
        well_typed_step(states[i], states[i + 1], outcomes[i]);
    }
}

/// The instruction at the program counter has opcode `op` and operands in range.
pub open spec fn runs(s: VMState, op: Opcodes) -> bool {
    &&& s.pc < s.func.instructions@.len()
    &&& operands_in_range(s, current(s))
    &&& current(s).opcode == op
}

/// No step changes the size of the register file.
pub proof fn step_keeps_register_count(s: VMState, t: VMState, r: Result<Step, VmError>)
    requires
        step_rel(s, t, r),
    ensures
        t.registers@.len() == s.registers@.len(),
{
    if s.pc < s.func.instructions@.len() && operands_in_range(s, current(s)) && current(s).opcode == Opcodes::TailCall
        && r is Ok {
        let ins = current(s);
        lemma_compacted_len(s.registers@, s.window as int, ins.r_x as int, (ins.r_y - ins.r_x + 1) as nat);
    }
}

proof fn lemma_compacted_len(r: Seq<crate::value::Val>, w: int, x: int, n: nat)
    requires
        0 <= w,
        0 <= x,
        w + x + n <= r.len(),
    ensures
        compacted(r, w, x, n).len() == r.len(),
    decreases n,
{
    if n > 0 {
        lemma_compacted_len(r, w, x, (n - 1) as nat);
    }
}

/// A successful `call` from `s0` to `s1`, then, with the callee's frame popped back
/// to the same stack, a `return` from `s2` to `s3`: the caller's window, function and
/// next instruction are restored, and its destination register holds the returned value.
pub proof fn call_then_return(
    s0: VMState, s1: VMState, r1: Result<Step, VmError>,
    s2: VMState, s3: VMState, r3: Result<Step, VmError>,
)
    requires
        runs(s0, Opcodes::Call),
        step_rel(s0, s1, r1),
        r1 is Ok,
        s2.stack@ == s1.stack@,
        s2.registers@.len() == s1.registers@.len(),
        runs(s2, Opcodes::Return),
        step_rel(s2, s3, r3),
    ensures
        r3 is Ok,
        s3.window == s0.window,
        s3.func == s0.func,
        s3.pc == s0.pc + 1,
        s3.stack@ == s0.stack@,
        s3.registers@[abs_x(s0, current(s0))].model() == vx(s2, current(s2)),
{
    assert(s0.registers@.len() == s0.registers.len());
    assert(s0.func.instructions@.len() == s0.func.instructions.len());
    assert(s2.stack@.drop_last() =~= s0.stack@);
}

/// A `tailcall` step never changes the activation stack.
pub proof fn tailcall_keeps_stack(s: VMState, t: VMState, r: Result<Step, VmError>)
    requires
        runs(s, Opcodes::TailCall),
        step_rel(s, t, r),
    ensures
        t.stack == s.stack,
{
}

/// After any number of consecutive `tailcall` steps the stack depth is what it was before the first.
pub proof fn tailcalls_keep_depth(states: Seq<VMState>, outcomes: Seq<Result<Step, VmError>>)
    requires
        is_run(states, outcomes),
        forall|i: int| 0 <= i < outcomes.len() ==> runs(#[trigger] states[i], Opcodes::TailCall),
    ensures
        states.last().stack@.len() == states[0].stack@.len(),
    decreases outcomes.len(),
{
    if outcomes.len() > 0 {
        let n = outcomes.len() - 1;
        tailcalls_keep_depth(states.drop_last(), outcomes.drop_last());
        assert(states.drop_last().last() == states[n]);
        tailcall_keeps_stack(states[n], states[n + 1], outcomes[n]);
    }
}

/// Two `getclslot` reads of the same slot of the same closure give the same value.
pub proof fn getclslot_repeatable(
    a: VMState, a2: VMState, ra: Result<Step, VmError>,
    b: VMState, b2: VMState, rb: Result<Step, VmError>,
)
    requires
        runs(a, Opcodes::GetClSlot),
        runs(b, Opcodes::GetClSlot),
        step_rel(a, a2, ra),
        step_rel(b, b2, rb),
        vy(a, current(a)) == vy(b, current(b)),
        current(a).r_z == current(b).r_z,
        ra is Ok,
    ensures
        rb is Ok,
        a2.registers@[abs_x(a, current(a))].model() == b2.registers@[abs_x(b, current(b))].model(),
{
}

proof fn lemma_first_match_unique(g: Seq<(crate::value::Val, crate::value::Val)>, k: ValModel, i: int, j: int)
    requires
        first_match(g, k, i),
        first_match(g, k, j),
    ensures
        i == j,
{
    if i < j {
        assert(!crate::value::model_eq(g[i].0.model(), k));
    } else if j < i {
        assert(!crate::value::model_eq(g[j].0.model(), k));
    }
}

/// `a` is a prefix of `b`.
pub open spec fn extends(a: Seq<ValModel>, b: Seq<ValModel>) -> bool {
    a.len() <= b.len() && b.subrange(0, a.len() as int) == a
}

proof fn lemma_extends_trans(a: Seq<ValModel>, b: Seq<ValModel>, c: Seq<ValModel>)
    requires
        extends(a, b),
        extends(b, c),
    ensures
        extends(a, c),
{
    assert(c.subrange(0, a.len() as int) =~= b.subrange(0, a.len() as int));
}

proof fn lemma_extends_push(a: Seq<ValModel>, v: ValModel)
    ensures
        extends(a, a.push(v)),
{
    assert(a.push(v).subrange(0, a.len() as int) =~= a);
}

proof fn lemma_extends_refl(a: Seq<ValModel>)
    ensures
        extends(a, a),
{
    assert(a.subrange(0, a.len() as int) =~= a);
}

proof fn lemma_entry_extends(
    s: Seq<char>, p: int, t: Seq<(Seq<char>, InstructionParser, Opcodes)>, lits: Seq<ValModel>,
)
    requires
        entry(s, p, t, lits) is Ok,
    ensures
        extends(lits, entry(s, p, t, lits)->Ok_0.2),
    decreases s.len() - p, 0nat,
{
    let q = crate::loader::skip_ws(s, p);
    let e = crate::loader::token_end(s, q);
    if s.subrange(q, e) == ".load"@ {
        let (e1, _reg) = crate::loader::bounded(s, e, usize::MAX as nat)->Ok_0;
        let (_q2, e2) = crate::loader::word(s, e1);
        let (e3, _arity) = crate::loader::bounded(s, e2, i32::MAX as nat)->Ok_0;
        let (e4, count) = crate::loader::bounded(s, e3, i32::MAX as nat)->Ok_0;
        lemma_body_extends(s, e4, count, t, lits);
        let lits2 = body(s, e4, count, t, lits)->Ok_0.2;
        lemma_extends_push(lits2, entry(s, p, t, lits)->Ok_0.2.last());
        assert(entry(s, p, t, lits)->Ok_0.2 == lits2.push(entry(s, p, t, lits)->Ok_0.2.last()));
        lemma_extends_trans(lits, lits2, entry(s, p, t, lits)->Ok_0.2);
    } else {
        lemma_extends_refl(lits);
        lemma_extends_push(lits, entry(s, p, t, lits)->Ok_0.2.last());
    }
}

proof fn lemma_body_extends(
    s: Seq<char>, p: int, k: nat, t: Seq<(Seq<char>, InstructionParser, Opcodes)>, lits: Seq<ValModel>,
)
    requires
        body(s, p, k, t, lits) is Ok,
    ensures
        extends(lits, body(s, p, k, t, lits)->Ok_0.2),
    decreases s.len() - p, k + 1,
{
    if k == 0 {
        lemma_extends_refl(lits);
    } else {
        lemma_entry_extends(s, p, t, lits);
        let (e, _i, lits1) = entry(s, p, t, lits)->Ok_0;
        lemma_body_extends(s, e, (k - 1) as nat, t, lits1);
        lemma_extends_trans(lits, lits1, body(s, e, (k - 1) as nat, t, lits1)->Ok_0.2);
    }
}

/// Loading a program only appends to the literal pool: every slot issued before
/// keeps its index and its value.
pub proof fn load_only_appends_literals(
    s: Seq<char>, t: Seq<(Seq<char>, InstructionParser, Opcodes)>, lits: Seq<ValModel>,
)
    requires
        program(s, t, lits) is Ok,
    ensures
        extends(lits, program(s, t, lits)->Ok_0.2),
{
    let (_q1, e1) = crate::loader::word(s, 0);
    let (_q2, e2) = crate::loader::word(s, e1);
    let (e3, count) = crate::loader::bounded(s, e2, i32::MAX as nat)->Ok_0;
    lemma_body_extends(s, e3, count, t, lits);
}

proof fn lemma_model_eq_symmetric(a: ValModel, b: ValModel)
    requires
        model_eq(a, b),
    ensures
        model_eq(b, a),
    decreases a,
{
    match (a, b) {
        (ValModel::Cons(x, xs), ValModel::Cons(y, ys)) => {
            lemma_model_eq_symmetric(*x, *y);
            lemma_model_eq_symmetric(*xs, *ys);
        },
        _ => {},
    }
}

proof fn lemma_model_eq_transitive(a: ValModel, b: ValModel, c: ValModel)
    requires
        model_eq(a, b),
        model_eq(b, c),
    ensures
        model_eq(a, c),
    decreases a,
{
    match (a, b, c) {
        (ValModel::Cons(x, xs), ValModel::Cons(y, ys), ValModel::Cons(z, zs)) => {
            lemma_model_eq_transitive(*x, *y, *z);
            lemma_model_eq_transitive(*xs, *ys, *zs);
        },
        _ => {},
    }
}

/// Key `k` is bound to a value with model `v`: the first entry whose key is
/// value-equal to `k` holds `v`.
pub open spec fn bound_to(g: Seq<(Val, Val)>, k: ValModel, v: ValModel) -> bool {
    exists|i: int| #[trigger] first_match(g, k, i) && g[i].1.model() == v
}

/// The step from `s` is a `setglobal` whose key is value-equal to `k`.
pub open spec fn sets_key(s: VMState, k: ValModel) -> bool {
    &&& runs(s, Opcodes::SetGlobal)
    &&& current(s).slot < s.literals@.len()
    &&& model_eq(s.literals@[current(s).slot as int].model(), k)
}

/// A step that is not a `setglobal` on a key value-equal to `k` keeps the binding of `k`.
pub proof fn step_keeps_binding(s: VMState, t: VMState, r: Result<Step, VmError>, k: ValModel, v: ValModel)
    requires
        step_rel(s, t, r),
        bound_to(s.globals@, k, v),
        !sets_key(s, k),
    ensures
        bound_to(t.globals@, k, v),
{
    let g = s.globals@;
    let i = choose|i: int| #[trigger] first_match(g, k, i) && g[i].1.model() == v;
    if runs(s, Opcodes::SetGlobal) && current(s).slot < s.literals@.len() && r is Ok {
        let k2 = s.literals@[current(s).slot as int].model();
        if no_match(g, k2) {
            assert(t.globals@.drop_last() == g);
            assert forall|j: int| 0 <= j < g.len() implies t.globals@[j] == g[j] by {
                assert(t.globals@.drop_last()[j] == t.globals@[j]);
            }
            assert(t.globals@[i] == g[i]);
            assert forall|m: int| 0 <= m < i implies !model_eq(#[trigger] t.globals@[m].0.model(), k) by {
                assert(t.globals@[m] == g[m]);
                assert(!model_eq(g[m].0.model(), k));
            }
            assert(first_match(t.globals@, k, i));
        } else {
            let j = choose|j: int| #[trigger] first_match(g, k2, j)
                && t.globals@.len() == g.len()
                && t.globals@[j].0 == g[j].0
                && t.globals@[j].1.model() == stored_value(s)
                && forall|m: int| 0 <= m < g.len() && m != j ==> t.globals@[m] == g[m];
            if i == j {
                lemma_model_eq_symmetric(g[i].0.model(), k2);
                lemma_model_eq_transitive(k2, g[i].0.model(), k);
                assert(false);
            }
            assert(t.globals@[i] == g[i]);
            assert forall|m: int| 0 <= m < i implies !model_eq(#[trigger] t.globals@[m].0.model(), k) by {
                assert(!model_eq(g[m].0.model(), k));
                if m != j {
                    assert(t.globals@[m] == g[m]);
                }
            }
            assert(first_match(t.globals@, k, i));
        }
    } else {
        assert(t.globals == s.globals);
    }
}

/// The value that a `setglobal` from `s` stores.
pub open spec fn stored_value(s: VMState) -> ValModel {
    vx(s, current(s))
}

/// Along a run in which no step is a `setglobal` on a key value-equal to `k`,
/// the binding of `k` stays as it was.
pub proof fn run_keeps_binding(states: Seq<VMState>, outcomes: Seq<Result<Step, VmError>>, k: ValModel, v: ValModel)
    requires
        is_run(states, outcomes),
        bound_to(states[0].globals@, k, v),
        forall|i: int| 0 <= i < outcomes.len() ==> !sets_key(#[trigger] states[i], k),
    ensures
        bound_to(states.last().globals@, k, v),
    decreases outcomes.len(),
{
    if outcomes.len() > 0 {
        let n = outcomes.len() - 1;
        run_keeps_binding(states.drop_last(), outcomes.drop_last(), k, v);
        assert(states.drop_last().last() == states[n]);
        step_keeps_binding(states[n], states[n + 1], outcomes[n], k, v);
    }
}

/// A `getglobal` of a bound key succeeds and writes the bound value.
pub proof fn getglobal_reads_binding(s: VMState, t: VMState, r: Result<Step, VmError>, v: ValModel)
    requires
        runs(s, Opcodes::GetGlobal),
        step_rel(s, t, r),
        current(s).slot < s.literals@.len(),
        bound_to(s.globals@, s.literals@[current(s).slot as int].model(), v),
    ensures
        r is Ok,
        t.registers@[abs_x(s, current(s))].model() == v,
        t.globals == s.globals,
{
    let k = s.literals@[current(s).slot as int].model();
    let i = choose|i: int| #[trigger] first_match(s.globals@, k, i) && s.globals@[i].1.model() == v;
    let j = choose|j: int| #[trigger] first_match(s.globals@, k, j)
        && writes_next(s, t, r, abs_x(s, current(s)), s.globals@[j].1.model());
    lemma_first_match_unique(s.globals@, k, i, j);
}

/// A successful `getglobal` at the start of a run and another at its end, of
/// value-equal keys, with no `setglobal` on such a key in between, read the same value.
pub proof fn getglobal_repeatable_across_run(
    states: Seq<VMState>,
    outcomes: Seq<Result<Step, VmError>>,
    b2: VMState,
    rb: Result<Step, VmError>,
)
    requires
        is_run(states, outcomes),
        outcomes.len() >= 1,
        runs(states[0], Opcodes::GetGlobal),
        outcomes[0] is Ok,
        runs(states.last(), Opcodes::GetGlobal),
        step_rel(states.last(), b2, rb),
        current(states.last()).slot < states.last().literals@.len(),
        current(states[0]).slot < states[0].literals@.len(),
        model_eq(
            states.last().literals@[current(states.last()).slot as int].model(),
            states[0].literals@[current(states[0]).slot as int].model(),
        ),
        forall|i: int| 0 <= i < outcomes.len() ==> !sets_key(#[trigger] states[i], states[0].literals@[current(states[0]).slot as int].model()),
    ensures
        rb is Ok,
        b2.registers@[abs_x(states.last(), current(states.last()))].model()
            == states[1].registers@[abs_x(states[0], current(states[0]))].model(),
{
    let a = states[0];
    let a2 = states[1];
    let k = a.literals@[current(a).slot as int].model();
    assert(step_rel(a, a2, outcomes[0]));
    let i = choose|i: int| #[trigger] first_match(a.globals@, k, i)
        && writes_next(a, a2, outcomes[0], abs_x(a, current(a)), a.globals@[i].1.model());
    let v = a.globals@[i].1.model();
    assert(bound_to(a.globals@, k, v));
    run_keeps_binding(states, outcomes, k, v);
    let b = states.last();
    let kb = b.literals@[current(b).slot as int].model();
    let m = choose|m: int| #[trigger] first_match(b.globals@, k, m) && b.globals@[m].1.model() == v;
    assert forall|j: int| 0 <= j < m implies !model_eq(#[trigger] b.globals@[j].0.model(), kb) by {
        if model_eq(b.globals@[j].0.model(), kb) {
            lemma_model_eq_transitive(b.globals@[j].0.model(), kb, k);
        }
    }
    lemma_model_eq_symmetric(kb, k);
    lemma_model_eq_transitive(b.globals@[m].0.model(), k, kb);
    assert(first_match(b.globals@, kb, m));
    getglobal_reads_binding(b, b2, rb, v);
}

} // verus!
