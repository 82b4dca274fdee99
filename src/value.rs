use vstd::prelude::*;

use crate::opcodes::Instruction;

verus! {

/// A runtime value of the machine.
#[derive(Debug)]
pub enum Val {
    Nil,
    EmptyList,
    Cons(Box<Val>, Box<Val>),
    Num(i32),
    Bool(bool),
    String(String),
    VMFunction(VMFunction),
    Closure(VMFunction, Vec<Val>),
}

/// A function record: arity, declared register count, instruction count and body.
#[derive(Debug)]
pub struct VMFunction {
    pub arity: i32,
    pub nregs: i32,
    pub size: i32,
    pub instructions: Vec<Instruction>,
}

/// Mathematical view of a function record.
pub struct FnModel {
    pub arity: i32,
    pub nregs: i32,
    pub size: i32,
    pub instructions: Seq<Instruction>,
}

/// Mathematical view of a value: vectors and strings become sequences.
pub enum ValModel {
    Nil,
    EmptyList,
    Cons(Box<ValModel>, Box<ValModel>),
    Num(i32),
    Bool(bool),
    Str(Seq<char>),
    Func(FnModel),
    Closure(FnModel, Seq<ValModel>),
}

impl VMFunction {
    pub open spec fn model(self) -> FnModel {
        FnModel {
            arity: self.arity,
            nregs: self.nregs,
            size: self.size,
            instructions: self.instructions@,
        }
    }

    /// A copy of the function record.
    pub fn duplicate(&self) -> (r: VMFunction)
        ensures
            r.model() == self.model(),
    {
        let mut instructions: Vec<Instruction> = Vec::new();
        let mut i: usize = 0;
        while i < self.instructions.len()
            invariant
                i <= self.instructions@.len(),
                instructions@ == self.instructions@.subrange(0, i as int),
            decreases self.instructions@.len() - i,
        {
            instructions.push(self.instructions[i]);
            i += 1;
        }
        assert(instructions@ =~= self.instructions@);
        VMFunction { arity: self.arity, nregs: self.nregs, size: self.size, instructions }
    }
}

/// Structural value-equality on models: functions and closures equal nothing.
pub open spec fn model_eq(a: ValModel, b: ValModel) -> bool
    decreases a,
{
    match a {
        ValModel::Nil => b is Nil,
        ValModel::EmptyList => b is EmptyList,
        ValModel::Num(i) => b is Num && b->Num_0 == i,
        ValModel::Bool(x) => b is Bool && b->Bool_0 == x,
        ValModel::Str(s) => b is Str && b->Str_0 == s,
        ValModel::Func(_) => false,
        ValModel::Cons(x, xs) => match b {
            ValModel::Cons(y, ys) => model_eq(*x, *y) && model_eq(*xs, *ys),
            _ => false,
        },
        ValModel::Closure(_, _) => false,
    }
}

/// Boolean coercion of a value: `nil`, the empty list and non-positive numbers are false.
pub open spec fn truthy(v: ValModel) -> bool {
    match v {
        ValModel::Nil => false,
        ValModel::EmptyList => false,
        ValModel::Num(i) => i > 0,
        ValModel::Bool(b) => b,
        _ => true,
    }
}

impl Val {
    pub open spec fn model(self) -> ValModel
        decreases self,
    {
        match self {
            Val::Nil => ValModel::Nil,
            Val::EmptyList => ValModel::EmptyList,
            Val::Cons(a, b) => ValModel::Cons(Box::new(a.model()), Box::new(b.model())),
            Val::Num(n) => ValModel::Num(n),
            Val::Bool(b) => ValModel::Bool(b),
            Val::String(s) => ValModel::Str(s@),
            Val::VMFunction(f) => ValModel::Func(f.model()),
            Val::Closure(f, v) => ValModel::Closure(
                f.model(),
                Seq::new(v@.len(), |i: int| if 0 <= i < v@.len() { v@[i].model() } else { ValModel::Nil }),
            ),
        }
    }

    /// The integer held by a number.
    pub fn as_num(&self) -> (r: i32)
        requires
            self is Num,
        ensures
            self.model() == ValModel::Num(r),
    {
        match self {
            Val::Num(i) => *i,
            _ => 0,
        }
    }

    /// Boolean coercion.
    pub fn as_bool(&self) -> (r: bool)
        ensures
            r == truthy(self.model()),
    {
        match self {
            Val::Nil => false,
            Val::EmptyList => false,
            Val::Num(i) => *i > 0,
            Val::Bool(b) => *b,
            Val::String(_) => true,
            Val::VMFunction(_) => true,
            Val::Cons(_, _) => true,
            Val::Closure(_, _) => true,
        }
    }

    /// The text held by a string.
    pub fn as_string(&self) -> (r: String)
        requires
            self is String,
        ensures
            self.model() == ValModel::Str(r@),
    {
        match self {
            Val::String(s) => s.clone(),
            _ => String::new(),
        }
    }

    /// Boxes an integer as a number.
    pub fn to_num(n: i32) -> (r: Self)
        ensures
            r.model() == ValModel::Num(n),
    {
        Val::Num(n)
    }

    /// A deep copy of the value.
    pub fn duplicate(&self) -> (r: Val)
        ensures
            r.model() == self.model(),
        decreases self,
    {
        match self {
            Val::Nil => Val::Nil,
            Val::EmptyList => Val::EmptyList,
            Val::Cons(a, b) => Val::Cons(Box::new(a.duplicate()), Box::new(b.duplicate())),
            Val::Num(n) => Val::Num(*n),
            Val::Bool(b) => Val::Bool(*b),
            Val::String(s) => Val::String(s.clone()),
            Val::VMFunction(f) => Val::VMFunction(f.duplicate()),
            Val::Closure(f, v) => {
                let r = Val::Closure(f.duplicate(), duplicate_slots(v));
                assert(r.model()->Closure_1 =~= self.model()->Closure_1);
                r
            },
        }
    }

    /// Value-equality: structural on scalars, strings and pairs; false for functions and closures.
    pub fn equals(&self, other: &Val) -> (r: bool)
        ensures
            r == model_eq(self.model(), other.model()),
        decreases self,
    {
        match self {
            Val::Nil => matches!(other, Val::Nil),
            Val::EmptyList => matches!(other, Val::EmptyList),
            Val::Num(i) => match other {
                Val::Num(j) => *i == *j,
                _ => false,
            },
            Val::Bool(b) => match other {
                Val::Bool(b2) => *b == *b2,
                _ => false,
            },
            Val::String(s1) => match other {
                Val::String(s2) => *s1 == *s2,
                _ => false,
            },
            Val::VMFunction(_) => false,
            Val::Cons(x, xs) => match other {
                Val::Cons(y, ys) => x.equals(y) && xs.equals(ys),
                _ => false,
            },
            Val::Closure(_, _) => false,
        }
    }
}

/// Deep copy of a closure's capture slots.
pub fn duplicate_slots(v: &Vec<Val>) -> (out: Vec<Val>)
    ensures
        out@.len() == v@.len(),
        forall|k: int| 0 <= k < v@.len() ==> out@[k].model() == v@[k].model(),
    decreases v,
{
    let mut out: Vec<Val> = Vec::new();
    let mut i: usize = 0;
    while i < v.len()
        invariant
            i <= v.len(),
            out@.len() == i,
            forall|k: int| 0 <= k < i ==> out@[k].model() == v@[k].model(),
        decreases v.len() - i,
    {
        proof {
            broadcast use vstd::std_specs::vec::axiom_vec_index_decreases;
            assert(decreases_to!(*v => v[i as int]));
        }
        out.push(v[i].duplicate());
        i += 1;
    }
    out
}

impl PartialEq for Val {
    fn eq(&self, other: &Val) -> (r: bool) {
        self.equals(other)
    }
}

impl vstd::std_specs::cmp::PartialEqSpecImpl for Val {
    open spec fn obeys_eq_spec() -> bool {
        true
    }

    open spec fn eq_spec(&self, other: &Val) -> bool {
        model_eq(self.model(), other.model())
    }
}

} // verus!
