use vstd::prelude::*;

use crate::value::{Val, ValModel, VMFunction, model_eq, truthy};
use crate::vmstack::Activation;

verus! {

/// Number of registers in the shared register file.
pub const REGISTER_CAPACITY: usize = 50000;

/// The whole machine: active function, cursor, register file, literal pool,
/// globals, call stack and self-test counters.
#[derive(Debug)]
pub struct VMState {
    pub func: VMFunction,
    pub registers: Vec<Val>,
    /// Globals as key/value entries, looked up by the first value-equal key.
    pub globals: Vec<(Val, Val)>,
    pub literals: Vec<Val>,
    pub stack: Vec<Activation>,
    pub test_suite: Tester,
    /// Index of the next instruction of `func`.
    pub pc: usize,
    /// Base of the active register window.
    pub window: usize,
}

/// Pass/fail counters of the self-test opcodes.
#[derive(Debug)]
pub struct Tester {
    tests: u32,
    passed: u32,
    checkv: (Val, String),
}

impl Tester {
    pub closed spec fn spec_tests(&self) -> nat {
        self.tests as nat
    }

    pub closed spec fn spec_passed(&self) -> nat {
        self.passed as nat
    }

    /// The stashed expectation of the last `check`.
    pub closed spec fn expected(&self) -> ValModel {
        self.checkv.0.model()
    }

    /// The label stashed by the last `check`.
    pub closed spec fn label(&self) -> Seq<char> {
        self.checkv.1@
    }

    /// Counters at zero, expecting `nil`.
    pub fn new() -> (r: Tester)
        ensures
            r.spec_tests() == 0,
            r.spec_passed() == 0,
            r.expected() == ValModel::Nil,
            r.label() == Seq::<char>::empty(),
    {
        Tester { tests: 0, passed: 0, checkv: (Val::Nil, String::new()) }
    }

    /// Total number of tests run.
    pub fn tests(&self) -> (r: u32)
        ensures
            r == self.spec_tests(),
    {
        self.tests
    }

    /// Number of tests passed.
    pub fn passed(&self) -> (r: u32)
        ensures
            r == self.spec_passed(),
    {
        self.passed
    }

    /// Stashes a value and a label as the expectation of the next `expect`.
    pub fn check(&mut self, s: String, v: Val)
        ensures
            final(self).expected() == v.model(),
            final(self).label() == s@,
            final(self).spec_tests() == old(self).spec_tests(),
            final(self).spec_passed() == old(self).spec_passed(),
    {
        proof {
            use_type_invariant(&*self);
        }
        self.checkv = (v, s)
    }

    /// Counts one test, passed when `v` equals the stashed expectation.
    pub fn expect(&mut self, _s: String, v: Val)
        requires
            old(self).spec_tests() < u32::MAX,
        ensures
            final(self).spec_tests() == old(self).spec_tests() + 1,
            final(self).spec_passed() == old(self).spec_passed()
                + if model_eq(v.model(), old(self).expected()) { 1nat } else { 0nat },
            final(self).expected() == old(self).expected(),
            final(self).label() == old(self).label(),
    {
        proof {
            use_type_invariant(&*self);
        }
        self.tests += 1;
        if !v.equals(&self.checkv.0) {
            return;
        }
        self.passed += 1;
    }

    /// Counts one test, passed when `v` coerces to true.
    pub fn check_assert(&mut self, _s: String, v: Val)
        requires
            old(self).spec_tests() < u32::MAX,
        ensures
            final(self).spec_tests() == old(self).spec_tests() + 1,
            final(self).spec_passed() == old(self).spec_passed()
                + if truthy(v.model()) { 1nat } else { 0nat },
            final(self).expected() == old(self).expected(),
            final(self).label() == old(self).label(),
    {
        proof {
            use_type_invariant(&*self);
        }
        self.tests += 1;
        if v.as_bool() {
            self.passed += 1;
        }
    }

    /// Whether every test run so far passed.
    pub fn all_passed(&self) -> (r: bool)
        ensures
            r == (self.spec_passed() == self.spec_tests()),
    {
        self.passed == self.tests
    }

    #[verifier::type_invariant]
    spec fn counts_consistent(&self) -> bool {
        self.passed <= self.tests
    }
}

impl VMState {
    /// Appends a value to the literal pool and returns its index.
    pub fn literal_slot(&mut self, v: Val) -> (r: usize)
        requires
            old(self).literals@.len() < usize::MAX,
        ensures
            final(self).literals@ == old(self).literals@.push(v),
            r == old(self).literals@.len(),
            final(self).func == old(self).func,
            final(self).registers == old(self).registers,
            final(self).globals == old(self).globals,
            final(self).stack == old(self).stack,
            final(self).test_suite == old(self).test_suite,
            final(self).pc == old(self).pc,
            final(self).window == old(self).window,
    {
        self.literals.push(v);
        self.literals.len() - 1
    }
}

/// A fresh machine: an empty active function, every register `nil`,
/// empty pool, globals and stack, counters at zero.
pub fn init_vm_state() -> (r: VMState)
    ensures
        r.func.instructions@.len() == 0,
        r.func.arity == 0,
        r.func.size == 0,
        r.func.nregs == 0,
        r.registers@.len() == REGISTER_CAPACITY,
        forall|k: int| 0 <= k < REGISTER_CAPACITY ==> #[trigger] r.registers@[k].model() == ValModel::Nil,
        r.globals@.len() == 0,
        r.literals@.len() == 0,
        r.stack@.len() == 0,
        r.test_suite.spec_tests() == 0,
        r.test_suite.spec_passed() == 0,
        r.test_suite.expected() == ValModel::Nil,
        r.test_suite.label() == Seq::<char>::empty(),
        r.pc == 0,
        r.window == 0,
{
    let func = VMFunction { arity: 0, nregs: 0, size: 0, instructions: Vec::new() };
    let mut registers: Vec<Val> = Vec::with_capacity(REGISTER_CAPACITY);
    let mut k: usize = 0;
    while k < REGISTER_CAPACITY
        invariant
            k <= REGISTER_CAPACITY,
            registers@.len() == k,
            forall|j: int| 0 <= j < k ==> #[trigger] registers@[j].model() == ValModel::Nil,
        decreases REGISTER_CAPACITY - k,
    {
        registers.push(Val::Nil);
        k += 1;
    }
    VMState {
        func,
        registers,
        globals: Vec::new(),
        literals: Vec::new(),
        stack: Vec::new(),
        test_suite: Tester::new(),
        pc: 0,
        window: 0,
    }
}

} // verus!
