use regvm::loader::{parse_modules, LoadError};
use regvm::opcodes::{get_parsers, Instruction, InstructionParser, Opcodes};
use regvm::value::{VMFunction, Val};
use regvm::vmrun::{step, Step, VmError};
use regvm::vmstate::{init_vm_state, Tester, VMState, REGISTER_CAPACITY};

fn load(text: &str) -> VMState {
    let mut vm = init_vm_state();
    let chars: Vec<char> = text.chars().collect();
    let (_, f) = parse_modules(&chars, &get_parsers(), &mut vm).expect("program loads");
    vm.func = f;
    vm
}

fn run_all(vm: &mut VMState) -> (Result<(), VmError>, Vec<Val>) {
    let mut printed = Vec::new();
    for _ in 0..10_000 {
        match step(vm) {
            Ok(Step::Continue) => {}
            Ok(Step::Print(v)) => printed.push(v),
            Ok(Step::Halt) => return (Ok(()), printed),
            Err(e) => return (Err(e), printed),
        }
    }
    panic!("program did not halt");
}

fn run_ok(text: &str) -> VMState {
    let mut vm = load(text);
    let (r, _) = run_all(&mut vm);
    assert!(r.is_ok(), "run failed: {:?}", r);
    vm
}

fn run_err(text: &str) -> VmError {
    let mut vm = load(text);
    match run_all(&mut vm).0 {
        Err(e) => e,
        Ok(()) => panic!("run succeeded"),
    }
}

fn num(vm: &VMState, i: usize) -> i32 {
    match &vm.registers[i] {
        Val::Num(n) => *n,
        other => panic!("register {} holds {:?}", i, other),
    }
}

fn boolean(vm: &VMState, i: usize) -> bool {
    match &vm.registers[i] {
        Val::Bool(b) => *b,
        other => panic!("register {} holds {:?}", i, other),
    }
}

#[test]
fn add_two_literals() {
    let vm = run_ok(".load module 3\nloadliteral 0 5\nloadliteral 1 7\n+ 0 0 1\n");
    assert_eq!(num(&vm, 0), 12);
    assert_eq!(vm.literals.len(), 2);
}

#[test]
fn not_writes_into_y() {
    let vm = run_ok(".load module 2\nloadliteral 0 true\n! 0 1\n");
    assert!(!boolean(&vm, 1));
    assert!(boolean(&vm, 0));
}

#[test]
fn nested_function_call_returns_into_destination() {
    let vm = run_ok(
        ".load module 3\n.load 0 function 1 2\n+ 2 1 1\nreturn 2\nloadliteral 1 20\ncall 1 0 1\n",
    );
    assert_eq!(num(&vm, 1), 40);
    assert_eq!(vm.stack.len(), 0);
    assert_eq!(vm.window, 0);
    match &vm.literals[0] {
        Val::VMFunction(f) => {
            assert_eq!(f.arity, 1);
            assert_eq!(f.size, 2);
            assert_eq!(f.instructions.len(), 2);
        }
        other => panic!("unexpected literal {:?}", other),
    }
}

#[test]
fn closure_slot_set_then_get() {
    let vm = run_ok(
        ".load module 5\n.load 1 function 1 1\nreturn 0\nloadliteral 5 5\nmkclosure 0 1 2\nsetclslot 0 5 0\ngetclslot 3 0 0\n",
    );
    assert_eq!(num(&vm, 3), 5);
    match &vm.registers[0] {
        Val::Closure(_, slots) => {
            assert_eq!(slots.len(), 2);
            assert_eq!(slots[1], Val::Nil);
        }
        other => panic!("unexpected {:?}", other),
    }
}

#[test]
fn getclslot_twice_gives_same_value() {
    let vm = run_ok(
        ".load module 6\n.load 1 function 0 1\nreturn 0\nloadliteral 5 9\nmkclosure 0 1 1\nsetclslot 0 5 0\ngetclslot 3 0 0\ngetclslot 4 0 0\n",
    );
    assert_eq!(num(&vm, 3), 9);
    assert_eq!(num(&vm, 4), 9);
}

#[test]
fn check_then_expect_equal_passes() {
    let vm = run_ok(
        ".load module 4\nloadliteral 0 10\ncheck 0 string 2 116 49\nloadliteral 2 10\nexpect 2 string 2 116 49\n",
    );
    assert_eq!(vm.test_suite.tests(), 1);
    assert_eq!(vm.test_suite.passed(), 1);
}

#[test]
fn check_then_expect_different_fails() {
    let vm = run_ok(
        ".load module 4\nloadliteral 0 10\ncheck 0 string 2 116 49\nloadliteral 2 11\nexpect 2 string 2 116 49\n",
    );
    assert_eq!(vm.test_suite.tests(), 1);
    assert_eq!(vm.test_suite.passed(), 0);
    assert!(!vm.test_suite.all_passed());
}

#[test]
fn cons_car_cdr() {
    let vm = run_ok(".load module 5\nloadliteral 1 3\nloadliteral 2 4\ncons 0 1 2\ncar 3 0\ncdr 4 0\n");
    assert_eq!(num(&vm, 3), 3);
    assert_eq!(num(&vm, 4), 4);
}

#[test]
fn set_car_and_set_cdr_replace_members() {
    let vm = run_ok(
        ".load module 7\nloadliteral 1 3\nloadliteral 2 4\ncons 0 1 2\nloadliteral 5 8\nset-car! 0 5\nset-cdr! 0 1\ncar 3 0\n",
    );
    assert_eq!(num(&vm, 3), 8);
    assert_eq!(
        vm.registers[0],
        Val::Cons(Box::new(Val::Num(8)), Box::new(Val::Num(3)))
    );
}

#[test]
fn arithmetic_and_comparisons() {
    let vm = run_ok(
        ".load module 11\nloadliteral 1 17\nloadliteral 2 5\n- 3 1 2\n* 4 1 2\n/ 5 1 2\nidiv 6 1 2\n> 7 1 2\n< 8 1 2\n<= 9 2 2\n= 10 1 1\n!= 11 1 2\n",
    );
    assert_eq!(num(&vm, 3), 12);
    assert_eq!(num(&vm, 4), 85);
    assert_eq!(num(&vm, 5), 3);
    assert_eq!(num(&vm, 6), 3);
    assert!(boolean(&vm, 7));
    assert!(!boolean(&vm, 8));
    assert!(boolean(&vm, 9));
    assert!(boolean(&vm, 10));
    assert!(boolean(&vm, 11));
}

#[test]
fn overflow_is_an_arithmetic_error() {
    let e = run_err(".load module 2\nloadliteral 1 2147483647\n+ 0 1 1\n");
    assert!(matches!(e, VmError::Arithmetic));
}

#[test]
fn division_by_zero_is_an_arithmetic_error() {
    let e = run_err(".load module 3\nloadliteral 1 1\nloadliteral 2 0\n/ 0 1 2\n");
    assert!(matches!(e, VmError::Arithmetic));
}

#[test]
fn arithmetic_on_boolean_is_type_mismatch() {
    let e = run_err(".load module 2\nloadliteral 1 true\n+ 0 1 1\n");
    assert!(matches!(e, VmError::TypeMismatch));
}

#[test]
fn car_of_number_is_type_mismatch() {
    let e = run_err(".load module 2\nloadliteral 1 4\ncar 0 1\n");
    assert!(matches!(e, VmError::TypeMismatch));
}

#[test]
fn call_of_number_is_type_mismatch() {
    let e = run_err(".load module 2\nloadliteral 0 4\ncall 1 0 1\n");
    assert!(matches!(e, VmError::TypeMismatch));
}

#[test]
fn return_with_empty_stack() {
    let e = run_err(".load module 1\nreturn 0\n");
    assert!(matches!(e, VmError::EmptyStack));
}

#[test]
fn getglobal_of_unset_key() {
    let e = run_err(".load module 1\ngetglobal 0 string 1 120\n");
    assert!(matches!(e, VmError::UnresolvedGlobal));
}

#[test]
fn setglobal_then_getglobal_twice() {
    let vm = run_ok(
        ".load module 5\nloadliteral 0 7\nsetglobal 0 string 1 120\ngetglobal 1 string 1 120\nloadliteral 0 1\ngetglobal 2 string 1 120\n",
    );
    assert_eq!(num(&vm, 1), 7);
    assert_eq!(num(&vm, 2), 7);
    assert_eq!(vm.globals.len(), 1);
}

#[test]
fn setglobal_replaces_value_of_equal_key() {
    let vm = run_ok(
        ".load module 5\nloadliteral 0 7\nsetglobal 0 string 1 120\nloadliteral 0 8\nsetglobal 0 string 1 120\ngetglobal 1 string 1 120\n",
    );
    assert_eq!(num(&vm, 1), 8);
    assert_eq!(vm.globals.len(), 1);
}

#[test]
fn error_opcode_surfaces_payload() {
    let e = run_err(".load module 2\nloadliteral 0 13\nerror 0\n");
    match e {
        VmError::UserError(v) => assert_eq!(v, Val::Num(13)),
        other => panic!("unexpected {:?}", other),
    }
}

#[test]
fn register_out_of_range() {
    let e = run_err(".load module 1\nmov 0 50000\n");
    assert!(matches!(e, VmError::RegisterBounds));
}

#[test]
fn getclslot_past_the_end() {
    let e = run_err(
        ".load module 3\n.load 1 function 0 1\nreturn 0\nmkclosure 0 1 1\ngetclslot 3 0 1\n",
    );
    assert!(matches!(e, VmError::SlotBounds));
}

#[test]
fn assert_with_missing_literal() {
    let mut vm = load(".load module 1\ncheck-assert 0 true\n");
    vm.literals.clear();
    let r = step(&mut vm);
    assert!(matches!(r, Err(VmError::LiteralBounds)));
}

#[test]
fn check_assert_counts_truthiness() {
    let vm = run_ok(
        ".load module 4\nloadliteral 0 1\ncheck-assert 0 string 1 97\nloadliteral 0 0\ncheck-assert 0 string 1 97\n",
    );
    assert_eq!(vm.test_suite.tests(), 2);
    assert_eq!(vm.test_suite.passed(), 1);
}

#[test]
fn goto_backward_and_forward() {
    // counts register 0 down from 3, adding 1 to register 2 each time
    let vm = run_ok(
        ".load module 9\nloadliteral 0 3\nloadliteral 1 1\nloadliteral 2 0\nif 0\ngoto 2\nhalt\n- 0 0 1\n+ 2 2 1\ngoto -5\n",
    );
    assert_eq!(num(&vm, 0), 0);
    assert_eq!(num(&vm, 2), 3);
}

#[test]
fn if_skips_on_falsy() {
    let vm = run_ok(".load module 4\nloadliteral 0 nil\nif 0\nloadliteral 1 5\nloadliteral 2 6\n");
    assert_eq!(vm.registers[1], Val::Nil);
    assert_eq!(num(&vm, 2), 6);
}

#[test]
fn jump_before_start() {
    let e = run_err(".load module 1\ngoto -3\n");
    assert!(matches!(e, VmError::JumpBounds));
}

#[test]
fn halt_stops_the_run() {
    let vm = run_ok(".load module 3\nloadliteral 0 1\nhalt\nloadliteral 0 2\n");
    assert_eq!(num(&vm, 0), 1);
}

#[test]
fn print_hands_out_the_value() {
    let mut vm = load(".load module 2\nloadliteral 0 emptylist\nprint 0\n");
    let (r, printed) = run_all(&mut vm);
    assert!(r.is_ok());
    assert_eq!(printed.len(), 1);
    assert!(matches!(printed[0], Val::EmptyList));
}

#[test]
fn type_predicates() {
    let vm = run_ok(
        ".load module 9\nloadliteral 0 4\nnumber? 1 0\nsymbol? 2 0\nboolean? 3 0\nnull? 4 0\nnil? 5 0\ncons 6 0 0\npair? 7 6\npair? 8 0\n",
    );
    assert!(boolean(&vm, 1));
    assert!(!boolean(&vm, 2));
    assert!(!boolean(&vm, 3));
    assert!(!boolean(&vm, 4));
    assert!(!boolean(&vm, 5));
    assert!(boolean(&vm, 7));
    assert!(!boolean(&vm, 8));
}

#[test]
fn tailcall_keeps_stack_depth() {
    // f(n): if n > 0 then tailcall f(n - 1) else return n
    let vm = run_ok(
        ".load module 4\n.load 0 function 1 7\nloadliteral 3 1\nif 1\ngoto 2\nreturn 1\n- 1 1 3\ngetglobal 0 string 1 102\ntailcall 0 1\nsetglobal 0 string 1 102\nloadliteral 1 5\ncall 4 0 1\n",
    );
    assert_eq!(num(&vm, 4), 0);
    assert_eq!(vm.stack.len(), 0);
}

#[test]
fn tailcall_compacts_registers() {
    let mut vm = load(".load module 5\n.load 0 function 0 1\nhalt\nmov 2 0\nloadliteral 3 9\ntailcall 2 3\nhalt\n");
    vm.window = 10;
    vm.registers[10] = Val::Num(1);
    vm.registers[11] = Val::Num(2);
    for _ in 0..4 {
        assert!(matches!(step(&mut vm), Ok(Step::Continue)));
    }
    assert_eq!(vm.stack.len(), 0);
    assert_eq!(vm.pc, 0);
    assert!(matches!(vm.registers[10], Val::VMFunction(_)));
    assert_eq!(vm.registers[11], Val::Num(9));
    assert!(matches!(vm.registers[12], Val::VMFunction(_)));
    assert_eq!(vm.registers[13], Val::Num(2));
}

#[test]
fn call_sets_window_and_return_restores_it() {
    let mut vm = load(".load module 2\n.load 0 function 0 1\nreturn 3\ncall 1 0 4\n");
    assert!(matches!(step(&mut vm), Ok(Step::Continue)));
    assert!(matches!(step(&mut vm), Ok(Step::Continue)));
    assert_eq!(vm.window, 3);
    assert_eq!(vm.stack.len(), 1);
    assert_eq!(vm.stack[0].dest, 1);
    assert_eq!(vm.stack[0].program_counter, 2);
    vm.registers[6] = Val::Num(77);
    assert!(matches!(step(&mut vm), Ok(Step::Continue)));
    assert_eq!(vm.window, 0);
    assert_eq!(vm.pc, 2);
    assert_eq!(vm.stack.len(), 0);
    assert_eq!(vm.registers[1], Val::Num(77));
    assert!(matches!(step(&mut vm), Ok(Step::Halt)));
}

#[test]
fn string_literal_from_byte_codes() {
    let vm = load(".load module 1\nloadliteral 0 string 2 104 105\n");
    match &vm.literals[0] {
        Val::String(s) => assert_eq!(s.as_str(), "hi"),
        other => panic!("unexpected {:?}", other),
    }
}

#[test]
fn literal_kinds() {
    let vm = load(".load module 5\nloadliteral 0 true\nloadliteral 0 false\nloadliteral 0 nil\nloadliteral 0 emptylist\nloadliteral 0 42\n");
    assert_eq!(vm.literals.len(), 5);
    assert_eq!(vm.literals[0], Val::Bool(true));
    assert_eq!(vm.literals[1], Val::Bool(false));
    assert_eq!(vm.literals[2], Val::Nil);
    assert_eq!(vm.literals[3], Val::EmptyList);
    assert_eq!(vm.literals[4], Val::Num(42));
    assert_eq!(vm.func.instructions[4], Instruction::eru16(Opcodes::LoadLiteral, 4, 0));
}

#[test]
fn goto_operand_sign() {
    let vm = load(".load module 2\ngoto -4\ngoto 7\n");
    assert_eq!(vm.func.instructions[0].goto, -4);
    assert_eq!(vm.func.instructions[1].goto, 7);
    assert_eq!(vm.func.instructions[1].opcode, Opcodes::Goto);
}

fn load_err(text: &str) -> LoadError {
    let mut vm = init_vm_state();
    let chars: Vec<char> = text.chars().collect();
    match parse_modules(&chars, &get_parsers(), &mut vm) {
        Err(e) => e,
        Ok(_) => panic!("load succeeded"),
    }
}

#[test]
fn missing_header() {
    assert_eq!(load_err("module 1\nhalt\n"), LoadError::MissingHeader);
}

#[test]
fn unknown_mnemonic() {
    assert_eq!(load_err(".load module 1\njump 3\n"), LoadError::UnknownInstruction);
}

#[test]
fn truncated_program() {
    assert_eq!(load_err(".load module 2\nhalt\n"), LoadError::Malformed);
}

#[test]
fn byte_code_out_of_range() {
    assert_eq!(load_err(".load module 1\nloadliteral 0 string 1 256\n"), LoadError::Malformed);
}

#[test]
fn unknown_literal_word() {
    assert_eq!(load_err(".load module 1\nloadliteral 0 maybe\n"), LoadError::Malformed);
}

#[test]
fn parser_table_holds_every_mnemonic() {
    let t = get_parsers();
    assert_eq!(t.len(), 40);
    assert_eq!(t[0].0, "loadliteral");
    assert_eq!(t[0].1, InstructionParser::R1Lit);
    assert!(t.iter().any(|e| e.0 == "check-assert" && e.2 == Opcodes::Assert));
    assert!(t.iter().any(|e| e.0 == "goto" && e.1 == InstructionParser::R0I24));
}

#[test]
fn boolean_coercion() {
    assert!(!Val::Nil.as_bool());
    assert!(!Val::EmptyList.as_bool());
    assert!(!Val::Num(0).as_bool());
    assert!(!Val::Num(-3).as_bool());
    assert!(Val::Num(1).as_bool());
    assert!(Val::String(String::new()).as_bool());
    assert!(!Val::Bool(false).as_bool());
}

#[test]
fn functions_and_closures_never_equal() {
    let f = VMFunction { arity: 0, nregs: 0, size: 0, instructions: Vec::new() };
    let v = Val::VMFunction(f);
    assert!(v != v.duplicate());
    assert!(!v.equals(&v));
    let g = VMFunction { arity: 0, nregs: 0, size: 0, instructions: Vec::new() };
    let c = Val::Closure(g, Vec::new());
    assert!(!c.equals(&c));
    assert!(Val::Cons(Box::new(Val::Num(1)), Box::new(Val::Nil)) == Val::Cons(Box::new(Val::Num(1)), Box::new(Val::Nil)));
}

#[test]
fn accessors() {
    assert_eq!(Val::Num(5).as_num(), 5);
    assert_eq!(Val::String("ab".to_string()).as_string(), "ab");
    assert_eq!(Val::to_num(-2), Val::Num(-2));
}

#[test]
fn tester_counts() {
    let mut t = Tester::new();
    t.check("a".to_string(), Val::Num(1));
    t.expect("a".to_string(), Val::Num(1));
    t.expect("a".to_string(), Val::Num(2));
    t.check_assert("b".to_string(), Val::Bool(true));
    assert_eq!(t.tests(), 3);
    assert_eq!(t.passed(), 2);
}

#[test]
fn fresh_state() {
    let vm = init_vm_state();
    assert_eq!(vm.registers.len(), REGISTER_CAPACITY);
    assert!(vm.registers.iter().all(|v| matches!(v, Val::Nil)));
    assert_eq!(vm.literals.len(), 0);
    assert_eq!(vm.test_suite.tests(), 0);
}

#[test]
fn literal_slot_indices_increase() {
    let mut vm = init_vm_state();
    assert_eq!(vm.literal_slot(Val::Nil), 0);
    assert_eq!(vm.literal_slot(Val::Num(3)), 1);
    assert_eq!(vm.literals.len(), 2);
}

#[test]
fn loading_keeps_earlier_literals() {
    let mut vm = init_vm_state();
    vm.literal_slot(Val::Num(99));
    let chars: Vec<char> = ".load module 2\nloadliteral 0 1\nloadliteral 1 2\n".chars().collect();
    let (_, f) = parse_modules(&chars, &get_parsers(), &mut vm).expect("program loads");
    assert_eq!(vm.literals.len(), 3);
    assert_eq!(vm.literals[0], Val::Num(99));
    assert_eq!(vm.literals[1], Val::Num(1));
    assert_eq!(f.instructions[0].slot, 1);
    assert_eq!(f.instructions[1].slot, 2);
}

#[test]
fn loading_twice_gives_same_instructions() {
    let text = ".load module 3\n.load 0 function 1 1\nreturn 1\nloadliteral 1 string 1 65\ncall 2 0 1\n";
    let chars: Vec<char> = text.chars().collect();
    let mut a = init_vm_state();
    let mut b = init_vm_state();
    let (ea, fa) = parse_modules(&chars, &get_parsers(), &mut a).expect("program loads");
    let (eb, fb) = parse_modules(&chars, &get_parsers(), &mut b).expect("program loads");
    assert_eq!(ea, eb);
    assert_eq!(fa.instructions, fb.instructions);
    assert_eq!(a.literals.len(), b.literals.len());
    assert_eq!(a.literals[1], b.literals[1]);
}

#[test]
fn well_typed_program_runs_clean() {
    let mut vm = load(".load module 6\nloadliteral 0 4\nloadliteral 1 6\n* 2 0 1\n< 3 0 1\ncons 4 2 3\ncdr 5 4\n");
    let (r, _) = run_all(&mut vm);
    assert!(r.is_ok());
    assert!(boolean(&vm, 5));
}

#[test]
fn set_car_addresses_the_register_file() {
    let mut vm = load(".load module 1\nset-car! 0 1\n");
    vm.window = 4;
    vm.registers[0] = Val::Cons(Box::new(Val::Num(1)), Box::new(Val::Num(2)));
    vm.registers[5] = Val::Num(7);
    assert!(matches!(step(&mut vm), Ok(Step::Continue)));
    assert_eq!(vm.registers[0], Val::Cons(Box::new(Val::Num(7)), Box::new(Val::Num(2))));
    assert_eq!(vm.registers[4], Val::Nil);
}

fn step_with_missing_literal(text: &str) -> Result<Step, VmError> {
    let mut vm = load(text);
    vm.literals.clear();
    step(&mut vm)
}

#[test]
fn loadliteral_with_missing_literal() {
    let r = step_with_missing_literal(".load module 1\nloadliteral 0 5\n");
    assert!(matches!(r, Err(VmError::LiteralBounds)));
}

#[test]
fn check_with_missing_literal() {
    let r = step_with_missing_literal(".load module 1\ncheck 0 true\n");
    assert!(matches!(r, Err(VmError::LiteralBounds)));
}

#[test]
fn expect_with_missing_literal() {
    let r = step_with_missing_literal(".load module 1\nexpect 0 true\n");
    assert!(matches!(r, Err(VmError::LiteralBounds)));
}

#[test]
fn getglobal_unchanged_by_setglobal_on_other_key() {
    let vm = run_ok(
        ".load module 6\nloadliteral 0 7\nsetglobal 0 string 1 120\ngetglobal 1 string 1 120\nloadliteral 0 3\nsetglobal 0 string 1 121\ngetglobal 2 string 1 120\n",
    );
    assert_eq!(num(&vm, 1), 7);
    assert_eq!(num(&vm, 2), 7);
    assert_eq!(vm.globals.len(), 2);
}

#[test]
fn value_equality_is_structural_and_symmetric() {
    let a = Val::Cons(Box::new(Val::String("x".to_string())), Box::new(Val::Bool(true)));
    let b = Val::Cons(Box::new(Val::String("x".to_string())), Box::new(Val::Bool(true)));
    let c = Val::Cons(Box::new(Val::String("y".to_string())), Box::new(Val::Bool(true)));
    assert!(a == b && b == a);
    assert!(a != c && c != a);
    assert!(Val::Num(1) != Val::Bool(true));
    let f = Val::VMFunction(VMFunction { arity: 0, nregs: 0, size: 0, instructions: Vec::new() });
    assert!(f != f);
    let g = Val::Closure(VMFunction { arity: 0, nregs: 0, size: 0, instructions: Vec::new() }, vec![Val::Nil]);
    assert!(g != g.duplicate());
}

#[test]
fn fresh_state_function_and_label() {
    let vm = init_vm_state();
    assert_eq!(vm.func.size, 0);
    assert_eq!(vm.func.arity, 0);
    assert_eq!(vm.func.instructions.len(), 0);
    assert_eq!(vm.stack.len(), 0);
    assert_eq!(vm.globals.len(), 0);
}
