use vstd::prelude::*;
use vstd::string::StringExecFns;

verus! {

/// The operand shape that follows a mnemonic.
#[derive(Debug, Clone, Copy, PartialEq, Eq, Structural, Hash)]
pub enum InstructionParser {
    R3,
    R2,
    R1,
    R0,
    R1Lit,
    R0I24,
}

#[derive(Debug, Clone, Copy, PartialEq, Eq, Structural, Hash)]
pub enum Opcodes {
    Add,
    LoadLiteral,
    Print,
    Halt,
    Goto,
    Not,
    Mov,
    If,
    Subtract,
    Multiply,
    Divide,
    Equal,
    Check,
    Expect,
    SetGlobal,
    GetGlobal,
    IsSymbol,
    IsBoolean,
    Assert,
    IsNil,
    IsNull,
    IsNumber,
    Greater,
    Less,
    LessEq,
    Return,
    Call,
    TailCall,
    Cons,
    Car,
    Cdr,
    MakeClosure,
    SetClSlot,
    GetClSlot,
    SetCar,
    SetCdr,
    NotEqual,
    IDiv,
    Pair,
    Error,
}

/// One decoded instruction: opcode, three window-relative registers,
/// a literal-pool index and a signed jump displacement.
#[derive(Debug, Clone, Copy, PartialEq, Eq, Structural, Hash)]
pub struct Instruction {
    pub opcode: Opcodes,
    pub r_x: usize,
    pub r_y: usize,
    pub r_z: usize,
    pub slot: usize,
    pub goto: i32,
}

impl Instruction {
    /// An instruction that names one register and one literal-pool slot.
    pub fn eru16(opcode: Opcodes, slot: usize, reg: usize) -> (r: Self)
        ensures
            r == (Instruction { opcode, r_x: reg, r_y: 0, r_z: 0, slot, goto: 0 }),
    {
        Instruction { opcode, r_x: reg, r_y: 0, r_z: 0, slot, goto: 0 }
    }
}

/// The mnemonic table: each mnemonic with its operand shape and opcode.
pub open spec fn instruction_table() -> Seq<(Seq<char>, InstructionParser, Opcodes)> {
    seq![
        ("loadliteral"@, InstructionParser::R1Lit, Opcodes::LoadLiteral),
        ("print"@, InstructionParser::R1, Opcodes::Print),
        ("halt"@, InstructionParser::R0, Opcodes::Halt),
        ("goto"@, InstructionParser::R0I24, Opcodes::Goto),
        ("!"@, InstructionParser::R2, Opcodes::Not),
        ("!="@, InstructionParser::R2, Opcodes::NotEqual),
        ("mov"@, InstructionParser::R2, Opcodes::Mov),
        ("if"@, InstructionParser::R1, Opcodes::If),
        ("+"@, InstructionParser::R3, Opcodes::Add),
        ("-"@, InstructionParser::R3, Opcodes::Subtract),
        ("*"@, InstructionParser::R3, Opcodes::Multiply),
        ("/"@, InstructionParser::R3, Opcodes::Divide),
        ("="@, InstructionParser::R3, Opcodes::Equal),
        ("check"@, InstructionParser::R1Lit, Opcodes::Check),
        ("expect"@, InstructionParser::R1Lit, Opcodes::Expect),
        ("check-assert"@, InstructionParser::R1Lit, Opcodes::Assert),
        ("setglobal"@, InstructionParser::R1Lit, Opcodes::SetGlobal),
        ("getglobal"@, InstructionParser::R1Lit, Opcodes::GetGlobal),
        ("number?"@, InstructionParser::R2, Opcodes::IsNumber),
        ("symbol?"@, InstructionParser::R2, Opcodes::IsSymbol),
        ("boolean?"@, InstructionParser::R2, Opcodes::IsBoolean),
        ("null?"@, InstructionParser::R2, Opcodes::IsNull),
        ("nil?"@, InstructionParser::R2, Opcodes::IsNil),
        (">"@, InstructionParser::R3, Opcodes::Greater),
        ("<"@, InstructionParser::R3, Opcodes::Less),
        ("<="@, InstructionParser::R3, Opcodes::LessEq),
        ("call"@, InstructionParser::R3, Opcodes::Call),
        ("tailcall"@, InstructionParser::R2, Opcodes::TailCall),
        ("return"@, InstructionParser::R1, Opcodes::Return),
        ("cons"@, InstructionParser::R3, Opcodes::Cons),
        ("car"@, InstructionParser::R2, Opcodes::Car),
        ("cdr"@, InstructionParser::R2, Opcodes::Cdr),
        ("mkclosure"@, InstructionParser::R3, Opcodes::MakeClosure),
        ("getclslot"@, InstructionParser::R3, Opcodes::GetClSlot),
        ("setclslot"@, InstructionParser::R3, Opcodes::SetClSlot),
        ("set-car!"@, InstructionParser::R2, Opcodes::SetCar),
        ("set-cdr!"@, InstructionParser::R2, Opcodes::SetCdr),
        ("idiv"@, InstructionParser::R3, Opcodes::IDiv),
        ("pair?"@, InstructionParser::R2, Opcodes::Pair),
        ("error"@, InstructionParser::R1, Opcodes::Error),
    ]
}

/// The view of a parser table entry.
pub open spec fn entry_view(e: (String, InstructionParser, Opcodes)) -> (Seq<char>, InstructionParser, Opcodes) {
    (e.0@, e.1, e.2)
}

/// The parser table, in the order of `instruction_table`.
pub fn get_parsers() -> (r: Vec<(String, InstructionParser, Opcodes)>)
    ensures
        r@.map_values(|e: (String, InstructionParser, Opcodes)| entry_view(e)) == instruction_table(),
{
    let mut table: Vec<(String, InstructionParser, Opcodes)> = Vec::new();
    table.push((String::from_str("loadliteral"), InstructionParser::R1Lit, Opcodes::LoadLiteral));
    table.push((String::from_str("print"), InstructionParser::R1, Opcodes::Print));
    table.push((String::from_str("halt"), InstructionParser::R0, Opcodes::Halt));
    table.push((String::from_str("goto"), InstructionParser::R0I24, Opcodes::Goto));
    table.push((String::from_str("!"), InstructionParser::R2, Opcodes::Not));
    table.push((String::from_str("!="), InstructionParser::R2, Opcodes::NotEqual));
    table.push((String::from_str("mov"), InstructionParser::R2, Opcodes::Mov));
    table.push((String::from_str("if"), InstructionParser::R1, Opcodes::If));
    table.push((String::from_str("+"), InstructionParser::R3, Opcodes::Add));
    table.push((String::from_str("-"), InstructionParser::R3, Opcodes::Subtract));
    table.push((String::from_str("*"), InstructionParser::R3, Opcodes::Multiply));
    table.push((String::from_str("/"), InstructionParser::R3, Opcodes::Divide));
    table.push((String::from_str("="), InstructionParser::R3, Opcodes::Equal));
    table.push((String::from_str("check"), InstructionParser::R1Lit, Opcodes::Check));
    table.push((String::from_str("expect"), InstructionParser::R1Lit, Opcodes::Expect));
    table.push((String::from_str("check-assert"), InstructionParser::R1Lit, Opcodes::Assert));
    table.push((String::from_str("setglobal"), InstructionParser::R1Lit, Opcodes::SetGlobal));
    table.push((String::from_str("getglobal"), InstructionParser::R1Lit, Opcodes::GetGlobal));
    table.push((String::from_str("number?"), InstructionParser::R2, Opcodes::IsNumber));
    table.push((String::from_str("symbol?"), InstructionParser::R2, Opcodes::IsSymbol));
    table.push((String::from_str("boolean?"), InstructionParser::R2, Opcodes::IsBoolean));
    table.push((String::from_str("null?"), InstructionParser::R2, Opcodes::IsNull));
    table.push((String::from_str("nil?"), InstructionParser::R2, Opcodes::IsNil));
    table.push((String::from_str(">"), InstructionParser::R3, Opcodes::Greater));
    table.push((String::from_str("<"), InstructionParser::R3, Opcodes::Less));
    table.push((String::from_str("<="), InstructionParser::R3, Opcodes::LessEq));
    table.push((String::from_str("call"), InstructionParser::R3, Opcodes::Call));
    table.push((String::from_str("tailcall"), InstructionParser::R2, Opcodes::TailCall));
    table.push((String::from_str("return"), InstructionParser::R1, Opcodes::Return));
    table.push((String::from_str("cons"), InstructionParser::R3, Opcodes::Cons));
    table.push((String::from_str("car"), InstructionParser::R2, Opcodes::Car));
    table.push((String::from_str("cdr"), InstructionParser::R2, Opcodes::Cdr));
    table.push((String::from_str("mkclosure"), InstructionParser::R3, Opcodes::MakeClosure));
    table.push((String::from_str("getclslot"), InstructionParser::R3, Opcodes::GetClSlot));
    table.push((String::from_str("setclslot"), InstructionParser::R3, Opcodes::SetClSlot));
    table.push((String::from_str("set-car!"), InstructionParser::R2, Opcodes::SetCar));
    table.push((String::from_str("set-cdr!"), InstructionParser::R2, Opcodes::SetCdr));
    table.push((String::from_str("idiv"), InstructionParser::R3, Opcodes::IDiv));
    table.push((String::from_str("pair?"), InstructionParser::R2, Opcodes::Pair));
    table.push((String::from_str("error"), InstructionParser::R1, Opcodes::Error));
    assert(table@.map_values(|e: (String, InstructionParser, Opcodes)| entry_view(e)) =~= instruction_table());
    table
}

} // verus!
