use vstd::prelude::*;

use crate::opcodes::{Instruction, InstructionParser, Opcodes, entry_view};
use crate::value::{FnModel, Val, ValModel, VMFunction};
use crate::vmstate::VMState;

verus! {

/// Why a program text could not be loaded.
#[derive(Debug, PartialEq, Eq, Structural)]
pub enum LoadError {
    /// The text does not start with `.load module`.
    MissingHeader,
    /// A mnemonic that the parser table does not hold.
    UnknownInstruction,
    /// A missing, malformed or out-of-range token.
    Malformed,
    /// The literal pool cannot grow any further.
    PoolFull,
}

pub open spec fn is_ws(c: char) -> bool {
    c == ' ' || c == '\t' || c == '\n' || c == '\r'
}

pub open spec fn is_digit(c: char) -> bool {
    '0' <= c && c <= '9'
}

pub open spec fn is_alnum(c: char) -> bool {
    is_digit(c) || ('a' <= c && c <= 'z') || ('A' <= c && c <= 'Z')
}

/// First position at or after `p` that is not whitespace.
pub open spec fn skip_ws(s: Seq<char>, p: int) -> int
    decreases s.len() - p,
{
    if 0 <= p < s.len() && is_ws(s[p]) {
        skip_ws(s, p + 1)
    } else {
        p
    }
}

/// End of the run of digits that starts at `p`.
pub open spec fn digits_end(s: Seq<char>, p: int) -> int
    decreases s.len() - p,
{
    if 0 <= p < s.len() && is_digit(s[p]) {
        digits_end(s, p + 1)
    } else {
        p
    }
}

/// End of the run of ASCII letters and digits that starts at `p`.
pub open spec fn alnum_end(s: Seq<char>, p: int) -> int
    decreases s.len() - p,
{
    if 0 <= p < s.len() && is_alnum(s[p]) {
        alnum_end(s, p + 1)
    } else {
        p
    }
}

/// End of the run of non-whitespace characters that starts at `p`.
pub open spec fn token_end(s: Seq<char>, p: int) -> int
    decreases s.len() - p,
{
    if 0 <= p < s.len() && !is_ws(s[p]) {
        token_end(s, p + 1)
    } else {
        p
    }
}

pub open spec fn digit_value(c: char) -> nat {
    ((c as u32) - ('0' as u32)) as nat
}

/// Decimal value of the digits in `s[p..e]`.
pub open spec fn decimal(s: Seq<char>, p: int, e: int) -> nat
    decreases e - p,
{
    if e <= p {
        0
    } else {
        decimal(s, p, e - 1) * 10 + digit_value(s[e - 1])
    }
}

/// Optional whitespace, then a non-empty run of digits: its end and value.
pub open spec fn number(s: Seq<char>, p: int) -> Result<(int, nat), LoadError> {
    let q = skip_ws(s, p);
    let e = digits_end(s, q);
    if e == q {
        Err(LoadError::Malformed)
    } else {
        Ok((e, decimal(s, q, e)))
    }
}

/// A number that fits in `bound`.
pub open spec fn bounded(s: Seq<char>, p: int, bound: nat) -> Result<(int, nat), LoadError> {
    match number(s, p) {
        Ok((e, v)) => if v <= bound { Ok((e, v)) } else { Err(LoadError::Malformed) },
        Err(e) => Err(e),
    }
}

/// Optional whitespace, then a whitespace-free word: its start and end.
pub open spec fn word(s: Seq<char>, p: int) -> (int, int) {
    let q = skip_ws(s, p);
    (q, token_end(s, q))
}

/// The first entry of the table named `name`.
pub open spec fn find_entry(t: Seq<(Seq<char>, InstructionParser, Opcodes)>, name: Seq<char>) -> Option<(InstructionParser, Opcodes)>
    decreases t.len(),
{
    if t.len() == 0 {
        None
    } else if t[0].0 == name {
        Some((t[0].1, t[0].2))
    } else {
        find_entry(t.drop_first(), name)
    }
}

pub open spec fn plain(opcode: Opcodes, x: nat, y: nat, z: nat) -> Instruction {
    Instruction { opcode, r_x: x as usize, r_y: y as usize, r_z: z as usize, slot: 0, goto: 0 }
}

/// The operands of a non-literal instruction, starting at `p`.
pub open spec fn operands(s: Seq<char>, p: int, shape: InstructionParser, op: Opcodes) -> Result<(int, Instruction), LoadError> {
    let m = usize::MAX as nat;
    match shape {
        InstructionParser::R0 => Ok((p, plain(op, 0, 0, 0))),
        InstructionParser::R1 => match bounded(s, p, m) {
            Ok((e, x)) => Ok((e, plain(op, x, 0, 0))),
            Err(err) => Err(err),
        },
        InstructionParser::R2 => match bounded(s, p, m) {
            Ok((e1, x)) => match bounded(s, e1, m) {
                Ok((e2, y)) => Ok((e2, plain(op, x, y, 0))),
                Err(err) => Err(err),
            },
            Err(err) => Err(err),
        },
        InstructionParser::R3 => match bounded(s, p, m) {
            Ok((e1, x)) => match bounded(s, e1, m) {
                Ok((e2, y)) => match bounded(s, e2, m) {
                    Ok((e3, z)) => Ok((e3, plain(op, x, y, z))),
                    Err(err) => Err(err),
                },
                Err(err) => Err(err),
            },
            Err(err) => Err(err),
        },
        _ => {
            let q = skip_ws(s, p);
            let neg = q < s.len() && s[q] == '-';
            let d = if neg { q + 1 } else { q };
            match bounded(s, d, i32::MAX as nat) {
                Ok((e, v)) => Ok((
                    e,
                    Instruction {
                        opcode: op, r_x: 0, r_y: 0, r_z: 0, slot: 0,
                        goto: if neg { -(v as int) } else { v as int } as i32,
                    },
                )),
                Err(err) => Err(err),
            }
        },
    }
}

/// `k` byte tokens, each a decimal in `0..=255`, read as character codes.
pub open spec fn byte_codes(s: Seq<char>, p: int, k: nat) -> Result<(int, Seq<char>), LoadError>
    decreases k,
{
    if k == 0 {
        Ok((p, Seq::empty()))
    } else {
        match byte_codes(s, p, (k - 1) as nat) {
            Ok((e, cs)) => {
                let q = skip_ws(s, e);
                let f = alnum_end(s, q);
                if f == q || digits_end(s, q) != f || decimal(s, q, f) > 255 {
                    Err(LoadError::Malformed)
                } else {
                    Ok((f, cs.push(decimal(s, q, f) as u8 as char)))
                }
            },
            Err(err) => Err(err),
        }
    }
}

/// The literal operand that starts at `p`.
pub open spec fn literal(s: Seq<char>, p: int) -> Result<(int, ValModel), LoadError> {
    let q = skip_ws(s, p);
    if q >= s.len() {
        Err(LoadError::Malformed)
    } else if is_digit(s[q]) {
        match bounded(s, q, i32::MAX as nat) {
            Ok((e, v)) => Ok((e, ValModel::Num(v as i32))),
            Err(err) => Err(err),
        }
    } else {
        let e = alnum_end(s, q);
        let w = s.subrange(q, e);
        if w == "string"@ {
            match bounded(s, e, usize::MAX as nat) {
                Ok((e1, k)) => match byte_codes(s, e1, k) {
                    Ok((e2, cs)) => Ok((e2, ValModel::Str(cs))),
                    Err(err) => Err(err),
                },
                Err(err) => Err(err),
            }
        } else if w == "true"@ {
            Ok((e, ValModel::Bool(true)))
        } else if w == "false"@ {
            Ok((e, ValModel::Bool(false)))
        } else if w == "nil"@ {
            Ok((e, ValModel::Nil))
        } else if w == "emptylist"@ {
            Ok((e, ValModel::EmptyList))
        } else {
            Err(LoadError::Malformed)
        }
    }
}

/// The models of a sequence of values.
pub open spec fn models(v: Seq<Val>) -> Seq<ValModel> {
    Seq::new(v.len(), |i: int| v[i].model())
}

/// One entry at `p` with the pool `lits`: its end, its instruction and the pool after it.
pub open spec fn entry(
    s: Seq<char>,
    p: int,
    t: Seq<(Seq<char>, InstructionParser, Opcodes)>,
    lits: Seq<ValModel>,
) -> Result<(int, Instruction, Seq<ValModel>), LoadError>
    decreases s.len() - p, 0nat,
{
    let (q, e) = word(s, p);
    if e == q {
        Err(LoadError::Malformed)
    } else if s.subrange(q, e) == ".load"@ {
        match bounded(s, e, usize::MAX as nat) {
            Ok((e1, reg)) => {
                let (q2, e2) = word(s, e1);
                if s.subrange(q2, e2) != "function"@ {
                    Err(LoadError::Malformed)
                } else {
                    match bounded(s, e2, i32::MAX as nat) {
                        Ok((e3, arity)) => match bounded(s, e3, i32::MAX as nat) {
                            Ok((e4, count)) => if e4 <= p || e4 > s.len() {
                                Err(LoadError::Malformed)
                            } else {
                                match body(s, e4, count, t, lits) {
                                    Ok((e5, ins, lits2)) => if lits2.len() + 1 >= usize::MAX {
                                        Err(LoadError::PoolFull)
                                    } else {
                                        let f = FnModel { arity: arity as i32, nregs: 0, size: count as i32, instructions: ins };
                                        Ok((e5, plain_literal(Opcodes::LoadLiteral, lits2.len(), reg), lits2.push(ValModel::Func(f))))
                                    },
                                    Err(err) => Err(err),
                                }
                            },
                            Err(err) => Err(err),
                        },
                        Err(err) => Err(err),
                    }
                }
            },
            Err(err) => Err(err),
        }
    } else {
        match find_entry(t, s.subrange(q, e)) {
            None => Err(LoadError::UnknownInstruction),
            Some((InstructionParser::R1Lit, op)) => match bounded(s, e, usize::MAX as nat) {
                Ok((e1, reg)) => match literal(s, e1) {
                    Ok((e2, v)) => if lits.len() + 1 >= usize::MAX {
                        Err(LoadError::PoolFull)
                    } else {
                        Ok((e2, plain_literal(op, lits.len(), reg), lits.push(v)))
                    },
                    Err(err) => Err(err),
                },
                Err(err) => Err(err),
            },
            Some((shape, op)) => match operands(s, e, shape, op) {
                Ok((e1, i)) => Ok((e1, i, lits)),
                Err(err) => Err(err),
            },
        }
    }
}

/// An instruction naming register `reg` and pool slot `slot`.
pub open spec fn plain_literal(op: Opcodes, slot: nat, reg: nat) -> Instruction {
    Instruction { opcode: op, r_x: reg as usize, r_y: 0, r_z: 0, slot: slot as usize, goto: 0 }
}

/// `k` entries starting at `p`: their end, instructions and the pool after them.
pub open spec fn body(
    s: Seq<char>,
    p: int,
    k: nat,
    t: Seq<(Seq<char>, InstructionParser, Opcodes)>,
    lits: Seq<ValModel>,
) -> Result<(int, Seq<Instruction>, Seq<ValModel>), LoadError>
    decreases s.len() - p, k + 1,
{
    if k == 0 {
        Ok((p, Seq::empty(), lits))
    } else {
        match entry(s, p, t, lits) {
            Ok((e, i, lits1)) => if e <= p || e > s.len() {
                Err(LoadError::Malformed)
            } else {
                match body(s, e, (k - 1) as nat, t, lits1) {
                    Ok((e2, rest, lits2)) => Ok((e2, seq![i].add(rest), lits2)),
                    Err(err) => Err(err),
                }
            },
            Err(err) => Err(err),
        }
    }
}

/// The whole program text: header, instruction count, then that many entries.
pub open spec fn program(
    s: Seq<char>,
    t: Seq<(Seq<char>, InstructionParser, Opcodes)>,
    lits: Seq<ValModel>,
) -> Result<(int, FnModel, Seq<ValModel>), LoadError> {
    let (q1, e1) = word(s, 0);
    let (q2, e2) = word(s, e1);
    if s.subrange(q1, e1) != ".load"@ || s.subrange(q2, e2) != "module"@ {
        Err(LoadError::MissingHeader)
    } else {
        match bounded(s, e2, i32::MAX as nat) {
            Ok((e3, count)) => match body(s, e3, count, t, lits) {
                Ok((e4, ins, lits2)) => Ok((e4, FnModel { arity: 0, nregs: 0, size: count as i32, instructions: ins }, lits2)),
                Err(err) => Err(err),
            },
            Err(err) => Err(err),
        }
    }
}

/// The table as the grammar reads it.
pub open spec fn table_view(t: Seq<(String, InstructionParser, Opcodes)>) -> Seq<(Seq<char>, InstructionParser, Opcodes)> {
    t.map_values(|e: (String, InstructionParser, Opcodes)| entry_view(e))
}

/// Everything of the machine but its literal pool is as before.
pub open spec fn pool_only(a: VMState, b: VMState) -> bool {
    &&& b.func == a.func
    &&& b.registers == a.registers
    &&& b.globals == a.globals
    &&& b.stack == a.stack
    &&& b.test_suite == a.test_suite
    &&& b.pc == a.pc
    &&& b.window == a.window
}

pub open spec fn lift(r: Result<(usize, usize), LoadError>) -> Result<(int, nat), LoadError> {
    match r {
        Ok((e, v)) => Ok((e as int, v as nat)),
        Err(err) => Err(err),
    }
}

fn scan_ws(s: &Vec<char>, p: usize) -> (r: usize)
    requires
        p <= s@.len(),
    ensures
        r == skip_ws(s@, p as int),
        p <= r <= s@.len(),
{
    let mut i = p;
    while i < s.len() && (s[i] == ' ' || s[i] == '\t' || s[i] == '\n' || s[i] == '\r')
        invariant
            p <= i <= s@.len(),
            skip_ws(s@, i as int) == skip_ws(s@, p as int),
        decreases s@.len() - i,
    {
        i += 1;
    }
    i
}

fn scan_digits(s: &Vec<char>, p: usize) -> (r: usize)
    requires
        p <= s@.len(),
    ensures
        r == digits_end(s@, p as int),
        p <= r <= s@.len(),
        forall|k: int| p <= k < r ==> is_digit(#[trigger] s@[k]),
{
    let mut i = p;
    while i < s.len() && ('0' <= s[i] && s[i] <= '9')
        invariant
            p <= i <= s@.len(),
            digits_end(s@, i as int) == digits_end(s@, p as int),
            forall|k: int| p <= k < i ==> is_digit(#[trigger] s@[k]),
        decreases s@.len() - i,
    {
        i += 1;
    }
    i
}

fn scan_alnum(s: &Vec<char>, p: usize) -> (r: usize)
    requires
        p <= s@.len(),
    ensures
        r == alnum_end(s@, p as int),
        p <= r <= s@.len(),
{
    let mut i = p;
    while i < s.len() && (('0' <= s[i] && s[i] <= '9') || ('a' <= s[i] && s[i] <= 'z') || ('A' <= s[i] && s[i] <= 'Z'))
        invariant
            p <= i <= s@.len(),
            alnum_end(s@, i as int) == alnum_end(s@, p as int),
        decreases s@.len() - i,
    {
        i += 1;
    }
    i
}

fn scan_token(s: &Vec<char>, p: usize) -> (r: usize)
    requires
        p <= s@.len(),
    ensures
        r == token_end(s@, p as int),
        p <= r <= s@.len(),
{
    let mut i = p;
    while i < s.len() && !(s[i] == ' ' || s[i] == '\t' || s[i] == '\n' || s[i] == '\r')
        invariant
            p <= i <= s@.len(),
            token_end(s@, i as int) == token_end(s@, p as int),
        decreases s@.len() - i,
    {
        i += 1;
    }
    i
}

proof fn lemma_decimal_grows(s: Seq<char>, p: int, i: int, e: int)
    requires
        p <= i <= e,
    ensures
        decimal(s, p, i) <= decimal(s, p, e),
    decreases e - i,
{
    if i < e {
        lemma_decimal_grows(s, p, i, e - 1);
    }
}

/// The value of the digits `s[q..e]`, when it fits in `bound`.
fn read_decimal(s: &Vec<char>, q: usize, e: usize, bound: usize) -> (r: Option<usize>)
    requires
        q <= e <= s@.len(),
        forall|k: int| q <= k < e ==> is_digit(#[trigger] s@[k]),
    ensures
        r is Some <==> decimal(s@, q as int, e as int) <= bound,
        r is Some ==> r->Some_0 == decimal(s@, q as int, e as int),
{
    let mut v: usize = 0;
    let mut i = q;
    while i < e
        invariant
            q <= i <= e <= s@.len(),
            forall|k: int| q <= k < e ==> is_digit(#[trigger] s@[k]),
            v == decimal(s@, q as int, i as int),
            v <= bound,
        decreases e - i,
    {
        let d = (s[i] as u32 - '0' as u32) as usize;
        assert(d == digit_value(s@[i as int]));
        assert(decimal(s@, q as int, i + 1) == v * 10 + d);
        if d > bound || v > (bound - d) / 10 {
            proof {
                assert(v * 10 + d > bound) by (nonlinear_arith)
                    requires d > bound || v > (bound - d) / 10, v >= 0, d >= 0;
                lemma_decimal_grows(s@, q as int, i + 1, e as int);
            }
            return None;
        }
        assert(v * 10 + d <= bound) by (nonlinear_arith)
            requires v <= (bound - d) / 10, d <= bound, v >= 0, d >= 0;
        v = v * 10 + d;
        i += 1;
    }
    Some(v)
}

/// Optional whitespace, then a number no larger than `bound`.
fn read_bounded(s: &Vec<char>, p: usize, bound: usize) -> (r: Result<(usize, usize), LoadError>)
    requires
        p <= s@.len(),
    ensures
        lift(r) == bounded(s@, p as int, bound as nat),
        r is Ok ==> p < r->Ok_0.0 <= s@.len(),
{
    let q = scan_ws(s, p);
    let e = scan_digits(s, q);
    if e == q {
        return Err(LoadError::Malformed);
    }
    match read_decimal(s, q, e, bound) {
        Some(v) => Ok((e, v)),
        None => Err(LoadError::Malformed),
    }
}

/// Whether `s[q..e]` spells `lit`.
fn token_is(s: &Vec<char>, q: usize, e: usize, lit: &str) -> (r: bool)
    requires
        q <= e <= s@.len(),
    ensures
        r == (s@.subrange(q as int, e as int) == lit@),
{
    let n = lit.unicode_len();
    if n != e - q {
        return false;
    }
    let mut i: usize = 0;
    while i < n
        invariant
            n == lit@.len(),
            n == e - q,
            q <= e <= s@.len(),
            i <= n,
            forall|k: int| 0 <= k < i ==> s@[q + k] == lit@[k],
        decreases n - i,
    {
        if s[q + i] != lit.get_char(i) {
            assert(s@.subrange(q as int, e as int)[i as int] != lit@[i as int]);
            return false;
        }
        i += 1;
    }
    assert(s@.subrange(q as int, e as int) =~= lit@);
    true
}

/// The shape and opcode of the first table entry named `s[q..e]`.
fn lookup(t: &Vec<(String, InstructionParser, Opcodes)>, s: &Vec<char>, q: usize, e: usize) -> (r: Option<(InstructionParser, Opcodes)>)
    requires
        q <= e <= s@.len(),
    ensures
        r == find_entry(table_view(t@), s@.subrange(q as int, e as int)),
{
    let ghost name = s@.subrange(q as int, e as int);
    assert(table_view(t@).subrange(0, t@.len() as int) =~= table_view(t@));
    let mut i: usize = 0;
    while i < t.len()
        invariant
            i <= t@.len(),
            q <= e <= s@.len(),
            name == s@.subrange(q as int, e as int),
            find_entry(table_view(t@), name) == find_entry(table_view(t@).subrange(i as int, t@.len() as int), name),
        decreases t@.len() - i,
    {
        let ghost rest = table_view(t@).subrange(i as int, t@.len() as int);
        assert(rest.drop_first() =~= table_view(t@).subrange(i + 1, t@.len() as int));
        assert(rest[0] == entry_view(t@[i as int]));
        if token_is(s, q, e, t[i].0.as_str()) {
            return Some((t[i].1, t[i].2));
        }
        i += 1;
    }
    assert(table_view(t@).subrange(i as int, t@.len() as int).len() == 0);
    None
}

pub open spec fn lift_ins(r: Result<(usize, Instruction), LoadError>) -> Result<(int, Instruction), LoadError> {
    match r {
        Ok((e, i)) => Ok((e as int, i)),
        Err(err) => Err(err),
    }
}

/// The operands of a non-literal instruction.
fn read_operands(s: &Vec<char>, p: usize, shape: InstructionParser, op: Opcodes) -> (r: Result<(usize, Instruction), LoadError>)
    requires
        p <= s@.len(),
        shape != InstructionParser::R1Lit,
    ensures
        lift_ins(r) == operands(s@, p as int, shape, op),
        r is Ok ==> p <= r->Ok_0.0 <= s@.len(),
{
    let m = usize::MAX;
    match shape {
        InstructionParser::R0 => Ok((p, Instruction { opcode: op, r_x: 0, r_y: 0, r_z: 0, slot: 0, goto: 0 })),
        InstructionParser::R1 => {
            let (e, x) = read_bounded(s, p, m)?;
            Ok((e, Instruction { opcode: op, r_x: x, r_y: 0, r_z: 0, slot: 0, goto: 0 }))
        },
        InstructionParser::R2 => {
            let (e1, x) = read_bounded(s, p, m)?;
            let (e2, y) = read_bounded(s, e1, m)?;
            Ok((e2, Instruction { opcode: op, r_x: x, r_y: y, r_z: 0, slot: 0, goto: 0 }))
        },
        InstructionParser::R3 => {
            let (e1, x) = read_bounded(s, p, m)?;
            let (e2, y) = read_bounded(s, e1, m)?;
            let (e3, z) = read_bounded(s, e2, m)?;
            Ok((e3, Instruction { opcode: op, r_x: x, r_y: y, r_z: z, slot: 0, goto: 0 }))
        },
        _ => {
            let q = scan_ws(s, p);
            let neg = q < s.len() && s[q] == '-';
            let d = if neg { q + 1 } else { q };
            let (e, v) = read_bounded(s, d, 2147483647)?;
            let g: i32 = if neg { -(v as i32) } else { v as i32 };
            Ok((e, Instruction { opcode: op, r_x: 0, r_y: 0, r_z: 0, slot: 0, goto: g }))
        },
    }
}

/// Relies on `String`'s `FromIterator<char>`: the string holds the characters in order.
#[verifier::external_body]
fn string_from_chars(cs: Vec<char>) -> (r: String)
    ensures
        r@ == cs@,
{
    cs.into_iter().collect()
}

/// `k` byte tokens read as character codes.
fn read_byte_codes(s: &Vec<char>, p: usize, k: usize) -> (r: Result<(usize, Vec<char>), LoadError>)
    requires
        p <= s@.len(),
    ensures
        match r {
            Ok((e, cs)) => byte_codes(s@, p as int, k as nat) == Ok::<(int, Seq<char>), LoadError>((e as int, cs@)) && p <= e <= s@.len(),
            Err(err) => byte_codes(s@, p as int, k as nat) == Err::<(int, Seq<char>), LoadError>(err),
        },
{
    let mut cs: Vec<char> = Vec::new();
    let mut pos = p;
    let mut i: usize = 0;
    while i < k
        invariant
            i <= k,
            p <= pos <= s@.len(),
            byte_codes(s@, p as int, i as nat) == Ok::<(int, Seq<char>), LoadError>((pos as int, cs@)),
        decreases k - i,
    {
        let q = scan_ws(s, pos);
        let f = scan_alnum(s, q);
        let g = scan_digits(s, q);
        if f == q || g != f {
            assert(byte_codes(s@, p as int, (i + 1) as nat) == Err::<(int, Seq<char>), LoadError>(LoadError::Malformed));
            proof { lemma_byte_codes_fail(s@, p as int, (i + 1) as nat, k as nat); }
            return Err(LoadError::Malformed);
        }
        match read_decimal(s, q, f, 255) {
            Some(v) => {
                cs.push(v as u8 as char);
                pos = f;
            },
            None => {
                assert(byte_codes(s@, p as int, (i + 1) as nat) == Err::<(int, Seq<char>), LoadError>(LoadError::Malformed));
                proof { lemma_byte_codes_fail(s@, p as int, (i + 1) as nat, k as nat); }
                return Err(LoadError::Malformed);
            },
        }
        i += 1;
    }
    Ok((pos, cs))
}

proof fn lemma_byte_codes_fail(s: Seq<char>, p: int, i: nat, k: nat)
    requires
        i <= k,
        byte_codes(s, p, i) is Err,
    ensures
        byte_codes(s, p, k) == byte_codes(s, p, i),
    decreases k - i,
{
    if i < k {
        lemma_byte_codes_fail(s, p, i, (k - 1) as nat);
    }
}

/// The literal operand at `p`, as a value.
fn read_literal(s: &Vec<char>, p: usize) -> (r: Result<(usize, Val), LoadError>)
    requires
        p <= s@.len(),
    ensures
        match r {
            Ok((e, v)) => literal(s@, p as int) == Ok::<(int, ValModel), LoadError>((e as int, v.model())) && p <= e <= s@.len(),
            Err(err) => literal(s@, p as int) == Err::<(int, ValModel), LoadError>(err),
        },
{
    let q = scan_ws(s, p);
    if q >= s.len() {
        return Err(LoadError::Malformed);
    }
    if '0' <= s[q] && s[q] <= '9' {
        let (e, v) = read_bounded(s, q, 2147483647)?;
        return Ok((e, Val::Num(v as i32)));
    }
    let e = scan_alnum(s, q);
    if token_is(s, q, e, "string") {
        let (e1, k) = read_bounded(s, e, usize::MAX)?;
        let (e2, cs) = read_byte_codes(s, e1, k)?;
        Ok((e2, Val::String(string_from_chars(cs))))
    } else if token_is(s, q, e, "true") {
        Ok((e, Val::Bool(true)))
    } else if token_is(s, q, e, "false") {
        Ok((e, Val::Bool(false)))
    } else if token_is(s, q, e, "nil") {
        Ok((e, Val::Nil))
    } else if token_is(s, q, e, "emptylist") {
        Ok((e, Val::EmptyList))
    } else {
        Err(LoadError::Malformed)
    }
}

proof fn lemma_models_push(v: Seq<Val>, x: Val)
    ensures
        models(v.push(x)) == models(v).push(x.model()),
{
    assert(models(v.push(x)) =~= models(v).push(x.model()));
}

/// Appends `v` to the pool, checking that the pool can grow.
fn push_literal(vm: &mut VMState, v: Val) -> (r: Result<usize, LoadError>)
    ensures
        pool_only(*old(vm), *final(vm)),
        old(vm).literals@.len() + 1 >= usize::MAX ==> r == Err::<usize, LoadError>(LoadError::PoolFull) && final(vm).literals == old(vm).literals,
        old(vm).literals@.len() + 1 < usize::MAX ==> r == Ok::<usize, LoadError>(old(vm).literals@.len() as usize)
            && models(final(vm).literals@) == models(old(vm).literals@).push(v.model()),
{
    if vm.literals.len() >= usize::MAX - 1 {
        return Err(LoadError::PoolFull);
    }
    proof {
        lemma_models_push(vm.literals@, v);
    }
    let slot = vm.literal_slot(v);
    Ok(slot)
}

/// One entry at `p`: a nested function or a plain instruction.
fn parse_instruction(
    s: &Vec<char>,
    p: usize,
    t: &Vec<(String, InstructionParser, Opcodes)>,
    vm: &mut VMState,
) -> (r: Result<(usize, Instruction), LoadError>)
    requires
        p <= s@.len(),
    ensures
        pool_only(*old(vm), *final(vm)),
        match r {
            Ok((e, i)) => entry(s@, p as int, table_view(t@), models(old(vm).literals@))
                == Ok::<(int, Instruction, Seq<ValModel>), LoadError>((e as int, i, models(final(vm).literals@)))
                && p < e <= s@.len(),
            Err(err) => entry(s@, p as int, table_view(t@), models(old(vm).literals@))
                == Err::<(int, Instruction, Seq<ValModel>), LoadError>(err),
        },
    decreases s@.len() - p, 0int,
{
    let q = scan_ws(s, p);
    let e = scan_token(s, q);
    if e == q {
        return Err(LoadError::Malformed);
    }
    if token_is(s, q, e, ".load") {
        let (e1, reg) = read_bounded(s, e, usize::MAX)?;
        let q2 = scan_ws(s, e1);
        let e2 = scan_token(s, q2);
        if !token_is(s, q2, e2, "function") {
            return Err(LoadError::Malformed);
        }
        let (e3, arity) = read_bounded(s, e2, 2147483647)?;
        let (e4, count) = read_bounded(s, e3, 2147483647)?;
        if e4 <= p || e4 > s.len() {
            return Err(LoadError::Malformed);
        }
        let (e5, func) = parse_module(arity as i32, count as i32, s, e4, t, vm)?;
        let slot = push_literal(vm, Val::VMFunction(func))?;
        Ok((e5, Instruction::eru16(Opcodes::LoadLiteral, slot, reg)))
    } else {
        match lookup(t, s, q, e) {
            None => Err(LoadError::UnknownInstruction),
            Some((InstructionParser::R1Lit, op)) => {
                let (e1, reg) = read_bounded(s, e, usize::MAX)?;
                let (e2, v) = read_literal(s, e1)?;
                let slot = push_literal(vm, v)?;
                Ok((e2, Instruction::eru16(op, slot, reg)))
            },
            Some((shape, op)) => {
                let (e1, i) = read_operands(s, e, shape, op)?;
                Ok((e1, i))
            },
        }
    }
}

/// `count` entries from `p`, gathered into a function of the given arity.
fn parse_module(
    arity: i32,
    count: i32,
    s: &Vec<char>,
    p: usize,
    t: &Vec<(String, InstructionParser, Opcodes)>,
    vm: &mut VMState,
) -> (r: Result<(usize, VMFunction), LoadError>)
    requires
        p <= s@.len(),
        count >= 0,
    ensures
        pool_only(*old(vm), *final(vm)),
        match r {
            Ok((e, f)) => body(s@, p as int, count as nat, table_view(t@), models(old(vm).literals@))
                == Ok::<(int, Seq<Instruction>, Seq<ValModel>), LoadError>((e as int, f.instructions@, models(final(vm).literals@)))
                && f.arity == arity && f.size == count && f.nregs == 0
                && p <= e <= s@.len(),
            Err(err) => body(s@, p as int, count as nat, table_view(t@), models(old(vm).literals@))
                == Err::<(int, Seq<Instruction>, Seq<ValModel>), LoadError>(err),
        },
    decreases s@.len() - p, count as int + 1,
{
    let ghost tv = table_view(t@);
    let ghost lits0 = models(vm.literals@);
    let mut instructions: Vec<Instruction> = Vec::new();
    let mut pos = p;
    let mut i: i32 = 0;
    assert forall|rest: Seq<Instruction>| instructions@.add(rest) =~= rest by {}
    while i < count
        invariant
            0 <= i <= count,
            tv == table_view(t@),
            lits0 == models(old(vm).literals@),
            p <= pos <= s@.len(),
            i > 0 ==> pos > p,
            pool_only(*old(vm), *vm),
            body(s@, p as int, count as nat, tv, lits0) == match body(s@, pos as int, (count - i) as nat, tv, models(vm.literals@)) {
                Ok((e2, rest, l2)) => Ok::<(int, Seq<Instruction>, Seq<ValModel>), LoadError>((e2, instructions@.add(rest), l2)),
                Err(err) => Err(err),
            },
        decreases count - i,
    {
        let ghost before = instructions@;
        let ghost lits_before = models(vm.literals@);
        let res = parse_instruction(s, pos, t, vm);
        let (e, ins) = match res {
            Ok(x) => x,
            Err(err) => {
                assert(body(s@, pos as int, (count - i) as nat, tv, lits_before) == Err::<(int, Seq<Instruction>, Seq<ValModel>), LoadError>(err));
                return Err(err);
            },
        };
        proof {
            let k = (count - i) as nat;
            assert(body(s@, pos as int, k, tv, lits_before) == match body(s@, e as int, (k - 1) as nat, tv, models(vm.literals@)) {
                Ok((e2, rest, l2)) => Ok::<(int, Seq<Instruction>, Seq<ValModel>), LoadError>((e2, seq![ins].add(rest), l2)),
                Err(err) => Err(err),
            });
            assert forall|rest: Seq<Instruction>| before.add(seq![ins].add(rest)) =~= before.push(ins).add(rest) by {}
        }
        instructions.push(ins);
        pos = e;
        i += 1;
    }
    assert(instructions@.add(Seq::<Instruction>::empty()) =~= instructions@);
    Ok((pos, VMFunction { arity, nregs: 0, size: count, instructions }))
}

/// Loads a whole program text, interning its literals into `vm`'s pool.
pub fn parse_modules(
    s: &Vec<char>,
    parser_map: &Vec<(String, InstructionParser, Opcodes)>,
    vm: &mut VMState,
) -> (r: Result<(usize, VMFunction), LoadError>)
    ensures
        pool_only(*old(vm), *final(vm)),
        match r {
            Ok((e, f)) => program(s@, table_view(parser_map@), models(old(vm).literals@))
                == Ok::<(int, FnModel, Seq<ValModel>), LoadError>((e as int, f.model(), models(final(vm).literals@))),
            Err(err) => program(s@, table_view(parser_map@), models(old(vm).literals@))
                == Err::<(int, FnModel, Seq<ValModel>), LoadError>(err),
        },
{
    let q1 = scan_ws(s, 0);
    let e1 = scan_token(s, q1);
    let q2 = scan_ws(s, e1);
    let e2 = scan_token(s, q2);
    if !token_is(s, q1, e1, ".load") || !token_is(s, q2, e2, "module") {
        return Err(LoadError::MissingHeader);
    }
    let (e3, count) = read_bounded(s, e2, 2147483647)?;
    parse_module(0, count as i32, s, e3, parser_map, vm)
}

} // verus!
