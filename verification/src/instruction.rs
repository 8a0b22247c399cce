//! The typed instruction model: registers, operands and instructions.

use crate::text::{chars_eq, ends_with, starts_with, str_eq, to_chars, trim, trim_bounds};
use vstd::prelude::*;

verus! {

/// The number of registers of the machine.
pub const NUM_REGISTERS: usize = 17;

/// The registers, in the order of their ordinals.
#[derive(Debug, Clone, Copy, PartialEq, Eq, Structural)]
pub enum Register {
    Eax,
    Ebx,
    Ecx,
    Edx,
    Esi,
    Edi,
    Esp,
    Ebp,
    Eip,
    R08,
    R09,
    R10,
    R11,
    R12,
    R13,
    R14,
    R15,
}

impl Register {
    /// The fixed position of the register in the register file.
    pub open spec fn ordinal(self) -> int {
        match self {
            Register::Eax => 0,
            Register::Ebx => 1,
            Register::Ecx => 2,
            Register::Edx => 3,
            Register::Esi => 4,
            Register::Edi => 5,
            Register::Esp => 6,
            Register::Ebp => 7,
            Register::Eip => 8,
            Register::R08 => 9,
            Register::R09 => 10,
            Register::R10 => 11,
            Register::R11 => 12,
            Register::R12 => 13,
            Register::R13 => 14,
            Register::R14 => 15,
            Register::R15 => 16,
        }
    }

    /// The fixed position of the register in the register file.
    pub fn index(self) -> (i: usize)
        ensures
            i == self.ordinal(),
            i < NUM_REGISTERS,
    {
        match self {
            Register::Eax => 0,
            Register::Ebx => 1,
            Register::Ecx => 2,
            Register::Edx => 3,
            Register::Esi => 4,
            Register::Edi => 5,
            Register::Esp => 6,
            Register::Ebp => 7,
            Register::Eip => 8,
            Register::R08 => 9,
            Register::R09 => 10,
            Register::R10 => 11,
            Register::R11 => 12,
            Register::R12 => 13,
            Register::R13 => 14,
            Register::R14 => 15,
            Register::R15 => 16,
        }
    }
}

/// A read-only operand.
#[derive(Debug, Clone, Copy, PartialEq, Eq, Structural)]
pub enum Source {
    Register(Register),
    Value(i32),
    Address(i32),
}

/// A writable operand.
#[derive(Debug, Clone, Copy, PartialEq, Eq, Structural)]
pub enum Target {
    Register(Register),
    Address(i32),
}

/// A fully resolved instruction.
#[derive(Debug, Clone, Copy, PartialEq, Eq, Structural)]
pub enum Instruction {
    Nop,
    Int,
    Mov(Target, Source),
    Push(Source),
    Pop(Target),
    Pushf,
    Popf,
    Inc(Target),
    Dec(Target),
    Add(Target, Source),
    Sub(Target, Source),
    Mul(Target, Source),
    Div(Target, Source),
    Mod(Source, Source),
    Rem(Target),
    Not(Target),
    Xor(Target, Source),
    Or(Target, Source),
    And(Target, Source),
    Shl(Target, Source),
    Shr(Target, Source),
    Cmp(Source, Source),
    Jmp(Source),
    Call(Source),
    Ret,
    Je(Source),
    Jne(Source),
    Jg(Source),
    Jge(Source),
    Jl(Source),
    Jle(Source),
    Prn(Source),
}

/// The mnemonics, in the order of their codes.
#[derive(Debug, Clone, Copy, PartialEq, Eq, Structural)]
pub enum OpCode {
    Nop,
    Int,
    Mov,
    Push,
    Pop,
    Pushf,
    Popf,
    Inc,
    Dec,
    Add,
    Sub,
    Mul,
    Div,
    Mod,
    Rem,
    Not,
    Xor,
    Or,
    And,
    Shl,
    Shr,
    Cmp,
    Jmp,
    Call,
    Ret,
    Je,
    Jne,
    Jg,
    Jge,
    Jl,
    Jle,
    Prn,
}

/// An operand as one token gives it: a register, an immediate value or an
/// address.
#[derive(Debug, Clone, Copy, PartialEq, Eq, Structural)]
pub enum Operand {
    Register(Register),
    Value(i32),
    Address(usize),
}

/// The value of the digit `c` in base `radix`: decimal digits and the
/// lowercase letters `a` to `f`.
pub open spec fn digit_value(c: char, radix: int) -> Option<int> {
    let v: int = if '0' <= c <= '9' {
        c as u32 - '0' as u32
    } else if 'a' <= c <= 'f' {
        c as u32 - 'a' as u32 + 10
    } else {
        radix
    };
    if v < radix {
        Some(v)
    } else {
        None
    }
}

/// The number that the digits `s` write in base `radix`: none for an empty
/// sequence or one that holds anything but digits of that base.
pub open spec fn digits_value(s: Seq<char>, radix: int) -> Option<int>
    decreases s.len(),
{
    if s.len() == 0 {
        None
    } else if s.len() == 1 {
        digit_value(s[0], radix)
    } else {
        match (digits_value(s.drop_last(), radix), digit_value(s.last(), radix)) {
            (Some(high), Some(low)) => Some(high * radix + low),
            _ => None,
        }
    }
}

/// The number that an unsigned literal writes: `0x` and hexadecimal digits;
/// hexadecimal digits and `h` or `|h`; binary digits and `b` or `|b`;
/// otherwise decimal digits.
pub open spec fn magnitude(s: Seq<char>) -> Option<int> {
    if starts_with(s, seq!['0', 'x']) {
        digits_value(s.skip(2), 16)
    } else if ends_with(s, seq!['|', 'h']) {
        digits_value(s.take(s.len() - 2), 16)
    } else if ends_with(s, seq!['h']) {
        digits_value(s.take(s.len() - 1), 16)
    } else if ends_with(s, seq!['|', 'b']) {
        digits_value(s.take(s.len() - 2), 2)
    } else if ends_with(s, seq!['b']) {
        digits_value(s.take(s.len() - 1), 2)
    } else {
        digits_value(s, 10)
    }
}

/// The value of a numeric literal: an optional `-` and an unsigned literal,
/// where the value fits in 32 bits. A negated `0x` literal is the negation
/// of a literal that fits by itself.
pub open spec fn literal_value(s: Seq<char>) -> Option<i32> {
    let negative = s.len() > 0 && s[0] == '-';
    let body = if negative {
        s.skip(1)
    } else {
        s
    };
    match magnitude(body) {
        None => None,
        Some(m) => {
            let v = if negative {
                -m
            } else {
                m
            };
            if i32::MIN <= v <= i32::MAX && !(negative && starts_with(body, seq!['0', 'x']) && m
                > i32::MAX) {
                Some(v as i32)
            } else {
                None
            }
        },
    }
}

/// The digits of a number are never negative, and more digits never write
/// a smaller number.
pub proof fn lemma_digits_value_grows(s: Seq<char>, radix: int, n: int)
    requires
        2 <= radix,
        1 <= n <= s.len(),
        digits_value(s, radix) is Some,
    ensures
        digits_value(s.take(n), radix) is Some,
        0 <= digits_value(s.take(n), radix)->0 <= digits_value(s, radix)->0,
    decreases s.len(),
{
    if s.len() == 1 {
        assert(s.take(n) =~= s);
    } else if n == s.len() {
        assert(s.take(n) =~= s);
        lemma_digits_value_grows(s.drop_last(), radix, s.len() - 1);
        assert(s.drop_last().take(s.len() - 1) =~= s.drop_last());
        let high = digits_value(s.drop_last(), radix)->0;
        assert(high * radix >= 0) by (nonlinear_arith)
            requires
                high >= 0,
                radix >= 2,
        ;
    } else {
        lemma_digits_value_grows(s.drop_last(), radix, n);
        assert(s.drop_last().take(n) =~= s.take(n));
        let high = digits_value(s.drop_last(), radix)->0;
        assert(high * radix >= high) by (nonlinear_arith)
            requires
                high >= 0,
                radix >= 2,
        ;
    }
}

/// The value of the digit `c` in base `radix`.
fn digit(c: char, radix: u32) -> (v: Option<u32>)
    requires
        2 <= radix <= 16,
    ensures
        match v {
            Some(d) => digit_value(c, radix as int) == Some(d as int) && d < radix,
            None => digit_value(c, radix as int) is None,
        },
{
    let n: u32 = c as u32;
    let d: u32 = if '0' <= c && c <= '9' {
        n - ('0' as u32)
    } else if 'a' <= c && c <= 'f' {
        n - ('a' as u32) + 10
    } else {
        radix
    };
    if d < radix {
        Some(d)
    } else {
        None
    }
}

/// The number that `s[from..to]` writes in base `radix`, if that number is
/// at most `2^31`.
fn digits(s: &[char], from: usize, to: usize, radix: u32) -> (v: Option<u32>)
    requires
        from <= to <= s@.len(),
        2 <= radix <= 16,
    ensures
        match v {
            Some(n) => digits_value(s@.subrange(from as int, to as int), radix as int) == Some(
                n as int,
            ) && n <= 0x8000_0000,
            None => match digits_value(s@.subrange(from as int, to as int), radix as int) {
                Some(n) => n > 0x8000_0000,
                None => true,
            },
        },
{
    let ghost whole = s@.subrange(from as int, to as int);
    if from == to {
        return None;
    }
    let mut acc: u64 = 0;
    let mut i: usize = from;
    while i < to
        invariant
            from <= i <= to <= s@.len(),
            2 <= radix <= 16,
            whole == s@.subrange(from as int, to as int),
            acc <= 0x8000_0000,
            i > from ==> digits_value(whole.take(i - from), radix as int) == Some(acc as int),
            i == from ==> acc == 0,
        decreases to - i,
    {
        let d = match digit(s[i], radix) {
            Some(d) => d,
            None => {
                proof {
                    lemma_digits_value_rejects(whole, radix as int, i - from);
                }
                return None;
            },
        };
        assert(acc * radix <= 0x8000_0000 * 16) by (nonlinear_arith)
            requires
                acc <= 0x8000_0000,
                radix <= 16,
        ;
        let next: u64 = acc * (radix as u64) + (d as u64);
        proof {
            let prefix = whole.take(i + 1 - from);
            assert(prefix.drop_last() =~= whole.take(i - from));
            assert(prefix.last() == s@[i as int]);
            assert(digit_value(prefix.last(), radix as int) == Some(d as int));
            if i == from {
                assert(prefix.len() == 1);
                assert(prefix[0] == prefix.last());
            } else {
                assert(prefix.len() > 1);
                assert(digits_value(prefix.drop_last(), radix as int) == Some(acc as int));
            }
            assert(digits_value(prefix, radix as int) == Some(next as int));
        }
        if next > 0x8000_0000 {
            proof {
                if digits_value(whole, radix as int) is Some {
                    lemma_digits_value_grows(whole, radix as int, i + 1 - from);
                }
            }
            return None;
        }
        acc = next;
        i += 1;
    }
    assert(whole.take(to - from) =~= whole);
    Some(acc as u32)
}

/// A sequence that holds something that is no digit writes no number.
proof fn lemma_digits_value_rejects(s: Seq<char>, radix: int, at: int)
    requires
        0 <= at < s.len(),
        digit_value(s[at], radix) is None,
    ensures
        digits_value(s, radix) is None,
    decreases s.len(),
{
    if s.len() > 1 && at < s.len() - 1 {
        lemma_digits_value_rejects(s.drop_last(), radix, at);
    }
}

/// Whether `s[from..to]` ends with the two characters `a` and `b`.
fn ends_with_pair(s: &[char], from: usize, to: usize, a: char, b: char) -> (yes: bool)
    requires
        from <= to <= s@.len(),
    ensures
        yes == ends_with(s@.subrange(from as int, to as int), seq![a, b]),
{
    let ghost whole = s@.subrange(from as int, to as int);
    if to - from >= 2 && s[to - 2] == a && s[to - 1] == b {
        assert(whole.subrange(whole.len() - 2, whole.len() as int) =~= seq![a, b]);
        true
    } else {
        proof {
            if to - from >= 2 {
                let tail = whole.subrange(whole.len() - 2, whole.len() as int);
                assert(tail[0] == s@[to - 2] && tail[1] == s@[to - 1]);
                assert(seq![a, b][0] == a && seq![a, b][1] == b);
            }
        }
        false
    }
}

/// Whether `s[from..to]` ends with the character `a`.
fn ends_with_one(s: &[char], from: usize, to: usize, a: char) -> (yes: bool)
    requires
        from <= to <= s@.len(),
    ensures
        yes == ends_with(s@.subrange(from as int, to as int), seq![a]),
{
    let ghost whole = s@.subrange(from as int, to as int);
    if to - from >= 1 && s[to - 1] == a {
        assert(whole.subrange(whole.len() - 1, whole.len() as int) =~= seq![a]);
        true
    } else {
        proof {
            if to - from >= 1 {
                let tail = whole.subrange(whole.len() - 1, whole.len() as int);
                assert(tail[0] == s@[to - 1]);
                assert(seq![a][0] == a);
            }
        }
        false
    }
}

/// Whether `s[from..to]` starts with the two characters `a` and `b`.
fn starts_with_pair(s: &[char], from: usize, to: usize, a: char, b: char) -> (yes: bool)
    requires
        from <= to <= s@.len(),
    ensures
        yes == starts_with(s@.subrange(from as int, to as int), seq![a, b]),
{
    let ghost whole = s@.subrange(from as int, to as int);
    if to - from >= 2 && s[from] == a && s[from + 1] == b {
        assert(whole.subrange(0, 2) =~= seq![a, b]);
        true
    } else {
        proof {
            if to - from >= 2 {
                let head = whole.subrange(0, 2);
                assert(head[0] == s@[from as int] && head[1] == s@[from + 1]);
                assert(seq![a, b][0] == a && seq![a, b][1] == b);
            }
        }
        false
    }
}

/// The number that the unsigned literal `s[from..to]` writes, if it is at
/// most `2^31`, and whether the literal starts with `0x`.
fn unsigned_literal(s: &[char], from: usize, to: usize) -> (r: (Option<u32>, bool))
    requires
        from <= to <= s@.len(),
    ensures
        r.1 == starts_with(s@.subrange(from as int, to as int), seq!['0', 'x']),
        match r.0 {
            Some(n) => magnitude(s@.subrange(from as int, to as int)) == Some(n as int) && n
                <= 0x8000_0000,
            None => match magnitude(s@.subrange(from as int, to as int)) {
                Some(n) => n > 0x8000_0000,
                None => true,
            },
        },
{
    let ghost whole = s@.subrange(from as int, to as int);
    if starts_with_pair(s, from, to, '0', 'x') {
        assert(whole.skip(2) =~= s@.subrange(from + 2, to as int));
        (digits(s, from + 2, to, 16), true)
    } else if ends_with_pair(s, from, to, '|', 'h') {
        assert(whole.take(whole.len() - 2) =~= s@.subrange(from as int, to - 2));
        (digits(s, from, to - 2, 16), false)
    } else if ends_with_one(s, from, to, 'h') {
        assert(whole.take(whole.len() - 1) =~= s@.subrange(from as int, to - 1));
        (digits(s, from, to - 1, 16), false)
    } else if ends_with_pair(s, from, to, '|', 'b') {
        assert(whole.take(whole.len() - 2) =~= s@.subrange(from as int, to - 2));
        (digits(s, from, to - 2, 2), false)
    } else if ends_with_one(s, from, to, 'b') {
        assert(whole.take(whole.len() - 1) =~= s@.subrange(from as int, to - 1));
        (digits(s, from, to - 1, 2), false)
    } else {
        (digits(s, from, to, 10), false)
    }
}

/// The value of the numeric literal `s[from..to]`.
pub fn parse_literal(s: &[char], from: usize, to: usize) -> (v: Option<i32>)
    requires
        from <= to <= s@.len(),
    ensures
        v == literal_value(s@.subrange(from as int, to as int)),
{
    let ghost whole = s@.subrange(from as int, to as int);
    let negative = from < to && s[from] == '-';
    let start: usize = if negative {
        from + 1
    } else {
        from
    };
    proof {
        if negative {
            assert(whole.skip(1) =~= s@.subrange(start as int, to as int));
        }
    }
    let (m, prefixed) = unsigned_literal(s, start, to);
    match m {
        None => None,
        Some(n) => {
            if negative {
                if n == 0x8000_0000 {
                    if prefixed {
                        None
                    } else {
                        Some(i32::MIN)
                    }
                } else {
                    Some(-(n as i32))
                }
            } else if n == 0x8000_0000 {
                None
            } else {
                Some(n as i32)
            }
        },
    }
}

/// The value of a numeric literal.
pub fn parse_value(value: &str) -> (v: Option<i32>)
    ensures
        v == literal_value(value@),
{
    let chars = to_chars(value);
    assert(chars@.subrange(0, chars@.len() as int) =~= chars@);
    parse_literal(chars.as_slice(), 0, chars.len())
}

/// Whether the characters `s` spell `word`.
pub fn is_word(s: &[char], word: &str) -> (yes: bool)
    ensures
        yes == (s@ == word@),
{
    let w = to_chars(word);
    chars_eq(s, w.as_slice())
}

/// The register that `s` names: the lowercase register names.
#[verifier::opaque]
pub open spec fn register_named(s: Seq<char>) -> Option<Register> {
    if s == "eax"@ {
        Some(Register::Eax)
    } else if s == "ebx"@ {
        Some(Register::Ebx)
    } else if s == "ecx"@ {
        Some(Register::Ecx)
    } else if s == "edx"@ {
        Some(Register::Edx)
    } else if s == "esi"@ {
        Some(Register::Esi)
    } else if s == "edi"@ {
        Some(Register::Edi)
    } else if s == "esp"@ {
        Some(Register::Esp)
    } else if s == "ebp"@ {
        Some(Register::Ebp)
    } else if s == "eip"@ {
        Some(Register::Eip)
    } else if s == "r08"@ {
        Some(Register::R08)
    } else if s == "r09"@ {
        Some(Register::R09)
    } else if s == "r10"@ {
        Some(Register::R10)
    } else if s == "r11"@ {
        Some(Register::R11)
    } else if s == "r12"@ {
        Some(Register::R12)
    } else if s == "r13"@ {
        Some(Register::R13)
    } else if s == "r14"@ {
        Some(Register::R14)
    } else if s == "r15"@ {
        Some(Register::R15)
    } else {
        None
    }
}

/// The register that the characters `name` spell.
pub fn register_of(name: &[char]) -> (r: Option<Register>)
    ensures
        r == register_named(name@),
{
    reveal(register_named);
    if is_word(name, "eax") {
        Some(Register::Eax)
    } else if is_word(name, "ebx") {
        Some(Register::Ebx)
    } else if is_word(name, "ecx") {
        Some(Register::Ecx)
    } else if is_word(name, "edx") {
        Some(Register::Edx)
    } else if is_word(name, "esi") {
        Some(Register::Esi)
    } else if is_word(name, "edi") {
        Some(Register::Edi)
    } else if is_word(name, "esp") {
        Some(Register::Esp)
    } else if is_word(name, "ebp") {
        Some(Register::Ebp)
    } else if is_word(name, "eip") {
        Some(Register::Eip)
    } else if is_word(name, "r08") {
        Some(Register::R08)
    } else if is_word(name, "r09") {
        Some(Register::R09)
    } else if is_word(name, "r10") {
        Some(Register::R10)
    } else if is_word(name, "r11") {
        Some(Register::R11)
    } else if is_word(name, "r12") {
        Some(Register::R12)
    } else if is_word(name, "r13") {
        Some(Register::R13)
    } else if is_word(name, "r14") {
        Some(Register::R14)
    } else if is_word(name, "r15") {
        Some(Register::R15)
    } else {
        None
    }
}

/// The mnemonic that `s` spells: the lowercase mnemonics.
#[verifier::opaque]
pub open spec fn opcode_named(s: Seq<char>) -> Option<OpCode> {
    if s == "nop"@ {
        Some(OpCode::Nop)
    } else if s == "int"@ {
        Some(OpCode::Int)
    } else if s == "mov"@ {
        Some(OpCode::Mov)
    } else if s == "push"@ {
        Some(OpCode::Push)
    } else if s == "pop"@ {
        Some(OpCode::Pop)
    } else if s == "pushf"@ {
        Some(OpCode::Pushf)
    } else if s == "popf"@ {
        Some(OpCode::Popf)
    } else if s == "inc"@ {
        Some(OpCode::Inc)
    } else if s == "dec"@ {
        Some(OpCode::Dec)
    } else if s == "add"@ {
        Some(OpCode::Add)
    } else if s == "sub"@ {
        Some(OpCode::Sub)
    } else if s == "mul"@ {
        Some(OpCode::Mul)
    } else if s == "div"@ {
        Some(OpCode::Div)
    } else if s == "mod"@ {
        Some(OpCode::Mod)
    } else if s == "rem"@ {
        Some(OpCode::Rem)
    } else if s == "not"@ {
        Some(OpCode::Not)
    } else if s == "xor"@ {
        Some(OpCode::Xor)
    } else if s == "or"@ {
        Some(OpCode::Or)
    } else if s == "and"@ {
        Some(OpCode::And)
    } else if s == "shl"@ {
        Some(OpCode::Shl)
    } else if s == "shr"@ {
        Some(OpCode::Shr)
    } else if s == "cmp"@ {
        Some(OpCode::Cmp)
    } else if s == "jmp"@ {
        Some(OpCode::Jmp)
    } else if s == "call"@ {
        Some(OpCode::Call)
    } else if s == "ret"@ {
        Some(OpCode::Ret)
    } else if s == "je"@ {
        Some(OpCode::Je)
    } else if s == "jne"@ {
        Some(OpCode::Jne)
    } else if s == "jg"@ {
        Some(OpCode::Jg)
    } else if s == "jge"@ {
        Some(OpCode::Jge)
    } else if s == "jl"@ {
        Some(OpCode::Jl)
    } else if s == "jle"@ {
        Some(OpCode::Jle)
    } else if s == "prn"@ {
        Some(OpCode::Prn)
    } else {
        None
    }
}

/// The mnemonic that the characters `name` spell.
pub fn opcode_of(name: &[char]) -> (r: Option<OpCode>)
    ensures
        r == opcode_named(name@),
{
    reveal(opcode_named);
    if is_word(name, "nop") {
        Some(OpCode::Nop)
    } else if is_word(name, "int") {
        Some(OpCode::Int)
    } else if is_word(name, "mov") {
        Some(OpCode::Mov)
    } else if is_word(name, "push") {
        Some(OpCode::Push)
    } else if is_word(name, "pop") {
        Some(OpCode::Pop)
    } else if is_word(name, "pushf") {
        Some(OpCode::Pushf)
    } else if is_word(name, "popf") {
        Some(OpCode::Popf)
    } else if is_word(name, "inc") {
        Some(OpCode::Inc)
    } else if is_word(name, "dec") {
        Some(OpCode::Dec)
    } else if is_word(name, "add") {
        Some(OpCode::Add)
    } else if is_word(name, "sub") {
        Some(OpCode::Sub)
    } else if is_word(name, "mul") {
        Some(OpCode::Mul)
    } else if is_word(name, "div") {
        Some(OpCode::Div)
    } else if is_word(name, "mod") {
        Some(OpCode::Mod)
    } else if is_word(name, "rem") {
        Some(OpCode::Rem)
    } else if is_word(name, "not") {
        Some(OpCode::Not)
    } else if is_word(name, "xor") {
        Some(OpCode::Xor)
    } else if is_word(name, "or") {
        Some(OpCode::Or)
    } else if is_word(name, "and") {
        Some(OpCode::And)
    } else if is_word(name, "shl") {
        Some(OpCode::Shl)
    } else if is_word(name, "shr") {
        Some(OpCode::Shr)
    } else if is_word(name, "cmp") {
        Some(OpCode::Cmp)
    } else if is_word(name, "jmp") {
        Some(OpCode::Jmp)
    } else if is_word(name, "call") {
        Some(OpCode::Call)
    } else if is_word(name, "ret") {
        Some(OpCode::Ret)
    } else if is_word(name, "je") {
        Some(OpCode::Je)
    } else if is_word(name, "jne") {
        Some(OpCode::Jne)
    } else if is_word(name, "jg") {
        Some(OpCode::Jg)
    } else if is_word(name, "jge") {
        Some(OpCode::Jge)
    } else if is_word(name, "jl") {
        Some(OpCode::Jl)
    } else if is_word(name, "jle") {
        Some(OpCode::Jle)
    } else if is_word(name, "prn") {
        Some(OpCode::Prn)
    } else {
        None
    }
}

impl OpCode {
    /// The code of the mnemonic: its place among the mnemonics, from 0.
    pub open spec fn code_spec(self) -> int {
        match self {
            OpCode::Nop => 0,
            OpCode::Int => 1,
            OpCode::Mov => 2,
            OpCode::Push => 3,
            OpCode::Pop => 4,
            OpCode::Pushf => 5,
            OpCode::Popf => 6,
            OpCode::Inc => 7,
            OpCode::Dec => 8,
            OpCode::Add => 9,
            OpCode::Sub => 10,
            OpCode::Mul => 11,
            OpCode::Div => 12,
            OpCode::Mod => 13,
            OpCode::Rem => 14,
            OpCode::Not => 15,
            OpCode::Xor => 16,
            OpCode::Or => 17,
            OpCode::And => 18,
            OpCode::Shl => 19,
            OpCode::Shr => 20,
            OpCode::Cmp => 21,
            OpCode::Jmp => 22,
            OpCode::Call => 23,
            OpCode::Ret => 24,
            OpCode::Je => 25,
            OpCode::Jne => 26,
            OpCode::Jg => 27,
            OpCode::Jge => 28,
            OpCode::Jl => 29,
            OpCode::Jle => 30,
            OpCode::Prn => 31,
        }
    }

    /// The code of the mnemonic.
    pub fn code(self) -> (code: i32)
        ensures
            code == self.code_spec(),
            0 <= code < 32,
    {
        match self {
            OpCode::Nop => 0,
            OpCode::Int => 1,
            OpCode::Mov => 2,
            OpCode::Push => 3,
            OpCode::Pop => 4,
            OpCode::Pushf => 5,
            OpCode::Popf => 6,
            OpCode::Inc => 7,
            OpCode::Dec => 8,
            OpCode::Add => 9,
            OpCode::Sub => 10,
            OpCode::Mul => 11,
            OpCode::Div => 12,
            OpCode::Mod => 13,
            OpCode::Rem => 14,
            OpCode::Not => 15,
            OpCode::Xor => 16,
            OpCode::Or => 17,
            OpCode::And => 18,
            OpCode::Shl => 19,
            OpCode::Shr => 20,
            OpCode::Cmp => 21,
            OpCode::Jmp => 22,
            OpCode::Call => 23,
            OpCode::Ret => 24,
            OpCode::Je => 25,
            OpCode::Jne => 26,
            OpCode::Jg => 27,
            OpCode::Jge => 28,
            OpCode::Jl => 29,
            OpCode::Jle => 30,
            OpCode::Prn => 31,
        }
    }

    /// The mnemonic of a code, if it is the code of one.
    pub fn from_code(code: i32) -> (r: Option<OpCode>)
        ensures
            match r {
                Some(opcode) => opcode.code_spec() == code,
                None => code < 0 || code >= 32,
            },
    {
        match code {
            0 => Some(OpCode::Nop),
            1 => Some(OpCode::Int),
            2 => Some(OpCode::Mov),
            3 => Some(OpCode::Push),
            4 => Some(OpCode::Pop),
            5 => Some(OpCode::Pushf),
            6 => Some(OpCode::Popf),
            7 => Some(OpCode::Inc),
            8 => Some(OpCode::Dec),
            9 => Some(OpCode::Add),
            10 => Some(OpCode::Sub),
            11 => Some(OpCode::Mul),
            12 => Some(OpCode::Div),
            13 => Some(OpCode::Mod),
            14 => Some(OpCode::Rem),
            15 => Some(OpCode::Not),
            16 => Some(OpCode::Xor),
            17 => Some(OpCode::Or),
            18 => Some(OpCode::And),
            19 => Some(OpCode::Shl),
            20 => Some(OpCode::Shr),
            21 => Some(OpCode::Cmp),
            22 => Some(OpCode::Jmp),
            23 => Some(OpCode::Call),
            24 => Some(OpCode::Ret),
            25 => Some(OpCode::Je),
            26 => Some(OpCode::Jne),
            27 => Some(OpCode::Jg),
            28 => Some(OpCode::Jge),
            29 => Some(OpCode::Jl),
            30 => Some(OpCode::Jle),
            31 => Some(OpCode::Prn),
            _ => None,
        }
    }

    /// The mnemonic that `mnemonic` spells.
    pub fn parse(mnemonic: &str) -> (r: Option<OpCode>)
        ensures
            r == opcode_named(mnemonic@),
    {
        let chars = to_chars(mnemonic);
        opcode_of(chars.as_slice())
    }
}

impl Register {
    /// The register that `name` names.
    pub fn parse(name: &str) -> (r: Option<Register>)
        ensures
            r == register_named(name@),
    {
        let chars = to_chars(name);
        register_of(chars.as_slice())
    }
}

/// Whether `s` is enclosed in square brackets.
pub open spec fn bracketed(s: Seq<char>) -> bool {
    s.len() >= 2 && s[0] == '[' && s.last() == ']'
}

/// What stands between the brackets of a bracketed token, trimmed.
pub open spec fn bracket_content(s: Seq<char>) -> Seq<char> {
    trim(s.subrange(1, s.len() - 1))
}

/// The operand that the token `s` writes: a register name; a bracketed
/// literal that is not negative, an address; a literal, a value.
pub open spec fn source_of(s: Seq<char>) -> Option<Source> {
    match register_named(s) {
        Some(r) => Some(Source::Register(r)),
        None => if bracketed(s) {
            match literal_value(bracket_content(s)) {
                Some(v) => if v >= 0 {
                    Some(Source::Address(v))
                } else {
                    None
                },
                None => None,
            }
        } else {
            match literal_value(s) {
                Some(v) => Some(Source::Value(v)),
                None => None,
            }
        },
    }
}

/// The address that a non-negative value names.
pub open spec fn address_of(v: i32) -> usize {
    v as usize
}

/// The operand that the token `s` writes: see [`source_of`].
pub open spec fn operand_spec(s: Seq<char>) -> Option<Operand> {
    match source_of(s) {
        Some(Source::Register(r)) => Some(Operand::Register(r)),
        Some(Source::Value(v)) => Some(Operand::Value(v)),
        Some(Source::Address(a)) => Some(Operand::Address(address_of(a))),
        None => None,
    }
}

/// The address that a non-negative value names.
fn to_address(v: i32) -> (a: usize)
    requires
        v >= 0,
    ensures
        a == address_of(v),
{
    v as usize
}

/// The operand that the characters `token` write.
pub fn source_token(token: &[char]) -> (r: Option<Source>)
    ensures
        r == source_of(token@),
        r matches Some(Source::Address(a)) ==> a >= 0,
{
    match register_of(token) {
        Some(r) => Some(Source::Register(r)),
        None => {
            let n = token.len();
            if n >= 2 && token[0] == '[' && token[n - 1] == ']' {
                let (lo, hi) = trim_bounds(token, 1, n - 1);
                match parse_literal(token, lo, hi) {
                    Some(v) => if v >= 0 {
                        Some(Source::Address(v))
                    } else {
                        None
                    },
                    None => None,
                }
            } else {
                assert(token@.subrange(0, n as int) =~= token@);
                match parse_literal(token, 0, n) {
                    Some(v) => Some(Source::Value(v)),
                    None => None,
                }
            }
        },
    }
}

/// The operand that the characters `token` write.
pub fn operand_of(token: &[char]) -> (r: Option<Operand>)
    ensures
        r == operand_spec(token@),
{
    match source_token(token) {
        Some(Source::Register(r)) => Some(Operand::Register(r)),
        Some(Source::Value(v)) => Some(Operand::Value(v)),
        Some(Source::Address(a)) => Some(Operand::Address(to_address(a))),
        None => None,
    }
}

impl Operand {
    /// The operand that `token` writes.
    pub fn parse(token: &str) -> (r: Option<Operand>)
        ensures
            r == operand_spec(token@),
    {
        let chars = to_chars(token);
        operand_of(chars.as_slice())
    }
}

/// The character that writes the decimal digit `d`.
pub open spec fn digit_char(d: int) -> char {
    ('0' as u32 + d) as char
}

/// The decimal numeral of `n`, without leading zeros.
pub open spec fn decimal(n: nat) -> Seq<char>
    decreases n,
{
    if n < 10 {
        seq![digit_char(n as int)]
    } else {
        decimal(n / 10).push(digit_char((n % 10) as int))
    }
}

/// A decimal numeral holds decimal digits only, and writes its number.
pub proof fn lemma_decimal(n: nat)
    ensures
        decimal(n).len() > 0,
        forall|i: int| 0 <= i < decimal(n).len() ==> '0' <= #[trigger] decimal(n)[i] <= '9',
        digits_value(decimal(n), 10) == Some(n as int),
    decreases n,
{
    let d = digit_char((n % 10) as int);
    assert('0' <= d <= '9' && d as u32 - '0' as u32 == n % 10);
    if n >= 10 {
        lemma_decimal(n / 10);
        let s = decimal(n);
        assert(s.drop_last() =~= decimal(n / 10));
        assert(s.last() == d);
        assert forall|i: int| 0 <= i < s.len() implies '0' <= #[trigger] s[i] <= '9' by {
            if i < s.len() - 1 {
                assert(s[i] == decimal(n / 10)[i]);
            }
        }
    }
}

/// As a token, the decimal numeral of a number that fits in 32 bits is the
/// value of that number, and neither a register nor an address.
pub proof fn lemma_decimal_is_value(n: nat)
    requires
        n <= i32::MAX,
    ensures
        source_of(decimal(n)) == Some(Source::Value(n as i32)),
{
    let s = decimal(n);
    lemma_decimal(n);
    assert('0' <= s[0] <= '9');
    assert('0' <= s.last() <= '9');
    let two = s.subrange(s.len() - 2, s.len() as int);
    let one = s.subrange(s.len() - 1, s.len() as int);
    if s.len() >= 2 {
        assert('0' <= s[1] <= '9');
        assert(s.subrange(0, 2)[1] == s[1]);
        assert(seq!['0', 'x'][1] == 'x');
        assert(two[1] == s.last());
        assert(seq!['|', 'h'][1] == 'h');
        assert(seq!['|', 'b'][1] == 'b');
    }
    assert(one[0] == s.last());
    assert(seq!['h'][0] == 'h');
    assert(seq!['b'][0] == 'b');
    assert(magnitude(s) == Some(n as int));
    assert(literal_value(s) == Some(n as i32));
    reveal(register_named);
    reveal_strlit("eax");
    reveal_strlit("ebx");
    reveal_strlit("ecx");
    reveal_strlit("edx");
    reveal_strlit("esi");
    reveal_strlit("edi");
    reveal_strlit("esp");
    reveal_strlit("ebp");
    reveal_strlit("eip");
    reveal_strlit("r08");
    reveal_strlit("r09");
    reveal_strlit("r10");
    reveal_strlit("r11");
    reveal_strlit("r12");
    reveal_strlit("r13");
    reveal_strlit("r14");
    reveal_strlit("r15");
    assert(register_named(s) is None);
}

} // verus!
