//! Instructions as one line writes them: operands may still name labels.

use super::parser::{Failure, ParseErrorKind};
use super::valid_label;
use crate::instruction::{
    opcode_named, opcode_of, source_of, source_token, OpCode, Register, Source, Target,
};
use crate::text::{slice_views, to_chars};
use vstd::prelude::*;

verus! {

/// A source operand that may name a label.
#[derive(Debug, Clone, Copy, PartialEq, Eq)]
pub enum UnresolvedSource<'a> {
    Register(Register),
    Value(i32),
    Address(i32),
    Label(&'a str),
}

/// The mathematical value of an [`UnresolvedSource`].
pub enum Arg {
    /// A register, a value or an address.
    Known(Source),
    /// The name of a label.
    Label(Seq<char>),
}

impl<'a> View for UnresolvedSource<'a> {
    type V = Arg;

    open spec fn view(&self) -> Arg {
        match self {
            UnresolvedSource::Register(r) => Arg::Known(Source::Register(*r)),
            UnresolvedSource::Value(v) => Arg::Known(Source::Value(*v)),
            UnresolvedSource::Address(a) => Arg::Known(Source::Address(*a)),
            UnresolvedSource::Label(name) => Arg::Label(name@),
        }
    }
}

/// An instruction whose source operands may name labels.
#[derive(Debug, Clone, Copy, PartialEq, Eq)]
pub enum UnresolvedInstruction<'a> {
    Nop,
    Int,
    Mov(Target, UnresolvedSource<'a>),
    Push(UnresolvedSource<'a>),
    Pop(Target),
    Pushf,
    Popf,
    Inc(Target),
    Dec(Target),
    Add(Target, UnresolvedSource<'a>),
    Sub(Target, UnresolvedSource<'a>),
    Mul(Target, UnresolvedSource<'a>),
    Div(Target, UnresolvedSource<'a>),
    Mod(UnresolvedSource<'a>, UnresolvedSource<'a>),
    Rem(Target),
    Not(Target),
    Xor(Target, UnresolvedSource<'a>),
    Or(Target, UnresolvedSource<'a>),
    And(Target, UnresolvedSource<'a>),
    Shl(Target, UnresolvedSource<'a>),
    Shr(Target, UnresolvedSource<'a>),
    Cmp(UnresolvedSource<'a>, UnresolvedSource<'a>),
    Jmp(UnresolvedSource<'a>),
    Call(UnresolvedSource<'a>),
    Ret,
    Je(UnresolvedSource<'a>),
    Jne(UnresolvedSource<'a>),
    Jg(UnresolvedSource<'a>),
    Jge(UnresolvedSource<'a>),
    Jl(UnresolvedSource<'a>),
    Jle(UnresolvedSource<'a>),
    Prn(UnresolvedSource<'a>),
}

/// The mathematical value of an [`UnresolvedInstruction`]: its mnemonic,
/// its target operand if it has one, and its source operands in order.
pub struct Unresolved {
    pub opcode: OpCode,
    pub target: Option<Target>,
    pub sources: Seq<Arg>,
}

impl<'a> View for UnresolvedInstruction<'a> {
    type V = Unresolved;

    open spec fn view(&self) -> Unresolved {
        match self {
            UnresolvedInstruction::Nop => nullary(OpCode::Nop),
            UnresolvedInstruction::Int => nullary(OpCode::Int),
            UnresolvedInstruction::Mov(t, s) => with_both(OpCode::Mov, *t, s@),
            UnresolvedInstruction::Push(s) => with_source(OpCode::Push, s@),
            UnresolvedInstruction::Pop(t) => with_target(OpCode::Pop, *t),
            UnresolvedInstruction::Pushf => nullary(OpCode::Pushf),
            UnresolvedInstruction::Popf => nullary(OpCode::Popf),
            UnresolvedInstruction::Inc(t) => with_target(OpCode::Inc, *t),
            UnresolvedInstruction::Dec(t) => with_target(OpCode::Dec, *t),
            UnresolvedInstruction::Add(t, s) => with_both(OpCode::Add, *t, s@),
            UnresolvedInstruction::Sub(t, s) => with_both(OpCode::Sub, *t, s@),
            UnresolvedInstruction::Mul(t, s) => with_both(OpCode::Mul, *t, s@),
            UnresolvedInstruction::Div(t, s) => with_both(OpCode::Div, *t, s@),
            UnresolvedInstruction::Mod(s1, s2) => with_sources(OpCode::Mod, s1@, s2@),
            UnresolvedInstruction::Rem(t) => with_target(OpCode::Rem, *t),
            UnresolvedInstruction::Not(t) => with_target(OpCode::Not, *t),
            UnresolvedInstruction::Xor(t, s) => with_both(OpCode::Xor, *t, s@),
            UnresolvedInstruction::Or(t, s) => with_both(OpCode::Or, *t, s@),
            UnresolvedInstruction::And(t, s) => with_both(OpCode::And, *t, s@),
            UnresolvedInstruction::Shl(t, s) => with_both(OpCode::Shl, *t, s@),
            UnresolvedInstruction::Shr(t, s) => with_both(OpCode::Shr, *t, s@),
            UnresolvedInstruction::Cmp(s1, s2) => with_sources(OpCode::Cmp, s1@, s2@),
            UnresolvedInstruction::Jmp(s) => with_source(OpCode::Jmp, s@),
            UnresolvedInstruction::Call(s) => with_source(OpCode::Call, s@),
            UnresolvedInstruction::Ret => nullary(OpCode::Ret),
            UnresolvedInstruction::Je(s) => with_source(OpCode::Je, s@),
            UnresolvedInstruction::Jne(s) => with_source(OpCode::Jne, s@),
            UnresolvedInstruction::Jg(s) => with_source(OpCode::Jg, s@),
            UnresolvedInstruction::Jge(s) => with_source(OpCode::Jge, s@),
            UnresolvedInstruction::Jl(s) => with_source(OpCode::Jl, s@),
            UnresolvedInstruction::Jle(s) => with_source(OpCode::Jle, s@),
            UnresolvedInstruction::Prn(s) => with_source(OpCode::Prn, s@),
        }
    }
}

/// An instruction without operands.
pub open spec fn nullary(opcode: OpCode) -> Unresolved {
    Unresolved { opcode, target: None, sources: Seq::empty() }
}

/// An instruction with a target operand.
pub open spec fn with_target(opcode: OpCode, t: Target) -> Unresolved {
    Unresolved { opcode, target: Some(t), sources: Seq::empty() }
}

/// An instruction with a source operand.
pub open spec fn with_source(opcode: OpCode, s: Arg) -> Unresolved {
    Unresolved { opcode, target: None, sources: seq![s] }
}

/// An instruction with a target and a source operand.
pub open spec fn with_both(opcode: OpCode, t: Target, s: Arg) -> Unresolved {
    Unresolved { opcode, target: Some(t), sources: seq![s] }
}

/// An instruction with two source operands.
pub open spec fn with_sources(opcode: OpCode, s1: Arg, s2: Arg) -> Unresolved {
    Unresolved { opcode, target: None, sources: seq![s1, s2] }
}

/// The operands that a mnemonic takes.
#[derive(Debug, Clone, Copy, PartialEq, Eq, Structural)]
pub enum Shape {
    /// No operand.
    Nullary,
    /// A target.
    Target,
    /// A source.
    Source,
    /// A target, then a source.
    TargetSource,
    /// Two sources.
    SourceSource,
}

/// The operands that `opcode` takes.
pub open spec fn shape_of(opcode: OpCode) -> Shape {
    match opcode {
        OpCode::Nop | OpCode::Int | OpCode::Pushf | OpCode::Popf | OpCode::Ret => Shape::Nullary,
        OpCode::Pop | OpCode::Inc | OpCode::Dec | OpCode::Rem | OpCode::Not => Shape::Target,
        OpCode::Push
        | OpCode::Jmp
        | OpCode::Call
        | OpCode::Je
        | OpCode::Jne
        | OpCode::Jg
        | OpCode::Jge
        | OpCode::Jl
        | OpCode::Jle
        | OpCode::Prn => Shape::Source,
        OpCode::Mov
        | OpCode::Add
        | OpCode::Sub
        | OpCode::Mul
        | OpCode::Div
        | OpCode::Xor
        | OpCode::Or
        | OpCode::And
        | OpCode::Shl
        | OpCode::Shr => Shape::TargetSource,
        OpCode::Mod | OpCode::Cmp => Shape::SourceSource,
    }
}

/// The source operand at token `index`: a missing token is an error; a
/// register, address or value is itself; any other label name is a label;
/// anything else is an error.
pub open spec fn source_spec(tokens: Seq<Seq<char>>, index: usize) -> Result<Arg, Failure> {
    if index >= tokens.len() {
        Err(Failure::MissingOperand(index))
    } else {
        match source_of(tokens[index as int]) {
            Some(s) => Ok(Arg::Known(s)),
            None => if valid_label(tokens[index as int]) {
                Ok(Arg::Label(tokens[index as int]))
            } else {
                Err(Failure::InvalidOperand(tokens[index as int]))
            },
        }
    }
}

/// The target operand at token `index`: a source operand that is a register
/// or an address.
pub open spec fn target_spec(tokens: Seq<Seq<char>>, index: usize) -> Result<Target, Failure> {
    match source_spec(tokens, index) {
        Ok(Arg::Known(Source::Register(r))) => Ok(Target::Register(r)),
        Ok(Arg::Known(Source::Address(a))) => Ok(Target::Address(a)),
        Ok(_) => Err(Failure::InvalidOperand(tokens[index as int])),
        Err(e) => Err(e),
    }
}

/// An instruction of `count` operands is complete if no token follows them.
pub open spec fn closed(tokens: Seq<Seq<char>>, count: usize, u: Unresolved) -> Result<
    Unresolved,
    Failure,
> {
    if tokens.len() == count + 1 {
        Ok(u)
    } else {
        Err(Failure::ExtraToken(tokens[count + 1]))
    }
}

/// The instruction that the tokens write: the first is the mnemonic, the
/// operands follow in order, and the first error wins.
pub open spec fn instruction_spec(tokens: Seq<Seq<char>>) -> Result<Unresolved, Failure>
    recommends
        tokens.len() > 0,
{
    match opcode_named(tokens[0]) {
        None => Err(Failure::InvalidInstruction(tokens[0])),
        Some(opcode) => match shape_of(opcode) {
            Shape::Nullary => closed(tokens, 0, nullary(opcode)),
            Shape::Target => match target_spec(tokens, 1) {
                Err(e) => Err(e),
                Ok(t) => closed(tokens, 1, with_target(opcode, t)),
            },
            Shape::Source => match source_spec(tokens, 1) {
                Err(e) => Err(e),
                Ok(s) => closed(tokens, 1, with_source(opcode, s)),
            },
            Shape::TargetSource => match target_spec(tokens, 1) {
                Err(e) => Err(e),
                Ok(t) => match source_spec(tokens, 2) {
                    Err(e) => Err(e),
                    Ok(s) => closed(tokens, 2, with_both(opcode, t, s)),
                },
            },
            Shape::SourceSource => match source_spec(tokens, 1) {
                Err(e) => Err(e),
                Ok(s1) => match source_spec(tokens, 2) {
                    Err(e) => Err(e),
                    Ok(s2) => closed(tokens, 2, with_sources(opcode, s1, s2)),
                },
            },
        },
    }
}

/// Whether the executable result `r` is what `expected` asks for.
pub open spec fn source_matches<'a>(
    r: Result<UnresolvedSource<'a>, ParseErrorKind>,
    expected: Result<Arg, Failure>,
) -> bool {
    match r {
        Ok(s) => expected == Ok::<Arg, Failure>(s@),
        Err(e) => expected == Err::<Arg, Failure>(e@),
    }
}

/// Whether the executable result `r` is what `expected` asks for.
pub open spec fn target_matches(
    r: Result<Target, ParseErrorKind>,
    expected: Result<Target, Failure>,
) -> bool {
    match r {
        Ok(t) => expected == Ok::<Target, Failure>(t),
        Err(e) => expected == Err::<Target, Failure>(e@),
    }
}

/// Whether the executable result `r` is what `expected` asks for.
pub open spec fn instruction_matches<'a>(
    r: Result<UnresolvedInstruction<'a>, ParseErrorKind>,
    expected: Result<Unresolved, Failure>,
) -> bool {
    match r {
        Ok(u) => expected == Ok::<Unresolved, Failure>(u@),
        Err(e) => expected == Err::<Unresolved, Failure>(e@),
    }
}

/// The source operand at token `index`.
pub fn parse_source<'a>(tokens: &[&'a str], index: usize) -> (r: Result<
    UnresolvedSource<'a>,
    ParseErrorKind,
>)
    ensures
        source_matches(r, source_spec(slice_views(tokens@), index)),
{
    if index >= tokens.len() {
        return Err(ParseErrorKind::MissingOperand(index));
    }
    let token: &'a str = tokens[index];
    let chars = to_chars(token);
    match source_token(chars.as_slice()) {
        Some(Source::Register(r)) => Ok(UnresolvedSource::Register(r)),
        Some(Source::Value(v)) => Ok(UnresolvedSource::Value(v)),
        Some(Source::Address(a)) => Ok(UnresolvedSource::Address(a)),
        None => {
            assert(chars@.take(chars@.len() as int) =~= chars@);
            if super::is_label(chars.as_slice(), chars.len()) {
                Ok(UnresolvedSource::Label(token))
            } else {
                Err(ParseErrorKind::InvalidOperand(token.to_owned()))
            }
        },
    }
}

/// The target operand at token `index`.
pub fn parse_target(tokens: &[&str], index: usize) -> (r: Result<Target, ParseErrorKind>)
    ensures
        target_matches(r, target_spec(slice_views(tokens@), index)),
{
    match parse_source(tokens, index) {
        Ok(UnresolvedSource::Register(r)) => Ok(Target::Register(r)),
        Ok(UnresolvedSource::Address(a)) => Ok(Target::Address(a)),
        Ok(_) => Err(ParseErrorKind::InvalidOperand(tokens[index].to_owned())),
        Err(e) => Err(e),
    }
}

/// Accepts an instruction of `count` operands if no token follows them.
fn finish<'a>(tokens: &[&'a str], count: usize, u: UnresolvedInstruction<'a>) -> (r: Result<
    UnresolvedInstruction<'a>,
    ParseErrorKind,
>)
    requires
        count < tokens@.len(),
    ensures
        instruction_matches(r, closed(slice_views(tokens@), count, u@)),
{
    if tokens.len() == count + 1 {
        Ok(u)
    } else {
        Err(ParseErrorKind::ExtraToken(tokens[count + 1].to_owned()))
    }
}

/// The operands that `opcode` takes.
pub fn shape(opcode: OpCode) -> (r: Shape)
    ensures
        r == shape_of(opcode),
{
    match opcode {
        OpCode::Nop | OpCode::Int | OpCode::Pushf | OpCode::Popf | OpCode::Ret => Shape::Nullary,
        OpCode::Pop | OpCode::Inc | OpCode::Dec | OpCode::Rem | OpCode::Not => Shape::Target,
        OpCode::Push | OpCode::Jmp | OpCode::Call | OpCode::Je | OpCode::Jne | OpCode::Jg | OpCode::Jge | OpCode::Jl | OpCode::Jle | OpCode::Prn => Shape::Source,
        OpCode::Mov | OpCode::Add | OpCode::Sub | OpCode::Mul | OpCode::Div | OpCode::Xor | OpCode::Or | OpCode::And | OpCode::Shl | OpCode::Shr => Shape::TargetSource,
        OpCode::Mod | OpCode::Cmp => Shape::SourceSource,
    }
}

/// The instruction of mnemonic `opcode`, which takes no operand.
fn build_nullary<'a>(opcode: OpCode) -> (u: UnresolvedInstruction<'a>)
    requires
        shape_of(opcode) == Shape::Nullary,
    ensures
        u@ == nullary(opcode),
{
    match opcode {
        OpCode::Nop => UnresolvedInstruction::Nop,
        OpCode::Int => UnresolvedInstruction::Int,
        OpCode::Pushf => UnresolvedInstruction::Pushf,
        OpCode::Popf => UnresolvedInstruction::Popf,
        OpCode::Ret => UnresolvedInstruction::Ret,
        _ => UnresolvedInstruction::Nop,
    }
}

/// The instruction of mnemonic `opcode`, which takes a target.
fn build_target<'a>(opcode: OpCode, t: Target) -> (u: UnresolvedInstruction<'a>)
    requires
        shape_of(opcode) == Shape::Target,
    ensures
        u@ == with_target(opcode, t),
{
    match opcode {
        OpCode::Pop => UnresolvedInstruction::Pop(t),
        OpCode::Inc => UnresolvedInstruction::Inc(t),
        OpCode::Dec => UnresolvedInstruction::Dec(t),
        OpCode::Rem => UnresolvedInstruction::Rem(t),
        OpCode::Not => UnresolvedInstruction::Not(t),
        _ => UnresolvedInstruction::Nop,
    }
}

/// The instruction of mnemonic `opcode`, which takes a source.
fn build_source<'a>(opcode: OpCode, s: UnresolvedSource<'a>) -> (u: UnresolvedInstruction<'a>)
    requires
        shape_of(opcode) == Shape::Source,
    ensures
        u@ == with_source(opcode, s@),
{
    match opcode {
        OpCode::Push => UnresolvedInstruction::Push(s),
        OpCode::Jmp => UnresolvedInstruction::Jmp(s),
        OpCode::Call => UnresolvedInstruction::Call(s),
        OpCode::Je => UnresolvedInstruction::Je(s),
        OpCode::Jne => UnresolvedInstruction::Jne(s),
        OpCode::Jg => UnresolvedInstruction::Jg(s),
        OpCode::Jge => UnresolvedInstruction::Jge(s),
        OpCode::Jl => UnresolvedInstruction::Jl(s),
        OpCode::Jle => UnresolvedInstruction::Jle(s),
        OpCode::Prn => UnresolvedInstruction::Prn(s),
        _ => UnresolvedInstruction::Nop,
    }
}

/// The instruction of mnemonic `opcode`, which takes a target and a source.
fn build_both<'a>(opcode: OpCode, t: Target, s: UnresolvedSource<'a>) -> (u: UnresolvedInstruction<
    'a,
>)
    requires
        shape_of(opcode) == Shape::TargetSource,
    ensures
        u@ == with_both(opcode, t, s@),
{
    match opcode {
        OpCode::Mov => UnresolvedInstruction::Mov(t, s),
        OpCode::Add => UnresolvedInstruction::Add(t, s),
        OpCode::Sub => UnresolvedInstruction::Sub(t, s),
        OpCode::Mul => UnresolvedInstruction::Mul(t, s),
        OpCode::Div => UnresolvedInstruction::Div(t, s),
        OpCode::Xor => UnresolvedInstruction::Xor(t, s),
        OpCode::Or => UnresolvedInstruction::Or(t, s),
        OpCode::And => UnresolvedInstruction::And(t, s),
        OpCode::Shl => UnresolvedInstruction::Shl(t, s),
        OpCode::Shr => UnresolvedInstruction::Shr(t, s),
        _ => UnresolvedInstruction::Nop,
    }
}

/// The instruction of mnemonic `opcode`, which takes two sources.
fn build_sources<'a>(opcode: OpCode, s1: UnresolvedSource<'a>, s2: UnresolvedSource<'a>) -> (u:
    UnresolvedInstruction<'a>)
    requires
        shape_of(opcode) == Shape::SourceSource,
    ensures
        u@ == with_sources(opcode, s1@, s2@),
{
    match opcode {
        OpCode::Mod => UnresolvedInstruction::Mod(s1, s2),
        OpCode::Cmp => UnresolvedInstruction::Cmp(s1, s2),
        _ => UnresolvedInstruction::Nop,
    }
}

impl<'a> UnresolvedInstruction<'a> {
    /// The instruction that the tokens write: see [`instruction_spec`].
    pub fn parse(tokens: &[&'a str]) -> (r: Result<UnresolvedInstruction<'a>, ParseErrorKind>)
        requires
            tokens@.len() > 0,
        ensures
            instruction_matches(r, instruction_spec(slice_views(tokens@))),
    {
        let mnemonic = to_chars(tokens[0]);
        let opcode = match opcode_of(mnemonic.as_slice()) {
            Some(opcode) => opcode,
            None => {
                return Err(ParseErrorKind::InvalidInstruction(tokens[0].to_owned()));
            },
        };
        match shape(opcode) {
            Shape::Nullary => finish(tokens, 0, build_nullary(opcode)),
            Shape::Target => {
                let t = parse_target(tokens, 1)?;
                finish(tokens, 1, build_target(opcode, t))
            },
            Shape::Source => {
                let s = parse_source(tokens, 1)?;
                finish(tokens, 1, build_source(opcode, s))
            },
            Shape::TargetSource => {
                let t = parse_target(tokens, 1)?;
                let s = parse_source(tokens, 2)?;
                finish(tokens, 2, build_both(opcode, t, s))
            },
            Shape::SourceSource => {
                let s1 = parse_source(tokens, 1)?;
                let s2 = parse_source(tokens, 2)?;
                finish(tokens, 2, build_sources(opcode, s1, s2))
            },
        }
    }
}

} // verus!
