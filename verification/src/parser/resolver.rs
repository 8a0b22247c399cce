//! Resolution: label names in operands become instruction indices.

use super::line_parser::ParsedLine;
use super::parser::{gather, gather_spec, parsed_views, Failure, ParseErrorKind};
use super::unresolved_instruction::{Arg, Unresolved, UnresolvedInstruction, UnresolvedSource};
use super::ParseLabelsError;
use crate::htab::LabelTable;
use crate::instruction::{Instruction, OpCode, Register, Source, Target};
use vstd::prelude::*;

verus! {

/// The value that stands for instruction index `i` in an operand.
pub open spec fn index_value(i: usize) -> i32 {
    i as i32
}

/// The value that stands for instruction index `i` in an operand.
pub fn index_operand(i: usize) -> (v: i32)
    ensures
        v == index_value(i),
        i <= i32::MAX ==> v == i,
{
    #[verifier::truncate]
    (i as i32)
}

/// A source operand with its label, if it names one, replaced by the value
/// that stands for the label's index; a label that `labels` lacks is an
/// error.
pub open spec fn resolve_arg(a: Arg, labels: Map<Seq<char>, usize>) -> Result<Source, Failure> {
    match a {
        Arg::Known(s) => Ok(s),
        Arg::Label(name) => if labels.contains_key(name) {
            Ok(Source::Value(index_value(labels[name])))
        } else {
            Err(Failure::UndefinedLabel(name))
        },
    }
}

/// The target of an instruction that has one.
pub open spec fn target_or_default(target: Option<Target>) -> Target {
    match target {
        Some(t) => t,
        None => Target::Register(Register::Eax),
    }
}

/// The instruction of mnemonic `opcode` with the given operands.
pub open spec fn assemble(opcode: OpCode, target: Option<Target>, sources: Seq<Source>) -> Instruction {
    match opcode {
        OpCode::Nop => Instruction::Nop,
        OpCode::Int => Instruction::Int,
        OpCode::Mov => Instruction::Mov(target_or_default(target), sources[0]),
        OpCode::Push => Instruction::Push(sources[0]),
        OpCode::Pop => Instruction::Pop(target_or_default(target)),
        OpCode::Pushf => Instruction::Pushf,
        OpCode::Popf => Instruction::Popf,
        OpCode::Inc => Instruction::Inc(target_or_default(target)),
        OpCode::Dec => Instruction::Dec(target_or_default(target)),
        OpCode::Add => Instruction::Add(target_or_default(target), sources[0]),
        OpCode::Sub => Instruction::Sub(target_or_default(target), sources[0]),
        OpCode::Mul => Instruction::Mul(target_or_default(target), sources[0]),
        OpCode::Div => Instruction::Div(target_or_default(target), sources[0]),
        OpCode::Mod => Instruction::Mod(sources[0], sources[1]),
        OpCode::Rem => Instruction::Rem(target_or_default(target)),
        OpCode::Not => Instruction::Not(target_or_default(target)),
        OpCode::Xor => Instruction::Xor(target_or_default(target), sources[0]),
        OpCode::Or => Instruction::Or(target_or_default(target), sources[0]),
        OpCode::And => Instruction::And(target_or_default(target), sources[0]),
        OpCode::Shl => Instruction::Shl(target_or_default(target), sources[0]),
        OpCode::Shr => Instruction::Shr(target_or_default(target), sources[0]),
        OpCode::Cmp => Instruction::Cmp(sources[0], sources[1]),
        OpCode::Jmp => Instruction::Jmp(sources[0]),
        OpCode::Call => Instruction::Call(sources[0]),
        OpCode::Ret => Instruction::Ret,
        OpCode::Je => Instruction::Je(sources[0]),
        OpCode::Jne => Instruction::Jne(sources[0]),
        OpCode::Jg => Instruction::Jg(sources[0]),
        OpCode::Jge => Instruction::Jge(sources[0]),
        OpCode::Jl => Instruction::Jl(sources[0]),
        OpCode::Jle => Instruction::Jle(sources[0]),
        OpCode::Prn => Instruction::Prn(sources[0]),
    }
}

/// The instruction with every label resolved; the first operand whose
/// label `labels` lacks is the error.
pub open spec fn resolve_spec(u: Unresolved, labels: Map<Seq<char>, usize>) -> Result<
    Instruction,
    Failure,
> {
    if u.sources.len() == 0 {
        Ok(assemble(u.opcode, u.target, Seq::empty()))
    } else {
        match resolve_arg(u.sources[0], labels) {
            Err(e) => Err(e),
            Ok(first) => if u.sources.len() == 1 {
                Ok(assemble(u.opcode, u.target, seq![first]))
            } else {
                match resolve_arg(u.sources[1], labels) {
                    Err(e) => Err(e),
                    Ok(second) => Ok(assemble(u.opcode, u.target, seq![first, second])),
                }
            },
        }
    }
}

/// Resolves one source operand.
pub fn resolve_source(s: &UnresolvedSource, labels: &LabelTable) -> (r: Result<
    Source,
    ParseErrorKind,
>)
    ensures
        match r {
            Ok(source) => resolve_arg(s@, labels@) == Ok::<Source, Failure>(source),
            Err(e) => resolve_arg(s@, labels@) == Err::<Source, Failure>(e@),
        },
{
    match s {
        UnresolvedSource::Register(r) => Ok(Source::Register(*r)),
        UnresolvedSource::Value(v) => Ok(Source::Value(*v)),
        UnresolvedSource::Address(a) => Ok(Source::Address(*a)),
        UnresolvedSource::Label(name) => match labels.get(name) {
            Some(index) => Ok(Source::Value(index_operand(index))),
            None => Err(ParseErrorKind::UndefinedLabel((*name).to_owned())),
        },
    }
}

/// Resolves the labels of an instruction: see [`resolve_spec`].
pub fn resolve(instruction: &UnresolvedInstruction, labels: &LabelTable) -> (r: Result<
    Instruction,
    ParseErrorKind,
>)
    ensures
        match r {
            Ok(i) => resolve_spec(instruction@, labels@) == Ok::<Instruction, Failure>(i),
            Err(e) => resolve_spec(instruction@, labels@) == Err::<Instruction, Failure>(e@),
        },
{
    match instruction {
        UnresolvedInstruction::Nop => Ok(Instruction::Nop),
        UnresolvedInstruction::Int => Ok(Instruction::Int),
        UnresolvedInstruction::Mov(t, s) => Ok(Instruction::Mov(*t, resolve_source(s, labels)?)),
        UnresolvedInstruction::Push(s) => Ok(Instruction::Push(resolve_source(s, labels)?)),
        UnresolvedInstruction::Pop(t) => Ok(Instruction::Pop(*t)),
        UnresolvedInstruction::Pushf => Ok(Instruction::Pushf),
        UnresolvedInstruction::Popf => Ok(Instruction::Popf),
        UnresolvedInstruction::Inc(t) => Ok(Instruction::Inc(*t)),
        UnresolvedInstruction::Dec(t) => Ok(Instruction::Dec(*t)),
        UnresolvedInstruction::Add(t, s) => Ok(Instruction::Add(*t, resolve_source(s, labels)?)),
        UnresolvedInstruction::Sub(t, s) => Ok(Instruction::Sub(*t, resolve_source(s, labels)?)),
        UnresolvedInstruction::Mul(t, s) => Ok(Instruction::Mul(*t, resolve_source(s, labels)?)),
        UnresolvedInstruction::Div(t, s) => Ok(Instruction::Div(*t, resolve_source(s, labels)?)),
        UnresolvedInstruction::Mod(s1, s2) => {
            let a = resolve_source(s1, labels)?;
            let b = resolve_source(s2, labels)?;
            Ok(Instruction::Mod(a, b))
        },
        UnresolvedInstruction::Rem(t) => Ok(Instruction::Rem(*t)),
        UnresolvedInstruction::Not(t) => Ok(Instruction::Not(*t)),
        UnresolvedInstruction::Xor(t, s) => Ok(Instruction::Xor(*t, resolve_source(s, labels)?)),
        UnresolvedInstruction::Or(t, s) => Ok(Instruction::Or(*t, resolve_source(s, labels)?)),
        UnresolvedInstruction::And(t, s) => Ok(Instruction::And(*t, resolve_source(s, labels)?)),
        UnresolvedInstruction::Shl(t, s) => Ok(Instruction::Shl(*t, resolve_source(s, labels)?)),
        UnresolvedInstruction::Shr(t, s) => Ok(Instruction::Shr(*t, resolve_source(s, labels)?)),
        UnresolvedInstruction::Cmp(s1, s2) => {
            let a = resolve_source(s1, labels)?;
            let b = resolve_source(s2, labels)?;
            Ok(Instruction::Cmp(a, b))
        },
        UnresolvedInstruction::Jmp(s) => Ok(Instruction::Jmp(resolve_source(s, labels)?)),
        UnresolvedInstruction::Call(s) => Ok(Instruction::Call(resolve_source(s, labels)?)),
        UnresolvedInstruction::Ret => Ok(Instruction::Ret),
        UnresolvedInstruction::Je(s) => Ok(Instruction::Je(resolve_source(s, labels)?)),
        UnresolvedInstruction::Jne(s) => Ok(Instruction::Jne(resolve_source(s, labels)?)),
        UnresolvedInstruction::Jg(s) => Ok(Instruction::Jg(resolve_source(s, labels)?)),
        UnresolvedInstruction::Jge(s) => Ok(Instruction::Jge(resolve_source(s, labels)?)),
        UnresolvedInstruction::Jl(s) => Ok(Instruction::Jl(resolve_source(s, labels)?)),
        UnresolvedInstruction::Jle(s) => Ok(Instruction::Jle(resolve_source(s, labels)?)),
        UnresolvedInstruction::Prn(s) => Ok(Instruction::Prn(resolve_source(s, labels)?)),
    }
}

/// Gathers the labels of parsed lines: see [`gather_spec`]. The error
/// names the first label that is declared twice.
pub fn resolve_labels(lines: &[ParsedLine]) -> (r: Result<LabelTable, ParseLabelsError>)
    ensures
        match r {
            Ok(table) => gather_spec(parsed_views(lines@)) == Ok::<
                Map<Seq<char>, usize>,
                (usize, Seq<char>),
            >(table@),
            Err(ParseLabelsError::DuplicateDefinition(name)) => gather_spec(parsed_views(lines@))
                matches Err((_, twice)) && twice == name@,
        },
{
    match gather(lines) {
        Ok(table) => Ok(table),
        Err((_, name)) => Err(ParseLabelsError::DuplicateDefinition(name)),
    }
}

} // verus!
