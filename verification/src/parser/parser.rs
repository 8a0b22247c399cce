//! Parse errors, and the driver that turns lines of tokens into a program.

use super::line_parser::{
    line_spec, parse_line, Line, LineInstruction, ParsedLine, ParsedLineInstruction,
};
use super::resolver::{index_operand, index_value, resolve, resolve_spec};
use crate::htab::LabelTable;
use crate::instruction::Instruction;
use crate::program::Program;
use crate::text::line_views;
use vstd::prelude::*;

verus! {

/// Why a line could not be parsed.
#[derive(Debug, PartialEq, Eq, Clone)]
pub enum ParseErrorKind {
    /// A label that an earlier declaration already defined.
    DuplicateLabel(String),
    /// An operand that names a label that no line declares.
    UndefinedLabel(String),
    /// A token that should be a mnemonic and is none.
    InvalidInstruction(String),
    /// The token index at which an operand is missing.
    MissingOperand(usize),
    /// A token that is no operand of the kind that its place asks for.
    InvalidOperand(String),
    /// A token after the last operand.
    ExtraToken(String),
}

/// The mathematical value of a [`ParseErrorKind`].
pub enum Failure {
    DuplicateLabel(Seq<char>),
    UndefinedLabel(Seq<char>),
    InvalidInstruction(Seq<char>),
    MissingOperand(usize),
    InvalidOperand(Seq<char>),
    ExtraToken(Seq<char>),
}

impl View for ParseErrorKind {
    type V = Failure;

    open spec fn view(&self) -> Failure {
        match self {
            ParseErrorKind::DuplicateLabel(s) => Failure::DuplicateLabel(s@),
            ParseErrorKind::UndefinedLabel(s) => Failure::UndefinedLabel(s@),
            ParseErrorKind::InvalidInstruction(s) => Failure::InvalidInstruction(s@),
            ParseErrorKind::MissingOperand(i) => Failure::MissingOperand(*i),
            ParseErrorKind::InvalidOperand(s) => Failure::InvalidOperand(s@),
            ParseErrorKind::ExtraToken(s) => Failure::ExtraToken(s@),
        }
    }
}

/// The first error of a source, with the index of its line.
#[derive(Debug, PartialEq, Eq, Clone)]
pub struct ParseError {
    pub line_index: usize,
    pub error: ParseErrorKind,
}

impl View for ParseError {
    type V = (usize, Failure);

    open spec fn view(&self) -> (usize, Failure) {
        (self.line_index, self.error@)
    }
}

/// The value of each parsed line.
pub open spec fn parsed_views(lines: Seq<ParsedLine>) -> Seq<Line> {
    Seq::new(lines.len(), |i: int| lines[i]@)
}

/// The value of each line of tokens.
pub open spec fn lines_spec(tokens: Seq<Seq<Seq<char>>>) -> Seq<Line> {
    Seq::new(tokens.len(), |i: int| line_spec(tokens[i]))
}

/// The table with each of `labels` bound to `count`, in order; the first
/// label that is bound already is the error.
pub open spec fn add_labels(table: Map<Seq<char>, usize>, labels: Seq<Seq<char>>, count: usize) -> Result<
    Map<Seq<char>, usize>,
    Seq<char>,
>
    decreases labels.len(),
{
    if labels.len() == 0 {
        Ok(table)
    } else {
        match add_labels(table, labels.drop_last(), count) {
            Err(name) => Err(name),
            Ok(bound) => if bound.contains_key(labels.last()) {
                Err(labels.last())
            } else {
                Ok(bound.insert(labels.last(), count))
            },
        }
    }
}

/// The number of lines that write an instruction.
pub open spec fn emitted(lines: Seq<Line>) -> nat
    decreases lines.len(),
{
    if lines.len() == 0 {
        0
    } else {
        emitted(lines.drop_last()) + if lines.last().instruction is Parsed {
            1nat
        } else {
            0nat
        }
    }
}

/// The label table of a source: every label is bound to the number of
/// instructions that the lines before its own write. The first label that
/// is declared twice is the error, with the index of its line.
pub open spec fn gather_spec(lines: Seq<Line>) -> Result<Map<Seq<char>, usize>, (usize, Seq<char>)>
    decreases lines.len(),
{
    if lines.len() == 0 {
        Ok(Map::empty())
    } else {
        match gather_spec(lines.drop_last()) {
            Err(e) => Err(e),
            Ok(table) => match add_labels(
                table,
                lines.last().labels,
                emitted(lines.drop_last()) as usize,
            ) {
                Err(name) => Err(((lines.len() - 1) as usize, name)),
                Ok(bound) => Ok(bound),
            },
        }
    }
}

/// The instructions of a source, resolved against `labels`. The first line
/// that writes no valid instruction, or whose instruction names a label
/// that `labels` lacks, is the error.
pub open spec fn resolve_all(lines: Seq<Line>, labels: Map<Seq<char>, usize>) -> Result<
    Seq<Instruction>,
    (usize, Failure),
>
    decreases lines.len(),
{
    if lines.len() == 0 {
        Ok(Seq::empty())
    } else {
        match resolve_all(lines.drop_last(), labels) {
            Err(e) => Err(e),
            Ok(instructions) => match lines.last().instruction {
                LineInstruction::Empty => Ok(instructions),
                LineInstruction::Invalid(e) => Err(((lines.len() - 1) as usize, e)),
                LineInstruction::Parsed(u) => match resolve_spec(u, labels) {
                    Err(e) => Err(((lines.len() - 1) as usize, e)),
                    Ok(instruction) => Ok(instructions.push(instruction)),
                },
            },
        }
    }
}

/// Where execution starts: at the label `start`, or else at index 0.
pub open spec fn start_index(labels: Map<Seq<char>, usize>) -> i32 {
    if labels.contains_key("start"@) {
        index_value(labels["start"@])
    } else {
        0
    }
}

/// The program that parsed lines make: its instructions and where it
/// starts. A label that is declared twice comes before any other error.
pub open spec fn program_spec(lines: Seq<Line>) -> Result<(Seq<Instruction>, i32), (usize, Failure)> {
    match gather_spec(lines) {
        Err((line, name)) => Err((line, Failure::DuplicateLabel(name))),
        Ok(labels) => match resolve_all(lines, labels) {
            Err(e) => Err(e),
            Ok(instructions) => Ok((instructions, start_index(labels))),
        },
    }
}

/// The program that lines of tokens write.
pub open spec fn parse_spec(tokens: Seq<Seq<Seq<char>>>) -> Result<
    (Seq<Instruction>, i32),
    (usize, Failure),
> {
    program_spec(lines_spec(tokens))
}

/// Binds the labels of one line.
fn bind_labels(table: &mut LabelTable, labels: &Vec<&str>, count: usize) -> (r: Result<(), String>)
    ensures
        match r {
            Ok(()) => add_labels(old(table)@, crate::text::slice_views(labels@), count) == Ok::<
                Map<Seq<char>, usize>,
                Seq<char>,
            >(final(table)@),
            Err(name) => add_labels(old(table)@, crate::text::slice_views(labels@), count) == Err::<
                Map<Seq<char>, usize>,
                Seq<char>,
            >(name@),
        },
{
    let ghost names = crate::text::slice_views(labels@);
    let ghost start = table@;
    let mut j: usize = 0;
    while j < labels.len()
        invariant
            j <= labels@.len(),
            start == old(table)@,
            names == crate::text::slice_views(labels@),
            add_labels(start, names.take(j as int), count) == Ok::<Map<Seq<char>, usize>, Seq<char>>(
                table@,
            ),
        decreases labels@.len() - j,
    {
        proof {
            assert(names.take(j + 1).drop_last() =~= names.take(j as int));
            assert(names.take(j + 1).last() == labels@[j as int]@);
        }
        if !table.define(labels[j], count) {
            proof {
                assert(add_labels(start, names.take(j + 1), count) == Err::<
                    Map<Seq<char>, usize>,
                    Seq<char>,
                >(names[j as int]));
                lemma_add_labels_fails(start, names, count, j + 1);
            }
            return Err(labels[j].to_owned());
        }
        j += 1;
    }
    assert(names.take(j as int) =~= names);
    Ok(())
}

/// Once a prefix of the labels cannot be bound, the whole cannot, for the
/// same label.
proof fn lemma_add_labels_fails(
    table: Map<Seq<char>, usize>,
    labels: Seq<Seq<char>>,
    count: usize,
    n: int,
)
    requires
        0 <= n <= labels.len(),
        add_labels(table, labels.take(n), count) is Err,
    ensures
        add_labels(table, labels, count) == add_labels(table, labels.take(n), count),
    decreases labels.len() - n,
{
    if n == labels.len() {
        assert(labels.take(n) =~= labels);
    } else {
        assert(labels.take(n + 1).drop_last() =~= labels.take(n));
        lemma_add_labels_fails(table, labels, count, n + 1);
    }
}

/// Once a prefix of the lines has a label twice, the whole has, at the
/// same place.
proof fn lemma_gather_fails(lines: Seq<Line>, n: int)
    requires
        0 <= n <= lines.len(),
        gather_spec(lines.take(n)) is Err,
    ensures
        gather_spec(lines) == gather_spec(lines.take(n)),
    decreases lines.len() - n,
{
    if n == lines.len() {
        assert(lines.take(n) =~= lines);
    } else {
        assert(lines.take(n + 1).drop_last() =~= lines.take(n));
        lemma_gather_fails(lines, n + 1);
    }
}

/// Once a prefix of the lines cannot be resolved, the whole cannot, for
/// the same reason.
proof fn lemma_resolve_fails(lines: Seq<Line>, labels: Map<Seq<char>, usize>, n: int)
    requires
        0 <= n <= lines.len(),
        resolve_all(lines.take(n), labels) is Err,
    ensures
        resolve_all(lines, labels) == resolve_all(lines.take(n), labels),
    decreases lines.len() - n,
{
    if n == lines.len() {
        assert(lines.take(n) =~= lines);
    } else {
        assert(lines.take(n + 1).drop_last() =~= lines.take(n));
        lemma_resolve_fails(lines, labels, n + 1);
    }
}

/// Gathers the labels of parsed lines: see [`gather_spec`].
pub fn gather(lines: &[ParsedLine]) -> (r: Result<LabelTable, (usize, String)>)
    ensures
        match r {
            Ok(table) => gather_spec(parsed_views(lines@)) == Ok::<
                Map<Seq<char>, usize>,
                (usize, Seq<char>),
            >(table@),
            Err((line, name)) => gather_spec(parsed_views(lines@)) == Err::<
                Map<Seq<char>, usize>,
                (usize, Seq<char>),
            >((line, name@)),
        },
{
    let ghost views = parsed_views(lines@);
    let mut table = LabelTable::new();
    let mut count: usize = 0;
    let mut i: usize = 0;
    assert(views.take(0) =~= Seq::<Line>::empty());
    while i < lines.len()
        invariant
            i <= lines@.len(),
            views == parsed_views(lines@),
            count == emitted(views.take(i as int)),
            count <= i,
            gather_spec(views.take(i as int)) == Ok::<Map<Seq<char>, usize>, (usize, Seq<char>)>(
                table@,
            ),
        decreases lines@.len() - i,
    {
        proof {
            assert(views.take(i + 1).drop_last() =~= views.take(i as int));
            assert(views.take(i + 1).last() == lines@[i as int]@);
        }
        match bind_labels(&mut table, &lines[i].labels, count) {
            Ok(()) => {},
            Err(name) => {
                proof {
                    lemma_gather_fails(views, i + 1);
                }
                return Err((i, name));
            },
        }
        match &lines[i].instruction {
            ParsedLineInstruction::Parsed(_) => {
                count += 1;
            },
            _ => {},
        }
        i += 1;
    }
    assert(views.take(i as int) =~= views);
    Ok(table)
}

/// Gathers the labels of parsed lines: see [`gather_spec`]. A label that
/// is declared twice is reported with the index of the line of its second
/// declaration.
pub fn gather_label_values(lines: &[ParsedLine]) -> (r: Result<LabelTable, ParseError>)
    ensures
        match r {
            Ok(table) => gather_spec(parsed_views(lines@)) == Ok::<
                Map<Seq<char>, usize>,
                (usize, Seq<char>),
            >(table@),
            Err(e) => e.error matches ParseErrorKind::DuplicateLabel(name) && gather_spec(
                parsed_views(lines@),
            ) == Err::<Map<Seq<char>, usize>, (usize, Seq<char>)>((e.line_index, name@)),
        },
{
    match gather(lines) {
        Ok(table) => Ok(table),
        Err((line_index, name)) => Err(
            ParseError { line_index, error: ParseErrorKind::DuplicateLabel(name) },
        ),
    }
}

/// Where execution starts.
fn start_of(labels: &LabelTable) -> (start: i32)
    ensures
        start == start_index(labels@),
{
    match labels.get("start") {
        Some(index) => index_operand(index),
        None => 0,
    }
}

/// Resolves parsed lines into a program: see [`program_spec`].
pub fn assemble_lines(lines: &[ParsedLine]) -> (r: Result<Program, ParseError>)
    ensures
        match r {
            Ok(program) => program_spec(parsed_views(lines@)) == Ok::<
                (Seq<Instruction>, i32),
                (usize, Failure),
            >((program.instructions@, program.start_instruction_index)),
            Err(e) => program_spec(parsed_views(lines@)) == Err::<
                (Seq<Instruction>, i32),
                (usize, Failure),
            >(e@),
        },
{
    let ghost views = parsed_views(lines@);
    let labels = gather_label_values(lines)?;
    let mut instructions: Vec<Instruction> = Vec::new();
    let mut i: usize = 0;
    assert(views.take(0) =~= Seq::<Line>::empty());
    while i < lines.len()
        invariant
            i <= lines@.len(),
            views == parsed_views(lines@),
            gather_spec(views) == Ok::<Map<Seq<char>, usize>, (usize, Seq<char>)>(labels@),
            resolve_all(views.take(i as int), labels@) == Ok::<Seq<Instruction>, (usize, Failure)>(
                instructions@,
            ),
        decreases lines@.len() - i,
    {
        proof {
            assert(views.take(i + 1).drop_last() =~= views.take(i as int));
            assert(views.take(i + 1).last() == lines@[i as int]@);
        }
        match &lines[i].instruction {
            ParsedLineInstruction::Parsed(u) => match resolve(u, &labels) {
                Ok(instruction) => {
                    instructions.push(instruction);
                },
                Err(error) => {
                    proof {
                        lemma_resolve_fails(views, labels@, i + 1);
                    }
                    return Err(ParseError { line_index: i, error });
                },
            },
            ParsedLineInstruction::Empty => {},
            ParsedLineInstruction::Invalid(e) => {
                proof {
                    lemma_resolve_fails(views, labels@, i + 1);
                }
                return Err(ParseError { line_index: i, error: clone_kind(e) });
            },
        }
        i += 1;
    }
    assert(views.take(i as int) =~= views);
    let start_instruction_index = start_of(&labels);
    Ok(Program { instructions, start_instruction_index })
}

/// A copy of a parse error kind.
pub fn clone_kind(e: &ParseErrorKind) -> (copy: ParseErrorKind)
    ensures
        copy@ == e@,
{
    match e {
        ParseErrorKind::DuplicateLabel(s) => ParseErrorKind::DuplicateLabel(s.clone()),
        ParseErrorKind::UndefinedLabel(s) => ParseErrorKind::UndefinedLabel(s.clone()),
        ParseErrorKind::InvalidInstruction(s) => ParseErrorKind::InvalidInstruction(s.clone()),
        ParseErrorKind::MissingOperand(i) => ParseErrorKind::MissingOperand(*i),
        ParseErrorKind::InvalidOperand(s) => ParseErrorKind::InvalidOperand(s.clone()),
        ParseErrorKind::ExtraToken(s) => ParseErrorKind::ExtraToken(s.clone()),
    }
}

/// Parses every line of tokens.
pub fn parse_lines<'a>(lines: &[Vec<&'a str>]) -> (parsed: Vec<ParsedLine<'a>>)
    ensures
        parsed_views(parsed@) == lines_spec(line_views(lines@)),
{
    let mut parsed: Vec<ParsedLine<'a>> = Vec::new();
    let mut i: usize = 0;
    while i < lines.len()
        invariant
            i <= lines@.len(),
            parsed@.len() == i,
            forall|j: int| 0 <= j < i ==> (#[trigger] parsed@[j])@ == line_spec(line_views(lines@)[j]),
        decreases lines@.len() - i,
    {
        let line = parse_line(lines[i].as_slice());
        parsed.push(line);
        i += 1;
    }
    assert(parsed_views(parsed@) =~= lines_spec(line_views(lines@)));
    parsed
}

/// Parses lines of tokens into a program: see [`parse_spec`].
pub fn parse<'a>(lines: &[Vec<&'a str>]) -> (r: Result<Program, ParseError>)
    ensures
        match r {
            Ok(program) => parse_spec(line_views(lines@)) == Ok::<
                (Seq<Instruction>, i32),
                (usize, Failure),
            >((program.instructions@, program.start_instruction_index)),
            Err(e) => parse_spec(line_views(lines@)) == Err::<
                (Seq<Instruction>, i32),
                (usize, Failure),
            >(e@),
        },
{
    let parsed = parse_lines(lines);
    assemble_lines(parsed.as_slice())
}

/// A program starts at the index of the label `start`, and at index 0
/// where no line declares that label.
pub proof fn lemma_start_label(lines: Seq<Line>)
    requires
        program_spec(lines) is Ok,
    ensures
        gather_spec(lines) matches Ok(labels) && program_spec(lines)->Ok_0.1 == if labels.contains_key(
            "start"@,
        ) {
            index_value(labels["start"@])
        } else {
            0
        },
{
}

} // verus!
