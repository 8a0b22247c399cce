//! The parser: from lines of tokens to a program.
//!
//! Each line is parsed by itself into labels and at most one instruction
//! whose operands may still name labels; the labels of all lines are then
//! gathered into a table, and every instruction is resolved against it.

pub mod inline;
pub mod line_parser;
pub mod parser;
pub mod register;
pub mod resolver;
pub mod unresolved_instruction;

pub use self::parser::{parse, ParseError, ParseErrorKind};

use self::parser::{gather_spec, lines_spec, parse_lines};
use self::resolver::resolve_labels;
use crate::htab::LabelTable;
use crate::text::{line_views, to_chars};
use vstd::prelude::*;

verus! {

/// The characters that a label may start with.
pub open spec fn label_start(c: char) -> bool {
    c == '$' || c == '@' || c == '_' || ('A' <= c <= 'Z') || ('a' <= c <= 'z')
}

/// The characters that a label may go on with.
pub open spec fn label_char(c: char) -> bool {
    ('0' <= c <= '9') || label_start(c)
}

/// Whether `s` is a label name: a start character, then label characters.
pub open spec fn valid_label(s: Seq<char>) -> bool {
    &&& s.len() > 0
    &&& label_start(s[0])
    &&& forall|i: int| 0 < i < s.len() ==> label_char(#[trigger] s[i])
}

/// Whether `c` may start a label.
fn is_label_start(c: char) -> (yes: bool)
    ensures
        yes == label_start(c),
{
    c == '$' || c == '@' || c == '_' || ('A' <= c && c <= 'Z') || ('a' <= c && c <= 'z')
}

/// Whether `c` may stand in a label after its start.
fn is_label_char(c: char) -> (yes: bool)
    ensures
        yes == label_char(c),
{
    ('0' <= c && c <= '9') || is_label_start(c)
}

/// Whether the characters `s[..to]` are a label name.
pub fn is_label(s: &[char], to: usize) -> (yes: bool)
    requires
        to <= s@.len(),
    ensures
        yes == valid_label(s@.take(to as int)),
{
    if to == 0 || !is_label_start(s[0]) {
        return false;
    }
    let mut i: usize = 1;
    while i < to
        invariant
            1 <= i <= to <= s@.len(),
            forall|j: int| 0 < j < i ==> label_char(#[trigger] s@[j]),
        decreases to - i,
    {
        if !is_label_char(s[i]) {
            assert(!label_char(s@.take(to as int)[i as int]));
            return false;
        }
        i += 1;
    }
    assert forall|j: int| 0 < j < s@.take(to as int).len() implies label_char(
        #[trigger] s@.take(to as int)[j],
    ) by {
        assert(s@.take(to as int)[j] == s@[j]);
    }
    true
}

/// Whether `s` is a label name.
pub fn is_valid_label(s: &str) -> (yes: bool)
    ensures
        yes == valid_label(s@),
{
    let chars = to_chars(s);
    assert(chars@.take(chars@.len() as int) =~= chars@);
    is_label(chars.as_slice(), chars.len())
}

/// Why the labels of a source could not be gathered.
#[derive(Debug, PartialEq, Eq, Clone)]
pub enum ParseLabelsError {
    /// A label that an earlier declaration already defined.
    DuplicateDefinition(String),
}

/// Gathers the labels of lines of tokens: every label is bound to the
/// number of instructions that the lines before its own write. The error
/// names the first label that is declared twice.
pub fn parse_labels(lines: &[Vec<&str>]) -> (r: Result<LabelTable, ParseLabelsError>)
    ensures
        match r {
            Ok(table) => gather_spec(lines_spec(line_views(lines@))) == Ok::<
                Map<Seq<char>, usize>,
                (usize, Seq<char>),
            >(table@),
            Err(ParseLabelsError::DuplicateDefinition(name)) => gather_spec(
                lines_spec(line_views(lines@)),
            ) matches Err((_, twice)) && twice == name@,
        },
{
    let parsed = parse_lines(lines);
    resolve_labels(parsed.as_slice())
}

} // verus!
