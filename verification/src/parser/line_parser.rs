//! The line parser: the labels that a line declares and the instruction
//! that it writes, if any.

use super::parser::{Failure, ParseErrorKind};
use super::unresolved_instruction::{
    instruction_spec, Unresolved, UnresolvedInstruction,
};
use super::{is_label, valid_label};
use crate::text::{slice_views, to_chars};
use vstd::prelude::*;

verus! {

/// The instruction of a line: one, none, or the reason why its tokens
/// write none.
#[derive(Debug, PartialEq, Eq)]
pub enum ParsedLineInstruction<'a> {
    /// The instruction that the line writes.
    Parsed(UnresolvedInstruction<'a>),
    /// The line writes no instruction.
    Empty,
    /// Why the tokens of the line write no instruction.
    Invalid(ParseErrorKind),
}

/// The mathematical value of a [`ParsedLineInstruction`].
pub enum LineInstruction {
    Parsed(Unresolved),
    Empty,
    Invalid(Failure),
}

impl<'a> View for ParsedLineInstruction<'a> {
    type V = LineInstruction;

    open spec fn view(&self) -> LineInstruction {
        match self {
            ParsedLineInstruction::Parsed(u) => LineInstruction::Parsed(u@),
            ParsedLineInstruction::Empty => LineInstruction::Empty,
            ParsedLineInstruction::Invalid(e) => LineInstruction::Invalid(e@),
        }
    }
}

/// One parsed line.
#[derive(Debug, PartialEq, Eq)]
pub struct ParsedLine<'a> {
    /// The labels that the line declares, in order, without their colons.
    pub labels: Vec<&'a str>,
    pub instruction: ParsedLineInstruction<'a>,
}

/// The mathematical value of a [`ParsedLine`].
pub struct Line {
    pub labels: Seq<Seq<char>>,
    pub instruction: LineInstruction,
}

impl<'a> View for ParsedLine<'a> {
    type V = Line;

    open spec fn view(&self) -> Line {
        Line { labels: slice_views(self.labels@), instruction: self.instruction@ }
    }
}

/// Whether a token declares a label: a label name and a colon.
pub open spec fn declares_label(token: Seq<char>) -> bool {
    token.len() > 0 && token.last() == ':' && valid_label(token.drop_last())
}

/// The number of tokens at the start of a line that declare labels.
pub open spec fn label_count(tokens: Seq<Seq<char>>) -> nat
    decreases tokens.len(),
{
    if tokens.len() > 0 && declares_label(tokens[0]) {
        1 + label_count(tokens.drop_first())
    } else {
        0
    }
}

/// What `label_count` counts: the longest run of declarations at the start.
pub proof fn lemma_label_count(tokens: Seq<Seq<char>>)
    ensures
        label_count(tokens) <= tokens.len(),
        forall|i: int| 0 <= i < label_count(tokens) ==> declares_label(#[trigger] tokens[i]),
        label_count(tokens) < tokens.len() ==> !declares_label(tokens[label_count(tokens) as int]),
    decreases tokens.len(),
{
    if tokens.len() > 0 && declares_label(tokens[0]) {
        let rest = tokens.drop_first();
        lemma_label_count(rest);
        assert forall|i: int| 0 <= i < label_count(tokens) implies declares_label(
            #[trigger] tokens[i],
        ) by {
            if i > 0 {
                assert(tokens[i] == rest[i - 1]);
            }
        }
    }
}

/// A run of `n` declarations that ends before another token, or at the end
/// of the line, is the whole run.
pub proof fn lemma_label_count_is(tokens: Seq<Seq<char>>, n: int)
    requires
        0 <= n <= tokens.len(),
        forall|i: int| 0 <= i < n ==> declares_label(#[trigger] tokens[i]),
        n < tokens.len() ==> !declares_label(tokens[n]),
    ensures
        label_count(tokens) == n,
{
    lemma_label_count(tokens);
    let k = label_count(tokens) as int;
    if k < n {
        assert(declares_label(tokens[k]));
    } else if n < k {
        assert(declares_label(tokens[n]));
    }
}

/// The value of a line: its leading declarations give the labels; the
/// tokens after them, if any, write the instruction.
pub open spec fn line_spec(tokens: Seq<Seq<char>>) -> Line {
    let n = label_count(tokens) as int;
    Line {
        labels: Seq::new(n as nat, |i: int| tokens[i].drop_last()),
        instruction: if n == tokens.len() {
            LineInstruction::Empty
        } else {
            match instruction_spec(tokens.skip(n)) {
                Ok(u) => LineInstruction::Parsed(u),
                Err(e) => LineInstruction::Invalid(e),
            }
        },
    }
}

/// The label that `token` declares, if it declares one.
fn declared_label<'a>(token: &'a str) -> (label: Option<&'a str>)
    ensures
        match label {
            Some(name) => declares_label(token@) && name@ == token@.drop_last(),
            None => !declares_label(token@),
        },
{
    let chars = to_chars(token);
    let n = chars.len();
    if n > 0 && chars[n - 1] == ':' && is_label(chars.as_slice(), n - 1) {
        Some(token.substring_char(0, n - 1))
    } else {
        None
    }
}

/// Parses one line of tokens: see [`line_spec`].
pub fn parse_line<'a>(tokens: &[&'a str]) -> (line: ParsedLine<'a>)
    ensures
        line@ == line_spec(slice_views(tokens@)),
{
    let ghost views = slice_views(tokens@);
    let mut labels: Vec<&'a str> = Vec::new();
    let mut i: usize = 0;
    while i < tokens.len()
        invariant
            i <= tokens@.len(),
            views == slice_views(tokens@),
            labels@.len() == i,
            forall|j: int| 0 <= j < i ==> declares_label(#[trigger] views[j]),
            forall|j: int| 0 <= j < i ==> (#[trigger] labels@[j])@ == views[j].drop_last(),
        decreases tokens@.len() - i,
    {
        match declared_label(tokens[i]) {
            Some(name) => {
                labels.push(name);
            },
            None => {
                let rest = &tokens[i..tokens.len()];
                let parsed = UnresolvedInstruction::parse(rest);
                proof {
                    lemma_label_count_is(views, i as int);
                    assert(slice_views(rest@) =~= views.skip(i as int));
                    assert(slice_views(labels@) =~= line_spec(views).labels);
                }
                return ParsedLine {
                    labels,
                    instruction: match parsed {
                        Ok(u) => ParsedLineInstruction::Parsed(u),
                        Err(e) => ParsedLineInstruction::Invalid(e),
                    },
                };
            },
        }
        i += 1;
    }
    proof {
        lemma_label_count_is(views, i as int);
        assert(slice_views(labels@) =~= line_spec(views).labels);
    }
    ParsedLine { labels, instruction: ParsedLineInstruction::Empty }
}

} // verus!
