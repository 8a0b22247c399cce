//! Label transparency: a program is the same once the labels that its
//! operands name are replaced by the indices of the labels.

use super::line_parser::{
    label_count, lemma_label_count, lemma_label_count_is, line_spec, Line, LineInstruction,
};
use super::parser::{
    add_labels, emitted, gather_spec, lines_spec, parse_spec, program_spec, resolve_all, Failure,
};
use super::resolver::{index_value, resolve_arg, resolve_spec};
use super::unresolved_instruction::{
    instruction_spec, shape_of, source_spec, target_spec, Arg, Shape, Unresolved,
};
use super::valid_label;
use crate::instruction::{
    decimal, lemma_decimal_is_value, opcode_named, source_of, Instruction, Source,
};
use vstd::prelude::*;

verus! {

/// An operand with the label that it names, if `labels` holds it, replaced
/// by the value that stands for the label's index.
pub open spec fn inline_arg(a: Arg, labels: Map<Seq<char>, usize>) -> Arg {
    match a {
        Arg::Label(name) => if labels.contains_key(name) {
            Arg::Known(Source::Value(index_value(labels[name])))
        } else {
            a
        },
        _ => a,
    }
}

/// An instruction with every label that it names replaced by the value
/// that stands for the label's index.
pub open spec fn inline_instruction(u: Unresolved, labels: Map<Seq<char>, usize>) -> Unresolved {
    Unresolved {
        opcode: u.opcode,
        target: u.target,
        sources: Seq::new(u.sources.len(), |i: int| inline_arg(u.sources[i], labels)),
    }
}

/// A line without its label declarations, and with every label that its
/// instruction names replaced by the value that stands for the label's
/// index.
pub open spec fn inline_line(line: Line, labels: Map<Seq<char>, usize>) -> Line {
    Line {
        labels: Seq::empty(),
        instruction: match line.instruction {
            LineInstruction::Parsed(u) => LineInstruction::Parsed(inline_instruction(u, labels)),
            other => other,
        },
    }
}

/// Each line as [`inline_line`] gives it.
pub open spec fn inline_labels(lines: Seq<Line>, labels: Map<Seq<char>, usize>) -> Seq<Line> {
    Seq::new(lines.len(), |i: int| inline_line(lines[i], labels))
}

/// An instruction that resolves against `labels` resolves to the same
/// against any table once its labels are replaced by their values.
pub proof fn lemma_inline_instruction(
    u: Unresolved,
    labels: Map<Seq<char>, usize>,
    other: Map<Seq<char>, usize>,
)
    requires
        resolve_spec(u, labels) is Ok,
        u.sources.len() <= 2,
    ensures
        resolve_spec(inline_instruction(u, labels), other) == resolve_spec(u, labels),
{
    let v = inline_instruction(u, labels);
    if u.sources.len() >= 1 {
        assert(resolve_arg(v.sources[0], other) == resolve_arg(u.sources[0], labels));
    }
    if u.sources.len() == 2 {
        assert(resolve_arg(v.sources[1], other) == resolve_arg(u.sources[1], labels));
    }
}

/// Lines without label declarations have an empty label table.
proof fn lemma_gather_without_labels(lines: Seq<Line>)
    requires
        forall|i: int| 0 <= i < lines.len() ==> (#[trigger] lines[i]).labels.len() == 0,
    ensures
        gather_spec(lines) == Ok::<Map<Seq<char>, usize>, (usize, Seq<char>)>(Map::empty()),
    decreases lines.len(),
{
    if lines.len() > 0 {
        lemma_gather_without_labels(lines.drop_last());
        assert(lines.last() == lines[lines.len() - 1]);
    }
}

/// Lines that resolve against `labels` resolve to the same instructions
/// against any table once their labels are replaced by their values.
proof fn lemma_resolve_inlined(
    lines: Seq<Line>,
    labels: Map<Seq<char>, usize>,
    other: Map<Seq<char>, usize>,
)
    requires
        resolve_all(lines, labels) is Ok,
        forall|i: int|
            0 <= i < lines.len() ==> ((#[trigger] lines[i]).instruction matches LineInstruction::Parsed(
                u,
            ) ==> u.sources.len() <= 2),
    ensures
        resolve_all(inline_labels(lines, labels), other) == resolve_all(lines, labels),
    decreases lines.len(),
{
    if lines.len() > 0 {
        let inlined = inline_labels(lines, labels);
        assert(inlined.drop_last() =~= inline_labels(lines.drop_last(), labels));
        assert(inlined.last() == inline_line(lines.last(), labels));
        assert(lines.last() == lines[lines.len() - 1]);
        assert forall|i: int| 0 <= i < lines.drop_last().len() implies ((
            #[trigger] lines.drop_last()[i]).instruction matches LineInstruction::Parsed(u)
            ==> u.sources.len() <= 2) by {
            assert(lines.drop_last()[i] == lines[i]);
        }
        lemma_resolve_inlined(lines.drop_last(), labels, other);
        match lines.last().instruction {
            LineInstruction::Parsed(u) => {
                lemma_inline_instruction(u, labels, other);
            },
            _ => {},
        }
    }
}

/// Label transparency: lines that make a program make a program of the
/// same instructions once every label declaration is taken out and every
/// label that an operand names is replaced by the label's index. Without
/// declarations that program starts at index 0: it is the same program
/// where the lines declare no `start`, or declare it at index 0.
pub proof fn lemma_label_transparency(tokens: Seq<Seq<Seq<char>>>)
    requires
        parse_spec(tokens) is Ok,
    ensures
        gather_spec(lines_spec(tokens)) is Ok,
        program_spec(inline_labels(lines_spec(tokens), gather_spec(lines_spec(tokens))->Ok_0))
            == Ok::<(Seq<Instruction>, i32), (usize, Failure)>(
            (parse_spec(tokens)->Ok_0.0, 0i32),
        ),
{
    let lines = lines_spec(tokens);
    let labels = gather_spec(lines)->Ok_0;
    let inlined = inline_labels(lines, labels);
    assert forall|i: int| 0 <= i < lines.len() implies ((
        #[trigger] lines[i]).instruction matches LineInstruction::Parsed(u) ==> u.sources.len()
        <= 2) by {
        assert(lines[i] == line_spec(tokens[i]));
    }
    lemma_gather_without_labels(inlined);
    lemma_resolve_inlined(lines, labels, Map::empty());
}

/// An operand token with the label that it names, if `labels` holds it,
/// replaced by the decimal numeral of the label's index.
pub open spec fn inline_token(token: Seq<char>, labels: Map<Seq<char>, usize>) -> Seq<char> {
    if source_of(token) is None && valid_label(token) && labels.contains_key(token) {
        decimal(labels[token] as nat)
    } else {
        token
    }
}

/// The tokens of a line without its label declarations, and with every
/// label that an operand names replaced by the decimal numeral of the
/// label's index.
pub open spec fn inline_tokens(tokens: Seq<Seq<char>>, labels: Map<Seq<char>, usize>) -> Seq<
    Seq<char>,
> {
    let n = label_count(tokens) as int;
    Seq::new(
        (tokens.len() - n) as nat,
        |i: int|
            if i == 0 {
                tokens[n]
            } else {
                inline_token(tokens[n + i], labels)
            },
    )
}

/// Each line of tokens as [`inline_tokens`] gives it.
pub open spec fn inline_source(tokens: Seq<Seq<Seq<char>>>, labels: Map<Seq<char>, usize>) -> Seq<
    Seq<Seq<char>>,
> {
    Seq::new(tokens.len(), |i: int| inline_tokens(tokens[i], labels))
}

/// Whether every index that `labels` holds fits in an operand.
pub open spec fn indices_fit(labels: Map<Seq<char>, usize>) -> bool {
    forall|name: Seq<char>| #[trigger] labels.contains_key(name) ==> labels[name] <= i32::MAX
}

/// A source operand reads the same once its token has its label replaced
/// by the numeral of the label's index, and a target operand is as it was.
proof fn lemma_inline_operand(
    rest: Seq<Seq<char>>,
    replaced: Seq<Seq<char>>,
    labels: Map<Seq<char>, usize>,
    index: usize,
)
    requires
        indices_fit(labels),
        replaced.len() == rest.len(),
        index < rest.len() ==> replaced[index as int] == inline_token(rest[index as int], labels),
        source_spec(rest, index) matches Ok(Arg::Label(name)) ==> labels.contains_key(name),
    ensures
        source_spec(rest, index) matches Ok(a) ==> source_spec(replaced, index) == Ok::<
            Arg,
            Failure,
        >(inline_arg(a, labels)),
        target_spec(rest, index) is Ok ==> target_spec(replaced, index) == target_spec(
            rest,
            index,
        ),
{
    if index < rest.len() {
        let token = rest[index as int];
        if source_of(token) is None && valid_label(token) && labels.contains_key(token) {
            lemma_decimal_is_value(labels[token] as nat);
        }
    }
}

/// The line that tokens write once its label declarations are taken out
/// and the labels of its operands are replaced by numerals is the line
/// that [`inline_line`] gives.
pub proof fn lemma_inline_tokens(tokens: Seq<Seq<char>>, labels: Map<Seq<char>, usize>)
    requires
        indices_fit(labels),
        !(line_spec(tokens).instruction is Invalid),
        line_spec(tokens).instruction matches LineInstruction::Parsed(u) ==> resolve_spec(
            u,
            labels,
        ) is Ok,
    ensures
        line_spec(inline_tokens(tokens, labels)) == inline_line(line_spec(tokens), labels),
{
    lemma_label_count(tokens);
    let n = label_count(tokens) as int;
    let replaced = inline_tokens(tokens, labels);
    if n == tokens.len() {
        assert(replaced =~= Seq::<Seq<char>>::empty());
        assert(line_spec(replaced).labels =~= Seq::<Seq<char>>::empty());
    } else {
        let rest = tokens.skip(n);
        assert(replaced[0] == tokens[n]);
        lemma_label_count_is(replaced, 0);
        assert(replaced.skip(0) =~= replaced);
        assert(line_spec(replaced).labels =~= Seq::<Seq<char>>::empty());
        let u = instruction_spec(rest)->Ok_0;
        assert(rest[0] == replaced[0]);
        assert(rest.len() == replaced.len());
        assert(rest.len() > 1 ==> replaced[1] == inline_token(rest[1], labels));
        assert(rest.len() > 2 ==> replaced[2] == inline_token(rest[2], labels));
        assert(rest.len() > 1 ==> rest[1] == tokens[n + 1]);
        assert(rest.len() > 2 ==> rest[2] == tokens[n + 2]);
        lemma_inline_operand(rest, replaced, labels, 1);
        lemma_inline_operand(rest, replaced, labels, 2);
        let v = inline_instruction(u, labels);
        let opcode = opcode_named(rest[0])->0;
        match shape_of(opcode) {
            Shape::Nullary => {
                assert(v.sources =~= Seq::<Arg>::empty());
            },
            Shape::Target => {
                assert(v.sources =~= Seq::<Arg>::empty());
            },
            Shape::Source => {
                assert(v.sources =~= seq![inline_arg(u.sources[0], labels)]);
            },
            Shape::TargetSource => {
                assert(v.sources =~= seq![inline_arg(u.sources[0], labels)]);
            },
            Shape::SourceSource => {
                assert(v.sources =~= seq![
                    inline_arg(u.sources[0], labels),
                    inline_arg(u.sources[1], labels),
                ]);
            },
        }
        assert(instruction_spec(replaced) == Ok::<Unresolved, Failure>(v));
    }
}

/// Binding labels of one line keeps the indices in a table under a bound
/// that holds of the table and of the index of the line.
proof fn lemma_add_labels_bounded(
    table: Map<Seq<char>, usize>,
    labels: Seq<Seq<char>>,
    count: usize,
    bound: int,
)
    requires
        count <= bound,
        forall|name: Seq<char>| #[trigger] table.contains_key(name) ==> table[name] <= bound,
    ensures
        add_labels(table, labels, count) matches Ok(bound_table) ==> forall|name: Seq<char>| #[trigger]
            bound_table.contains_key(name) ==> bound_table[name] <= bound,
    decreases labels.len(),
{
    if labels.len() > 0 {
        lemma_add_labels_bounded(table, labels.drop_last(), count, bound);
    }
}

/// No label index is larger than the number of lines.
proof fn lemma_gather_bounded(lines: Seq<Line>)
    ensures
        emitted(lines) <= lines.len(),
        gather_spec(lines) matches Ok(table) ==> forall|name: Seq<char>| #[trigger]
            table.contains_key(name) ==> table[name] <= lines.len(),
    decreases lines.len(),
{
    if lines.len() > 0 {
        lemma_gather_bounded(lines.drop_last());
        if let Ok(table) = gather_spec(lines.drop_last()) {
            lemma_add_labels_bounded(
                table,
                lines.last().labels,
                emitted(lines.drop_last()) as usize,
                lines.len() as int,
            );
        }
    }
}

/// Where lines resolve, each of them writes no wrong instruction, and its
/// instruction resolves.
proof fn lemma_resolve_all_each(lines: Seq<Line>, labels: Map<Seq<char>, usize>, i: int)
    requires
        resolve_all(lines, labels) is Ok,
        0 <= i < lines.len(),
    ensures
        !(lines[i].instruction is Invalid),
        lines[i].instruction matches LineInstruction::Parsed(u) ==> resolve_spec(u, labels) is Ok,
    decreases lines.len(),
{
    if i < lines.len() - 1 {
        lemma_resolve_all_each(lines.drop_last(), labels, i);
        assert(lines.drop_last()[i] == lines[i]);
    } else {
        assert(lines.last() == lines[i]);
    }
}

/// Label transparency on tokens: lines of tokens that write a program
/// write a program of the same instructions once every label declaration
/// is taken out and every label that an operand names is replaced by the
/// decimal numeral of the label's index. That program starts at index 0:
/// it is the same program where the lines declare no `start`, or declare
/// it at index 0. The lines are few enough for every index to fit in an
/// operand.
pub proof fn lemma_label_transparency_of_tokens(tokens: Seq<Seq<Seq<char>>>)
    requires
        parse_spec(tokens) is Ok,
        tokens.len() <= i32::MAX,
    ensures
        gather_spec(lines_spec(tokens)) is Ok,
        parse_spec(inline_source(tokens, gather_spec(lines_spec(tokens))->Ok_0)) == Ok::<
            (Seq<Instruction>, i32),
            (usize, Failure),
        >((parse_spec(tokens)->Ok_0.0, 0i32)),
{
    let lines = lines_spec(tokens);
    let labels = gather_spec(lines)->Ok_0;
    lemma_gather_bounded(lines);
    assert(indices_fit(labels));
    let replaced = inline_source(tokens, labels);
    assert forall|i: int| 0 <= i < tokens.len() implies #[trigger] lines_spec(replaced)[i]
        == inline_labels(lines, labels)[i] by {
        lemma_resolve_all_each(lines, labels, i);
        assert(lines[i] == line_spec(tokens[i]));
        lemma_inline_tokens(tokens[i], labels);
    }
    assert(lines_spec(replaced) =~= inline_labels(lines, labels));
    lemma_label_transparency(tokens);
}

} // verus!
