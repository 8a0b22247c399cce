use tinyvm::instruction::{Register, Target};
use tinyvm::parser::line_parser::{parse_line, ParsedLine, ParsedLineInstruction};
use tinyvm::parser::line_parser::ParsedLineInstruction::{Empty, Invalid, Parsed};
use tinyvm::parser::unresolved_instruction::{UnresolvedInstruction, UnresolvedSource};
use tinyvm::parser::ParseErrorKind;

fn run(tokens: &[&str], expected_labels: &[&str], expected_instruction: ParsedLineInstruction) {
    assert_eq!(
        parse_line(tokens),
        ParsedLine {
            labels: expected_labels.to_owned(),
            instruction: expected_instruction
        }
    );
}

#[test]
fn line_parser_can_parse_empty_line() {
    run(&[], &[], Empty);
}

#[test]
fn line_parser_can_parse_line_with_only_instruction() {
    run(&["nop"], &[], Parsed(UnresolvedInstruction::Nop));
}

#[test]
fn line_parser_can_parse_line_with_instruction_and_operands() {
    run(
        &["inc", "eax"],
        &[],
        Parsed(UnresolvedInstruction::Inc(Target::Register(Register::Eax))),
    );
    run(
        &["add", "ebx", "1"],
        &[],
        Parsed(UnresolvedInstruction::Add(
            Target::Register(Register::Ebx),
            UnresolvedSource::Value(1),
        )),
    );
    run(
        &["jmp", "label"],
        &[],
        Parsed(UnresolvedInstruction::Jmp(UnresolvedSource::Label("label"))),
    );
}

#[test]
fn line_parser_can_parse_line_with_only_labels() {
    run(&["label1:"], &["label1"], Empty);
    run(&["label1:", "label2:"], &["label1", "label2"], Empty);
}

#[test]
fn line_parser_can_parse_line_with_labels_and_instruction() {
    run(
        &["label1:", "nop"],
        &["label1"],
        Parsed(UnresolvedInstruction::Nop),
    );
    run(
        &["label1:", "label2:", "nop"],
        &["label1", "label2"],
        Parsed(UnresolvedInstruction::Nop),
    );

    run(
        &["label1:", "inc", "eax"],
        &["label1"],
        Parsed(UnresolvedInstruction::Inc(Target::Register(Register::Eax))),
    );
    run(
        &["label1:", "label2:", "inc", "eax"],
        &["label1", "label2"],
        Parsed(UnresolvedInstruction::Inc(Target::Register(Register::Eax))),
    );
}

#[test]
fn line_parser_errors_are_correctly_reported() {
    run(
        &["push", "label1:"],
        &[],
        Invalid(ParseErrorKind::InvalidOperand("label1:".to_owned())),
    );
    run(
        &["pop", "label1:"],
        &[],
        Invalid(ParseErrorKind::InvalidOperand("label1:".to_owned())),
    );
    run(
        &["bad"],
        &[],
        Invalid(ParseErrorKind::InvalidInstruction("bad".to_owned())),
    );
    run(
        &["add", "eax"],
        &[],
        Invalid(ParseErrorKind::MissingOperand(2)),
    );
    run(
        &["nop", "eax"],
        &[],
        Invalid(ParseErrorKind::ExtraToken("eax".to_owned())),
    );
    run(
        &["inc", "eax", "ebx"],
        &[],
        Invalid(ParseErrorKind::ExtraToken("ebx".to_owned())),
    );
}

#[test]
fn line_parser_labels_are_returned_for_lines_with_errors() {
    run(
        &["label1:", "bad"],
        &["label1"],
        Invalid(ParseErrorKind::InvalidInstruction("bad".to_owned())),
    );
}

#[test]
fn garbage_with_colon_is_not_parsed_as_label() {
    run(
        &["wef(#):", "inc", "eax"],
        &[],
        Invalid(ParseErrorKind::InvalidInstruction("wef(#):".to_owned())),
    );
}

#[test]
fn label_after_the_mnemonic_is_an_operand() {
    run(
        &["nop", "label1:"],
        &[],
        Invalid(ParseErrorKind::ExtraToken("label1:".to_owned())),
    );
}

#[test]
fn label_names_follow_the_identifier_rule() {
    run(&["_a$@9:"], &["_a$@9"], Empty);
    run(
        &["9a:"],
        &[],
        Invalid(ParseErrorKind::InvalidInstruction("9a:".to_owned())),
    );
    run(
        &[":"],
        &[],
        Invalid(ParseErrorKind::InvalidInstruction(":".to_owned())),
    );
}
