use tinyvm::htab::{HashTable, LabelTable};
use tinyvm::instruction::{Instruction, Register, Source, Target};
use tinyvm::lexer::LexerContext;
use tinyvm::parser::line_parser::parse_line;
use tinyvm::parser::parser::{assemble_lines, gather_label_values, parse_lines};
use tinyvm::parser::resolver::{resolve, resolve_labels};
use tinyvm::parser::unresolved_instruction::{UnresolvedInstruction, UnresolvedSource};
use tinyvm::parser::{
    is_valid_label, parse, parse_labels, ParseError, ParseErrorKind, ParseLabelsError,
};
use tinyvm::parser::register::parse_register;

const LONG: &str = "label1: add eax, ebx\njmp label4\nstart: inc ebx \n\ndec eax\nlabel2: sub eax, label1\nlabel3:\nlabel4:\ninc eax\njmp start\njmp label3";

#[test]
fn can_parse_with_resolved_labels() {
    let htab = HashTable::default();
    let lexer = LexerContext::lex(LONG, &htab);
    let result = parse(&lexer.tokens()).unwrap();

    assert_eq!(
        result.instructions,
        &[
            Instruction::Add(
                Target::Register(Register::Eax),
                Source::Register(Register::Ebx)
            ),
            Instruction::Jmp(Source::Value(5)),
            Instruction::Inc(Target::Register(Register::Ebx)),
            Instruction::Dec(Target::Register(Register::Eax)),
            Instruction::Sub(Target::Register(Register::Eax), Source::Value(0)),
            Instruction::Inc(Target::Register(Register::Eax)),
            Instruction::Jmp(Source::Value(2)),
            Instruction::Jmp(Source::Value(5)),
        ]
    );
}

#[test]
fn start_instruction_index_is_set_to_the_start_label() {
    let htab = HashTable::default();
    let lexer = LexerContext::lex(LONG, &htab);
    let result = parse(&lexer.tokens()).unwrap();

    assert_eq!(result.start_instruction_index, 2);
}

#[test]
fn start_instruction_index_is_zero_if_no_start_label_exists() {
    let htab = HashTable::default();
    let lexer = LexerContext::lex("label1: add eax, ebx\njmp label4\ninc ebx \n\ndec eax\nlabel2: sub eax, label1\nlabel3:\nlabel4:\ninc eax", &htab);
    let result = parse(&lexer.tokens()).unwrap();

    assert_eq!(result.start_instruction_index, 0);
}

#[test]
fn returns_duplicate_definition_error_if_a_label_is_defined_twice() {
    let htab = HashTable::default();
    let lexer = LexerContext::lex(
        "label1: add eax, ebx\n\nlabel1: inc ebx\nlabel2: dec eax",
        &htab,
    );
    let result = parse(&lexer.tokens());

    match result {
        Err(e) => {
            assert_eq!(e.line_index, 2);
            assert_eq!(e.error, ParseErrorKind::DuplicateLabel("label1".to_owned()));
        }
        Ok(_) => panic!("Expected failure"),
    }
}

#[test]
fn returns_undefined_error_if_a_label_is_not_defined() {
    let htab = HashTable::default();
    let lexer = LexerContext::lex("inc eax\n\njmp label1", &htab);
    let result = parse(&lexer.tokens());

    match result {
        Err(e) => {
            assert_eq!(e.line_index, 2);
            assert_eq!(e.error, ParseErrorKind::UndefinedLabel("label1".to_owned()));
        }
        Ok(_) => panic!("Expected failure"),
    }
}

#[test]
fn parse_errors_are_correctly_returned() {
    let htab = HashTable::default();
    let lexer = LexerContext::lex("inc eax\n\nbad", &htab);
    let result = parse(&lexer.tokens());

    match result {
        Err(e) => {
            assert_eq!(e.line_index, 2);
            assert_eq!(
                e.error,
                ParseErrorKind::InvalidInstruction("bad".to_owned())
            );
        }
        Ok(_) => panic!("Expected failure"),
    }
}

fn check_labels(result: Result<LabelTable, ParseLabelsError>, expected_labels: Option<&[(&str, usize)]>) {
    match expected_labels {
        None => {
            assert!(result.is_err());
        }
        Some(expected_labels) => {
            let actual_labels = result.unwrap();
            assert_eq!(actual_labels.len(), expected_labels.len());
            for expected_label in expected_labels {
                assert_eq!(
                    actual_labels.get(expected_label.0).unwrap(),
                    expected_label.1
                );
            }
        }
    }
}

fn run_resolve_labels(source: &str, expected_labels: Option<&[(&str, usize)]>) {
    let defines = HashTable::default();
    let lexer = LexerContext::lex(source, &defines);
    let lines: Vec<_> = lexer.tokens().iter().map(|line| parse_line(line)).collect();
    check_labels(resolve_labels(&lines), expected_labels);
}

fn run_parse_labels(source: &str, expected_labels: Option<&[(&str, usize)]>) {
    let defines = HashTable::default();
    let lexer = LexerContext::lex(source, &defines);
    check_labels(parse_labels(lexer.tokens()), expected_labels);
}

const LABELS: &str = "label1: add eax, ebx\nstart: inc ebx \n\ndec eax\nlabel2: sub eax, ebx\nlabel3:\nlabel4:\ninc eax";

#[test]
fn resolve_labels_can_resolve_labels() {
    run_resolve_labels(
        LABELS,
        Some(&[("label1", 0), ("start", 1), ("label2", 3), ("label3", 4), ("label4", 4)]),
    );
}

#[test]
fn resolve_labels_returns_if_a_label_is_defined_twice() {
    run_resolve_labels("label1: add eax, ebx\nlabel1: inc ebx", None);
}

#[test]
fn resolve_labels_ignroes_invalid_instructions_when_counting_instructions() {
    run_resolve_labels("add eax, ebx\n\nbad\nlabel: inc ebx", Some(&[("label", 1)]))
}

#[test]
fn parser_parse_labels_can_parse_labels() {
    run_parse_labels(
        LABELS,
        Some(&[("label1", 0), ("start", 1), ("label2", 3), ("label3", 4), ("label4", 4)]),
    );
}

#[test]
fn parser_an_error_is_returned_if_a_label_is_defined_twice() {
    run_parse_labels("label1: add eax, ebx\nlabel1: inc ebx", None);
}

#[test]
fn parser_invalid_instructions_are_ignored_when_counting_instructions() {
    run_parse_labels("add eax, ebx\n\nbad\nlabel: inc ebx", Some(&[("label", 1)]))
}

#[test]
fn duplicate_label_error_names_the_label() {
    let defines = HashTable::default();
    let lexer = LexerContext::lex("a: nop\nb: a: nop", &defines);
    assert_eq!(
        parse_labels(lexer.tokens()).unwrap_err(),
        ParseLabelsError::DuplicateDefinition("a".to_owned())
    );
}

#[test]
fn duplicate_label_on_two_lines_is_a_load_error_on_the_second() {
    let defines = HashTable::default();
    let lexer = LexerContext::lex("a: nop\na: nop", &defines);
    assert_eq!(
        parse(lexer.tokens()),
        Err(ParseError {
            line_index: 1,
            error: ParseErrorKind::DuplicateLabel("a".to_owned())
        })
    );
}

#[test]
fn duplicate_label_comes_before_other_errors() {
    let defines = HashTable::default();
    let lexer = LexerContext::lex("bad\na: nop\na: nop", &defines);
    assert_eq!(
        parse(lexer.tokens()),
        Err(ParseError {
            line_index: 2,
            error: ParseErrorKind::DuplicateLabel("a".to_owned())
        })
    );
}

#[test]
fn labels_may_be_used_before_they_are_declared() {
    let defines = HashTable::default();
    let lexer = LexerContext::lex("jmp end\nnop\nend: nop", &defines);
    let program = parse(lexer.tokens()).unwrap();
    assert_eq!(program.instructions[0], Instruction::Jmp(Source::Value(2)));
}

#[test]
fn label_on_a_line_with_an_error_keeps_the_index() {
    let defines = HashTable::default();
    let lexer = LexerContext::lex("nop\nhere: bad\nnop", &defines);
    let lines = parse_lines(lexer.tokens());
    let labels = gather_label_values(&lines).unwrap();
    assert_eq!(labels.get("here"), Some(1));
    assert_eq!(
        assemble_lines(&lines),
        Err(ParseError {
            line_index: 1,
            error: ParseErrorKind::InvalidInstruction("bad".to_owned())
        })
    );
}

#[test]
fn label_references_resolve_like_their_indices() {
    let defines = HashTable::default();
    let with_labels = LexerContext::lex("mov eax, 3\nloop: dec eax\ncmp eax, 0\njne loop\nprn eax", &defines);
    let without = LexerContext::lex("mov eax, 3\ndec eax\ncmp eax, 0\njne 1\nprn eax", &defines);
    assert_eq!(
        parse(with_labels.tokens()).unwrap(),
        parse(without.tokens()).unwrap()
    );
}

#[test]
fn resolve_replaces_labels_by_values() {
    let mut labels = LabelTable::new();
    assert!(labels.define("there", 7));
    assert!(!labels.define("there", 8));
    assert_eq!(labels.len(), 1);
    assert_eq!(
        resolve(&UnresolvedInstruction::Call(UnresolvedSource::Label("there")), &labels),
        Ok(Instruction::Call(Source::Value(7)))
    );
    assert_eq!(
        resolve(
            &UnresolvedInstruction::Cmp(
                UnresolvedSource::Label("nowhere"),
                UnresolvedSource::Label("none")
            ),
            &labels
        ),
        Err(ParseErrorKind::UndefinedLabel("nowhere".to_owned()))
    );
    assert_eq!(
        resolve(
            &UnresolvedInstruction::Mov(Target::Address(3), UnresolvedSource::Address(4)),
            &labels
        ),
        Ok(Instruction::Mov(Target::Address(3), Source::Address(4)))
    );
}

#[test]
fn valid_labels() {
    assert!(is_valid_label("start"));
    assert!(is_valid_label("_x1"));
    assert!(is_valid_label("$"));
    assert!(is_valid_label("@A9"));
    assert!(!is_valid_label(""));
    assert!(!is_valid_label("1abc"));
    assert!(!is_valid_label("a-b"));
    assert!(!is_valid_label("caf\u{e9}"));
}

#[test]
fn register_names_are_lowercase() {
    assert_eq!(parse_register("esp"), Some(Register::Esp));
    assert_eq!(parse_register("ESP"), None);
    assert_eq!(parse_register("r8"), None);
    assert_eq!(Register::Esp.index(), 6);
    assert_eq!(Register::Ebp.index(), 7);
    assert_eq!(Register::Eip.index(), 8);
    assert_eq!(Register::Eax.index(), 0);
    assert_eq!(Register::R15.index(), 16);
}
