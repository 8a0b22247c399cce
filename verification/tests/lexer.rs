use tinyvm::htab::HashTable;
use tinyvm::lexer::{lex, LexerContext};

fn run_test(source: &str, expected_tokens: &[&[&str]]) {
    run_test_with_defines(source, &[], expected_tokens);
}

fn run_test_with_defines(source: &str, defines: &[(&str, &str)], expected_tokens: &[&[&str]]) {
    let mut defines_htab = HashTable::default();
    for define in defines {
        defines_htab.insert(define.0, define.1);
    }

    let actual: Vec<_> = lex(source, &defines_htab);

    assert_eq!(actual, expected_tokens);
}

#[test]
fn can_lex_single_line_without_newline() {
    run_test("mov eax, 1", &[&["mov", "eax", "1"]])
}

#[test]
fn can_lex_single_line_with_newline() {
    run_test("mov eax, 1\n", &[&["mov", "eax", "1"]])
}

#[test]
fn can_lex_multiple_lines() {
    run_test(
        "mov eax, 1\ninc ebx\npushf\nadd eax, 2",
        &[
            &["mov", "eax", "1"],
            &["inc", "ebx"],
            &["pushf"],
            &["add", "eax", "2"],
        ],
    );
}

#[test]
fn multiple_spaces_and_tabs_are_ignored() {
    run_test("  mov  \t  eax  ,\t  1", &[&["mov", "eax", "1"]]);
}

#[test]
fn everything_after_comment_start_until_end_of_line_is_ignored() {
    run_test(
        "mov eax, 1 #  this is some comment\n  # some other comment\n#Line comment\ndec eax#Comment\ninc eax",
        &[&["mov", "eax", "1"], &[], &[], &["dec", "eax"], &["inc", "eax"]],
    );
}

#[test]
fn can_substitute_defines() {
    run_test_with_defines(
        "mov target, source",
        &[("target", "eax"), ("source", "21")],
        &[&["mov", "eax", "21"]],
    );
}

#[test]
fn can_lex_lines_with_windows_line_endings() {
    run_test("inc eax\r\ninc ebx", &[&["inc", "eax"], &["inc", "ebx"]]);
}

#[test]
fn lexes_empty_source_to_no_lines() {
    run_test("", &[]);
    run_test("\n", &[&[]]);
    run_test("\n\n", &[&[], &[]]);
}

#[test]
fn carriage_return_at_the_end_of_the_last_line_is_dropped() {
    run_test("inc eax\r", &[&["inc", "eax"]]);
    run_test("inc eax\r\r\n", &[&["inc", "eax\r"]]);
}

#[test]
fn crlf_source_lexes_like_lf_source() {
    let lf = "start: mov eax, 1 # one\n\nprn eax\n";
    let crlf = lf.replace("\n", "\r\n");
    let defines = HashTable::new();
    assert_eq!(lex(lf, &defines), lex(&crlf, &defines));
}

#[test]
fn appended_comment_changes_no_token() {
    let defines = HashTable::new();
    assert_eq!(
        lex("mov eax, 1\nprn eax", &defines),
        lex("mov eax, 1# set\nprn eax # show, it", &defines)
    );
}

#[test]
fn unused_define_changes_no_token() {
    let mut defines = HashTable::new();
    let plain = lex("mov eax, 1", &defines);
    let plain: Vec<Vec<String>> = plain
        .iter()
        .map(|line| line.iter().map(|t| t.to_string()).collect())
        .collect();
    defines.insert("unused", "7");
    let with = lex("mov eax, 1", &defines);
    assert_eq!(with, plain);
}

#[test]
fn define_replaces_whole_tokens_only() {
    let mut defines = HashTable::new();
    defines.insert("a", "eax");
    assert_eq!(
        lex("mov a, aa", &defines),
        vec![vec!["mov", "eax", "aa"]]
    );
}

#[test]
fn lexer_context_holds_the_tokens() {
    let defines = HashTable::new();
    let context = LexerContext::lex("inc eax\nnop", &defines);
    assert_eq!(context.tokens(), &vec![vec!["inc", "eax"], vec!["nop"]]);
    assert!(LexerContext::empty().tokens().is_empty());
}
