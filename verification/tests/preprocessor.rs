use tinyvm::htab::HashTable;
use tinyvm::preprocessor::{
    next_include, parse_define, preprocess, process_defines, process_includes, resume,
    Preprocessed, PreprocessingError,
};

#[test]
fn find_all_defines() {
    let src = "%define true 1\nsome random text\n%define FOO_BAR -42\n";
    let mut defines = HashTable::default();

    let preprocessed = preprocess(src.to_string(), &mut defines).unwrap();

    assert_eq!(
        preprocessed,
        Preprocessed::Done("\nsome random text\n\n".to_string())
    );
    assert_eq!(defines.get("true"), Some("1"));
    assert_eq!(defines.get("FOO_BAR"), Some("-42"));
}

#[test]
fn include_another_file() {
    const TOP_LEVEL: &str = "first line\n%include nested\nlast line\n";
    const NESTED: &str = "first nested\n%include reallynested\nlast nested\n";
    const REALLY_NESTED: &str = "really nested\n";

    let mut defines = HashTable::default();
    let first = preprocess(TOP_LEVEL.to_string(), &mut defines).unwrap();
    let src = match first {
        Preprocessed::Include { name, src } => {
            assert_eq!(name, "nested");
            src
        }
        other => panic!("Expected an include, found {:?}", other),
    };
    let second = resume(src, NESTED, &mut defines).unwrap();
    let src = match second {
        Preprocessed::Include { name, src } => {
            assert_eq!(name, "reallynested");
            src
        }
        other => panic!("Expected an include, found {:?}", other),
    };
    let third = resume(src, REALLY_NESTED, &mut defines).unwrap();

    assert_eq!(
        third,
        Preprocessed::Done(
            "first line\nfirst nested\nreally nested\nlast nested\nlast line\n".to_string()
        )
    );
}

#[test]
fn empty_string() {
    let src = String::from("");
    let mut hashtable = HashTable::default();

    let (got, replacements) = process_defines(src, &mut hashtable).unwrap();

    assert!(got.is_empty());
    assert_eq!(replacements, false);
    assert!(hashtable.is_empty());
}

#[test]
fn false_percent() {
    let src = String::from("this string contains a % symbol");
    let mut hashtable = HashTable::default();

    let (got, replacements) = process_defines(src.clone(), &mut hashtable).unwrap();

    assert_eq!(got, src);
    assert_eq!(replacements, false);
    assert!(hashtable.is_empty());
}

#[test]
fn define_without_key_and_value() {
    let src = String::from("%define\n");
    let mut hashtable = HashTable::default();

    let err = process_defines(src.clone(), &mut hashtable).unwrap_err();

    match err {
        PreprocessingError::EmptyDefine => {}
        other => panic!("Expected EmptyDefine, found {:?}", other),
    }
}

#[test]
fn define_without_value() {
    let src = String::from("%define key\n");
    let mut hashtable = HashTable::default();

    let err = process_defines(src.clone(), &mut hashtable).unwrap_err();

    match err {
        PreprocessingError::DefineWithoutValue(key) => assert_eq!(key, "key"),
        other => panic!("Expected DefineWithoutValue, found {:?}", other),
    }
}

#[test]
fn valid_define() {
    let src = String::from("%define key value\n");
    let mut hashtable = HashTable::default();

    let (got, had_defines) = process_defines(src.clone(), &mut hashtable).unwrap();

    assert_eq!(got, "\n");
    assert_eq!(had_defines, true);
    assert_eq!(hashtable.len(), 1);
    assert_eq!(hashtable.get("key").unwrap(), "value");
}

#[test]
fn duplicate_define_keeps_both_texts() {
    let mut defines = HashTable::default();
    let err = preprocess("%define a 1\n%define a  two words \n".to_string(), &mut defines)
        .unwrap_err();
    assert_eq!(
        err,
        PreprocessingError::DuplicateDefine {
            name: "a".to_string(),
            original_value: "1".to_string(),
            new_value: "two words".to_string(),
        }
    );
    assert_eq!(defines.get("a"), Some("1"));
}

#[test]
fn define_on_the_last_line_without_line_feed() {
    let mut defines = HashTable::default();
    let done = preprocess("nop\n%define k v".to_string(), &mut defines).unwrap();
    assert_eq!(done, Preprocessed::Done("nop\n\n".to_string()));
    assert_eq!(defines.get("k"), Some("v"));
}

#[test]
fn directive_may_start_anywhere_on_a_line() {
    let mut defines = HashTable::default();
    let done = preprocess("mov eax, 1 %define one 1\nprn one\n".to_string(), &mut defines)
        .unwrap();
    assert_eq!(done, Preprocessed::Done("mov eax, 1 \nprn one\n".to_string()));
    assert_eq!(defines.get("one"), Some("1"));
}

#[test]
fn define_text_is_the_trimmed_rest_of_the_line() {
    let mut defines = HashTable::default();
    assert_eq!(parse_define("key   a b\t", &mut defines), Ok(()));
    assert_eq!(defines.get("key"), Some("a b"));
    assert_eq!(
        parse_define("", &mut defines),
        Err(PreprocessingError::EmptyDefine)
    );
    assert_eq!(
        parse_define("only\tthis", &mut defines),
        Err(PreprocessingError::DefineWithoutValue("only\tthis".to_string()))
    );
}

#[test]
fn include_is_named_by_the_trimmed_rest_of_its_line() {
    assert_eq!(
        next_include("a\n  %include   lib/io.vm  \nb"),
        Some("lib/io.vm".to_string())
    );
    assert_eq!(next_include("no directive here"), None);
    assert_eq!(
        process_includes("a\n%include x\nb".to_string(), "X\n"),
        ("a\nX\nb".to_string(), true)
    );
    assert_eq!(
        process_includes("a\nb".to_string(), "X\n"),
        ("a\nb".to_string(), false)
    );
}

#[test]
fn include_comes_before_define_in_a_round() {
    let mut defines = HashTable::default();
    let first = preprocess("%define a 1\n%include f\n".to_string(), &mut defines).unwrap();
    assert_eq!(
        first,
        Preprocessed::Include {
            name: "f".to_string(),
            src: "%define a 1\n%include f\n".to_string()
        }
    );
    assert!(defines.is_empty());
    let done = resume("%define a 1\n%include f\n".to_string(), "%define b 2\n", &mut defines)
        .unwrap();
    assert_eq!(done, Preprocessed::Done("\n\n".to_string()));
    assert_eq!(defines.get("a"), Some("1"));
    assert_eq!(defines.get("b"), Some("2"));
}

#[test]
fn define_in_an_included_text_may_clash() {
    let mut defines = HashTable::default();
    let err = resume("%define a 1\n%include f\n".to_string(), "%define a 2\n", &mut defines)
        .unwrap_err();
    assert_eq!(
        err,
        PreprocessingError::DuplicateDefine {
            name: "a".to_string(),
            original_value: "1".to_string(),
            new_value: "2".to_string(),
        }
    );
}

#[test]
fn table_replaces_and_counts() {
    let mut table = HashTable::new();
    assert_eq!(table.len(), 0);
    table.insert("k", "1");
    table.insert("l", "2");
    table.insert("k", "3");
    assert_eq!(table.len(), 2);
    assert_eq!(table.get("k"), Some("3"));
    assert_eq!(table.get("l"), Some("2"));
    assert_eq!(table.get("m"), None);
    assert!(!table.is_empty());
}
