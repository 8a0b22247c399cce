use tinyvm::instruction::{parse_value, Operand, Register};

#[test]
fn literal_forms() {
    assert_eq!(parse_value("0"), Some(0));
    assert_eq!(parse_value("0x1b"), Some(27));
    assert_eq!(parse_value("0xb"), Some(11));
    assert_eq!(parse_value("1bh"), Some(27));
    assert_eq!(parse_value("ffh"), Some(255));
    assert_eq!(parse_value("ff|h"), Some(255));
    assert_eq!(parse_value("101b"), Some(5));
    assert_eq!(parse_value("101|b"), Some(5));
    assert_eq!(parse_value("007"), Some(7));
}

#[test]
fn literals_that_are_none() {
    assert_eq!(parse_value(""), None);
    assert_eq!(parse_value("-"), None);
    assert_eq!(parse_value("+5"), None);
    assert_eq!(parse_value("0x"), None);
    assert_eq!(parse_value("h"), None);
    assert_eq!(parse_value("b"), None);
    assert_eq!(parse_value("|h"), None);
    assert_eq!(parse_value("12b"), None);
    assert_eq!(parse_value("0x1A"), None);
    assert_eq!(parse_value("1Ah"), None);
    assert_eq!(parse_value("0x-5"), None);
    assert_eq!(parse_value("--5"), None);
    assert_eq!(parse_value("1 2"), None);
}

#[test]
fn literal_range() {
    assert_eq!(parse_value("2147483647"), Some(i32::MAX));
    assert_eq!(parse_value("2147483648"), None);
    assert_eq!(parse_value("-2147483648"), Some(i32::MIN));
    assert_eq!(parse_value("-2147483649"), None);
    assert_eq!(parse_value("0x7fffffff"), Some(i32::MAX));
    assert_eq!(parse_value("0x80000000"), None);
    assert_eq!(parse_value("-80000000h"), Some(i32::MIN));
    assert_eq!(parse_value("-0x80000000"), None);
    assert_eq!(parse_value("-0x7fffffff"), Some(-i32::MAX));
    assert_eq!(parse_value("99999999999999999999999999"), None);
    assert_eq!(parse_value("000000000000000000000000012"), Some(12));
}

#[test]
fn operands_of_each_kind() {
    assert_eq!(Operand::parse("[\t5 ]"), Some(Operand::Address(5)));
    assert_eq!(Operand::parse("[]"), None);
    assert_eq!(Operand::parse("["), None);
    assert_eq!(Operand::parse("[0]"), Some(Operand::Address(0)));
    assert_eq!(Operand::parse("[eax]"), None);
    assert_eq!(Operand::parse("eip"), Some(Operand::Register(Register::Eip)));
    assert_eq!(Register::parse("r08"), Some(Register::R08));
    assert_eq!(Register::parse("rax"), None);
}
