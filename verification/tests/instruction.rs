use tinyvm::instruction::{Operand, Register};

#[test]
fn can_parse_value() {
    assert_eq!(Operand::parse("123"), Some(Operand::Value(123)));
    assert_eq!(Operand::parse("12ah"), Some(Operand::Value(0x12a)));
    assert_eq!(Operand::parse("12a|h"), Some(Operand::Value(0x12a)));
    assert_eq!(Operand::parse("0x12a"), Some(Operand::Value(0x12a)));
    assert_eq!(Operand::parse("01001010111b"), Some(Operand::Value(0b01001010111)));
    assert_eq!(Operand::parse("01001010111|b"), Some(Operand::Value(0b01001010111)));

    assert_eq!(Operand::parse("-123"), Some(Operand::Value(-123)));
    assert_eq!(Operand::parse("-12ah"), Some(Operand::Value(-0x12a)));
    assert_eq!(Operand::parse("-12a|h"), Some(Operand::Value(-0x12a)));
    assert_eq!(Operand::parse("-0x12a"), Some(Operand::Value(-0x12a)));
    assert_eq!(Operand::parse("-01001010111b"), Some(Operand::Value(-0b01001010111)));
    assert_eq!(
        Operand::parse("-01001010111|b"),
        Some(Operand::Value(-0b01001010111))
    );
}

#[test]
fn can_parse_address() {
    assert_eq!(Operand::parse("[123]"), Some(Operand::Address(123)));
    assert_eq!(Operand::parse("[12ah]"), Some(Operand::Address(0x12a)));
    assert_eq!(Operand::parse("[12a|h]"), Some(Operand::Address(0x12a)));
    assert_eq!(Operand::parse("[0x12a]"), Some(Operand::Address(0x12a)));
    assert_eq!(
        Operand::parse("[01001010111b]"),
        Some(Operand::Address(0b01001010111))
    );
    assert_eq!(
        Operand::parse("[01001010111|b]"),
        Some(Operand::Address(0b01001010111))
    );
}

#[test]
fn can_parse_register() {
    assert_eq!(Operand::parse("eax").unwrap(), Operand::Register(Register::Eax));
    assert_eq!(Operand::parse("ebx").unwrap(), Operand::Register(Register::Ebx));
    assert_eq!(Operand::parse("ecx").unwrap(), Operand::Register(Register::Ecx));
    assert_eq!(Operand::parse("edx").unwrap(), Operand::Register(Register::Edx));
    assert_eq!(Operand::parse("esi").unwrap(), Operand::Register(Register::Esi));
    assert_eq!(Operand::parse("edi").unwrap(), Operand::Register(Register::Edi));
    assert_eq!(Operand::parse("esp").unwrap(), Operand::Register(Register::Esp));
    assert_eq!(Operand::parse("ebp").unwrap(), Operand::Register(Register::Ebp));
    assert_eq!(Operand::parse("eip").unwrap(), Operand::Register(Register::Eip));
    assert_eq!(Operand::parse("r08").unwrap(), Operand::Register(Register::R08));
    assert_eq!(Operand::parse("r09").unwrap(), Operand::Register(Register::R09));
    assert_eq!(Operand::parse("r10").unwrap(), Operand::Register(Register::R10));
    assert_eq!(Operand::parse("r11").unwrap(), Operand::Register(Register::R11));
    assert_eq!(Operand::parse("r12").unwrap(), Operand::Register(Register::R12));
    assert_eq!(Operand::parse("r13").unwrap(), Operand::Register(Register::R13));
    assert_eq!(Operand::parse("r14").unwrap(), Operand::Register(Register::R14));
    assert_eq!(Operand::parse("r15").unwrap(), Operand::Register(Register::R15));
}

#[test]
fn parse_returns_none_for_invalid_operands() {
    assert!(Operand::parse("invalid").is_none());
    assert!(Operand::parse("[invalid]").is_none());
    assert!(Operand::parse("[-1]").is_none());
}
