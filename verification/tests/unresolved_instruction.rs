use tinyvm::instruction::{Register, Target};
use tinyvm::parser::unresolved_instruction::{
    parse_source, parse_target, UnresolvedInstruction, UnresolvedSource,
};
use tinyvm::parser::ParseErrorKind;
use tinyvm::parser::unresolved_instruction::UnresolvedInstruction::{
    Add, And, Call, Cmp, Dec, Div, Inc, Int, Je, Jg, Jge, Jl, Jle, Jmp, Jne, Mod, Mov, Mul, Nop,
    Not, Or, Pop, Popf, Prn, Push, Pushf, Rem, Ret, Shl, Shr, Sub, Xor,
};

fn run(source: &str, expected: UnresolvedInstruction) {
    let tokens: Vec<_> = source.split(" ").collect();
    assert_eq!(UnresolvedInstruction::parse(&tokens).unwrap(), expected);
}

fn run_error(source: &str, expected: ParseErrorKind) {
    let tokens: Vec<_> = source.split(" ").collect();
    assert_eq!(
        UnresolvedInstruction::parse(&tokens).err().unwrap(),
        expected
    );
}

#[test]
fn can_parse_all_instructions() {
    let eax = Target::Register(Register::Eax);
    let ebx = UnresolvedSource::Register(Register::Ebx);
    let ecx = UnresolvedSource::Register(Register::Ecx);

    run("nop", Nop);
    run("int", Int);
    run("mov eax ebx", Mov(eax, ebx));
    run("push ebx", Push(ebx));
    run("pop eax", Pop(eax));
    run("pushf", Pushf);
    run("popf", Popf);
    run("inc eax", Inc(eax));
    run("dec eax", Dec(eax));
    run("add eax ebx", Add(eax, ebx));
    run("sub eax ebx", Sub(eax, ebx));
    run("mul eax ebx", Mul(eax, ebx));
    run("div eax ebx", Div(eax, ebx));
    run("mod ebx ecx", Mod(ebx, ecx));
    run("rem eax", Rem(eax));
    run("not eax", Not(eax));
    run("xor eax ebx", Xor(eax, ebx));
    run("or eax ebx", Or(eax, ebx));
    run("and eax ebx", And(eax, ebx));
    run("shl eax ebx", Shl(eax, ebx));
    run("shr eax ebx", Shr(eax, ebx));
    run("cmp ebx ecx", Cmp(ebx, ecx));
    run("jmp ebx", Jmp(ebx));
    run("call ebx", Call(ebx));
    run("ret", Ret);
    run("je ebx", Je(ebx));
    run("jne ebx", Jne(ebx));
    run("jg ebx", Jg(ebx));
    run("jge ebx", Jge(ebx));
    run("jl ebx", Jl(ebx));
    run("jle ebx", Jle(ebx));
    run("prn ebx", Prn(ebx));
}

#[test]
fn can_use_register_as_target() {
    run("pop eax", Pop(Target::Register(Register::Eax)));
    run("pop ebx", Pop(Target::Register(Register::Ebx)));
    run("pop ecx", Pop(Target::Register(Register::Ecx)));
    run("pop edx", Pop(Target::Register(Register::Edx)));
    run("pop esi", Pop(Target::Register(Register::Esi)));
    run("pop edi", Pop(Target::Register(Register::Edi)));
    run("pop esp", Pop(Target::Register(Register::Esp)));
    run("pop ebp", Pop(Target::Register(Register::Ebp)));
    run("pop eip", Pop(Target::Register(Register::Eip)));
    run("pop r08", Pop(Target::Register(Register::R08)));
    run("pop r09", Pop(Target::Register(Register::R09)));
    run("pop r10", Pop(Target::Register(Register::R10)));
    run("pop r11", Pop(Target::Register(Register::R11)));
    run("pop r12", Pop(Target::Register(Register::R12)));
    run("pop r13", Pop(Target::Register(Register::R13)));
    run("pop r14", Pop(Target::Register(Register::R14)));
    run("pop r15", Pop(Target::Register(Register::R15)));
}

#[test]
fn can_use_memory_as_target() {
    run("pop [123]", Pop(Target::Address(123)));
    run("pop [12ah]", Pop(Target::Address(0x12a)));
    run("pop [12a|h]", Pop(Target::Address(0x12a)));
    run("pop [0x12a]", Pop(Target::Address(0x12a)));
    run("pop [01001010111b]", Pop(Target::Address(0b01001010111)));
    run("pop [01001010111|b]", Pop(Target::Address(0b01001010111)));
}

#[test]
fn cannot_use_literal_as_target() {
    run_error("pop 1", ParseErrorKind::InvalidOperand("1".to_owned()));
}

#[test]
fn cannot_use_label_as_target() {
    run_error(
        "pop label",
        ParseErrorKind::InvalidOperand("label".to_owned()),
    );
}

#[test]
fn cannot_use_random_garbage_as_target() {
    run_error(
        "pop 23()C",
        ParseErrorKind::InvalidOperand("23()C".to_owned()),
    );
}

#[test]
fn can_use_register_as_source() {
    run("push eax", Push(UnresolvedSource::Register(Register::Eax)));
    run("push ebx", Push(UnresolvedSource::Register(Register::Ebx)));
    run("push ecx", Push(UnresolvedSource::Register(Register::Ecx)));
    run("push edx", Push(UnresolvedSource::Register(Register::Edx)));
    run("push esi", Push(UnresolvedSource::Register(Register::Esi)));
    run("push edi", Push(UnresolvedSource::Register(Register::Edi)));
    run("push esp", Push(UnresolvedSource::Register(Register::Esp)));
    run("push ebp", Push(UnresolvedSource::Register(Register::Ebp)));
    run("push eip", Push(UnresolvedSource::Register(Register::Eip)));
    run("push r08", Push(UnresolvedSource::Register(Register::R08)));
    run("push r09", Push(UnresolvedSource::Register(Register::R09)));
    run("push r10", Push(UnresolvedSource::Register(Register::R10)));
    run("push r11", Push(UnresolvedSource::Register(Register::R11)));
    run("push r12", Push(UnresolvedSource::Register(Register::R12)));
    run("push r13", Push(UnresolvedSource::Register(Register::R13)));
    run("push r14", Push(UnresolvedSource::Register(Register::R14)));
    run("push r15", Push(UnresolvedSource::Register(Register::R15)));
}

#[test]
fn can_use_memory_as_source() {
    run("push [123]", Push(UnresolvedSource::Address(123)));
    run("push [12ah]", Push(UnresolvedSource::Address(0x12a)));
    run("push [12a|h]", Push(UnresolvedSource::Address(0x12a)));
    run("push [0x12a]", Push(UnresolvedSource::Address(0x12a)));
    run(
        "push [01001010111b]",
        Push(UnresolvedSource::Address(0b01001010111)),
    );
    run(
        "push [01001010111|b]",
        Push(UnresolvedSource::Address(0b01001010111)),
    );
}

#[test]
fn can_use_literal_as_source() {
    run("push 123", Push(UnresolvedSource::Value(123)));
    run("push 12ah", Push(UnresolvedSource::Value(0x12a)));
    run("push 12a|h", Push(UnresolvedSource::Value(0x12a)));
    run("push 0x12a", Push(UnresolvedSource::Value(0x12a)));
    run(
        "push 01001010111b",
        Push(UnresolvedSource::Value(0b01001010111)),
    );
    run(
        "push 01001010111|b",
        Push(UnresolvedSource::Value(0b01001010111)),
    );

    run("push -123", Push(UnresolvedSource::Value(-123)));
    run("push -12ah", Push(UnresolvedSource::Value(-0x12a)));
    run("push -12a|h", Push(UnresolvedSource::Value(-0x12a)));
    run("push -0x12a", Push(UnresolvedSource::Value(-0x12a)));
    run(
        "push -01001010111b",
        Push(UnresolvedSource::Value(-0b01001010111)),
    );
    run(
        "push -01001010111|b",
        Push(UnresolvedSource::Value(-0b01001010111)),
    );
}

#[test]
fn can_use_label_as_source() {
    run("push label", Push(UnresolvedSource::Label("label")));
}

#[test]
fn cannot_use_random_garbage_as_source() {
    run_error(
        "push 23()C",
        ParseErrorKind::InvalidOperand("23()C".to_owned()),
    );
}

#[test]
fn missing_operand_names_its_token_index() {
    run_error("mov", ParseErrorKind::MissingOperand(1));
    run_error("mov eax", ParseErrorKind::MissingOperand(2));
    run_error("cmp 1", ParseErrorKind::MissingOperand(2));
    run_error("push", ParseErrorKind::MissingOperand(1));
}

#[test]
fn extra_token_is_the_first_after_the_operands() {
    run_error("ret 1 2", ParseErrorKind::ExtraToken("1".to_owned()));
    run_error("mov eax 1 2 3", ParseErrorKind::ExtraToken("2".to_owned()));
    run_error("inc eax ebx", ParseErrorKind::ExtraToken("ebx".to_owned()));
}

#[test]
fn unknown_mnemonic_is_an_invalid_instruction() {
    run_error("MOV eax 1", ParseErrorKind::InvalidInstruction("MOV".to_owned()));
    run_error("", ParseErrorKind::InvalidInstruction("".to_owned()));
}

#[test]
fn first_wrong_operand_wins() {
    run_error("mov 1 2()", ParseErrorKind::InvalidOperand("1".to_owned()));
    run_error("mov eax 2() 3", ParseErrorKind::InvalidOperand("2()".to_owned()));
}

#[test]
fn operand_parsers_take_the_token_at_the_index() {
    let tokens = ["mov", "[7]", "start"];
    assert_eq!(parse_target(&tokens, 1), Ok(Target::Address(7)));
    assert_eq!(parse_source(&tokens, 2), Ok(UnresolvedSource::Label("start")));
    assert_eq!(parse_source(&tokens, 3), Err(ParseErrorKind::MissingOperand(3)));
    assert_eq!(
        parse_target(&tokens, 2),
        Err(ParseErrorKind::InvalidOperand("start".to_owned()))
    );
}
