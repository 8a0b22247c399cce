use tinyvm::context::{Binary, Context, ExecutionError, LoadError, Step, Unary, MEMORY_WORDS, STACK_SIZE};
use tinyvm::instruction::{Instruction, OpCode, Register, Source, Target};
use tinyvm::memory::Memory;
use tinyvm::parser::{ParseError, ParseErrorKind};
use tinyvm::preprocessor::PreprocessingError;
use tinyvm::program::{Loading, Program};

fn load(source: &str) -> Program {
    match Program::load(source.to_string()) {
        Ok(Loading::Ready(program)) => program,
        other => panic!("Expected a program, found {:?}", other),
    }
}

fn run_small(program: &Program, memory: &mut Memory, budget: usize) -> (Result<bool, ExecutionError>, Vec<i32>) {
    let mut output = Vec::new();
    let result = program.run_on(memory, budget, &mut output);
    (result, output)
}

fn run(source: &str) -> Vec<i32> {
    let program = load(source);
    let mut memory = Memory::new(4096);
    memory.create_stack(1024);
    memory.set_current_instruction_index(program.start_instruction_index);
    let (result, output) = run_small(&program, &mut memory, 1_000_000);
    assert_eq!(result, Ok(true));
    output
}

const FACTORIAL: &str = "\
# prints n! for n = 1..10
%define LAST 10
start:  mov ecx, 1
next:   cmp ecx, LAST
        jg done
        push ecx
        call fact
        pop edx
        prn eax
        inc ecx
        jmp next
done:   jmp end

fact:   mov eax, 1
        mov ebx, 1
loop:   cmp ebx, ecx
        jg out
        mul eax, ebx
        inc ebx
        jmp loop
out:    ret
end:
";

#[test]
fn fact() {
    assert_eq!(
        run(FACTORIAL),
        &[1, 2, 6, 24, 120, 720, 5040, 40320, 362880, 3628800]
    );
}

#[test]
fn simple_arithmetic_prints_five() {
    assert_eq!(run("mov eax, 2\nadd eax, 3\nprn eax\n"), &[5]);
}

#[test]
fn branching_with_flags_prints_one() {
    assert_eq!(
        run("mov eax, 7\nmov ebx, 7\ncmp eax, ebx\nje eq\nprn 0\njmp end\neq: prn 1\nend: nop\n"),
        &[1]
    );
}

#[test]
fn call_and_ret_print_twenty() {
    assert_eq!(
        run("mov eax, 10\ncall double\nprn eax\njmp end\ndouble: add eax, eax\nret\nend: nop\n"),
        &[20]
    );
}

#[test]
fn memory_round_trip_prints_forty_two() {
    assert_eq!(run("mov [100], 42\nmov eax, [100]\nprn eax\n"), &[42]);
}

#[test]
fn duplicate_label_is_a_load_error() {
    assert_eq!(
        Program::load("a: nop\na: nop".to_string()),
        Err(LoadError::ParseError(ParseError {
            line_index: 1,
            error: ParseErrorKind::DuplicateLabel("a".to_owned())
        }))
    );
}

#[test]
fn preprocessing_error_is_a_load_error() {
    assert_eq!(
        Program::load("%define\n".to_string()),
        Err(LoadError::PreprocessingError(PreprocessingError::EmptyDefine))
    );
}

#[test]
fn load_stops_at_an_include_and_resumes() {
    let pending = match Program::load("%include lib\ncall show\n".to_string()) {
        Ok(Loading::Include(pending)) => pending,
        other => panic!("Expected an include, found {:?}", other),
    };
    assert_eq!(pending.name(), "lib");
    let program = match pending.resume("jmp start\nshow: prn 9\nret\nstart:\n") {
        Ok(Loading::Ready(program)) => program,
        other => panic!("Expected a program, found {:?}", other),
    };
    assert_eq!(program.start_instruction_index, 3);
    let mut memory = Memory::new(64);
    memory.create_stack(32);
    let (result, output) = run_small(&program, &mut memory, 100);
    assert_eq!(result, Ok(true));
    assert_eq!(output, &[9]);
}

#[test]
fn execution_starts_at_the_start_label() {
    assert_eq!(run("prn 1\nstart: prn 2\n"), &[2]);
    assert_eq!(run("prn 1\nprn 2\n"), &[1, 2]);
}

#[test]
fn runs_of_one_program_print_the_same() {
    let program = load(FACTORIAL);
    let mut first = Vec::new();
    let mut second = Vec::new();
    assert_eq!(program.run(10_000, &mut first), Ok(true));
    assert_eq!(program.run(20_000, &mut second), Ok(true));
    assert_eq!(first, second);
    let mut context = Context::new();
    context.program = program;
    let mut third = Vec::new();
    assert_eq!(context.run(10_000, &mut third), Ok(true));
    let mut fourth = Vec::new();
    assert_eq!(context.run(10_000, &mut fourth), Ok(true));
    assert_eq!(third, first);
    assert_eq!(fourth, first);
}

#[test]
fn budget_stops_an_endless_program() {
    let program = load("loop: prn 1\njmp loop\n");
    let mut memory = Memory::new(16);
    let (result, output) = run_small(&program, &mut memory, 5);
    assert_eq!(result, Ok(false));
    assert_eq!(output, &[1, 1, 1]);
    assert_eq!(memory.get_current_instruction_index(), 1);
}

#[test]
fn access_outside_memory_is_a_fault_with_the_address() {
    let program = Program {
        instructions: vec![
            Instruction::Mov(Target::Register(Register::Eax), Source::Address(16)),
        ],
        start_instruction_index: 0,
    };
    let mut memory = Memory::new(16);
    let before = memory.clone();
    assert_eq!(
        program.step(&mut memory),
        Err(ExecutionError::DataAddressOutOfRange(16))
    );
    assert_eq!(memory, before);

    let program = Program {
        instructions: vec![Instruction::Inc(Target::Address(-1))],
        start_instruction_index: 0,
    };
    assert_eq!(
        program.step(&mut memory),
        Err(ExecutionError::DataAddressOutOfRange(-1))
    );
    let program = load("mov [16777216], 1\n");
    let mut output = Vec::new();
    assert_eq!(
        program.run(10, &mut output),
        Err(ExecutionError::DataAddressOutOfRange(MEMORY_WORDS as i32))
    );
}

#[test]
fn target_is_checked_before_source() {
    let program = Program {
        instructions: vec![Instruction::Mov(Target::Address(100), Source::Address(200))],
        start_instruction_index: 0,
    };
    let mut memory = Memory::new(16);
    assert_eq!(
        program.step(&mut memory),
        Err(ExecutionError::DataAddressOutOfRange(100))
    );
}

#[test]
fn instruction_pointer_outside_the_program_is_a_fault() {
    let program = load("jmp 5\n");
    let mut memory = Memory::new(16);
    assert_eq!(program.step(&mut memory), Ok(Step::Next));
    assert_eq!(
        program.step(&mut memory),
        Err(ExecutionError::InstructionOutOfRange(5))
    );
    memory.set_current_instruction_index(-1);
    assert_eq!(
        program.step(&mut memory),
        Err(ExecutionError::InstructionOutOfRange(-1))
    );
    memory.set_current_instruction_index(1);
    assert_eq!(program.step(&mut memory), Ok(Step::Halt));
}

#[test]
fn division_faults() {
    assert_eq!(Binary::Div.compute(7, 0), None);
    assert_eq!(Binary::Div.compute(i32::MIN, -1), None);
    assert_eq!(Binary::Div.compute(-7, 2), Some(-3));
    assert_eq!(Binary::Div.compute(7, -2), Some(-3));
    assert_eq!(Binary::Div.compute(i32::MIN, 1), Some(i32::MIN));
    let program = load("mov eax, 1\ndiv eax, 0\n");
    let mut output = Vec::new();
    assert_eq!(
        program.run(10, &mut output),
        Err(ExecutionError::ArithmeticFault)
    );
    let program = load("mod 1, 0\n");
    assert_eq!(
        program.run(10, &mut output),
        Err(ExecutionError::ArithmeticFault)
    );
}

#[test]
fn remainder_has_the_sign_of_the_dividend() {
    assert_eq!(run("mod -7, 2\nrem eax\nprn eax\nmod 7, -2\nrem eax\nprn eax\n"), &[-1, 1]);
}

#[test]
fn arithmetic_wraps_around() {
    assert_eq!(Binary::Add.compute(i32::MAX, 1), Some(i32::MIN));
    assert_eq!(Binary::Sub.compute(i32::MIN, 1), Some(i32::MAX));
    assert_eq!(Binary::Mul.compute(65536, 65536), Some(0));
    assert_eq!(Binary::Mul.compute(-3, 5), Some(-15));
    assert_eq!(Unary::Inc.compute(i32::MAX), i32::MIN);
    assert_eq!(Unary::Dec.compute(i32::MIN), i32::MAX);
    assert_eq!(Unary::Not.compute(0), -1);
    assert_eq!(Binary::Mov.compute(1, 2), Some(2));
}

#[test]
fn bitwise_operations_and_shifts() {
    assert_eq!(Binary::Xor.compute(0b1100, 0b1010), Some(0b0110));
    assert_eq!(Binary::Or.compute(0b1100, 0b1010), Some(0b1110));
    assert_eq!(Binary::And.compute(0b1100, 0b1010), Some(0b1000));
    assert_eq!(Binary::Shl.compute(3, 4), Some(48));
    assert_eq!(Binary::Shr.compute(-16, 2), Some(-4));
    assert_eq!(Binary::Shl.compute(1, 33), Some(2));
    assert_eq!(Binary::Shr.compute(8, -31), Some(4));
}

#[test]
fn compare_sets_the_two_flag_bits() {
    assert_eq!(
        run("cmp 1, 2\npushf\npop eax\nprn eax\ncmp 2, 2\npushf\npop eax\nprn eax\ncmp 3, 2\npushf\npop eax\nprn eax\n"),
        &[0, 1, 2]
    );
}

#[test]
fn conditional_jumps_test_the_flag_bits() {
    let source = "push 3\npopf\njge a\nprn 0\na: jl b\nprn 1\nb: jle c\nprn 2\nc: jg d\nprn 3\nd: je e\nprn 4\ne: jne f\nprn 5\nf:\n";
    assert_eq!(run(source), &[1, 2, 5]);
    let source = "push 0\npopf\njge a\nprn 0\na: jl b\nprn 1\nb: jle c\nprn 2\nc: jg d\nprn 3\nd: je e\nprn 4\ne: jne f\nprn 5\nf:\n";
    assert_eq!(run(source), &[0, 3, 4]);
}

#[test]
fn stack_grows_down_inside_the_memory() {
    let mut memory = Memory::new(16);
    memory.create_stack(8);
    assert_eq!(memory.registers[Register::Esp.index()], 8);
    assert_eq!(memory.registers[Register::Ebp.index()], 8);
    assert_eq!(memory.push_stack(11), Ok(()));
    assert_eq!(memory.push_stack(22), Ok(()));
    assert_eq!(memory.registers[Register::Esp.index()], 6);
    assert_eq!(memory.mem_space[7], 11);
    assert_eq!(memory.mem_space[6], 22);
    assert_eq!(memory.pop_stack(), Ok(22));
    assert_eq!(memory.pop_stack(), Ok(11));
    assert_eq!(memory.registers[Register::Esp.index()], 8);
}

#[test]
fn stack_outside_the_memory_is_a_fault() {
    let mut memory = Memory::new(4);
    assert_eq!(
        memory.push_stack(1),
        Err(ExecutionError::DataAddressOutOfRange(-1))
    );
    memory.create_stack(4);
    assert_eq!(
        memory.pop_stack(),
        Err(ExecutionError::DataAddressOutOfRange(4))
    );
    assert_eq!(memory.registers[Register::Esp.index()], 4);
}

#[test]
fn call_pushes_the_next_index_and_ret_returns_there() {
    let program = load("nop\ncall there\nprn 1\nthere: ret\n");
    let mut memory = Memory::new(32);
    memory.create_stack(16);
    assert_eq!(program.step(&mut memory), Ok(Step::Next));
    assert_eq!(program.step(&mut memory), Ok(Step::Next));
    assert_eq!(memory.get_current_instruction_index(), 3);
    assert_eq!(memory.mem_space[15], 2);
    assert_eq!(program.step(&mut memory), Ok(Step::Next));
    assert_eq!(memory.get_current_instruction_index(), 2);
    assert_eq!(memory.registers[Register::Esp.index()], 16);
    assert_eq!(program.step(&mut memory), Ok(Step::Print(1)));
}

#[test]
fn push_and_pop_of_the_stack_pointer() {
    assert_eq!(run("push esp\npop eax\nprn eax\n"), &[1024]);
    assert_eq!(run("push 7\npop esp\nprn esp\n"), &[8]);
}

#[test]
fn written_instruction_pointer_is_overridden() {
    assert_eq!(run("mov eip, 7\nprn eip\n"), &[1]);
}

#[test]
fn context_starts_with_the_default_machine() {
    let context = Context::new();
    assert_eq!(context.memory.mem_space.len(), MEMORY_WORDS);
    assert_eq!(context.memory.registers[Register::Esp.index()], STACK_SIZE as i32);
    assert_eq!(context.memory.registers[Register::Ebp.index()], STACK_SIZE as i32);
    assert_eq!(context.memory.registers[Register::Eip.index()], 0);
    assert_eq!(context.memory.flags, 0);
    assert!(context.program.instructions.is_empty());
    assert_eq!(MEMORY_WORDS, 16 * 1024 * 1024);
    assert_eq!(STACK_SIZE, 512 * 1024);
}

#[test]
fn context_loads_and_steps() {
    let mut context = Context::new();
    assert_eq!(context.load("start: prn 3\n".to_string()), Ok(None));
    assert_eq!(context.step(), Ok(Step::Print(3)));
    assert_eq!(context.step(), Ok(Step::Halt));
    let pending = context.load("%include x\n".to_string()).unwrap().unwrap();
    assert_eq!(pending.name(), "x");
    assert_eq!(context.program.instructions.len(), 1);
    assert_eq!(context.resume_load(pending, "nop\nnop\n"), Ok(None));
    assert_eq!(context.program.instructions.len(), 2);
    assert!(context.load("bad\n".to_string()).is_err());
    assert_eq!(context.program.instructions.len(), 2);
}

#[test]
fn mnemonics_are_lowercase() {
    assert_eq!(OpCode::parse("cmp"), Some(OpCode::Cmp));
    assert_eq!(OpCode::parse("prn"), Some(OpCode::Prn));
    assert_eq!(OpCode::parse("Nop"), None);
    assert_eq!(OpCode::parse(""), None);
}

#[test]
fn unused_define_gives_the_same_program() {
    let with = load("%define unused 7\nmov eax, 2\nprn eax\n");
    let without = load("\nmov eax, 2\nprn eax\n");
    assert_eq!(with, without);
    let used = load("%define two 2\nmov eax, two\nprn eax\n");
    assert_eq!(used, without);
}

#[test]
fn mnemonic_codes_follow_their_order() {
    assert_eq!(OpCode::Nop.code(), 0x00);
    assert_eq!(OpCode::Mov.code(), 0x02);
    assert_eq!(OpCode::Div.code(), 0x0C);
    assert_eq!(OpCode::Cmp.code(), 0x15);
    assert_eq!(OpCode::Jmp.code(), 0x16);
    assert_eq!(OpCode::Prn.code(), 0x1F);
    assert_eq!(OpCode::from_code(0x09), Some(OpCode::Add));
    assert_eq!(OpCode::from_code(0x07), Some(OpCode::Inc));
    assert_eq!(OpCode::from_code(32), None);
    assert_eq!(OpCode::from_code(-1), None);
    for code in 0..32 {
        assert_eq!(OpCode::from_code(code).unwrap().code(), code);
    }
}

#[test]
fn load_error_wraps_both_kinds() {
    assert_eq!(
        LoadError::from(PreprocessingError::EmptyDefine),
        LoadError::PreprocessingError(PreprocessingError::EmptyDefine)
    );
    let error = ParseError {
        line_index: 3,
        error: ParseErrorKind::MissingOperand(1),
    };
    assert_eq!(LoadError::from(error.clone()), LoadError::ParseError(error));
}
