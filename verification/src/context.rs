//! The executor: what one instruction does to the machine, what one step of
//! a program does, and a whole run under a step budget; and the context,
//! which holds a program together with the machine that it runs on.

pub use crate::program::Program;

use crate::instruction::{Instruction, Register, Source, Target};
use crate::memory::{wrap32, MachineState, Memory};
use crate::parser::parser::ParseError;
use crate::preprocessor::{resume_spec, PreprocessingError};
use crate::program::{load_matches, load_spec, loaded, Loading, PendingInclude};
use vstd::prelude::*;

verus! {

/// The number of words of the linear memory of a [`Context`].
pub const MEMORY_WORDS: usize = 16 * 1024 * 1024;

/// The word at which the stack of a [`Context`] starts; it grows down.
pub const STACK_SIZE: usize = 512 * 1024;

/// Why a source gives no program.
#[derive(Debug, PartialEq, Eq, Clone)]
pub enum LoadError {
    PreprocessingError(PreprocessingError),
    ParseError(ParseError),
}

impl From<PreprocessingError> for LoadError {
    fn from(error: PreprocessingError) -> (r: LoadError) {
        LoadError::PreprocessingError(error)
    }
}

impl vstd::std_specs::convert::FromSpecImpl<PreprocessingError> for LoadError {
    open spec fn obeys_from_spec() -> bool {
        true
    }

    open spec fn from_spec(error: PreprocessingError) -> LoadError {
        LoadError::PreprocessingError(error)
    }
}

impl From<ParseError> for LoadError {
    fn from(error: ParseError) -> (r: LoadError) {
        LoadError::ParseError(error)
    }
}

impl vstd::std_specs::convert::FromSpecImpl<ParseError> for LoadError {
    open spec fn obeys_from_spec() -> bool {
        true
    }

    open spec fn from_spec(error: ParseError) -> LoadError {
        LoadError::ParseError(error)
    }
}

/// A fault that stops an execution.
#[derive(Debug, Clone, Copy, PartialEq, Eq, Structural)]
pub enum ExecutionError {
    /// The instruction pointer is negative or beyond the end of the program.
    InstructionOutOfRange(i32),
    /// An access to a word outside the linear memory.
    DataAddressOutOfRange(i32),
    /// A division or remainder with a zero divisor, or whose result does not
    /// fit in 32 bits.
    ArithmeticFault,
}

/// What one step of a program did.
#[derive(Debug, Clone, Copy, PartialEq, Eq, Structural)]
pub enum Step {
    /// The instruction pointer is at the end of the program: nothing was done.
    Halt,
    /// An instruction was executed and printed nothing.
    Next,
    /// An instruction was executed and printed this value.
    Print(i32),
}

/// What one instruction does, apart from moving the instruction pointer.
pub struct Effect {
    /// The machine state after the instruction.
    pub state: MachineState,
    /// Where a branching instruction sends the instruction pointer.
    pub jump: Option<i32>,
    /// What a print instruction writes.
    pub output: Option<i32>,
}

/// Truncating 32-bit division: no result for a zero divisor or when the
/// quotient does not fit.
pub open spec fn div32(a: i32, b: i32) -> Option<i32> {
    if b == 0 || (a == i32::MIN && b == -1) {
        None
    } else {
        let q = (if a < 0 { -a } else { a as int }) / (if b < 0 { -b } else { b as int });
        Some(wrap32(if (a < 0) != (b < 0) { -q } else { q }))
    }
}

/// The remainder of truncating 32-bit division, which has the sign of the
/// dividend: no result where the division has none.
pub open spec fn rem32(a: i32, b: i32) -> Option<i32> {
    if b == 0 || (a == i32::MIN && b == -1) {
        None
    } else {
        let r = (if a < 0 { -a } else { a as int }) % (if b < 0 { -b } else { b as int });
        Some(wrap32(if a < 0 { -r } else { r }))
    }
}

/// The number of bits that a shift by `s` moves: the low five bits of `s`.
pub open spec fn shift_amount(s: i32) -> u32 {
    (s & 31) as u32
}

/// The flags that comparing `a` with `b` sets: bit 0 if they are equal,
/// bit 1 if `a` is greater.
pub open spec fn compare(a: i32, b: i32) -> i32 {
    (if a == b { 1i32 } else { 0i32 }) | (if a > b { 2i32 } else { 0i32 })
}

/// The operations of the instructions that combine a target with a source.
#[derive(Debug, Clone, Copy, PartialEq, Eq, Structural)]
pub enum Binary {
    Mov,
    Add,
    Sub,
    Mul,
    Div,
    Xor,
    Or,
    And,
    Shl,
    Shr,
}

/// The operations of the instructions that change a target in place.
#[derive(Debug, Clone, Copy, PartialEq, Eq, Structural)]
pub enum Unary {
    Inc,
    Dec,
    Not,
}

impl Binary {
    /// The new value of a target that holds `a`, for a source that holds
    /// `b`; arithmetic wraps around, and only a division can have no result.
    pub open spec fn apply(self, a: i32, b: i32) -> Option<i32> {
        match self {
            Binary::Mov => Some(b),
            Binary::Add => Some(wrap32(a + b)),
            Binary::Sub => Some(wrap32(a - b)),
            Binary::Mul => Some(wrap32(a * b)),
            Binary::Div => div32(a, b),
            Binary::Xor => Some(a ^ b),
            Binary::Or => Some(a | b),
            Binary::And => Some(a & b),
            Binary::Shl => Some(a << shift_amount(b)),
            Binary::Shr => Some(a >> shift_amount(b)),
        }
    }

    /// Executable form of [`Binary::apply`].
    pub fn compute(self, a: i32, b: i32) -> (v: Option<i32>)
        ensures
            v == self.apply(a, b),
    {
        match self {
            Binary::Mov => Some(b),
            Binary::Add => Some(a.wrapping_add(b)),
            Binary::Sub => Some(a.wrapping_sub(b)),
            Binary::Mul => Some(a.wrapping_mul(b)),
            Binary::Div => divide(a, b),
            Binary::Xor => Some(a ^ b),
            Binary::Or => Some(a | b),
            Binary::And => Some(a & b),
            Binary::Shl => Some(shift_left(a, b)),
            Binary::Shr => Some(shift_right(a, b)),
        }
    }
}

impl Unary {
    /// The new value of a target that holds `a`.
    pub open spec fn apply(self, a: i32) -> i32 {
        match self {
            Unary::Inc => wrap32(a + 1),
            Unary::Dec => wrap32(a - 1),
            Unary::Not => !a,
        }
    }

    /// Executable form of [`Unary::apply`].
    pub fn compute(self, a: i32) -> (v: i32)
        ensures
            v == self.apply(a),
    {
        match self {
            Unary::Inc => a.wrapping_add(1),
            Unary::Dec => a.wrapping_sub(1),
            Unary::Not => !a,
        }
    }
}

impl MachineState {
    /// `t ← op(t, s)`: the target is read first, then the source; where the
    /// operation has no result the instruction raises an arithmetic fault.
    pub open spec fn combine(self, t: Target, s: Source, op: Binary) -> Result<
        MachineState,
        ExecutionError,
    > {
        match self.read_target(t) {
            Err(e) => Err(e),
            Ok(a) => match self.read(s) {
                Err(e) => Err(e),
                Ok(b) => match op.apply(a, b) {
                    None => Err(ExecutionError::ArithmeticFault),
                    Some(v) => self.write(t, v),
                },
            },
        }
    }

    /// `t ← op(t)`.
    pub open spec fn adjust(self, t: Target, op: Unary) -> Result<MachineState, ExecutionError> {
        match self.read_target(t) {
            Err(e) => Err(e),
            Ok(a) => self.write(t, op.apply(a)),
        }
    }

    /// `remainder ← s1 % s2`.
    pub open spec fn divide_rest(self, s1: Source, s2: Source) -> Result<
        MachineState,
        ExecutionError,
    > {
        match self.read(s1) {
            Err(e) => Err(e),
            Ok(a) => match self.read(s2) {
                Err(e) => Err(e),
                Ok(b) => match rem32(a, b) {
                    None => Err(ExecutionError::ArithmeticFault),
                    Some(r) => Ok(self.with_remainder(r)),
                },
            },
        }
    }

    /// `flags ← compare(s1, s2)`.
    pub open spec fn compare_sources(self, s1: Source, s2: Source) -> Result<
        MachineState,
        ExecutionError,
    > {
        match self.read(s1) {
            Err(e) => Err(e),
            Ok(a) => match self.read(s2) {
                Err(e) => Err(e),
                Ok(b) => Ok(self.with_flags(compare(a, b))),
            },
        }
    }

    /// `flags ← pop`.
    pub open spec fn pop_flags(self) -> Result<MachineState, ExecutionError> {
        match self.top() {
            Err(e) => Err(e),
            Ok(v) => Ok(self.drop_top().with_flags(v)),
        }
    }

    /// A call of the value of `s`: the index of the next instruction is
    /// pushed, then `s` is read.
    pub open spec fn call(self, s: Source) -> Result<Effect, ExecutionError> {
        match self.push(wrap32(self.reg(Register::Eip) + 1)) {
            Err(e) => Err(e),
            Ok(pushed) => pushed.branch(true, s),
        }
    }

    /// A return: the instruction pointer is popped.
    pub open spec fn ret(self) -> Result<Effect, ExecutionError> {
        match self.top() {
            Err(e) => Err(e),
            Ok(v) => Ok(Effect { state: self.drop_top(), jump: Some(v), output: None }),
        }
    }

    /// A print of the value of `s`.
    pub open spec fn print(self, s: Source) -> Result<Effect, ExecutionError> {
        match self.read(s) {
            Err(e) => Err(e),
            Ok(v) => Ok(Effect { state: self, jump: None, output: Some(v) }),
        }
    }

    /// A push of a source operand: the operand is read, then the stack
    /// pointer goes down by one and the value is stored where it points.
    pub open spec fn push_source(self, s: Source) -> Result<MachineState, ExecutionError> {
        match self.read(s) {
            Err(e) => Err(e),
            Ok(v) => self.push(v),
        }
    }

    /// A pop into a target operand: the word that the stack pointer points at
    /// is written to the target, then the stack pointer goes up by one.
    pub open spec fn pop_into(self, t: Target) -> Result<MachineState, ExecutionError> {
        match self.read_target(t) {
            Err(e) => Err(e),
            Ok(_) => match self.top() {
                Err(e) => Err(e),
                Ok(v) => match self.write(t, v) {
                    Err(e) => Err(e),
                    Ok(written) => Ok(written.drop_top()),
                },
            },
        }
    }

    /// A jump to the value of `s`, taken only if `taken` holds.
    pub open spec fn branch(self, taken: bool, s: Source) -> Result<Effect, ExecutionError> {
        if taken {
            match self.read(s) {
                Err(e) => Err(e),
                Ok(v) => Ok(Effect { state: self, jump: Some(v), output: None }),
            }
        } else {
            Ok(quiet(self))
        }
    }
}

/// The effect of an instruction that neither branches nor prints.
pub open spec fn quiet(state: MachineState) -> Effect {
    Effect { state, jump: None, output: None }
}

/// The effect of an instruction that neither branches nor prints, or its fault.
pub open spec fn quietly(r: Result<MachineState, ExecutionError>) -> Result<
    Effect,
    ExecutionError,
> {
    match r {
        Err(e) => Err(e),
        Ok(state) => Ok(quiet(state)),
    }
}

/// What `instruction` does in state `m`, where the instruction pointer of
/// `m` is the index of the instruction.
#[verifier::opaque]
pub open spec fn effect(instruction: Instruction, m: MachineState) -> Result<
    Effect,
    ExecutionError,
> {
    match instruction {
        Instruction::Nop => Ok(quiet(m)),
        Instruction::Int => Ok(quiet(m)),
        Instruction::Mov(t, s) => quietly(m.combine(t, s, Binary::Mov)),
        Instruction::Push(s) => quietly(m.push_source(s)),
        Instruction::Pop(t) => quietly(m.pop_into(t)),
        Instruction::Pushf => quietly(m.push(m.flags)),
        Instruction::Popf => quietly(m.pop_flags()),
        Instruction::Inc(t) => quietly(m.adjust(t, Unary::Inc)),
        Instruction::Dec(t) => quietly(m.adjust(t, Unary::Dec)),
        Instruction::Add(t, s) => quietly(m.combine(t, s, Binary::Add)),
        Instruction::Sub(t, s) => quietly(m.combine(t, s, Binary::Sub)),
        Instruction::Mul(t, s) => quietly(m.combine(t, s, Binary::Mul)),
        Instruction::Div(t, s) => quietly(m.combine(t, s, Binary::Div)),
        Instruction::Mod(s1, s2) => quietly(m.divide_rest(s1, s2)),
        Instruction::Rem(t) => quietly(m.write(t, m.remainder)),
        Instruction::Not(t) => quietly(m.adjust(t, Unary::Not)),
        Instruction::Xor(t, s) => quietly(m.combine(t, s, Binary::Xor)),
        Instruction::Or(t, s) => quietly(m.combine(t, s, Binary::Or)),
        Instruction::And(t, s) => quietly(m.combine(t, s, Binary::And)),
        Instruction::Shl(t, s) => quietly(m.combine(t, s, Binary::Shl)),
        Instruction::Shr(t, s) => quietly(m.combine(t, s, Binary::Shr)),
        Instruction::Cmp(s1, s2) => quietly(m.compare_sources(s1, s2)),
        Instruction::Jmp(s) => m.branch(true, s),
        Instruction::Call(s) => m.call(s),
        Instruction::Ret => m.ret(),
        Instruction::Je(s) => m.branch(m.flags & 1 != 0, s),
        Instruction::Jne(s) => m.branch(m.flags & 1 == 0, s),
        Instruction::Jg(s) => m.branch(m.flags & 2 != 0, s),
        Instruction::Jge(s) => m.branch(m.flags & 3 != 0, s),
        Instruction::Jl(s) => m.branch(m.flags & 3 == 0, s),
        Instruction::Jle(s) => m.branch(m.flags & 2 == 0, s),
        Instruction::Prn(s) => m.print(s),
    }
}

/// What a step reports for the output of an instruction.
pub open spec fn report(output: Option<i32>) -> Step {
    match output {
        Some(v) => Step::Print(v),
        None => Step::Next,
    }
}

/// One step of a program from state `m`: at the end of the program nothing
/// happens; beyond it the step faults; otherwise the instruction at the
/// instruction pointer takes effect and the instruction pointer moves to the
/// branch target, or else to the next instruction.
pub open spec fn step_spec(instructions: Seq<Instruction>, m: MachineState) -> Result<
    (MachineState, Step),
    ExecutionError,
> {
    let ip = m.reg(Register::Eip);
    if ip == instructions.len() {
        Ok((m, Step::Halt))
    } else if ip < 0 || ip > instructions.len() {
        Err(ExecutionError::InstructionOutOfRange(ip))
    } else {
        match effect(instructions[ip as int], m) {
            Err(e) => Err(e),
            Ok(eff) => {
                let next = match eff.jump {
                    Some(target) => target,
                    None => wrap32(ip + 1),
                };
                Ok((eff.state.with_reg(Register::Eip, next), report(eff.output)))
            },
        }
    }
}

/// How a run under a step budget ended.
pub struct Run {
    /// The machine state at the end; after a fault, the state before the
    /// instruction that raised it.
    pub state: MachineState,
    /// The values printed, in order.
    pub output: Seq<i32>,
    /// `Ok(true)` if the program reached its end, `Ok(false)` if the budget
    /// ran out first, or the fault that stopped the run.
    pub status: Result<bool, ExecutionError>,
}

/// What a step prints.
pub open spec fn printed(step: Step) -> Seq<i32> {
    match step {
        Step::Print(v) => seq![v],
        _ => Seq::empty(),
    }
}

/// A run from state `m` that executes at most `budget` instructions. The
/// end of the program is noticed without budget.
pub open spec fn run_spec(instructions: Seq<Instruction>, m: MachineState, budget: nat) -> Run
    decreases budget,
{
    if m.reg(Register::Eip) == instructions.len() {
        Run { state: m, output: Seq::empty(), status: Ok(true) }
    } else if budget == 0 {
        Run { state: m, output: Seq::empty(), status: Ok(false) }
    } else {
        match step_spec(instructions, m) {
            Err(e) => Run { state: m, output: Seq::empty(), status: Err(e) },
            Ok((next, step)) => {
                let rest = run_spec(instructions, next, (budget - 1) as nat);
                Run { state: rest.state, output: printed(step) + rest.output, status: rest.status }
            },
        }
    }
}

/// The state in which every execution of a [`Context`] starts: zeroed
/// memory, registers and flags, the stack and frame pointers at
/// [`STACK_SIZE`], the instruction pointer at `start`.
pub open spec fn initial_state(start: i32) -> MachineState {
    MachineState::fresh(MEMORY_WORDS as nat).with_reg(Register::Esp, STACK_SIZE as i32).with_reg(
        Register::Ebp,
        STACK_SIZE as i32,
    ).with_reg(Register::Eip, start)
}

/// Truncating division of `a` by `b`.
fn divide(a: i32, b: i32) -> (q: Option<i32>)
    ensures
        q == div32(a, b),
{
    let q = a.checked_div(b);
    proof {
        if b != 0 && !(a == i32::MIN && b == -1) {
            let x = if a < 0 { -a } else { a as int };
            let d = if b < 0 { -b } else { b as int };
            lemma_quotient_bounds(x, d);
            if a == i32::MIN && b < 0 {
                assert(x / d < x) by (nonlinear_arith)
                    requires
                        x > 0,
                        d > 1,
                        x == d * (x / d) + x % d,
                        0 <= x % d,
                        0 <= x / d,
                ;
            }
            crate::memory::lemma_wrap32_fits(x / d);
            crate::memory::lemma_wrap32_fits(-(x / d));
        }
    }
    q
}

/// The remainder of the truncating division of `a` by `b`.
fn remainder(a: i32, b: i32) -> (r: Option<i32>)
    ensures
        r == rem32(a, b),
{
    let r = a.checked_rem(b);
    proof {
        if b != 0 && !(a == i32::MIN && b == -1) {
            let x = if a < 0 { -a } else { a as int };
            let d = if b < 0 { -b } else { b as int };
            lemma_quotient_bounds(x, d);
            crate::memory::lemma_wrap32_fits(x % d);
            crate::memory::lemma_wrap32_fits(-(x % d));
        }
    }
    r
}

/// Quotient and remainder of a non-negative number by a positive one are
/// bounded by the dividend and the divisor.
proof fn lemma_quotient_bounds(x: int, d: int)
    requires
        0 <= x,
        0 < d,
    ensures
        0 <= x / d <= x,
        0 <= x % d < d,
        x % d <= x,
        x == d * (x / d) + x % d,
        x == 0 ==> x / d == 0 && x % d == 0,
{
    vstd::arithmetic::div_mod::lemma_div_pos_is_pos(x, d);
    vstd::arithmetic::div_mod::lemma_div_is_ordered_by_denominator(x, 1, d);
    vstd::arithmetic::div_mod::lemma_mod_bound(x, d);
    vstd::arithmetic::div_mod::lemma_fundamental_div_mod(x, d);
    if x < d {
        vstd::arithmetic::div_mod::lemma_basic_div(x, d);
        vstd::arithmetic::div_mod::lemma_small_mod(x as nat, d as nat);
    }
    assert(x % d <= x) by (nonlinear_arith)
        requires
            0 <= x,
            0 < d,
            0 <= x / d,
            x == d * (x / d) + x % d,
    ;
}

/// The number of bits that a shift by `s` moves.
fn shift_bits(s: i32) -> (k: u32)
    ensures
        k == shift_amount(s),
        k < 32,
{
    let low: i32 = s & 31;
    assert(0 <= low < 32) by (bit_vector)
        requires
            low == s & 31i32,
    ;
    low as u32
}

/// `a` shifted left by the low five bits of `s`.
fn shift_left(a: i32, s: i32) -> (v: i32)
    ensures
        v == a << shift_amount(s),
{
    a.wrapping_shl(shift_bits(s))
}

/// `a` shifted right, with its sign, by the low five bits of `s`.
fn shift_right(a: i32, s: i32) -> (v: i32)
    ensures
        v == a >> shift_amount(s),
{
    a.wrapping_shr(shift_bits(s))
}

/// The word that the stack pointer points at.
fn peek(memory: &Memory) -> (r: Result<i32, ExecutionError>)
    ensures
        r == memory@.top(),
{
    let sp = memory.register(Register::Esp);
    if memory.is_valid_address(sp) {
        Ok(memory.load(sp))
    } else {
        Err(ExecutionError::DataAddressOutOfRange(sp))
    }
}

/// Whether the executable result `r`, which left the machine in state
/// `after`, is what `expected` asks for from state `before`.
pub open spec fn settled(
    r: Result<(), ExecutionError>,
    before: MachineState,
    after: MachineState,
    expected: Result<MachineState, ExecutionError>,
) -> bool {
    match r {
        Ok(()) => expected == Ok::<MachineState, ExecutionError>(after),
        Err(e) => expected == Err::<MachineState, ExecutionError>(e) && after == before,
    }
}

/// Whether the executable result `r`, which left the machine in state
/// `after`, is what `expected` asks for from state `before`.
pub open spec fn effected(
    r: Result<(Option<i32>, Option<i32>), ExecutionError>,
    before: MachineState,
    after: MachineState,
    expected: Result<Effect, ExecutionError>,
) -> bool {
    match r {
        Ok((jump, output)) => expected == Ok::<Effect, ExecutionError>(
            (Effect { state: after, jump, output }),
        ),
        Err(e) => expected == Err::<Effect, ExecutionError>(e) && after == before,
    }
}

/// `t ← op(t, s)`.
fn combine(memory: &mut Memory, t: Target, s: Source, op: Binary) -> (r: Result<
    (),
    ExecutionError,
>)
    ensures
        settled(r, old(memory)@, final(memory)@, old(memory)@.combine(t, s, op)),
{
    let a = memory.read_target(t)?;
    let b = memory.read(s)?;
    match op.compute(a, b) {
        None => Err(ExecutionError::ArithmeticFault),
        Some(v) => memory.write(t, v),
    }
}

/// `t ← op(t)`.
fn adjust(memory: &mut Memory, t: Target, op: Unary) -> (r: Result<(), ExecutionError>)
    ensures
        settled(r, old(memory)@, final(memory)@, old(memory)@.adjust(t, op)),
{
    let a = memory.read_target(t)?;
    memory.write(t, op.compute(a))
}

/// A push of a source operand.
fn push_source(memory: &mut Memory, s: Source) -> (r: Result<(), ExecutionError>)
    ensures
        settled(r, old(memory)@, final(memory)@, old(memory)@.push_source(s)),
{
    let v = memory.read(s)?;
    memory.push_stack(v)
}

/// A pop into a target operand.
fn pop_into(memory: &mut Memory, t: Target) -> (r: Result<(), ExecutionError>)
    ensures
        settled(r, old(memory)@, final(memory)@, old(memory)@.pop_into(t)),
{
    let _ = memory.read_target(t)?;
    let v = peek(memory)?;
    let written = memory.write(t, v);
    assert(written is Ok);
    let sp = memory.register(Register::Esp);
    memory.set_register(Register::Esp, sp.wrapping_add(1));
    Ok(())
}

/// `flags ← pop`.
fn pop_flags(memory: &mut Memory) -> (r: Result<(), ExecutionError>)
    ensures
        settled(r, old(memory)@, final(memory)@, old(memory)@.pop_flags()),
{
    let v = memory.pop_stack()?;
    memory.flags = v;
    Ok(())
}

/// `remainder ← s1 % s2`.
fn divide_rest(memory: &mut Memory, s1: Source, s2: Source) -> (r: Result<(), ExecutionError>)
    ensures
        settled(r, old(memory)@, final(memory)@, old(memory)@.divide_rest(s1, s2)),
{
    let a = memory.read(s1)?;
    let b = memory.read(s2)?;
    match remainder(a, b) {
        None => Err(ExecutionError::ArithmeticFault),
        Some(rest) => {
            memory.remainder = rest;
            Ok(())
        },
    }
}

/// `flags ← compare(s1, s2)`.
fn compare_sources(memory: &mut Memory, s1: Source, s2: Source) -> (r: Result<
    (),
    ExecutionError,
>)
    ensures
        settled(r, old(memory)@, final(memory)@, old(memory)@.compare_sources(s1, s2)),
{
    let a = memory.read(s1)?;
    let b = memory.read(s2)?;
    memory.flags = (if a == b { 1i32 } else { 0i32 }) | (if a > b { 2i32 } else { 0i32 });
    Ok(())
}

/// A jump to the value of `s`, taken only if `taken` holds.
fn branch(memory: &Memory, taken: bool, s: Source) -> (r: Result<
    (Option<i32>, Option<i32>),
    ExecutionError,
>)
    ensures
        effected(r, memory@, memory@, memory@.branch(taken, s)),
{
    if taken {
        match memory.read(s) {
            Err(e) => Err(e),
            Ok(v) => Ok((Some(v), None)),
        }
    } else {
        Ok((None, None))
    }
}

/// A call of the value of `s`.
fn call(memory: &mut Memory, s: Source) -> (r: Result<(Option<i32>, Option<i32>), ExecutionError>)
    ensures
        effected(r, old(memory)@, final(memory)@, old(memory)@.call(s)),
{
    let sp = memory.register(Register::Esp).wrapping_sub(1);
    if !memory.is_valid_address(sp) {
        return Err(ExecutionError::DataAddressOutOfRange(sp));
    }
    match s {
        Source::Address(a) => {
            if !memory.is_valid_address(a) {
                return Err(ExecutionError::DataAddressOutOfRange(a));
            }
        },
        _ => {},
    }
    let back = memory.register(Register::Eip).wrapping_add(1);
    let pushed = memory.push_stack(back);
    assert(pushed is Ok);
    branch(memory, true, s)
}

/// A return.
fn ret(memory: &mut Memory) -> (r: Result<(Option<i32>, Option<i32>), ExecutionError>)
    ensures
        effected(r, old(memory)@, final(memory)@, old(memory)@.ret()),
{
    let v = memory.pop_stack()?;
    Ok((Some(v), None))
}

/// A print of the value of `s`.
fn print(memory: &Memory, s: Source) -> (r: Result<(Option<i32>, Option<i32>), ExecutionError>)
    ensures
        effected(r, memory@, memory@, memory@.print(s)),
{
    let v = memory.read(s)?;
    Ok((None, Some(v)))
}

/// The result of an instruction that neither branches nor prints.
fn quiet_result(r: Result<(), ExecutionError>) -> (out: Result<
    (Option<i32>, Option<i32>),
    ExecutionError,
>)
    ensures
        forall|before: MachineState, after: MachineState, expected: Result<MachineState, ExecutionError>|
            settled(r, before, after, expected) ==> #[trigger] effected(
                out,
                before,
                after,
                quietly(expected),
            ),
{
    match r {
        Ok(()) => Ok((None, None)),
        Err(e) => Err(e),
    }
}

/// Executes one instruction, apart from moving the instruction pointer, and
/// returns where it branches to and what it prints. On a fault nothing
/// changes.
fn perform(instruction: Instruction, memory: &mut Memory) -> (r: Result<
    (Option<i32>, Option<i32>),
    ExecutionError,
>)
    ensures
        effected(r, old(memory)@, final(memory)@, effect(instruction, old(memory)@)),
{
    reveal(effect);
    match instruction {
        Instruction::Nop => Ok((None, None)),
        Instruction::Int => Ok((None, None)),
        Instruction::Mov(t, s) => quiet_result(combine(memory, t, s, Binary::Mov)),
        Instruction::Push(s) => quiet_result(push_source(memory, s)),
        Instruction::Pop(t) => quiet_result(pop_into(memory, t)),
        Instruction::Pushf => {
            let flags = memory.flags;
            quiet_result(memory.push_stack(flags))
        },
        Instruction::Popf => quiet_result(pop_flags(memory)),
        Instruction::Inc(t) => quiet_result(adjust(memory, t, Unary::Inc)),
        Instruction::Dec(t) => quiet_result(adjust(memory, t, Unary::Dec)),
        Instruction::Add(t, s) => quiet_result(combine(memory, t, s, Binary::Add)),
        Instruction::Sub(t, s) => quiet_result(combine(memory, t, s, Binary::Sub)),
        Instruction::Mul(t, s) => quiet_result(combine(memory, t, s, Binary::Mul)),
        Instruction::Div(t, s) => quiet_result(combine(memory, t, s, Binary::Div)),
        Instruction::Mod(s1, s2) => quiet_result(divide_rest(memory, s1, s2)),
        Instruction::Rem(t) => {
            let rest = memory.remainder;
            quiet_result(memory.write(t, rest))
        },
        Instruction::Not(t) => quiet_result(adjust(memory, t, Unary::Not)),
        Instruction::Xor(t, s) => quiet_result(combine(memory, t, s, Binary::Xor)),
        Instruction::Or(t, s) => quiet_result(combine(memory, t, s, Binary::Or)),
        Instruction::And(t, s) => quiet_result(combine(memory, t, s, Binary::And)),
        Instruction::Shl(t, s) => quiet_result(combine(memory, t, s, Binary::Shl)),
        Instruction::Shr(t, s) => quiet_result(combine(memory, t, s, Binary::Shr)),
        Instruction::Cmp(s1, s2) => quiet_result(compare_sources(memory, s1, s2)),
        Instruction::Jmp(s) => branch(memory, true, s),
        Instruction::Call(s) => call(memory, s),
        Instruction::Ret => ret(memory),
        Instruction::Je(s) => branch(memory, memory.flags & 1 != 0, s),
        Instruction::Jne(s) => branch(memory, memory.flags & 1 == 0, s),
        Instruction::Jg(s) => branch(memory, memory.flags & 2 != 0, s),
        Instruction::Jge(s) => branch(memory, memory.flags & 3 != 0, s),
        Instruction::Jl(s) => branch(memory, memory.flags & 3 == 0, s),
        Instruction::Jle(s) => branch(memory, memory.flags & 2 == 0, s),
        Instruction::Prn(s) => print(memory, s),
    }
}

/// The position in a program that a non-negative instruction pointer names.
fn position(ip: i32) -> (i: usize)
    requires
        0 <= ip,
    ensures
        i == ip,
{
    ip as usize
}

impl Program {
    /// Executes one step on `memory`: see [`step_spec`]. On a fault nothing
    /// changes.
    pub fn step(&self, memory: &mut Memory) -> (r: Result<Step, ExecutionError>)
        ensures
            match r {
                Ok(step) => step_spec(self.instructions@, old(memory)@) == Ok::<
                    (MachineState, Step),
                    ExecutionError,
                >((final(memory)@, step)),
                Err(e) => step_spec(self.instructions@, old(memory)@) == Err::<
                    (MachineState, Step),
                    ExecutionError,
                >(e) && final(memory)@ == old(memory)@,
            },
    {
        let ip = memory.get_current_instruction_index();
        if ip < 0 {
            return Err(ExecutionError::InstructionOutOfRange(ip));
        }
        let at = position(ip);
        if at == self.instructions.len() {
            return Ok(Step::Halt);
        }
        if at > self.instructions.len() {
            return Err(ExecutionError::InstructionOutOfRange(ip));
        }
        let (jump, output) = perform(self.instructions[at], memory)?;
        let next = match jump {
            Some(target) => target,
            None => ip.wrapping_add(1),
        };
        memory.set_current_instruction_index(next);
        Ok(
            match output {
                Some(v) => Step::Print(v),
                None => Step::Next,
            },
        )
    }
}

impl Program {
    /// Runs on `memory` from its current state, executing at most `budget`
    /// instructions and appending what is printed to `output`: see
    /// [`run_spec`]. Returns whether the program reached its end.
    pub fn run_on(&self, memory: &mut Memory, budget: usize, output: &mut Vec<i32>) -> (r: Result<
        bool,
        ExecutionError,
    >)
        ensures
            final(memory)@ == run_spec(self.instructions@, old(memory)@, budget as nat).state,
            final(output)@ == old(output)@ + run_spec(
                self.instructions@,
                old(memory)@,
                budget as nat,
            ).output,
            r == run_spec(self.instructions@, old(memory)@, budget as nat).status,
    {
        let ghost total = run_spec(self.instructions@, memory@, budget as nat);
        let ghost before = output@;
        let mut remaining: usize = budget;
        
        loop
            invariant
                total == run_spec(self.instructions@, old(memory)@, budget as nat),
                before == old(output)@,
                total.state == run_spec(self.instructions@, memory@, remaining as nat).state,
                total.status == run_spec(self.instructions@, memory@, remaining as nat).status,
                before + total.output == output@ + run_spec(
                    self.instructions@,
                    memory@,
                    remaining as nat,
                ).output,
            decreases remaining,
        {
            let ghost here = memory@;
            let ghost rest = run_spec(self.instructions@, here, remaining as nat);
            if remaining == 0 {
                let ip = memory.get_current_instruction_index();
                let halted = ip >= 0 && position(ip) == self.instructions.len();
                assert(output@ + rest.output =~= output@);
                return Ok(halted);
            }
            match self.step(memory) {
                Err(e) => {
                    assert(output@ + rest.output =~= output@);
                    return Err(e);
                },
                Ok(Step::Halt) => {
                    assert(output@ + rest.output =~= output@);
                    return Ok(true);
                },
                Ok(Step::Next) => {
                    let ghost after = run_spec(self.instructions@, memory@, (remaining - 1) as nat);
                    assert(rest.output =~= after.output);
                },
                Ok(Step::Print(v)) => {
                    let ghost after = run_spec(self.instructions@, memory@, (remaining - 1) as nat);
                    let ghost sofar = output@;
                    output.push(v);
                    assert(sofar + rest.output =~= sofar.push(v) + after.output);
                },
            }
            remaining = remaining - 1;
        }
    }

    /// Runs the program on a fresh machine: see [`initial_state`] and
    /// [`run_spec`]. Appends what is printed to `output` and returns whether
    /// the program reached its end within `budget` instructions.
    pub fn run(&self, budget: usize, output: &mut Vec<i32>) -> (r: Result<bool, ExecutionError>)
        ensures
            final(output)@ == old(output)@ + run_spec(
                self.instructions@,
                initial_state(self.start_instruction_index),
                budget as nat,
            ).output,
            r == run_spec(
                self.instructions@,
                initial_state(self.start_instruction_index),
                budget as nat,
            ).status,
    {
        let mut memory = fresh_memory(self.start_instruction_index);
        self.run_on(&mut memory, budget, output)
    }
}

/// The machine in which every execution of a [`Context`] starts.
fn fresh_memory(start: i32) -> (memory: Memory)
    ensures
        memory@ == initial_state(start),
{
    let mut memory = Memory::new(MEMORY_WORDS);
    memory.create_stack(STACK_SIZE);
    memory.set_current_instruction_index(start);
    memory
}

/// Whether the result `r` of a load into a context, which went from
/// `before` to `after`, is `expected`: a program that is ready stands in
/// the context; otherwise the program of the context is as it was.
pub open spec fn installed(
    r: Result<Option<PendingInclude>, LoadError>,
    before: Context,
    after: Context,
    expected: crate::program::Loaded,
) -> bool {
    match r {
        Ok(None) => expected == crate::program::Loaded::Ready(
            after.program.instructions@,
            after.program.start_instruction_index,
        ),
        Ok(Some(pending)) => after.program == before.program && expected
            == (crate::program::Loaded::Include {
            name: pending.name_spec(),
            text: pending.text(),
            defines: pending.defines_spec(),
        }),
        Err(e) => after.program == before.program && expected == crate::program::Loaded::Failed(
            e@,
        ),
    }
}

/// A program together with the machine that it runs on.
pub struct Context {
    pub program: Program,
    pub memory: Memory,
}

impl Context {
    /// An empty program on a fresh machine.
    pub fn new() -> (context: Context)
        ensures
            context.program.instructions@ == Seq::<Instruction>::empty(),
            context.program.start_instruction_index == 0,
            context.memory@ == initial_state(0),
    {
        Context { program: Program::new(), memory: fresh_memory(0) }
    }

    /// Loads a source, up to its first include or to its end: see
    /// [`load_spec`]. A program that is ready replaces the program of the
    /// context; an include is handed back.
    pub fn load(&mut self, source: String) -> (r: Result<Option<PendingInclude>, LoadError>)
        ensures
            final(self).memory == old(self).memory,
            installed(r, *old(self), *final(self), load_spec(source@)),
    {
        self.install(Program::load(source))
    }

    /// Goes on with a load that waited for an include, with what the
    /// include names holding `contents`: see [`resume_spec`].
    pub fn resume_load(&mut self, pending: PendingInclude, contents: &str) -> (r: Result<
        Option<PendingInclude>,
        LoadError,
    >)
        ensures
            final(self).memory == old(self).memory,
            installed(
                r,
                *old(self),
                *final(self),
                loaded(resume_spec(pending.text(), contents@, pending.defines_spec())),
            ),
    {
        self.install(pending.resume(contents))
    }

    /// Takes over the program of a load that is ready.
    fn install(&mut self, loading: Result<Loading, LoadError>) -> (r: Result<
        Option<PendingInclude>,
        LoadError,
    >)
        ensures
            final(self).memory == old(self).memory,
            forall|expected: crate::program::Loaded| #[trigger]
                load_matches(loading, expected) ==> installed(
                    r,
                    *old(self),
                    *final(self),
                    expected,
                ),
    {
        match loading {
            Err(e) => Err(e),
            Ok(Loading::Include(pending)) => Ok(Some(pending)),
            Ok(Loading::Ready(program)) => {
                self.program = program;
                Ok(None)
            },
        }
    }

    /// Executes one step of the program on the machine: see [`step_spec`].
    /// On a fault nothing changes.
    pub fn step(&mut self) -> (r: Result<Step, ExecutionError>)
        ensures
            final(self).program == old(self).program,
            match r {
                Ok(step) => step_spec(old(self).program.instructions@, old(self).memory@) == Ok::<
                    (MachineState, Step),
                    ExecutionError,
                >((final(self).memory@, step)),
                Err(e) => step_spec(old(self).program.instructions@, old(self).memory@) == Err::<
                    (MachineState, Step),
                    ExecutionError,
                >(e) && final(self).memory@ == old(self).memory@,
            },
    {
        self.program.step(&mut self.memory)
    }

    /// Runs the program on a fresh machine, which replaces the machine of
    /// the context: see [`initial_state`] and [`run_spec`]. Appends what is
    /// printed to `output` and returns whether the program reached its end
    /// within `budget` instructions.
    pub fn run(&mut self, budget: usize, output: &mut Vec<i32>) -> (r: Result<
        bool,
        ExecutionError,
    >)
        ensures
            final(self).program == old(self).program,
            final(self).memory@ == run_spec(
                old(self).program.instructions@,
                initial_state(old(self).program.start_instruction_index),
                budget as nat,
            ).state,
            final(output)@ == old(output)@ + run_spec(
                old(self).program.instructions@,
                initial_state(old(self).program.start_instruction_index),
                budget as nat,
            ).output,
            r == run_spec(
                old(self).program.instructions@,
                initial_state(old(self).program.start_instruction_index),
                budget as nat,
            ).status,
    {
        self.memory = fresh_memory(self.program.start_instruction_index);
        self.program.run_on(&mut self.memory, budget, output)
    }
}

/// A run that does not end for want of budget ends the same, with the
/// same output, under every larger budget: what a program prints does not
/// depend on the run.
pub proof fn lemma_run_deterministic(
    instructions: Seq<Instruction>,
    m: MachineState,
    budget: nat,
    larger: nat,
)
    requires
        budget <= larger,
        run_spec(instructions, m, budget).status != Ok::<bool, ExecutionError>(false),
    ensures
        run_spec(instructions, m, larger) == run_spec(instructions, m, budget),
    decreases budget,
{
    if m.reg(Register::Eip) != instructions.len() && budget > 0 {
        match step_spec(instructions, m) {
            Err(_) => {},
            Ok((next, _)) => {
                lemma_run_deterministic(
                    instructions,
                    next,
                    (budget - 1) as nat,
                    (larger - 1) as nat,
                );
            },
        }
    }
}

/// Every execution starts at the start index of the program, with the
/// stack and frame pointers at the top of an empty stack.
pub proof fn lemma_initial_state(start: i32)
    ensures
        initial_state(start).wf(),
        initial_state(start).reg(Register::Eip) == start,
        initial_state(start).reg(Register::Esp) == STACK_SIZE,
        initial_state(start).reg(Register::Ebp) == STACK_SIZE,
        initial_state(start).mem_space.len() == MEMORY_WORDS,
        initial_state(start).flags == 0,
{
}

/// The first instruction that a run executes is the one at the start
/// index of the program.
pub proof fn lemma_run_starts_at_start(instructions: Seq<Instruction>, start: i32, budget: nat)
    requires
        0 <= start < instructions.len(),
        budget > 0,
    ensures
        step_spec(instructions, initial_state(start)) == match effect(
            instructions[start as int],
            initial_state(start),
        ) {
            Err(e) => Err::<(MachineState, Step), ExecutionError>(e),
            Ok(eff) => Ok(
                (
                    eff.state.with_reg(
                        Register::Eip,
                        match eff.jump {
                            Some(target) => target,
                            None => wrap32(start + 1),
                        },
                    ),
                    report(eff.output),
                ),
            ),
        },
        match step_spec(instructions, initial_state(start)) {
            Err(e) => run_spec(instructions, initial_state(start), budget).status == Err::<
                bool,
                ExecutionError,
            >(e),
            Ok((next, step)) => run_spec(instructions, initial_state(start), budget).output
                == printed(step) + run_spec(instructions, next, (budget - 1) as nat).output,
        },
{
    lemma_initial_state(start);
}

/// The address that a source operand names, if it lies outside the memory.
pub open spec fn stray_source(m: MachineState, s: Source) -> Option<i32> {
    match s {
        Source::Address(a) => if m.valid(a) {
            None
        } else {
            Some(a)
        },
        _ => None,
    }
}

/// The address that a target operand names, if it lies outside the memory.
pub open spec fn stray_target(m: MachineState, t: Target) -> Option<i32> {
    match t {
        Target::Address(a) => if m.valid(a) {
            None
        } else {
            Some(a)
        },
        _ => None,
    }
}

/// The address `a`, if it lies outside the memory.
pub open spec fn stray(m: MachineState, a: i32) -> Option<i32> {
    if m.valid(a) {
        None
    } else {
        Some(a)
    }
}

/// The first of two optional addresses.
pub open spec fn first_of(a: Option<i32>, b: Option<i32>) -> Option<i32> {
    match a {
        Some(_) => a,
        None => b,
    }
}

/// The first address outside the memory that `instruction` reads or
/// writes in state `m`, in the order of its accesses: a target before a
/// source, the operand of a push before the stack, the target of a pop
/// and the stack of a call before the rest. A jump that is not taken
/// reads nothing.
pub open spec fn stray_access(instruction: Instruction, m: MachineState) -> Option<i32> {
    let below = wrap32(m.reg(Register::Esp) - 1);
    let top = m.reg(Register::Esp);
    match instruction {
        Instruction::Nop | Instruction::Int => None,
        Instruction::Mov(t, s)
        | Instruction::Add(t, s)
        | Instruction::Sub(t, s)
        | Instruction::Mul(t, s)
        | Instruction::Div(t, s)
        | Instruction::Xor(t, s)
        | Instruction::Or(t, s)
        | Instruction::And(t, s)
        | Instruction::Shl(t, s)
        | Instruction::Shr(t, s) => first_of(stray_target(m, t), stray_source(m, s)),
        Instruction::Push(s) => first_of(stray_source(m, s), stray(m, below)),
        Instruction::Pop(t) => first_of(stray_target(m, t), stray(m, top)),
        Instruction::Pushf => stray(m, below),
        Instruction::Popf | Instruction::Ret => stray(m, top),
        Instruction::Inc(t) | Instruction::Dec(t) | Instruction::Rem(t) | Instruction::Not(
            t,
        ) => stray_target(m, t),
        Instruction::Mod(s1, s2) | Instruction::Cmp(s1, s2) => first_of(
            stray_source(m, s1),
            stray_source(m, s2),
        ),
        Instruction::Jmp(s) | Instruction::Prn(s) => stray_source(m, s),
        Instruction::Call(s) => first_of(stray(m, below), stray_source(m, s)),
        Instruction::Je(s) => if m.flags & 1 != 0 {
            stray_source(m, s)
        } else {
            None
        },
        Instruction::Jne(s) => if m.flags & 1 == 0 {
            stray_source(m, s)
        } else {
            None
        },
        Instruction::Jg(s) => if m.flags & 2 != 0 {
            stray_source(m, s)
        } else {
            None
        },
        Instruction::Jge(s) => if m.flags & 3 != 0 {
            stray_source(m, s)
        } else {
            None
        },
        Instruction::Jl(s) => if m.flags & 3 == 0 {
            stray_source(m, s)
        } else {
            None
        },
        Instruction::Jle(s) => if m.flags & 2 == 0 {
            stray_source(m, s)
        } else {
            None
        },
    }
}

/// An instruction that reads or writes a word outside the memory faults
/// with the address of the first such word; no other instruction raises an
/// address fault.
pub proof fn lemma_stray_access_faults(instruction: Instruction, m: MachineState)
    requires
        m.wf(),
    ensures
        match stray_access(instruction, m) {
            Some(k) => effect(instruction, m) == Err::<Effect, ExecutionError>(
                ExecutionError::DataAddressOutOfRange(k),
            ),
            None => effect(instruction, m) is Ok || effect(instruction, m) == Err::<
                Effect,
                ExecutionError,
            >(ExecutionError::ArithmeticFault),
        },
{
    reveal(effect);
}

/// A step at an instruction that reads or writes a word outside the
/// memory faults with the address of the first such word, and so does
/// every run that comes to it with budget left.
pub proof fn lemma_step_out_of_bounds(instructions: Seq<Instruction>, m: MachineState, budget: nat)
    requires
        m.wf(),
        0 <= m.reg(Register::Eip) < instructions.len(),
        stray_access(instructions[m.reg(Register::Eip) as int], m) is Some,
    ensures
        step_spec(instructions, m) == Err::<(MachineState, Step), ExecutionError>(
            ExecutionError::DataAddressOutOfRange(
                stray_access(instructions[m.reg(Register::Eip) as int], m)->0,
            ),
        ),
        budget > 0 ==> run_spec(instructions, m, budget).status == Err::<bool, ExecutionError>(
            ExecutionError::DataAddressOutOfRange(
                stray_access(instructions[m.reg(Register::Eip) as int], m)->0,
            ),
        ),
{
    lemma_stray_access_faults(instructions[m.reg(Register::Eip) as int], m);
}

/// What a call and a return do.
pub proof fn lemma_effect_of_call_and_ret(s: Source, m: MachineState)
    ensures
        effect(Instruction::Call(s), m) == m.call(s),
        effect(Instruction::Ret, m) == m.ret(),
{
    reveal(effect);
}

/// A call, and a return that finds the stack as the call left it, bring
/// the program to the instruction after the call, with the stack pointer
/// where it was before the call. The stack is as the call left it when the
/// stack pointer and the word that it points at are.
pub proof fn lemma_call_then_ret(
    instructions: Seq<Instruction>,
    m: MachineState,
    called: MachineState,
    later: MachineState,
)
    requires
        m.wf(),
        later.wf(),
        0 <= m.reg(Register::Eip) < instructions.len(),
        instructions[m.reg(Register::Eip) as int] is Call,
        step_spec(instructions, m) == Ok::<(MachineState, Step), ExecutionError>(
            (called, Step::Next),
        ),
        later.reg(Register::Esp) == called.reg(Register::Esp),
        later.top() == called.top(),
        0 <= later.reg(Register::Eip) < instructions.len(),
        instructions[later.reg(Register::Eip) as int] is Ret,
    ensures
        called.reg(Register::Esp) == wrap32(m.reg(Register::Esp) - 1),
        called.top() == Ok::<i32, ExecutionError>(wrap32(m.reg(Register::Eip) + 1)),
        m.reg(Register::Eip) < i32::MAX ==> wrap32(m.reg(Register::Eip) + 1) == m.reg(
            Register::Eip,
        ) + 1,
        step_spec(instructions, later) matches Ok((back, Step::Next)) && back.reg(Register::Eip)
            == wrap32(m.reg(Register::Eip) + 1) && back.reg(Register::Esp) == m.reg(
            Register::Esp,
        ) && back.mem_space == later.mem_space && back.flags == later.flags,
{
    let ip = m.reg(Register::Eip);
    let sp = wrap32(m.reg(Register::Esp) - 1);
    assert(wrap32(sp + 1) == m.reg(Register::Esp));
    match instructions[ip as int] {
        Instruction::Call(s) => {
            lemma_effect_of_call_and_ret(s, m);
            lemma_effect_of_call_and_ret(s, later);
        },
        _ => {},
    }
}

} // verus!
