//! The machine state: flags, remainder, linear memory and register file.
//!
//! Contracts speak of a [`Memory`] through its view, a [`MachineState`], on
//! which the effect of every access is defined as a spec function.

use crate::context::ExecutionError;
use crate::instruction::{Register, Source, Target};
use vstd::prelude::*;

verus! {

/// The state of the machine during one execution.
#[derive(Debug, Clone, PartialEq, Eq)]
pub struct Memory {
    /// Bit 0 is "equal", bit 1 is "greater".
    pub flags: i32,
    /// The remainder of the last `mod`.
    pub remainder: i32,
    /// The linear memory, in words; the stack lives in it.
    pub mem_space: Vec<i32>,
    /// The register file, indexed by register ordinal.
    pub registers: [i32; 17],
}

/// The mathematical value of a [`Memory`].
pub struct MachineState {
    pub flags: i32,
    pub remainder: i32,
    pub mem_space: Seq<i32>,
    pub registers: Seq<i32>,
}

/// The 32-bit value that `x` wraps around to.
pub open spec fn wrap32(x: int) -> i32 {
    let r = x % 0x1_0000_0000;
    if r > i32::MAX {
        (r - 0x1_0000_0000) as i32
    } else {
        r as i32
    }
}

/// A value that fits in 32 bits wraps around to itself.
pub proof fn lemma_wrap32_fits(x: int)
    ensures
        i32::MIN <= x <= i32::MAX ==> wrap32(x) == x,
{
}

impl MachineState {
    /// The register file has one word per register.
    pub open spec fn wf(self) -> bool {
        self.registers.len() == 17
    }

    /// The value of register `r`.
    pub open spec fn reg(self, r: Register) -> i32 {
        self.registers[r.ordinal()]
    }

    /// The state with register `r` set to `v`.
    pub open spec fn with_reg(self, r: Register, v: i32) -> MachineState {
        MachineState { registers: self.registers.update(r.ordinal(), v), ..self }
    }

    /// The state with the flags set to `v`.
    pub open spec fn with_flags(self, v: i32) -> MachineState {
        MachineState { flags: v, ..self }
    }

    /// The state with the remainder set to `v`.
    pub open spec fn with_remainder(self, v: i32) -> MachineState {
        MachineState { remainder: v, ..self }
    }

    /// Whether `a` is the address of a word of the linear memory.
    pub open spec fn valid(self, a: i32) -> bool {
        0 <= a < self.mem_space.len()
    }

    /// The state with `v` stored at address `a`.
    pub open spec fn store(self, a: i32, v: i32) -> MachineState {
        MachineState { mem_space: self.mem_space.update(a as int, v), ..self }
    }

    /// The value of a source operand, or the fault that reading it raises.
    pub open spec fn read(self, s: Source) -> Result<i32, ExecutionError> {
        match s {
            Source::Register(r) => Ok(self.reg(r)),
            Source::Value(v) => Ok(v),
            Source::Address(a) => if self.valid(a) {
                Ok(self.mem_space[a as int])
            } else {
                Err(ExecutionError::DataAddressOutOfRange(a))
            },
        }
    }

    /// The value of a target operand, or the fault that reading it raises.
    pub open spec fn read_target(self, t: Target) -> Result<i32, ExecutionError> {
        match t {
            Target::Register(r) => Ok(self.reg(r)),
            Target::Address(a) => if self.valid(a) {
                Ok(self.mem_space[a as int])
            } else {
                Err(ExecutionError::DataAddressOutOfRange(a))
            },
        }
    }

    /// The state after writing `v` to a target operand, or the fault that
    /// writing it raises.
    pub open spec fn write(self, t: Target, v: i32) -> Result<MachineState, ExecutionError> {
        match t {
            Target::Register(r) => Ok(self.with_reg(r, v)),
            Target::Address(a) => if self.valid(a) {
                Ok(self.store(a, v))
            } else {
                Err(ExecutionError::DataAddressOutOfRange(a))
            },
        }
    }

    /// The state after a push of `v`: the stack pointer goes down by one and
    /// `v` is stored where it then points.
    pub open spec fn push(self, v: i32) -> Result<MachineState, ExecutionError> {
        let sp = wrap32(self.reg(Register::Esp) - 1);
        if self.valid(sp) {
            Ok(self.with_reg(Register::Esp, sp).store(sp, v))
        } else {
            Err(ExecutionError::DataAddressOutOfRange(sp))
        }
    }

    /// The word that the stack pointer points at.
    pub open spec fn top(self) -> Result<i32, ExecutionError> {
        let sp = self.reg(Register::Esp);
        if self.valid(sp) {
            Ok(self.mem_space[sp as int])
        } else {
            Err(ExecutionError::DataAddressOutOfRange(sp))
        }
    }

    /// The state with the stack pointer moved up by one.
    pub open spec fn drop_top(self) -> MachineState {
        self.with_reg(Register::Esp, wrap32(self.reg(Register::Esp) + 1))
    }

    /// A fresh state: `size` zeroed words, zeroed registers and flags.
    pub open spec fn fresh(size: nat) -> MachineState {
        MachineState {
            flags: 0,
            remainder: 0,
            mem_space: Seq::new(size, |i: int| 0i32),
            registers: Seq::new(17, |i: int| 0i32),
        }
    }
}

impl View for Memory {
    type V = MachineState;

    open spec fn view(&self) -> MachineState {
        MachineState {
            flags: self.flags,
            remainder: self.remainder,
            mem_space: self.mem_space@,
            registers: self.registers@,
        }
    }
}

/// The word index that a valid address stands for.
fn word_index(a: i32) -> (i: usize)
    requires
        0 <= a,
    ensures
        i == a,
{
    a as usize
}

/// The register value that a stack size stands for.
fn stack_base(size: usize) -> (v: i32)
    requires
        size <= i32::MAX,
    ensures
        v == size,
{
    size as i32
}

impl Memory {
    /// A memory of `size` zeroed words, with zeroed registers and flags.
    pub fn new(size: usize) -> (memory: Memory)
        ensures
            memory@ == MachineState::fresh(size as nat),
    {
        let memory = Memory {
            flags: 0,
            remainder: 0,
            mem_space: vec![0i32; size],
            registers: [0i32;17],
        };
        assert(memory@.mem_space =~= MachineState::fresh(size as nat).mem_space);
        assert(memory@.registers =~= MachineState::fresh(size as nat).registers);
        memory
    }

    /// Puts the stack pointer and the frame pointer at word `size`: the
    /// stack then grows down from there.
    pub fn create_stack(&mut self, size: usize)
        requires
            size <= i32::MAX,
        ensures
            final(self)@ == old(self)@.with_reg(Register::Esp, size as i32).with_reg(
                Register::Ebp,
                size as i32,
            ),
    {
        let base = stack_base(size);
        self.registers[Register::Esp.index()] = base;
        self.registers[Register::Ebp.index()] = base;
    }

    /// Whether `a` is the address of a word of the linear memory.
    pub fn is_valid_address(&self, a: i32) -> (ok: bool)
        ensures
            ok == self@.valid(a),
    {
        a >= 0 && word_index(a) < self.mem_space.len()
    }

    /// The word at address `a`.
    pub fn load(&self, a: i32) -> (v: i32)
        requires
            self@.valid(a),
        ensures
            v == self@.mem_space[a as int],
    {
        self.mem_space[word_index(a)]
    }

    /// Stores `v` at address `a`.
    pub fn store(&mut self, a: i32, v: i32)
        requires
            old(self)@.valid(a),
        ensures
            final(self)@ == old(self)@.store(a, v),
    {
        self.mem_space[word_index(a)] = v;
    }

    /// The value of register `r`.
    pub fn register(&self, r: Register) -> (v: i32)
        ensures
            v == self@.reg(r),
    {
        self.registers[r.index()]
    }

    /// Sets register `r` to `v`.
    pub fn set_register(&mut self, r: Register, v: i32)
        ensures
            final(self)@ == old(self)@.with_reg(r, v),
    {
        self.registers[r.index()] = v;
    }

    /// Reads a source operand.
    pub fn read(&self, s: Source) -> (r: Result<i32, ExecutionError>)
        ensures
            r == self@.read(s),
    {
        match s {
            Source::Register(r) => Ok(self.register(r)),
            Source::Value(v) => Ok(v),
            Source::Address(a) => if self.is_valid_address(a) {
                Ok(self.load(a))
            } else {
                Err(ExecutionError::DataAddressOutOfRange(a))
            },
        }
    }

    /// Reads a target operand.
    pub fn read_target(&self, t: Target) -> (r: Result<i32, ExecutionError>)
        ensures
            r == self@.read_target(t),
    {
        match t {
            Target::Register(r) => Ok(self.register(r)),
            Target::Address(a) => if self.is_valid_address(a) {
                Ok(self.load(a))
            } else {
                Err(ExecutionError::DataAddressOutOfRange(a))
            },
        }
    }

    /// Writes `v` to a target operand; on a fault nothing changes.
    pub fn write(&mut self, t: Target, v: i32) -> (r: Result<(), ExecutionError>)
        ensures
            match r {
                Ok(()) => old(self)@.write(t, v) == Ok::<MachineState, ExecutionError>(
                    final(self)@,
                ),
                Err(e) => old(self)@.write(t, v) == Err::<MachineState, ExecutionError>(e)
                    && final(self)@ == old(self)@,
            },
    {
        match t {
            Target::Register(r) => {
                self.set_register(r, v);
                Ok(())
            },
            Target::Address(a) => if self.is_valid_address(a) {
                self.store(a, v);
                Ok(())
            } else {
                Err(ExecutionError::DataAddressOutOfRange(a))
            },
        }
    }

    /// Pushes `item`: the stack pointer goes down by one and `item` is
    /// stored where it then points. On a fault nothing changes.
    pub fn push_stack(&mut self, item: i32) -> (r: Result<(), ExecutionError>)
        ensures
            match r {
                Ok(()) => old(self)@.push(item) == Ok::<MachineState, ExecutionError>(
                    final(self)@,
                ),
                Err(e) => old(self)@.push(item) == Err::<MachineState, ExecutionError>(e)
                    && final(self)@ == old(self)@,
            },
    {
        let sp = self.register(Register::Esp).wrapping_sub(1);
        if self.is_valid_address(sp) {
            self.set_register(Register::Esp, sp);
            self.store(sp, item);
            Ok(())
        } else {
            Err(ExecutionError::DataAddressOutOfRange(sp))
        }
    }

    /// Pops a word: reads where the stack pointer points, then moves the
    /// stack pointer up by one. On a fault nothing changes.
    pub fn pop_stack(&mut self) -> (r: Result<i32, ExecutionError>)
        ensures
            r == old(self)@.top(),
            r is Ok ==> final(self)@ == old(self)@.drop_top(),
            r is Err ==> final(self)@ == old(self)@,
    {
        let sp = self.register(Register::Esp);
        if self.is_valid_address(sp) {
            let v = self.load(sp);
            self.set_register(Register::Esp, sp.wrapping_add(1));
            Ok(v)
        } else {
            Err(ExecutionError::DataAddressOutOfRange(sp))
        }
    }

    /// The instruction pointer.
    pub fn get_current_instruction_index(&self) -> (ip: i32)
        ensures
            ip == self@.reg(Register::Eip),
    {
        self.register(Register::Eip)
    }

    /// Sets the instruction pointer.
    pub fn set_current_instruction_index(&mut self, value: i32)
        ensures
            final(self)@ == old(self)@.with_reg(Register::Eip, value),
    {
        self.set_register(Register::Eip, value);
    }
}

} // verus!
