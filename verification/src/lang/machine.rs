//! A steppable executor for compiled programs.

use crate::lang::desugar::jumps_in_bounds;
use crate::lang::ast::{LangValue, MachineInstr, Operator, RegisterRef, StackIdentifier, ValueSource};
use crate::lang::error::RuntimeError;
use crate::models::Environment;
use vstd::prelude::*;

verus! {

broadcast use vstd::std_specs::vec::group_vec_axioms;

/// The mathematical form of a machine's data.
pub struct StateModel {
    pub max_stack_length: i32,
    /// The remaining input; the next value to be read is the last one.
    pub input: Seq<LangValue>,
    pub output: Seq<LangValue>,
    pub registers: Seq<LangValue>,
    pub stacks: Seq<Seq<LangValue>>,
}

/// The current data of a machine: input, output, registers and stacks. The
/// fields are public so that they can be read; they are changed only by the
/// machine.
#[derive(Debug, PartialEq)]
pub struct MachineState {
    /// The maximum number of elements allowed in a stack, copied from the
    /// environment.
    pub max_stack_length: i32,
    /// The current input buffer, stored in reverse, so that the value that is
    /// read next is the last one. Values are only ever removed from it.
    pub input: Vec<LangValue>,
    /// The current output buffer. Values are only ever appended to it.
    pub output: Vec<LangValue>,
    /// The user registers, indexed by register number.
    pub registers: Vec<LangValue>,
    /// The stacks, indexed by stack number.
    pub stacks: Vec<Vec<LangValue>>,
}

impl View for MachineState {
    type V = StateModel;

    open spec fn view(&self) -> StateModel {
        StateModel {
            max_stack_length: self.max_stack_length,
            input: self.input@,
            output: self.output@,
            registers: self.registers@,
            stacks: self.stacks@.map_values(|s: Vec<LangValue>| s@),
        }
    }
}

/// Can the register be read on hardware with the given numbers of registers
/// and stacks?
pub open spec fn reg_readable(num_registers: nat, num_stacks: nat, r: RegisterRef) -> bool {
    match r {
        RegisterRef::InputLength => true,
        RegisterRef::StackLength(i) => i < num_stacks,
        RegisterRef::User(i) => i < num_registers,
    }
}

/// Can the register be written on hardware with the given numbers of
/// registers? Only user registers can be written.
pub open spec fn reg_writable(num_registers: nat, r: RegisterRef) -> bool {
    match r {
        RegisterRef::User(i) => i < num_registers,
        _ => false,
    }
}

/// Can the value source be read on the given hardware?
pub open spec fn source_readable(num_registers: nat, num_stacks: nat, s: ValueSource) -> bool {
    match s {
        ValueSource::Const(_) => true,
        ValueSource::Register(r) => reg_readable(num_registers, num_stacks, r),
    }
}

/// Does every reference of the operator exist on the given hardware, and is
/// every register that it writes writable?
pub open spec fn operator_fits(num_registers: nat, num_stacks: nat, op: Operator) -> bool {
    match op {
        Operator::Read(r) => reg_writable(num_registers, r),
        Operator::Write(r) => reg_readable(num_registers, num_stacks, r),
        Operator::Assign(d, s) | Operator::Add(d, s) | Operator::Sub(d, s) | Operator::Mul(d, s) => {
            reg_writable(num_registers, d) && source_readable(num_registers, num_stacks, s)
        },
        Operator::Push(s, id) => source_readable(num_registers, num_stacks, s) && id < num_stacks,
        Operator::Pop(id, d) => id < num_stacks && reg_writable(num_registers, d),
    }
}

/// Does the instruction fit the given hardware?
pub open spec fn machine_instr_fits(num_registers: nat, num_stacks: nat, i: MachineInstr) -> bool {
    match i {
        MachineInstr::Operator(op) => operator_fits(num_registers, num_stacks, op),
        MachineInstr::Jez(_, r) | MachineInstr::Jnz(_, r) => reg_readable(num_registers, num_stacks, r),
    }
}

/// Does every instruction of the program fit the given hardware?
pub open spec fn program_fits(num_registers: nat, num_stacks: nat, p: Seq<MachineInstr>) -> bool {
    forall|k: int| 0 <= k < p.len() ==> #[trigger] machine_instr_fits(num_registers, num_stacks, p[k])
}

/// The value of a register.
pub open spec fn reg_value(st: StateModel, r: RegisterRef) -> LangValue {
    match r {
        RegisterRef::InputLength => st.input.len() as LangValue,
        RegisterRef::StackLength(i) => st.stacks[i as int].len() as LangValue,
        RegisterRef::User(i) => st.registers[i as int],
    }
}

/// The value of a value source.
pub open spec fn source_value(st: StateModel, s: ValueSource) -> LangValue {
    match s {
        ValueSource::Const(v) => v,
        ValueSource::Register(r) => reg_value(st, r),
    }
}

/// The state with a user register set to a value.
pub open spec fn with_reg(st: StateModel, r: RegisterRef, v: LangValue) -> StateModel {
    match r {
        RegisterRef::User(i) => StateModel { registers: st.registers.update(i as int, v), ..st },
        _ => st,
    }
}

/// Is the stack full? A negative maximum length never fills a stack.
pub open spec fn stack_full(st: StateModel, id: StackIdentifier) -> bool {
    0 <= st.max_stack_length && st.stacks[id as int].len() >= st.max_stack_length
}

/// The effect of one operator on the state, or the error that it raises. An
/// operator that raises an error changes nothing.
pub open spec fn apply_operator(st: StateModel, op: Operator) -> Result<StateModel, RuntimeError> {
    match op {
        Operator::Read(r) => {
            if st.input.len() == 0 {
                Err(RuntimeError::EmptyInput)
            } else {
                Ok(with_reg(StateModel { input: st.input.drop_last(), ..st }, r, st.input.last()))
            }
        },
        Operator::Write(r) => Ok(StateModel { output: st.output.push(reg_value(st, r)), ..st }),
        Operator::Assign(d, s) => Ok(with_reg(st, d, source_value(st, s))),
        Operator::Add(d, s) => Ok(with_reg(st, d, reg_value(st, d).wrapping_add(source_value(st, s)))),
        Operator::Sub(d, s) => Ok(with_reg(st, d, reg_value(st, d).wrapping_sub(source_value(st, s)))),
        Operator::Mul(d, s) => Ok(with_reg(st, d, reg_value(st, d).wrapping_mul(source_value(st, s)))),
        Operator::Push(s, id) => {
            if stack_full(st, id) {
                Err(RuntimeError::StackOverflow(id))
            } else {
                Ok(StateModel {
                    stacks: st.stacks.update(id as int, st.stacks[id as int].push(source_value(st, s))),
                    ..st
                })
            }
        },
        Operator::Pop(id, d) => {
            if st.stacks[id as int].len() == 0 {
                Err(RuntimeError::EmptyStack(id))
            } else {
                let popped = st.stacks[id as int].last();
                with_reg_ok(
                    StateModel { stacks: st.stacks.update(id as int, st.stacks[id as int].drop_last()), ..st },
                    d,
                    popped,
                )
            }
        },
    }
}

/// `with_reg` wrapped in `Ok`.
pub open spec fn with_reg_ok(st: StateModel, r: RegisterRef, v: LangValue) -> Result<StateModel, RuntimeError> {
    Ok(with_reg(st, r, v))
}

/// The mathematical form of a machine.
pub struct MachineModel {
    pub program: Seq<MachineInstr>,
    pub expected_output: Seq<LangValue>,
    pub state: StateModel,
    /// The index of the next instruction; any value at or past the end of the
    /// program means that the program has completed.
    pub pc: nat,
}

/// Has the machine executed its whole program?
pub open spec fn model_complete(m: MachineModel) -> bool {
    m.pc >= m.program.len()
}

/// Has the machine completed, consumed all its input and written exactly the
/// expected output?
pub open spec fn model_successful(m: MachineModel) -> bool {
    &&& model_complete(m)
    &&& m.state.input.len() == 0
    &&& m.state.output == m.expected_output
}

/// Where the program counter lands when it moves by `d` instructions from
/// `pc`. The machine adds in `i32` and converts the sum to `usize`, so a sum
/// at or past the end of the program completes it, and a negative sum wraps
/// around to the top of the `usize` range.
pub open spec fn counter_after(pc: nat, d: int) -> nat {
    let t = pc + d;
    if t >= 0 {
        t as nat
    } else {
        (t + usize::MAX + 1) as nat
    }
}

/// How far the next instruction moves the program counter when it succeeds:
/// a taken jump by its offset, anything else by one.
pub open spec fn next_offset(m: MachineModel) -> int {
    match m.program[m.pc as int] {
        MachineInstr::Operator(_) => 1,
        MachineInstr::Jez(n, r) => if reg_value(m.state, r) == 0 {
            n as int
        } else {
            1
        },
        MachineInstr::Jnz(n, r) => if reg_value(m.state, r) != 0 {
            n as int
        } else {
            1
        },
    }
}

/// The effect of executing the next instruction, or the error that it raises.
/// A completed machine has no next instruction: stepping it raises
/// `ProgramTerminated`.
pub open spec fn step(m: MachineModel) -> Result<MachineModel, RuntimeError> {
    if m.pc >= m.program.len() {
        Err(RuntimeError::ProgramTerminated)
    } else {
        match m.program[m.pc as int] {
            MachineInstr::Operator(op) => match apply_operator(m.state, op) {
                Ok(st) => Ok(MachineModel { state: st, pc: m.pc + 1, ..m }),
                Err(e) => Err(e),
            },
            MachineInstr::Jez(n, r) => Ok(
                MachineModel {
                    pc: if reg_value(m.state, r) == 0 {
                        counter_after(m.pc, n as int)
                    } else {
                        m.pc + 1
                    },
                    ..m
                },
            ),
            MachineInstr::Jnz(n, r) => Ok(
                MachineModel {
                    pc: if reg_value(m.state, r) != 0 {
                        counter_after(m.pc, n as int)
                    } else {
                        m.pc + 1
                    },
                    ..m
                },
            ),
        }
    }
}

/// Executes at most `fuel` instructions, stopping early when the program
/// completes or an instruction raises an error. Returns the last machine and
/// the error, if one was raised (the failing instruction changes nothing).
pub open spec fn run(m: MachineModel, fuel: nat) -> (MachineModel, Option<RuntimeError>)
    decreases fuel,
{
    if model_complete(m) || fuel == 0 {
        (m, None)
    } else {
        match step(m) {
            Ok(next) => run(next, (fuel - 1) as nat),
            Err(e) => (m, Some(e)),
        }
    }
}

/// Does a run of `fuel` instructions reach completion or an error?
pub open spec fn halted_within(m: MachineModel, fuel: nat) -> bool {
    let (last, err) = run(m, fuel);
    err is Some || model_complete(last)
}

/// Does the machine ever complete or raise an error?
pub open spec fn halts(m: MachineModel) -> bool {
    exists|fuel: nat| halted_within(m, fuel)
}

/// The number of instructions after which the machine has halted.
pub open spec fn halt_fuel(m: MachineModel) -> nat {
    choose|fuel: nat| halted_within(m, fuel)
}

/// Where a halting machine ends: its last state, and the error that stopped
/// it, if any.
pub open spec fn final_run(m: MachineModel) -> (MachineModel, Option<RuntimeError>) {
    run(m, halt_fuel(m))
}

/// The initial state for an environment.
pub open spec fn initial_state(env: &Environment) -> StateModel {
    StateModel {
        max_stack_length: env.max_stack_length,
        input: env.input@.reverse(),
        output: Seq::empty(),
        registers: Seq::new(env.num_registers as nat, |i: int| 0),
        stacks: Seq::new(env.num_stacks as nat, |i: int| Seq::<LangValue>::empty()),
    }
}

impl MachineState {
    /// The state at the start of execution in the given environment.
    fn new(env: &Environment) -> (st: Self)
        requires
            env.num_registers >= 0,
            env.num_stacks >= 0,
        ensures
            st@ == initial_state(env),
    {
        let mut input: Vec<LangValue> = Vec::new();
        let mut i: usize = env.input.len();
        while i > 0
            invariant
                i <= env.input.len(),
                input@ == env.input@.subrange(i as int, env.input@.len() as int).reverse(),
            decreases i,
        {
            i = i - 1;
            input.push(env.input[i]);
            assert(input@ =~= env.input@.subrange(i as int, env.input@.len() as int).reverse());
        }
        assert(env.input@.subrange(0, env.input@.len() as int) =~= env.input@);
        let mut registers: Vec<LangValue> = Vec::new();
        let num_registers = env.num_registers as usize;
        while registers.len() < num_registers
            invariant
                num_registers == env.num_registers,
                registers.len() <= num_registers,
                forall|k: int| 0 <= k < registers.len() ==> registers@[k] == 0,
            decreases num_registers - registers.len(),
        {
            registers.push(0);
        }
        let mut stacks: Vec<Vec<LangValue>> = Vec::new();
        let num_stacks = env.num_stacks as usize;
        while stacks.len() < num_stacks
            invariant
                num_stacks == env.num_stacks,
                stacks.len() <= num_stacks,
                forall|k: int| 0 <= k < stacks.len() ==> stacks@[k]@ == Seq::<LangValue>::empty(),
            decreases num_stacks - stacks.len(),
        {
            stacks.push(Vec::new());
        }
        let st = MachineState {
            max_stack_length: env.max_stack_length,
            input,
            output: Vec::new(),
            registers,
            stacks,
        };
        assert(st@.registers =~= initial_state(env).registers);
        assert(st@.stacks =~= initial_state(env).stacks);
        assert(st@.output =~= initial_state(env).output);
        st
    }

    /// The value of a value source.
    fn get_value_from_source(&self, src: &ValueSource) -> (v: LangValue)
        requires
            source_readable(self.registers@.len(), self.stacks@.len(), *src),
        ensures
            v == source_value(self@, *src),
    {
        match src {
            ValueSource::Const(val) => *val,
            ValueSource::Register(reg) => self.get_reg(reg),
        }
    }

    /// The value of a register.
    fn get_reg(&self, reg: &RegisterRef) -> (v: LangValue)
        requires
            reg_readable(self.registers@.len(), self.stacks@.len(), *reg),
        ensures
            v == reg_value(self@, *reg),
    {
        match reg {
            RegisterRef::InputLength => self.input.len() as LangValue,
            RegisterRef::StackLength(stack_id) => self.stacks[*stack_id].len() as LangValue,
            RegisterRef::User(reg_id) => self.registers[*reg_id],
        }
    }

    /// Sets a user register to a value.
    fn set_reg(&mut self, reg: &RegisterRef, value: LangValue)
        requires
            reg_writable(old(self).registers@.len(), *reg),
        ensures
            final(self)@ == with_reg(old(self)@, *reg, value),
    {
        match reg {
            RegisterRef::User(reg_id) => {
                self.registers.set(*reg_id, value);
            },
            _ => {},
        }
        assert(self@.stacks =~= with_reg(old(self)@, *reg, value).stacks);
    }

    /// Pushes a value onto a stack, or reports that the stack is full.
    fn push_stack(&mut self, stack_id: StackIdentifier, value: LangValue) -> (r: Result<(), RuntimeError>)
        requires
            stack_id < old(self).stacks@.len(),
        ensures
            match r {
                Ok(()) => !stack_full(old(self)@, stack_id) && final(self)@ == (StateModel {
                    stacks: old(self)@.stacks.update(
                        stack_id as int,
                        old(self)@.stacks[stack_id as int].push(value),
                    ),
                    ..old(self)@
                }),
                Err(e) => stack_full(old(self)@, stack_id) && e == RuntimeError::StackOverflow(stack_id)
                    && *final(self) == *old(self),
            },
    {
        let max_stack_length = self.max_stack_length;
        if max_stack_length >= 0 && self.stacks[stack_id].len() >= max_stack_length as usize {
            return Err(RuntimeError::StackOverflow(stack_id));
        }
        self.stacks[stack_id].push(value);
        assert(self@.stacks =~= old(self)@.stacks.update(
            stack_id as int,
            old(self)@.stacks[stack_id as int].push(value),
        ));
        Ok(())
    }

    /// Pops the top of a stack, or reports that the stack is empty.
    fn pop_stack(&mut self, stack_id: StackIdentifier) -> (r: Result<LangValue, RuntimeError>)
        requires
            stack_id < old(self).stacks@.len(),
        ensures
            match r {
                Ok(v) => old(self)@.stacks[stack_id as int].len() > 0
                    && v == old(self)@.stacks[stack_id as int].last()
                    && final(self)@ == (StateModel {
                    stacks: old(self)@.stacks.update(
                        stack_id as int,
                        old(self)@.stacks[stack_id as int].drop_last(),
                    ),
                    ..old(self)@
                }),
                Err(e) => old(self)@.stacks[stack_id as int].len() == 0
                    && e == RuntimeError::EmptyStack(stack_id) && *final(self) == *old(self),
            },
    {
        if self.stacks[stack_id].len() == 0 {
            return Err(RuntimeError::EmptyStack(stack_id));
        }
        let v = self.stacks[stack_id].pop().unwrap();
        assert(self@.stacks =~= old(self)@.stacks.update(
            stack_id as int,
            old(self)@.stacks[stack_id as int].drop_last(),
        ));
        Ok(v)
    }
}

/// A steppable program executor. It holds the program, the expected output
/// and the current state, and it executes the program one instruction at a
/// time.
#[derive(Debug)]
pub struct Machine {
    program: Vec<MachineInstr>,
    expected_output: Vec<LangValue>,
    state: MachineState,
    /// The index of the next instruction to be executed.
    program_counter: usize,
}

impl View for Machine {
    type V = MachineModel;

    closed spec fn view(&self) -> MachineModel {
        MachineModel {
            program: self.program@,
            expected_output: self.expected_output@,
            state: self.state@,
            pc: self.program_counter as nat,
        }
    }
}

/// The machine that `Machine::new` builds for an environment and a program.
pub open spec fn initial_machine(env: &Environment, program: Seq<MachineInstr>) -> MachineModel {
    MachineModel {
        program,
        expected_output: env.expected_output@,
        state: initial_state(env),
        pc: 0,
    }
}

/// A machine whose program counter is at most one past its last
/// instruction, whose program has fewer than `i32::MAX` instructions, whose
/// jumps all land within the program or just past its end, and whose whole
/// program fits its hardware, as the program of every compiled machine does.
pub open spec fn model_fits(m: MachineModel) -> bool {
    &&& m.pc <= m.program.len()
    &&& m.program.len() < i32::MAX
    &&& jumps_in_bounds(m.program)
    &&& program_fits(m.state.registers.len(), m.state.stacks.len(), m.program)
}

/// Can the next instruction, if there is one, be executed? It must fit the
/// machine's hardware: one that does not reads or writes a register or stack
/// that does not exist, a defect of the program. And the program counter
/// arithmetic, which the machine does in `i32`, must not overflow.
pub open spec fn next_fits(m: MachineModel) -> bool {
    m.pc < m.program.len() ==> {
        &&& machine_instr_fits(m.state.registers.len(), m.state.stacks.len(), m.program[m.pc as int])
        &&& m.pc <= i32::MAX
        &&& i32::MIN <= m.pc + next_offset(m) <= i32::MAX
    }
}

/// Does every instruction that a run of at most `fuel` instructions executes
/// fit the machine's hardware?
pub open spec fn runs_fitting(m: MachineModel, fuel: nat) -> bool
    decreases fuel,
{
    if model_complete(m) || fuel == 0 {
        true
    } else {
        next_fits(m) && match step(m) {
            Ok(next) => runs_fitting(next, (fuel - 1) as nat),
            Err(_) => true,
        }
    }
}

impl Machine {
    /// Creates a machine, ready to execute the program in the environment.
    pub fn new(env: &Environment, program: Vec<MachineInstr>) -> (m: Self)
        requires
            env.num_registers >= 0,
            env.num_stacks >= 0,
        ensures
            m@ == initial_machine(env, program@),
    {
        let state = MachineState::new(env);
        Machine {
            program,
            expected_output: env.expected_output.clone(),
            state,
            program_counter: 0,
        }
    }

    /// The current state of the machine.
    pub fn get_state(&self) -> (st: &MachineState)
        ensures
            st@ == self@.state,
    {
        &self.state
    }

    /// The index of the next instruction to be executed.
    pub fn program_counter(&self) -> (pc: usize)
        ensures
            pc == self@.pc,
    {
        self.program_counter
    }

    /// Executes the next instruction; the program must not have completed.
    /// Fails with the error that the instruction raises, and a failing
    /// instruction changes nothing. Otherwise the program counter moves by
    /// one, or by the offset of a taken jump, as `counter_after` says: past
    /// the end of the program, the machine has completed. An instruction that
    /// does not fit the hardware, or that overflows the counter arithmetic,
    /// is left out.
    pub fn execute_next(&mut self) -> (r: Result<(), RuntimeError>)
        requires
            !model_complete(old(self)@),
            next_fits(old(self)@),
        ensures
            match step(old(self)@) {
                Ok(next) => r is Ok && final(self)@ == next,
                Err(e) => r == Err::<(), RuntimeError>(e) && final(self)@ == old(self)@,
            },
    {
        let ghost m = self@;
        let instr = self.program[self.program_counter];
        proof {
            assert(self.state@.stacks.len() == self.state.stacks@.len());
            assert(machine_instr_fits(m.state.registers.len(), m.state.stacks.len(), m.program[m.pc as int]));
        }
        let offset: i32 = match instr {
            MachineInstr::Operator(op) => {
                self.execute_operator(op)?;
                1
            },
            MachineInstr::Jez(n, reg) => {
                if self.state.get_reg(&reg) == 0 {
                    n
                } else {
                    1
                }
            },
            MachineInstr::Jnz(n, reg) => {
                if self.state.get_reg(&reg) != 0 {
                    n
                } else {
                    1
                }
            },
        };
        assert(offset == next_offset(m));
        let target: i32 = self.program_counter as i32 + offset;
        // The sum converted to `usize`: a negative sum wraps around from the
        // top of the range.
        self.program_counter = if target >= 0 {
            target as usize
        } else {
            usize::MAX - (-(target + 1)) as usize
        };
        Ok(())
    }

    /// Applies one operator to the state.
    fn execute_operator(&mut self, op: Operator) -> (r: Result<(), RuntimeError>)
        requires
            operator_fits(old(self)@.state.registers.len(), old(self)@.state.stacks.len(), op),
        ensures
            final(self).program == old(self).program,
            final(self).expected_output == old(self).expected_output,
            final(self).program_counter == old(self).program_counter,
            match apply_operator(old(self)@.state, op) {
                Ok(st) => r is Ok && final(self)@.state == st,
                Err(e) => r == Err::<(), RuntimeError>(e) && final(self)@.state == old(self)@.state,
            },
    {
        assert(self.state@.stacks.len() == self.state.stacks@.len());
        match op {
            Operator::Read(reg) => {
                match self.state.input.pop() {
                    Some(val) => {
                        self.state.set_reg(&reg, val);
                    },
                    None => {
                        return Err(RuntimeError::EmptyInput);
                    },
                }
            },
            Operator::Write(reg) => {
                let v = self.state.get_reg(&reg);
                self.state.output.push(v);
            },
            Operator::Assign(dst, src) => {
                let v = self.state.get_value_from_source(&src);
                self.state.set_reg(&dst, v);
            },
            Operator::Add(dst, src) => {
                let v = self.state.get_reg(&dst).wrapping_add(self.state.get_value_from_source(&src));
                self.state.set_reg(&dst, v);
            },
            Operator::Sub(dst, src) => {
                let v = self.state.get_reg(&dst).wrapping_sub(self.state.get_value_from_source(&src));
                self.state.set_reg(&dst, v);
            },
            Operator::Mul(dst, src) => {
                let v = self.state.get_reg(&dst).wrapping_mul(self.state.get_value_from_source(&src));
                self.state.set_reg(&dst, v);
            },
            Operator::Push(src, stack_id) => {
                let v = self.state.get_value_from_source(&src);
                self.state.push_stack(stack_id, v)?;
            },
            Operator::Pop(stack_id, dst) => {
                let popped = self.state.pop_stack(stack_id)?;
                self.state.set_reg(&dst, popped);
            },
        }
        Ok(())
    }

    /// Executes the machine until its program completes or an instruction
    /// raises an error. On completion, returns whether the machine was
    /// successful. A run that never halts, or that reaches an instruction
    /// that does not fit the hardware, is left out.
    pub fn execute_all(&mut self) -> (r: Result<bool, RuntimeError>)
        requires
            halts(old(self)@),
            runs_fitting(old(self)@, halt_fuel(old(self)@)),
        ensures
            final(self)@ == final_run(old(self)@).0,
            match final_run(old(self)@).1 {
                None => r == Ok::<bool, RuntimeError>(model_successful(final(self)@)),
                Some(e) => r == Err::<bool, RuntimeError>(e),
            },
    {
        let ghost m0 = self@;
        let ghost n = halt_fuel(m0);
        let ghost mut k: nat = n;
        while !self.is_complete()
            invariant
                runs_fitting(self@, k),
                halted_within(self@, k),
                run(self@, k) == run(m0, n),
                n == halt_fuel(m0),
                m0 == old(self)@,
            decreases k,
        {
            let ghost before = self@;
            assert(k > 0);
            match self.execute_next() {
                Ok(()) => {},
                Err(e) => {
                    assert(run(before, k) == (before, Some(e)));
                    return Err(e);
                },
            }
            proof {
                k = (k - 1) as nat;
            }
        }
        Ok(self.is_successful())
    }

    /// Has the machine executed its whole program?
    pub fn is_complete(&self) -> (b: bool)
        ensures
            b == model_complete(self@),
    {
        self.program_counter >= self.program.len()
    }

    /// Has the machine completed successfully: it executed its whole program,
    /// consumed its whole input, and its output equals the expected output?
    pub fn is_successful(&self) -> (b: bool)
        ensures
            b == model_successful(self@),
    {
        self.is_complete() && self.state.input.len() == 0 && equal_values(&self.state.output, &self.expected_output)
    }
}

/// Compares two sequences of values.
fn equal_values(a: &Vec<LangValue>, b: &Vec<LangValue>) -> (r: bool)
    ensures
        r == (a@ == b@),
{
    if a.len() != b.len() {
        return false;
    }
    let mut i: usize = 0;
    while i < a.len()
        invariant
            a.len() == b.len(),
            i <= a.len(),
            forall|k: int| 0 <= k < i ==> a@[k] == b@[k],
        decreases a.len() - i,
    {
        if a[i] != b[i] {
            return false;
        }
        i = i + 1;
    }
    assert(a@ =~= b@);
    true
}


/// Is every stack within the maximum stack length (a negative maximum bounds
/// nothing)?
pub open spec fn stacks_bounded(st: StateModel) -> bool {
    forall|i: int|
        0 <= i < st.stacks.len() && st.max_stack_length >= 0 ==> #[trigger] st.stacks[i].len()
            <= st.max_stack_length
}

/// Can `after` follow `before` in an execution: the same hardware, input
/// only consumed (from the end where the next value sits), and output only
/// appended to?
pub open spec fn state_follows(before: StateModel, after: StateModel) -> bool {
    &&& after.max_stack_length == before.max_stack_length
    &&& after.registers.len() == before.registers.len()
    &&& after.stacks.len() == before.stacks.len()
    &&& after.input.len() <= before.input.len()
    &&& after.input == before.input.subrange(0, after.input.len() as int)
    &&& before.output.len() <= after.output.len()
    &&& before.output == after.output.subrange(0, before.output.len() as int)
}

proof fn lemma_follows_trans(a: StateModel, b: StateModel, c: StateModel)
    requires
        state_follows(a, b),
        state_follows(b, c),
    ensures
        state_follows(a, c),
{
    assert(c.input =~= a.input.subrange(0, c.input.len() as int));
    assert(a.output =~= c.output.subrange(0, a.output.len() as int));
}

proof fn lemma_follows_refl(a: StateModel)
    ensures
        state_follows(a, a),
{
    assert(a.input =~= a.input.subrange(0, a.input.len() as int));
    assert(a.output =~= a.output.subrange(0, a.output.len() as int));
}

/// Law: an operator that fits the hardware and succeeds keeps the hardware,
/// only consumes input and appends output, one value at most, and keeps
/// every stack within the maximum length.
pub proof fn lemma_operator_follows(st: StateModel, op: Operator)
    requires
        operator_fits(st.registers.len(), st.stacks.len(), op),
        apply_operator(st, op) is Ok,
    ensures
        state_follows(st, apply_operator(st, op)->Ok_0),
        apply_operator(st, op)->Ok_0.input.len() + 1 >= st.input.len(),
        apply_operator(st, op)->Ok_0.output.len() <= st.output.len() + 1,
        stacks_bounded(st) ==> stacks_bounded(apply_operator(st, op)->Ok_0),
{
    let after = apply_operator(st, op)->Ok_0;
    match op {
        Operator::Read(r) => {
            assert(st.input.drop_last() =~= st.input.subrange(0, after.input.len() as int));
            assert(st.output =~= after.output.subrange(0, st.output.len() as int));
        },
        Operator::Write(r) => {
            assert(st.input =~= st.input.subrange(0, after.input.len() as int));
            assert(st.output =~= after.output.subrange(0, st.output.len() as int));
        },
        Operator::Push(s, id) => {
            lemma_follows_refl(st);
            if stacks_bounded(st) {
                assert forall|i: int|
                    0 <= i < after.stacks.len() && after.max_stack_length >= 0 implies #[trigger] after.stacks[i].len()
                    <= after.max_stack_length by {
                    if i != id {
                        assert(after.stacks[i] == st.stacks[i]);
                    }
                }
            }
        },
        Operator::Pop(id, d) => {
            lemma_follows_refl(st);
            if stacks_bounded(st) {
                assert forall|i: int|
                    0 <= i < after.stacks.len() && after.max_stack_length >= 0 implies #[trigger] after.stacks[i].len()
                    <= after.max_stack_length by {
                    if i != id {
                        assert(after.stacks[i] == st.stacks[i]);
                    } else {
                        assert(st.stacks[i].len() <= st.max_stack_length);
                    }
                }
            }
        },
        _ => {
            lemma_follows_refl(st);
        },
    }
}

/// Law: a machine that fits can execute its next instruction: it fits the
/// hardware, and the counter arithmetic stays in range.
pub proof fn lemma_fits_next(m: MachineModel)
    requires
        model_fits(m),
    ensures
        next_fits(m),
{
    if m.pc < m.program.len() {
        assert(machine_instr_fits(m.state.registers.len(), m.state.stacks.len(), m.program[m.pc as int]));
        match m.program[m.pc as int] {
            MachineInstr::Operator(_) => {},
            MachineInstr::Jez(n, _) | MachineInstr::Jnz(n, _) => {
                assert(0 <= m.pc + n <= m.program.len());
            },
        }
    }
}

/// Law: a step that can be executed and succeeds keeps the machine's
/// program and expected output, and moves its state as `state_follows`
/// allows, reading at most one input value and writing at most one output
/// value, and keeping stacks within bounds.
pub proof fn lemma_step_state(m: MachineModel)
    requires
        !model_complete(m),
        next_fits(m),
        step(m) is Ok,
    ensures
        step(m)->Ok_0.program == m.program,
        step(m)->Ok_0.expected_output == m.expected_output,
        state_follows(m.state, step(m)->Ok_0.state),
        step(m)->Ok_0.state.input.len() + 1 >= m.state.input.len(),
        step(m)->Ok_0.state.output.len() <= m.state.output.len() + 1,
        stacks_bounded(m.state) ==> stacks_bounded(step(m)->Ok_0.state),
{
    match m.program[m.pc as int] {
        MachineInstr::Operator(op) => {
            lemma_operator_follows(m.state, op);
        },
        _ => {
            lemma_follows_refl(m.state);
        },
    }
}

/// Law: a step of a machine that fits keeps it fitting, and changes its
/// state as `lemma_step_state` says.
pub proof fn lemma_step_follows(m: MachineModel)
    requires
        model_fits(m),
        step(m) is Ok,
    ensures
        model_fits(step(m)->Ok_0),
        step(m)->Ok_0.program == m.program,
        step(m)->Ok_0.expected_output == m.expected_output,
        state_follows(m.state, step(m)->Ok_0.state),
        stacks_bounded(m.state) ==> stacks_bounded(step(m)->Ok_0.state),
{
    lemma_fits_next(m);
    lemma_step_state(m);
    match m.program[m.pc as int] {
        MachineInstr::Jez(n, _) | MachineInstr::Jnz(n, _) => {
            assert(0 <= m.pc + n <= m.program.len());
        },
        _ => {},
    }
}

/// Law: however long a machine runs, as long as every instruction it
/// executes can be executed, it keeps its program and expected output, only
/// consumes input and appends output, and keeps its stacks within the
/// maximum length if they started so; a machine that fits keeps fitting.
pub proof fn lemma_run_follows(m: MachineModel, fuel: nat)
    requires
        runs_fitting(m, fuel),
    ensures
        model_fits(m) ==> model_fits(run(m, fuel).0),
        run(m, fuel).0.program == m.program,
        run(m, fuel).0.expected_output == m.expected_output,
        state_follows(m.state, run(m, fuel).0.state),
        stacks_bounded(m.state) ==> stacks_bounded(run(m, fuel).0.state),
    decreases fuel,
{
    if model_complete(m) || fuel == 0 {
        lemma_follows_refl(m.state);
    } else {
        match step(m) {
            Ok(next) => {
                lemma_step_state(m);
                if model_fits(m) {
                    lemma_step_follows(m);
                }
                lemma_run_follows(next, (fuel - 1) as nat);
                lemma_follows_trans(m.state, next.state, run(next, (fuel - 1) as nat).0.state);
            },
            Err(_) => {
                lemma_follows_refl(m.state);
            },
        }
    }
}

/// Law: the stack-length register `RSn` counts the values on stack `n`: a
/// successful `PUSH` onto stack `n` makes it read one more than before, and
/// a successful `POP` from it one less.
pub proof fn lemma_stack_length_counts_pushes(st: StateModel, src: ValueSource, n: StackIdentifier, d: RegisterRef)
    requires
        n < st.stacks.len(),
        st.stacks[n as int].len() < i32::MAX,
    ensures
        apply_operator(st, Operator::Push(src, n)) matches Ok(after) ==> reg_value(
            after,
            RegisterRef::StackLength(n),
        ) == reg_value(st, RegisterRef::StackLength(n)) + 1,
        apply_operator(st, Operator::Pop(n, d)) matches Ok(after) ==> reg_value(
            after,
            RegisterRef::StackLength(n),
        ) == reg_value(st, RegisterRef::StackLength(n)) - 1,
{
}

/// Law: the stack-length register does not depend on the input: two states
/// that differ only in their remaining input read the same `RSn`.
pub proof fn lemma_stack_length_ignores_input(st: StateModel, input: Seq<LangValue>, n: StackIdentifier)
    ensures
        reg_value(StateModel { input, ..st }, RegisterRef::StackLength(n)) == reg_value(
            st,
            RegisterRef::StackLength(n),
        ),
{
}

/// Law: a new machine starts with empty stacks, so within bounds.
pub proof fn lemma_initial_bounded(env: &Environment)
    ensures
        stacks_bounded(initial_state(env)),
{
}

/// Law: a machine that has completed cannot step; stepping it raises
/// `ProgramTerminated` and changes nothing.
pub proof fn lemma_complete_terminated(m: MachineModel, fuel: nat)
    requires
        model_complete(m),
    ensures
        step(m) == Err::<MachineModel, RuntimeError>(RuntimeError::ProgramTerminated),
        run(m, fuel) == (m, None::<RuntimeError>),
{
}

/// Law: a machine that fits only ever executes instructions that can be
/// executed, however long it runs.
pub proof fn lemma_fitting_program_runs(m: MachineModel, fuel: nat)
    requires
        model_fits(m),
    ensures
        runs_fitting(m, fuel),
    decreases fuel,
{
    if !model_complete(m) && fuel > 0 {
        lemma_fits_next(m);
        if let Ok(next) = step(m) {
            lemma_step_follows(m);
            lemma_fitting_program_runs(next, (fuel - 1) as nat);
        }
    }
}

} // verus!
