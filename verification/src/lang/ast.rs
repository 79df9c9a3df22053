//! Abstract syntax of GDLK programs, and of the flat instruction set that a
//! machine executes.

use vstd::prelude::*;

verus! {

broadcast use vstd::std_specs::vec::group_vec_axioms;

/// The type of every value in the language.
pub type LangValue = i32;

/// The index of a user register.
pub type UserRegisterIdentifier = usize;

/// The index of a stack.
pub type StackIdentifier = usize;

/// A reference to a register.
#[derive(Copy, Clone, Debug, PartialEq, Eq, Structural)]
pub enum RegisterRef {
    /// The read-only register that holds the number of values left in the
    /// input (`RLI`).
    InputLength,
    /// The read-only register that holds the length of one stack (`RSx`).
    StackLength(StackIdentifier),
    /// A readable and writable user register (`RXx`).
    User(UserRegisterIdentifier),
}

/// Something that produces a value idempotently: a constant or a register.
#[derive(Copy, Clone, Debug, PartialEq, Eq, Structural)]
pub enum ValueSource {
    /// A constant, fixed when the program is built.
    Const(LangValue),
    /// The current value of a register.
    Register(RegisterRef),
}

/// An instruction that is the same in both instruction sets and never jumps.
#[derive(Copy, Clone, Debug, PartialEq, Eq, Structural)]
pub enum Operator {
    /// Reads one value from the input into a register.
    Read(RegisterRef),
    /// Writes the value of a register to the output.
    Write(RegisterRef),
    /// Sets a register to a value.
    Assign(RegisterRef, ValueSource),
    /// Adds a value to a register (wrapping).
    Add(RegisterRef, ValueSource),
    /// Subtracts a value from a register (wrapping).
    Sub(RegisterRef, ValueSource),
    /// Multiplies a register by a value (wrapping).
    Mul(RegisterRef, ValueSource),
    /// Pushes a value onto a stack.
    Push(ValueSource, StackIdentifier),
    /// Pops the top of a stack into a register.
    Pop(StackIdentifier, RegisterRef),
}

/// A statement of the nested (source level) syntax.
#[derive(Debug, PartialEq)]
pub enum Instr {
    /// A simple operator.
    Operator(Operator),
    /// Executes the body if the register is != 0.
    If(RegisterRef, Vec<Instr>),
    /// Executes the body while the register is != 0.
    While(RegisterRef, Vec<Instr>),
}

/// A parsed program: an abstract syntax tree.
#[derive(Debug, PartialEq)]
pub struct Program {
    pub body: Vec<Instr>,
}

/// An instruction of the flat instruction set that a machine executes.
/// Jumps are relative to the current program counter: `Jez(1, r)` is a no-op,
/// `Jez(0, r)` repeats itself and `Jez(-1, r)` goes back one instruction.
#[derive(Copy, Clone, Debug, PartialEq, Eq, Structural)]
pub enum MachineInstr {
    /// A simple operator.
    Operator(Operator),
    /// Jumps `n` instructions if the register == 0.
    Jez(i32, RegisterRef),
    /// Jumps `n` instructions if the register != 0.
    Jnz(i32, RegisterRef),
}

/// The mathematical form of a statement: bodies are sequences.
pub enum SpecInstr {
    Operator(Operator),
    If(RegisterRef, Seq<SpecInstr>),
    While(RegisterRef, Seq<SpecInstr>),
}

/// The mathematical form of a statement.
pub open spec fn instr_model(i: Instr) -> SpecInstr
    decreases i, 0int,
{
    match i {
        Instr::Operator(op) => SpecInstr::Operator(op),
        Instr::If(r, body) => SpecInstr::If(r, instrs_model(body@)),
        Instr::While(r, body) => SpecInstr::While(r, instrs_model(body@)),
    }
}

/// The mathematical form of a sequence of statements.
pub open spec fn instrs_model(s: Seq<Instr>) -> Seq<SpecInstr>
    decreases s, s.len(),
{
    if s.len() == 0 {
        Seq::empty()
    } else {
        instrs_model(s.drop_last()).push(instr_model(s.last()))
    }
}

impl View for Instr {
    type V = SpecInstr;

    open spec fn view(&self) -> SpecInstr {
        instr_model(*self)
    }
}

impl View for Program {
    type V = Seq<SpecInstr>;

    open spec fn view(&self) -> Seq<SpecInstr> {
        instrs_model(self.body@)
    }
}

} // verus!
