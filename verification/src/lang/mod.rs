//! The GDLK language: abstract syntax, compiler stages and the machine that
//! executes compiled programs.
//!
//! A program goes through these stages: its source text is parsed into a
//! nested syntax tree, which is validated against the hardware of an
//! environment, flattened into jumps, and loaded into a machine.

pub mod ast;
pub mod case;
pub mod desugar;
pub mod diet;

pub mod error;
pub mod machine;
pub mod operators;
pub mod parse;
pub mod semantics;
pub mod size;
pub mod validate;

use crate::lang::ast::{MachineInstr, Program, SpecInstr};
use crate::lang::desugar::{desugar_instrs, desugar_seq_spec, desugarable_seq, lemma_desugar_seq_jumps_in_bounds};
use crate::lang::error::{CompileError, CompileErrors};
use crate::lang::machine::{initial_machine, model_fits, Machine};
use crate::lang::parse::{parse_bytes, parse_program};
use crate::lang::validate::{lemma_valid_seq_fits, seq_errors, validate_instrs};
use crate::models::Environment;
use vstd::prelude::*;
use vstd::utf8::encode_utf8;

verus! {

/// A compiler pipeline, holding the program in its current stage. The type
/// parameter is the stage, which decides which operation can come next:
/// source text (`String`) is parsed, a syntax tree (`Program`) is validated
/// and desugared, and flat instructions are compiled into a machine.
#[derive(Debug)]
pub struct Compiler<T>(pub T);

/// The UTF-8 bytes of source text.
pub open spec fn source_bytes(source: Seq<char>) -> Seq<u8> {
    encode_utf8(source)
}

impl Compiler<String> {
    /// Starts a pipeline from source text.
    pub fn new(source: String) -> (c: Self)
        ensures
            c.0 == source,
    {
        Compiler(source)
    }

    /// Parses the source text into a syntax tree.
    pub fn parse(self) -> (r: Result<Compiler<Program>, CompileErrors>)
        ensures
            match parse_program(source_bytes(self.0@)) {
                Ok(instrs) => r matches Ok(c) && c.0@ == instrs,
                Err(offset) => r matches Err(es) && es.errors@ == seq![
                    CompileError::ParseError(offset as usize),
                ],
            },
    {
        let bytes = self.0.as_str().as_bytes();
        match parse_bytes(bytes) {
            Ok(body) => Ok(Compiler(Program { body })),
            Err(offset) => {
                let mut errors = Vec::new();
                errors.push(CompileError::ParseError(offset));
                assert(errors@ =~= seq![CompileError::ParseError(offset)]);
                Err(CompileErrors { errors })
            },
        }
    }
}

impl Compiler<Program> {
    /// Checks every register and stack reference of the program against the
    /// hardware of the environment. Fails with all the errors found, in
    /// program order.
    pub fn validate(self, env: &Environment) -> (r: Result<Self, CompileErrors>)
        requires
            env.num_registers >= 0,
            env.num_stacks >= 0,
        ensures
            ({
                let errors = seq_errors(env.num_registers as nat, env.num_stacks as nat, self.0@);
                if errors.len() == 0 {
                    r matches Ok(c) && c.0@ == self.0@
                } else {
                    r matches Err(es) && es.errors@ == errors
                }
            }),
    {
        let errors = validate_instrs(env.num_registers as usize, env.num_stacks as usize, &self.0.body);
        if errors.len() == 0 {
            Ok(self)
        } else {
            Err(CompileErrors { errors })
        }
    }

    /// Flattens the nested syntax into flat instructions: every `IF` and
    /// `WHILE` is replaced with jumps.
    pub fn desugar(self) -> (c: Compiler<Vec<MachineInstr>>)
        requires
            desugarable_seq(self.0@),
        ensures
            c.0@ == desugar_seq_spec(self.0@),
    {
        Compiler(desugar_instrs(&self.0.body))
    }
}

impl Compiler<Vec<MachineInstr>> {
    /// Builds a machine that executes the program in the environment.
    pub fn compile(self, env: &Environment) -> (m: Machine)
        requires
            env.num_registers >= 0,
            env.num_stacks >= 0,
        ensures
            m@ == initial_machine(env, self.0@),
    {
        Machine::new(env, self.0)
    }
}

/// The outcome of compiling source text in an environment: the parse error,
/// the validation errors, or the flat program that the machine executes.
pub open spec fn compile_outcome(env: &Environment, source: Seq<char>) -> Result<
    Seq<MachineInstr>,
    Seq<CompileError>,
> {
    match parse_program(source_bytes(source)) {
        Err(offset) => Err(seq![CompileError::ParseError(offset as usize)]),
        Ok(instrs) => {
            let errors = seq_errors(env.num_registers as nat, env.num_stacks as nat, instrs);
            if errors.len() == 0 {
                Ok(desugar_seq_spec(instrs))
            } else {
                Err(errors)
            }
        },
    }
}

/// Can every parsed program of the source be flattened into a program that
/// the machine can run? Jump offsets and the program counter arithmetic are
/// `i32`, so this holds unless the flattened body of some `IF` or `WHILE` has
/// more than about `i32::MAX` instructions, or the whole flattened program
/// has `i32::MAX` or more.
pub open spec fn source_desugarable(source: Seq<char>) -> bool {
    parse_program(source_bytes(source)) matches Ok(instrs) ==> desugarable_seq(instrs) && desugar_seq_spec(
        instrs,
    ).len() < i32::MAX
}

/// Compiles the source program in the environment into a machine, ready to
/// be executed.
pub fn compile(env: &Environment, source: String) -> (r: Result<Machine, CompileErrors>)
    requires
        env.num_registers >= 0,
        env.num_stacks >= 0,
        source_desugarable(source@),
    ensures
        match compile_outcome(env, source@) {
            Ok(program) => r matches Ok(m) && model_fits(m@) && m@ == initial_machine(env, program),
            Err(errors) => r matches Err(es) && es.errors@ == errors,
        },
{
    let parsed = Compiler::new(source).parse()?;
    let validated = parsed.validate(env)?;
    proof {
        lemma_valid_seq_fits(env.num_registers as nat, env.num_stacks as nat, validated.0@);
    }
    proof {
        lemma_desugar_seq_jumps_in_bounds(validated.0@);
    }
    let m = validated.desugar().compile(env);
    assert(m@.state.registers.len() == env.num_registers);
    assert(m@.state.stacks.len() == env.num_stacks);
    Ok(m)
}

} // verus!
