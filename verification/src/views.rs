//! What executing a user's program amounts to, once its source code and
//! environment have been loaded: a compile error, a runtime error, or a
//! completed run that is accepted or rejected against the expected output.

use crate::lang::error::{CompileErrors, RuntimeError};
use crate::lang::machine::{
    final_run, halts, initial_machine, lemma_fitting_program_runs, model_successful, Machine, halt_fuel,
};
use crate::lang::{compile, compile_outcome, source_desugarable};
use crate::models::Environment;
use vstd::prelude::*;

verus! {

/// The possible outcomes of executing a user program.
#[derive(Debug)]
pub enum ExecuteUserProgramOutput {
    /// The program failed to compile.
    CompileError(CompileErrors),
    /// An instruction raised an error.
    RuntimeError(RuntimeError),
    /// The program completed, but left input unread or wrote other output
    /// than expected.
    Rejected { machine: Machine },
    /// The program completed, with all input read and the expected output
    /// written.
    Accepted { machine: Machine },
}

/// Compiles the source code in the environment and runs it to its end. A
/// program that never halts is left out.
pub fn execute_user_program(env: &Environment, source_code: String) -> (out: ExecuteUserProgramOutput)
    requires
        env.num_registers >= 0,
        env.num_stacks >= 0,
        source_desugarable(source_code@),
        compile_outcome(env, source_code@) matches Ok(program) ==> halts(initial_machine(env, program)),
    ensures
        match compile_outcome(env, source_code@) {
            Err(errors) => out matches ExecuteUserProgramOutput::CompileError(es) && es.errors@ == errors,
            Ok(program) => {
                let (last, error) = final_run(initial_machine(env, program));
                match error {
                    Some(e) => out == ExecuteUserProgramOutput::RuntimeError(e),
                    None => if model_successful(last) {
                        out matches ExecuteUserProgramOutput::Accepted { machine } && machine@ == last
                    } else {
                        out matches ExecuteUserProgramOutput::Rejected { machine } && machine@ == last
                    },
                }
            },
        },
{
    let mut machine = match compile(env, source_code) {
        Ok(machine) => machine,
        Err(errors) => return ExecuteUserProgramOutput::CompileError(errors),
    };
    proof {
        lemma_fitting_program_runs(machine@, halt_fuel(machine@));
    }
    match machine.execute_all() {
        Err(e) => ExecuteUserProgramOutput::RuntimeError(e),
        Ok(true) => ExecuteUserProgramOutput::Accepted { machine },
        Ok(false) => ExecuteUserProgramOutput::Rejected { machine },
    }
}

} // verus!
