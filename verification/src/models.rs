//! Plain data models shared by the language and the rest of the application.

pub mod inputs;
pub mod permission;
pub mod role;
pub mod user_program_pb;
pub mod user_program_record;

use crate::lang::ast::LangValue;
use vstd::prelude::*;

verus! {

/// The environment surrounding a program, needed both at compile time and at
/// runtime. In the context of the game, this represents one puzzle.
#[derive(Debug, PartialEq)]
pub struct Environment {
    /// Unique ID to refer to this environment.
    pub id: i32,
    /// Number of registers available.
    pub num_registers: i32,
    /// Number of stacks available.
    pub num_stacks: i32,
    /// Maximum size of each stack.
    pub max_stack_length: i32,
    /// The input values; the element at position 0 is read first.
    pub input: Vec<LangValue>,
    /// The output that a correct program leaves behind; the first element is
    /// the first one written.
    pub expected_output: Vec<LangValue>,
}

impl Default for Environment {
    fn default() -> (env: Self)
        ensures
            env.id == 0,
            env.num_registers == 1,
            env.num_stacks == 0,
            env.max_stack_length == 0,
            env.input@ == Seq::<LangValue>::empty(),
            env.expected_output@ == Seq::<LangValue>::empty(),
    {
        Environment {
            id: 0,
            num_registers: 1,
            num_stacks: 0,
            max_stack_length: 0,
            input: Vec::new(),
            expected_output: Vec::new(),
        }
    }
}

/// Hardware as a database row holds it. The three sizes are `i32` because
/// the database has no unsigned type; inserts and the database both keep
/// them non-negative.
#[derive(Copy, Clone, Debug, PartialEq, Eq, Structural)]
pub struct QueryHardwareSpec {
    /// Database row ID.
    pub id: i32,
    /// Number of registers available.
    pub num_registers: i32,
    /// Maximum number of stacks permitted.
    pub num_stacks: i32,
    /// Maximum size of each stack.
    pub max_stack_length: i32,
}

} // verus!
