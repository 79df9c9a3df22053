//! Errors of the compiler stages and of program execution.

use crate::lang::ast::{RegisterRef, StackIdentifier};
use crate::text::{decimal, push_decimal};
use vstd::prelude::*;
use vstd::string::StringExecFns;

verus! {

/// An error that stops a compiler stage.
#[derive(Clone, Debug, PartialEq, Eq)]
pub enum CompileError {
    /// The source text is not a program of the grammar. The field is the
    /// byte offset at which parsing stopped.
    ParseError(usize),
    /// A reference to a register that the hardware does not have.
    InvalidRegisterRef(RegisterRef),
    /// A reference to a stack that the hardware does not have.
    InvalidStackRef(StackIdentifier),
    /// A write to a register that can only be read.
    UnwritableRegister(RegisterRef),
}

/// All the errors found by a compiler stage, in the order they were found.
#[derive(Clone, Debug, PartialEq, Eq)]
pub struct CompileErrors {
    pub errors: Vec<CompileError>,
}

/// An error that stops the execution of a program.
#[derive(Copy, Clone, Debug, PartialEq, Eq, Structural)]
pub enum RuntimeError {
    /// An instruction was requested after the program had completed.
    ProgramTerminated,
    /// A read was attempted while the input was empty.
    EmptyInput,
    /// A push was attempted onto a stack that is full.
    StackOverflow(StackIdentifier),
    /// A pop was attempted from an empty stack.
    EmptyStack(StackIdentifier),
}

/// The name of a register as it is written in source text.
pub open spec fn register_name(r: RegisterRef) -> Seq<char> {
    match r {
        RegisterRef::InputLength => "RLI"@,
        RegisterRef::StackLength(i) => "RS"@ + decimal(i as nat),
        RegisterRef::User(i) => "RX"@ + decimal(i as nat),
    }
}

/// The message of a compile error.
pub open spec fn compile_error_message(e: CompileError) -> Seq<char> {
    match e {
        CompileError::ParseError(offset) => "Parse error at byte "@ + decimal(offset as nat),
        CompileError::InvalidRegisterRef(r) => "Invalid reference to register "@ + register_name(r),
        CompileError::InvalidStackRef(id) => "Invalid reference to stack S"@ + decimal(id as nat),
        CompileError::UnwritableRegister(r) => "Cannot write to read-only register "@ + register_name(
            r,
        ),
    }
}

/// The messages of several errors, one per line.
pub open spec fn joined_messages(errors: Seq<CompileError>) -> Seq<char>
    decreases errors.len(),
{
    if errors.len() == 0 {
        Seq::empty()
    } else if errors.len() == 1 {
        compile_error_message(errors[0])
    } else {
        joined_messages(errors.drop_last()) + "\n"@ + compile_error_message(errors.last())
    }
}

/// Appends the name of a register.
fn push_register_name(out: &mut String, r: RegisterRef)
    ensures
        final(out)@ == old(out)@ + register_name(r),
{
    match r {
        RegisterRef::InputLength => {
            out.append("RLI");
        },
        RegisterRef::StackLength(i) => {
            out.append("RS");
            push_decimal(out, i as u64);
        },
        RegisterRef::User(i) => {
            out.append("RX");
            push_decimal(out, i as u64);
        },
    }
    assert(final(out)@ =~= old(out)@ + register_name(r));
}

impl CompileError {
    /// Appends the message of this error.
    fn push_message(&self, out: &mut String)
        ensures
            final(out)@ == old(out)@ + compile_error_message(*self),
    {
        match self {
            CompileError::ParseError(offset) => {
                out.append("Parse error at byte ");
                push_decimal(out, *offset as u64);
            },
            CompileError::InvalidRegisterRef(r) => {
                out.append("Invalid reference to register ");
                push_register_name(out, *r);
            },
            CompileError::InvalidStackRef(id) => {
                out.append("Invalid reference to stack S");
                push_decimal(out, *id as u64);
            },
            CompileError::UnwritableRegister(r) => {
                out.append("Cannot write to read-only register ");
                push_register_name(out, *r);
            },
        }
        assert(final(out)@ =~= old(out)@ + compile_error_message(*self));
    }

    /// The message of this error.
    pub fn to_string(&self) -> (s: String)
        ensures
            s@ == compile_error_message(*self),
    {
        let mut s = String::new();
        self.push_message(&mut s);
        assert(s@ =~= compile_error_message(*self));
        s
    }
}

impl CompileErrors {
    /// The messages of all the errors, one per line.
    pub fn to_string(&self) -> (s: String)
        ensures
            s@ == joined_messages(self.errors@),
    {
        let mut s = String::new();
        let mut k: usize = 0;
        while k < self.errors.len()
            invariant
                k <= self.errors@.len(),
                s@ == joined_messages(self.errors@.take(k as int)),
            decreases self.errors@.len() - k,
        {
            let ghost before = s@;
            if k > 0 {
                s.append("\n");
            }
            self.errors[k].push_message(&mut s);
            proof {
                let t = self.errors@.take(k + 1);
                assert(t.drop_last() =~= self.errors@.take(k as int));
                if k == 0 {
                    assert(before =~= Seq::<char>::empty());
                    assert(s@ =~= compile_error_message(t[0]));
                } else {
                    assert(s@ =~= joined_messages(t.drop_last()) + "\n"@ + compile_error_message(t.last()));
                }
            }
            k = k + 1;
        }
        assert(self.errors@.take(self.errors@.len() as int) =~= self.errors@);
        s
    }
}

} // verus!
