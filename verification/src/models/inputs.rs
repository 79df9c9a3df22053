//! The values that users submit to create or change rows, and the rules
//! that they must follow.

use crate::lang::ast::LangValue;
use crate::validation::{Validate, ValidationError, ValidationErrors};
use vstd::prelude::*;
use vstd::string::{StrSliceExecFns, StringExecFns};

verus! {

broadcast use vstd::std_specs::vec::group_vec_axioms;

/// The error for a field, if its length is outside `[min, max]`.
pub open spec fn length_errors(field: &'static str, len: nat, min: nat, max: nat) -> Seq<ValidationError> {
    if len < min || len > max {
        seq![ValidationError::Length(field)]
    } else {
        Seq::empty()
    }
}

/// Pushes a length error for a field if its length is outside `[min, max]`.
fn check_length(errors: &mut Vec<ValidationError>, field: &'static str, len: usize, min: usize, max: usize)
    ensures
        final(errors)@ == old(errors)@ + length_errors(field, len as nat, min as nat, max as nat),
{
    if len < min || len > max {
        errors.push(ValidationError::Length(field));
        assert(final(errors)@ =~= old(errors)@ + seq![ValidationError::Length(field)]);
    } else {
        assert(final(errors)@ =~= old(errors)@ + Seq::<ValidationError>::empty());
    }
}

/// The outcome of a validation from the errors found.
fn finish(errors: Vec<ValidationError>) -> (r: Result<(), ValidationErrors>)
    ensures
        match r {
            Ok(()) => errors@.len() == 0,
            Err(e) => e.errors@ == errors@ && errors@.len() > 0,
        },
{
    if errors.len() == 0 {
        Ok(())
    } else {
        Err(ValidationErrors { errors })
    }
}

/// A new user: the username has 1 to 20 characters.
#[derive(Clone, Debug, PartialEq)]
pub struct NewUser<'a> {
    pub username: &'a str,
}

impl<'a> Validate for NewUser<'a> {
    open spec fn validation_errors(&self) -> Seq<ValidationError> {
        length_errors("username", self.username@.len(), 1, 20)
    }

    fn validate(&self) -> (r: Result<(), ValidationErrors>) {
        let mut errors: Vec<ValidationError> = Vec::new();
        check_length(&mut errors, "username", self.username.unicode_len(), 1, 20);
        assert(errors@ =~= self.validation_errors());
        finish(errors)
    }
}

/// A new program spec: the name is not empty, and the input and the
/// expected output hold at most 256 values each.
#[derive(Clone, Debug, PartialEq)]
pub struct NewProgramSpec<'a> {
    /// The hardware spec's ID: the 128 bits of its UUID.
    pub hardware_spec_id: u128,
    pub name: &'a str,
    pub description: &'a str,
    pub input: Vec<LangValue>,
    pub expected_output: Vec<LangValue>,
}

impl<'a> Validate for NewProgramSpec<'a> {
    open spec fn validation_errors(&self) -> Seq<ValidationError> {
        length_errors("name", self.name@.len(), 1, usize::MAX as nat)
            + length_errors("input", self.input@.len(), 0, 256)
            + length_errors("expected_output", self.expected_output@.len(), 0, 256)
    }

    fn validate(&self) -> (r: Result<(), ValidationErrors>) {
        let mut errors: Vec<ValidationError> = Vec::new();
        check_length(&mut errors, "name", self.name.unicode_len(), 1, usize::MAX);
        check_length(&mut errors, "input", self.input.len(), 0, 256);
        check_length(&mut errors, "expected_output", self.expected_output.len(), 0, 256);
        assert(errors@ =~= self.validation_errors());
        finish(errors)
    }
}

/// Changes to a program spec; every field that is given follows the rules
/// of a new program spec.
#[derive(Clone, Debug, PartialEq)]
pub struct ModifiedProgramSpec<'a> {
    /// The program spec's ID: the 128 bits of its UUID.
    pub id: u128,
    pub name: Option<&'a str>,
    pub description: Option<&'a str>,
    pub input: Option<Vec<LangValue>>,
    pub expected_output: Option<Vec<LangValue>>,
}

impl<'a> Validate for ModifiedProgramSpec<'a> {
    open spec fn validation_errors(&self) -> Seq<ValidationError> {
        (match self.name {
            Some(n) => length_errors("name", n@.len(), 1, usize::MAX as nat),
            None => Seq::empty(),
        }) + (match self.input {
            Some(v) => length_errors("input", v@.len(), 0, 256),
            None => Seq::empty(),
        }) + (match self.expected_output {
            Some(v) => length_errors("expected_output", v@.len(), 0, 256),
            None => Seq::empty(),
        })
    }

    fn validate(&self) -> (r: Result<(), ValidationErrors>) {
        let mut errors: Vec<ValidationError> = Vec::new();
        if let Some(n) = self.name {
            check_length(&mut errors, "name", n.unicode_len(), 1, usize::MAX);
        }
        if let Some(v) = &self.input {
            check_length(&mut errors, "input", v.len(), 0, 256);
        }
        if let Some(v) = &self.expected_output {
            check_length(&mut errors, "expected_output", v.len(), 0, 256);
        }
        assert(errors@ =~= self.validation_errors());
        finish(errors)
    }
}

/// A new user program: the file name is not empty.
#[derive(Clone, Debug, PartialEq)]
pub struct NewUserProgram<'a> {
    /// The user's ID: the 128 bits of its UUID.
    pub user_id: u128,
    /// The program spec's ID: the 128 bits of its UUID.
    pub program_spec_id: u128,
    pub file_name: &'a str,
    pub source_code: &'a str,
    /// The ID of the record of the program's last successful run, if any.
    pub record_id: Option<u128>,
}

impl<'a> Validate for NewUserProgram<'a> {
    open spec fn validation_errors(&self) -> Seq<ValidationError> {
        length_errors("file_name", self.file_name@.len(), 1, usize::MAX as nat)
    }

    fn validate(&self) -> (r: Result<(), ValidationErrors>) {
        let mut errors: Vec<ValidationError> = Vec::new();
        check_length(&mut errors, "file_name", self.file_name.unicode_len(), 1, usize::MAX);
        assert(errors@ =~= self.validation_errors());
        finish(errors)
    }
}

/// Changes to a user program; a file name, if given, is not empty.
#[derive(Clone, Debug, PartialEq)]
pub struct ModifiedUserProgram<'a> {
    /// The user program's ID: the 128 bits of its UUID.
    pub id: u128,
    /// The new record of the last successful run, if it changes: `Some(None)`
    /// clears it.
    pub record_id: Option<Option<u128>>,
    pub file_name: Option<&'a str>,
    pub source_code: Option<&'a str>,
}

impl<'a> ModifiedUserProgram<'a> {
    /// The changes that an update of a user program makes. New source code
    /// clears the record of the last successful run, which was a run of the
    /// old code.
    pub fn new(id: u128, file_name: Option<&'a str>, source_code: Option<&'a str>) -> (m: Self)
        ensures
            m.id == id,
            m.file_name == file_name,
            m.source_code == source_code,
            m.record_id == if source_code is Some {
                Some(None::<u128>)
            } else {
                None::<Option<u128>>
            },
    {
        let record_id = match source_code {
            None => None,
            Some(_) => Some(None),
        };
        ModifiedUserProgram { id, record_id, file_name, source_code }
    }
}

/// The file name of a copy of a user program: the original name followed by
/// ` copy`.
pub fn copy_file_name(file_name: &str) -> (name: String)
    ensures
        name@ == file_name@ + " copy"@,
{
    let mut name = String::from_str(file_name);
    name.append(" copy");
    name
}

impl<'a> Validate for ModifiedUserProgram<'a> {
    open spec fn validation_errors(&self) -> Seq<ValidationError> {
        match self.file_name {
            Some(n) => length_errors("file_name", n@.len(), 1, usize::MAX as nat),
            None => Seq::empty(),
        }
    }

    fn validate(&self) -> (r: Result<(), ValidationErrors>) {
        let mut errors: Vec<ValidationError> = Vec::new();
        if let Some(n) = self.file_name {
            check_length(&mut errors, "file_name", n.unicode_len(), 1, usize::MAX);
        }
        assert(errors@ =~= self.validation_errors());
        finish(errors)
    }
}

} // verus!
