use gdlk::lang::error::{CompileError, RuntimeError};
use gdlk::models::Environment;
use gdlk::views::{execute_user_program, ExecuteUserProgramOutput};

fn env(input: Vec<i32>, expected_output: Vec<i32>) -> Environment {
    Environment { id: 1, num_registers: 1, num_stacks: 0, max_stack_length: 0, input, expected_output }
}

#[test]
fn test_execute_accepted() {
    match execute_user_program(&env(vec![3], vec![3]), "READ RX0\nWRITE RX0".into()) {
        ExecuteUserProgramOutput::Accepted { machine } => {
            assert_eq!(machine.get_state().output, vec![3]);
        }
        other => panic!("unexpected outcome {:?}", other),
    }
}

#[test]
fn test_execute_rejected() {
    match execute_user_program(&env(vec![3], vec![4]), "READ RX0\nWRITE RX0".into()) {
        ExecuteUserProgramOutput::Rejected { machine } => {
            assert!(machine.is_complete());
            assert!(!machine.is_successful());
        }
        other => panic!("unexpected outcome {:?}", other),
    }
}

#[test]
fn test_execute_errors() {
    match execute_user_program(&env(vec![], vec![]), "READ RX0".into()) {
        ExecuteUserProgramOutput::RuntimeError(e) => assert_eq!(e, RuntimeError::EmptyInput),
        other => panic!("unexpected outcome {:?}", other),
    }
    match execute_user_program(&env(vec![], vec![]), "READ RX1".into()) {
        ExecuteUserProgramOutput::CompileError(errors) => {
            assert_eq!(
                errors.errors,
                vec![CompileError::InvalidRegisterRef(gdlk::lang::ast::RegisterRef::User(1))]
            )
        }
        other => panic!("unexpected outcome {:?}", other),
    }
}
