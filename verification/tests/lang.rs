use gdlk::lang::ast::{Instr, MachineInstr, Operator, Program, RegisterRef, ValueSource};
use gdlk::lang::compile;
use gdlk::lang::error::{CompileError, RuntimeError};
use gdlk::lang::machine::{Machine, MachineState};
use gdlk::lang::Compiler;
use gdlk::models::Environment;

/// Compiles and executes the program within the given env. Panics if the
/// compile fails or the execution isn't successful.
fn execute_expect_success(env: Environment, src: &str) {
    let mut machine = compile(&env, src.into()).unwrap();
    let success = machine.execute_all().unwrap();
    let state = machine.get_state();
    assert_eq!(state.input, Vec::new() as Vec<i32>);
    assert_eq!(state.output, env.expected_output);
    assert!(success);
}

/// Compiles the program within the given env, expecting compile error(s).
fn expect_compile_errors(env: Environment, src: &str, expected_errors: &[&str]) {
    let actual_errors = compile(&env, src.into()).unwrap_err();
    assert_eq!(actual_errors.to_string(), expected_errors.join("\n"));
}

fn set(reg: usize, value: i32) -> Operator {
    Operator::Assign(RegisterRef::User(reg), ValueSource::Const(value))
}

#[test]
fn test_read_write() {
    execute_expect_success(
        Environment {
            id: 0,
            num_registers: 1,
            num_stacks: 0,
            max_stack_length: 0,
            input: vec![1, 2],
            expected_output: vec![1, 2],
        },
        "
            READ RX0
            WRITE RX0
            READ RX0
            WRITE RX0
            ",
    );
}

#[test]
fn test_set_push_pop() {
    execute_expect_success(
        Environment {
            id: 0,
            num_registers: 2,
            num_stacks: 1,
            max_stack_length: 5,
            input: vec![],
            expected_output: vec![10, 5],
        },
        "
            SET RX0 10
            PUSH RX0 S0
            SET RX0 0
            POP S0 RX0
            WRITE RX0
            SET RX1 5
            SET RX0 RX1
            WRITE RX0
            ",
    );
}

#[test]
fn mod_test_if() {
    execute_expect_success(
        Environment {
            id: 0,
            num_registers: 1,
            num_stacks: 0,
            max_stack_length: 0,
            input: vec![],
            expected_output: vec![1],
        },
        "
            IF RX0 {
                WRITE RX0
            }
            SET RX0 1
            IF RX0 {
                WRITE RX0
            }
            ",
    );
}

#[test]
fn mod_test_while() {
    execute_expect_success(
        Environment {
            id: 0,
            num_registers: 1,
            num_stacks: 1,
            max_stack_length: 5,
            input: vec![],
            expected_output: vec![2, 1, 0],
        },
        "
            PUSH RX0 S0
            SET RX0 1
            PUSH RX0 S0
            SET RX0 2
            PUSH RX0 S0
            WHILE RX0 {
                POP S0 RX0
                WRITE RX0
            }
            ",
    );
}

#[test]
fn test_arithmetic() {
    execute_expect_success(
        Environment {
            id: 0,
            num_registers: 2,
            num_stacks: 0,
            max_stack_length: 0,
            input: vec![],
            expected_output: vec![-3, 140],
        },
        "
            ADD RX0 1
            SUB RX0 2
            MUL RX0 3
            WRITE RX0

            SET RX0 5
            SET RX1 10
            ADD RX0 RX1
            MUL RX0 RX1
            SUB RX0 RX1
            WRITE RX0
            ",
    );
}

#[test]
fn test_square_all() {
    execute_expect_success(
        Environment {
            id: 0,
            num_registers: 1,
            num_stacks: 0,
            max_stack_length: 0,
            input: vec![1, 2, 3, 4, 5, 6, 7, 8, 9, 10],
            expected_output: vec![1, 4, 9, 16, 25, 36, 49, 64, 81, 100],
        },
        "
            WHILE RLI {
                READ RX0
                MUL RX0 RX0
                WRITE RX0
            }
            ",
    );
}

#[test]
fn test_fibonacci() {
    execute_expect_success(
        Environment {
            id: 0,
            num_registers: 4,
            num_stacks: 0,
            max_stack_length: 0,
            input: vec![10],
            expected_output: vec![0, 1, 1, 2, 3, 5, 8, 13, 21, 34],
        },
        "
            READ RX0
            SET RX1 0
            SET RX2 1
            WHILE RX0 {
                WRITE RX1
                SET RX3 RX2
                ADD RX2 RX1
                SET RX1 RX3
                SUB RX0 1
            }
            ",
    );
}

#[test]
fn test_invalid_user_reg_ref() {
    expect_compile_errors(
        Environment {
            num_registers: 1,
            num_stacks: 1,
            ..Environment::default()
        },
        "
            READ RX1
            WRITE RX2
            SET RX3 RX0
            ADD RX4 RX0
            SUB RX5 RX0
            MUL RX6 RX0
            PUSH RX7 S0
            POP S0 RX8
            ",
        &[
            "Invalid reference to register RX1",
            "Invalid reference to register RX2",
            "Invalid reference to register RX3",
            "Invalid reference to register RX4",
            "Invalid reference to register RX5",
            "Invalid reference to register RX6",
            "Invalid reference to register RX7",
            "Invalid reference to register RX8",
        ],
    );
}

#[test]
fn test_invalid_stack_reg_ref() {
    expect_compile_errors(
        Environment {
            num_stacks: 1,
            ..Environment::default()
        },
        "
        SET RX0 RS1
        ",
        &["Invalid reference to register RS1"],
    );
}

#[test]
fn test_invalid_stack_ref() {
    expect_compile_errors(
        Environment {
            num_stacks: 1,
            ..Environment::default()
        },
        "
            PUSH 5 S1
            POP S2 RX0
            ",
        &[
            "Invalid reference to stack S1",
            "Invalid reference to stack S2",
        ],
    );
}

#[test]
fn test_unwritable_reg() {
    expect_compile_errors(
        Environment {
            num_stacks: 1,
            ..Environment::default()
        },
        "
            SET RLI 5
            SET RS0 5
            ",
        &[
            "Cannot write to read-only register RLI",
            "Cannot write to read-only register RS0",
        ],
    );
}

#[test]
fn desugar_test_if() {
    let compiler = Compiler(Program {
        body: vec![
            Instr::Operator(set(0, 0)),
            Instr::If(RegisterRef::User(0), vec![Instr::Operator(set(0, 1))]),
            Instr::Operator(set(0, 2)),
        ],
    });
    assert_eq!(
        compiler.desugar().0,
        vec![
            MachineInstr::Operator(set(0, 0)),
            MachineInstr::Jez(2, RegisterRef::User(0)),
            MachineInstr::Operator(set(0, 1)),
            MachineInstr::Operator(set(0, 2)),
        ]
    )
}

#[test]
fn desugar_test_while() {
    let compiler = Compiler(Program {
        body: vec![
            Instr::Operator(set(0, 0)),
            Instr::While(RegisterRef::User(0), vec![Instr::Operator(set(0, 1))]),
            Instr::Operator(set(0, 2)),
        ],
    });
    assert_eq!(
        compiler.desugar().0,
        vec![
            MachineInstr::Operator(set(0, 0)),
            MachineInstr::Jez(3, RegisterRef::User(0)),
            MachineInstr::Operator(set(0, 1)),
            MachineInstr::Jnz(-1, RegisterRef::User(0)),
            MachineInstr::Operator(set(0, 2)),
        ]
    )
}

#[test]
fn test_simple_program() {
    let env = Environment {
        id: 0,
        num_registers: 1,
        num_stacks: 0,
        max_stack_length: 0,
        input: vec![1],
        expected_output: vec![1],
    };
    let program = vec![
        MachineInstr::Operator(Operator::Read(RegisterRef::User(0))),
        MachineInstr::Operator(Operator::Write(RegisterRef::User(0))),
    ];
    let mut machine = Machine::new(&env, program);

    assert_eq!(
        *machine.get_state(),
        MachineState {
            max_stack_length: 0,
            input: vec![1],
            output: vec![],
            registers: vec![0],
            stacks: vec![],
        }
    );
    assert!(!machine.is_successful());

    machine.execute_next().unwrap();
    assert_eq!(
        *machine.get_state(),
        MachineState {
            max_stack_length: 0,
            input: vec![],
            output: vec![],
            registers: vec![1],
            stacks: vec![],
        }
    );
    assert!(!machine.is_successful());

    machine.execute_next().unwrap();
    assert_eq!(
        *machine.get_state(),
        MachineState {
            max_stack_length: 0,
            input: vec![],
            output: vec![1],
            registers: vec![1],
            stacks: vec![],
        }
    );
    assert!(machine.is_successful());
}

#[test]
fn test_runtime_errors() {
    let env = Environment {
        num_registers: 1,
        num_stacks: 1,
        max_stack_length: 1,
        ..Environment::default()
    };
    let mut machine = compile(&env, "READ RX0".into()).unwrap();
    assert_eq!(machine.execute_all(), Err(RuntimeError::EmptyInput));
    let mut machine = compile(&env, "POP S0 RX0".into()).unwrap();
    assert_eq!(machine.execute_all(), Err(RuntimeError::EmptyStack(0)));
    let mut machine = compile(&env, "PUSH 1 S0\nPUSH 2 S0".into()).unwrap();
    assert_eq!(machine.execute_all(), Err(RuntimeError::StackOverflow(0)));
    assert_eq!(machine.get_state().stacks, vec![vec![1]]);
    // Nothing to read and nothing expected: the run succeeds.
    let mut machine = compile(&env, "SET RX0 1".into()).unwrap();
    assert_eq!(machine.execute_all(), Ok(true));
    assert!(machine.is_complete());
}

#[test]
fn test_parse_errors() {
    let env = Environment::default();
    let errors = compile(&env, "READ RX0\nJUMP".into()).unwrap_err();
    assert_eq!(errors.errors, vec![CompileError::ParseError(9)]);
    // A program of only whitespace is not a sequence of statements.
    let errors = compile(&env, "   ".into()).unwrap_err();
    assert_eq!(errors.errors, vec![CompileError::ParseError(0)]);
    let mut machine = compile(&env, "".into()).unwrap();
    assert_eq!(machine.execute_all(), Ok(true));
}

#[test]
fn test_parse_case_and_spacing() {
    let parsed = Compiler::new("ReAd rx0\n\twHiLe RLI{}if RX0 {  }".into()).parse().unwrap();
    assert_eq!(
        parsed.0,
        Program {
            body: vec![
                Instr::Operator(Operator::Read(RegisterRef::User(0))),
                Instr::While(RegisterRef::InputLength, vec![]),
                Instr::If(RegisterRef::User(0), vec![]),
            ]
        }
    );
    let parsed = Compiler::new("PUSH RX2 \n S4 POP S4 RX2".into()).parse().unwrap();
    assert_eq!(
        parsed.0.body,
        vec![
            Instr::Operator(Operator::Push(ValueSource::Register(RegisterRef::User(2)), 4)),
            Instr::Operator(Operator::Pop(4, RegisterRef::User(2))),
        ]
    );
}

#[test]
fn test_wrapping_arithmetic() {
    let env = Environment {
        num_registers: 1,
        expected_output: vec![i32::MIN],
        ..Environment::default()
    };
    let mut machine = compile(&env, "SET RX0 2147483647\nADD RX0 1\nWRITE RX0".into()).unwrap();
    assert_eq!(machine.execute_all(), Ok(true));
    // A constant larger than i32::MAX is not part of the grammar.
    assert!(compile(&env, "SET RX0 2147483648".into()).is_err());
}

#[test]
fn test_machine_skips_unfitting_instruction() {
    // The second instruction names a register that does not exist, but the
    // jump before it always skips it, so the machine runs to completion.
    let env = Environment::default();
    let program = vec![
        MachineInstr::Jez(2, RegisterRef::User(0)),
        MachineInstr::Operator(Operator::Read(RegisterRef::User(5))),
    ];
    let mut machine = Machine::new(&env, program);
    assert_eq!(machine.execute_all(), Ok(true));
    assert_eq!(machine.program_counter(), 2);
}

#[test]
fn test_jump_past_end_moves_counter_by_offset() {
    let env = Environment { num_registers: 1, ..Environment::default() };
    let program = vec![
        MachineInstr::Jez(5, RegisterRef::User(0)),
        MachineInstr::Operator(set(0, 1)),
    ];
    let mut machine = Machine::new(&env, program);
    assert_eq!(machine.execute_next(), Ok(()));
    assert_eq!(machine.program_counter(), 5);
    assert!(machine.is_complete());
    assert!(machine.is_successful());
}

#[test]
fn test_jump_within_program() {
    let env = Environment { num_registers: 1, ..Environment::default() };
    let program = vec![
        MachineInstr::Operator(set(0, 1)),
        MachineInstr::Jnz(2, RegisterRef::User(0)),
        MachineInstr::Operator(set(0, 2)),
        MachineInstr::Jez(-3, RegisterRef::User(0)),
    ];
    let mut machine = Machine::new(&env, program);
    machine.execute_next().unwrap();
    machine.execute_next().unwrap();
    assert_eq!(machine.program_counter(), 3);
    // RX0 is 1, so the JEZ is not taken.
    machine.execute_next().unwrap();
    assert_eq!(machine.program_counter(), 4);
    assert!(machine.is_complete());
}

#[test]
fn test_negative_jump_wraps_counter() {
    let env = Environment { num_registers: 1, ..Environment::default() };
    let program = vec![
        MachineInstr::Operator(set(0, 1)),
        MachineInstr::Jnz(-3, RegisterRef::User(0)),
    ];
    let mut machine = Machine::new(&env, program);
    machine.execute_next().unwrap();
    machine.execute_next().unwrap();
    assert_eq!(machine.program_counter(), usize::MAX - 1);
    assert!(machine.is_complete());
}

#[test]
fn test_desugar_concatenation() {
    let first = || {
        vec![
            Instr::Operator(set(0, 0)),
            Instr::If(RegisterRef::User(0), vec![Instr::Operator(set(0, 1))]),
        ]
    };
    let second = || vec![Instr::While(RegisterRef::User(0), vec![Instr::Operator(set(0, 2))])];
    let mut both = first();
    both.extend(second());
    let whole = Compiler(Program { body: both }).desugar().0;
    let mut parts = Compiler(Program { body: first() }).desugar().0;
    parts.extend(Compiler(Program { body: second() }).desugar().0);
    assert_eq!(whole, parts);
    assert_eq!(Compiler(Program { body: vec![] }).desugar().0, vec![]);
}
