use gdlk::lang::error::{CompileError, RuntimeError};
use gdlk::models::Environment;
use gdlk::session::{IncomingEvent, OutgoingEvent, ProgramSession, SessionResponse};

fn env() -> Environment {
    Environment {
        id: 0,
        num_registers: 1,
        num_stacks: 1,
        max_stack_length: 5,
        input: vec![1, 2],
        expected_output: vec![1, 2],
    }
}

fn compile(session: &mut ProgramSession, src: &str) -> SessionResponse {
    session.handle(IncomingEvent::Compile { source_code: src.into() })
}

#[test]
fn test_session_step_before_compile() {
    let mut session = ProgramSession::new(env());
    let r = session.handle(IncomingEvent::Step);
    assert_eq!(r.reply, Some(OutgoingEvent::NoCompilation));
    assert!(!r.cancel_timer);
    assert_eq!(r.start_timer, None);
}

#[test]
fn test_session_compile_and_step() {
    let mut session = ProgramSession::new(env());
    let r = compile(&mut session, "READ RX0\nWRITE RX0\nREAD RX0\nWRITE RX0");
    match r.reply {
        Some(OutgoingEvent::MachineState(s)) => {
            assert_eq!(s.program_counter, 0);
            // The input is held in reverse: the next value to read is last.
            assert_eq!(s.input, vec![2, 1]);
            assert!(!s.is_complete);
        }
        other => panic!("unexpected reply {:?}", other),
    }
    for _ in 0..3 {
        session.handle(IncomingEvent::Step);
    }
    match session.handle(IncomingEvent::Step).reply {
        Some(OutgoingEvent::MachineState(s)) => {
            assert_eq!(s.program_counter, 4);
            assert_eq!(s.output, vec![1, 2]);
            assert_eq!(s.registers, vec![2]);
            assert!(s.is_complete);
            assert!(s.is_successful);
        }
        other => panic!("unexpected reply {:?}", other),
    }
    assert_eq!(
        session.handle(IncomingEvent::Step).reply,
        Some(OutgoingEvent::RuntimeError(RuntimeError::ProgramTerminated))
    );
}

#[test]
fn test_session_compile_error_keeps_machine() {
    let mut session = ProgramSession::new(env());
    compile(&mut session, "READ RX0");
    let r = compile(&mut session, "READ RX5");
    match r.reply {
        Some(OutgoingEvent::CompileError(errors)) => {
            assert_eq!(errors.errors, vec![CompileError::InvalidRegisterRef(gdlk::lang::ast::RegisterRef::User(5))]);
        }
        other => panic!("unexpected reply {:?}", other),
    }
    // The previous machine is still there.
    match session.handle(IncomingEvent::Step).reply {
        Some(OutgoingEvent::MachineState(s)) => assert_eq!(s.registers, vec![1]),
        other => panic!("unexpected reply {:?}", other),
    }
}

#[test]
fn test_session_auto_step() {
    let mut session = ProgramSession::new(env());
    let r = session.handle(IncomingEvent::AutoStepStart { interval: 100 });
    assert_eq!(r.reply, None);
    assert!(!r.cancel_timer);
    assert_eq!(r.start_timer, Some(100));
    // Restarting cancels the running timer first.
    let r = session.handle(IncomingEvent::AutoStepStart { interval: 50 });
    assert!(r.cancel_timer);
    assert_eq!(r.start_timer, Some(50));
    // A tick without a program fails and stops the timer.
    let r = session.auto_step_tick();
    assert_eq!(r.reply, Some(OutgoingEvent::NoCompilation));
    assert!(r.cancel_timer);
    let r = session.handle(IncomingEvent::AutoStepStop);
    assert!(!r.cancel_timer);

    compile(&mut session, "READ RX0\nWRITE RX0");
    session.handle(IncomingEvent::AutoStepStart { interval: 10 });
    let r = session.auto_step_tick();
    assert!(!r.cancel_timer);
    // The last instruction completes the program, which stops the timer.
    let r = session.auto_step_tick();
    assert!(r.cancel_timer);
    let r = session.handle(IncomingEvent::AutoStepStop);
    assert!(!r.cancel_timer);
}
